//! How words, joining and command lines relate: joining words with single
//! spaces and splitting the result at white space gives the words back, and
//! a command line's words are `scoop` and then its arguments.

use vstd::prelude::*;
use crate::laws::is_word;
use crate::scoop::{digit_char, digits,
    add_bucket_args_of, command_text, install_args_of, remove_bucket_args_of, search_args_of,
    uninstall_args_of, update_args_of,
};
use crate::text::{is_ws, join_spaced, split_words, words};

verus! {

proof fn lemma_split_words_append(s: Seq<char>, t: Seq<char>)
    requires
        split_words(s).1.len() == 0,
    ensures
        split_words(s + t) == (split_words(s).0 + split_words(t).0, split_words(t).1),
    decreases t.len(),
{
    if t.len() == 0 {
        assert(s + t =~= s);
        assert(split_words(s).0 + split_words(t).0 =~= split_words(s).0);
        assert(split_words(s).1 =~= split_words(t).1);
    } else {
        lemma_split_words_append(s, t.drop_last());
        assert((s + t).drop_last() =~= s + t.drop_last());
        assert((s + t).last() == t.last());
        let (d, o) = split_words(t.drop_last());
        if is_ws(t.last()) && o.len() > 0 {
            assert(split_words(s).0 + d.push(o) =~= (split_words(s).0 + d).push(o));
        }
    }
}

proof fn lemma_split_one_word(w: Seq<char>)
    requires
        forall|j: int| 0 <= j < w.len() ==> !is_ws(#[trigger] w[j]),
    ensures
        split_words(w) == (Seq::<Seq<char>>::empty(), w),
    decreases w.len(),
{
    if w.len() > 0 {
        assert forall|j: int| 0 <= j < w.drop_last().len() implies !is_ws(#[trigger] w.drop_last()[j]) by {
            assert(w.drop_last()[j] == w[j]);
        }
        lemma_split_one_word(w.drop_last());
        assert(!is_ws(w[w.len() - 1]));
        assert(w.drop_last().push(w.last()) =~= w);
    }
}

proof fn lemma_split_after_space(x: Seq<char>)
    ensures
        split_words(x.push(' ')) == (words(x), Seq::<char>::empty()),
{
    assert(x.push(' ').drop_last() =~= x);
    assert(is_ws(' '));
}

/// Splitting words joined with single spaces gives back the words.
pub proof fn law_join_then_split(ws: Seq<Seq<char>>)
    requires
        forall|i: int| 0 <= i < ws.len() ==> is_word(#[trigger] ws[i]),
    ensures
        words(join_spaced(ws)) == ws,
    decreases ws.len(),
{
    if ws.len() == 1 {
        lemma_split_one_word(ws[0]);
        assert(Seq::<Seq<char>>::empty().push(ws[0]) =~= ws);
    } else if ws.len() >= 2 {
        let init = ws.drop_last();
        assert forall|i: int| 0 <= i < init.len() implies is_word(#[trigger] init[i]) by {
            assert(init[i] == ws[i]);
        }
        law_join_then_split(init);
        let j = join_spaced(init);
        let w = ws.last();
        assert(is_word(ws[ws.len() - 1]));
        lemma_split_after_space(j);
        lemma_split_one_word(w);
        lemma_split_words_append(j.push(' '), w);
        assert(join_spaced(ws) =~= j.push(' ') + w);
        assert(init + Seq::<Seq<char>>::empty() =~= init);
        assert(init.push(w) =~= ws);
    } else {
        assert(words(join_spaced(ws)) =~= ws);
    }
}

/// Joining with single spaces: the length is the sum of the lengths and one
/// space between each two.
pub open spec fn total_len(ws: Seq<Seq<char>>) -> int
    decreases ws.len(),
{
    if ws.len() == 0 {
        0
    } else {
        total_len(ws.drop_last()) + ws.last().len()
    }
}

/// Joined words take their own length and one space between each two.
pub proof fn law_join_length(ws: Seq<Seq<char>>)
    requires
        ws.len() > 0,
    ensures
        join_spaced(ws).len() == total_len(ws) + ws.len() - 1,
    decreases ws.len(),
{
    if ws.len() > 1 {
        law_join_length(ws.drop_last());
    } else {
        assert(total_len(ws.drop_last()) == 0);
        assert(ws.last() == ws[0]);
    }
}

/// The command line that runs `scoop` with arguments that are single words
/// has as its words `scoop` and then every argument, in order; with at
/// least one argument its length is `scoop `, the arguments, and a space
/// between each two.
pub proof fn law_command_line_words(args: Seq<Seq<char>>)
    requires
        forall|i: int| 0 <= i < args.len() ==> is_word(#[trigger] args[i]),
    ensures
        words(command_text(args)) == seq![seq!['s', 'c', 'o', 'o', 'p']] + args,
        args.len() > 0 ==> command_text(args).len() == 6 + total_len(args) + args.len() - 1,
{
    reveal_strlit("scoop ");
    let scoop: Seq<char> = seq!['s', 'c', 'o', 'o', 'p'];
    assert("scoop "@ =~= scoop.push(' '));
    lemma_split_one_word(scoop);
    lemma_split_after_space(scoop);
    assert(words(scoop) =~= seq![scoop]);
    law_join_then_split(args);
    let j = join_spaced(args);
    lemma_split_words_append(scoop.push(' '), j);
    let (d, o) = split_words(j);
    if o.len() > 0 {
        assert((seq![scoop] + d).push(o) =~= seq![scoop] + d.push(o));
    } else {
        assert(seq![scoop] + d =~= seq![scoop] + d);
    }
    if args.len() > 0 {
        law_join_length(args);
    }
}

/// With two or more arguments the command line ends with a space and the
/// last argument.
pub proof fn law_command_line_ends_with_last_argument(args: Seq<Seq<char>>)
    requires
        args.len() >= 2,
    ensures
        command_text(args).len() >= args.last().len() + 1,
        command_text(args).skip(command_text(args).len() - args.last().len() - 1)
            == seq![' '] + args.last(),
{
    let c = command_text(args);
    assert(c =~= "scoop "@ + join_spaced(args.drop_last()) + seq![' '] + args.last());
    assert(c.skip(c.len() - args.last().len() - 1) =~= seq![' '] + args.last());
}

/// The command of each operation on a package or bucket names it: its last
/// argument is the name, and its command line ends with a space and the
/// name. Searching names the query the same way.
pub proof fn law_operations_name_their_target(n: Seq<char>)
    ensures
        search_args_of(n).len() == 2 && search_args_of(n).last() == n,
        install_args_of(n).len() == 2 && install_args_of(n).last() == n,
        uninstall_args_of(n).len() == 2 && uninstall_args_of(n).last() == n,
        update_args_of(n).len() == 2 && update_args_of(n).last() == n,
        add_bucket_args_of(n).len() == 3 && add_bucket_args_of(n).last() == n,
        remove_bucket_args_of(n).len() == 3 && remove_bucket_args_of(n).last() == n,
        command_text(install_args_of(n)).skip(command_text(install_args_of(n)).len() - n.len() - 1)
            == seq![' '] + n,
        command_text(uninstall_args_of(n)).skip(command_text(uninstall_args_of(n)).len() - n.len() - 1)
            == seq![' '] + n,
        command_text(update_args_of(n)).skip(command_text(update_args_of(n)).len() - n.len() - 1)
            == seq![' '] + n,
        command_text(add_bucket_args_of(n)).skip(command_text(add_bucket_args_of(n)).len() - n.len() - 1)
            == seq![' '] + n,
        command_text(remove_bucket_args_of(n)).skip(
            command_text(remove_bucket_args_of(n)).len() - n.len() - 1,
        ) == seq![' '] + n,
        command_text(search_args_of(n)).skip(command_text(search_args_of(n)).len() - n.len() - 1)
            == seq![' '] + n,
{
    law_command_line_ends_with_last_argument(search_args_of(n));
    law_command_line_ends_with_last_argument(install_args_of(n));
    law_command_line_ends_with_last_argument(uninstall_args_of(n));
    law_command_line_ends_with_last_argument(update_args_of(n));
    law_command_line_ends_with_last_argument(add_bucket_args_of(n));
    law_command_line_ends_with_last_argument(remove_bucket_args_of(n));
}

/// The number that a string of decimal digits stands for.
pub open spec fn decimal_value(ds: Seq<char>) -> int
    decreases ds.len(),
{
    if ds.len() == 0 {
        0
    } else {
        decimal_value(ds.drop_last()) * 10 + (ds.last() as u32 - '0' as u32)
    }
}

/// A natural number's decimal digits are digits, read back as the number,
/// and do not start with a zero unless the number is zero.
pub proof fn law_digits_read_back(n: nat)
    ensures
        digits(n).len() > 0,
        forall|k: int| 0 <= k < digits(n).len() ==> '0' <= #[trigger] digits(n)[k] <= '9',
        decimal_value(digits(n)) == n,
        n > 0 ==> digits(n)[0] != '0',
    decreases n,
{
    let d = digit_char((n % 10) as int);
    assert(d as u32 - '0' as u32 == n % 10);
    assert('0' <= d <= '9');
    if n >= 10 {
        law_digits_read_back(n / 10);
        let init = digits(n / 10);
        assert(digits(n).drop_last() =~= init);
        assert forall|k: int| 0 <= k < digits(n).len() implies '0' <= #[trigger] digits(n)[k] <= '9' by {
            if k < init.len() {
                assert(digits(n)[k] == init[k]);
            }
        }
        assert(digits(n)[0] == init[0]);
        assert(digits(n).last() == d);
        assert(decimal_value(digits(n)) == decimal_value(init) * 10 + (d as u32 - '0' as u32));
        assert(n == (n / 10) * 10 + n % 10);
    } else {
        assert(digits(n).last() == d);
        assert(decimal_value(digits(n)) == decimal_value(digits(n).drop_last()) * 10 + (d as u32 - '0' as u32));
        assert(digits(n).drop_last() =~= Seq::<char>::empty());
    }
}

} // verus!
