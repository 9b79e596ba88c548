use scoopgui::text::{
    chars_of, has_char, has_prefix, is_whitespace, join_spaced_of, lines_of, string_of, trim_chars,
    trim_end_char_of, words_of,
};

fn to_string(v: &Vec<char>) -> String {
    v.iter().collect()
}

const SAMPLES: &[&str] = &[
    "",
    "\n",
    "a",
    "a\n",
    "a\n\n",
    "a\r\nb\r\n",
    "  lead and trail  \n\tTabbed\t\n\u{3000}ideographic\u{3000}\n",
    "one\ntwo\nthree",
    "\n\nx\n\n",
    "Name Version\n---- -------\n7zip 23.01 main\n",
];

#[test]
fn whitespace_matches_std_for_every_char() {
    for n in 0u32..=0x10FFFF {
        if let Some(c) = char::from_u32(n) {
            assert_eq!(is_whitespace(c), c.is_whitespace(), "char U+{:04X}", n);
        }
    }
}

#[test]
fn chars_of_gives_the_characters() {
    let s = "héllo 世界";
    assert_eq!(chars_of(s), s.chars().collect::<Vec<char>>());
}

#[test]
fn lines_match_std_after_trimming() {
    for s in SAMPLES {
        let ours: Vec<String> = lines_of(s).iter().map(|l| to_string(&trim_chars(l))).collect();
        let std: Vec<String> = s.lines().map(|l| l.trim().to_string()).collect();
        assert_eq!(ours, std, "input {:?}", s);
    }
}

#[test]
fn lines_keep_inner_blank_lines_and_drop_final_newline() {
    let ls: Vec<String> = lines_of("a\n\nb\n").iter().map(to_string).collect();
    assert_eq!(ls, vec!["a", "", "b"]);
    assert!(lines_of("").is_empty());
    let one: Vec<String> = lines_of("\n").iter().map(to_string).collect();
    assert_eq!(one, vec![""]);
}

#[test]
fn trim_matches_std() {
    for s in SAMPLES {
        let v: Vec<char> = s.chars().collect();
        assert_eq!(to_string(&trim_chars(&v)), s.trim(), "input {:?}", s);
    }
    let v: Vec<char> = "\u{85}\u{a0} x y \u{2028}".chars().collect();
    assert_eq!(to_string(&trim_chars(&v)), "x y");
}

#[test]
fn words_match_split_whitespace() {
    for s in SAMPLES.iter().chain(["  a  b\tc\u{2003}d  "].iter()) {
        let v: Vec<char> = s.chars().collect();
        let ours: Vec<String> = words_of(&v).iter().map(to_string).collect();
        let std: Vec<String> = s.split_whitespace().map(|w| w.to_string()).collect();
        assert_eq!(ours, std, "input {:?}", s);
    }
}

#[test]
fn trim_end_char_matches_trim_end_matches() {
    for s in ["main:", "main::", ":", "", "a:b", "extras"] {
        let v: Vec<char> = s.chars().collect();
        assert_eq!(to_string(&trim_end_char_of(&v, ':')), s.trim_end_matches(':'));
    }
}

#[test]
fn prefix_and_char_tests() {
    let t: Vec<char> = "Name Version".chars().collect();
    assert!(has_prefix(&t, &vec!['N', 'a', 'm', 'e']));
    assert!(!has_prefix(&t, &vec!['-', '-', '-', '-']));
    assert!(!has_prefix(&vec!['N', 'a'], &vec!['N', 'a', 'm', 'e']));
    assert!(has_char(&t, ' '));
    assert!(!has_char(&t, ':'));
}

#[test]
fn join_and_string_of() {
    let ws: Vec<Vec<char>> = ["a", "bc", "d", "e"].iter().map(|w| w.chars().collect()).collect();
    assert_eq!(join_spaced_of(&ws, 1, 3), "bc d");
    assert_eq!(join_spaced_of(&ws, 2, 2), "");
    assert_eq!(join_spaced_of(&ws, 0, 4), "a bc d e");
    assert_eq!(string_of(&vec!['x', '世']), "x世");
}
