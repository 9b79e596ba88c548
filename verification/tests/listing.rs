use scoopgui::model::{Bucket, Package};
use scoopgui::scoop::ScoopCommand;

type Row = (String, String, Option<String>, bool, Option<String>);

fn row(p: &Package) -> Row {
    (p.name.clone(), p.version.clone(), p.description.clone(), p.installed, p.bucket.clone())
}

fn brow(b: &Bucket) -> (String, String, Option<String>) {
    (b.name.clone(), b.source.clone(), b.updated.clone())
}

/// The reading of `scoop list` output as the command-line program does it.
fn reference_installed(output: &str) -> Vec<Row> {
    let mut packages = Vec::new();
    let mut header_skipped = false;
    let mut separator_skipped = false;
    for line in output.lines() {
        let trimmed_line = line.trim();
        if trimmed_line.is_empty() {
            continue;
        }
        if !header_skipped {
            if trimmed_line.starts_with("Name") {
                header_skipped = true;
            }
            continue;
        }
        if !separator_skipped {
            if trimmed_line.starts_with("----") {
                separator_skipped = true;
            }
            continue;
        }
        let parts: Vec<&str> = trimmed_line.split_whitespace().collect();
        if parts.len() >= 2 {
            packages.push((
                parts[0].to_string(),
                parts[1].to_string(),
                None,
                true,
                if parts.len() > 2 { Some(parts[2].to_string()) } else { None },
            ));
        }
    }
    packages
}

/// The reading of `scoop search` output as the command-line program does it.
fn reference_search(output: &str) -> Vec<Row> {
    let mut packages = Vec::new();
    let mut current_bucket = String::new();
    let mut header_skipped = false;
    let mut separator_skipped = false;
    for line in output.lines() {
        let trimmed_line = line.trim();
        if trimmed_line.is_empty() {
            header_skipped = false;
            separator_skipped = false;
            continue;
        }
        if !trimmed_line.contains(' ') && trimmed_line.ends_with(':') {
            current_bucket = trimmed_line.trim_end_matches(':').to_string();
            header_skipped = false;
            separator_skipped = false;
            continue;
        }
        if !header_skipped {
            if trimmed_line.starts_with("Name") {
                header_skipped = true;
            }
            continue;
        }
        if !separator_skipped {
            if trimmed_line.starts_with("----") {
                separator_skipped = true;
            }
            continue;
        }
        let parts: Vec<&str> = trimmed_line.split_whitespace().collect();
        if parts.len() >= 2 {
            packages.push((
                parts[0].to_string(),
                parts[1].to_string(),
                if parts.len() > 2 { Some(parts[2..].join(" ")) } else { None },
                false,
                Some(current_bucket.clone()),
            ));
        }
    }
    packages
}

/// The reading of `scoop bucket list` output as the command-line program
/// does it.
fn reference_buckets(output: &str) -> Vec<(String, String, Option<String>)> {
    let mut buckets = Vec::new();
    let mut header_skipped = false;
    let mut separator_skipped = false;
    for line in output.lines() {
        let trimmed_line = line.trim();
        if trimmed_line.is_empty() {
            continue;
        }
        if !header_skipped {
            if trimmed_line.starts_with("Name") {
                header_skipped = true;
            }
            continue;
        }
        if !separator_skipped {
            if trimmed_line.starts_with("----") {
                separator_skipped = true;
            }
            continue;
        }
        let parts: Vec<&str> = trimmed_line.split_whitespace().collect();
        if parts.len() >= 2 {
            buckets.push((
                parts[0].to_string(),
                parts[1].to_string(),
                if parts.len() > 2 { Some(parts[2..parts.len() - 1].join(" ")) } else { None },
            ));
        }
    }
    buckets
}

const LIST_OUTPUT: &str = "Installed apps:\r\n\r\nName    Version  Source Updated             Info\r\n----    -------  ------ -------             ----\r\n7zip    23.01    main   2023-07-01 10:00:00\r\ngit     2.41.0   main   2023-07-02 11:11:11\r\nlonely\r\nnodejs  20.5.0\r\n\r\n";

const SEARCH_OUTPUT: &str = "Results from local buckets...\n\nmain:\nName Version Source Binaries\n---- ------- ------ --------\ngit 2.41.0 main git.exe\ngit-lfs 3.4.0\n\nextras:\nName Version Info\n---- ------- ----\ngitkraken 9.6.1 a git client with a gui\n";

const BUCKET_OUTPUT: &str = "\nName    Source                                   Updated            Manifests\n----    ------                                   -------            ---------\nmain    https://github.com/ScoopInstaller/Main   2023-07-01 10:00:00      1234\nextras  https://github.com/ScoopInstaller/Extras 2023-07-02 09:00:00      1800\nlocal   C:\\buckets\\local 12\nbare    D:\\bare\n";

const ODD_OUTPUTS: &[&str] = &[
    "",
    "no table here\nat all\n",
    "Name\n",
    "Name\n----\n",
    "Name\n----\nonly\n",
    "  Name  \n  ----  \n  a   b  \n",
    "Nameless\nNot a rule\n----\nx y z w\n",
    "Name x\n---- y\na b\n\nc d\nmain:\ne f\n",
    "a:\nName\n----\np 1 \u{3000}desc  with   gaps\u{3000}\nb c:\nq 2\n",
    "::\nName\n----\nr 3\n",
];

#[test]
fn installed_list_sample() {
    let ps = ScoopCommand::parse_installed(LIST_OUTPUT);
    let rows: Vec<Row> = ps.iter().map(row).collect();
    assert_eq!(
        rows,
        vec![
            ("7zip".to_string(), "23.01".to_string(), None, true, Some("main".to_string())),
            ("git".to_string(), "2.41.0".to_string(), None, true, Some("main".to_string())),
            ("nodejs".to_string(), "20.5.0".to_string(), None, true, None),
        ]
    );
}

#[test]
fn installed_list_matches_reference() {
    for s in ODD_OUTPUTS.iter().chain([LIST_OUTPUT, SEARCH_OUTPUT, BUCKET_OUTPUT].iter()) {
        let ours: Vec<Row> = ScoopCommand::parse_installed(s).iter().map(row).collect();
        assert_eq!(ours, reference_installed(s), "input {:?}", s);
    }
}

#[test]
fn search_sample() {
    let ps = ScoopCommand::parse_search(SEARCH_OUTPUT);
    let rows: Vec<Row> = ps.iter().map(row).collect();
    assert_eq!(
        rows,
        vec![
            (
                "git".to_string(),
                "2.41.0".to_string(),
                Some("main git.exe".to_string()),
                false,
                Some("main".to_string())
            ),
            ("git-lfs".to_string(), "3.4.0".to_string(), None, false, Some("main".to_string())),
            (
                "gitkraken".to_string(),
                "9.6.1".to_string(),
                Some("a git client with a gui".to_string()),
                false,
                Some("extras".to_string())
            ),
        ]
    );
}

#[test]
fn search_matches_reference() {
    for s in ODD_OUTPUTS.iter().chain([LIST_OUTPUT, SEARCH_OUTPUT, BUCKET_OUTPUT].iter()) {
        let ours: Vec<Row> = ScoopCommand::parse_search(s).iter().map(row).collect();
        assert_eq!(ours, reference_search(s), "input {:?}", s);
    }
}

#[test]
fn search_bucket_line_strips_all_colons_and_needs_no_space() {
    let ps = ScoopCommand::parse_search("versions::\nName\n----\nx 1\nnot bucket:\ny 2\n");
    let rows: Vec<Row> = ps.iter().map(row).collect();
    // "not bucket:" has a space, so it is a row of the current table.
    assert_eq!(rows.len(), 3);
    assert_eq!(rows[1].0, "not");
    assert_eq!(rows[1].1, "bucket:");
    assert!(rows.iter().all(|r| r.4 == Some("versions".to_string())));
}

#[test]
fn search_blank_line_restarts_table() {
    // After a blank line the next line is a header candidate again, not a row.
    let ps = ScoopCommand::parse_search("main:\nName\n----\na 1\n\nb 2\nName\n----\nc 3\n");
    let names: Vec<String> = ps.iter().map(|p| p.name.clone()).collect();
    assert_eq!(names, vec!["a", "c"]);
}

#[test]
fn bucket_list_sample() {
    let bs = ScoopCommand::parse_buckets(BUCKET_OUTPUT);
    let rows: Vec<(String, String, Option<String>)> = bs.iter().map(brow).collect();
    assert_eq!(
        rows,
        vec![
            (
                "main".to_string(),
                "https://github.com/ScoopInstaller/Main".to_string(),
                Some("2023-07-01 10:00:00".to_string())
            ),
            (
                "extras".to_string(),
                "https://github.com/ScoopInstaller/Extras".to_string(),
                Some("2023-07-02 09:00:00".to_string())
            ),
            ("local".to_string(), "C:\\buckets\\local".to_string(), Some(String::new())),
            ("bare".to_string(), "D:\\bare".to_string(), None),
        ]
    );
}

#[test]
fn bucket_list_matches_reference() {
    for s in ODD_OUTPUTS.iter().chain([LIST_OUTPUT, SEARCH_OUTPUT, BUCKET_OUTPUT].iter()) {
        let ours: Vec<(String, String, Option<String>)> =
            ScoopCommand::parse_buckets(s).iter().map(brow).collect();
        assert_eq!(ours, reference_buckets(s), "input {:?}", s);
    }
}

#[test]
fn no_header_no_rows() {
    let s = "7zip 23.01 main\n---- ----\ngit 2.41.0 main\n";
    assert!(ScoopCommand::parse_installed(s).is_empty());
    assert!(ScoopCommand::parse_buckets(s).is_empty());
    assert!(ScoopCommand::parse_search(s).is_empty());
}

#[test]
fn installed_rows_are_words() {
    for p in ScoopCommand::parse_installed(LIST_OUTPUT) {
        assert!(p.installed);
        assert!(p.description.is_none());
        assert!(!p.name.is_empty() && !p.name.contains(char::is_whitespace));
        assert!(!p.version.is_empty() && !p.version.contains(char::is_whitespace));
    }
}

#[test]
fn bucket_and_search_rows_are_words() {
    for b in ScoopCommand::parse_buckets(BUCKET_OUTPUT) {
        assert!(!b.name.is_empty() && !b.name.contains(char::is_whitespace));
        assert!(!b.source.is_empty() && !b.source.contains(char::is_whitespace));
    }
    let found = ScoopCommand::parse_search(SEARCH_OUTPUT);
    assert!(found.len() <= SEARCH_OUTPUT.lines().count());
    for p in found {
        assert!(!p.installed);
        assert!(p.bucket.is_some());
        assert!(!p.name.is_empty() && !p.name.contains(char::is_whitespace));
        assert!(!p.version.is_empty() && !p.version.contains(char::is_whitespace));
    }
}

#[test]
fn search_sections_read_independently() {
    let o1 = "main:\nName Version\n---- -------\ngit 2.41.0\nName\n";
    let o2 = "\n  \nextras:\nName Version Info\n---- ------- ----\ngitkraken 9.6.1 a client\n";
    let joined = format!("{}\n{}", o1, o2);
    let whole: Vec<Row> = ScoopCommand::parse_search(&joined).iter().map(row).collect();
    let mut parts: Vec<Row> = ScoopCommand::parse_search(o1).iter().map(row).collect();
    parts.extend(ScoopCommand::parse_search(o2).iter().map(row));
    assert_eq!(whole, parts);
    assert_eq!(whole.len(), 2);
}

#[test]
fn listings_ignore_blank_lines_and_edge_space() {
    let spaced = "\n\n  Installed apps:  \n\n\tName Version Source\n\n----  -------\n \n   7zip   23.01   main  \r\n\n";
    let tight = "Installed apps:\nName Version Source\n---- -------\n7zip   23.01   main";
    let a: Vec<Row> = ScoopCommand::parse_installed(spaced).iter().map(row).collect();
    let b: Vec<Row> = ScoopCommand::parse_installed(tight).iter().map(row).collect();
    assert_eq!(a, b);
    assert_eq!(a.len(), 1);
    let bucket_spaced = "\n Name Source Updated Manifests \n\n ---- ------ ------- ---------\n\n main https://x 2023-07-01 10:00:00 12 \n";
    let bucket_tight = "Name Source Updated Manifests\n---- ------ ------- ---------\nmain https://x 2023-07-01 10:00:00 12";
    let c: Vec<_> = ScoopCommand::parse_buckets(bucket_spaced).iter().map(brow).collect();
    let d: Vec<_> = ScoopCommand::parse_buckets(bucket_tight).iter().map(brow).collect();
    assert_eq!(c, d);
}
