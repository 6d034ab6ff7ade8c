use gradelib::blame::parse_blame_output;
use gradelib::branches::parse_branch_output;
use gradelib::commits::parse_git_log_output;

#[test]
fn commit_log_with_numstat() {
    let out = "aaa|A|a@x|100|A|a@x|100|m|bbb ccc\n1\t2\tx.c\n";
    let commits = parse_git_log_output(out, "acme/widgets").unwrap();
    assert_eq!(commits.len(), 1);
    let c = &commits[0];
    assert_eq!(c.sha, "aaa");
    assert_eq!(c.additions, 1);
    assert_eq!(c.deletions, 2);
    assert!(c.is_merge);
    assert_eq!(c.repo_name, "acme/widgets");
    assert_eq!(c.author_name, "A");
    assert_eq!(c.author_email, "a@x");
    assert_eq!(c.author_timestamp, 100);
    assert_eq!(c.committer_timestamp, 100);
    assert_eq!(c.message, "m");
    assert_eq!(c.author_offset, 0);
    assert_eq!(c.committer_offset, 0);
}

#[test]
fn commit_log_skips_lines_with_other_field_counts() {
    let out = "x|y|z\nabc|N|n@x|5|C|c@x|6|subject|p1\n3\t4\ta.rs\n-\t-\tbin.png\n10\t0\tb.rs\n\nbad|line\ndef|N|n@x|notanumber|C|c@x|-7|s2|\n";
    let commits = parse_git_log_output(out, "o/r").unwrap();
    assert_eq!(commits.len(), 2);
    assert_eq!(commits[0].sha, "abc");
    assert_eq!(commits[0].additions, 13);
    assert_eq!(commits[0].deletions, 4);
    assert!(!commits[0].is_merge);
    assert_eq!(commits[1].sha, "def");
    assert_eq!(commits[1].author_timestamp, 0);
    assert_eq!(commits[1].committer_timestamp, -7);
    assert_eq!(commits[1].additions, 0);
    assert!(!commits[1].is_merge);
}

#[test]
fn commit_log_empty_output() {
    assert!(parse_git_log_output("", "o/r").unwrap().is_empty());
}

#[test]
fn commit_log_crlf_lines() {
    let out = "s|a|e|1|c|f|2|msg|p q\r\n7\t1\tf\r\n";
    let commits = parse_git_log_output(out, "o/r").unwrap();
    assert_eq!(commits.len(), 1);
    assert_eq!(commits[0].additions, 7);
    assert_eq!(commits[0].deletions, 1);
    assert!(commits[0].is_merge);
}

#[test]
fn blame_porcelain_record() {
    let out = "Commit abc\nauthor Alice\nauthor-mail <a@x>\noriginal-line 4\nfinal-line 7\n\thello\n";
    let lines = parse_blame_output(out).unwrap();
    assert_eq!(lines.len(), 1);
    let b = &lines[0];
    assert_eq!(b.commit_id, "abc");
    assert_eq!(b.author_name, "Alice");
    assert_eq!(b.author_email, "a@x");
    assert_eq!(b.orig_line_no, 4);
    assert_eq!(b.final_line_no, 7);
    assert_eq!(b.line_content, "hello");
}

#[test]
fn blame_carries_latest_values() {
    let out = "0123abcd 1 1 1\nauthor Bob\nauthor-mail bob@x\noriginal-line x\nfinal-line 2\n\tfirst\nauthor Carol\n\t\tsecond\n";
    let lines = parse_blame_output(out).unwrap();
    assert_eq!(lines.len(), 2);
    assert_eq!(lines[0].commit_id, "");
    assert_eq!(lines[0].author_name, "Bob");
    assert_eq!(lines[0].author_email, "bob@x");
    assert_eq!(lines[0].orig_line_no, 0);
    assert_eq!(lines[0].final_line_no, 2);
    assert_eq!(lines[0].line_content, "first");
    assert_eq!(lines[1].author_name, "Carol");
    assert_eq!(lines[1].author_email, "bob@x");
    assert_eq!(lines[1].line_content, "\tsecond");
}

#[test]
fn branch_list_kinds() {
    let out = "refs/heads/main|c1|init|Ann|<ann@x>|1700000000|*\nrefs/remotes/origin/feature/x|c2|wip|Ben|<ben@x>|12|\nrefs/remotes/origin|c3|s|C|e|zz| \nHEAD|c4|s|D|e|1|\nshort|line\n";
    let b = parse_branch_output(out);
    assert_eq!(b.len(), 4);
    assert_eq!(b[0].name, "main");
    assert!(!b[0].is_remote);
    assert!(b[0].is_head);
    assert_eq!(b[0].remote_name, None);
    assert_eq!(b[0].author_time, 1700000000);
    assert_eq!(b[0].commit_id, "c1");
    assert_eq!(b[0].commit_message, "init");
    assert_eq!(b[0].author_email, "<ann@x>");
    assert_eq!(b[1].name, "feature/x");
    assert!(b[1].is_remote);
    assert_eq!(b[1].remote_name.as_deref(), Some("origin"));
    assert!(!b[1].is_head);
    assert_eq!(b[2].name, "refs/remotes/origin");
    assert!(b[2].is_remote);
    assert_eq!(b[2].remote_name, None);
    assert_eq!(b[2].author_time, 0);
    assert!(!b[2].is_head);
    assert_eq!(b[3].name, "HEAD");
    assert!(!b[3].is_remote);
}

#[test]
fn commit_timestamps_at_the_limits() {
    let out = "a|n|e|9223372036854775807|c|f|-9223372036854775808|s|p\nb|n|e|9223372036854775808|c|f|+42|s|p\n";
    let commits = parse_git_log_output(out, "o/r").unwrap();
    assert_eq!(commits.len(), 2);
    assert_eq!(commits[0].author_timestamp, i64::MAX);
    assert_eq!(commits[0].committer_timestamp, i64::MIN);
    assert_eq!(commits[1].author_timestamp, 0);
    assert_eq!(commits[1].committer_timestamp, 42);
}

#[test]
fn commit_counts_saturate() {
    let max = usize::MAX.to_string();
    let out = format!("a|n|e|1|c|f|2|s|p\n{m}\t1\tf\n{m}\t+2\tg\n18446744073709551616\tx\th\n", m = max);
    let commits = parse_git_log_output(&out, "o/r").unwrap();
    assert_eq!(commits.len(), 1);
    assert_eq!(commits[0].additions, usize::MAX);
    assert_eq!(commits[0].deletions, 3);
}

#[test]
fn commit_record_with_multibyte_text() {
    let out = "é1|Zoë|z@x|1|Zoë|z@x|2|naïve fix ✓|p\n";
    let commits = parse_git_log_output(out, "o/r").unwrap();
    assert_eq!(commits[0].sha, "é1");
    assert_eq!(commits[0].author_name, "Zoë");
    assert_eq!(commits[0].message, "naïve fix ✓");
}

#[test]
fn blame_trims_values_and_keeps_unclosed_mail() {
    let out = "Commit   abc  \nauthor  Dee \nauthor-mail <d@x\noriginal-line  12 \nfinal-line 3\n\t\n";
    let lines = parse_blame_output(out).unwrap();
    assert_eq!(lines.len(), 1);
    assert_eq!(lines[0].commit_id, "abc");
    assert_eq!(lines[0].author_name, "Dee");
    assert_eq!(lines[0].author_email, "<d@x");
    assert_eq!(lines[0].orig_line_no, 12);
    assert_eq!(lines[0].final_line_no, 3);
    assert_eq!(lines[0].line_content, "");
    assert!(parse_blame_output("").unwrap().is_empty());
}

#[test]
fn branch_list_empty_output() {
    assert!(parse_branch_output("").is_empty());
    assert!(parse_branch_output("\n\n").is_empty());
}
