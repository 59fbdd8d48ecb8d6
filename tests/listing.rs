use flick::listing::{drop_dot_entries, parse_ls_output, parse_u64, RemoteEntry};
use flick::order::{sort_by_keys, sort_listing};

#[test]
fn test_parse_ls_output_basic() {
    let output = "total 8\n\
        drwxr-xr-x 2 root root 4096 2024-01-15 10:30 subdir\n\
        -rw-r--r-- 1 root root 1234 2024-01-15 09:00 file.txt\n";
    let entries = parse_ls_output(output);
    assert_eq!(entries.len(), 2);
    assert!(entries[0].is_dir);
    assert_eq!(entries[0].name, "subdir");
    assert!(!entries[1].is_dir);
    assert_eq!(entries[1].size, 1234);
}

#[test]
fn test_parse_ls_output_skips_dots() {
    let output = "total 4\n\
        drwxr-xr-x 2 root root 4096 2024-01-15 10:30 .\n\
        drwxr-xr-x 3 root root 4096 2024-01-15 10:30 ..\n\
        -rw-r--r-- 1 root root  100 2024-01-15 09:00 readme.md\n";
    let entries = parse_ls_output(output);
    assert_eq!(entries.len(), 1);
    assert_eq!(entries[0].name, "readme.md");
}

#[test]
fn test_parse_ls_output_empty() {
    let entries = parse_ls_output("");
    assert!(entries.is_empty());
}

#[test]
fn test_parse_ls_output_filename_with_spaces() {
    let output = "-rw-r--r-- 1 root root 500 2024-01-15 09:00 my file name.txt\n";
    let entries = parse_ls_output(output);
    assert_eq!(entries.len(), 1);
    assert_eq!(entries[0].name, "my file name.txt");
}

#[test]
fn parse_ls_output_fields_and_odd_lines() {
    let output = "-rw-r--r-- 1 a b notanumber 2024-02-01 12:05 x\r\nshort line\n\
        lrwxrwxrwx 1 a b 7 2024-02-01 12:06 link -> target";
    let entries = parse_ls_output(output);
    assert_eq!(entries.len(), 2);
    assert_eq!(entries[0].size, 0);
    assert_eq!(entries[0].modified, "2024-02-01 12:05");
    assert_eq!(entries[0].name, "x");
    assert_eq!(entries[1].name, "link -> target");
    assert_eq!(entries[1].size, 7);
}

#[test]
fn parse_u64_like_std() {
    for s in ["0", "42", "+7", "18446744073709551615", "", "+", "-1", "18446744073709551616", "1a", " 1"] {
        assert_eq!(parse_u64(s), s.parse::<u64>().ok(), "{}", s);
    }
}

fn entry(name: &str, is_dir: bool, size: u64) -> RemoteEntry {
    RemoteEntry { name: name.into(), is_dir, size, modified: String::new() }
}

#[test]
fn listing_order_puts_directories_first_then_names_without_case() {
    let sorted = sort_listing(vec![
        entry("b.txt", false, 1),
        entry("Zeta", true, 0),
        entry("A.txt", false, 2),
        entry("alpha", true, 0),
        entry("a.txt", false, 3),
    ]);
    let names: Vec<&str> = sorted.iter().map(|e| e.name.as_str()).collect();
    assert_eq!(names, vec!["alpha", "Zeta", "A.txt", "a.txt", "b.txt"]);
    assert_eq!(sorted[2].size, 2);
    assert_eq!(sorted[3].size, 3);
}

#[test]
fn sort_by_keys_uses_the_given_keys() {
    let sorted = sort_by_keys(
        vec![entry("x", false, 0), entry("y", false, 1), entry("z", true, 2)],
        &vec!["2".to_string(), "1".to_string(), "9".to_string()],
    );
    let names: Vec<&str> = sorted.iter().map(|e| e.name.as_str()).collect();
    assert_eq!(names, vec!["z", "y", "x"]);
    assert!(sort_listing(vec![]).is_empty());
}

#[test]
fn dot_entries_are_left_out() {
    let kept = drop_dot_entries(vec![entry(".", true, 0), entry("a", false, 1), entry("..", true, 0), entry("...", false, 2)]);
    let names: Vec<&str> = kept.iter().map(|e| e.name.as_str()).collect();
    assert_eq!(names, vec!["a", "..."]);
}
