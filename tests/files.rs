use flick::files::{ensure_file_exists, validate_upload_path};
use std::path::Path;

fn check(p: &str) -> Result<(), String> {
    ensure_file_exists(p, Path::new(p).exists(), Path::new(p).is_file())
}

#[test]
fn test_ensure_file_exists_missing() {
    let result = check("/nonexistent_file_12345.txt");
    assert!(result.is_err());
}

#[test]
fn file_check_verdicts() {
    assert_eq!(ensure_file_exists("/a", false, false).unwrap_err(), "文件不存在: \"/a\"");
    assert_eq!(ensure_file_exists("/a", true, false).unwrap_err(), "路径不是一个文件: \"/a\"");
    assert!(ensure_file_exists("/a", true, true).is_ok());
}

#[test]
fn validate_upload_path_rejects_directory() {
    assert_eq!(validate_upload_path("/", Path::new("/").exists(), Path::new("/").is_file()).unwrap_err(), "路径不是一个文件: \"/\"");
}
