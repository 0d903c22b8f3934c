use file_organizer::clean::{format_bytes, CleanCommand};

#[test]
fn test_is_junk_file_exact_names() {
    assert!(CleanCommand::is_junk_file(".DS_Store"));
    assert!(CleanCommand::is_junk_file("Thumbs.db"));
    assert!(CleanCommand::is_junk_file("desktop.ini"));
}

#[test]
fn test_is_junk_file_extensions() {
    assert!(CleanCommand::is_junk_file("file.tmp"));
    assert!(CleanCommand::is_junk_file("data.temp"));
    assert!(CleanCommand::is_junk_file(".file.swp"));
    assert!(CleanCommand::is_junk_file(".file.swo"));
    assert!(CleanCommand::is_junk_file("backup.bak"));
    assert!(CleanCommand::is_junk_file("config.old"));
    assert!(CleanCommand::is_junk_file("draft.autosave"));
    assert!(CleanCommand::is_junk_file("app.log"));
    assert!(CleanCommand::is_junk_file("core.core"));
    assert!(CleanCommand::is_junk_file("crash.dmp"));
    assert!(CleanCommand::is_junk_file("crash.stackdump"));
    assert!(CleanCommand::is_junk_file("module.pyc"));
    assert!(CleanCommand::is_junk_file("module.pyo"));
    assert!(CleanCommand::is_junk_file("Main.class"));
    assert!(CleanCommand::is_junk_file("lib.ilk"));
}

#[test]
fn test_is_junk_file_tilde() {
    assert!(CleanCommand::is_junk_file("document~"));
    assert!(CleanCommand::is_junk_file("file.txt~"));
}

#[test]
fn test_is_junk_file_log_dot() {
    assert!(CleanCommand::is_junk_file("app.log.1"));
    assert!(CleanCommand::is_junk_file("error.log.2023-01-01"));
}

#[test]
fn test_is_not_junk_file() {
    assert!(!CleanCommand::is_junk_file("main.rs"));
    assert!(!CleanCommand::is_junk_file("Cargo.toml"));
    assert!(!CleanCommand::is_junk_file("README.md"));
    assert!(!CleanCommand::is_junk_file("data.json"));
}

#[test]
fn test_is_junk_dir() {
    assert!(CleanCommand::is_junk_dir("tmp"));
    assert!(CleanCommand::is_junk_dir("temp"));
    assert!(CleanCommand::is_junk_dir(".cache"));
    assert!(CleanCommand::is_junk_dir("cache"));
    assert!(CleanCommand::is_junk_dir("Cache"));
    assert!(CleanCommand::is_junk_dir("Caches"));
    assert!(CleanCommand::is_junk_dir("__pycache__"));
    assert!(CleanCommand::is_junk_dir("target"));
    assert!(CleanCommand::is_junk_dir("dist"));
    assert!(CleanCommand::is_junk_dir("build"));
    assert!(CleanCommand::is_junk_dir("out"));
    assert!(CleanCommand::is_junk_dir(".gradle"));
    assert!(CleanCommand::is_junk_dir(".pytest_cache"));
    assert!(CleanCommand::is_junk_dir(".mypy_cache"));
    assert!(CleanCommand::is_junk_dir(".ruff_cache"));
    assert!(CleanCommand::is_junk_dir(".parcel-cache"));
    assert!(CleanCommand::is_junk_dir(".vite"));
    assert!(CleanCommand::is_junk_dir(".next"));
    assert!(CleanCommand::is_junk_dir(".nuxt"));
}

#[test]
fn test_is_not_junk_dir() {
    assert!(!CleanCommand::is_junk_dir("src"));
    assert!(!CleanCommand::is_junk_dir("lib"));
    assert!(!CleanCommand::is_junk_dir("tests"));
}

#[test]
fn test_format_bytes() {
    assert_eq!(format_bytes(0), "0 B");
    assert_eq!(format_bytes(512), "512 B");
    assert_eq!(format_bytes(1024), "1.00 KB");
    assert_eq!(format_bytes(1536), "1.50 KB");
    assert_eq!(format_bytes(1048576), "1.00 MB");
    assert_eq!(format_bytes(1073741824), "1.00 GB");
}

#[test]
fn test_format_bytes_rounding() {
    assert_eq!(format_bytes(1023), "1023 B");
    assert_eq!(format_bytes(1025), "1.00 KB");
    assert_eq!(format_bytes(1100), "1.07 KB");
    assert_eq!(format_bytes(1048575), "1024.00 KB");
    assert_eq!(format_bytes(1572864), "1.50 MB");
    assert_eq!(format_bytes(10737418240), "10.00 GB");
}

#[test]
fn test_junk_file_whole_name_as_segment() {
    assert!(CleanCommand::is_junk_file("tmp"));
    assert!(!CleanCommand::is_junk_file("tmpx"));
}
