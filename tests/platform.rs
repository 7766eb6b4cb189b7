use buildtools_runner::error::RunError;
use buildtools_runner::os::{ArchiveFormat, OS};
use buildtools_runner::spigot::text_contains;
use buildtools_runner::text::{chars_of, copy_strings, decimal_string, same_text};

fn segs(parts: &[&str]) -> Vec<String> {
    parts.iter().map(|p| p.to_string()).collect()
}

#[test]
fn current_recognises_supported_platforms() {
    assert_eq!(OS::current("linux"), Ok(OS::Linux));
    assert_eq!(OS::current("windows"), Ok(OS::Windows));
    assert_eq!(OS::current("macos"), Ok(OS::MacOS));
}

#[test]
fn current_rejects_other_platforms() {
    assert_eq!(OS::current("freebsd"), Err(RunError::UnsupportedPlatform));
    assert_eq!(OS::current(""), Err(RunError::UnsupportedPlatform));
    assert_eq!(OS::current("Linux"), Err(RunError::UnsupportedPlatform));
    assert_eq!(OS::current("mac"), Err(RunError::UnsupportedPlatform));
}

#[test]
fn java_dir_follows_each_platform_layout() {
    let root = segs(&["/cache/java/17", "jdk-17.0.9+9"]);
    assert_eq!(
        OS::Linux.java_dir(&root),
        segs(&["/cache/java/17", "jdk-17.0.9+9", "bin", "java"])
    );
    assert_eq!(
        OS::Windows.java_dir(&root),
        segs(&["/cache/java/17", "jdk-17.0.9+9", "bin", "java.exe"])
    );
    assert_eq!(
        OS::MacOS.java_dir(&root),
        segs(&["/cache/java/17", "jdk-17.0.9+9", "Contents", "Home", "bin", "java"])
    );
}

#[test]
fn java_dir_of_empty_path_is_the_layout() {
    assert_eq!(OS::Linux.java_dir(&Vec::new()), segs(&["bin", "java"]));
}

#[test]
fn adoptium_names() {
    assert_eq!(OS::Linux.adoptium_name(), "linux");
    assert_eq!(OS::Windows.adoptium_name(), "windows");
    assert_eq!(OS::MacOS.adoptium_name(), "mac");
}

#[test]
fn archive_format_is_keyed_by_platform() {
    assert_eq!(OS::Windows.archive_format(), ArchiveFormat::Zip);
    assert_eq!(OS::Linux.archive_format(), ArchiveFormat::TarGz);
    assert_eq!(OS::MacOS.archive_format(), ArchiveFormat::TarGz);
}

#[test]
fn decimal_string_writes_digits() {
    assert_eq!(decimal_string(0), "0");
    assert_eq!(decimal_string(7), "7");
    assert_eq!(decimal_string(10), "10");
    assert_eq!(decimal_string(512), "512");
    assert_eq!(decimal_string(u64::MAX), "18446744073709551615");
}

#[test]
fn same_text_compares_characters() {
    assert!(same_text("linux", "linux"));
    assert!(!same_text("linux", "linu"));
    assert!(!same_text("linux", "linuX"));
    assert!(same_text("", ""));
}

#[test]
fn copy_strings_keeps_every_segment() {
    let v = segs(&["a", "", "c"]);
    assert_eq!(copy_strings(&v), v);
}


#[test]
fn text_contains_finds_substrings() {
    assert!(text_contains("1.20.1.json 1.19.4.json", "1.19.4"));
    assert!(text_contains("abc", "abc"));
    assert!(text_contains("abc", ""));
    assert!(text_contains("", ""));
    assert!(!text_contains("abc", "abcd"));
    assert!(!text_contains("1.20.1", "1.20.2"));
    assert!(text_contains("xxab", "ab"));
    assert!(!text_contains("", "a"));
}

#[test]
fn chars_of_keeps_every_character() {
    assert_eq!(chars_of("aé1"), vec!['a', 'é', '1']);
    assert_eq!(chars_of(""), Vec::<char>::new());
}
