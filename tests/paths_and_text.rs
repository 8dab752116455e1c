use dlp_agent::paths::{
    compose_child_path, compose_device_path, drive_of, to_dir_form, trim_separators,
    NtPathResolver, PathFormatError, PathNormalizer,
};
use dlp_agent::text::{decimal_text, is_blank_text, join_text, starts_with_text};
use dlp_agent::wire::{encode_utf16, fixed_units, FilePolicy, RECORD_BYTES};
use dlp_agent::kernel_policy::{
    KernelOperations, KernelPolicy, PathMatchType,
};

#[test]
fn decimal_rendering() {
    assert_eq!(decimal_text(0), "0");
    assert_eq!(decimal_text(7), "7");
    assert_eq!(decimal_text(1234), "1234");
    assert_eq!(decimal_text(u64::MAX), "18446744073709551615");
}

#[test]
fn join_and_blank() {
    assert_eq!(join_text(&vec!["a", "b", "c"], ", "), "a, b, c");
    assert_eq!(join_text(&vec![], ", "), "");
    assert!(is_blank_text(""));
    assert!(is_blank_text(" \t\u{3000}"));
    assert!(!is_blank_text(" x "));
    assert!(starts_with_text("\\Device\\X", "\\Device\\"));
    assert!(!starts_with_text("C:\\X", "\\Device\\"));
}

#[test]
fn folder_form_collapses_trailing_separators() {
    assert_eq!(to_dir_form("\\Device\\HarddiskVolume3\\Data"), "\\Device\\HarddiskVolume3\\Data\\");
    assert_eq!(to_dir_form("\\Device\\HarddiskVolume3\\Data\\\\"), "\\Device\\HarddiskVolume3\\Data\\");
    assert_eq!(trim_separators("C:\\\\"), "C:");
}

#[test]
fn child_paths_are_one_level_below() {
    assert_eq!(compose_child_path("C:\\", "Users", true), "C:\\Users\\");
    assert_eq!(compose_child_path("C:\\Users\\", "a.txt", false), "C:\\Users\\a.txt");
    assert_eq!(compose_child_path("C:\\Users", "a.txt", false), "C:\\Users\\a.txt");
}

#[test]
fn drive_letter_paths_to_device_paths() {
    assert_eq!(drive_of("C:\\Users").unwrap(), "C:");
    assert!(drive_of("Users").is_none());
    assert_eq!(
        compose_device_path("\\Device\\HarddiskVolume3", "C:\\Users\\a.txt"),
        "\\Device\\HarddiskVolume3\\Users\\a.txt"
    );
    assert_eq!(
        compose_device_path("\\Device\\HarddiskVolume3", "C:\\Users\\"),
        "\\Device\\HarddiskVolume3\\Users\\"
    );
    assert_eq!(compose_device_path("\\Device\\HarddiskVolume3\\", "C:"), "\\Device\\HarddiskVolume3");
}

#[test]
fn display_path_normalisation() {
    assert_eq!(PathNormalizer::normalize_display_path("  C:/Users/bob ", true), "C:\\Users\\bob\\");
    assert_eq!(PathNormalizer::normalize_display_path("C:/Users/a.txt", false), "C:\\Users\\a.txt");
    assert!(PathNormalizer::is_nt_path_like("  \\Device\\HarddiskVolume3\\x"));
    assert!(PathNormalizer::is_nt_path_like("\\\\?\\Volume{1}\\"));
    assert!(!PathNormalizer::is_nt_path_like("C:\\x"));
    assert!(NtPathResolver::validate_nt_path("\\Device\\HarddiskVolume4\\x"));
    assert!(!NtPathResolver::validate_nt_path("\\Device\\Mup\\x"));
}

#[test]
fn path_format_errors() {
    assert_eq!(PathNormalizer::validate_path_format(""), Err(PathFormatError::Empty));
    assert_eq!(PathNormalizer::validate_path_format("a\0b"), Err(PathFormatError::NullCharacter));
    assert_eq!(
        PathNormalizer::validate_path_format("a*b?"),
        Err(PathFormatError::InvalidCharacter('?'))
    );
    assert_eq!(
        PathNormalizer::validate_path_format("C:\\x"),
        Err(PathFormatError::InvalidCharacter(':'))
    );
    assert_eq!(PathNormalizer::validate_path_format("\\Users\\bob"), Ok(()));
}

#[test]
fn utf16_encoding_and_fixed_fields() {
    assert_eq!(encode_utf16("A\u{1F600}"), vec![0x41, 0xD83D, 0xDE00]);
    assert_eq!(PathNormalizer::to_wide_string("C:"), vec![0x43, 0x3A, 0]);
    let f = fixed_units("abc", 4);
    assert_eq!(f, vec![97, 98, 99, 0]);
    let g = fixed_units("abcdef", 4);
    assert_eq!(g, vec![97, 98, 99, 0]);
}

fn rule(path: &str, match_type: PathMatchType, block_all: bool) -> KernelPolicy {
    KernelPolicy {
        policy_id: 5,
        nt_path: path.to_string(),
        match_type,
        is_recursive: match_type == PathMatchType::Prefix,
        blocked_ops: KernelOperations {
            write: true,
            delete: false,
            rename: true,
            create: false,
            copy: block_all,
            execute: block_all,
        },
        audit_ops: KernelOperations::default(),
        block_all,
        created_by: "admin".to_string(),
        timestamp: 0x0102030405060708,
        comment: None,
    }
}

#[test]
fn wire_record_of_a_rule() {
    let m = FilePolicy::from_kernel_policy(&rule("\\Device\\V\\a", PathMatchType::Exact, true));
    assert_eq!(m.block_all, 1);
    assert_eq!(m.is_folder, 0);
    assert_eq!(m.block_read, 0);
    assert_eq!((m.block_write, m.block_delete, m.block_rename, m.block_create), (1, 0, 1, 0));
    assert_eq!(m.path.len(), 260);
    assert_eq!(m.path[0], '\\' as u16);
    assert_eq!(m.path[12], 0);
    assert_eq!(m.added_by[..6], [97, 100, 109, 105, 110, 0]);
    let bytes = m.to_bytes();
    assert_eq!(bytes.len(), RECORD_BYTES);
    assert_eq!(bytes[0], b'\\');
    assert_eq!(bytes[1], 0);
    assert_eq!(bytes[520..528], [0, 0, 1, 0, 1, 0, 1, 0]);
    assert_eq!(bytes[528..536], [8, 7, 6, 5, 4, 3, 2, 1]);
    assert_eq!(bytes[536], b'a');
}

#[test]
fn wire_record_truncates_long_paths() {
    let long = "x".repeat(300);
    let m = FilePolicy::from_kernel_policy(&rule(&long, PathMatchType::Prefix, false));
    assert_eq!(m.path.len(), 260);
    assert_eq!(m.path[258], 'x' as u16);
    assert_eq!(m.path[259], 0);
    assert_eq!(m.is_folder, 1);
    assert_eq!(m.block_all, 0);
}

#[test]
fn removal_record_is_a_tombstone() {
    let m = FilePolicy::removal("\\Device\\V\\dir\\");
    assert_eq!(m.is_folder, 1);
    assert_eq!(
        (m.block_read, m.block_write, m.block_delete, m.block_rename, m.block_create, m.block_all),
        (0, 0, 0, 0, 0, 0)
    );
    assert_eq!(m.timestamp, 0);
    assert!(m.added_by.iter().all(|u| *u == 0));
    let f = FilePolicy::removal("\\Device\\V\\a.txt");
    assert_eq!(f.is_folder, 0);
}
