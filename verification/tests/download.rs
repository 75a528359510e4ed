use devkit::download::{
    detect_archive_format, ensure_internet_access, filename_from_url, single_top_dir, tar_compression,
    unique_top_level, ArchiveFormat, TarCompression,
};
use devkit::error::Error;

#[test]
fn unique_top_level_detects_common_root() {
    let names = vec!["sdk/bin/a", "sdk/lib/b"];
    assert_eq!(unique_top_level(&names), Some("sdk".to_string()));
}

#[test]
fn unique_top_level_none_when_mixed() {
    let names = vec!["a/x", "b/y"];
    assert_eq!(unique_top_level(&names), None);
}

#[test]
fn unique_top_level_ignores_blank_and_backslashes() {
    let names = vec!["/", "sdk\\bin\\a", "sdk/lib/b/"];
    assert_eq!(unique_top_level(&names), Some("sdk".to_string()));
    let none: Vec<&str> = vec![];
    assert_eq!(unique_top_level(&none), None);
}

#[test]
fn detect_archive_format_by_extension() {
    assert_eq!(detect_archive_format("thing.zip", b"PK\x03\x04").unwrap().as_str(), "zip");
    assert_eq!(detect_archive_format("thing.tar.gz", b"\x1f\x8b\x08\x00\x00\x00").unwrap().as_str(), "tar");
}

#[test]
fn detect_archive_format_by_magic_and_unknown() {
    assert_eq!(detect_archive_format("download", b"PK\x03\x04").unwrap(), ArchiveFormat::Zip);
    assert_eq!(detect_archive_format("download", b"\xfd7zXZ\x00").unwrap(), ArchiveFormat::Tar);
    assert_eq!(detect_archive_format("download", b"ustar").unwrap(), ArchiveFormat::Tar);
    assert_eq!(detect_archive_format("THING.TGZ", b"").unwrap(), ArchiveFormat::Tar);
    assert!(matches!(detect_archive_format("notes.txt", b"hello"), Err(Error::UnsupportedArchive { .. })));
}

#[test]
fn tar_compression_by_name_and_magic() {
    assert_eq!(tar_compression("a.tar.gz", b"").unwrap(), TarCompression::Gzip);
    assert_eq!(tar_compression("a.tgz", b"").unwrap(), TarCompression::Gzip);
    assert_eq!(tar_compression("a.tar.xz", b"").unwrap(), TarCompression::Xz);
    assert_eq!(tar_compression("a.tar", b"\x1f\x8b").unwrap(), TarCompression::Gzip);
    assert_eq!(tar_compression("a.tar", b"plain!").unwrap(), TarCompression::Plain);
    assert!(matches!(tar_compression("a.tar.bz2", b""), Err(Error::Bzip2Unsupported { .. })));
}

#[test]
fn ensure_internet_access_error_message_is_actionable() {
    assert!(ensure_internet_access(true).is_ok());
    assert!(matches!(ensure_internet_access(false), Err(Error::Offline)));
}

#[test]
fn filename_from_url_takes_last_segment() {
    assert_eq!(filename_from_url("https://x/dl/tool-1.0.zip?sig=abc"), Some("tool-1.0.zip".to_string()));
}

#[test]
fn single_top_dir_needs_one_folder() {
    assert_eq!(single_top_dir(&[("sdk".to_string(), true)]), Some("sdk".to_string()));
    assert_eq!(single_top_dir(&[("sdk".to_string(), false)]), None);
    assert_eq!(single_top_dir(&[("a".to_string(), true), ("b".to_string(), true)]), None);
}
