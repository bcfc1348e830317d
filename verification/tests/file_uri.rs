use nebula::file_uri::{file_uri_to_local_path, file_uri_to_local_path_with, hex_val, host_is_local, percent_decode_utf8};

/// Resolve against a fixed set of "mounted" drives so tests are stable.
fn t(uri: &str) -> Option<String> {
    file_uri_to_local_path_with(uri, None, |d| matches!(d, 'C' | 'D'))
}

#[test]
fn powershell_drive_uri() {
    assert_eq!(t("file:///C:/Users/me/file.txt"), Some(r"C:\Users\me\file.txt".into()));
}

#[test]
fn drive_letter_uppercased() {
    assert_eq!(t("file:///d:/temp/x"), Some(r"D:\temp\x".into()));
}

#[test]
fn percent_encoded_space() {
    assert_eq!(t("file:///C:/a%20b/c.txt"), Some(r"C:\a b\c.txt".into()));
}

#[test]
fn utf8_filename_roundtrips() {
    // "文档" percent-encoded as UTF-8.
    assert_eq!(t("file:///D:/%E6%96%87%E6%A1%A3/x.md"), Some("D:\\文档\\x.md".into()));
}

#[test]
fn scheme_is_case_insensitive() {
    assert_eq!(t("FILE:///C:/x"), Some(r"C:\x".into()));
}

#[test]
fn wsl_mount_path() {
    assert_eq!(t("file://localhost/mnt/c/work/a.rs"), Some(r"C:\work\a.rs".into()));
}

#[test]
fn cygdrive_mount_path() {
    assert_eq!(t("file://localhost/cygdrive/d/proj/b.rs"), Some(r"D:\proj\b.rs".into()));
}

#[test]
fn msys_drive_form_when_drive_exists() {
    assert_eq!(t("file://localhost/d/temp_build/x"), Some(r"D:\temp_build\x".into()));
}

#[test]
fn msys_drive_form_root() {
    assert_eq!(t("file://localhost/c/"), Some(r"C:\".into()));
}

#[test]
fn leading_segment_that_is_not_a_drive_is_not_mangled() {
    // 'z' isn't a mounted drive: not a drive form; and there's no Windows
    // mapping for a bare posix path, so we fall back (None).
    assert_eq!(t("file://localhost/z/opt/thing"), None);
}

#[test]
fn pure_posix_path_falls_back() {
    assert_eq!(t("file://localhost/home/user/.bashrc"), None);
}

#[test]
fn remote_host_becomes_unc() {
    assert_eq!(t("file://fileserver/share/doc.txt"), Some(r"\\fileserver\share\doc.txt".into()));
}

#[test]
fn non_file_scheme_falls_back() {
    assert_eq!(t("https://example.com/a"), None);
    assert_eq!(t("mailto:x@y.z"), None);
}

#[test]
fn own_host_name_is_local() {
    assert!(host_is_local("MyBox", Some("mybox")));
    assert!(!host_is_local("other", Some("mybox")));
    assert!(host_is_local("[::1]", None));
    assert_eq!(
        file_uri_to_local_path("file://MYBOX/mnt/c/x", Some("mybox"), &[]),
        Some(r"C:\x".into())
    );
    assert_eq!(
        file_uri_to_local_path("file://MYBOX/mnt/c/x", None, &[]),
        Some(r"\\MYBOX\mnt\c\x".into())
    );
}

#[test]
fn listed_drives_gate_the_msys_form() {
    assert_eq!(file_uri_to_local_path("file:///e/x", None, &['E']), Some(r"E:\x".into()));
    assert_eq!(file_uri_to_local_path("file:///e/x", None, &['C']), None);
}

#[test]
fn uri_without_authority_or_path_falls_back() {
    assert_eq!(t("file:relative"), None);
    assert_eq!(t("file://host"), None);
    assert_eq!(t("file:"), None);
}

#[test]
fn malformed_escapes_stay() {
    assert_eq!(percent_decode_utf8("a%2"), "a%2");
    assert_eq!(percent_decode_utf8("%zz%41"), "%zzA");
    assert_eq!(percent_decode_utf8("100%"), "100%");
    assert_eq!(percent_decode_utf8("plain/text"), "plain/text");
    assert_eq!(percent_decode_utf8("%FF"), "\u{fffd}");
}

#[test]
fn hexadecimal_digits() {
    assert_eq!(hex_val(b'0'), Some(0));
    assert_eq!(hex_val(b'9'), Some(9));
    assert_eq!(hex_val(b'a'), Some(10));
    assert_eq!(hex_val(b'F'), Some(15));
    assert_eq!(hex_val(b'g'), None);
}

#[test]
fn encoded_strings_come_back() {
    for text in ["a b", "目录/名", "100%", ""] {
        let upper: String = text.bytes().map(|b| format!("%{b:02X}")).collect();
        let lower: String = text.bytes().map(|b| format!("%{b:02x}")).collect();
        assert_eq!(percent_decode_utf8(&upper), text);
        assert_eq!(percent_decode_utf8(&lower), text);
    }
    assert_eq!(percent_decode_utf8("目录"), "目录");
}
