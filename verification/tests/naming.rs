use sledge::filename::{default_file_name, parse_file_name, sanitize_file_name, DispositionParam};

fn segments(parts: &[&str]) -> Vec<String> {
    parts.iter().map(|p| p.to_string()).collect()
}

#[test]
fn disposition_filename_wins() {
    let disposition = Some(vec![
        DispositionParam::Ext,
        DispositionParam::Filename(b"report.csv".to_vec()),
    ]);
    let url = segments(&["download", "other.bin"]);
    assert_eq!(default_file_name(&disposition, &url).unwrap(), "report.csv");
}

#[test]
fn missing_disposition_falls_back_to_url() {
    let url = segments(&["download", "other.bin"]);
    assert_eq!(default_file_name(&None, &url).unwrap(), "other.bin");
}

#[test]
fn header_without_filename_falls_back_to_url() {
    let disposition = Some(vec![DispositionParam::Ext]);
    let url = segments(&["archive.tar"]);
    assert_eq!(default_file_name(&disposition, &url).unwrap(), "archive.tar");
}

#[test]
fn undecodable_filename_falls_back_to_url() {
    let disposition = Some(vec![DispositionParam::Filename(vec![0xff, 0xfe, 0x00])]);
    let url = segments(&["plain.txt"]);
    assert_eq!(default_file_name(&disposition, &url).unwrap(), "plain.txt");
}

#[test]
fn first_decodable_filename_is_taken() {
    let disposition = Some(vec![
        DispositionParam::Filename(vec![0xff]),
        DispositionParam::Filename(b"second.txt".to_vec()),
        DispositionParam::Filename(b"third.txt".to_vec()),
    ]);
    assert_eq!(parse_file_name(&disposition).unwrap(), "second.txt");
}

#[test]
fn parse_file_name_reports_absence() {
    let err = parse_file_name(&None).unwrap_err();
    assert_eq!(err.0, "server did not provide a file name");
    let err = parse_file_name(&Some(vec![DispositionParam::Ext])).unwrap_err();
    assert_eq!(err.0, "server did not provide a file name");
}

#[test]
fn multibyte_filename_decodes() {
    // "caf\u{e9}.txt" in UTF-8: the last name byte pair 0xc3 0xa9 is one char.
    let bytes = vec![0x63, 0x61, 0x66, 0xc3, 0xa9, 0x2e, 0x74, 0x78, 0x74];
    let disposition = Some(vec![DispositionParam::Filename(bytes)]);
    let name = parse_file_name(&disposition).unwrap();
    assert_eq!(name, "caf\u{e9}.txt");
    assert_eq!(name.chars().count(), 8);
}

#[test]
fn traversal_components_are_stripped() {
    let disposition = Some(vec![DispositionParam::Filename(b"../../etc/passwd".to_vec())]);
    let url = segments(&["safe.bin"]);
    assert_eq!(default_file_name(&disposition, &url).unwrap(), "passwd");
}

#[test]
fn name_without_file_part_is_rejected() {
    let err = sanitize_file_name("dir/").unwrap_err();
    assert_eq!(err.0, "invalid file name");
    let err = sanitize_file_name("").unwrap_err();
    assert_eq!(err.0, "invalid file name");
    let err = sanitize_file_name("..").unwrap_err();
    assert_eq!(err.0, "invalid file name");
    let err = sanitize_file_name("a/..").unwrap_err();
    assert_eq!(err.0, "invalid file name");
}

#[test]
fn plain_names_pass_sanitizing() {
    assert_eq!(sanitize_file_name("report.csv").unwrap(), "report.csv");
    assert_eq!(sanitize_file_name("a/b/c.txt").unwrap(), "c.txt");
    assert_eq!(sanitize_file_name("...").unwrap(), "...");
}
