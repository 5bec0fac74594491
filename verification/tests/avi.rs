use playground::avi::{avi_file_name, find_riff, is_chk_extension, riff_header_complete, scan_chk, ChkScan};

fn avi_at(prefix: usize) -> Vec<u8> {
    let mut data = vec![0u8; prefix];
    data.extend_from_slice(b"RIFF\x10\x00\x00\x00AVI LIST");
    data
}

#[test]
fn finds_the_video_after_garbage() {
    let data = avi_at(5);
    assert!(riff_header_complete(&data));
    assert_eq!(scan_chk(&data), ChkScan::Avi(5));
    assert_eq!(&data[5..9], b"RIFF");
}

#[test]
fn first_riff_decides() {
    let mut data = b"RIFF\x00\x00\x00\x00WAVE".to_vec();
    data.extend_from_slice(&avi_at(0));
    assert_eq!(scan_chk(&data), ChkScan::NotAvi(0));
}

#[test]
fn no_riff_tag() {
    assert_eq!(scan_chk(b"RIF"), ChkScan::NoRiff);
    assert_eq!(scan_chk(b""), ChkScan::NoRiff);
    assert_eq!(scan_chk(b"riff....AVI "), ChkScan::NoRiff);
    assert_eq!(find_riff(b"xxRIFF"), Some(2));
}

#[test]
fn truncated_header_is_reported() {
    assert!(!riff_header_complete(b"abcRIFF\x00\x00\x00\x00AV"));
    assert!(riff_header_complete(b"abc"));
    assert!(riff_header_complete(b"RIFF\x00\x00\x00\x00AVI "));
}

#[test]
fn chk_extension_ignores_case() {
    assert!(is_chk_extension(b"chk"));
    assert!(is_chk_extension(b"CHK"));
    assert!(is_chk_extension(b"cHk"));
    assert!(!is_chk_extension(b"chkx"));
    assert!(!is_chk_extension(b"avi"));
    assert!(!is_chk_extension(b""));
}

#[test]
fn recovered_file_name() {
    assert_eq!(avi_file_name("FILE0001"), "FILE0001.avi");
}
