use delorean::hex::{hex_preview, HEX_PREVIEW_BYTES};

#[test]
fn hex_preview_formats_bytes() {
    assert_eq!(hex_preview(&[]), b"".to_vec());
    assert_eq!(hex_preview(&[0x00]), b"00".to_vec());
    assert_eq!(hex_preview(&[0x0f, 0xa0, 0xff]), b"0f a0 ff".to_vec());
}

#[test]
fn hex_preview_stops_after_limit() {
    let data = vec![0xabu8; 200];
    let out = hex_preview(&data);
    assert_eq!(HEX_PREVIEW_BYTES, 96);
    assert_eq!(out.len(), 3 * 96 - 1);
    assert!(out.starts_with(b"ab ab"));
    assert!(out.ends_with(b"ab"));
}
