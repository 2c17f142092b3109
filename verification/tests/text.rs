use launch_check::text::is_valid_text;

fn agrees_with_std(bytes: &[u8]) {
    let v = bytes.to_vec();
    assert_eq!(
        is_valid_text(&v),
        std::str::from_utf8(bytes).is_ok(),
        "disagreement on {:?}",
        bytes
    );
}

#[test]
fn ascii_is_text() {
    agrees_with_std(b"");
    agrees_with_std(b"explorer.exe");
    agrees_with_std(b"cmd.exe");
    agrees_with_std(&[0x00, 0x7F, 0x20, 0x41]);
    assert!(is_valid_text(&b"explorer.exe".to_vec()));
}

#[test]
fn well_formed_multibyte_is_text() {
    agrees_with_std("héllo.exe".as_bytes());
    agrees_with_std("προϊόν".as_bytes());
    agrees_with_std("名前.exe".as_bytes());
    agrees_with_std("🦀.exe".as_bytes());
    agrees_with_std(&[0xC2, 0x80]);
    agrees_with_std(&[0xDF, 0xBF]);
    agrees_with_std(&[0xE0, 0xA0, 0x80]);
    agrees_with_std(&[0xED, 0x9F, 0xBF]);
    agrees_with_std(&[0xEE, 0x80, 0x80]);
    agrees_with_std(&[0xEF, 0xBF, 0xBD]);
    agrees_with_std(&[0xF0, 0x90, 0x80, 0x80]);
    agrees_with_std(&[0xF4, 0x8F, 0xBF, 0xBF]);
}

#[test]
fn ill_formed_bytes_are_not_text() {
    agrees_with_std(&[0x80]);
    agrees_with_std(&[0xBF]);
    agrees_with_std(&[0xC0, 0x80]);
    agrees_with_std(&[0xC1, 0xBF]);
    agrees_with_std(&[0xC2]);
    agrees_with_std(&[0xC2, 0x41]);
    agrees_with_std(&[0xC2, 0xC0]);
    agrees_with_std(&[0xE0, 0x80, 0x80]);
    agrees_with_std(&[0xE0, 0x9F, 0xBF]);
    agrees_with_std(&[0xE0, 0xA0]);
    agrees_with_std(&[0xED, 0xA0, 0x80]);
    agrees_with_std(&[0xED, 0xBF, 0xBF]);
    agrees_with_std(&[0xF0, 0x80, 0x80, 0x80]);
    agrees_with_std(&[0xF0, 0x8F, 0xBF, 0xBF]);
    agrees_with_std(&[0xF4, 0x90, 0x80, 0x80]);
    agrees_with_std(&[0xF5, 0x80, 0x80, 0x80]);
    agrees_with_std(&[0xFF]);
    agrees_with_std(&[0xF0, 0x90, 0x80]);
    agrees_with_std(&[0x41, 0xE2, 0x82]);
    agrees_with_std(&[0x41, 0xE2, 0x82, 0xAC, 0x42]);
}
