use rusty_twinkle_tray::utils::text::{chars_of, is_blank, string_from_chars, trim_bounds, until_nul};

#[test]
fn nul_terminated_text() {
    let mut buffer = [0u16; 8];
    for (slot, unit) in buffer.iter_mut().zip("DISPLAY".encode_utf16()) {
        *slot = unit;
    }
    assert_eq!(String::from_utf16_lossy(&until_nul(&buffer)), "DISPLAY");
    assert_eq!(until_nul(&[0, 65, 66]), Vec::<u16>::new());
    assert_eq!(until_nul(&[65, 66]), vec![65, 66]);
    assert_eq!(until_nul(&[]), Vec::<u16>::new());
}

#[test]
fn blank_text() {
    assert!(is_blank(""));
    assert!(is_blank(" \t\r\n"));
    assert!(is_blank("\u{a0}\u{2003}\u{3000}\u{85}"));
    assert!(!is_blank(" x "));
    assert!(!is_blank("\u{200b}")); // zero width space is no white space
}

#[test]
fn trimming_bounds() {
    let chars = chars_of("  héllo wörld\t");
    let (start, end) = trim_bounds(&chars);
    assert_eq!(string_from_chars(&chars[start..end].to_vec()), "héllo wörld");
    assert_eq!(string_from_chars(&chars), "  héllo wörld\t");
    let empty = chars_of(" \n ");
    assert_eq!(trim_bounds(&empty).0, trim_bounds(&empty).1);
}
