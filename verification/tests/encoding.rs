use branchless_utf8::branchless_utf8;
use branchless_utf8::utf8_bytes_for_codepoint;
use branchless_utf8::utf8_word;

#[test]
fn length() {
    for i in 0..=0xFF_FFFF {
        let c = match char::from_u32(i) {
            Some(c) => c,
            None => continue,
        };
        let got = utf8_bytes_for_codepoint(c);
        let want = c.to_string().as_bytes().len();
        assert_eq!(want, got, "{i:x}: {want} != {got}")
    }
}

#[test]
fn branchless_same() {
    for i in 0..=0xFF_FFFF {
        let c = match char::from_u32(i) {
            Some(c) => c,
            None => continue,
        };
        let (bytes, len) = branchless_utf8(c);
        let got = &bytes[..len];
        let want = c.to_string().as_bytes().to_owned();
        assert_eq!(want, got, "{i:x}: {want:?} != {got:?}");
    }
}

#[test]
fn boundary_bytes() {
    let cases: Vec<(u32, Vec<u8>)> = vec![
        (0x00, vec![0x00]),
        (0x7F, vec![0x7F]),
        (0x80, vec![0xC2, 0x80]),
        (0x7FF, vec![0xDF, 0xBF]),
        (0x800, vec![0xE0, 0xA0, 0x80]),
        (0xFFFF, vec![0xEF, 0xBF, 0xBF]),
        (0x10000, vec![0xF0, 0x90, 0x80, 0x80]),
        (0x10FFFF, vec![0xF4, 0x8F, 0xBF, 0xBF]),
    ];
    for (i, want) in cases {
        let c = char::from_u32(i).unwrap();
        let (bytes, len) = branchless_utf8(c);
        assert_eq!(len, want.len(), "{i:x}");
        assert_eq!(&bytes[..len], &want[..], "{i:x}");
    }
}

#[test]
fn word_matches_bytes() {
    for &c in &['\0', 'a', '\u{7F}', '\u{80}', '\u{3B1}', '\u{7FF}', '\u{800}', '\u{20AC}', '\u{FFFF}', '\u{10000}', '\u{1F600}', '\u{10FFFF}'] {
        let (word, wlen) = utf8_word(c);
        let (bytes, len) = branchless_utf8(c);
        assert_eq!(wlen as usize, len);
        assert_eq!(word.to_be_bytes()[..len], bytes[..len]);
    }
}

#[test]
fn round_trip_decodes() {
    for &c in &['a', '\u{E9}', '\u{20AC}', '\u{1F600}'] {
        let (bytes, len) = branchless_utf8(c);
        let s = std::str::from_utf8(&bytes[..len]).unwrap();
        let mut chars = s.chars();
        assert_eq!(chars.next(), Some(c));
        assert_eq!(chars.next(), None);
    }
}

#[test]
fn deterministic_interleaved() {
    let a = '\u{141}';
    let b = '\u{1D11E}';
    let first_a = branchless_utf8(a);
    let first_b = branchless_utf8(b);
    for _ in 0..8 {
        assert_eq!(branchless_utf8(a), first_a);
        assert_eq!(branchless_utf8(b), first_b);
        assert_eq!(utf8_bytes_for_codepoint(a), first_a.1);
        assert_eq!(utf8_word(b).0, u32::from_be_bytes(first_b.0));
    }
}
