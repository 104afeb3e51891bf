//! Text, numbers and file names.

use vmbuild::number::{
    byte_of_pair, decimal_of, hex_number_of, hex_of, parse_i32, parse_u32,
};
use vmbuild::path;
use vmbuild::text;

#[test]
fn white_space_is_what_the_standard_library_says() {
    for n in 0..=0x10ffffu32 {
        if let Some(c) = char::from_u32(n) {
            assert_eq!(text::white(c), c.is_whitespace(), "{n:x}");
        }
    }
}

const SAMPLES: [&str; 12] = [
    "",
    " ",
    "abc",
    "  a b\t c \n",
    "a\nb\r\nc",
    "a\n\n\nb\n",
    "\r\n",
    "\r",
    "x\r",
    "Ünï\u{2003}Ç É",
    "\n",
    "a\r\r\nb",
];

#[test]
fn text_is_cut_as_the_standard_library_cuts_it() {
    for s in SAMPLES {
        assert_eq!(text::trimmed(s), s.trim(), "{s:?}");
        assert_eq!(text::lines_of(s), s.lines().collect::<Vec<_>>(), "{s:?}");
        assert_eq!(text::words_of(s), s.split_whitespace().collect::<Vec<_>>(), "{s:?}");
        assert_eq!(text::lowered(s), s.to_ascii_lowercase(), "{s:?}");
        for t in SAMPLES {
            assert_eq!(text::has(s, t), s.contains(t), "{s:?} {t:?}");
            assert_eq!(text::starts_with(s, t), s.starts_with(t), "{s:?} {t:?}");
            assert_eq!(text::same(s, t), s == t);
            assert_eq!(text::concat(s, t), format!("{s}{t}"));
        }
    }
    assert!(text::has("xaab", "aab"));
    assert_eq!(text::lowered("AZ[`az{"), "az[`az{");
}

#[test]
fn numbers_are_written_and_read() {
    for n in [0u64, 1, 9, 10, 15, 16, 99, 100, 255, 256, u32::MAX as u64, u64::MAX] {
        assert_eq!(decimal_of(n), n.to_string());
        assert_eq!(hex_number_of(n), format!("{n:x}"));
    }
    for s in [
        "0", "00", "7", "+7", "-7", "--7", "+", "-", "", " 1", "1 ", "4294967295", "4294967296",
        "2147483647", "2147483648", "-2147483648", "-2147483649", "12a", "٣",
        "99999999999999999999999999",
    ] {
        assert_eq!(parse_u32(s), s.parse::<u32>().ok(), "{s:?}");
        assert_eq!(parse_i32(s), s.parse::<i32>().ok(), "{s:?}");
    }
    assert_eq!(hex_of(&[0, 1, 0x9a, 0xff]), "00019aff");
}

#[test]
fn pairs_of_digits_are_bytes() {
    for a in 0..=255u8 {
        for b in 0..=255u8 {
            let want = std::str::from_utf8(&[a, b])
                .ok()
                .and_then(|s| u8::from_str_radix(s, 16).ok())
                .unwrap_or(0);
            assert_eq!(byte_of_pair(a, b), want, "{a} {b}");
        }
    }
}

fn bytes(p: &std::path::Path) -> &[u8] {
    p.to_str().unwrap().as_bytes()
}

const PATHS: [&str; 20] = [
    "", "/", ".", "..", "a", "a/b", "/a/b/", "./a", "a/./b", "a//b", "../a", "a/..",
    "a.tar.gz", ".hidden", "a/.hidden", "a.", "x/a.ext4/", "x/a.ext4/.", "é/ü.z", "...",
];

#[test]
fn names_are_taken_apart_as_the_standard_library_does() {
    for p in PATHS {
        let os = std::path::Path::new(p);
        let parts: Vec<Vec<u8>> = os
            .components()
            .filter_map(|c| match c {
                std::path::Component::Normal(s) => Some(s.to_str().unwrap().as_bytes().to_vec()),
                std::path::Component::ParentDir => Some(b"..".to_vec()),
                _ => None,
            })
            .collect();
        let raw = p.as_bytes();
        assert_eq!(path::components_of(raw), parts, "{p:?}");
        let escapes = os.is_absolute()
            || os.components().any(|c| c == std::path::Component::ParentDir);
        assert_eq!(path::can_escape(raw), escapes, "{p:?}");
        for q in PATHS {
            assert_eq!(path::join(raw, q.as_bytes()), bytes(&os.join(q)), "{p:?} {q:?}");
            assert_eq!(path::same(raw, q.as_bytes()), p == q);
            assert_eq!(path::concat(raw, q.as_bytes()), format!("{p}{q}").as_bytes());
        }
        assert_eq!(path::join_text(raw, "x"), bytes(&os.join("x")));
    }
}
