use mbl2::hooking::Arch;
use mbl2::scanner::{find_signatures, Algorithm, BytePattern, PatternByte, SimpleMapRange};

fn fixed(byte: u8) -> PatternByte {
    PatternByte { byte, wildcard: false }
}

fn any() -> PatternByte {
    PatternByte { byte: 0, wildcard: true }
}

fn pattern(text: &str) -> BytePattern {
    BytePattern::from_str(text).unwrap()
}

#[test]
fn written_patterns_are_read() {
    assert_eq!(
        pattern("FF ?? 02 d1 ? aB").bytes,
        vec![fixed(0xff), any(), fixed(0x02), fixed(0xd1), any(), fixed(0xab)]
    );
    assert_eq!(pattern("00").bytes, vec![fixed(0)]);
    assert_eq!(pattern("?").bytes, vec![any()]);
}

#[test]
fn badly_written_patterns_are_refused() {
    for text in ["", " ", "F", "FFF", "GG", "FF  02", "FF 02 ", " FF", "???", "F?", "0x", "FF\t02", "\u{e9}"] {
        assert!(BytePattern::from_str(text).is_none(), "{:?}", text);
    }
}

#[test]
fn the_patterns_of_the_constructor_are_read() {
    let p = pattern("FF ?? 02 D1 FD 7B ?? A9 ?? ?? ?? ?? FA 67 ?? A9 F8 5F ?? A9 F6 57 ?? A9 F4 4F ?? A9 FD ?? 01 91 ?? D0 3B D5 ?? 03 03 2A ?? 03 02 AA ?? 17 40 F9 F3 03 00 AA A8 83 1F F8");
    assert_eq!(p.bytes.len(), 56);
    assert_eq!(p.bytes[0], fixed(0xff));
    assert_eq!(p.bytes[1], any());
    assert_eq!(p.bytes[55], fixed(0xf8));
    let p = pattern("55 41 57 41 56 53 48 83 EC ? 41 89 CF 49 89 D6 48 89 FB 64 48 8B 04 25 28 00 00 00 48 89 44 24 ? 48 8B 7E");
    assert_eq!(p.bytes.len(), 36);
    assert_eq!(p.bytes[9], any());
}

#[test]
fn search_finds_the_leftmost_match() {
    let haystack = [0x10, 0xaa, 0x01, 0xbb, 0xaa, 0x02, 0xbb, 0xaa];
    for algorithm in [Algorithm::Scalar, Algorithm::Simd] {
        assert_eq!(pattern("AA ?? BB").search(&haystack, algorithm), Some(1));
        assert_eq!(pattern("AA 02 BB").search(&haystack, algorithm), Some(4));
        assert_eq!(pattern("AA").search(&haystack, algorithm), Some(1));
        assert_eq!(pattern("BB AA").search(&haystack, algorithm), Some(3));
        assert_eq!(pattern("?? AA").search(&haystack, algorithm), Some(0));
        assert_eq!(pattern("AA ??").search(&haystack, algorithm), Some(1));
        assert_eq!(pattern("AA 03 BB").search(&haystack, algorithm), None);
        assert_eq!(pattern("AA ?? ??").search(&haystack, algorithm), Some(1));
        assert_eq!(pattern("BB AA ??").search(&haystack, algorithm), Some(3));
        assert_eq!(pattern("AA ?? BB AA ?? BB AA ??").search(&haystack, algorithm), None);
    }
}

#[test]
fn search_at_the_edges() {
    for algorithm in [Algorithm::Scalar, Algorithm::Simd] {
        assert_eq!(pattern("AA").search(&[], algorithm), None);
        assert_eq!(pattern("??").search(&[], algorithm), None);
        assert_eq!(pattern("??").search(&[1], algorithm), Some(0));
        assert_eq!(pattern("01 02").search(&[1, 2], algorithm), Some(0));
        assert_eq!(pattern("01 02").search(&[0, 1, 2], algorithm), Some(1));
        assert_eq!(pattern("01 02 03").search(&[1, 2], algorithm), None);
        assert_eq!(BytePattern::new(vec![]).search(&[1, 2], algorithm), Some(0));
        assert_eq!(BytePattern::new(vec![]).search(&[], algorithm), Some(0));
    }
}

#[test]
fn wildcard_bytes_do_not_matter() {
    let p = pattern("DE ?? ?? EF");
    for filler in 0..=255u8 {
        let haystack = [0, 0xde, filler, filler.wrapping_mul(31), 0xef, 0];
        assert_eq!(p.search(&haystack, Algorithm::Scalar), Some(1));
        assert_eq!(p.search(&haystack, Algorithm::Simd), Some(1));
        assert!(p.matches(&haystack, 1));
        let broken = [0, 0xde, filler, filler, 0xee, 0];
        assert_eq!(p.search(&broken, Algorithm::Simd), None);
        assert!(!p.matches(&broken, 1));
    }
}

#[test]
fn the_byte_of_a_wildcard_is_of_no_account() {
    let p = BytePattern::new(vec![fixed(1), PatternByte { byte: 9, wildcard: true }, fixed(3)]);
    assert_eq!(p.search(&[1, 2, 3], Algorithm::Simd), Some(0));
    assert_eq!(p.search(&[1, 2, 3], Algorithm::Scalar), Some(0));
}

#[test]
fn both_algorithms_agree_on_scattered_data() {
    let mut haystack = Vec::new();
    let mut state: u32 = 12345;
    for _ in 0..4096 {
        state = state.wrapping_mul(1103515245).wrapping_add(12345);
        haystack.push((state >> 16) as u8 % 4);
    }
    for a in 0..4u8 {
        for b in 0..4u8 {
            let p = BytePattern::new(vec![fixed(a), fixed(a), any(), fixed(b), any(), fixed(a)]);
            let scalar = p.search(&haystack, Algorithm::Scalar);
            assert_eq!(scalar, p.search(&haystack, Algorithm::Simd));
            if let Some(at) = scalar {
                assert!(p.matches(&haystack, at));
                assert!((0..at).all(|before| !p.matches(&haystack, before)));
            }
        }
    }
}

#[test]
fn matches_checks_the_bounds() {
    let p = pattern("01 02");
    assert!(p.matches(&[1, 2], 0));
    assert!(!p.matches(&[1, 2], 1));
    assert!(!p.matches(&[1, 2], 2));
    assert!(!p.matches(&[1, 2], 3));
    assert!(!p.matches(&[1, 2], usize::MAX));
}

#[test]
fn map_range_getters() {
    let range = SimpleMapRange { start: 0x7000, size: 0x200 };
    assert_eq!(range.start(), 0x7000);
    assert_eq!(range.size(), 0x200);
}

#[test]
fn first_signature_that_matches_decides() {
    let memory = [0x90, 0x90, 0xf0, 0xb5, 0x03, 0xaf, 0x55, 0x41, 0x57, 0x90];
    let range = SimpleMapRange { start: 0x7000_0000, size: memory.len() as u64 };
    let signatures = [pattern("EE EE"), pattern("55 ?? 57"), pattern("F0 B5")];
    assert_eq!(find_signatures(&signatures, &memory, range, Arch::X86_64), Some(0x7000_0006));
    assert_eq!(find_signatures(&signatures, &memory, range, Arch::Aarch64), Some(0x7000_0006));
    let signatures = [pattern("F0 B5 ?? AF"), pattern("55 ?? 57")];
    assert_eq!(find_signatures(&signatures, &memory, range, Arch::Arm), Some(0x7000_0003));
    assert_eq!(find_signatures(&signatures, &memory, range, Arch::X86), Some(0x7000_0002));
}

#[test]
fn no_signature_no_address() {
    let memory = [1, 2, 3, 4];
    let range = SimpleMapRange { start: 0x7000_0000, size: 4 };
    assert_eq!(find_signatures(&[pattern("05"), pattern("01 03")], &memory, range, Arch::Arm), None);
    assert_eq!(find_signatures(&[], &memory, range, Arch::Arm), None);
    assert_eq!(find_signatures(&[pattern("01")], &[], range, Arch::Arm), None);
}

#[test]
fn an_address_beyond_64_bits_is_none() {
    let memory = [1, 2, 3, 4];
    let range = SimpleMapRange { start: u64::MAX - 2, size: 4 };
    assert_eq!(find_signatures(&[pattern("03")], &memory, range, Arch::X86_64), Some(u64::MAX));
    assert_eq!(find_signatures(&[pattern("03")], &memory, range, Arch::Arm), None);
    assert_eq!(find_signatures(&[pattern("04")], &memory, range, Arch::X86_64), None);
}
