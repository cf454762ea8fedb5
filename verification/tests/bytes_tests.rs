use mbl2::bytes::{add_bytes_before, ascii_bytes, bytes_eq, contains, ends_with};

#[test]
fn splice_goes_before_the_first_marker() {
    let mut code = b"abc void main() { } void main".to_vec();
    add_bytes_before(&mut code, b"void main", b"X;");
    assert_eq!(code, b"abc X;void main() { } void main".to_vec());
}

#[test]
fn splice_without_marker_changes_nothing() {
    let mut code = b"float f() { return 1.0; }".to_vec();
    add_bytes_before(&mut code, b"void main", b"X;");
    assert_eq!(code, b"float f() { return 1.0; }".to_vec());
}

#[test]
fn splice_at_the_very_start() {
    let mut code = b"void main".to_vec();
    add_bytes_before(&mut code, b"void main", b"// fix\n");
    assert_eq!(code, b"// fix\nvoid main".to_vec());
}

#[test]
fn splice_with_empty_marker_goes_to_the_front() {
    let mut code = b"abc".to_vec();
    add_bytes_before(&mut code, b"", b"12");
    assert_eq!(code, b"12abc".to_vec());
}

#[test]
fn splice_of_nothing_keeps_the_code() {
    let mut code = b"a void main b".to_vec();
    add_bytes_before(&mut code, b"void main", b"");
    assert_eq!(code, b"a void main b".to_vec());
}

#[test]
fn splice_keeps_the_marker_text() {
    let mut code = b"xx MARK yy".to_vec();
    add_bytes_before(&mut code, b"MARK", b"new ");
    assert_eq!(code, b"xx new MARK yy".to_vec());
    assert!(contains(&code, b"MARK"));
}

#[test]
fn contains_finds_needles() {
    assert!(contains(b"hello world", b"o w"));
    assert!(contains(b"hello world", b""));
    assert!(contains(b"", b""));
    assert!(!contains(b"hello world", b"worlds"));
    assert!(!contains(b"", b"a"));
}

#[test]
fn suffixes() {
    assert!(ends_with(b"RenderChunk.material.bin", b".material.bin"));
    assert!(!ends_with(b"material.bin", b".material.bin"));
    assert!(ends_with(b"abc", b""));
}

#[test]
fn byte_equality() {
    assert!(bytes_eq(b"abc", b"abc"));
    assert!(!bytes_eq(b"abc", b"abd"));
    assert!(!bytes_eq(b"abc", b"ab"));
    assert!(bytes_eq(b"", b""));
}

#[test]
fn ascii_text_as_bytes() {
    assert_eq!(ascii_bytes("void main"), b"void main");
}
