//! Building text.
use demucs::text::{joined, joined3, number, same};

#[test]
fn texts_are_compared_and_joined() {
    assert!(same("drums", "drums"));
    assert!(!same("drums", "drum"));
    assert!(same("", ""));
    assert_eq!(joined("a", "bc"), "abc");
    assert_eq!(joined3("stems/", "bass", ".wav"), "stems/bass.wav");
}

#[test]
fn numbers_are_written_in_decimal() {
    for n in [0usize, 1, 9, 10, 11, 99, 100, 4096, 343980, usize::MAX] {
        assert_eq!(number(n), n.to_string());
    }
}
