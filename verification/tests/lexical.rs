use masterstat::lexical::{bytes_before, text_before};
use masterstat::response::starts_with;
use masterstat::sorted::sorted_unique;

#[test]
fn bytes_are_compared_front_to_back() {
    assert!(bytes_before(&[1, 2, 3], &[1, 2, 4]));
    assert!(!bytes_before(&[1, 2, 4], &[1, 2, 3]));
    assert!(bytes_before(&[1, 9, 9], &[2, 0, 0]));
    assert!(bytes_before(&[0], &[255]));
    assert!(!bytes_before(&[255], &[0]));
}

#[test]
fn a_front_comes_before_the_whole() {
    assert!(bytes_before(&[], &[0]));
    assert!(bytes_before(&[1, 2], &[1, 2, 0]));
    assert!(!bytes_before(&[1, 2, 0], &[1, 2]));
    assert!(!bytes_before(&[0], &[]));
}

#[test]
fn nothing_comes_before_itself() {
    assert!(!bytes_before(&[], &[]));
    assert!(!bytes_before(&[1, 2, 3], &[1, 2, 3]));
    assert!(!text_before("1.1.1.1:1", "1.1.1.1:1"));
}

#[test]
fn text_is_compared_as_strings_are() {
    let texts = [
        "", "1", "10", "2", "1.1.1.1:1", "1.1.1.1:10", "1.1.1.1:2", "1.1.1.10:1", "10.0.0.1:1",
        "2.0.0.1:1", "a", "A", "z", "é", "ü", "zz", "\u{7f}", "\u{80}", "\u{7ff}", "\u{800}",
        "\u{ffff}", "\u{10000}", "\u{10ffff}", "日本", "日", "\0", "~",
    ];
    for a in texts {
        for b in texts {
            assert_eq!(text_before(a, b), a < b);
            assert_eq!(bytes_before(a.as_bytes(), b.as_bytes()), a.as_bytes() < b.as_bytes());
        }
    }
}

#[test]
fn beginning_with_a_prefix() {
    assert!(starts_with(&[1, 2, 3], &[]));
    assert!(starts_with(&[], &[]));
    assert!(starts_with(&[1, 2, 3], &[1]));
    assert!(starts_with(&[1, 2, 3], &[1, 2, 3]));
    assert!(!starts_with(&[1, 2, 3], &[1, 2, 3, 4]));
    assert!(!starts_with(&[1, 2, 3], &[2]));
    assert!(!starts_with(&[1, 2, 3], &[1, 3]));
    assert!(!starts_with(&[], &[1]));
}

#[test]
fn sorted_and_each_once() {
    let items: Vec<String> = ["b", "a", "b", "", "a", "ab", "B"]
        .iter()
        .map(|text| text.to_string())
        .collect();
    assert_eq!(sorted_unique(&items), vec!["", "B", "a", "ab", "b"]);
    assert_eq!(sorted_unique::<String>(&[]), Vec::<String>::new());
}
