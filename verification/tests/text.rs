use alleycat::key_set::KeySet;
use alleycat::text::{decimal_text, integer_text, listed, rank, same, Rank};
use alleycat::text_map::TextMap;

#[test]
fn numbers_are_written_in_decimal() {
    for n in [0u64, 7, 10, 99, 100, 1234567890, u64::MAX] {
        assert_eq!(decimal_text(n), n.to_string());
    }
    for n in [0i64, 5, -1, -32000, i64::MAX, i64::MIN] {
        assert_eq!(integer_text(n), n.to_string());
    }
}

#[test]
fn texts_are_ranked_as_strings_are() {
    let texts = ["", "a", "aa", "ab", "b", "B", "é", "z", "\u{ffff}", "\u{10000}", "日本"];
    for a in texts {
        for b in texts {
            let expected = if a < b {
                Rank::Before
            } else if a == b {
                Rank::Same
            } else {
                Rank::After
            };
            assert_eq!(rank(a, b), expected);
            assert_eq!(same(a, b), a == b);
        }
    }
}

#[test]
fn lists_are_searched_for_whole_texts() {
    let list = vec!["one", "two"];
    assert!(listed(&list, "two"));
    assert!(!listed(&list, "tw"));
    assert!(!listed(&Vec::new(), ""));
}

#[test]
fn maps_keep_the_last_value_of_a_key() {
    let map: TextMap<u32> = TextMap::new();
    assert!(map.keys().is_empty());
    let map = map.insert("b".to_string(), 1).insert("a".to_string(), 2).insert("b".to_string(), 3);
    assert_eq!(map.get("a"), Some(&2));
    assert_eq!(map.get("b"), Some(&3));
    assert_eq!(map.get("c"), None);
    let keys: KeySet = map.keys();
    assert_eq!(keys.len(), 2);
    assert_eq!(keys.get(0), "a");
    assert_eq!(keys.get(1), "b");
}
