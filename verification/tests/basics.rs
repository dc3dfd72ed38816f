use bigfred_commons::fspath::FsPath;
use bigfred_commons::json::text_member;
use bigfred_commons::text::decimal;
use bigfred_commons::text::ends_with;
use bigfred_commons::text::hex;
use bigfred_commons::text::is_white_space;
use bigfred_commons::text::list_has;
use bigfred_commons::text::same_text;
use bigfred_commons::text::trim;
use bigfred_commons::textmap::TextMap;
use std::path::Path;

#[test]
fn white_space_is_that_of_unicode() {
    for c in '\0'..=char::MAX {
        assert_eq!(is_white_space(c), c.is_whitespace(), "{:x}", c as u32);
    }
}

#[test]
fn trimming_agrees_with_std() {
    for s in [
        "", " ", "a", " a ", "\u{3000}\u{e9} x\u{85}", "\ta\n\n", "a b", "\u{200b}a",
    ] {
        assert_eq!(trim(s), s.trim());
        assert_eq!(trim(trim(s)), trim(s));
    }
}

#[test]
fn decimal_and_hex_digits() {
    for n in [0, 7, 10, 99, 100, 65_535, u64::MAX] {
        assert_eq!(decimal(n), n.to_string());
    }
    assert_eq!(hex(&[]), "");
    assert_eq!(hex(&[0x00, 0x9a, 0xff]), "009aff");
}

#[test]
fn text_comparisons() {
    assert!(same_text("a\u{e9}", "a\u{e9}"));
    assert!(!same_text("a", "ab"));
    assert!(ends_with(b"abc", b"bc"));
    assert!(ends_with(b"abc", b""));
    assert!(!ends_with(b"c", b"bc"));
    let list = vec!["x".to_string(), "y".to_string()];
    assert!(list_has(&list, "y"));
    assert!(!list_has(&list, "z"));
}

#[test]
fn paths_agree_with_std() {
    let paths = [
        "", "/", "//", ".", "..", "./", "../", "/.", "/..", "a", "a/", "a/.", "a/./", "a/..",
        "/a", "/a/b", "/a//b", "/a/b/", "/a/./b", "a/b.json", "a/.hidden", "a/.hidden.x", "a.b.c",
        "./a", "./.", "./..", "././a", "a/b/../c", "/a/b.", "..a", "...", ".a.", "//a", "/./a",
        "a/././.", ".//", "a//",
    ];
    for text in paths {
        let ours = FsPath::new(text);
        let std = Path::new(text);
        let bytes = |s: &std::path::Path| s.as_os_str().as_encoded_bytes().to_vec();
        assert_eq!(ours.is_absolute(), std.is_absolute(), "{text:?}");
        assert_eq!(
            ours.file_name().map(<[u8]>::to_vec),
            std.file_name().map(|n| n.as_encoded_bytes().to_vec()),
            "name of {text:?}"
        );
        assert_eq!(
            ours.extension().map(<[u8]>::to_vec),
            std.extension().map(|n| n.as_encoded_bytes().to_vec()),
            "extension of {text:?}"
        );
        assert_eq!(
            ours.parent().map(|q| q.as_bytes().to_vec()),
            std.parent().map(bytes),
            "parent of {text:?}"
        );
        assert_eq!(ours.display(), std.display().to_string());
        for part in paths {
            assert_eq!(
                ours.join(part.as_bytes()).as_bytes().to_vec(),
                bytes(&std.join(part)),
                "{text:?} and {part:?}"
            );
        }
    }
}

#[test]
fn map_keeps_one_value_per_key() {
    let mut map: TextMap<u8> = TextMap::new();
    assert_eq!(map.insert("a".to_string(), 1), None);
    assert_eq!(map.insert("b".to_string(), 2), None);
    assert_eq!(map.insert("a".to_string(), 3), Some(1));
    assert_eq!(map.get("a"), Some(&3));
    assert!(map.contains_key("b"));
    assert_eq!(map.remove("a"), Some(3));
    assert_eq!(map.remove("a"), None);
    map.clear();
    assert!(!map.contains_key("b"));
}

#[test]
fn members_of_json_documents() {
    let doc = br#"{"a":"x","b":{"a":"y"},"c":null,"a2":"\n"}"#;
    assert_eq!(text_member(doc, "a"), Some("x".to_string()));
    assert_eq!(text_member(doc, "a2"), Some("\n".to_string()));
    assert_eq!(text_member(doc, "b"), None);
    assert_eq!(text_member(doc, "c"), None);
    assert_eq!(text_member(doc, "d"), None);
    assert_eq!(text_member(b"\"a\"", "a"), None);
    assert_eq!(text_member(b"nonsense", "a"), None);
}
