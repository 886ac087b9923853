use gh_file_curler::json::string_member;
use gh_file_curler::{classify, decode_listing, listing_from, DirectoryEntry, Listing};

fn value(text: &str) -> serde_json::Value {
    serde_json::from_str(text).unwrap()
}

#[test]
fn file_descriptor_is_a_file() {
    let v = value(r#"{"type":"file","name":"a.md","download_url":"https://raw/a.md","size":12}"#);
    assert_eq!(
        classify(&v),
        DirectoryEntry::File {
            name: "a.md".to_string(),
            download_reference: "https://raw/a.md".to_string(),
        }
    );
}

#[test]
fn dir_descriptor_is_a_directory() {
    let v = value(r#"{"name":"util","type":"dir","download_url":null}"#);
    assert_eq!(classify(&v), DirectoryEntry::Directory { name: "util".to_string() });
}

#[test]
fn file_descriptor_without_reference_is_unknown() {
    assert_eq!(classify(&value(r#"{"type":"file","name":"a.md"}"#)), DirectoryEntry::Unknown);
    assert_eq!(
        classify(&value(r#"{"type":"file","name":"a.md","download_url":null}"#)),
        DirectoryEntry::Unknown
    );
    assert_eq!(
        classify(&value(r#"{"type":"file","name":"a.md","download_url":7}"#)),
        DirectoryEntry::Unknown
    );
}

#[test]
fn descriptor_without_name_is_unknown() {
    assert_eq!(
        classify(&value(r#"{"type":"file","download_url":"https://raw/a.md"}"#)),
        DirectoryEntry::Unknown
    );
    assert_eq!(classify(&value(r#"{"type":"dir"}"#)), DirectoryEntry::Unknown);
    assert_eq!(classify(&value(r#"{"type":"dir","name":["util"]}"#)), DirectoryEntry::Unknown);
}

#[test]
fn other_types_are_unknown() {
    for text in [
        r#"{"type":"symlink","name":"l","download_url":"https://raw/l"}"#,
        r#"{"type":"submodule","name":"m"}"#,
        r#"{"type":"File","name":"a.md","download_url":"https://raw/a.md"}"#,
        r#"{"type":"","name":"a.md","download_url":"https://raw/a.md"}"#,
        r#"{"type":1,"name":"a.md","download_url":"https://raw/a.md"}"#,
        r#"{"name":"a.md","download_url":"https://raw/a.md"}"#,
        r#"{}"#,
    ] {
        assert_eq!(classify(&value(text)), DirectoryEntry::Unknown, "{text}");
    }
}

#[test]
fn values_that_are_no_objects_are_unknown() {
    for text in ["null", "true", "3", r#""file""#, r#"["type","file"]"#] {
        assert_eq!(classify(&value(text)), DirectoryEntry::Unknown, "{text}");
    }
}

#[test]
fn string_member_reads_strings_only() {
    let v = value(r#"{"a":"x","b":1,"c":null,"d":{"a":"y"},"e":""}"#);
    assert_eq!(string_member(&v, "a"), Some("x".to_string()));
    assert_eq!(string_member(&v, "b"), None);
    assert_eq!(string_member(&v, "c"), None);
    assert_eq!(string_member(&v, "d"), None);
    assert_eq!(string_member(&v, "e"), Some(String::new()));
    assert_eq!(string_member(&v, "missing"), None);
    assert_eq!(string_member(&value(r#"["a","x"]"#), "a"), None);
    assert_eq!(string_member(&value(r#""a""#), "a"), None);
}

#[test]
fn array_body_is_a_listing_in_order() {
    let body = br#"[
        {"type":"file","name":"a.md","download_url":"https://raw/a.md"},
        {"type":"dir","name":"util"},
        {"type":"symlink","name":"l"},
        {"type":"file","name":"b.md","download_url":"https://raw/b.md"}
    ]"#;
    assert_eq!(
        decode_listing(body.to_vec()),
        Listing::Entries(vec![
            DirectoryEntry::File {
                name: "a.md".to_string(),
                download_reference: "https://raw/a.md".to_string(),
            },
            DirectoryEntry::Directory { name: "util".to_string() },
            DirectoryEntry::Unknown,
            DirectoryEntry::File {
                name: "b.md".to_string(),
                download_reference: "https://raw/b.md".to_string(),
            },
        ])
    );
}

#[test]
fn empty_array_is_an_empty_listing() {
    assert_eq!(decode_listing(b" [ ] ".to_vec()), Listing::Entries(Vec::new()));
}

#[test]
fn object_body_is_not_a_directory() {
    let body = br#"{"type":"file","name":"a.md","download_url":"https://raw/a.md"}"#.to_vec();
    assert_eq!(decode_listing(body.clone()), Listing::NotADirectory { body });
}

#[test]
fn scalar_body_is_not_a_directory() {
    for text in ["null", "42", r#""[]""#, "true"] {
        let body = text.as_bytes().to_vec();
        assert_eq!(decode_listing(body.clone()), Listing::NotADirectory { body });
    }
}

#[test]
fn body_that_is_not_json_is_not_a_directory() {
    for bytes in [&b""[..], &b"<html>"[..], &b"[1,2"[..], &b"[] []"[..], &[0xff, 0xfe][..]] {
        let body = bytes.to_vec();
        assert_eq!(decode_listing(body.clone()), Listing::NotADirectory { body });
    }
}

#[test]
fn listing_from_follows_the_document() {
    let doc = value(r#"[{"type":"dir","name":"d"}]"#);
    assert_eq!(
        listing_from(Some(doc), b"ignored".to_vec()),
        Listing::Entries(vec![DirectoryEntry::Directory { name: "d".to_string() }])
    );
    assert_eq!(
        listing_from(Some(value(r#"{"a":[]}"#)), b"raw".to_vec()),
        Listing::NotADirectory { body: b"raw".to_vec() }
    );
    assert_eq!(
        listing_from(None, b"raw".to_vec()),
        Listing::NotADirectory { body: b"raw".to_vec() }
    );
}

#[test]
fn names_are_taken_as_they_are() {
    let v = value(r#"{"type":"file","name":"café \"x\"/y","download_url":"u"}"#);
    assert_eq!(
        classify(&v),
        DirectoryEntry::File {
            name: "café \"x\"/y".to_string(),
            download_reference: "u".to_string(),
        }
    );
}
