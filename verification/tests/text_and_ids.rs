use kv_explorer::error::KvError;
use kv_explorer::gateway::{local_namespace_id, raw_name_of, NamespaceRef};
use kv_explorer::text::{
    chars_of, count_digits, push_decimal, push_signed_decimal, read_decimal, starts_with, str_eq,
    string_of,
};

fn decimal_text(n: u64) -> String {
    let mut out = Vec::new();
    push_decimal(&mut out, n);
    string_of(&out)
}

fn signed_text(n: i64) -> String {
    let mut out = Vec::new();
    push_signed_decimal(&mut out, n);
    string_of(&out)
}

#[test]
fn decimal_is_written_without_leading_zeros() {
    assert_eq!(decimal_text(0), "0");
    assert_eq!(decimal_text(7), "7");
    assert_eq!(decimal_text(120), "120");
    assert_eq!(decimal_text(u64::MAX), "18446744073709551615");
}

#[test]
fn signed_decimal_has_a_minus_sign() {
    assert_eq!(signed_text(-42), "-42");
    assert_eq!(signed_text(42), "42");
    assert_eq!(signed_text(i64::MIN), "-9223372036854775808");
    assert_eq!(signed_text(i64::MAX), "9223372036854775807");
}

#[test]
fn decimal_is_read_up_to_the_limit() {
    let digits = chars_of("x0123y");
    assert_eq!(count_digits(&digits, 1), 4);
    assert_eq!(count_digits(&digits, 0), 0);
    assert_eq!(read_decimal(&digits, 1, 5, 1000), Some(123));
    assert_eq!(read_decimal(&digits, 1, 5, 122), None);
    assert_eq!(read_decimal(&digits, 1, 1, 5), Some(0));
    let big = chars_of("18446744073709551616");
    assert_eq!(read_decimal(&big, 0, big.len(), u64::MAX), None);
    let max = chars_of("18446744073709551615");
    assert_eq!(read_decimal(&max, 0, max.len(), u64::MAX), Some(u64::MAX));
}

#[test]
fn strings_and_characters() {
    assert_eq!(chars_of("a\u{e9}b"), vec!['a', '\u{e9}', 'b']);
    assert_eq!(string_of(&vec!['o', 'k']), "ok");
    assert!(str_eq("same", "same"));
    assert!(!str_eq("same", "sam"));
    assert!(!str_eq("same", "samf"));
    assert!(starts_with(&chars_of("folder-1"), &chars_of("folder-")));
    assert!(!starts_with(&chars_of("fold"), &chars_of("folder-")));
    assert!(starts_with(&chars_of("x"), &chars_of("")));
}

#[test]
fn local_id_is_written() {
    assert_eq!(local_namespace_id(12, "abc123"), "folder-12-ns-abc123");
    assert_eq!(local_namespace_id(0, "a-b"), "folder-0-ns-a-b");
}

#[test]
fn local_id_is_read_back() {
    let id = local_namespace_id(7, "my-name-with-dashes");
    assert_eq!(
        NamespaceRef::resolve(&id, "acct"),
        Ok(NamespaceRef::Local { folder_id: 7, raw_name: "my-name-with-dashes".to_string() })
    );
    assert_eq!(raw_name_of(&id), Ok("my-name-with-dashes".to_string()));
}

#[test]
fn raw_name_keeps_embedded_separators() {
    assert_eq!(
        NamespaceRef::resolve("folder-3-ns--ns-x-", "acct"),
        Ok(NamespaceRef::Local { folder_id: 3, raw_name: "-ns-x-".to_string() })
    );
    assert_eq!(
        NamespaceRef::resolve("folder-3-ns-", "acct"),
        Ok(NamespaceRef::Local { folder_id: 3, raw_name: String::new() })
    );
}

#[test]
fn other_ids_are_remote() {
    assert_eq!(
        NamespaceRef::resolve("0f2ac74b498b48028cb68387c421e279", "acct"),
        Ok(NamespaceRef::Remote {
            account_id: "acct".to_string(),
            namespace_id: "0f2ac74b498b48028cb68387c421e279".to_string(),
        })
    );
    assert_eq!(
        NamespaceRef::resolve("folder", "acct"),
        Ok(NamespaceRef::Remote { account_id: "acct".to_string(), namespace_id: "folder".to_string() })
    );
    assert_eq!(raw_name_of("plain"), Ok("plain".to_string()));
}

#[test]
fn malformed_local_ids_are_refused() {
    for id in [
        "folder-",
        "folder-12",
        "folder-12-ns",
        "folder-12-xx-name",
        "folder--ns-name",
        "folder-abc-ns-name",
        "folder-012-ns-name",
        "folder--5-ns-name",
        "folder-9223372036854775808-ns-name",
        "folder-12ns-name",
    ] {
        assert_eq!(NamespaceRef::resolve(id, "acct"), Err(KvError::InvalidNamespaceId), "{}", id);
        assert_eq!(raw_name_of(id), Err(KvError::InvalidNamespaceId), "{}", id);
    }
}

#[test]
fn largest_folder_id_is_read() {
    assert_eq!(
        NamespaceRef::resolve("folder-9223372036854775807-ns-n", "a"),
        Ok(NamespaceRef::Local { folder_id: i64::MAX, raw_name: "n".to_string() })
    );
}

#[test]
fn reference_names_its_id() {
    let local = NamespaceRef::Local { folder_id: 5, raw_name: "n-1".to_string() };
    assert_eq!(local.id(), "folder-5-ns-n-1");
    let remote = NamespaceRef::Remote { account_id: "a".to_string(), namespace_id: "ns".to_string() };
    assert_eq!(remote.id(), "ns");
    assert_eq!(NamespaceRef::resolve(&local.id(), "a"), Ok(local));
}
