use gglibrary::cxxstd::{foreign_string_round_trip, CxxString, CxxStringView, CxxUniquePtr, CxxVector};
use gglibrary::ue4ss::{align_to, CppUserModBase, FString, ModCallback, Vtable};
use gglibrary::wide::{decode_utf16, encode_utf16};

#[test]
fn round_trip_empty_string() {
    assert_eq!(foreign_string_round_trip(""), Some(String::new()));
    let s = CxxString::new();
    assert_eq!(s.len(), 0);
    assert_eq!(s.string(), Some(String::new()));
}

#[test]
fn round_trip_at_inline_capacity() {
    // Exactly at the inline capacity of seven units.
    let s = "abcdefg";
    let foreign = CxxString::from_str(s);
    assert_eq!(foreign.len(), 7);
    assert_eq!(foreign.string(), Some(s.to_string()));
    assert_eq!(foreign_string_round_trip(s), Some(s.to_string()));
}

#[test]
fn round_trip_one_past_inline_capacity() {
    // One past the inline capacity: the content moves to the heap form.
    let s = "abcdefgh";
    let foreign = CxxString::from_str(s);
    assert_eq!(foreign.len(), 8);
    assert_eq!(foreign.string(), Some(s.to_string()));
    assert_eq!(foreign_string_round_trip(s), Some(s.to_string()));
}

#[test]
fn round_trip_beyond_the_basic_plane() {
    let s = "a\u{1F600}b";
    assert_eq!(foreign_string_round_trip(s), Some(s.to_string()));
}

#[test]
fn encode_splits_supplementary_characters_into_surrogates() {
    assert_eq!(encode_utf16("\u{1F600}"), vec![0xd83d, 0xde00]);
    assert_eq!(encode_utf16("A"), vec![0x41]);
    assert_eq!(decode_utf16(&[0xd83d, 0xde00]), Some(vec!['\u{1F600}']));
}

#[test]
fn decode_rejects_lone_surrogates() {
    assert_eq!(decode_utf16(&[0xd800]), None);
    assert_eq!(decode_utf16(&[0xdc00]), None);
    assert_eq!(decode_utf16(&[0xd800, 0x41]), None);
}

#[test]
fn string_view_round_trip() {
    let v = CxxStringView::from_str("hello world");
    assert_eq!(v.string(), Some("hello world".to_string()));
}

#[test]
fn foreign_vector_emptiness_is_pointer_equality() {
    let empty = CxxVector { first: 0x100, last: 0x100, end: 0x140 };
    assert!(empty.is_empty());
    assert_eq!(empty.byte_len(), 0);
    let full = CxxVector { first: 0x100, last: 0x118, end: 0x140 };
    assert!(!full.is_empty());
    assert_eq!(full.byte_len(), 0x18);
}

#[test]
fn unique_ptr_holds_address() {
    let p = CxxUniquePtr { ptr: 0x4242 };
    assert_eq!(p.get(), 0x4242);
}

#[test]
fn align_to_rounds_up_to_the_next_multiple() {
    assert_eq!(align_to(5, 4), 8);
    assert_eq!(align_to(8, 4), 8);
    assert_eq!(align_to(0, 4), 0);
    assert_eq!(align_to(9, 1), 9);
    assert_eq!(align_to(1, 16), 16);
}

#[test]
fn fstring_carries_terminator_inclusive_size() {
    let f = FString::from_str("abc").unwrap();
    assert_eq!(f.size, 4);
    assert_eq!(f.capacity, 4);
    assert_eq!(f.string(), Some("abc".to_string()));
    let g = FString::from_str("abcd").unwrap();
    assert_eq!(g.size, 5);
    assert_eq!(g.capacity, 8);
    let empty = FString::empty();
    assert_eq!(empty.size, 0);
    assert_eq!(empty.string(), Some(String::new()));
}

#[test]
fn mod_record_stores_descriptive_strings() {
    let record = CppUserModBase::build(Vtable::default(), "SomeMod", "1", "", "someone");
    assert_eq!(record.mod_name.string(), Some("SomeMod".to_string()));
    assert_eq!(record.mod_version.string(), Some("1".to_string()));
    assert_eq!(record.mod_authors.string(), Some("someone".to_string()));
    assert_eq!(record.mod_intended_sdk_version.len(), 0);
    assert_eq!(record.vtable.on_unreal_init, ModCallback::default());
    assert_eq!(record.vtable.on_unreal_init.addr, 0);
}
