use jw_guard::canon::canonical_path::{CanonicalPath, CanonicalPathError};
use jw_guard::canon::deterministic_id::{render_hex, DeterministicId, DeterministicIdError};
use jw_guard::canon::normalize::{
    normalize_ordered, normalize_unordered, validate_preserved_order, ExplicitOption,
    NormalizedText, OrderedValidationError,
};
use jw_guard::canon::ordering::{sort_strings, stable_sort_by_key, CanonicalOrdering};

fn strings(values: &[&str]) -> Vec<String> {
    values.iter().map(|value| value.to_string()).collect()
}

#[test]
fn try_new_accepts_valid_paths() {
    let path = CanonicalPath::try_new("alpha/beta_2/gamma-3").expect("valid path");
    assert_eq!(path.as_str(), "alpha/beta_2/gamma-3");
    assert_eq!(path.segments(), vec!["alpha", "beta_2", "gamma-3"]);
    assert_eq!(path.to_string(), "alpha/beta_2/gamma-3");
}

#[test]
fn try_new_rejects_empty_path() {
    let error = CanonicalPath::try_new("").expect_err("empty path must fail");
    assert_eq!(error, CanonicalPathError::EmptyPath);
}

#[test]
fn try_new_rejects_empty_segments() {
    let error = CanonicalPath::try_new("alpha//beta").expect_err("empty segment must fail");
    assert_eq!(error, CanonicalPathError::EmptySegment { segment_index: 1 });
}

#[test]
fn try_new_rejects_invalid_segment_characters() {
    let error = CanonicalPath::try_new("alpha/Beta").expect_err("uppercase char must fail");
    assert_eq!(
        error,
        CanonicalPathError::InvalidSegmentChar {
            segment_index: 1,
            char_index: 0,
            found: 'B',
        }
    );
}

#[test]
fn from_segments_builds_deterministic_joined_path() {
    let path =
        CanonicalPath::from_segments(&["root", "nested_item", "leaf-1"]).expect("valid path");
    assert_eq!(path.as_str(), "root/nested_item/leaf-1");
}

#[test]
fn from_segments_rejects_empty_input() {
    let empty: [&str; 0] = [];
    let error = CanonicalPath::from_segments(&empty).expect_err("empty input must fail");
    assert_eq!(error, CanonicalPathError::EmptyPath);
}

#[test]
fn join_appends_valid_segment() {
    let joined = CanonicalPath::try_new("alpha")
        .expect("valid base path")
        .join("beta-1")
        .expect("valid join segment");
    assert_eq!(joined.as_str(), "alpha/beta-1");
}

#[test]
fn join_rejects_invalid_segment_with_its_position() {
    let base = CanonicalPath::try_new("alpha/beta").expect("valid base path");
    assert_eq!(
        base.join("gam ma").expect_err("space must fail"),
        CanonicalPathError::InvalidSegmentChar {
            segment_index: 2,
            char_index: 3,
            found: ' ',
        }
    );
    assert_eq!(
        base.join("").expect_err("empty segment must fail"),
        CanonicalPathError::EmptySegment { segment_index: 2 }
    );
}

#[test]
fn from_segments_reports_the_offending_segment() {
    assert_eq!(
        CanonicalPath::from_segments(&["ok", "", "x"]).expect_err("empty segment"),
        CanonicalPathError::EmptySegment { segment_index: 1 }
    );
    assert_eq!(
        CanonicalPath::try_new("a/").expect_err("trailing separator"),
        CanonicalPathError::EmptySegment { segment_index: 1 }
    );
}

#[test]
fn derive_is_repeatable() {
    let left = DeterministicId::derive("boundary", "1.0.0", "boundary/public")
        .expect("inputs are non-empty");
    let right = DeterministicId::derive("boundary", "1.0.0", "boundary/public")
        .expect("inputs are non-empty");

    assert_eq!(left, right);
}

#[test]
fn derive_is_domain_separated() {
    let left = DeterministicId::derive("boundary", "1.0.0", "boundary/public")
        .expect("inputs are non-empty");
    let right = DeterministicId::derive("scope", "1.0.0", "boundary/public")
        .expect("inputs are non-empty");

    assert_ne!(left, right);
}

#[test]
fn derive_rejects_empty_fields() {
    assert_eq!(
        DeterministicId::derive("", "1.0.0", "boundary/public"),
        Err(DeterministicIdError::EmptyIdKind)
    );
    assert_eq!(
        DeterministicId::derive("boundary", "", "boundary/public"),
        Err(DeterministicIdError::EmptySchemaVersion)
    );
    assert_eq!(
        DeterministicId::derive("boundary", "1.0.0", ""),
        Err(DeterministicIdError::EmptyCanonicalPath)
    );
}

#[test]
fn render_hex_is_lowercase_and_stable() {
    let id = DeterministicId::derive("boundary", "1.0.0", "boundary/public")
        .expect("inputs are non-empty");

    assert_eq!(id.to_hex(), "2271c6ebc0079fe9b199bb418f957ea1");
    assert_eq!(id.to_hex(), render_hex(id.as_bytes()));
}

#[test]
fn render_hex_writes_two_digits_per_byte() {
    let mut bytes = [0u8; 16];
    bytes[0] = 0x0f;
    bytes[15] = 0xa0;
    assert_eq!(render_hex(bytes), "0f0000000000000000000000000000a0");
    assert_eq!(DeterministicId::from_bytes(bytes).as_bytes(), bytes);
}

#[test]
fn normalize_unordered_sorts_and_dedups() {
    let normalized = normalize_unordered(strings(&["z", "a", "z", "m", "a"]));
    assert_eq!(normalized, vec!["a", "m", "z"]);
}

#[test]
fn normalize_unordered_handles_empty_and_prefixes() {
    assert!(normalize_unordered(Vec::new()).is_empty());
    let normalized = normalize_unordered(strings(&["ab", "a", "", "ab"]));
    assert_eq!(normalized, vec!["", "a", "ab"]);
}

#[test]
fn normalize_ordered_preserves_input_order() {
    let original = vec!["edge/b", "edge/a", "edge/c"];
    let normalized = normalize_ordered(original.clone());

    assert_eq!(normalized, original);
    assert_eq!(validate_preserved_order(&original, &normalized), Ok(()));
}

#[test]
fn validate_preserved_order_reports_first_difference() {
    let original = ["a", "b", "c"];
    let reordered = ["a", "c", "b"];

    assert_eq!(
        validate_preserved_order(&original, &reordered),
        Err(OrderedValidationError::ReorderedAt(1))
    );
}

#[test]
fn validate_preserved_order_reports_length_mismatch() {
    assert_eq!(
        validate_preserved_order(&["a", "b"], &["a"]),
        Err(OrderedValidationError::LengthMismatch)
    );
}

#[test]
fn explicit_option_tracks_explicitness() {
    let omitted: ExplicitOption<&str> = ExplicitOption::unspecified();
    let none: ExplicitOption<&str> = ExplicitOption::explicit_none();
    let some = ExplicitOption::explicit_some("value");

    assert!(!omitted.is_explicit());
    assert!(none.is_explicit());
    assert!(none.is_none());
    assert!(some.is_some());
    assert_eq!(some.into_option(), Some("value"));
    assert_eq!(none.into_option(), None);
    assert_eq!(omitted.into_option(), None);
}

#[test]
fn explicit_option_from_option_is_explicit() {
    let some = ExplicitOption::from_option(Some(3u8));
    let none: ExplicitOption<u8> = ExplicitOption::from_option(None);
    assert!(some.is_explicit());
    assert!(none.is_explicit());
    assert_eq!(some.into_option(), Some(3));
}

#[test]
fn normalized_text_keeps_its_text() {
    assert_eq!(NormalizedText::new("abc").as_str(), "abc");
}

#[test]
fn lexicographic_order_sorts_strings_deterministically() {
    let mut values = vec![
        String::from("zeta"),
        String::from("alpha"),
        String::from("alpha-1"),
    ];

    CanonicalOrdering::Lexicographic.order_strings(&mut values);
    assert_eq!(values, vec!["alpha", "alpha-1", "zeta"]);
}

#[test]
fn stable_input_order_keeps_strings_unchanged() {
    let mut values = vec![String::from("beta"), String::from("alpha")];
    CanonicalOrdering::StableInput.order_strings(&mut values);
    assert_eq!(values, vec!["beta", "alpha"]);
}

#[test]
fn lexicographic_order_sorts_paths_by_canonical_string() {
    let mut paths = vec![
        CanonicalPath::try_new("zeta/root").expect("valid path"),
        CanonicalPath::try_new("alpha/leaf").expect("valid path"),
        CanonicalPath::try_new("alpha/core").expect("valid path"),
    ];

    CanonicalOrdering::Lexicographic.order_paths(&mut paths);
    let ordered: Vec<&str> = paths.iter().map(CanonicalPath::as_str).collect();
    assert_eq!(ordered, vec!["alpha/core", "alpha/leaf", "zeta/root"]);
}

#[test]
fn sort_strings_keeps_duplicates() {
    let mut values = strings(&["b", "a", "b"]);
    sort_strings(&mut values);
    assert_eq!(values, vec!["a", "b", "b"]);
}

#[derive(Debug, Clone, Copy, PartialEq, Eq)]
struct Item {
    key: u8,
    id: u8,
}

#[test]
fn stable_sort_by_key_preserves_input_order_for_equal_keys() {
    let mut items = vec![
        Item { key: 2, id: 1 },
        Item { key: 1, id: 2 },
        Item { key: 2, id: 3 },
        Item { key: 1, id: 4 },
    ];

    stable_sort_by_key(&mut items, |item: &Item| u64::from(item.key));
    let ids: Vec<u8> = items.iter().map(|item| item.id).collect();
    assert_eq!(ids, vec![2, 4, 1, 3]);
}

#[test]
fn stable_sort_by_key_handles_empty_and_sorted_input() {
    let mut empty: Vec<Item> = Vec::new();
    stable_sort_by_key(&mut empty, |item: &Item| u64::from(item.key));
    assert!(empty.is_empty());

    let mut sorted = vec![Item { key: 1, id: 1 }, Item { key: 1, id: 2 }, Item { key: 3, id: 3 }];
    stable_sort_by_key(&mut sorted, |item: &Item| u64::from(item.key));
    let ids: Vec<u8> = sorted.iter().map(|item| item.id).collect();
    assert_eq!(ids, vec![1, 2, 3]);
}
