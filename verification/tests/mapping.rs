//! The mapping queue engine itself: literal, leftmost, non-overlapping
//! substitution, applied mapping by mapping in queue order.

use konbaato::{char_mappings, MappingQueue};

#[test]
fn empty_queue_is_identity() {
    let q = MappingQueue::new();
    assert_eq!(q.apply("no mappings at all"), "no mappings at all");
    assert_eq!(q.apply(""), "");
}

#[test]
fn single_mapping_replaces_all_occurrences() {
    let q = MappingQueue::new().push("ab", "x");
    assert_eq!(q.apply("abab"), "xx");
    assert_eq!(q.apply("cabbage"), "cxbage");
    assert_eq!(q.apply("nothing"), "nothing");
}

#[test]
fn matches_do_not_overlap() {
    let q = MappingQueue::new().push("aa", "b");
    assert_eq!(q.apply("aaa"), "ba");
    assert_eq!(q.apply("aaaa"), "bb");
}

#[test]
fn replacement_may_grow_or_shrink() {
    let q = MappingQueue::new().push("a", "long");
    assert_eq!(q.apply("a-a"), "long-long");
    let q = MappingQueue::new().push("long", "");
    assert_eq!(q.apply("a long gone day"), "a  gone day");
}

#[test]
fn later_mapping_sees_earlier_output() {
    let q = MappingQueue::new().push("a", "bc").push("c", "d");
    assert_eq!(q.apply("a"), "bd");
}

#[test]
fn queue_order_is_significant() {
    let forward = MappingQueue::new().push("a", "bc").push("c", "d");
    let reversed = MappingQueue::new().push("c", "d").push("a", "bc");
    assert_eq!(forward.apply("a"), "bd");
    assert_eq!(reversed.apply("a"), "bc");
    assert_ne!(forward.apply("a"), reversed.apply("a"));
}

#[test]
fn char_mappings_pairs_positionally() {
    let pairs = char_mappings("abc", "xyz");
    let q = MappingQueue::new().extend(pairs);
    assert_eq!(q.apply("cab"), "zxy");
}

#[test]
fn char_mappings_by_scalar_value() {
    let pairs = char_mappings("か\u{3099}", "カ\u{309a}");
    let q = MappingQueue::new().extend(pairs);
    assert_eq!(q.apply("か\u{3099}"), "カ\u{309a}");
}

#[test]
fn extend_then_push_keeps_order() {
    let q = MappingQueue::new().extend(char_mappings("a", "b")).push("b", "c");
    assert_eq!(q.apply("a"), "c");
}
