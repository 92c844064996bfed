//! Tests for the keyed subset join.

use tor_hsservice::merge_join::merge_join_subset_by;

fn chk(bigger: &str, smaller: &str, output: &str) {
    let b: Vec<(u64, char)> = bigger.chars().map(|c| (c as u64, c)).collect();
    let s: Vec<(u64, char)> = smaller.chars().map(|c| (c as u64, c)).collect();
    let r = merge_join_subset_by(&b, &s);
    let got: String = r
        .iter()
        .map(|(k, bv, sv)| {
            assert_eq!(*k, *bv as u64);
            assert_eq!(*k, *sv as u64);
            *bv
        })
        .collect();
    assert_eq!(got, output);
}

#[test]
fn test_merge_join_subset_by() {
    chk("abc", "abc", "abc");
    chk("abc", "a", "a");
    chk("abc", "b", "b");
    chk("abc", "c", "c");
    chk("abc", "x", ""); // wrong input, but test it anyway
    chk("b", "abc", "b"); // wrong input, but test it anyway

    chk("abc", "", "");
    chk("", "abc", ""); // wrong input, but test it anyway
}

#[test]
fn merge_join_carries_both_values() {
    let bigger: Vec<(u64, char)> = vec![(1, 'x'), (2, 'y'), (3, 'z')];
    let smaller: Vec<(u64, char)> = vec![(3, 'C'), (1, 'A')];
    let r = merge_join_subset_by(&bigger, &smaller);
    assert_eq!(r.len(), 2);
    assert_eq!(r[0], (1, 'x', 'A'));
    assert_eq!(r[1], (3, 'z', 'C'));
}

#[test]
fn merge_join_duplicate_bigger_key_used_once() {
    let bigger: Vec<(u64, char)> = vec![(7, 'a'), (7, 'b')];
    let smaller: Vec<(u64, char)> = vec![(7, 's')];
    let r = merge_join_subset_by(&bigger, &smaller);
    assert_eq!(r.len(), 1);
    assert_eq!(r[0].0, 7);
}
