use animate::timeline::Timeline;

fn sample() -> Timeline<&'static str> {
    let mut t = Timeline::new();
    t.insert(20, "c");
    t.insert(0, "a");
    t.insert(10, "b");
    t
}

#[test]
fn new_timeline_is_empty() {
    let t: Timeline<u8> = Timeline::new();
    assert!(t.is_empty());
    assert_eq!(t.len(), 0);
    assert_eq!(t.frames(), Vec::<u32>::new());
    assert!(t.first().is_none());
    assert!(t.predecessor(5).is_none());
    assert!(t.successor(5).is_none());
    assert!(t.get(0).is_none());
    assert!(!t.contains_key(0));
}

#[test]
fn entries_are_kept_in_frame_order() {
    let t = sample();
    assert_eq!(t.len(), 3);
    assert!(!t.is_empty());
    assert_eq!(t.frames(), vec![0, 10, 20]);
    assert_eq!(t.first(), Some((0, &"a")));
}

#[test]
fn get_and_contains_key() {
    let t = sample();
    assert_eq!(t.get(10), Some(&"b"));
    assert_eq!(t.get(11), None);
    assert!(t.contains_key(20));
    assert!(!t.contains_key(19));
}

#[test]
fn insert_replaces_the_value_at_a_frame() {
    let mut t = sample();
    t.insert(10, "z");
    assert_eq!(t.len(), 3);
    assert_eq!(t.get(10), Some(&"z"));
    assert_eq!(t.frames(), vec![0, 10, 20]);
}

#[test]
fn remove_takes_out_one_entry() {
    let mut t = sample();
    assert_eq!(t.remove(10), Some("b"));
    assert_eq!(t.remove(10), None);
    assert_eq!(t.frames(), vec![0, 20]);
    assert_eq!(t.predecessor(15), Some((0, &"a")));
    assert_eq!(t.successor(0), Some((20, &"c")));
}

#[test]
fn predecessor_is_the_greatest_key_at_or_before() {
    let t = sample();
    assert_eq!(t.predecessor(0), Some((0, &"a")));
    assert_eq!(t.predecessor(9), Some((0, &"a")));
    assert_eq!(t.predecessor(10), Some((10, &"b")));
    assert_eq!(t.predecessor(19), Some((10, &"b")));
    assert_eq!(t.predecessor(20), Some((20, &"c")));
    assert_eq!(t.predecessor(u32::MAX), Some((20, &"c")));
    let mut late = Timeline::new();
    late.insert(5, 1u8);
    assert_eq!(late.predecessor(4), None);
    assert_eq!(late.predecessor(0), None);
}

#[test]
fn successor_is_the_smallest_key_after() {
    let t = sample();
    assert_eq!(t.successor(0), Some((10, &"b")));
    assert_eq!(t.successor(9), Some((10, &"b")));
    assert_eq!(t.successor(10), Some((20, &"c")));
    assert_eq!(t.successor(20), None);
    assert_eq!(t.successor(u32::MAX), None);
}

#[test]
fn the_ends_of_the_frame_range() {
    let mut t = Timeline::new();
    t.insert(u32::MAX, 'x');
    t.insert(0, 'o');
    assert_eq!(t.predecessor(u32::MAX), Some((u32::MAX, &'x')));
    assert_eq!(t.predecessor(u32::MAX - 1), Some((0, &'o')));
    assert_eq!(t.successor(u32::MAX - 1), Some((u32::MAX, &'x')));
    assert_eq!(t.successor(u32::MAX), None);
    assert_eq!(t.first(), Some((0, &'o')));
}

#[test]
fn queries_agree_with_a_linear_scan() {
    let mut t = Timeline::new();
    let keys = [7u32, 3, 19, 11, 2, 30, 23];
    for &k in &keys {
        t.insert(k, k * 10);
    }
    for f in 0u32..35 {
        let below = keys.iter().copied().filter(|&k| k <= f).max();
        let above = keys.iter().copied().filter(|&k| k > f).min();
        assert_eq!(t.predecessor(f).map(|(k, v)| (k, *v)), below.map(|k| (k, k * 10)));
        assert_eq!(t.successor(f).map(|(k, v)| (k, *v)), above.map(|k| (k, k * 10)));
        assert_eq!(t.contains_key(f), keys.contains(&f));
    }
}
