use simcore::GenVec;

#[test]
fn gen_vec() {
    let mut gv = GenVec::new();

    // Insert
    let a = gv.insert("a");
    let b = gv.insert("b");
    let c = gv.insert("c");
    assert_eq!(gv.get(&a), Some(&"a"));
    assert_eq!(gv.get(&b), Some(&"b"));
    assert_eq!(gv.get(&c), Some(&"c"));
    assert_eq!(gv.len(), 3);

    // Remove
    gv.remove(&a);
    assert_eq!(gv.get(&a), None);
    assert_eq!(gv.len(), 2);

    // Re-insert
    let d = gv.insert("d");

    assert_eq!(a.index, d.index);
    assert_ne!(a.generation, d.generation);

    // Re-remove and re-re-insert
    gv.remove(&d);
    let e = gv.insert("e");
    assert_eq!(a.index, e.index);
    assert_ne!(a.generation, e.generation);
}

#[test]
fn len_counts_live_values() {
    let mut gv: GenVec<u32> = GenVec::new();
    let mut ids = Vec::new();
    for i in 0..10u32 {
        ids.push(gv.insert(i));
    }
    assert_eq!(gv.len(), 10);
    gv.remove(&ids[3]);
    gv.remove(&ids[7]);
    assert_eq!(gv.len(), 8);
    let mut live = 0;
    for id in &ids {
        if gv.get(id).is_some() {
            live += 1;
        }
    }
    assert_eq!(gv.len(), live);
}

#[test]
fn reuse_bumps_generation() {
    let mut gv: GenVec<u32> = GenVec::new();
    let a = gv.insert(1);
    gv.remove(&a);
    let b = gv.insert(2);
    assert_eq!(b.index, a.index);
    assert!(b.generation > a.generation);
    assert_eq!(gv.get(&a), None);
    assert_eq!(gv.get(&b), Some(&2));
    // The stale identity stays stale through further churn.
    gv.remove(&b);
    let c = gv.insert(3);
    assert_eq!(gv.get(&a), None);
    assert!(c.generation > b.generation);
}

#[test]
fn double_remove_is_noop() {
    let mut gv: GenVec<u32> = GenVec::new();
    let a = gv.insert(1);
    let b = gv.insert(2);
    gv.remove(&a);
    let len_once = gv.len();
    gv.remove(&a);
    assert_eq!(gv.len(), len_once);
    assert_eq!(gv.get(&a), None);
    assert_eq!(gv.get(&b), Some(&2));
    // The freed slot is still reused exactly once.
    let c = gv.insert(3);
    assert_eq!(c.index, a.index);
    let d = gv.insert(4);
    assert_ne!(d.index, a.index);
}

#[test]
fn lifo_reuse_order() {
    let mut gv: GenVec<&str> = GenVec::new();
    let a = gv.insert("a");
    let b = gv.insert("b");
    gv.remove(&a);
    gv.remove(&b);
    // Most recently freed slot comes back first.
    let c = gv.insert("c");
    assert_eq!(c.index, b.index);
    let d = gv.insert("d");
    assert_eq!(d.index, a.index);
}

#[test]
fn get_out_of_range_is_none() {
    let gv: GenVec<u32> = GenVec::new();
    let bogus = simcore::Index { index: 5, generation: 0 };
    assert_eq!(gv.get(&bogus), None);
}
