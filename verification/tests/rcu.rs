use rcu_cell::RcuCell;

#[test]
fn single_thread_test() {
    let mut t = RcuCell::new(10);
    let g = t.read();
    assert!(*g.get(&t) == 10);
    t.release(g);
    t.update(5);
    let g = t.read();
    assert!(*g.get(&t) == 5);
    t.release(g);
}

#[test]
fn reads_observe_initial_value() {
    let mut c = RcuCell::new(0u64);
    let g = c.read();
    assert_eq!(*g.get(&c), 0u64);
    c.release(g);

    let mut c = RcuCell::new(u64::MAX);
    let g = c.read();
    assert_eq!(*g.get(&c), u64::MAX);
    c.release(g);

    let mut c = RcuCell::new(String::from("first"));
    let g = c.read();
    assert_eq!(g.get(&c).as_str(), "first");
    c.release(g);
}

#[test]
fn reads_observe_latest_update() {
    let mut c = RcuCell::new(1);
    c.update(2);
    let g = c.read();
    assert_eq!(*g.get(&c), 2);
    c.release(g);
    let g = c.read();
    assert_eq!(*g.get(&c), 2);
    c.release(g);
    c.update(3);
    let g = c.read();
    assert_eq!(*g.get(&c), 3);
    c.release(g);
}

#[test]
fn guard_keeps_its_snapshot_across_updates() {
    let mut c = RcuCell::new(String::from("original"));
    let g = c.read();
    c.update(String::from("replacement"));
    assert_eq!(g.get(&c).as_str(), "original");
    let h = c.read();
    assert_eq!(h.get(&c).as_str(), "replacement");
    c.update(String::from("third"));
    assert_eq!(g.get(&c).as_str(), "original");
    assert_eq!(h.get(&c).as_str(), "replacement");
    c.release(g);
    c.release(h);
}

#[test]
fn payloads_are_destroyed_exactly_once() {
    let mut c = RcuCell::new(1);
    assert_eq!(c.live_payloads(), 1);

    // No guards: each update destroys the payload it supersedes.
    c.update(2);
    c.update(3);
    assert_eq!(c.live_payloads(), 1);

    // Two guards on the same payload: it survives the update and each
    // release is one distinct share, with the last one destroying it.
    let g1 = c.read();
    let g2 = c.read();
    assert_eq!(c.current_refs(), 3);
    c.update(4);
    assert_eq!(c.live_payloads(), 2);
    assert_eq!(c.release(g1), 1);
    assert_eq!(c.live_payloads(), 2);
    assert_eq!(c.release(g2), 0);
    assert_eq!(c.live_payloads(), 1);

    // The cell's own share is the last one: close destroys the payload.
    c.close();
    assert_eq!(c.live_payloads(), 0);
}

#[test]
fn close_with_outstanding_guards_keeps_payload() {
    let mut c = RcuCell::new(7);
    let g = c.read();
    c.close();
    // The cell gave up its share, but the guard still pins the payload.
    assert_eq!(c.live_payloads(), 1);
    assert_eq!(*g.get(&c), 7);
    // The last release destroys it, after the cell was closed.
    assert_eq!(c.release(g), 0);
    assert_eq!(c.live_payloads(), 0);
}

#[test]
fn interleaved_updates_and_reads_leave_one_payload() {
    let mut c = RcuCell::new(0usize);
    let mut held = Vec::new();
    for i in 1..100usize {
        c.update(i);
        let g = c.read();
        assert_eq!(*g.get(&c), i);
        if i % 3 == 0 {
            held.push(g);
        } else {
            c.release(g);
        }
    }
    // Stale guards still observe the values they captured.
    for (k, g) in held.iter().enumerate() {
        assert_eq!(*g.get(&c), (k + 1) * 3);
    }
    for g in held {
        c.release(g);
    }
    // Quiescent: exactly the last installed payload is live, held only by
    // the cell's own share.
    assert_eq!(c.live_payloads(), 1);
    assert_eq!(c.current_refs(), 1);
    let g = c.read();
    assert_eq!(*g.get(&c), 99);
    c.release(g);
    c.close();
    assert_eq!(c.live_payloads(), 0);
}

#[test]
fn current_refs_counts_cell_share_and_guards() {
    let mut c = RcuCell::new(5);
    assert_eq!(c.current_refs(), 1);
    let g1 = c.read();
    assert_eq!(c.current_refs(), 2);
    let g2 = c.read();
    assert_eq!(c.current_refs(), 3);
    c.release(g1);
    assert_eq!(c.current_refs(), 2);
    c.update(6);
    // The fresh payload carries only the cell's share; g2 pins the old one.
    assert_eq!(c.current_refs(), 1);
    assert_eq!(c.release(g2), 0);
}
