use ntex_driver::driver::{Action, Change, Interest, StreamOps};

fn registry_with(fd: i32) -> (StreamOps, usize) {
    let mut ops = StreamOps::new();
    let id = ops.register(fd);
    (ops, id)
}

#[test]
fn register_gives_fresh_stream() {
    let (mut ops, a) = registry_with(7);
    let item = ops.item(a).unwrap();
    assert!(item.has_io);
    assert_eq!(item.fd, 7);
    assert_eq!(item.ref_count, 1);
    assert_eq!(item.flags.bits(), 0);
    let b = ops.register(9);
    assert_ne!(a, b);
    assert_eq!(ops.item(b).unwrap().fd, 9);
    assert_eq!(ops.item(a).unwrap().fd, 7);
    assert!(ops.contains(a) && ops.contains(b));
}

#[test]
fn unknown_id_is_absent() {
    let (ops, a) = registry_with(3);
    assert!(!ops.contains(a + 1));
    assert!(ops.item(a + 1).is_none());
}

#[test]
fn last_drop_removes_and_unregisters() {
    let (mut ops, a) = registry_with(5);
    let actions = ops.drop_ref(a);
    assert_eq!(actions, vec![Action::UnregisterAll { fd: 5 }, Action::Dispose { id: a }]);
    assert!(!ops.contains(a));
}

#[test]
fn drop_after_take_io_only_disposes() {
    let (mut ops, a) = registry_with(5);
    assert_eq!(ops.take_io(a), Some(5));
    assert_eq!(ops.take_io(a), None);
    assert!(!ops.item(a).unwrap().has_io);
    let actions = ops.drop_ref(a);
    assert_eq!(actions, vec![Action::Dispose { id: a }]);
    assert!(!ops.contains(a));
}

#[test]
fn clone_then_drop_restores() {
    let (mut ops, a) = registry_with(4);
    let before = ops.item(a).unwrap();
    ops.clone_ref(a);
    assert_eq!(ops.item(a).unwrap().ref_count, 2);
    let actions = ops.drop_ref(a);
    assert!(actions.is_empty());
    assert_eq!(ops.item(a).unwrap(), before);
}

#[test]
fn resume_and_pause_read() {
    let (mut ops, a) = registry_with(11);
    assert_eq!(
        ops.resume_read(a),
        Some(Action::Register { fd: 11, id: a, interest: Interest::Readable })
    );
    assert_eq!(ops.resume_read(a), None);
    assert_eq!(
        ops.pause_read(a),
        Some(Action::Unregister { fd: 11, interest: Interest::Readable })
    );
    assert_eq!(ops.pause_read(a), None);
    assert_eq!(ops.item(a).unwrap().flags.bits(), 0);
}

#[test]
fn pause_all_withdraws_once() {
    let (mut ops, a) = registry_with(12);
    assert_eq!(ops.pause_all(a), None);
    ops.resume_read(a);
    assert_eq!(ops.write_done(a, true), Some(Action::Register { fd: 12, id: a, interest: Interest::Writable }));
    assert_eq!(ops.item(a).unwrap().flags.bits(), 6);
    assert_eq!(ops.pause_all(a), Some(Action::UnregisterAll { fd: 12 }));
    assert_eq!(ops.pause_all(a), None);
    assert_eq!(ops.pause_read(a), None);
}

#[test]
fn resume_write_asks_for_attempt_until_registered() {
    let (mut ops, a) = registry_with(13);
    assert!(ops.resume_write(a));
    assert_eq!(ops.write_done(a, false), None);
    assert!(ops.resume_write(a));
    assert_eq!(ops.write_done(a, true), Some(Action::Register { fd: 13, id: a, interest: Interest::Writable }));
    assert!(!ops.resume_write(a));
}

#[test]
fn read_done_registers_only_when_pending() {
    let (mut ops, a) = registry_with(14);
    assert_eq!(ops.read_done(a, false), None);
    assert_eq!(ops.item(a).unwrap().flags.bits(), 0);
    assert_eq!(ops.read_done(a, true), Some(Action::Register { fd: 14, id: a, interest: Interest::Readable }));
    assert_eq!(ops.item(a).unwrap().flags.bits(), 2);
}

#[test]
fn error_is_handled_once() {
    let (mut ops, a) = registry_with(15);
    ops.resume_read(a);
    assert_eq!(ops.on_error(a, 7), vec![Action::Stopped { id: a, token: 7 }, Action::UnregisterAll { fd: 15 }]);
    assert_eq!(ops.item(a).unwrap().flags.bits(), 1);
    assert_eq!(ops.on_error(a, 8), vec![Action::Stopped { id: a, token: 8 }]);
    assert_eq!(ops.on_error(a + 100, 9), vec![]);
}

#[test]
fn commit_without_events_does_nothing() {
    let (mut ops, a) = registry_with(16);
    assert!(!ops.begin_commit());
    assert_eq!(ops.next_change(), None);
    assert!(ops.contains(a));
}

#[test]
fn events_come_out_in_order() {
    let (mut ops, a) = registry_with(17);
    ops.readable(a);
    ops.writable(a);
    ops.error(a, 3);
    assert!(ops.begin_commit());
    assert_eq!(ops.next_change(), Some((a, Change::Readable)));
    assert_eq!(ops.next_change(), Some((a, Change::Writable)));
    assert_eq!(ops.next_change(), Some((a, Change::Error { token: 3 })));
    assert_eq!(ops.next_change(), None);
    assert!(ops.end_commit().is_empty());
}

#[test]
fn drop_during_commit_is_deferred() {
    let (mut ops, a) = registry_with(18);
    ops.clone_ref(a);
    ops.readable(a);
    assert!(ops.begin_commit());
    assert!(ops.drop_ref(a).is_empty());
    assert!(ops.drop_ref(a).is_empty());
    assert_eq!(ops.item(a).unwrap().ref_count, 2);
    let actions = ops.end_commit();
    assert_eq!(actions, vec![Action::UnregisterAll { fd: 18 }, Action::Dispose { id: a }]);
    assert!(!ops.contains(a));
    // after the commit, drops act at once again
    let b = ops.register(19);
    assert_eq!(ops.drop_ref(b), vec![Action::UnregisterAll { fd: 19 }, Action::Dispose { id: b }]);
}

#[test]
fn deferred_drop_keeps_other_handles() {
    let (mut ops, a) = registry_with(20);
    ops.clone_ref(a);
    ops.clone_ref(a);
    ops.writable(a);
    assert!(ops.begin_commit());
    assert!(ops.drop_ref(a).is_empty());
    assert!(ops.end_commit().is_empty());
    assert_eq!(ops.item(a).unwrap().ref_count, 2);
}

#[test]
fn drop_while_held_waits_for_next_commit() {
    let (mut ops, a) = registry_with(21);
    ops.clone_ref(a);
    ops.hold();
    assert!(ops.is_busy());
    assert!(ops.drop_ref(a).is_empty());
    assert_eq!(ops.pending_drops(a), 1);
    ops.unhold();
    assert!(!ops.is_busy());
    // no event: the commit does not start and the drop keeps waiting
    assert!(!ops.has_changes());
    assert!(!ops.begin_commit());
    assert_eq!(ops.pending_drops(a), 1);
    assert_eq!(ops.item(a).unwrap().ref_count, 2);
    ops.readable(a);
    assert!(ops.has_changes());
    assert!(ops.begin_commit());
    assert_eq!(ops.next_change(), Some((a, Change::Readable)));
    assert!(ops.end_commit().is_empty());
    assert_eq!(ops.pending_drops(a), 0);
    assert_eq!(ops.item(a).unwrap().ref_count, 1);
}

#[test]
fn deferred_drops_of_several_streams_keep_order() {
    let mut ops = StreamOps::new();
    let a = ops.register(30);
    let b = ops.register(31);
    assert_eq!(ops.take_io(b), Some(31));
    ops.error(a, 11);
    assert!(ops.begin_commit());
    assert!(ops.drop_ref(b).is_empty());
    assert!(ops.drop_ref(a).is_empty());
    assert_eq!(ops.next_change(), Some((a, Change::Error { token: 11 })));
    assert_eq!(ops.on_error(a, 11), vec![Action::Stopped { id: a, token: 11 }, Action::UnregisterAll { fd: 30 }]);
    assert_eq!(
        ops.end_commit(),
        vec![Action::Dispose { id: b }, Action::UnregisterAll { fd: 30 }, Action::Dispose { id: a }]
    );
    assert!(!ops.contains(a) && !ops.contains(b));
}

#[test]
fn live_handles_track_clones_and_drops() {
    let (mut ops, a) = registry_with(40);
    assert_eq!(ops.live_handles(a), 1);
    ops.clone_ref(a);
    ops.clone_ref(a);
    assert_eq!(ops.live_handles(a), 3);
    ops.hold();
    assert!(ops.drop_ref(a).is_empty());
    assert_eq!(ops.live_handles(a), 2);
    assert_eq!(ops.pending_drops(a), 1);
    assert_eq!(ops.item(a).unwrap().ref_count, 3);
    ops.unhold();
    assert!(ops.drop_ref(a).is_empty());
    assert_eq!(ops.live_handles(a), 1);
    assert_eq!(ops.item(a).unwrap().ref_count, 2);
    ops.readable(a);
    assert!(ops.begin_commit());
    assert!(ops.drop_ref(a).is_empty());
    assert_eq!(ops.live_handles(a), 0);
    assert!(ops.contains(a));
    assert_eq!(ops.next_change(), Some((a, Change::Readable)));
    assert_eq!(ops.end_commit(), vec![Action::UnregisterAll { fd: 40 }, Action::Dispose { id: a }]);
    assert!(!ops.contains(a));
    assert_eq!(ops.live_handles(a), 0);
}
