use ruspiro_timer::schedule::Scheduler;

#[test]
fn fire_order_follows_due_times() {
    // three callbacks with delays 300, 100, 200 at a simulated now() = 1000:
    // firing order by due time is 1100, 1200, 1300, whatever the insertion
    // order was
    let mut s: Scheduler<&'static str> = Scheduler::new();
    let armed = s.schedule(1000, 300, "delay300");
    assert_eq!(armed, Some(1300));
    let armed = s.schedule(1000, 100, "delay100");
    // the new due time is earlier than the armed one: re-arm
    assert_eq!(armed, Some(1100));
    let armed = s.schedule(1000, 200, "delay200");
    // 1200 is neither earlier than 1100 nor is 1100 in the past: no re-arm
    assert_eq!(armed, None);
    assert_eq!(s.pending.len(), 3);

    let mut fired = Vec::new();
    let d = s.on_interrupt(true);
    assert!(d.acknowledge);
    assert_eq!(d.rearm, Some(1200));
    fired.push(d.fired.unwrap());
    let d = s.on_interrupt(true);
    assert_eq!(d.rearm, Some(1300));
    fired.push(d.fired.unwrap());
    let d = s.on_interrupt(true);
    assert_eq!(d.rearm, None);
    fired.push(d.fired.unwrap());

    assert_eq!(fired, vec!["delay100", "delay200", "delay300"]);
}

#[test]
fn each_callback_fires_exactly_once() {
    let mut s: Scheduler<u32> = Scheduler::new();
    for (delay, id) in [(40u64, 4u32), (10, 1), (30, 3), (20, 2)] {
        s.schedule(500, delay, id);
    }
    let mut fired = Vec::new();
    for _ in 0..4 {
        fired.push(s.on_interrupt(true).fired.unwrap());
    }
    assert_eq!(fired, vec![1, 2, 3, 4]);
    // a further firing claims past the end and runs nothing
    let d = s.on_interrupt(true);
    assert!(d.fired.is_none());
}

#[test]
fn identical_due_time_keeps_one_callback() {
    // both registrations compute due = 1100; the later replaces the earlier
    let mut s: Scheduler<u32> = Scheduler::new();
    s.schedule(1000, 100, 1);
    s.schedule(1050, 50, 2);
    assert_eq!(s.pending.len(), 1);
    let d = s.on_interrupt(true);
    assert_eq!(d.fired, Some(2));
    let d = s.on_interrupt(true);
    assert!(d.fired.is_none());
}

#[test]
fn done_cursor_tracks_claimed_ordinal() {
    let mut s: Scheduler<u32> = Scheduler::new();
    s.schedule(1000, 100, 1);
    s.schedule(1000, 200, 2);
    s.on_interrupt(true);
    assert_eq!(s.done_cursor, 0);
    assert_eq!(s.claim_cursor, 1);
    s.on_interrupt(true);
    assert_eq!(s.done_cursor, 1);
    assert_eq!(s.claim_cursor, 2);
}

#[test]
fn reclaim_resets_sequence() {
    // schedule one callback, let it fire and complete, then schedule a
    // second one: the first entry's memory is reclaimed, so the structure
    // holds 1 entry again and the new entry stands at ordinal 0
    let mut s: Scheduler<u32> = Scheduler::new();
    s.schedule(1000, 100, 1);
    let d = s.on_interrupt(true);
    assert_eq!(d.fired, Some(1));
    assert_eq!(s.pending.len(), 1);
    s.schedule(1200, 100, 2);
    assert_eq!(s.pending.len(), 1);
    assert_eq!(s.pending[0].due, 1300);
    assert_eq!(s.claim_cursor, 0);
    assert_eq!(s.done_cursor, 0);
    let d = s.on_interrupt(true);
    assert_eq!(d.fired, Some(2));
}

#[test]
fn no_reclaim_after_spurious_claim() {
    // a spurious firing pushes the claim cursor one past the end; the claim
    // cursor no longer sits right after the done cursor, so the next
    // schedule call must not reclaim
    let mut s: Scheduler<u32> = Scheduler::new();
    s.schedule(1000, 100, 1);
    let d = s.on_interrupt(true);
    assert_eq!(d.fired, Some(1));
    let d = s.on_interrupt(true);
    assert!(d.fired.is_none());
    assert_eq!(s.claim_cursor, 2);
    assert_eq!(s.done_cursor, 0);
    s.schedule(1200, 100, 2);
    assert_eq!(s.pending.len(), 2);
    assert_eq!(s.pending[1].due, 1300);
}

#[test]
fn reclaim_clears_the_whole_sequence() {
    // reclamation clears every entry of the old sequence, drained or not:
    // after one entry of two has fired, the claim cursor sits right after
    // the done cursor, so the next schedule call resets the sequence
    let mut s: Scheduler<u32> = Scheduler::new();
    s.schedule(1000, 100, 1);
    s.schedule(1000, 200, 2);
    s.on_interrupt(true);
    assert_eq!(s.done_cursor, 0);
    assert_eq!(s.claim_cursor, 1);
    s.schedule(1150, 100, 3);
    assert_eq!(s.pending.len(), 1);
    assert_eq!(s.pending[0].due, 1250);
    let d = s.on_interrupt(true);
    assert_eq!(d.fired, Some(3));
}

#[test]
fn spurious_interrupt_is_harmless() {
    // an interrupt fires when no entry has been armed yet: the handler must
    // not panic and must not move the done cursor
    let mut s: Scheduler<u32> = Scheduler::new();
    let d = s.on_interrupt(true);
    assert!(d.acknowledge);
    assert!(d.fired.is_none());
    assert!(d.rearm.is_none());
    assert_eq!(s.claim_cursor, 1);
    assert_eq!(s.done_cursor, 0);
    assert!(!s.any_done);
}

#[test]
fn unmatched_channel_is_ignored() {
    let mut s: Scheduler<u32> = Scheduler::new();
    s.schedule(1000, 100, 1);
    let d = s.on_interrupt(false);
    assert!(!d.acknowledge);
    assert!(d.fired.is_none());
    assert!(d.rearm.is_none());
    assert_eq!(s.claim_cursor, 0);
    assert_eq!(s.pending.len(), 1);
}

#[test]
fn stale_armed_value_in_past_rearms() {
    let mut s: Scheduler<u32> = Scheduler::new();
    let armed = s.schedule(1000, 500, 1);
    assert_eq!(armed, Some(1500));
    // much later, the armed value 1500 lies in the past: arming is needed
    // even though the new due time is larger
    let armed = s.schedule(2000, 100, 2);
    assert_eq!(armed, Some(2100));
}
