use hotkey_listener::discovery::{is_event_node, select_keyboards, DiscoveryError};
use hotkey_listener::poller::{
    any_fault, classify_read, classify_read_among, is_fault_among, keeps_draining, ReadOutcome,
};
use hotkey_listener::supervisor::{RESCAN_COOLDOWN_MS, POLL_INTERVAL_MS, SETTLE_DELAY_MS};
use hotkey_listener::{
    Action, Health, Hotkey, HotkeyEvent, HotkeyListenerBuilder, Key, KeyTransition, Modifiers,
    PhysicalKey, Transition, Worker,
};

fn shift_f8_worker() -> Worker {
    HotkeyListenerBuilder::new().add_hotkey(Hotkey::new(Key::F8).with_shift()).into_worker()
}

fn press(key: PhysicalKey) -> KeyTransition {
    KeyTransition { key, transition: Transition::Press }
}

#[test]
fn constants() {
    assert_eq!(RESCAN_COOLDOWN_MS, 3000);
    assert_eq!(POLL_INTERVAL_MS, 10);
    assert_eq!(SETTLE_DELAY_MS, 100);
}

#[test]
fn healthy_worker_polls() {
    let mut worker = Worker::new(vec![Hotkey::new(Key::F1)]);
    assert_eq!(worker.current_health(), Health::Healthy);
    assert_eq!(worker.next_action(true, 0), Action::Poll);
    assert_eq!(worker.poll_finished(&vec![], false, 5), vec![]);
    assert_eq!(worker.current_health(), Health::Healthy);
    assert_eq!(worker.next_action(true, 1_000_000), Action::Poll);
}

#[test]
fn recovery_after_a_fault_resets_the_modifiers() {
    let mut worker = shift_f8_worker();
    let f8 = PhysicalKey::Trigger(Key::F8);
    // Shift goes down, then the device fails.
    let events = worker.poll_finished(&vec![press(PhysicalKey::ShiftLeft)], true, 1000);
    assert_eq!(events, vec![]);
    assert!(worker.modifiers().shift);
    assert_eq!(worker.current_health(), Health::Faulted { since: 1000 });
    // Before the cooldown is over the worker keeps polling.
    assert_eq!(worker.next_action(true, 1010), Action::Poll);
    assert_eq!(worker.next_action(true, 3999), Action::Poll);
    assert_eq!(worker.current_health(), Health::Faulted { since: 1000 });
    // Once it is over a rescan is asked for.
    assert_eq!(worker.next_action(true, 4000), Action::Rescan);
    assert_eq!(worker.current_health(), Health::Rescanning);
    worker.rescan_finished(true, 4100);
    assert_eq!(worker.current_health(), Health::Healthy);
    assert_eq!(worker.modifiers(), Modifiers::default());
    // Shift is still down on the keyboard, but was not pressed again.
    assert_eq!(worker.next_action(true, 4110), Action::Poll);
    assert_eq!(worker.poll_finished(&vec![press(f8)], false, 4110), vec![]);
    let again = vec![press(PhysicalKey::ShiftLeft), press(f8)];
    assert_eq!(worker.poll_finished(&again, false, 4120), vec![HotkeyEvent::Pressed(0)]);
}

#[test]
fn failed_rescan_restarts_the_cooldown() {
    let mut worker = shift_f8_worker();
    worker.poll_finished(&vec![press(PhysicalKey::ShiftLeft)], true, 0);
    assert_eq!(worker.next_action(true, 3000), Action::Rescan);
    // Until the outcome is reported the rescan stays asked for.
    assert_eq!(worker.next_action(true, 3010), Action::Rescan);
    worker.rescan_finished(false, 3050);
    assert_eq!(worker.current_health(), Health::Faulted { since: 3050 });
    assert!(worker.modifiers().shift);
    assert_eq!(worker.next_action(true, 6049), Action::Poll);
    assert_eq!(worker.next_action(true, 6050), Action::Rescan);
}

#[test]
fn a_second_fault_does_not_restart_the_cooldown() {
    let mut worker = shift_f8_worker();
    worker.poll_finished(&vec![], true, 100);
    worker.poll_finished(&vec![], true, 2000);
    assert_eq!(worker.current_health(), Health::Faulted { since: 100 });
    worker.poll_finished(&vec![], false, 2010);
    assert_eq!(worker.current_health(), Health::Faulted { since: 100 });
}

#[test]
fn a_clock_that_runs_backwards_asks_for_no_rescan() {
    let mut worker = shift_f8_worker();
    worker.poll_finished(&vec![], true, 5000);
    assert_eq!(worker.next_action(true, 10), Action::Poll);
    assert_eq!(worker.next_action(true, u64::MAX), Action::Rescan);
}

#[test]
fn an_outcome_nobody_asked_for_changes_nothing() {
    let mut worker = shift_f8_worker();
    worker.poll_finished(&vec![press(PhysicalKey::ShiftLeft)], false, 0);
    worker.rescan_finished(true, 10);
    assert_eq!(worker.current_health(), Health::Healthy);
    assert!(worker.modifiers().shift);
    worker.poll_finished(&vec![], true, 20);
    worker.rescan_finished(true, 30);
    assert_eq!(worker.current_health(), Health::Faulted { since: 20 });
    assert!(worker.modifiers().shift);
}

#[test]
fn a_stopped_worker_stops_in_every_state() {
    let mut worker = shift_f8_worker();
    assert_eq!(worker.next_action(false, 0), Action::Stop);
    worker.poll_finished(&vec![], true, 0);
    assert_eq!(worker.next_action(false, 10_000), Action::Stop);
    assert_eq!(worker.current_health(), Health::Faulted { since: 0 });
    assert_eq!(worker.next_action(true, 10_000), Action::Rescan);
    assert_eq!(worker.next_action(false, 10_010), Action::Stop);
    assert_eq!(worker.current_health(), Health::Rescanning);
}

#[test]
fn event_nodes_start_with_event() {
    assert!(is_event_node("event0"));
    assert!(is_event_node("event17"));
    assert!(is_event_node("event"));
    assert!(!is_event_node("even"));
    assert!(!is_event_node("mouse0"));
    assert!(!is_event_node("js0"));
    assert!(!is_event_node("Event3"));
    assert!(!is_event_node(""));
    assert!(!is_event_node("by-event"));
}

#[test]
fn keyboards_are_the_devices_that_pass_the_probe() {
    assert_eq!(select_keyboards(&vec![false, true, false, true]), Ok(vec![1, 3]));
    assert_eq!(select_keyboards(&vec![true]), Ok(vec![0]));
    assert_eq!(select_keyboards(&vec![]), Err(DiscoveryError::NoKeyboards));
    assert_eq!(select_keyboards(&vec![false, false]), Err(DiscoveryError::NoKeyboards));
}

#[test]
fn would_block_is_no_fault() {
    assert!(!is_fault_among(Some(11), 11, 11));
    assert!(!is_fault_among(Some(35), 11, 35));
    assert!(is_fault_among(Some(19), 11, 11));
    assert!(is_fault_among(None, 11, 11));
    assert_eq!(classify_read(Ok(3)), ReadOutcome::Events(3));
    assert_eq!(classify_read(Ok(0)), ReadOutcome::Events(0));
    assert_eq!(classify_read(Err(None)), ReadOutcome::Fault);
    assert_eq!(classify_read(Err(Some(libc::EAGAIN))), ReadOutcome::WouldBlock);
    assert_eq!(classify_read(Err(Some(libc::EWOULDBLOCK))), ReadOutcome::WouldBlock);
    assert_eq!(classify_read(Err(Some(libc::ENODEV))), ReadOutcome::Fault);
}

#[test]
fn one_fault_among_the_reads_is_a_fault() {
    assert!(!any_fault(&vec![]));
    assert!(!any_fault(&vec![ReadOutcome::Events(2), ReadOutcome::WouldBlock]));
    assert!(any_fault(&vec![ReadOutcome::WouldBlock, ReadOutcome::Fault, ReadOutcome::Events(1)]));
}

#[test]
fn draining_goes_on_while_reads_give_events() {
    assert!(keeps_draining(ReadOutcome::Events(4)));
    assert!(!keeps_draining(ReadOutcome::Events(0)));
    assert!(!keeps_draining(ReadOutcome::WouldBlock));
    assert!(!keeps_draining(ReadOutcome::Fault));
}

#[test]
fn a_failed_read_is_judged_by_the_two_error_numbers() {
    assert_eq!(classify_read_among(Ok(7), 11, 35), ReadOutcome::Events(7));
    assert_eq!(classify_read_among(Ok(0), 11, 35), ReadOutcome::Events(0));
    assert_eq!(classify_read_among(Err(Some(11)), 11, 35), ReadOutcome::WouldBlock);
    assert_eq!(classify_read_among(Err(Some(35)), 11, 35), ReadOutcome::WouldBlock);
    assert_eq!(classify_read_among(Err(Some(19)), 11, 35), ReadOutcome::Fault);
    assert_eq!(classify_read_among(Err(None), 11, 35), ReadOutcome::Fault);
}
