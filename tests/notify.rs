use runtime::notify::{Dispatcher, Notification};

#[test]
fn output_wakes_only_its_own_process() {
    let mut d = Dispatcher::new();
    d.register(1);
    d.register(2);
    d.dispatch(Notification::OutputAvailable { process: 1, fd: 1 });
    assert!(!d.take_output(2));
    assert!(!d.take_died(2));
    assert!(d.take_output(1));
    d.dispatch(Notification::OutputAvailable { process: 2, fd: 2 });
    assert!(!d.take_output(1));
    assert!(d.take_output(2));
}

#[test]
fn output_wakes_coalesce() {
    let mut d = Dispatcher::new();
    d.register(7);
    d.dispatch(Notification::OutputAvailable { process: 7, fd: 1 });
    d.dispatch(Notification::OutputAvailable { process: 7, fd: 2 });
    assert!(d.take_output(7));
    assert!(!d.take_output(7));
}

#[test]
fn entry_leaves_once_both_signals_observed() {
    let mut d = Dispatcher::new();
    d.register(3);
    d.dispatch(Notification::ProcessDied { process: 3, reason: 9 });
    assert!(d.take_died(3));
    assert!(d.is_registered(3));
    d.dispatch(Notification::OutputAvailable { process: 3, fd: 1 });
    assert!(d.take_output(3));
    assert!(!d.is_registered(3));
}

#[test]
fn unknown_process_and_teardown() {
    let mut d = Dispatcher::new();
    d.dispatch(Notification::ProcessDied { process: 5, reason: 0 });
    assert!(!d.is_registered(5));
    assert!(!d.take_died(5));
    d.register(6);
    d.dispatch(Notification::ProcessDied { process: 6, reason: 1 });
    let s = d.signals(6).unwrap();
    assert!(s.died && !s.output_ready && !s.died_seen);
    d.close();
    assert!(d.signals(6).is_none());
}
