use ellama::channel::{Channel, ChannelError, Terminal};

type StringChannel = Channel<(usize, String), (usize, String), (usize, String)>;

#[test]
fn progress_then_terminal_drains_in_order_then_idle() {
    let mut c: StringChannel = Channel::new(7);
    assert_eq!(c.id(), 7);
    assert!(!c.is_active());

    c.activate();
    assert!(c.is_active());
    c.send_progress((0, String::from("Hel")));
    c.send_progress((0, String::from("lo")));
    c.resolve(Terminal::Success((0, String::from("Hello"))));

    let (progress, terminal) = c.poll_and_drain();
    assert_eq!(progress.len(), 2);
    assert_eq!(progress[0].1, "Hel");
    assert_eq!(progress[1].1, "lo");
    match terminal {
        Some(Terminal::Success((idx, text))) => {
            assert_eq!(idx, 0);
            assert_eq!(text, "Hello");
        }
        _ => panic!("expected a success terminal"),
    }
    assert!(!c.is_active());
}

#[test]
fn poll_on_idle_channel_is_a_no_op() {
    let mut c: StringChannel = Channel::new(1);
    let (progress, terminal) = c.poll_and_drain();
    assert!(progress.is_empty());
    assert!(terminal.is_none());
    assert!(!c.is_active());
}

#[test]
fn poll_without_terminal_keeps_channel_active() {
    let mut c: StringChannel = Channel::new(1);
    c.activate();
    c.send_progress((0, String::from("a")));
    let (progress, terminal) = c.poll_and_drain();
    assert_eq!(progress.len(), 1);
    assert!(terminal.is_none());
    assert!(c.is_active());
}

#[test]
fn out_of_protocol_operations_are_rejected() {
    let mut c: StringChannel = Channel::new(1);
    assert_eq!(
        c.try_send_progress((0, String::from("x"))),
        Err(ChannelError::NotActive)
    );
    c.activate();
    assert_eq!(c.try_send_progress((0, String::from("x"))), Ok(()));
    assert_eq!(
        c.try_resolve(Terminal::Failure((0, String::from("boom")))),
        Ok(())
    );
    assert_eq!(
        c.try_resolve(Terminal::Success((0, String::from("late")))),
        Err(ChannelError::AlreadyResolved)
    );
    assert_eq!(
        c.try_send_progress((0, String::from("late"))),
        Err(ChannelError::AlreadyResolved)
    );
}

#[test]
fn fault_terminal_is_distinguished() {
    let mut c: StringChannel = Channel::new(2);
    c.activate();
    c.resolve(Terminal::Fault(String::from("task died")));
    let (_, terminal) = c.poll_and_drain();
    match terminal {
        Some(Terminal::Fault(d)) => assert_eq!(d, "task died"),
        _ => panic!("expected a fault terminal"),
    }
    assert!(!c.is_active());
}
