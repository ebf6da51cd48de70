use mini_http_test::duration::Duration;
use mini_http_test::tasks::{
    accept_step, connection_step, AcceptAction, AcceptEvent, ConnectionEvent,
};
use mini_http_test::wait::{look, Verdict};

/// Runs a listener on a list of events and gives the connections it serves.
fn served(events: Vec<AcceptEvent<u32, &'static str>>) -> (Vec<u32>, Option<&'static str>) {
    let mut served = Vec::new();
    for event in events {
        match accept_step(event) {
            AcceptAction::Serve(connection) => served.push(connection),
            AcceptAction::Stop => return (served, None),
            AcceptAction::ReportAndStop(error) => return (served, Some(error)),
        }
    }
    (served, None)
}

#[test]
fn connections_are_served_in_order() {
    let events = vec![
        AcceptEvent::Accepted(3),
        AcceptEvent::Accepted(1),
        AcceptEvent::Accepted(2),
    ];
    assert_eq!(served(events), (vec![3, 1, 2], None));
}

#[test]
fn nothing_is_served_after_closing() {
    let events = vec![
        AcceptEvent::Accepted(1),
        AcceptEvent::Closed,
        AcceptEvent::Accepted(2),
    ];
    assert_eq!(served(events), (vec![1], None));
}

#[test]
fn nothing_is_served_after_a_failure() {
    let events = vec![
        AcceptEvent::Accepted(1),
        AcceptEvent::Accepted(2),
        AcceptEvent::Failed("broken"),
        AcceptEvent::Accepted(3),
    ];
    assert_eq!(served(events), (vec![1, 2], Some("broken")));
}

#[test]
fn connections_report_errors_only() {
    assert_eq!(connection_step::<&str>(ConnectionEvent::Closed), None);
    assert_eq!(connection_step::<&str>(ConnectionEvent::Served(Ok(()))), None);
    assert_eq!(connection_step(ConnectionEvent::Served(Err("broken"))), Some("broken"));
}

#[test]
fn looks_decide_count_first() {
    let second = Duration::new(1, 0);
    let late = Duration::new(1, 1);
    assert_eq!(look(4, 4, &late, &second), Verdict::Reached);
    assert_eq!(look(4, 4, &second, &second), Verdict::Reached);
    assert_eq!(look(5, 4, &late, &second), Verdict::TimedOut);
    assert_eq!(look(3, 4, &second, &second), Verdict::Undecided);
}

#[test]
fn a_wait_ends_soon_after_its_time() {
    let timeout = Duration::from_millis(95);
    let mut looks = 0;
    for i in 0..100 {
        looks += 1;
        if look(0, 1, &Duration::from_millis(10 * i), &timeout) != Verdict::Undecided {
            break;
        }
    }
    assert_eq!(looks, 11);
}
