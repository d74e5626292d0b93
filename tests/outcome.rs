use fluence::error::Error;
use fluence::outcome::{after_broadcast, classify_logs, LogEvent, Outcome, Step};

fn tx() -> [u8; 32] {
    let mut t = [0u8; 32];
    t[0] = 0xaa;
    t[31] = 0x55;
    t
}

#[test]
fn deployed_log_alone_classifies_as_deployed() {
    let events = vec![
        LogEvent::Other,
        LogEvent::Deployed { ids: vec![7, 9], ports: vec![25000, 25001] },
        LogEvent::Other,
    ];
    assert_eq!(
        classify_logs(tx(), events),
        Ok(Outcome::Deployed { ids: vec![7, 9], ports: vec![25000, 25001], tx: tx() })
    );
}

#[test]
fn enqueued_log_alone_classifies_as_enqueued() {
    assert_eq!(classify_logs(tx(), vec![LogEvent::Enqueued]), Ok(Outcome::Enqueued(tx())));
}

#[test]
fn already_registered_log_is_no_error() {
    assert_eq!(
        classify_logs(tx(), vec![LogEvent::Other, LogEvent::AlreadyRegistered]),
        Ok(Outcome::AlreadyRegistered)
    );
}

#[test]
fn no_recognized_log_is_a_classification_error() {
    assert_eq!(classify_logs(tx(), Vec::new()), Err(Error::Classification { tx: tx() }));
    assert_eq!(
        classify_logs(tx(), vec![LogEvent::Other, LogEvent::Other]),
        Err(Error::Classification { tx: tx() })
    );
}

#[test]
fn two_recognized_logs_conflict() {
    assert_eq!(
        classify_logs(tx(), vec![LogEvent::Enqueued, LogEvent::Other, LogEvent::AlreadyRegistered]),
        Err(Error::ConflictingEvents { tx: tx() })
    );
    assert_eq!(
        classify_logs(
            tx(),
            vec![
                LogEvent::Deployed { ids: vec![1], ports: vec![2] },
                LogEvent::Deployed { ids: vec![1], ports: vec![2] },
            ]
        ),
        Err(Error::ConflictingEvents { tx: tx() })
    );
}

#[test]
fn broadcast_without_wait_is_sent() {
    assert_eq!(after_broadcast(tx(), false), Step::Finished(Outcome::Sent(tx())));
    assert_eq!(after_broadcast(tx(), true), Step::AwaitInclusion(tx()));
}
