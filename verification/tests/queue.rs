use futures::channel::mpsc::unbounded;
use gpui_tea::error::Error;
use gpui_tea::policy::{QueueOverflowAction, QueuePolicy};
use gpui_tea::queue::{QueueControl, QueueEntryId, QueueReservation, QueuedMessage};
use gpui_tea::config::ProgramConfig;
use gpui_tea::runtime::{
    admit_message, dispatch_message, finish_dispatch, Admission, MessageQueue, QueueWarning, Received,
};

#[derive(Clone, Debug, PartialEq, Eq)]
enum Msg {
    Assign(i32),
}

fn accepted(id: u64) -> QueueReservation {
    QueueReservation::Accepted {
        id: QueueEntryId(id),
        overflow_action: None,
        displaced: None,
    }
}

#[test]
fn unbounded_queue_admits_every_message_in_order() {
    let mut control = QueueControl::new(QueuePolicy::Unbounded);
    assert_eq!(control.reserve_enqueue(), accepted(1));
    assert_eq!(control.reserve_enqueue(), accepted(2));
    assert_eq!(control.reserve_enqueue(), accepted(3));
    assert_eq!(control.depth(), 3);
}

#[test]
fn reject_new_refuses_at_capacity() {
    let mut control = QueueControl::new(QueuePolicy::RejectNew { capacity: 1 });
    assert_eq!(control.reserve_enqueue(), accepted(1));
    assert_eq!(control.reserve_enqueue(), QueueReservation::Rejected);
    assert_eq!(control.depth(), 1);
    control.complete_processed(QueueEntryId(1));
    assert_eq!(control.depth(), 0);
    assert_eq!(control.reserve_enqueue(), accepted(2));
}

#[test]
fn drop_newest_drops_at_capacity() {
    let mut control = QueueControl::new(QueuePolicy::DropNewest { capacity: 1 });
    assert_eq!(control.reserve_enqueue(), accepted(1));
    assert_eq!(control.reserve_enqueue(), QueueReservation::DroppedNewest);
    assert_eq!(control.depth(), 1);
}

#[test]
fn drop_oldest_displaces_the_oldest_entry_once() {
    let mut control = QueueControl::new(QueuePolicy::DropOldest { capacity: 1 });
    assert_eq!(control.reserve_enqueue(), accepted(1));
    assert_eq!(
        control.reserve_enqueue(),
        QueueReservation::Accepted {
            id: QueueEntryId(2),
            overflow_action: Some(QueueOverflowAction::DroppedOldest),
            displaced: Some(QueueEntryId(1)),
        }
    );
    assert_eq!(control.depth(), 1);
    assert!(control.take_if_dropped(QueueEntryId(1)));
    assert!(!control.take_if_dropped(QueueEntryId(1)));
    assert!(!control.take_if_dropped(QueueEntryId(2)));
}

#[test]
fn drop_oldest_with_zero_capacity_drops_the_new_message() {
    let mut control = QueueControl::new(QueuePolicy::DropOldest { capacity: 0 });
    assert_eq!(control.reserve_enqueue(), QueueReservation::DroppedNewest);
    assert_eq!(control.depth(), 0);
}

#[test]
fn rollback_undoes_an_admission() {
    let mut control = QueueControl::new(QueuePolicy::DropOldest { capacity: 1 });
    let first = control.reserve_enqueue();
    let second = control.reserve_enqueue();
    assert_eq!(control.depth(), 1);
    control.rollback_enqueue(second);
    // The displaced entry is tracked again and no longer marked dropped.
    assert_eq!(control.depth(), 1);
    assert!(!control.take_if_dropped(QueueEntryId(1)));
    control.rollback_enqueue(first);
    assert_eq!(control.depth(), 0);
}

#[test]
fn policy_capacity_and_debug_text() {
    assert_eq!(QueuePolicy::Unbounded.capacity(), None);
    assert_eq!(QueuePolicy::RejectNew { capacity: 4 }.capacity(), Some(4));
    assert_eq!(QueuePolicy::DropNewest { capacity: 5 }.capacity(), Some(5));
    assert_eq!(QueuePolicy::DropOldest { capacity: 6 }.capacity(), Some(6));
    assert_eq!(QueuePolicy::Unbounded.debug_string(), "Unbounded");
    assert_eq!(
        QueuePolicy::RejectNew { capacity: 4 }.debug_string(),
        "RejectNew { capacity: 4 }"
    );
    assert_eq!(
        QueuePolicy::DropOldest { capacity: 120 }.debug_string(),
        "DropOldest { capacity: 120 }"
    );
    assert_eq!(QueueOverflowAction::DroppedOldest.debug_string(), "DroppedOldest");
}

#[derive(Clone, Debug, PartialEq, Eq)]
enum DispatchEvent {
    Accepted(Option<String>),
    Rejected(Option<String>),
}

#[test]
fn dispatcher_dispatch_reports_acceptance_and_rejection_with_message_descriptions() {
    let config = ProgramConfig::<Msg>::new().describe_message(|msg: &Msg| match msg {
        Msg::Assign(value) => format!("set:{value}"),
    });
    let mut control = QueueControl::new(QueuePolicy::Unbounded);
    let (sender, receiver) = unbounded::<QueuedMessage<Msg>>();
    let mut events = Vec::new();
    let mut dispatch = |control: &mut QueueControl, msg: Msg| {
        let description = config.describe_message_value(&msg);
        let report = dispatch_message(control, &sender, msg);
        if report.accepted {
            events.push(DispatchEvent::Accepted(description));
        } else if report.rejected {
            events.push(DispatchEvent::Rejected(description));
        }
        report.result
    };

    assert_eq!(dispatch(&mut control, Msg::Assign(1)), Ok(()));
    drop(receiver);
    let error = dispatch(&mut control, Msg::Assign(2)).unwrap_err();
    assert_eq!(error, Error::ProgramUnavailable);
    assert_eq!(error.message(), "program is no longer available");
    assert_eq!(
        events,
        vec![
            DispatchEvent::Accepted(Some("set:1".to_string())),
            DispatchEvent::Rejected(Some("set:2".to_string())),
        ]
    );
}

#[test]
fn admission_then_finish_follows_the_channel_answer() {
    let mut control = QueueControl::new(QueuePolicy::DropOldest { capacity: 1 });
    let first = match admit_message(&mut control, Msg::Assign(1)) {
        Admission::Send { entry, reservation } => {
            assert_eq!(entry.id, QueueEntryId(1));
            assert_eq!(entry.message, Msg::Assign(1));
            reservation
        }
        Admission::Refused(_) => panic!("an empty queue admits"),
    };
    let delivered = finish_dispatch(&mut control, first, true);
    assert_eq!(delivered.result, Ok(()));
    assert!(delivered.accepted);
    assert_eq!(control.depth(), 1);

    let second = match admit_message(&mut control, Msg::Assign(2)) {
        Admission::Send { entry, reservation } => {
            assert_eq!(entry.id, QueueEntryId(2));
            reservation
        }
        Admission::Refused(_) => panic!("drop-oldest admits"),
    };
    let refused = finish_dispatch(&mut control, second, false);
    assert_eq!(refused.result, Err(Error::ProgramUnavailable));
    assert!(refused.rejected);
    assert_eq!(refused.overflow, None);
    // The displaced entry is tracked again.
    assert_eq!(control.depth(), 1);
    assert!(!control.take_if_dropped(QueueEntryId(1)));

    let mut full = QueueControl::new(QueuePolicy::RejectNew { capacity: 0 });
    match admit_message(&mut full, Msg::Assign(3)) {
        Admission::Refused(report) => assert_eq!(
            report.result,
            Err(Error::QueueFull { policy: QueuePolicy::RejectNew { capacity: 0 } })
        ),
        Admission::Send { .. } => panic!("a full queue refuses"),
    }
}

#[test]
fn dispatcher_dispatch_reports_acceptance_and_rejection() {
    let mut control = QueueControl::new(QueuePolicy::Unbounded);
    let (sender, receiver) = unbounded::<QueuedMessage<Msg>>();

    let first = dispatch_message(&mut control, &sender, Msg::Assign(1));
    assert_eq!(first.result, Ok(()));
    assert!(first.accepted);
    assert!(!first.rejected);
    drop(receiver);

    let second = dispatch_message(&mut control, &sender, Msg::Assign(2));
    let error = second.result.unwrap_err();
    assert_eq!(error, Error::ProgramUnavailable);
    assert_eq!(error.message(), "program is no longer available");
    assert!(second.rejected);
    assert!(!second.accepted);
    // The refused admission is undone: only the first message is tracked.
    assert_eq!(control.depth(), 1);
}

#[test]
fn dispatcher_dispatch_returns_queue_full_when_policy_rejects_new_messages() {
    let mut control = QueueControl::new(QueuePolicy::RejectNew { capacity: 0 });
    let (sender, _receiver) = unbounded::<QueuedMessage<Msg>>();

    let error = dispatch_message(&mut control, &sender, Msg::Assign(7)).result.unwrap_err();
    assert_eq!(
        error,
        Error::QueueFull {
            policy: QueuePolicy::RejectNew { capacity: 0 },
        }
    );
    assert_eq!(
        error.message(),
        "message queue rejected a new message because it is full under policy RejectNew { capacity: 0 }"
    );
}

#[test]
fn dispatch_under_drop_newest_succeeds_without_delivering() {
    let mut control = QueueControl::new(QueuePolicy::DropNewest { capacity: 0 });
    let (sender, mut receiver) = unbounded::<QueuedMessage<Msg>>();
    let report = dispatch_message(&mut control, &sender, Msg::Assign(1));
    assert_eq!(report.result, Ok(()));
    assert_eq!(report.overflow, Some(QueueOverflowAction::DroppedNewest));
    assert!(!report.accepted);
    assert!(receiver.try_next().is_err());
}

#[test]
fn dispatched_messages_arrive_in_order() {
    let mut control = QueueControl::new(QueuePolicy::Unbounded);
    let (sender, mut receiver) = unbounded::<QueuedMessage<Msg>>();
    for value in 1..=3 {
        assert_eq!(dispatch_message(&mut control, &sender, Msg::Assign(value)).result, Ok(()));
    }
    let mut queue = MessageQueue::new();
    for expected in 1..=3u64 {
        let queued = receiver.try_next().unwrap().unwrap();
        assert_eq!(queued.id, QueueEntryId(expected));
        // Every admission happened before the first receive: three are
        // tracked, above the threshold of two.
        let received = queue.receive(&mut control, queued, Some(2));
        assert_eq!(
            received,
            Received::Queued {
                warning: Some(QueueWarning { queued: 3, threshold: 2 }),
                drain: true,
            }
        );
    }
    assert_eq!(queue.begin_drain(), Some(3));
    assert_eq!(queue.begin_drain(), None);
    let mut seen = Vec::new();
    while let Some(queued) = queue.next_for_update(&mut control) {
        seen.push(queued.message);
    }
    assert_eq!(seen, vec![Msg::Assign(1), Msg::Assign(2), Msg::Assign(3)]);
    assert_eq!(control.depth(), 0);
    assert_eq!(queue.finish_drain(3), (true, 0));
}

#[test]
fn draining_skips_messages_displaced_after_admission() {
    let mut control = QueueControl::new(QueuePolicy::DropOldest { capacity: 1 });
    let mut queue = MessageQueue::new();
    queue.suspend_auto_drain();
    let first = queue.enqueue(&mut control, Msg::Assign(1), None);
    assert_eq!(first.overflow, None);
    let second = queue.enqueue(&mut control, Msg::Assign(2), None);
    assert_eq!(second.overflow, Some(QueueOverflowAction::DroppedOldest));
    assert_eq!(
        second.received,
        Some(Received::Queued { warning: None, drain: false })
    );
    queue.resume_auto_drain();
    assert!(queue.should_auto_drain());

    let mut seen = Vec::new();
    while let Some(queued) = queue.next_for_update(&mut control) {
        seen.push(queued.message);
    }
    assert_eq!(seen, vec![Msg::Assign(2)]);
    assert_eq!(control.depth(), 0);
}

#[test]
fn follow_up_emits_during_a_drain_are_queued_in_order_and_warn_on_growth() {
    let mut control = QueueControl::new(QueuePolicy::Unbounded);
    let mut queue = MessageQueue::new();
    let threshold = Some(1);
    queue.enqueue(&mut control, Msg::Assign(0), threshold);
    assert_eq!(queue.begin_drain(), Some(1));

    let mut processed = Vec::new();
    let mut warnings = Vec::new();
    while let Some(queued) = queue.next_for_update(&mut control) {
        if queued.message == Msg::Assign(0) {
            for follow_up in [Msg::Assign(1), Msg::Assign(2)] {
                let enqueued = queue.enqueue(&mut control, follow_up, threshold);
                if let Some(Received::Queued { warning: Some(warning), .. }) = enqueued.received {
                    warnings.push(warning);
                }
            }
        }
        processed.push(queued.message);
    }
    assert_eq!(processed, vec![Msg::Assign(0), Msg::Assign(1), Msg::Assign(2)]);
    assert_eq!(warnings, vec![QueueWarning { queued: 2, threshold: 1 }]);
    assert_eq!(queue.finish_drain(processed.len()), (true, 0));
}
