use rnet::connection::FlushStep;
use rnet::event_loop::{batch_exhausted, batch_progress, read_status, write_status, IoStatus, ReadOutcome};
use rnet::handler::Action;
use rnet::command::{route, CommandKind, Prioity, Queue, MAX_POLL_EVENT_CAP};
use rnet::event_loop::{
    after_urgent_poll, async_write_applies, async_write_slot, open_status, plan_io, CommandSource, IoPlan, IoReadiness,
    OpenStatus, Polled, MAX_ASYNC_TASK_ONE_TIME,
};
use rnet::gfd::{Gfd, GfdSequence};

#[test]
fn command_priorities() {
    assert_eq!(CommandKind::Noop.priority(), Prioity::Low);
    assert_eq!(CommandKind::AsyncWrite.priority(), Prioity::High);
    assert_eq!(CommandKind::Register.priority(), Prioity::Low);
    assert_eq!(CommandKind::Close.priority(), Prioity::Low);
    assert_eq!(CommandKind::Wake.priority(), Prioity::Low);
    assert_eq!(CommandKind::Read.priority(), Prioity::High);
    assert_eq!(CommandKind::Write.priority(), Prioity::High);
    assert_eq!(CommandKind::Shutdown.priority(), Prioity::High);
}

#[test]
fn low_priority_overflows_to_common_queue() {
    assert_eq!(route(Prioity::Low, MAX_POLL_EVENT_CAP), Queue::Common);
    assert_eq!(route(Prioity::Low, MAX_POLL_EVENT_CAP - 1), Queue::Urgent);
    assert_eq!(route(Prioity::High, MAX_POLL_EVENT_CAP + 5), Queue::Urgent);
}

#[test]
fn io_plans() {
    let closed = IoReadiness { error: false, read_closed: true, readable: false, writable: false };
    assert_eq!(plan_io(closed), IoPlan { close: true, write: false, read: false });
    let err = IoReadiness { error: true, read_closed: false, readable: true, writable: false };
    assert_eq!(plan_io(err), IoPlan { close: false, write: true, read: true });
    let rd = IoReadiness { error: false, read_closed: false, readable: true, writable: false };
    assert_eq!(plan_io(rd), IoPlan { close: false, write: false, read: true });
    let wr = IoReadiness { error: false, read_closed: true, readable: false, writable: true };
    assert_eq!(plan_io(wr), IoPlan { close: false, write: true, read: false });
}

#[test]
fn async_write_goes_to_owning_loop() {
    let mut seqs = GfdSequence::new();
    let g = Gfd::new(10, 3, 77, &mut seqs);
    assert_eq!(async_write_slot(&g, 3), Some(77));
    assert_eq!(async_write_slot(&g, 2), None);
}

#[test]
fn read_and_write_status_decisions() {
    assert_eq!(read_status(ReadOutcome::Eof, Action::Keep), Some(IoStatus::Closed(true)));
    assert_eq!(read_status(ReadOutcome::Failed, Action::Keep), Some(IoStatus::Closed(false)));
    assert_eq!(read_status(ReadOutcome::WouldBlock, Action::Close), Some(IoStatus::Completed));
    assert_eq!(read_status(ReadOutcome::Data(3), Action::Keep), None);
    assert_eq!(read_status(ReadOutcome::Data(3), Action::Close), Some(IoStatus::Closed(true)));
    assert_eq!(read_status(ReadOutcome::Data(3), Action::Shutdown), Some(IoStatus::Shutdown));
    assert_eq!(write_status(FlushStep::Continue), None);
    assert_eq!(write_status(FlushStep::WriteZero), Some(IoStatus::Closed(false)));
    assert_eq!(write_status(FlushStep::WouldBlock), Some(IoStatus::Completed));
    assert_eq!(write_status(FlushStep::Failed), Some(IoStatus::Closed(false)));
    assert!(batch_exhausted(10, 10));
    assert!(!batch_exhausted(9, 10));
}

#[test]
fn urgent_commands_go_first() {
    assert_eq!(after_urgent_poll(Polled::Command), CommandSource::Urgent);
    assert_eq!(after_urgent_poll(Polled::Empty), CommandSource::Common);
    assert_eq!(after_urgent_poll(Polled::Disconnected), CommandSource::Stop);
    assert!(batch_exhausted(MAX_ASYNC_TASK_ONE_TIME, MAX_ASYNC_TASK_ONE_TIME));
    assert!(!batch_exhausted(MAX_ASYNC_TASK_ONE_TIME - 1, 256));
}

#[test]
fn async_write_needs_the_same_connection() {
    let mut seqs = GfdSequence::new();
    let first = Gfd::new(5, 2, 7, &mut seqs);
    let reused = Gfd::new(5, 2, 7, &mut seqs);
    assert!(async_write_applies(&first, Some(&first)));
    assert!(!async_write_applies(&first, Some(&reused)));
    assert!(!async_write_applies(&first, None));
}

#[test]
fn open_answer_decides_registration() {
    assert_eq!(open_status(Action::Keep), OpenStatus::Registered);
    assert_eq!(open_status(Action::Close), OpenStatus::Closed);
    assert_eq!(open_status(Action::Shutdown), OpenStatus::Shutdown);
}

#[test]
fn batch_progress_adds_and_saturates() {
    assert_eq!(batch_progress(10, 5), 15);
    assert_eq!(batch_progress(usize::MAX - 1, 5), usize::MAX);
}
