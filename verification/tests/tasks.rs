use std::time::Instant;
use tokio_playground::backend::{fold_item, keeps_going, Item, Pong, Transport};
use tokio_playground::exact_io::{ExactProgress, Transfer};
use tokio_playground::listen::{
    after_accept, listener_step, pause_gate, AcceptStep, Gate, ListenStep, ListenerPoll,
    TcpListenStream, TimerPoll,
};
use tokio_playground::slots::{Error, Slots};

#[test]
fn fold_sums_until_tick() {
    assert_eq!(fold_item(0, &Item::Value(5)), (5, None));
    assert_eq!(fold_item(5, &Item::Value(7)), (12, None));
    assert_eq!(fold_item(12, &Item::Tick), (0, Some(12)));
    assert_eq!(fold_item(0, &Item::Tick), (0, Some(0)));
}

#[test]
fn stream_stops_at_done() {
    assert!(keeps_going(&Item::Value(1)));
    assert!(keeps_going(&Item::Tick));
    assert!(!keeps_going(&Item::Done));
}

#[test]
fn pong_waits_below_bound() {
    for _ in 0..20 {
        let p = Pong::new(5).expect("the OS random source seeds the generator");
        assert!(p.wait_secs() < 5);
        assert!(p.is_due(p.wait_secs() + 1));
        assert!(!p.is_due(p.wait_secs()));
    }
}

#[test]
fn transport_pong_is_due_after_a_second() {
    let t = Transport;
    t.send_ping();
    let p = t.recv_pong().expect("the OS random source seeds the generator");
    assert_eq!(p.wait_secs(), 0);
    assert!(!p.poll());
    assert!(p.is_due(1));
}

#[test]
fn exact_progress_completes() {
    let mut p = ExactProgress::new(5);
    assert!(!p.is_complete());
    assert_eq!(p.advance(2), Transfer::Partial);
    assert_eq!(p.position(), 2);
    assert_eq!(p.advance(3), Transfer::Complete);
    assert!(p.is_complete());
}

#[test]
fn exact_progress_stalls_on_empty_chunk() {
    let mut p = ExactProgress::new(4);
    assert_eq!(p.advance(1), Transfer::Partial);
    assert_eq!(p.advance(0), Transfer::Stalled);
    assert_eq!(p.position(), 1);
}

#[test]
fn empty_transfer_is_complete() {
    assert!(ExactProgress::new(0).is_complete());
}

#[test]
fn slots_never_repeat() {
    let mut s = Slots::new(1000);
    let a = s.offer(1, 10, Instant::now()).expect("first slot");
    assert_eq!((a.number, a.timestamp, a.duration), (1, 10, 1000));
    assert!(s.offer(1, 11, Instant::now()).is_none());
    let b = s.offer(3, 12, Instant::now()).expect("later slot");
    assert_eq!(b.number, 3);
    assert!(s.offer(2, 13, Instant::now()).is_none());
    assert_eq!(s.last_slot(), 3);
    assert!(s.offer(0, 14, Instant::now()).is_none());
}

#[test]
fn slot_error_variant() {
    assert_eq!(Error::ReadFail, Error::ReadFail);
}

#[test]
fn pause_gate_decisions() {
    assert_eq!(pause_gate(None), Gate::Accept);
    assert_eq!(pause_gate(Some(TimerPoll::Pending)), Gate::Wait);
    assert_eq!(pause_gate(Some(TimerPoll::Fired)), Gate::ClearAndAccept);
    assert_eq!(pause_gate(Some(TimerPoll::Failed)), Gate::ClearAndAccept);
}

#[test]
fn listen_events_first_in_first_out() {
    let mut s = TcpListenStream::new(8765);
    assert_eq!(s.port(), 8765);
    assert_eq!(s.next_event(), None);
    s.record_peer("127.0.0.1:1".to_string());
    s.record_peer("127.0.0.1:2".to_string());
    assert_eq!(s.next_event(), Some("127.0.0.1:1".to_string()));
    s.record_peer("127.0.0.1:3".to_string());
    assert_eq!(s.next_event(), Some("127.0.0.1:2".to_string()));
    assert_eq!(s.next_event(), Some("127.0.0.1:3".to_string()));
    assert_eq!(s.next_event(), None);
}

#[test]
fn listener_step_decisions() {
    assert_eq!(listener_step(ListenerPoll::Connection), ListenStep::Accept);
    assert_eq!(listener_step(ListenerPoll::Ended), ListenStep::End);
    assert_eq!(listener_step(ListenerPoll::Pending), ListenStep::Wait);
    assert_eq!(listener_step(ListenerPoll::Failed), ListenStep::Wait);
}

#[test]
fn listener_step_queues_known_peers() {
    let mut s = TcpListenStream::new(1);
    assert_eq!(s.on_listener(ListenerPoll::Connection, Some("a".to_string())), ListenStep::Accept);
    assert_eq!(s.on_listener(ListenerPoll::Connection, None), ListenStep::Accept);
    assert_eq!(s.on_listener(ListenerPoll::Failed, Some("b".to_string())), ListenStep::Wait);
    assert_eq!(s.on_listener(ListenerPoll::Ended, None), ListenStep::End);
    assert_eq!(s.next_event(), Some("a".to_string()));
    assert_eq!(s.next_event(), None);
}

#[test]
fn slot_numbers_count_whole_slots() {
    let s = Slots::new(1000);
    assert_eq!(s.slot_number(0), Some(0));
    assert_eq!(s.slot_number(2999), Some(2));
    assert_eq!(Slots::new(0).slot_number(5), None);
}

#[test]
fn accept_errors_start_a_pause() {
    assert_eq!(after_accept(true), AcceptStep::PauseAndFail);
    assert_eq!(after_accept(false), AcceptStep::Deliver);
}
