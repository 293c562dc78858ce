use kaze::{edge_sink, sink};
use kaze::sink::{SendPoll, SinkPoll, SinkWrapper, State};

#[test]
fn sink_fn_keeps_its_function() {
    let mut s = sink::sink_fn(|x: u32| x + 1);
    assert_eq!((s.send_fn())(41), 42);
    let mut t = edge_sink::SinkFn::new(|x: u32| x * 2);
    assert_eq!((t.send_fn())(21), 42);
    let mut u = edge_sink::sink_fn(|x: u32| x);
    assert_eq!((u.send_fn())(7), 7);
}

#[test]
fn wrapper_send_cycle() {
    let mut w = SinkWrapper::new(());
    assert!(w.state() == State::Idle);
    assert!(w.poll_ready(SendPoll::Pending) == SinkPoll::Ready);
    assert!(w.start_send().is_ok());
    assert!(w.is_sending());
    assert!(w.start_send().is_err());
    assert!(w.poll_ready(SendPoll::Pending) == SinkPoll::Pending);
    assert!(w.poll_ready(SendPoll::Sent) == SinkPoll::Ready);
    assert!(w.state() == State::Idle);
}

#[test]
fn wrapper_failed_send_returns_to_idle() {
    let mut w = SinkWrapper::new(());
    w.start_send().unwrap();
    assert!(w.poll_ready(SendPoll::Failed) == SinkPoll::SendError);
    assert!(w.state() == State::Idle);
    assert!(w.poll_ready(SendPoll::Pending) == SinkPoll::Ready);
    w.start_send().unwrap();
    assert!(w.poll_flush(SendPoll::Failed) == SinkPoll::SendError);
    assert!(w.state() == State::Idle);
    w.start_send().unwrap();
    assert!(w.poll_close(SendPoll::Failed) == SinkPoll::SendError);
    assert!(w.state() == State::Idle);
    assert!(w.poll_close(SendPoll::Pending) == SinkPoll::Ready);
    assert!(w.state() == State::Closed);
    assert!(w.poll_ready(SendPoll::Sent) == SinkPoll::ClosedError);
    assert!(w.start_send().is_err());
    assert!(w.poll_flush(SendPoll::Sent) == SinkPoll::Ready);
}

#[test]
fn edge_wrapper_failed_send_returns_to_idle() {
    let mut w = edge_sink::SinkWrapper::new(());
    w.start_send().unwrap();
    assert!(w.poll_ready(edge_sink::SendPoll::Failed) == edge_sink::SinkPoll::SendError);
    assert!(w.state() == edge_sink::State::Idle);
    w.start_send().unwrap();
    assert!(w.poll_flush(edge_sink::SendPoll::Failed) == edge_sink::SinkPoll::SendError);
    assert!(w.state() == edge_sink::State::Idle);
    w.start_send().unwrap();
    assert!(w.poll_close(edge_sink::SendPoll::Failed) == edge_sink::SinkPoll::SendError);
    assert!(w.state() == edge_sink::State::Idle);
    assert!(w.poll_close(edge_sink::SendPoll::Sent) == edge_sink::SinkPoll::Ready);
    assert!(w.state() == edge_sink::State::Closed);
}

#[test]
fn wrapper_send_item_calls_the_sink() {
    let mut calls = Vec::new();
    {
        let mut w = SinkWrapper::new(sink::sink_fn(|x: u32| {
            calls.push(x);
            std::future::ready(Ok::<(), ()>(()))
        }));
        assert!(w.send_item(5).is_ok());
        assert!(w.state() == State::Sending);
        assert!(w.send_item(6).is_err());
        assert!(w.poll_flush(SendPoll::Sent) == SinkPoll::Ready);
        assert!(w.send_item(7).is_ok());
    }
    assert_eq!(calls, vec![5, 7]);
}

#[test]
fn edge_wrapper_send_item_calls_the_sink() {
    let mut calls = Vec::new();
    {
        let mut w = edge_sink::SinkWrapper::new(edge_sink::sink_fn(|x: u32| {
            calls.push(x);
            std::future::ready(Ok::<(), ()>(()))
        }));
        assert!(w.send_item(1).is_ok());
        assert!(w.send_item(2).is_err());
        assert!(w.poll_close(edge_sink::SendPoll::Sent) == edge_sink::SinkPoll::Ready);
        assert!(w.send_item(3).is_err());
    }
    assert_eq!(calls, vec![1]);
}
