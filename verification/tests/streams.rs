use tokio_playground::streams::{Display10, Fibonacci, MyStream};

#[test]
fn fibonacci_yields_sequence() {
    let mut f = Fibonacci::new();
    let got: Vec<u64> = (0..10).map(|_| f.poll_next()).collect();
    assert_eq!(got, vec![1, 1, 2, 3, 5, 8, 13, 21, 34, 55]);
}

#[test]
fn display10_counts_to_ten() {
    let mut d = Display10::new(vec![1u8, 2, 3]);
    assert_eq!(d.count(), 0);
    let mut shown = Vec::new();
    while d.wants_more() {
        shown.push(d.record_shown());
    }
    assert_eq!(shown, (0..10).collect::<Vec<usize>>());
    assert_eq!(d.count(), 10);
    d.stream_mut().push(4);
    assert_eq!(d.stream_mut().len(), 4);
    assert_eq!(d.count(), 10);
}

#[test]
fn my_stream_counts_to_max() {
    let core = tokio_core::reactor::Core::new().unwrap();
    let mut s = MyStream::new(3, core.handle());
    assert_eq!(s.poll_next(), Some(1));
    assert_eq!(s.poll_next(), Some(2));
    assert_eq!(s.poll_next(), Some(3));
    assert_eq!(s.poll_next(), None);
    assert_eq!(s.poll_next(), None);
    let _ = s.handle();
}

#[test]
fn my_stream_with_zero_max_is_empty() {
    let core = tokio_core::reactor::Core::new().unwrap();
    let mut s = MyStream::new(0, core.handle());
    assert_eq!(s.poll_next(), None);
}

#[test]
fn my_stream_wait_label() {
    assert_eq!(MyStream::wait_label(7), "WAIT 7");
    assert_eq!(MyStream::wait_label(120), "WAIT 120");
}
