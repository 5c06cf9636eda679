use serial_monitor::buffer::SampleBuffer;

fn tok(i: usize) -> Vec<u8> {
    format!("{}", i).into_bytes()
}

#[test]
fn length_is_push_count_capped_and_content_is_most_recent() {
    let max = 100;
    let mut b = SampleBuffer::new();
    for i in 0..250 {
        b.push(tok(i), (i as u64) * 10, max);
        assert_eq!(b.len(), (i + 1).min(max));
    }
    let snap = b.snapshot();
    assert_eq!(snap.len(), 100);
    for (k, (_, v)) in snap.iter().enumerate() {
        assert_eq!(v, &tok(150 + k));
    }
}

#[test]
fn eviction_is_oldest_first_in_push_order() {
    let mut b = SampleBuffer::new();
    for i in 0..5 {
        b.push(tok(i), i as u64, 3);
    }
    let vals: Vec<Vec<u8>> = b.snapshot().into_iter().map(|(_, v)| v).collect();
    assert_eq!(vals, vec![tok(2), tok(3), tok(4)]);
}

#[test]
fn clear_then_push_restarts_the_clock_at_zero() {
    let mut b = SampleBuffer::new();
    b.push(tok(1), 500, 100);
    b.push(tok(2), 900, 100);
    b.clear();
    assert_eq!(b.len(), 0);
    b.push(tok(7), 12345, 100);
    let snap = b.snapshot();
    assert_eq!(snap.len(), 1);
    assert_eq!(snap[0].0, 0);
    assert_eq!(snap[0].1, tok(7));
}

#[test]
fn timestamps_are_elapsed_since_first_push() {
    let mut b = SampleBuffer::new();
    b.push(tok(0), 1000, 100);
    b.push(tok(1), 1250, 100);
    b.push(tok(2), 2000, 100);
    let times: Vec<u64> = b.snapshot().into_iter().map(|(t, _)| t).collect();
    assert_eq!(times, vec![0, 250, 1000]);
}

#[test]
fn timestamps_never_run_backwards() {
    let mut b = SampleBuffer::new();
    b.push(tok(0), 1000, 100);
    b.push(tok(1), 1300, 100);
    // a clock that regresses must not break the time order
    b.push(tok(2), 900, 100);
    let times: Vec<u64> = b.snapshot().into_iter().map(|(t, _)| t).collect();
    assert_eq!(times, vec![0, 300, 300]);
}

#[test]
fn capacity_one_keeps_only_the_newest() {
    let mut b = SampleBuffer::new();
    b.push(tok(1), 10, 1);
    b.push(tok(2), 20, 1);
    let snap = b.snapshot();
    assert_eq!(snap.len(), 1);
    assert_eq!(snap[0].1, tok(2));
}
