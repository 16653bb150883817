use lichess_bot::frame::{frame_outcome, is_blank, FrameOutcome, LineFramer};
use lichess_bot::queue::{deliver, pump, EventQueue, Pull};

#[test]
fn lines_are_cut_at_line_feeds_across_chunks() {
    let mut f = LineFramer::new();
    let a = f.push_chunk(b"{\"a\":1}\n{\"b\"");
    assert_eq!(a, vec![b"{\"a\":1}".to_vec()]);
    assert_eq!(f.pending(), &b"{\"b\"".to_vec());
    let b = f.push_chunk(b":2}\n\n");
    assert_eq!(b, vec![b"{\"b\":2}".to_vec(), Vec::new()]);
    assert!(f.pending().is_empty());
}

#[test]
fn chunk_without_line_feed_stays_pending() {
    let mut f = LineFramer::new();
    assert!(f.push_chunk(b"abc").is_empty());
    assert_eq!(f.pending(), &b"abc".to_vec());
}

#[test]
fn blank_lines_are_keep_alives() {
    assert!(is_blank(b""));
    assert!(!is_blank(b" "));
    assert!(!is_blank(b"\r"));
    assert!(!is_blank(b"{}"));
}

#[test]
fn frame_outcomes() {
    assert!(matches!(frame_outcome::<u32>(b"", None), FrameOutcome::KeepAlive));
    assert!(matches!(frame_outcome(b"", Some(3u32)), FrameOutcome::KeepAlive));
    assert!(matches!(frame_outcome::<u32>(b"{oops", None), FrameOutcome::Malformed));
    assert!(matches!(frame_outcome(b"{\"n\":7}", Some(7u32)), FrameOutcome::Event(7)));
    assert!(matches!(frame_outcome::<u32>(b" ", None), FrameOutcome::Malformed));
}

#[test]
fn queue_is_first_in_first_out() {
    let mut q = EventQueue::new();
    assert!(q.push(1u32));
    assert!(q.push(2));
    assert!(q.push(3));
    assert!(matches!(q.pull(), Pull::Item(1)));
    assert!(matches!(q.pull(), Pull::Item(2)));
    assert!(matches!(q.pull(), Pull::Item(3)));
    assert!(matches!(q.pull(), Pull::Empty));
}

#[test]
fn closed_queue_drains_then_reports_closed() {
    let mut q = EventQueue::new();
    q.push(5u32);
    q.close();
    assert!(!q.push(6));
    assert!(matches!(q.pull(), Pull::Item(5)));
    assert!(matches!(q.pull(), Pull::Closed));
    assert!(matches!(q.pull(), Pull::Closed));
}

#[test]
fn deliver_keeps_alive_and_closes_on_malformed() {
    let mut q: EventQueue<u32> = EventQueue::new();
    assert!(deliver(&mut q, FrameOutcome::KeepAlive));
    assert_eq!(q.len(), 0);
    assert!(deliver(&mut q, FrameOutcome::Event(4)));
    assert_eq!(q.len(), 1);
    assert!(!deliver(&mut q, FrameOutcome::Malformed));
    assert!(q.is_closed());
    assert_eq!(q.len(), 1);
}

fn decode(line: &[u8]) -> Option<u32> {
    std::str::from_utf8(line).ok()?.trim().parse().ok()
}

fn outcomes(lines: Vec<Vec<u8>>) -> Vec<FrameOutcome<u32>> {
    lines
        .iter()
        .map(|l| {
            let d = if is_blank(l) { None } else { decode(l) };
            frame_outcome(l, d)
        })
        .collect()
}

#[test]
fn bridge_delivers_in_chunk_order_and_closes() {
    let chunks: Vec<&[u8]> = vec![b"1\n2", b"\n\n3\n", b"4\n", b"5\nxx\n6\n"];
    let mut framer = LineFramer::new();
    let mut q = EventQueue::new();
    let mut open = true;
    for c in chunks {
        if !open {
            break;
        }
        open = pump(&mut q, outcomes(framer.push_chunk(c)));
    }
    assert!(!open);
    let mut got = Vec::new();
    loop {
        match q.pull() {
            Pull::Item(e) => got.push(e),
            Pull::Closed => break,
            Pull::Empty => panic!("queue left open"),
        }
    }
    assert_eq!(got, vec![1, 2, 3, 4, 5]);
}

#[test]
fn bridge_end_of_stream_closes_queue() {
    let mut framer = LineFramer::new();
    let mut q = EventQueue::new();
    assert!(pump(&mut q, outcomes(framer.push_chunk(b"8\n\n9\n"))));
    q.close();
    let (events, last) = q.drain();
    assert_eq!(events, vec![8, 9]);
    assert!(matches!(last, Pull::Closed));
    assert!(matches!(q.pull(), Pull::Closed));
}

#[test]
fn drain_of_open_queue_reports_empty() {
    let mut q = EventQueue::new();
    q.push(1u32);
    let (events, last) = q.drain();
    assert_eq!(events, vec![1]);
    assert!(matches!(last, Pull::Empty));
}
