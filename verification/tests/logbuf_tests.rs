use bvg_api::logbuf::LogBuffer;
use std::sync::{Arc, Mutex};

fn lines(b: &LogBuffer) -> Vec<String> {
    b.snapshot()
}

#[test]
fn overfilling_keeps_the_most_recent_lines_in_order() {
    let mut b = LogBuffer::new(3);
    b.append("one\ntwo\nthree\nfour\nfive\n");
    assert_eq!(lines(&b), vec!["three", "four", "five"]);
}

#[test]
fn eviction_is_strict_fifo_across_appends() {
    let mut b = LogBuffer::new(2);
    b.append("a\n");
    b.append("b\n");
    assert_eq!(lines(&b), vec!["a", "b"]);
    b.append("c\n");
    assert_eq!(lines(&b), vec!["b", "c"]);
    b.append("d\ne\n");
    assert_eq!(lines(&b), vec!["d", "e"]);
}

#[test]
fn partial_line_stays_pending_until_completed() {
    let mut b = LogBuffer::new(10);
    b.append("hel");
    assert_eq!(lines(&b).len(), 0);
    b.append("lo\nwor");
    assert_eq!(lines(&b), vec!["hello"]);
    b.append("ld");
    assert_eq!(lines(&b), vec!["hello"]);
    b.append("\n");
    assert_eq!(lines(&b), vec!["hello", "world"]);
}

#[test]
fn flush_forces_the_pending_text_out() {
    let mut b = LogBuffer::new(10);
    b.append("tail without newline");
    assert_eq!(lines(&b).len(), 0);
    b.flush();
    assert_eq!(lines(&b), vec!["tail without newline"]);
    // a second flush with nothing pending changes nothing
    b.flush();
    assert_eq!(lines(&b), vec!["tail without newline"]);
}

#[test]
fn empty_chunks_and_empty_lines() {
    let mut b = LogBuffer::new(5);
    b.append("");
    assert_eq!(lines(&b).len(), 0);
    b.append("\n\n");
    assert_eq!(lines(&b), vec!["", ""]);
}

#[test]
fn zero_capacity_holds_nothing() {
    let mut b = LogBuffer::new(0);
    b.append("a\nb\n");
    assert_eq!(lines(&b).len(), 0);
    b.flush();
    assert_eq!(lines(&b).len(), 0);
}

#[test]
fn snapshot_copies_without_disturbing_the_buffer() {
    let mut b = LogBuffer::new(4);
    b.append("x\ny");
    let s1 = lines(&b);
    let s2 = lines(&b);
    assert_eq!(s1, s2);
    assert_eq!(s1, vec!["x"]);
    b.append("z\n");
    assert_eq!(lines(&b), vec!["x", "yz"]);
}

#[test]
fn no_snapshot_line_ever_holds_a_line_break() {
    let mut b = LogBuffer::new(8);
    b.append("a\nbb\nccc");
    b.append("\nd");
    b.flush();
    for l in lines(&b) {
        assert!(!l.contains('\n'));
    }
    assert_eq!(lines(&b), vec!["a", "bb", "ccc", "d"]);
}

#[test]
fn shared_behind_a_mutex_between_producers_and_reader() {
    let buf = Arc::new(Mutex::new(LogBuffer::new(100)));
    let producer_a = Arc::clone(&buf);
    let producer_b = Arc::clone(&buf);
    for i in 0..60 {
        producer_a.lock().unwrap().append(&format!("producer a line {}\n", i));
        producer_b.lock().unwrap().append(&format!("producer b line {}\n", i));
        // a reader may snapshot between any two appends and never sees a
        // torn or partial line
        let snap = buf.lock().unwrap().snapshot();
        for l in &snap {
            assert!(l.starts_with("producer "));
            assert!(!l.contains('\n'));
        }
    }
    let snap = buf.lock().unwrap().snapshot();
    assert_eq!(snap.len(), 100);
}
