use cedro::protocol::frame::{FrameKind, FrameSplitter};

#[test]
fn splits_a_bang_terminated_quote() {
    let mut s = FrameSplitter::with_capacity(1024);
    s.extend_from_slice(b"T:PETR4:101758:2:59.95!");
    let (kind, frame) = s.next_frame().expect("frame should be ready");
    assert_eq!(kind, FrameKind::Bang);
    assert_eq!(frame.as_ref(), b"T:PETR4:101758:2:59.95");
    assert!(s.next_frame().is_none());
}

#[test]
fn splits_a_newline_terminated_book() {
    let mut s = FrameSplitter::with_capacity(1024);
    s.extend_from_slice(b"B:PETR4:A:0:A:99.99:100:131:11041005\n");
    let (kind, frame) = s.next_frame().expect("frame should be ready");
    assert_eq!(kind, FrameKind::Newline);
    assert_eq!(frame.as_ref(), b"B:PETR4:A:0:A:99.99:100:131:11041005");
}

#[test]
fn handles_back_to_back_frames_of_mixed_kinds() {
    let mut s = FrameSplitter::with_capacity(1024);
    s.extend_from_slice(b"T:PETR4:101758:2:59.95!B:PETR4:A:0:A:99.99:100:131:11041005\nGTC:20170308145946\n");
    let (k1, f1) = s.next_frame().unwrap();
    let (k2, f2) = s.next_frame().unwrap();
    let (k3, f3) = s.next_frame().unwrap();
    assert_eq!(k1, FrameKind::Bang);
    assert_eq!(f1.as_ref(), b"T:PETR4:101758:2:59.95");
    assert_eq!(k2, FrameKind::Newline);
    assert_eq!(f2.as_ref(), b"B:PETR4:A:0:A:99.99:100:131:11041005");
    assert_eq!(k3, FrameKind::Newline);
    assert_eq!(f3.as_ref(), b"GTC:20170308145946");
    assert!(s.next_frame().is_none());
}

#[test]
fn buffers_partial_frame_until_terminator_arrives() {
    let mut s = FrameSplitter::with_capacity(1024);
    s.extend_from_slice(b"T:PETR4:101758");
    assert!(s.next_frame().is_none(), "no terminator yet");
    s.extend_from_slice(b":2:59.95!");
    let (kind, frame) = s.next_frame().unwrap();
    assert_eq!(kind, FrameKind::Bang);
    assert_eq!(frame.as_ref(), b"T:PETR4:101758:2:59.95");
}

#[test]
fn empty_frame_between_two_terminators_is_still_a_frame() {
    // Although Cedro never sends an empty frame in practice, the splitter
    // must not panic if it appears (e.g., due to noise on the wire).
    let mut s = FrameSplitter::with_capacity(1024);
    s.extend_from_slice(b"\n\nGTC:20170308145946\n");
    let (k1, f1) = s.next_frame().unwrap();
    assert_eq!(k1, FrameKind::Newline);
    assert!(f1.is_empty());
    let (_, f2) = s.next_frame().unwrap();
    assert!(f2.is_empty());
    let (_, f3) = s.next_frame().unwrap();
    assert_eq!(f3.as_ref(), b"GTC:20170308145946");
}
