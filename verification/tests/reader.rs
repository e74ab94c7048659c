use cedro::client::reader::{
    offer_step, reader_step, watchdog_step, OfferOutcome, OfferStep, ReadOutcome, ReaderStep,
    WatchdogStep,
};
use cedro::protocol::frame::{FrameKind, FrameSplitter};

#[test]
fn a_read_delivers_its_frames() {
    let mut splitter = FrameSplitter::with_capacity(64);
    let chunk = b"GTC:20170308145946\nT:PETR4:101758:2:59.95!tail-----";
    let n = chunk.len() - 5;
    match reader_step(&mut splitter, chunk, ReadOutcome::Bytes(n)) {
        ReaderStep::Deliver(frames) => {
            assert_eq!(frames.len(), 2);
            assert_eq!(frames[0].0, FrameKind::Newline);
            assert_eq!(frames[0].1.as_ref(), b"GTC:20170308145946");
            assert_eq!(frames[1].0, FrameKind::Bang);
            assert_eq!(frames[1].1.as_ref(), b"T:PETR4:101758:2:59.95");
        }
        other => panic!("expected Deliver, got {other:?}"),
    }
    assert_eq!(splitter.pending(), 4);
}

#[test]
fn reads_that_bring_nothing() {
    let mut splitter = FrameSplitter::with_capacity(64);
    splitter.extend_from_slice(b"abc");
    let chunk = [0u8; 4];
    assert!(matches!(reader_step(&mut splitter, &chunk, ReadOutcome::Bytes(0)), ReaderStep::Stop));
    assert!(matches!(
        reader_step(&mut splitter, &chunk, ReadOutcome::Interrupted),
        ReaderStep::Again
    ));
    assert!(matches!(reader_step(&mut splitter, &chunk, ReadOutcome::Failed), ReaderStep::Stop));
    assert_eq!(splitter.pending(), 3);
}

#[test]
fn offers_block_rather_than_drop() {
    assert_eq!(offer_step(OfferOutcome::Accepted), OfferStep::Next);
    assert_eq!(offer_step(OfferOutcome::Full), OfferStep::Wait);
    assert_eq!(offer_step(OfferOutcome::Disconnected), OfferStep::Stop);
}

#[test]
fn watchdog_acts_above_its_thresholds() {
    assert_eq!(watchdog_step(None, 10, 20), WatchdogStep::Stop);
    assert_eq!(watchdog_step(Some(10), 10, 20), WatchdogStep::Calm);
    assert_eq!(watchdog_step(Some(11), 10, 20), WatchdogStep::Warn);
    assert_eq!(watchdog_step(Some(20), 10, 20), WatchdogStep::Warn);
    assert_eq!(watchdog_step(Some(21), 10, 20), WatchdogStep::Panic);
}
