use wasi_executor::dispatch::{poll_dispatch, Progress};
use wasi_executor::executor::{after_step, Next};
use wasi_executor::finalize::Finalizer;
use wasi_executor::incoming::{
    BodyEvent, BodyPhase, BodyReader, PullAction, ReadResult, TrailerResult,
};
use wasi_executor::outgoing::{Capacity, ChunkWriter, WriteStep};
use wasi_executor::registry::{Registry, RoundFault};

#[test]
fn registry_round_splits_fired_from_waiting() {
    let mut reg: Registry<&str> = Registry::new();
    reg.register("a");
    reg.register("b");
    reg.register("c");
    let taken = reg.take_round().unwrap();
    assert_eq!(taken, vec!["a", "b", "c"]);
    assert!(reg.is_empty());
    let fired = reg.settle_round(taken, &vec![2, 0]).unwrap();
    assert_eq!(fired, vec!["a", "c"]);
    assert_eq!(reg.len(), 1);
    let rest = reg.take_round().unwrap();
    assert_eq!(rest, vec!["b"]);
}

#[test]
fn registry_round_rejects_index_out_of_range() {
    let mut reg: Registry<u32> = Registry::new();
    reg.register(7);
    let taken = reg.take_round().unwrap();
    let r = reg.settle_round(taken, &vec![0, 1]);
    assert_eq!(r, Err(RoundFault::ReadyIndexOutOfRange { index: 1 }));
    assert!(reg.is_empty());
}

#[test]
fn registry_round_with_nothing_ready_puts_all_back() {
    let mut reg: Registry<u32> = Registry::new();
    reg.register(1);
    reg.register(2);
    let taken = reg.take_round().unwrap();
    let fired = reg.settle_round(taken, &vec![]).unwrap();
    assert!(fired.is_empty());
    assert_eq!(reg.take_round().unwrap(), vec![1, 2]);
}

#[test]
fn pending_with_empty_registry_is_a_fault() {
    let mut reg: Registry<u32> = Registry::new();
    assert_eq!(reg.take_round(), Err(RoundFault::PendingWithoutSources));
    let r = after_step::<u32, u8>(&mut reg, Progress::Pending);
    assert!(matches!(r, Err(RoundFault::PendingWithoutSources)));
}

#[test]
fn finished_step_passes_result_through() {
    let mut reg: Registry<u32> = Registry::new();
    reg.register(5);
    let r = after_step(&mut reg, Progress::Ready("done"));
    assert!(matches!(r, Ok(Next::Finish("done"))));
    assert_eq!(reg.len(), 1);
}

#[test]
fn executor_finishes_after_exactly_n_rounds() {
    let n: usize = 3;
    let mut reg: Registry<usize> = Registry::new();
    let mut remaining = n;
    let mut rounds = 0;
    let result = loop {
        let outcome = if remaining == 0 {
            Progress::Ready(42)
        } else {
            reg.register(remaining);
            Progress::Pending
        };
        match after_step(&mut reg, outcome).unwrap() {
            Next::Finish(v) => break v,
            Next::Wait(taken) => {
                rounds += 1;
                let ready: Vec<u32> = (0..taken.len() as u32).collect();
                let fired = reg.settle_round(taken, &ready).unwrap();
                remaining -= fired.len();
            }
        }
    };
    assert_eq!(result, 42);
    assert_eq!(rounds, n);
    assert!(reg.is_empty());
}

#[test]
fn dispatch_pending_registers_one_source_then_resolves() {
    let mut reg: Registry<u32> = Registry::new();
    let first: Progress<Result<u16, String>> = poll_dispatch(&mut reg, None, || 9);
    assert_eq!(first, Progress::Pending);
    assert_eq!(reg.len(), 1);
    let second = poll_dispatch(&mut reg, Some(Ok::<u16, String>(200)), || 10);
    assert_eq!(second, Progress::Ready(Ok(200)));
    assert_eq!(reg.len(), 1);
    assert_eq!(reg.take_round().unwrap(), vec![9]);
}

#[test]
fn dispatch_protocol_error_is_returned_as_is() {
    let mut reg: Registry<u32> = Registry::new();
    let r = poll_dispatch(&mut reg, Some(Err::<u16, String>("refused".to_string())), || 1);
    assert_eq!(r, Progress::Ready(Err("refused".to_string())));
    assert!(reg.is_empty());
}

#[test]
fn chunk_written_across_varying_capacity() {
    let mut w = ChunkWriter::new(10);
    let caps = [0u64, 4, 0, 3, 5, 2, 1];
    let mut steps = Vec::new();
    for c in caps {
        steps.push(w.step(Capacity::Bytes(c)));
    }
    assert_eq!(
        steps,
        vec![
            WriteStep::Suspend,
            WriteStep::Write { start: 0, end: 4 },
            WriteStep::Suspend,
            WriteStep::Write { start: 4, end: 7 },
            WriteStep::Write { start: 7, end: 10 },
            WriteStep::Flush,
            WriteStep::Complete,
        ]
    );
    let sent: usize = steps
        .iter()
        .map(|s| match s {
            WriteStep::Write { start, end } => end - start,
            _ => 0,
        })
        .sum();
    assert_eq!(sent, 10);
    assert!(w.is_written());
}

#[test]
fn empty_chunk_is_flushed_then_complete() {
    let mut w = ChunkWriter::new(0);
    assert_eq!(w.step(Capacity::Bytes(8)), WriteStep::Flush);
    assert_eq!(w.step(Capacity::Bytes(0)), WriteStep::Suspend);
    assert_eq!(w.step(Capacity::Bytes(8)), WriteStep::Complete);
}

#[test]
fn chunk_write_fails_on_channel_error() {
    let mut w = ChunkWriter::new(5);
    assert_eq!(w.step(Capacity::Bytes(2)), WriteStep::Write { start: 0, end: 2 });
    assert_eq!(w.step(Capacity::Failed), WriteStep::Fail);
}

#[test]
fn huge_capacity_writes_whole_chunk_at_once() {
    let mut w = ChunkWriter::new(3);
    assert_eq!(w.step(Capacity::Bytes(u64::MAX)), WriteStep::Write { start: 0, end: 3 });
    assert_eq!(w.step(Capacity::Bytes(u64::MAX)), WriteStep::Flush);
}

#[test]
fn finalizer_releases_once() {
    let mut f = Finalizer::new();
    assert!(!f.is_released());
    assert!(f.finalize());
    assert!(!f.finalize());
    assert!(!f.finalize());
    assert!(f.is_released());
}

fn data(bytes: &[u8]) -> BodyEvent {
    BodyEvent::Read(ReadResult::Data(bytes.to_vec()))
}

#[test]
fn incoming_yields_nonempty_chunks_then_ends() {
    let mut r = BodyReader::new();
    assert_eq!(r.pull(data(b"ab")), PullAction::Deliver(b"ab".to_vec()));
    assert_eq!(r.pull(data(b"cd")), PullAction::Deliver(b"cd".to_vec()));
    assert_eq!(r.pull(data(b"")), PullAction::Suspend);
    assert_eq!(r.phase(), BodyPhase::Reading);
    assert_eq!(r.pull(data(b"e")), PullAction::Deliver(b"e".to_vec()));
    assert_eq!(r.pull(BodyEvent::Read(ReadResult::Closed)), PullAction::FinishBody);
    assert_eq!(r.phase(), BodyPhase::AwaitingTrailers);
    assert_eq!(r.pull(BodyEvent::Trailers(TrailerResult::NotReady)), PullAction::Suspend);
    assert_eq!(r.pull(BodyEvent::Trailers(TrailerResult::Absent)), PullAction::End);
    assert_eq!(r.pull(BodyEvent::Idle), PullAction::End);
    assert!(!r.close_on_drop());
}

#[test]
fn incoming_trailer_error_after_two_chunks() {
    let mut r = BodyReader::new();
    assert_eq!(r.pull(data(b"x")), PullAction::Deliver(b"x".to_vec()));
    assert_eq!(r.pull(data(b"yz")), PullAction::Deliver(b"yz".to_vec()));
    assert_eq!(r.pull(BodyEvent::Read(ReadResult::Closed)), PullAction::FinishBody);
    let bad = BodyEvent::Trailers(TrailerResult::Failed("bad trailers".to_string()));
    assert_eq!(r.pull(bad), PullAction::Fail("bad trailers".to_string()));
    assert_eq!(r.phase(), BodyPhase::Closed);
    assert_eq!(r.pull(BodyEvent::Idle), PullAction::End);
}

#[test]
fn incoming_present_trailers_close_without_data() {
    let mut r = BodyReader::new();
    assert_eq!(r.pull(BodyEvent::Read(ReadResult::Closed)), PullAction::FinishBody);
    assert_eq!(r.pull(BodyEvent::Trailers(TrailerResult::Present)), PullAction::End);
    assert_eq!(r.phase(), BodyPhase::Closed);
}

#[test]
fn incoming_read_failure_finishes_body_and_ends() {
    let mut r = BodyReader::new();
    let failed = BodyEvent::Read(ReadResult::Failed("reset".to_string()));
    assert_eq!(r.pull(failed), PullAction::FinishBodyAndFail("reset".to_string()));
    assert_eq!(r.pull(BodyEvent::Idle), PullAction::End);
    assert!(!r.close_on_drop());
}

#[test]
fn incoming_drop_mid_read_finishes_body_once() {
    let mut r = BodyReader::new();
    assert_eq!(r.pull(data(b"q")), PullAction::Deliver(b"q".to_vec()));
    assert!(r.close_on_drop());
    assert!(!r.close_on_drop());
    assert_eq!(r.phase(), BodyPhase::Closed);
}
