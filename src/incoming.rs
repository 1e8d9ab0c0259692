//! The incoming body stream: data phase, trailer phase, closed.
use vstd::prelude::*;

verus! {

/// Where a body being read stands. It only ever moves forward.
#[derive(Debug, Clone, Copy, PartialEq, Eq, Structural)]
pub enum BodyPhase {
    /// The data stream is open and the body is not yet finished.
    Reading,
    /// The body is finished; its trailers are awaited.
    AwaitingTrailers,
    /// Nothing more will be produced.
    Closed,
}

/// What one bounded read of the data stream gave.
#[derive(Debug, PartialEq, Eq)]
pub enum ReadResult {
    /// These bytes; none means no data yet, not the end.
    Data(Vec<u8>),
    /// The stream has ended.
    Closed,
    /// The read failed, with the host's description.
    Failed(String),
}

/// What the host said of the body's trailers.
#[derive(Debug, PartialEq, Eq)]
pub enum TrailerResult {
    /// Not yet available.
    NotReady,
    /// Trailers arrived.
    Present,
    /// The body had no trailers.
    Absent,
    /// The trailers could not be had, with the host's description.
    Failed(String),
}

/// The outcome of the host operation that the current phase calls for.
#[derive(Debug, PartialEq, Eq)]
pub enum BodyEvent {
    /// A read of the data stream (while reading).
    Read(ReadResult),
    /// A look at the trailers (while awaiting them).
    Trailers(TrailerResult),
    /// No operation was made (once closed).
    Idle,
}

/// What the driver does next.
#[derive(Debug, PartialEq, Eq)]
pub enum PullAction {
    /// Register the readiness source of the current handle and suspend.
    Suspend,
    /// Hand this chunk to the consumer.
    Deliver(Vec<u8>),
    /// Release the data stream, finish the body, and go on with its trailers.
    FinishBody,
    /// Release the data stream, finish the body, and hand the consumer this
    /// error as the sequence's last item.
    FinishBodyAndFail(String),
    /// Hand the consumer this error as the sequence's last item.
    Fail(String),
    /// The sequence has ended.
    End,
}

/// The reading side of one incoming body.
#[derive(Debug, Clone, Copy, PartialEq, Eq, Structural)]
pub struct BodyReader {
    pub phase: BodyPhase,
}

/// Whether `ev` is the outcome that phase `p` asks the driver for.
pub open spec fn accepts(p: BodyPhase, ev: BodyEvent) -> bool {
    match p {
        BodyPhase::Reading => ev is Read,
        BodyPhase::AwaitingTrailers => ev is Trailers,
        BodyPhase::Closed => true,
    }
}

/// One transition of the body: its next phase and the driver's action.
/// An empty read waits rather than ends; the end of the stream finishes the
/// body; trailers, present or absent, close it without data; a failure at
/// either stage is one error item, after which the body is closed.
pub open spec fn body_step(p: BodyPhase, ev: BodyEvent) -> (BodyPhase, PullAction) {
    match p {
        BodyPhase::Reading => match ev {
            BodyEvent::Read(ReadResult::Data(v)) => if v@.len() == 0 {
                (BodyPhase::Reading, PullAction::Suspend)
            } else {
                (BodyPhase::Reading, PullAction::Deliver(v))
            },
            BodyEvent::Read(ReadResult::Closed) => (
                BodyPhase::AwaitingTrailers,
                PullAction::FinishBody,
            ),
            BodyEvent::Read(ReadResult::Failed(m)) => (
                BodyPhase::Closed,
                PullAction::FinishBodyAndFail(m),
            ),
            _ => (p, PullAction::Suspend),
        },
        BodyPhase::AwaitingTrailers => match ev {
            BodyEvent::Trailers(TrailerResult::NotReady) => (
                BodyPhase::AwaitingTrailers,
                PullAction::Suspend,
            ),
            BodyEvent::Trailers(TrailerResult::Failed(m)) => (
                BodyPhase::Closed,
                PullAction::Fail(m),
            ),
            BodyEvent::Trailers(_) => (BodyPhase::Closed, PullAction::End),
            _ => (p, PullAction::Suspend),
        },
        BodyPhase::Closed => (BodyPhase::Closed, PullAction::End),
    }
}

/// The phase and the actions after successive events.
pub open spec fn body_run(p: BodyPhase, events: Seq<BodyEvent>) -> (BodyPhase, Seq<PullAction>)
    decreases events.len(),
{
    if events.len() == 0 {
        (p, Seq::empty())
    } else {
        let (p1, a) = body_step(p, events[0]);
        let (p2, rest) = body_run(p1, events.drop_first());
        (p2, seq![a] + rest)
    }
}

/// Whether dropping a reader in phase `p` must finish the body.
pub open spec fn finish_on_drop(p: BodyPhase) -> bool {
    p == BodyPhase::Reading
}

/// How many of `actions` finish the body.
pub open spec fn finishes(actions: Seq<PullAction>) -> nat
    decreases actions.len(),
{
    if actions.len() == 0 {
        0
    } else {
        (if actions[0] is FinishBody || actions[0] is FinishBodyAndFail {
            1nat
        } else {
            0nat
        }) + finishes(actions.drop_first())
    }
}

/// 1 when dropping a reader in phase `p` finishes the body, else 0.
pub open spec fn drop_finishes(p: BodyPhase) -> nat {
    if finish_on_drop(p) {
        1
    } else {
        0
    }
}

proof fn lemma_finishes_from(p: BodyPhase, events: Seq<BodyEvent>)
    ensures
        finishes(body_run(p, events).1) + drop_finishes(body_run(p, events).0) == drop_finishes(
            p,
        ),
    decreases events.len(),
{
    if events.len() > 0 {
        let (p1, a) = body_step(p, events[0]);
        lemma_finishes_from(p1, events.drop_first());
        let rest = body_run(p1, events.drop_first()).1;
        assert((seq![a] + rest).drop_first() =~= rest);
    }
}

/// Whatever the host reports, and wherever the consumer stops (at the end,
/// after an error, or by dropping the stream early), a body that started
/// reading is finished exactly once: by the end of its data, by a read
/// failure, or else by the drop.
pub proof fn body_finished_exactly_once(events: Seq<BodyEvent>)
    ensures
        finishes(body_run(BodyPhase::Reading, events).1) + drop_finishes(
            body_run(BodyPhase::Reading, events).0,
        ) == 1,
{
    lemma_finishes_from(BodyPhase::Reading, events);
}

/// The events of reads that returned `reads`, in order.
pub open spec fn read_events(reads: Seq<Vec<u8>>) -> Seq<BodyEvent> {
    Seq::new(reads.len(), |i: int| BodyEvent::Read(ReadResult::Data(reads[i])))
}

/// What the reader does with each of `reads`: deliver it, or wait when it is
/// empty.
pub open spec fn read_actions(reads: Seq<Vec<u8>>) -> Seq<PullAction> {
    Seq::new(
        reads.len(),
        |i: int|
            if reads[i]@.len() == 0 {
                PullAction::Suspend
            } else {
                PullAction::Deliver(reads[i])
            },
    )
}

/// The last item that trailers `t` give the consumer.
pub open spec fn trailer_outcome(t: TrailerResult) -> PullAction {
    match t {
        TrailerResult::Failed(m) => PullAction::Fail(m),
        _ => PullAction::End,
    }
}

proof fn lemma_reads_then(reads: Seq<Vec<u8>>, tail: Seq<BodyEvent>)
    ensures
        body_run(BodyPhase::Reading, read_events(reads) + tail) == (
            body_run(BodyPhase::Reading, tail).0,
            read_actions(reads) + body_run(BodyPhase::Reading, tail).1,
        ),
    decreases reads.len(),
{
    if reads.len() > 0 {
        let rest = reads.drop_first();
        lemma_reads_then(rest, tail);
        assert((read_events(reads) + tail).drop_first() =~= read_events(rest) + tail);
        assert((read_events(reads) + tail)[0] == read_events(reads)[0]);
        assert(read_actions(reads) =~= seq![read_actions(reads)[0]] + read_actions(rest));
        assert(seq![read_actions(reads)[0]] + (read_actions(rest) + body_run(
            BodyPhase::Reading,
            tail,
        ).1) =~= read_actions(reads) + body_run(BodyPhase::Reading, tail).1);
    } else {
        assert(read_events(reads) + tail =~= tail);
        assert(read_actions(reads) + body_run(BodyPhase::Reading, tail).1 =~= body_run(
            BodyPhase::Reading,
            tail,
        ).1);
    }
}

/// Reads that return the chunks `reads` (empty ones meaning "not yet"),
/// then the end of the stream, then the trailers `t`, then one more pull:
/// the consumer gets every nonempty chunk, in order and nothing else, the
/// body is finished once, and the sequence ends, after exactly one error
/// item when the trailers failed and with none when they were present or
/// absent.
pub proof fn body_delivers_reads_in_order(reads: Seq<Vec<u8>>, t: TrailerResult)
    requires
        t != TrailerResult::NotReady,
    ensures
        body_run(
            BodyPhase::Reading,
            read_events(reads) + seq![
                BodyEvent::Read(ReadResult::Closed),
                BodyEvent::Trailers(t),
                BodyEvent::Idle,
            ],
        ) == (BodyPhase::Closed, read_actions(reads) + seq![
            PullAction::FinishBody,
            trailer_outcome(t),
            PullAction::End,
        ]),
{
    let tail = seq![BodyEvent::Read(ReadResult::Closed), BodyEvent::Trailers(t), BodyEvent::Idle];
    lemma_reads_then(reads, tail);
    let t1 = tail.drop_first();
    let t2 = t1.drop_first();
    let t3 = t2.drop_first();
    assert(t1 =~= seq![BodyEvent::Trailers(t), BodyEvent::Idle]);
    assert(t2 =~= seq![BodyEvent::Idle]);
    assert(t3 =~= Seq::<BodyEvent>::empty());
    assert(body_run(BodyPhase::Closed, t3) == (BodyPhase::Closed, Seq::<PullAction>::empty()));
    assert(t2[0] == BodyEvent::Idle);
    assert(body_run(BodyPhase::Closed, t2).1 =~= seq![PullAction::End]);
    assert(t1[0] == BodyEvent::Trailers(t));
    assert(tail[0] == BodyEvent::Read(ReadResult::Closed));
    assert(body_run(BodyPhase::AwaitingTrailers, t1).1 =~= seq![
        trailer_outcome(t),
        PullAction::End,
    ]);
    assert(body_run(BodyPhase::Reading, tail).1 =~= seq![
        PullAction::FinishBody,
        trailer_outcome(t),
        PullAction::End,
    ]);
}

impl BodyReader {
    /// A reader over a body whose data stream is open.
    pub fn new() -> (r: BodyReader)
        ensures
            r.phase == BodyPhase::Reading,
    {
        BodyReader { phase: BodyPhase::Reading }
    }

    /// The current phase, which tells the driver which operation to make.
    pub fn phase(&self) -> (r: BodyPhase)
        ensures
            r == self.phase,
    {
        self.phase
    }

    /// Takes the outcome of the operation that the phase asked for and
    /// returns what to do.
    pub fn pull(&mut self, ev: BodyEvent) -> (r: PullAction)
        requires
            accepts(old(self).phase, ev),
        ensures
            (final(self).phase, r) == body_step(old(self).phase, ev),
    {
        match self.phase {
            BodyPhase::Reading => match ev {
                BodyEvent::Read(ReadResult::Data(v)) => {
                    if v.len() == 0 {
                        PullAction::Suspend
                    } else {
                        PullAction::Deliver(v)
                    }
                },
                BodyEvent::Read(ReadResult::Closed) => {
                    self.phase = BodyPhase::AwaitingTrailers;
                    PullAction::FinishBody
                },
                BodyEvent::Read(ReadResult::Failed(m)) => {
                    self.phase = BodyPhase::Closed;
                    PullAction::FinishBodyAndFail(m)
                },
                _ => PullAction::Suspend,
            },
            BodyPhase::AwaitingTrailers => match ev {
                BodyEvent::Trailers(TrailerResult::NotReady) => PullAction::Suspend,
                BodyEvent::Trailers(TrailerResult::Failed(m)) => {
                    self.phase = BodyPhase::Closed;
                    PullAction::Fail(m)
                },
                BodyEvent::Trailers(_) => {
                    self.phase = BodyPhase::Closed;
                    PullAction::End
                },
                _ => PullAction::Suspend,
            },
            BodyPhase::Closed => PullAction::End,
        }
    }

    /// Closes the reader when it is dropped. Returns `true` exactly when the
    /// body has not been finished yet, so the driver must release the data
    /// stream and finish the body now.
    pub fn close_on_drop(&mut self) -> (finish: bool)
        ensures
            finish == finish_on_drop(old(self).phase),
            final(self).phase == BodyPhase::Closed,
    {
        let finish = match self.phase {
            BodyPhase::Reading => true,
            _ => false,
        };
        self.phase = BodyPhase::Closed;
        finish
    }
}

} // verus!
