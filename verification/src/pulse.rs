//! The pulse run-length encoder.
//!
//! The encoder is asked to hold the transmitter's output at a level for a
//! number of microseconds, again and again. Requests for the level that is
//! already held lengthen the current run; a request for the other level closes
//! the current run and starts a new one. The closed runs, followed by the run
//! that is open when the encoder is finished, are the output: one duration per
//! run. The output carries no levels; it is read as starting high and
//! alternating from there.

use vstd::prelude::*;

verus! {

/// Level of the transmitter's output.
///
/// `IrHigh` means that the sender drives its output high, so that a receiver
/// sees its own input low.
#[derive(Clone, Copy, Debug, PartialEq, Eq, Structural)]
pub enum IrOutputState {
    IrHigh,
    IrLow,
}

/// Level that the run at position `k` of an output has by convention:
/// high at even positions, low at odd ones.
pub open spec fn level_at(k: int) -> IrOutputState {
    if k % 2 == 0 {
        IrOutputState::IrHigh
    } else {
        IrOutputState::IrLow
    }
}

/// Sum of two durations that stops at `u64::MAX` instead of wrapping.
pub open spec fn sat_add(a: u64, b: u64) -> u64 {
    if a + b > u64::MAX {
        u64::MAX
    } else {
        (a + b) as u64
    }
}

/// A request to hold `level` for `us` microseconds.
#[derive(Clone, Copy, Debug, PartialEq, Eq, Structural)]
pub struct Hold {
    pub level: IrOutputState,
    pub us: u64,
}

/// Mathematical state of the encoder.
pub struct PulseTrain {
    /// Durations of the runs that are closed, oldest first.
    pub runs: Seq<u64>,
    /// Level of the run that is open.
    pub level: IrOutputState,
    /// Time spent at `level` since the last run was closed.
    pub held: u64,
}

impl PulseTrain {
    /// State of an encoder that has not been asked for anything yet.
    pub open spec fn fresh() -> PulseTrain {
        PulseTrain { runs: Seq::empty(), level: IrOutputState::IrHigh, held: 0 }
    }

    /// State after holding `level` for `us` microseconds.
    ///
    /// A request of no length changes nothing. A request for the level held
    /// lengthens the open run, stopping at `u64::MAX`. A request for the other
    /// level closes the open run and opens one of length `us`.
    pub open spec fn hold(self, level: IrOutputState, us: u64) -> PulseTrain {
        if us == 0 {
            self
        } else if level == self.level {
            PulseTrain { held: sat_add(self.held, us), ..self }
        } else {
            PulseTrain { runs: self.runs.push(self.held), level: level, held: us }
        }
    }

    /// State after the requests `reqs`, taken in order.
    pub open spec fn hold_all(self, reqs: Seq<Hold>) -> PulseTrain
        decreases reqs.len(),
    {
        if reqs.len() == 0 {
            self
        } else {
            self.hold_all(reqs.drop_last()).hold(reqs.last().level, reqs.last().us)
        }
    }

    /// State after the burst `pulses`: the output is held high for the first
    /// duration, low for the second, and so on in turn.
    pub open spec fn drive(self, pulses: Seq<u64>) -> PulseTrain {
        self.hold_all(burst(pulses))
    }

    /// The output: the closed runs followed by the open one.
    pub open spec fn finish(self) -> Seq<u64> {
        self.runs.push(self.held)
    }

    /// Whether the open run is at the level of the position that it will
    /// take in the output: high at an even position, low at an odd one.
    pub open spec fn alternates(self) -> bool {
        self.level == level_at(self.runs.len() as int)
    }
}

/// The requests that make up a burst: one for each duration, at the level of
/// its position.
pub open spec fn burst(pulses: Seq<u64>) -> Seq<Hold> {
    Seq::new(pulses.len(), |k: int| Hold { level: level_at(k), us: pulses[k] })
}

/// Whether no duration of `pulses` is 0.
pub open spec fn all_positive(pulses: Seq<u64>) -> bool {
    forall|k: int| 0 <= k < pulses.len() ==> pulses[k] > 0
}

/// The encoder: the level held, the time spent at it, and the runs closed so
/// far.
#[derive(Debug)]
pub struct IrGenState {
    output: IrOutputState,
    duration: u64,
    emitted: Vec<u64>,
}

impl View for IrGenState {
    type V = PulseTrain;

    closed spec fn view(&self) -> PulseTrain {
        PulseTrain { runs: self.emitted@, level: self.output, held: self.duration }
    }
}

impl IrGenState {
    /// A fresh encoder: the output is high and no time has passed.
    pub fn default() -> (state: IrGenState)
        ensures
            state@ == PulseTrain::fresh(),
    {
        IrGenState { output: IrOutputState::IrHigh, duration: 0, emitted: Vec::new() }
    }

    /// Closes the open run: its duration joins the output.
    fn ir_gen(&mut self)
        ensures
            final(self).emitted@ == old(self).emitted@.push(old(self).duration),
            final(self).output == old(self).output,
            final(self).duration == old(self).duration,
    {
        self.emitted.push(self.duration);
    }

    /// Holds the output high for `us` microseconds.
    pub fn ir_high(&mut self, us: u64)
        ensures
            final(self)@ == old(self)@.hold(IrOutputState::IrHigh, us),
    {
        self.ir_low_or_high(us, IrOutputState::IrHigh);
    }

    /// Holds the output low for `us` microseconds.
    pub fn ir_low(&mut self, us: u64)
        ensures
            final(self)@ == old(self)@.hold(IrOutputState::IrLow, us),
    {
        self.ir_low_or_high(us, IrOutputState::IrLow);
    }

    /// Finishes the encoding and hands out the durations of all runs, the open
    /// one last. An encoder that was never asked for anything gives the single
    /// duration 0.
    pub fn ir_end(self) -> (pulses: Vec<u64>)
        ensures
            pulses@ == self@.finish(),
    {
        let mut pulses = self.emitted;
        pulses.push(self.duration);
        pulses
    }

    /// Holds the output at `output` for `us` microseconds.
    ///
    /// Nothing changes when `us` is 0. When `output` is the level already
    /// held, the open run grows by `us`, stopping at `u64::MAX`. Otherwise the
    /// open run is closed and a run of length `us` at `output` is opened.
    pub fn ir_low_or_high(&mut self, us: u64, output: IrOutputState)
        ensures
            final(self)@ == old(self)@.hold(output, us),
    {
        if us == 0 {
        } else if self.output == output {
            self.duration = self.duration.saturating_add(us);
        } else {
            self.ir_gen();
            self.duration = us;
            self.output = output;
        }
    }
}

/// The output for the requests `reqs`, taken in order by a fresh encoder.
pub fn run_lengths(reqs: &Vec<Hold>) -> (pulses: Vec<u64>)
    ensures
        pulses@ == PulseTrain::fresh().hold_all(reqs@).finish(),
{
    let mut state = IrGenState::default();
    let mut i: usize = 0;
    while i < reqs.len()
        invariant
            i <= reqs.len(),
            state@ == PulseTrain::fresh().hold_all(reqs@.take(i as int)),
        decreases reqs.len() - i,
    {
        proof {
            assert(reqs@.take(i + 1).drop_last() =~= reqs@.take(i as int));
        }
        state.ir_low_or_high(reqs[i].us, reqs[i].level);
        i += 1;
    }
    proof {
        assert(reqs@.take(reqs.len() as int) =~= reqs@);
    }
    state.ir_end()
}

/// Requests to hold one level, one for each of `durations`.
pub open spec fn same_level(level: IrOutputState, durations: Seq<u64>) -> Seq<Hold> {
    Seq::new(durations.len(), |k: int| Hold { level: level, us: durations[k] })
}

/// Sum of `durations`.
pub open spec fn total(durations: Seq<u64>) -> nat
    decreases durations.len(),
{
    if durations.len() == 0 {
        0
    } else {
        total(durations.drop_last()) + durations.last() as nat
    }
}

/// The duration `n` where it fits, `u64::MAX` where it does not.
pub open spec fn clamped(n: nat) -> u64 {
    if n > u64::MAX {
        u64::MAX
    } else {
        n as u64
    }
}

/// `n` times the level `level`: a signal that stays at `level` for `n`
/// microseconds.
pub open spec fn steady(level: IrOutputState, n: nat) -> Seq<IrOutputState> {
    Seq::new(n, |t: int| level)
}

/// The signal that `reqs` ask for: the level of the output in each
/// microsecond from the first request on.
pub open spec fn signal(reqs: Seq<Hold>) -> Seq<IrOutputState>
    decreases reqs.len(),
{
    if reqs.len() == 0 {
        Seq::empty()
    } else {
        signal(reqs.drop_last()) + steady(reqs.last().level, reqs.last().us as nat)
    }
}

/// Coalescing: requests to hold one level, whatever their number, do what a
/// single request for the sum of their durations does. The run that they
/// build lasts as long as all of them together, or `u64::MAX` microseconds if
/// that is less.
pub proof fn lemma_same_level_coalesces(
    start: PulseTrain,
    level: IrOutputState,
    durations: Seq<u64>,
)
    ensures
        start.hold_all(same_level(level, durations)) == start.hold(
            level,
            clamped(total(durations)),
        ),
        level == start.level ==> start.hold_all(same_level(level, durations)) == (PulseTrain {
            held: clamped(start.held as nat + total(durations)),
            ..start
        }),
        level != start.level && total(durations) > 0 ==> start.hold_all(
            same_level(level, durations),
        ) == (PulseTrain {
            runs: start.runs.push(start.held),
            level: level,
            held: clamped(total(durations)),
        }),
    decreases durations.len(),
{
    if durations.len() > 0 {
        let before = durations.drop_last();
        lemma_same_level_coalesces(start, level, before);
        assert(same_level(level, durations).drop_last() =~= same_level(level, before));
    }
}

/// A request of no length, put anywhere among others, changes nothing.
pub proof fn lemma_zero_hold_ignored(
    start: PulseTrain,
    reqs: Seq<Hold>,
    at: int,
    level: IrOutputState,
)
    requires
        0 <= at <= reqs.len(),
    ensures
        start.hold_all(reqs.insert(at, Hold { level: level, us: 0 })) == start.hold_all(reqs),
{
    let zero = Hold { level: level, us: 0 };
    let head = reqs.take(at);
    let tail = reqs.skip(at);
    assert(reqs =~= head + tail);
    assert(head.push(zero).drop_last() =~= head);
    lemma_hold_all_concat(start, head.push(zero), tail);
    lemma_hold_all_concat(start, head, tail);
}

/// Alternation: whatever is asked of a fresh encoder, its runs change level
/// from each to the next, the first being high. So the run at an even
/// position of the output was held high and the run at an odd position low.
pub proof fn lemma_alternation(reqs: Seq<Hold>)
    ensures
        PulseTrain::fresh().hold_all(reqs).alternates(),
    decreases reqs.len(),
{
    if reqs.len() > 0 {
        lemma_alternation(reqs.drop_last());
    }
}

/// The output, read as a burst that starts high, is the signal that was
/// asked for: it holds each level for as long as the requests did, in their
/// order. This is so as long as the requests together last no more than
/// `u64::MAX` microseconds, so that no run is cut short.
pub proof fn lemma_output_is_signal(reqs: Seq<Hold>)
    requires
        signal(reqs).len() <= u64::MAX,
    ensures
        signal(burst(PulseTrain::fresh().hold_all(reqs).finish())) == signal(reqs),
        PulseTrain::fresh().hold_all(reqs).held <= signal(reqs).len(),
    decreases reqs.len(),
{
    let end = PulseTrain::fresh().hold_all(reqs);
    if reqs.len() == 0 {
        // The output is the single duration 0, which lasts no time.
        lemma_signal_push(Seq::empty(), 0);
    } else {
        let then = PulseTrain::fresh().hold_all(reqs.drop_last());
        lemma_output_is_signal(reqs.drop_last());
        lemma_alternation(reqs.drop_last());
        // Before the last request the open run ends the signal. The request
        // leaves it as it is, lengthens it, or puts a run at the other level
        // behind it.
        lemma_signal_push(then.runs, then.held);
        lemma_signal_push(end.runs, end.held);
    }
}

/// The signal of a burst with one more duration is the signal of the burst
/// followed by that duration at the level of its position.
proof fn lemma_signal_push(pulses: Seq<u64>, us: u64)
    ensures
        signal(burst(pulses.push(us))) == signal(burst(pulses)) + steady(
            level_at(pulses.len() as int),
            us as nat,
        ),
{
    assert(burst(pulses.push(us)).drop_last() =~= burst(pulses));
}

/// Requests taken one after another are requests taken as one sequence.
pub proof fn lemma_hold_all_concat(start: PulseTrain, first: Seq<Hold>, second: Seq<Hold>)
    ensures
        start.hold_all(first + second) == start.hold_all(first).hold_all(second),
    decreases second.len(),
{
    if second.len() > 0 {
        lemma_hold_all_concat(start, first, second.drop_last());
        assert((first + second).drop_last() =~= first + second.drop_last());
    }
}

/// Two requests taken as a sequence are the two taken in turn.
pub proof fn lemma_hold_all_two(start: PulseTrain, first: Hold, second: Hold)
    ensures
        start.hold_all(seq![first, second]) == start.hold(first.level, first.us).hold(
            second.level,
            second.us,
        ),
{
    let both = seq![first, second];
    assert(both.drop_last() =~= seq![first]);
    assert(seq![first].drop_last() =~= Seq::<Hold>::empty());
    assert(start.hold_all(Seq::<Hold>::empty()) == start);
    assert(start.hold_all(seq![first]) == start.hold(first.level, first.us));
}

/// A burst of even length followed by another is the burst of both.
pub proof fn lemma_drive_concat(start: PulseTrain, first: Seq<u64>, second: Seq<u64>)
    requires
        first.len() % 2 == 0,
    ensures
        start.drive(first + second) == start.drive(first).drive(second),
{
    assert(burst(first + second) =~= burst(first) + burst(second));
    lemma_hold_all_concat(start, burst(first), burst(second));
}

/// A burst of two durations is a hold high and a hold low.
pub proof fn lemma_drive_two(start: PulseTrain, high: u64, low: u64)
    ensures
        start.drive(seq![high, low]) == start.hold(IrOutputState::IrHigh, high).hold(
            IrOutputState::IrLow,
            low,
        ),
{
    let first = Hold { level: IrOutputState::IrHigh, us: high };
    let second = Hold { level: IrOutputState::IrLow, us: low };
    assert(burst(seq![high, low]) =~= seq![first, second]);
    lemma_hold_all_two(start, first, second);
}

/// What a burst without a 0 leaves behind: its durations come out as they
/// went in, each a run of its own, but for the first, which lengthens the
/// open run if that is high.
pub proof fn lemma_drive_output(start: PulseTrain, pulses: Seq<u64>)
    requires
        pulses.len() > 0,
        all_positive(pulses),
    ensures
        start.drive(pulses).level == level_at(pulses.len() - 1),
        start.level == IrOutputState::IrHigh ==> start.drive(pulses).finish() == start.runs
            + seq![sat_add(start.held, pulses[0])] + pulses.skip(1),
        start.level == IrOutputState::IrLow ==> start.drive(pulses).finish() == start.runs
            + seq![start.held] + pulses,
    decreases pulses.len(),
{
    let before = pulses.drop_last();
    assert(burst(pulses).drop_last() =~= burst(before));
    if before.len() > 0 {
        // The last request is for the other level than the one before it:
        // it closes that run and opens its own.
        lemma_drive_output(start, before);
    }
}

/// From a fresh encoder, a burst without a 0 is its own output.
pub proof fn lemma_drive_fresh(pulses: Seq<u64>)
    requires
        pulses.len() > 0,
        all_positive(pulses),
    ensures
        PulseTrain::fresh().drive(pulses).finish() == pulses,
{
    lemma_drive_output(PulseTrain::fresh(), pulses);
}

} // verus!
