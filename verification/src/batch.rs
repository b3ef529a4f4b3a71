//! A list of commands run one after another over one session, and what was
//! collected for each.
//!
//! A command that fails stops the batch, whatever the policy: what fails is
//! the session, and nothing more can be sent over it. The policies differ in
//! what they make of a reply without output.

use vstd::prelude::*;
use crate::connection::{
    transport_error, Arrival, ConnError, Connection, Phase, Received, Session, Transport,
};
use crate::frame::{encoded, Frame, PacketKind};
use crate::text::views;

verus! {

/// What a batch makes of a reply without output.
#[derive(Clone, Copy, Debug, PartialEq, Eq, Structural)]
pub enum Policy {
    /// Every command must answer with output: a reply without output stops
    /// the batch, as a failure does.
    FailFast,
    /// A reply without output is taken for what it is, and the batch goes
    /// on. Only a failure stops it.
    BestEffort,
}

/// The outcome of one command.
#[derive(Clone, Debug, PartialEq, Eq)]
pub enum CommandResult {
    /// The server answered with output.
    Text(String),
    /// The server took the command and answered with no output.
    Empty,
    /// The command could not be sent, or no reply to it was accepted.
    Failed(ConnError),
}

/// The outcome of one command, as the contracts speak of it.
pub ghost enum Outcome {
    Text(Seq<char>),
    Empty,
    Failed(ConnError),
}

/// Why a batch stopped before all its commands had run.
#[derive(Clone, Copy, Debug, PartialEq, Eq, Structural)]
pub enum BatchError {
    /// A command failed. The session is over.
    Failed(ConnError),
    /// A command answered without output, under `FailFast`.
    NoOutput,
}

impl View for CommandResult {
    type V = Outcome;

    open spec fn view(&self) -> Outcome {
        match self {
            CommandResult::Text(s) => Outcome::Text(s@),
            CommandResult::Empty => Outcome::Empty,
            CommandResult::Failed(e) => Outcome::Failed(*e),
        }
    }
}

/// The views of a list of outcomes.
pub open spec fn outcomes(v: Seq<CommandResult>) -> Seq<Outcome> {
    Seq::new(v.len(), |i: int| v[i]@)
}

/// Why an outcome stops a batch, if it does: a failure always, a reply
/// without output under `FailFast`, a reply with output never.
pub open spec fn stops(policy: Policy, outcome: Outcome) -> Option<BatchError> {
    match outcome {
        Outcome::Failed(e) => Some(BatchError::Failed(e)),
        Outcome::Empty => if policy == Policy::FailFast {
            Some(BatchError::NoOutput)
        } else {
            None
        },
        Outcome::Text(_) => None,
    }
}

/// A batch as the contracts speak of it.
pub ghost struct Run {
    pub commands: Seq<Seq<char>>,
    pub policy: Policy,
    /// The outcomes so far: the outcome at `i` belongs to the command at `i`.
    pub results: Seq<Outcome>,
    /// Why the batch stopped, if it did.
    pub error: Option<BatchError>,
}

impl Run {
    /// A batch with nothing run yet.
    pub open spec fn fresh(commands: Seq<Seq<char>>, policy: Policy) -> Run {
        Run { commands, policy, results: Seq::empty(), error: None }
    }

    /// There is no more outcome than commands; a batch that stopped has
    /// commands left; and no result is an outcome that stops a batch.
    pub open spec fn wf(self) -> bool {
        &&& self.results.len() <= self.commands.len()
        &&& self.error is Some ==> self.results.len() < self.commands.len()
        &&& forall|i: int|
            0 <= i < self.results.len() ==> stops(self.policy, #[trigger] self.results[i]) is None
    }

    /// The position of the command to run next: the first without an outcome,
    /// unless the batch has stopped.
    pub open spec fn pending(self) -> Option<int> {
        if self.error is None && self.results.len() < self.commands.len() {
            Some(self.results.len() as int)
        } else {
            None
        }
    }

    /// The batch after the pending command ended with `outcome`. An outcome
    /// that stops the batch is kept apart as its error, and no command is
    /// pending any more; any other takes the command's place in the
    /// results. With nothing pending the batch stays as it is.
    pub open spec fn record(self, outcome: Outcome) -> Run {
        if self.pending() is None {
            self
        } else {
            match stops(self.policy, outcome) {
                Some(error) => Run { error: Some(error), ..self },
                None => Run { results: self.results.push(outcome), ..self },
            }
        }
    }

    /// The batch after the outcomes of its next commands, in order.
    pub open spec fn record_all(self, outcomes: Seq<Outcome>) -> Run
        decreases outcomes.len(),
    {
        if outcomes.len() == 0 {
            self
        } else {
            self.record(outcomes[0]).record_all(outcomes.drop_first())
        }
    }
}

/// The first position in `outcomes` of one that stops a batch, or their
/// number where none does.
pub open spec fn first_stop(policy: Policy, outcomes: Seq<Outcome>) -> int
    decreases outcomes.len(),
{
    if outcomes.len() == 0 {
        0
    } else if stops(policy, outcomes[0]) is Some {
        0
    } else {
        1 + first_stop(policy, outcomes.drop_first())
    }
}

/// Recording keeps a batch well formed.
pub proof fn lemma_record_wf(run: Run, outcome: Outcome)
    requires
        run.wf(),
    ensures
        run.record(outcome).wf(),
{
}

/// A failure stops a batch under either policy: it becomes the error of the
/// batch, no command is pending any more, and no later outcome is taken.
pub proof fn lemma_failure_stops(run: Run, e: ConnError, later: Outcome)
    requires
        run.pending() is Some,
    ensures
        run.record(Outcome::Failed(e)).error == Some(BatchError::Failed(e)),
        run.record(Outcome::Failed(e)).results == run.results,
        run.record(Outcome::Failed(e)).pending() is None,
        run.record(Outcome::Failed(e)).record(later) == run.record(Outcome::Failed(e)),
{
}

/// Outcomes keep their places. Whatever the outcomes of the commands of a
/// fresh batch are, the result at each position is the outcome of the
/// command at that position; the results are the outcomes before the first
/// that stops the batch, and that one decides the error of the batch.
pub proof fn lemma_results_in_order(
    commands: Seq<Seq<char>>,
    policy: Policy,
    outcomes: Seq<Outcome>,
)
    requires
        outcomes.len() <= commands.len(),
    ensures
        ({
            let run = Run::fresh(commands, policy).record_all(outcomes);
            let stop = first_stop(policy, outcomes);
            &&& run.wf()
            &&& run.commands == commands
            &&& run.results.len() == stop
            &&& forall|i: int| 0 <= i < run.results.len() ==> run.results[i] == outcomes[i]
            &&& if stop < outcomes.len() {
                run.error == stops(policy, outcomes[stop]) && run.error is Some
            } else {
                run.error is None
            }
        }),
{
    lemma_record_all(Run::fresh(commands, policy), outcomes);
    lemma_first_stop(policy, outcomes);
    let run = Run::fresh(commands, policy).record_all(outcomes);
    let stop = first_stop(policy, outcomes);
    assert(run.results =~= outcomes.take(stop));
}

/// Where the first stop is: within the outcomes, at an outcome that stops
/// unless at the end, with none that stops before it.
pub proof fn lemma_first_stop(policy: Policy, outcomes: Seq<Outcome>)
    ensures
        0 <= first_stop(policy, outcomes) <= outcomes.len(),
        first_stop(policy, outcomes) < outcomes.len() ==> stops(
            policy,
            outcomes[first_stop(policy, outcomes)],
        ) is Some,
        forall|i: int|
            0 <= i < first_stop(policy, outcomes) ==> stops(policy, #[trigger] outcomes[i])
                is None,
    decreases outcomes.len(),
{
    if outcomes.len() > 0 && stops(policy, outcomes[0]) is None {
        let rest = outcomes.drop_first();
        lemma_first_stop(policy, rest);
        assert forall|i: int| 0 <= i < first_stop(policy, outcomes) implies stops(
            policy,
            #[trigger] outcomes[i],
        ) is None by {
            if i > 0 {
                assert(outcomes[i] == rest[i - 1]);
            }
        }
    }
}

/// What recording a run of outcomes comes to, from any batch that has not
/// stopped: those before the first that stops are appended, and that one
/// stops the batch.
proof fn lemma_record_all(run: Run, outcomes: Seq<Outcome>)
    requires
        run.wf(),
        run.error is None,
        run.results.len() + outcomes.len() <= run.commands.len(),
    ensures
        ({
            let after = run.record_all(outcomes);
            let stop = first_stop(run.policy, outcomes);
            &&& after.wf()
            &&& after.commands == run.commands
            &&& after.policy == run.policy
            &&& after.results == run.results + outcomes.take(stop)
            &&& if stop < outcomes.len() {
                after.error == stops(run.policy, outcomes[stop])
            } else {
                after.error is None
            }
        }),
    decreases outcomes.len(),
{
    lemma_first_stop(run.policy, outcomes);
    if outcomes.len() == 0 {
        assert(run.results + outcomes.take(0) =~= run.results);
    } else {
        let first = outcomes[0];
        let rest = outcomes.drop_first();
        let next = run.record(first);
        if stops(run.policy, first) is Some {
            lemma_stopped_stays(next, rest);
            assert(run.results + outcomes.take(0) =~= run.results);
        } else {
            lemma_record_all(next, rest);
            lemma_first_stop(run.policy, rest);
            let stop = first_stop(run.policy, rest);
            assert(run.results.push(first) + rest.take(stop) =~= run.results + outcomes.take(
                stop + 1,
            ));
            if stop < rest.len() {
                assert(rest[stop] == outcomes[stop + 1]);
            }
        }
    }
}

/// A batch with nothing pending takes no more outcomes.
proof fn lemma_stopped_stays(run: Run, outcomes: Seq<Outcome>)
    requires
        run.pending() is None,
    ensures
        run.record_all(outcomes) == run,
    decreases outcomes.len(),
{
    if outcomes.len() > 0 {
        lemma_stopped_stays(run, outcomes.drop_first());
    }
}

/// A list of commands and the outcomes collected for them so far.
pub struct Batch {
    commands: Vec<String>,
    policy: Policy,
    results: Vec<CommandResult>,
    error: Option<BatchError>,
}

/// What a batch came to.
#[derive(Clone, Debug, PartialEq, Eq)]
pub struct BatchOutcome {
    /// One outcome for each command that was run to its end before the
    /// batch stopped, in the order of the commands. None of them is a
    /// failure.
    pub results: Vec<CommandResult>,
    /// Why the batch stopped, if it did: the command at the place behind
    /// the last result is the one that stopped it.
    pub error: Option<BatchError>,
}

impl View for Batch {
    type V = Run;

    closed spec fn view(&self) -> Run {
        Run {
            commands: views(self.commands@),
            policy: self.policy,
            results: outcomes(self.results@),
            error: self.error,
        }
    }
}

/// What a batch does next over a session: it frames the pending command. A
/// command that the session does not frame has failed, which stops the
/// batch. The result is the batch, the session, and the frame to send, if
/// any: with no frame the batch is over.
pub open spec fn advanced(run: Run, session: Session) -> (Run, Session, Option<Seq<u8>>) {
    match run.pending() {
        None => (run, session, None),
        Some(at) => {
            let (next, framed) = session.after_begin(run.commands[at]);
            match framed {
                Ok(bytes) => (run, next, Some(bytes)),
                Err(e) => (run.record(Outcome::Failed(e)), next, None),
            }
        },
    }
}

/// What a batch makes of a frame that arrived. The session says what the
/// frame was. The reply to the pending command is that command's outcome.
/// The empty tail of an earlier reply changes nothing, and there is more to
/// read if a command is pending. An arrival that ends the session is the
/// failure of the command that was pending, if one was.
/// The result is the batch, the session, and whether to read on.
pub open spec fn delivered(run: Run, session: Session, bytes: Seq<u8>) -> (Run, Session, bool) {
    let (next, got) = session.after_arrival(bytes);
    match got {
        Ok(Arrival::Discarded) => (run, next, next.phase == Phase::Awaiting),
        Ok(Arrival::Text(text)) => (run.record(Outcome::Text(text)), next, false),
        Ok(Arrival::Empty) => (run.record(Outcome::Empty), next, false),
        Err(e) => (
            if session.phase == Phase::Awaiting {
                run.record(Outcome::Failed(e))
            } else {
                run
            },
            next,
            false,
        ),
    }
}

/// What a batch makes of a failure of the socket: the session is over, and
/// the command that was awaiting its reply has failed with the error that
/// the failure stands for.
pub open spec fn dropped(run: Run, session: Session, cause: Transport) -> (Run, Session) {
    (
        if session.phase == Phase::Awaiting {
            run.record(Outcome::Failed(transport_error(cause)))
        } else {
            run
        },
        session.closed(),
    )
}

/// The view of a frame that may be missing.
pub open spec fn frame_view(frame: Option<Vec<u8>>) -> Option<Seq<u8>> {
    match frame {
        Some(bytes) => Some(bytes@),
        None => None,
    }
}

impl Batch {
    /// A batch of `commands`, none run yet.
    pub fn new(commands: Vec<String>, policy: Policy) -> (batch: Batch)
        ensures
            batch@ == Run::fresh(views(commands@), policy),
    {
        let batch = Batch { commands, policy, results: Vec::new(), error: None };
        assert(outcomes(batch.results@) =~= Seq::<Outcome>::empty());
        batch
    }

    /// The position of the command to run next, if there is one.
    pub fn pending(&self) -> (at: Option<usize>)
        ensures
            match at {
                Some(i) => self@.pending() == Some(i as int),
                None => self@.pending() is None,
            },
    {
        if self.error.is_none() && self.results.len() < self.commands.len() {
            Some(self.results.len())
        } else {
            None
        }
    }

    /// The command at position `at`, if the batch has that many.
    pub fn command(&self, at: usize) -> (command: Option<&str>)
        ensures
            match command {
                Some(c) => at < self@.commands.len() && c@ == self@.commands[at as int],
                None => at >= self@.commands.len(),
            },
    {
        if at < self.commands.len() {
            Some(self.commands[at].as_str())
        } else {
            None
        }
    }

    /// The number of commands.
    pub fn len(&self) -> (n: usize)
        ensures
            n == self@.commands.len(),
    {
        self.commands.len()
    }

    /// Notes how the pending command ended.
    pub fn record(&mut self, outcome: CommandResult)
        ensures
            final(self)@ == old(self)@.record(outcome@),
    {
        if self.error.is_some() || self.results.len() >= self.commands.len() {
            return ;
        }
        match outcome {
            CommandResult::Failed(e) => {
                self.error = Some(BatchError::Failed(e));
            },
            CommandResult::Empty => {
                if self.policy == Policy::FailFast {
                    self.error = Some(BatchError::NoOutput);
                } else {
                    self.push(CommandResult::Empty);
                }
            },
            CommandResult::Text(text) => {
                self.push(CommandResult::Text(text));
            },
        }
    }

    fn push(&mut self, outcome: CommandResult)
        ensures
            final(self)@ == (Run { results: old(self)@.results.push(outcome@), ..old(self)@ }),
    {
        proof {
            assert(outcomes(self.results@.push(outcome)) =~= outcomes(self.results@).push(
                outcome@,
            ));
        }
        self.results.push(outcome);
    }

    /// What the batch came to, as far as it has been run.
    pub fn finish(self) -> (out: BatchOutcome)
        ensures
            outcomes(out.results@) == self@.results,
            out.error == self@.error,
    {
        BatchOutcome { results: self.results, error: self.error }
    }

    /// Decides what to send next. With a frame, send it and read the reply;
    /// without, the batch is over.
    pub fn advance(&mut self, conn: &mut Connection) -> (frame: Option<Vec<u8>>)
        ensures
            (final(self)@, final(conn)@, frame_view(frame)) == advanced(old(self)@, old(conn)@),
    {
        let at = match self.pending() {
            Some(at) => at,
            None => {
                return None;
            },
        };
        assert(self@.commands[at as int] == self.commands@[at as int]@);
        match conn.begin(self.commands[at].as_str()) {
            Ok(bytes) => Some(bytes),
            Err(e) => {
                self.record(CommandResult::Failed(e));
                None
            },
        }
    }

    /// Takes a frame that arrived. Returns whether to read another frame
    /// before asking what to send next.
    pub fn arrived(&mut self, conn: &mut Connection, bytes: &[u8]) -> (again: bool)
        ensures
            (final(self)@, final(conn)@, again) == delivered(old(self)@, old(conn)@, bytes@),
    {
        let awaiting = conn.phase() == Phase::Awaiting;
        match conn.receive(bytes) {
            Ok(Received::Discarded) => awaiting,
            Ok(Received::Text(text)) => {
                self.record(CommandResult::Text(text));
                false
            },
            Ok(Received::Empty) => {
                self.record(CommandResult::Empty);
                false
            },
            Err(e) => {
                if awaiting {
                    self.record(CommandResult::Failed(e));
                }
                false
            },
        }
    }

    /// Takes a failure of the socket.
    pub fn lost(&mut self, conn: &mut Connection, cause: Transport)
        ensures
            (final(self)@, final(conn)@) == dropped(old(self)@, old(conn)@, cause),
    {
        let awaiting = conn.phase() == Phase::Awaiting;
        let e = conn.abort(cause);
        if awaiting {
            self.record(CommandResult::Failed(e));
        }
    }
}

/// Whatever fails, nothing is sent behind it. Where a batch over a session
/// has a command pending and the session does not frame it, be it that the
/// command cannot be framed or that the session is over, the batch sends
/// nothing, stops with that failure as its error, and sends nothing ever
/// after, over whatever session.
pub proof fn lemma_nothing_sent_behind_a_failure(run: Run, session: Session, other: Session)
    requires
        run.pending() is Some,
        session.after_begin(run.commands[run.pending()->Some_0]).1 is Err,
    ensures
        ({
            let (after, still, frame) = advanced(run, session);
            let e = session.after_begin(run.commands[run.pending()->Some_0]).1->Err_0;
            &&& frame is None
            &&& after.error == Some(BatchError::Failed(e))
            &&& after.results == run.results
            &&& after.pending() is None
            &&& advanced(after, other) == (after, other, None::<Seq<u8>>)
        }),
{
}

/// A failure of the socket, or an arrival that ends the session, while a
/// command awaits its reply stops the batch under either policy: the
/// failure is its error, the session is over, and the batch sends nothing
/// more.
pub proof fn lemma_lost_reply_stops(run: Run, session: Session, cause: Transport, bytes: Seq<u8>)
    requires
        run.pending() is Some,
        session.phase == Phase::Awaiting,
    ensures
        ({
            let (after, over) = dropped(run, session, cause);
            &&& after.error == Some(BatchError::Failed(transport_error(cause)))
            &&& over.phase == Phase::Closed
            &&& advanced(after, over).2 is None
        }),
        ({
            let (next, got) = session.after_arrival(bytes);
            let (after, over, again) = delivered(run, session, bytes);
            got is Err ==> after.error == Some(BatchError::Failed(got->Err_0)) && over.phase
                == Phase::Closed && !again && advanced(after, over).2 is None
        }),
{
}

/// What a batch sends is its pending command, under the session's next id,
/// and only while the session is ready.
pub proof fn lemma_sends_the_pending_command(run: Run, session: Session)
    requires
        advanced(run, session).2 is Some,
    ensures
        ({
            let (after, waiting, frame) = advanced(run, session);
            &&& session.phase == Phase::Ready
            &&& waiting.phase == Phase::Awaiting
            &&& after == run
            &&& run.pending() is Some
            &&& frame == Some(
                encoded(
                    Frame {
                        id: waiting.last_id,
                        kind: PacketKind::Command,
                        body: run.commands[run.pending()->Some_0],
                    },
                ),
            )
        }),
{
}

} // verus!
