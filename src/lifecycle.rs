//! The command pump and the close watcher, and the running flag they share.
//!
//! The flag starts true and is only ever lowered: the pump lowers it when its
//! queue closes, the close watcher when the transport's driver ends.
use vstd::prelude::*;
use std::sync::Arc;
use std::sync::atomic::{AtomicBool, Ordering};
use nvim_rs::error::LoopError;
use tokio::task::JoinError;

verus! {

#[verifier::external_type_specification]
#[verifier::external_body]
pub struct ExLoopError(LoopError);

#[verifier::external_type_specification]
#[verifier::external_body]
pub struct ExJoinError(JoinError);

/// The shared running flag. It can be lowered and read, never raised again.
pub struct RunningFlag {
    inner: Arc<AtomicBool>,
}

impl RunningFlag {
    /// A raised flag.
    pub fn new() -> (r: RunningFlag) {
        RunningFlag { inner: Arc::new(AtomicBool::new(true)) }
    }

    /// Another handle on the same flag.
    pub fn share(&self) -> (r: RunningFlag) {
        RunningFlag { inner: self.inner.clone() }
    }

    /// Whether the flag is still raised.
    pub fn is_running(&self) -> (r: bool) {
        self.inner.load(Ordering::Relaxed)
    }

    /// Lowers the flag.
    pub fn stop(&self) {
        self.inner.store(false, Ordering::Relaxed)
    }
}

/// An operation of a task on the running flag.
pub enum FlagOp {
    Read,
    Stop,
}

/// The value of the flag after each operation of `ops`, starting raised.
pub open spec fn flag_values(ops: Seq<FlagOp>) -> Seq<bool>
    decreases ops.len(),
{
    if ops.len() == 0 {
        seq![]
    } else {
        let before = flag_values(ops.drop_last());
        let prev = if before.len() == 0 {
            true
        } else {
            before.last()
        };
        before.push(if ops.last() is Stop {
            false
        } else {
            prev
        })
    }
}

proof fn lemma_flag_values_len(ops: Seq<FlagOp>)
    ensures
        flag_values(ops).len() == ops.len(),
    decreases ops.len(),
{
    if ops.len() > 0 {
        lemma_flag_values_len(ops.drop_last());
    }
}

/// Under any interleaving of the tasks' operations the flag never goes from
/// false back to true: once it reads false it reads false ever after, so it
/// changes at most once.
pub proof fn lemma_flag_only_falls(ops: Seq<FlagOp>, i: int, j: int)
    requires
        0 <= i <= j < ops.len(),
    ensures
        flag_values(ops).len() == ops.len(),
        !flag_values(ops)[i] ==> !flag_values(ops)[j],
    decreases ops.len(),
{
    lemma_flag_values_len(ops);
    let before = flag_values(ops.drop_last());
    lemma_flag_values_len(ops.drop_last());
    if j < ops.len() - 1 {
        lemma_flag_only_falls(ops.drop_last(), i, j);
    } else if i < j {
        lemma_flag_only_falls(ops.drop_last(), i, j - 1);
    }
}

/// What the pump's queue gave.
pub enum PumpEvent<C> {
    Received(C),
    /// Every producer has gone.
    Closed,
}

/// What the pump does next.
pub enum PumpAction<C> {
    /// Run the command in a task of its own, unordered against the others.
    Dispatch(C),
    /// Lower the running flag and leave the loop.
    Stop,
}

pub open spec fn pump_decision<C>(ev: PumpEvent<C>) -> PumpAction<C> {
    match ev {
        PumpEvent::Received(c) => PumpAction::Dispatch(c),
        PumpEvent::Closed => PumpAction::Stop,
    }
}

/// The pump's decision on what its queue gave.
pub fn pump_step<C>(ev: PumpEvent<C>) -> (r: PumpAction<C>)
    ensures
        r == pump_decision(ev),
{
    match ev {
        PumpEvent::Received(c) => PumpAction::Dispatch(c),
        PumpEvent::Closed => PumpAction::Stop,
    }
}

/// The commands that the pump dispatches, in the order received, when its
/// queue gives `evs`; nothing after the queue closes.
pub open spec fn dispatched<C>(evs: Seq<PumpEvent<C>>) -> Seq<C>
    decreases evs.len(),
{
    if evs.len() == 0 {
        seq![]
    } else {
        match pump_decision(evs[0]) {
            PumpAction::Dispatch(c) => seq![c] + dispatched(evs.drop_first()),
            PumpAction::Stop => seq![],
        }
    }
}

/// The queue events of submitting `cmds` and then closing the queue.
pub open spec fn submissions<C>(cmds: Seq<C>) -> Seq<PumpEvent<C>> {
    cmds.map_values(|c: C| PumpEvent::Received(c)) + seq![PumpEvent::Closed]
}

/// Submitting commands before the queue closes dispatches each of them
/// exactly once: no command is lost and none is repeated.
pub proof fn lemma_each_command_dispatched_once<C>(cmds: Seq<C>)
    ensures
        dispatched(submissions(cmds)) == cmds,
        dispatched(submissions(cmds)).len() == cmds.len(),
    decreases cmds.len(),
{
    if cmds.len() > 0 {
        lemma_each_command_dispatched_once(cmds.drop_first());
        assert(submissions(cmds).drop_first() =~= submissions(cmds.drop_first()));
        assert(cmds =~= seq![cmds[0]] + cmds.drop_first());
    } else {
        assert(submissions(cmds).drop_first() =~= Seq::<PumpEvent<C>>::empty());
    }
}

/// How the transport's driver ended.
#[derive(PartialEq, Eq, Structural, Clone, Copy, Debug)]
pub enum DriverOutcome {
    /// The driving task did not complete normally (it was aborted or panicked).
    Aborted,
    /// The driver reported an error; `channel_closed` when it is the ordinary
    /// closed-channel condition.
    Failed { channel_closed: bool },
    /// The driver completed without error.
    Finished,
}

/// Whether an outcome is logged at error level.
pub open spec fn is_abnormal(o: DriverOutcome) -> bool {
    match o {
        DriverOutcome::Aborted => true,
        DriverOutcome::Failed { channel_closed } => !channel_closed,
        DriverOutcome::Finished => false,
    }
}

/// Relies on nvim_rs::error::LoopError::is_channel_closed: whether the
/// driver's error is a read that met the end of the stream.
#[verifier::external_body]
fn loop_error_is_channel_closed(e: &LoopError) -> (r: bool) {
    e.is_channel_closed()
}

/// Classifies what the driving task's join handle gave.
pub fn driver_outcome(joined: &Result<Result<(), Box<LoopError>>, JoinError>) -> (r:
    DriverOutcome)
    ensures
        joined is Err <==> r is Aborted,
        joined matches Ok(Ok(_)) <==> r is Finished,
        joined matches Ok(Err(_)) <==> r is Failed,
{
    match joined {
        Err(_) => DriverOutcome::Aborted,
        Ok(Ok(())) => DriverOutcome::Finished,
        Ok(Err(e)) => DriverOutcome::Failed { channel_closed: loop_error_is_channel_closed(e) },
    }
}

/// What the close watcher does once the driver has ended.
#[derive(PartialEq, Eq, Structural, Clone, Copy, Debug)]
pub struct WatchVerdict {
    /// Log the outcome at error level, once.
    pub log_error: bool,
    /// Lower the running flag.
    pub stop: bool,
}

/// The close watcher's decision: the flag is lowered in every outcome, and
/// only an aborted driver or an error other than a closed channel is logged.
pub fn watch_verdict(o: DriverOutcome) -> (r: WatchVerdict)
    ensures
        r.stop,
        r.log_error == is_abnormal(o),
{
    let log_error = match o {
        DriverOutcome::Aborted => true,
        DriverOutcome::Failed { channel_closed } => !channel_closed,
        DriverOutcome::Finished => false,
    };
    WatchVerdict { log_error, stop: true }
}

} // verus!
