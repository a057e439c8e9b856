//! The counters by which a worker tells what it has been handed and what it has done, and
//! the futures that wait on them.
use vstd::prelude::*;
use std::sync::atomic::AtomicU64;
use std::sync::atomic::Ordering;
use std::sync::Arc;

verus! {

/// `Arc::clone`: the clone points to the counter that the original points to.
#[verifier::external_body]
fn share(counter: &Arc<AtomicU64>) -> (r: Arc<AtomicU64>)
    ensures
        r == *counter,
{
    counter.clone()
}

/// The sequence number after `pending`; the numbers wrap around.
pub open spec fn spec_next_pending(pending: u64) -> u64 {
    if pending == u64::MAX {
        0
    } else {
        (pending + 1) as u64
    }
}

/// Whether an operation with the sequence number `pending` is done, on a worker that has
/// completed `completed` operations.
pub open spec fn spec_ready(pending: u64, completed: u64) -> bool {
    completed >= pending
}

/// The sequence number after `pending` is another number: the future of a later operation
/// of a worker is not that of the operation before.
pub proof fn lemma_next_pending_differs(pending: u64)
    ensures
        spec_next_pending(pending) != pending,
{
}

/// The sequence number after `pending`.
pub fn next_pending(pending: u64) -> (r: u64)
    ensures
        r == spec_next_pending(pending),
{
    if pending == u64::MAX {
        0
    } else {
        pending + 1
    }
}

/// Whether an operation with the sequence number `pending` is done.
pub fn is_ready(pending: u64, completed: u64) -> (r: bool)
    ensures
        r == spec_ready(pending, completed),
        pending == 0 ==> r,
{
    completed >= pending
}

/// The two counters of a worker, shared with the futures it hands out: how many operations it
/// has been handed, and how many of them it has completed.
#[derive(Debug)]
pub struct WorkerState {
    pub pending: Arc<AtomicU64>,
    pub completed: Arc<AtomicU64>,
}

/// The promise of one operation: it is done when its worker has completed `pending`
/// operations.
#[derive(Debug)]
pub struct WorkerFuture {
    pub pending: u64,
    pub completed: Arc<AtomicU64>,
}

impl WorkerState {
    /// A worker's counters, both at 0.
    pub fn new() -> (r: WorkerState) {
        WorkerState { pending: Arc::new(AtomicU64::new(0)), completed: Arc::new(AtomicU64::new(0)) }
    }

    /// Counts one more operation handed to the worker, and gives the future that is ready
    /// when the worker has completed it. Other threads count at the same time: the number is
    /// the one after what this call found.
    pub fn next(&self) -> (r: WorkerFuture)
        ensures
            r.completed == self.completed,
    {
        let found: u64 = self.pending.fetch_add(1, Ordering::SeqCst);
        WorkerFuture { pending: next_pending(found), completed: share(&self.completed) }
    }

    /// Counts one more operation completed.
    pub fn finish(&self) {
        let _ = self.completed.fetch_add(1, Ordering::SeqCst);
    }

    /// How many operations the worker has been handed so far.
    pub fn pending(&self) -> (r: u64) {
        self.pending.load(Ordering::SeqCst)
    }

    /// How many operations the worker has completed so far.
    pub fn completed(&self) -> (r: u64) {
        self.completed.load(Ordering::SeqCst)
    }
}

impl WorkerFuture {
    /// A future that is ready from the start: it waits for no operation.
    pub fn new() -> (r: WorkerFuture)
        ensures
            r.pending == 0,
    {
        WorkerFuture { pending: 0, completed: Arc::new(AtomicU64::new(0)) }
    }

    /// Another handle on the same promise.
    pub fn duplicate(&self) -> (r: WorkerFuture)
        ensures
            r == *self,
    {
        WorkerFuture { pending: self.pending, completed: share(&self.completed) }
    }

    /// Whether the operation is done, by what the worker has completed at this moment.
    pub fn ready(&self) -> (r: bool)
        ensures
            self.pending == 0 ==> r,
    {
        is_ready(self.pending, self.completed.load(Ordering::SeqCst))
    }
}

/// Whether every operation with a sequence number of `pending` is done, where the worker of
/// each has completed as many operations as `completed` says at its place.
pub open spec fn all_ready(pending: Seq<u64>, completed: Seq<u64>) -> bool {
    forall|i: int|
        0 <= i < pending.len() && i < completed.len() ==> spec_ready(#[trigger] pending[i], completed[i])
}

/// Whether every one of the futures is ready, each by what its worker has completed.
pub fn futures_ready(pending: &[u64], completed: &[u64]) -> (r: bool)
    ensures
        r == all_ready(pending@, completed@),
{
    let mut i: usize = 0;
    while i < pending.len() && i < completed.len()
        invariant
            forall|j: int| 0 <= j < i ==> spec_ready(#[trigger] pending@[j], completed@[j]),
        decreases pending.len() - i,
    {
        if !is_ready(pending[i], completed[i]) {
            assert(!spec_ready(pending@[i as int], completed@[i as int]));
            return false;
        }
        i = i + 1;
    }
    true
}

/// The kinds of operation that a worker is handed.
#[derive(Clone, Copy, Debug, PartialEq, Eq, Structural)]
pub enum OpKind {
    Upload,
    Download,
    Compute,
}

/// A step within one operation of a worker.
#[derive(Clone, Copy, Debug, PartialEq, Eq, Structural)]
pub enum Stage {
    /// The commands are being recorded.
    Recording,
    /// The staging buffer is being handed to the caller.
    Staging,
    /// The worker waits for the caller to let it submit.
    Awaiting,
    /// The worker looks whether the futures that the operation waits for are ready.
    Polling,
    /// The worker sleeps before it looks again.
    Sleeping,
    /// The commands are being submitted.
    Submitting,
    /// The future of the operation is being handed to the caller.
    Promising,
    /// The worker waits for the fence.
    Fencing,
    /// The operation is being counted as completed.
    Finishing,
    /// The worker waits for the caller to release the staging buffer.
    Releasing,
    /// The descriptor pool is being reset.
    Resetting,
}

/// Where a worker is in its loop: which of its actions is under way.
#[derive(Clone, Copy, Debug, PartialEq, Eq, Structural)]
pub enum WorkerPhase {
    /// The worker has not begun.
    Idle,
    /// The command buffer is being prepared and the fence reset.
    Preparing,
    /// The worker waits for an operation.
    Receiving,
    /// An operation is at a stage.
    Running(OpKind, Stage),
    /// The worker has left its loop.
    Exited,
}

/// What the action of a worker ended in.
#[derive(Clone, Copy, Debug, PartialEq, Eq, Structural)]
pub enum WorkerEvent {
    /// The action is done.
    Done,
    /// The action failed in the device.
    Failed,
    /// An operation of this kind was received.
    Received(OpKind),
    /// The other end of a channel is gone.
    Disconnected,
    /// Every future that the operation waits for is ready.
    Ready,
    /// Some future is not ready.
    Pending,
    /// Some future is not ready, and the engine has exited.
    Lost,
}

/// What a worker does next.
#[derive(Clone, Copy, Debug, PartialEq, Eq, Structural)]
pub enum WorkerAction {
    /// Reset the command pool, begin a command buffer, reset the fence.
    Prepare,
    /// Wait for an operation.
    Receive,
    /// Record the commands of the operation and end the command buffer.
    Record(OpKind),
    /// Hand the staging buffer to the caller.
    SendStaging,
    /// Wait until the caller lets the worker submit.
    AwaitSubmit,
    /// Look whether the futures that the operation waits for are ready.
    Poll,
    /// Sleep a moment.
    Sleep,
    /// Submit the command buffer with the fence.
    Submit,
    /// Take the next future of the worker and hand it to the caller.
    SendFuture,
    /// Wait for the fence.
    WaitFence,
    /// Count the operation as completed.
    Finish,
    /// Wait until the caller has released the staging buffer.
    AwaitRelease,
    /// Reset the descriptor pool.
    ResetDescriptors,
    /// Leave the loop: the engine is told that a worker has exited.
    Exit,
}

/// What looking at the futures ended in: they are ready, or the engine has exited, or the
/// worker has to look again.
pub fn poll_event(ready: bool, exited: bool) -> (r: WorkerEvent)
    ensures
        r == if ready {
            WorkerEvent::Ready
        } else if exited {
            WorkerEvent::Lost
        } else {
            WorkerEvent::Pending
        },
{
    if ready {
        WorkerEvent::Ready
    } else if exited {
        WorkerEvent::Lost
    } else {
        WorkerEvent::Pending
    }
}

/// The stage that follows `stage` of an operation of kind `op` when the action of `stage`
/// is done, if one follows: else the operation is over.
pub open spec fn next_stage(op: OpKind, stage: Stage) -> Option<Stage> {
    match op {
        OpKind::Upload => match stage {
            Stage::Staging => Some(Stage::Recording),
            Stage::Recording => Some(Stage::Awaiting),
            Stage::Awaiting => Some(Stage::Submitting),
            Stage::Submitting => Some(Stage::Promising),
            Stage::Promising => Some(Stage::Fencing),
            Stage::Fencing => Some(Stage::Finishing),
            _ => None,
        },
        OpKind::Download => match stage {
            Stage::Recording => Some(Stage::Awaiting),
            Stage::Awaiting => Some(Stage::Submitting),
            Stage::Submitting => Some(Stage::Fencing),
            Stage::Fencing => Some(Stage::Staging),
            Stage::Staging => Some(Stage::Releasing),
            _ => None,
        },
        OpKind::Compute => match stage {
            Stage::Recording => Some(Stage::Polling),
            Stage::Sleeping => Some(Stage::Polling),
            Stage::Submitting => Some(Stage::Promising),
            Stage::Promising => Some(Stage::Fencing),
            Stage::Fencing => Some(Stage::Finishing),
            Stage::Finishing => Some(Stage::Resetting),
            _ => None,
        },
    }
}

/// The stage at which an operation of kind `op` begins.
pub open spec fn first_stage(op: OpKind) -> Stage {
    match op {
        OpKind::Upload => Stage::Staging,
        _ => Stage::Recording,
    }
}

/// The action of a stage.
pub open spec fn stage_action(op: OpKind, stage: Stage) -> WorkerAction {
    match stage {
        Stage::Recording => WorkerAction::Record(op),
        Stage::Staging => WorkerAction::SendStaging,
        Stage::Awaiting => WorkerAction::AwaitSubmit,
        Stage::Polling => WorkerAction::Poll,
        Stage::Sleeping => WorkerAction::Sleep,
        Stage::Submitting => WorkerAction::Submit,
        Stage::Promising => WorkerAction::SendFuture,
        Stage::Fencing => WorkerAction::WaitFence,
        Stage::Finishing => WorkerAction::Finish,
        Stage::Releasing => WorkerAction::AwaitRelease,
        Stage::Resetting => WorkerAction::ResetDescriptors,
    }
}

/// Whether a worker goes on when the caller's end of a channel is gone at `stage` of an
/// operation of kind `op`: it does where it only tells the caller something, or waits for
/// the caller of an upload.
pub open spec fn survives_disconnect(op: OpKind, stage: Stage) -> bool {
    match stage {
        Stage::Promising => true,
        Stage::Releasing => true,
        Stage::Staging => op == OpKind::Download,
        Stage::Awaiting => op == OpKind::Upload,
        _ => false,
    }
}

/// One step of a worker: the phase that follows `phase` when its action ends in `event`,
/// and the action of that phase.
///
/// A worker prepares, receives an operation and takes it through its stages, and begins
/// anew. It submits a compute operation only once every future that the operation waits for
/// is ready. It leaves its loop when the device fails, when the channel of operations is
/// closed, or when the engine has exited while it waits for futures.
pub open spec fn spec_step(phase: WorkerPhase, event: WorkerEvent) -> (WorkerPhase, WorkerAction) {
    let exit = (WorkerPhase::Exited, WorkerAction::Exit);
    let again = (WorkerPhase::Preparing, WorkerAction::Prepare);
    match phase {
        WorkerPhase::Idle => again,
        WorkerPhase::Preparing => if event == WorkerEvent::Done {
            (WorkerPhase::Receiving, WorkerAction::Receive)
        } else {
            exit
        },
        WorkerPhase::Receiving => match event {
            WorkerEvent::Received(op) => (
                WorkerPhase::Running(op, first_stage(op)),
                stage_action(op, first_stage(op)),
            ),
            _ => exit,
        },
        WorkerPhase::Running(op, stage) => {
            let goes_on = if stage == Stage::Polling {
                event == WorkerEvent::Ready || event == WorkerEvent::Pending
            } else {
                event == WorkerEvent::Done || (event == WorkerEvent::Disconnected
                    && survives_disconnect(op, stage))
            };
            if !goes_on {
                exit
            } else if stage == Stage::Polling {
                if event == WorkerEvent::Ready {
                    (WorkerPhase::Running(op, Stage::Submitting), WorkerAction::Submit)
                } else {
                    (WorkerPhase::Running(op, Stage::Sleeping), WorkerAction::Sleep)
                }
            } else {
                match next_stage(op, stage) {
                    Some(next) => (WorkerPhase::Running(op, next), stage_action(op, next)),
                    None => again,
                }
            }
        },
        WorkerPhase::Exited => exit,
    }
}

/// The stage that follows `stage`.
pub fn stage_after(op: OpKind, stage: Stage) -> (r: Option<Stage>)
    ensures
        r == next_stage(op, stage),
{
    match op {
        OpKind::Upload => match stage {
            Stage::Staging => Some(Stage::Recording),
            Stage::Recording => Some(Stage::Awaiting),
            Stage::Awaiting => Some(Stage::Submitting),
            Stage::Submitting => Some(Stage::Promising),
            Stage::Promising => Some(Stage::Fencing),
            Stage::Fencing => Some(Stage::Finishing),
            _ => None,
        },
        OpKind::Download => match stage {
            Stage::Recording => Some(Stage::Awaiting),
            Stage::Awaiting => Some(Stage::Submitting),
            Stage::Submitting => Some(Stage::Fencing),
            Stage::Fencing => Some(Stage::Staging),
            Stage::Staging => Some(Stage::Releasing),
            _ => None,
        },
        OpKind::Compute => match stage {
            Stage::Recording => Some(Stage::Polling),
            Stage::Sleeping => Some(Stage::Polling),
            Stage::Submitting => Some(Stage::Promising),
            Stage::Promising => Some(Stage::Fencing),
            Stage::Fencing => Some(Stage::Finishing),
            Stage::Finishing => Some(Stage::Resetting),
            _ => None,
        },
    }
}

/// The action of a stage.
pub fn action_of(op: OpKind, stage: Stage) -> (r: WorkerAction)
    ensures
        r == stage_action(op, stage),
{
    match stage {
        Stage::Recording => WorkerAction::Record(op),
        Stage::Staging => WorkerAction::SendStaging,
        Stage::Awaiting => WorkerAction::AwaitSubmit,
        Stage::Polling => WorkerAction::Poll,
        Stage::Sleeping => WorkerAction::Sleep,
        Stage::Submitting => WorkerAction::Submit,
        Stage::Promising => WorkerAction::SendFuture,
        Stage::Fencing => WorkerAction::WaitFence,
        Stage::Finishing => WorkerAction::Finish,
        Stage::Releasing => WorkerAction::AwaitRelease,
        Stage::Resetting => WorkerAction::ResetDescriptors,
    }
}

/// One step of a worker.
pub fn step(phase: WorkerPhase, event: WorkerEvent) -> (r: (WorkerPhase, WorkerAction))
    ensures
        r == spec_step(phase, event),
{
    match phase {
        WorkerPhase::Idle => (WorkerPhase::Preparing, WorkerAction::Prepare),
        WorkerPhase::Preparing => match event {
            WorkerEvent::Done => (WorkerPhase::Receiving, WorkerAction::Receive),
            _ => (WorkerPhase::Exited, WorkerAction::Exit),
        },
        WorkerPhase::Receiving => match event {
            WorkerEvent::Received(op) => {
                let first = match op {
                    OpKind::Upload => Stage::Staging,
                    _ => Stage::Recording,
                };
                (WorkerPhase::Running(op, first), action_of(op, first))
            },
            _ => (WorkerPhase::Exited, WorkerAction::Exit),
        },
        WorkerPhase::Running(op, stage) => {
            match stage {
                Stage::Polling => match event {
                    WorkerEvent::Ready => (
                        WorkerPhase::Running(op, Stage::Submitting),
                        WorkerAction::Submit,
                    ),
                    WorkerEvent::Pending => (
                        WorkerPhase::Running(op, Stage::Sleeping),
                        WorkerAction::Sleep,
                    ),
                    _ => (WorkerPhase::Exited, WorkerAction::Exit),
                },
                _ => {
                    let survives: bool = match stage {
                        Stage::Promising => true,
                        Stage::Releasing => true,
                        Stage::Staging => op == OpKind::Download,
                        Stage::Awaiting => op == OpKind::Upload,
                        _ => false,
                    };
                    let goes_on: bool = match event {
                        WorkerEvent::Done => true,
                        WorkerEvent::Disconnected => survives,
                        _ => false,
                    };
                    if !goes_on {
                        (WorkerPhase::Exited, WorkerAction::Exit)
                    } else {
                        match stage_after(op, stage) {
                            Some(next) => (WorkerPhase::Running(op, next), action_of(op, next)),
                            None => (WorkerPhase::Preparing, WorkerAction::Prepare),
                        }
                    }
                },
            }
        },
        WorkerPhase::Exited => (WorkerPhase::Exited, WorkerAction::Exit),
    }
}

/// Whether an operation of kind `op` passes the stage `stage`.
pub open spec fn has_stage(op: OpKind, stage: Stage) -> bool {
    match op {
        OpKind::Upload => stage == Stage::Staging || stage == Stage::Recording || stage
            == Stage::Awaiting || stage == Stage::Submitting || stage == Stage::Promising || stage
            == Stage::Fencing || stage == Stage::Finishing,
        OpKind::Download => stage == Stage::Recording || stage == Stage::Awaiting || stage
            == Stage::Submitting || stage == Stage::Fencing || stage == Stage::Staging || stage
            == Stage::Releasing,
        OpKind::Compute => stage == Stage::Recording || stage == Stage::Polling || stage
            == Stage::Sleeping || stage == Stage::Submitting || stage == Stage::Promising || stage
            == Stage::Fencing || stage == Stage::Finishing || stage == Stage::Resetting,
    }
}

impl WorkerPhase {
    /// The phase is one that a worker gets to: an operation is at a stage that it passes.
    pub open spec fn wf(self) -> bool {
        self matches WorkerPhase::Running(op, stage) ==> has_stage(op, stage)
    }
}

/// A step takes a worker from a phase that it gets to, to a phase that it gets to.
pub proof fn lemma_step_wf(phase: WorkerPhase, event: WorkerEvent)
    requires
        phase.wf(),
    ensures
        spec_step(phase, event).0.wf(),
{
}

/// A worker submits a compute operation only when it has found every future that the
/// operation waits for ready; any other operation only when its caller has let it.
pub proof fn lemma_submit_after_ready(phase: WorkerPhase, event: WorkerEvent)
    requires
        phase.wf(),
        spec_step(phase, event).1 == WorkerAction::Submit,
    ensures
        (phase matches WorkerPhase::Running(op, stage) && match op {
            OpKind::Compute => stage == Stage::Polling && event == WorkerEvent::Ready,
            OpKind::Upload => stage == Stage::Awaiting,
            OpKind::Download => stage == Stage::Awaiting && event == WorkerEvent::Done,
        }),
{
}

/// A worker hands out the future of an operation only when the operation is submitted, and
/// counts an operation as completed only when its fence is signalled.
pub proof fn lemma_finish_after_fence(phase: WorkerPhase, event: WorkerEvent)
    ensures
        spec_step(phase, event).1 == WorkerAction::SendFuture ==> (phase matches WorkerPhase::Running(
            _,
            stage,
        ) && stage == Stage::Submitting && event == WorkerEvent::Done),
        spec_step(phase, event).1 == WorkerAction::Finish ==> (phase matches WorkerPhase::Running(
            _,
            stage,
        ) && stage == Stage::Fencing && event == WorkerEvent::Done),
{
}

/// A worker that has left its loop stays out, and a failure of the device makes it leave.
pub proof fn lemma_exit(phase: WorkerPhase, event: WorkerEvent)
    ensures
        phase == WorkerPhase::Exited ==> spec_step(phase, event) == (
            WorkerPhase::Exited,
            WorkerAction::Exit,
        ),
        event == WorkerEvent::Failed && phase != WorkerPhase::Idle ==> spec_step(phase, event) == (
            WorkerPhase::Exited,
            WorkerAction::Exit,
        ),
        event == WorkerEvent::Lost && phase != WorkerPhase::Idle ==> spec_step(phase, event) == (
            WorkerPhase::Exited,
            WorkerAction::Exit,
        ),
{
}

} // verus!
