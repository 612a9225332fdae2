//! The command queue and transport worker. The queue is the sole path to
//! the bus: a bounded FIFO of transaction requests, serviced by a worker
//! that owns the transport exclusively and finishes each transaction —
//! write, and for round-trips the read and the reply — before it takes
//! the next. The keep-alive task's decision step lives here too.

use vstd::prelude::*;
use crate::transport::ScriptedTransport;
use crate::session::spec_head;
use crate::session::spec_script_after_one;

verus! {

/// A transaction request: a fire-and-forget frame, or a frame that
/// expects a single reply within a timeout. (On the wire the reply goes
/// back through a one-shot channel; in this model the worker returns it.)
pub enum CanioCmd {
    UdsCmdNoResponse(Vec<u8>),
    UdsCmdWithResponse { buf: Vec<u8>, timeout_ms: u32 },
}

/// A command for the periodic keep-alive task.
#[derive(Debug, Clone, Copy, PartialEq, Eq, Structural)]
pub enum PrdCmd {
    /// Switch the persistent tester-present heartbeat on or off.
    PersistentTesterPresent(bool),
}

/// How many transaction requests the queue admits at once.
pub const UDS_QUEUE_CAPACITY: usize = 100;

/// How many keep-alive commands the periodic task's queue admits.
pub const PRD_QUEUE_CAPACITY: usize = 10;

/// The worker's fixed timeout for one blocking write, in milliseconds.
pub const WRITE_TIMEOUT_MS: u32 = 5;

/// The keep-alive frame's round-trip timeout, in milliseconds.
pub const TESTER_PRESENT_TIMEOUT_MS: u32 = 10;

/// The bounded multi-producer/single-consumer queue of transaction
/// requests: the strict admission and serialization point to the bus.
pub struct CmdQueue {
    items: Vec<CanioCmd>,
}

impl CmdQueue {
    /// The requests waiting to be serviced, oldest first.
    pub closed spec fn pending(&self) -> Seq<CanioCmd> {
        self.items@
    }

    /// An empty queue.
    pub fn new() -> (r: Self)
        ensures
            r.pending() == Seq::<CanioCmd>::empty(),
    {
        CmdQueue { items: Vec::new() }
    }

    /// How many requests are waiting.
    pub fn len(&self) -> (r: usize)
        ensures
            r == self.pending().len(),
    {
        self.items.len()
    }

    /// Enqueue a request at the back; a full queue returns it unchanged.
    pub fn send(&mut self, cmd: CanioCmd) -> (r: Result<(), CanioCmd>)
        ensures
            old(self).pending().len() < UDS_QUEUE_CAPACITY ==> final(self).pending() == old(
                self,
            ).pending().push(cmd) && r == Ok::<(), CanioCmd>(()),
            old(self).pending().len() >= UDS_QUEUE_CAPACITY ==> final(self).pending() == old(
                self,
            ).pending() && r == Err::<(), CanioCmd>(cmd),
    {
        if self.items.len() < UDS_QUEUE_CAPACITY {
            self.items.push(cmd);
            Ok(())
        } else {
            Err(cmd)
        }
    }

    /// Take the oldest request, if any.
    pub fn try_recv(&mut self) -> (r: Option<CanioCmd>)
        ensures
            old(self).pending().len() == 0 ==> r is None && final(self).pending() == old(
                self,
            ).pending(),
            old(self).pending().len() > 0 ==> final(self).pending() == old(
                self,
            ).pending().drop_first() && (r matches Some(c) && c == old(self).pending()[0]),
    {
        if self.items.len() > 0 {
            Some(self.items.remove(0))
        } else {
            None
        }
    }
}

/// What one worker pass did.
pub enum WorkerOutcome {
    /// The queue was empty; the worker yields until the next pass.
    Idle,
    /// A fire-and-forget frame went out; nobody is told whether it made it.
    Sent,
    /// A round-trip completed: the reply, or `None` on transport failure.
    Replied(Option<Vec<u8>>),
}

/// The outcome as the contracts speak of it.
pub enum WorkerOutcomeView {
    Idle,
    Sent,
    Replied(Option<Seq<u8>>),
}

/// The contract-level view of an outcome.
pub open spec fn outcome_view(o: WorkerOutcome) -> WorkerOutcomeView {
    match o {
        WorkerOutcome::Idle => WorkerOutcomeView::Idle,
        WorkerOutcome::Sent => WorkerOutcomeView::Sent,
        WorkerOutcome::Replied(x) => WorkerOutcomeView::Replied(x.deep_view()),
    }
}

/// The frame a request puts on the bus.
pub open spec fn spec_cmd_frame(cmd: CanioCmd) -> Seq<u8> {
    match cmd {
        CanioCmd::UdsCmdNoResponse(msg) => msg@,
        CanioCmd::UdsCmdWithResponse { buf, .. } => buf@,
    }
}

/// What servicing one request yields, given the reply the transport
/// would serve it.
pub open spec fn spec_worker_outcome(cmd: CanioCmd, head: Option<Seq<u8>>) -> WorkerOutcomeView {
    match cmd {
        CanioCmd::UdsCmdNoResponse(_) => WorkerOutcomeView::Sent,
        CanioCmd::UdsCmdWithResponse { .. } => WorkerOutcomeView::Replied(head),
    }
}

/// The reply script after one request was serviced: only round-trips
/// consume a reply.
pub open spec fn spec_after_cmd(script: Seq<Option<Seq<u8>>>, cmd: CanioCmd) -> Seq<
    Option<Seq<u8>>,
> {
    match cmd {
        CanioCmd::UdsCmdNoResponse(_) => script,
        CanioCmd::UdsCmdWithResponse { .. } => spec_script_after_one(script),
    }
}

/// The outcomes of servicing a whole backlog in order, one at a time.
pub open spec fn spec_drain(cmds: Seq<CanioCmd>, script: Seq<Option<Seq<u8>>>) -> Seq<
    WorkerOutcomeView,
>
    decreases cmds.len(),
{
    if cmds.len() == 0 {
        Seq::empty()
    } else {
        seq![spec_worker_outcome(cmds[0], spec_head(script))] + spec_drain(
            cmds.drop_first(),
            spec_after_cmd(script, cmds[0]),
        )
    }
}

/// The reply script left after servicing a whole backlog in order.
pub open spec fn spec_drain_script(cmds: Seq<CanioCmd>, script: Seq<Option<Seq<u8>>>) -> Seq<
    Option<Seq<u8>>,
>
    decreases cmds.len(),
{
    if cmds.len() == 0 {
        script
    } else {
        spec_drain_script(cmds.drop_first(), spec_after_cmd(script, cmds[0]))
    }
}

/// The frames a backlog puts on the bus, in submission order.
pub open spec fn spec_drain_frames(cmds: Seq<CanioCmd>) -> Seq<Seq<u8>> {
    Seq::new(cmds.len(), |i: int| spec_cmd_frame(cmds[i]))
}

/// One worker pass: take the oldest request, if any, and finish it —
/// a fire-and-forget write, or a full write-then-read round-trip whose
/// reply is `Some(bytes)` on success and `None` on transport failure.
pub fn worker_process(queue: &mut CmdQueue, t: &mut ScriptedTransport) -> (r: WorkerOutcome)
    ensures
        old(queue).pending().len() == 0 ==> r is Idle && final(queue).pending() == old(
            queue,
        ).pending() && *final(t) == *old(t),
        old(queue).pending().len() > 0 ==> {
            let cmd = old(queue).pending()[0];
            &&& final(queue).pending() == old(queue).pending().drop_first()
            &&& outcome_view(r) == spec_worker_outcome(cmd, spec_head(old(t).script()))
            &&& final(t).sent_log() == old(t).sent_log().push(spec_cmd_frame(cmd))
            &&& final(t).script() == spec_after_cmd(old(t).script(), cmd)
        },
{
    match queue.try_recv() {
        None => WorkerOutcome::Idle,
        Some(cmd) => match cmd {
            CanioCmd::UdsCmdNoResponse(msg) => {
                t.send(msg.as_slice());
                WorkerOutcome::Sent
            },
            CanioCmd::UdsCmdWithResponse { buf, timeout_ms: _ } => {
                let reply = t.send_recv(buf.as_slice());
                proof {
                    assert(outcome_view(WorkerOutcome::Replied(reply))
                        == spec_worker_outcome(
                        old(queue).pending()[0],
                        spec_head(old(t).script()),
                    ));
                }
                WorkerOutcome::Replied(reply)
            },
        },
    }
}

/// Service the whole backlog, strictly in submission order, one request
/// fully at a time: the i-th outcome answers the i-th submitted request.
pub fn worker_drain(queue: &mut CmdQueue, t: &mut ScriptedTransport) -> (r: Vec<WorkerOutcome>)
    ensures
        final(queue).pending().len() == 0,
        r@.len() == old(queue).pending().len(),
        forall|i: int|
            0 <= i < r@.len() ==> outcome_view(r@[i]) == spec_drain(
                old(queue).pending(),
                old(t).script(),
            )[i],
        final(t).script() == spec_drain_script(old(queue).pending(), old(t).script()),
        final(t).sent_log() == old(t).sent_log() + spec_drain_frames(old(queue).pending()),
{
    let ghost cmds0 = queue.pending();
    let ghost script0 = t.script();
    let ghost sent0 = t.sent_log();
    let mut outcomes: Vec<WorkerOutcome> = Vec::new();
    proof {
        assert(outcomes@.map_values(|o: WorkerOutcome| outcome_view(o)) =~= Seq::<
            WorkerOutcomeView,
        >::empty());
        assert(sent0 + spec_drain_frames(cmds0).take(0) =~= sent0);
    }
    loop
        invariant
            cmds0 == old(queue).pending(),
            script0 == old(t).script(),
            sent0 == old(t).sent_log(),
            outcomes@.len() <= cmds0.len(),
            queue.pending() == cmds0.skip(outcomes@.len() as int),
            spec_drain(cmds0, script0) == outcomes@.map_values(
                |o: WorkerOutcome| outcome_view(o),
            ) + spec_drain(queue.pending(), t.script()),
            spec_drain_script(cmds0, script0) == spec_drain_script(queue.pending(), t.script()),
            t.sent_log() == sent0 + spec_drain_frames(cmds0).take(outcomes@.len() as int),
        ensures
            queue.pending().len() == 0,
            outcomes@.len() == cmds0.len(),
            outcomes@.map_values(|o: WorkerOutcome| outcome_view(o)) == spec_drain(
                cmds0,
                script0,
            ),
            t.script() == spec_drain_script(cmds0, script0),
            t.sent_log() == sent0 + spec_drain_frames(cmds0),
        decreases queue.pending().len(),
    {
        let n = queue.len();
        if n == 0 {
            proof {
                assert(outcomes@.len() == cmds0.len());
                assert(spec_drain(queue.pending(), t.script()) =~= Seq::<
                    WorkerOutcomeView,
                >::empty());
                assert(spec_drain(cmds0, script0) =~= outcomes@.map_values(
                    |o: WorkerOutcome| outcome_view(o),
                ));
                assert(spec_drain_frames(cmds0).take(outcomes@.len() as int) =~= spec_drain_frames(
                    cmds0,
                ));
            }
            break;
        }
        let out = worker_process(queue, t);
        outcomes.push(out);
        proof {
            let k = outcomes@.len() - 1;
            assert(outcomes@.map_values(|o: WorkerOutcome| outcome_view(o)) =~= outcomes@.take(
                k,
            ).map_values(|o: WorkerOutcome| outcome_view(o)).push(outcome_view(out)));
            assert(outcomes@.take(k) =~= outcomes@.drop_last());
            assert(queue.pending() =~= cmds0.skip(outcomes@.len() as int));
            assert(outcomes@.map_values(|o: WorkerOutcome| outcome_view(o)) + spec_drain(
                queue.pending(),
                t.script(),
            ) =~= (outcomes@.drop_last().map_values(|o: WorkerOutcome| outcome_view(o)) + (seq![
                outcome_view(out),
            ] + spec_drain(queue.pending(), t.script()))));
            assert(t.sent_log() =~= sent0 + spec_drain_frames(cmds0).take(
                outcomes@.len() as int,
            ));
        }
    }
    proof {
        let views = outcomes@.map_values(|o: WorkerOutcome| outcome_view(o));
        assert(forall|i: int|
            0 <= i < outcomes@.len() ==> outcome_view(outcomes@[i]) == views[i]);
    }
    outcomes
}

/// Strict serialization, stated of the drain itself: servicing a backlog
/// `a + b` is servicing all of `a`, then all of `b` against the replies
/// `a` left over — every request completes, in submission order, before
/// the next begins, and no two are ever serviced at once.
pub proof fn lemma_fifo_serialization(
    a: Seq<CanioCmd>,
    b: Seq<CanioCmd>,
    script: Seq<Option<Seq<u8>>>,
)
    ensures
        spec_drain(a + b, script) == spec_drain(a, script) + spec_drain(
            b,
            spec_drain_script(a, script),
        ),
        spec_drain_script(a + b, script) == spec_drain_script(b, spec_drain_script(a, script)),
        spec_drain(a + b, script).len() == a.len() + b.len(),
    decreases a.len(),
{
    lemma_drain_len(a + b, script);
    if a.len() == 0 {
        assert(a + b =~= b);
        assert(spec_drain(a, script) =~= Seq::<WorkerOutcomeView>::empty());
        assert(spec_drain(a, script) + spec_drain(b, spec_drain_script(a, script)) =~= spec_drain(
            b,
            script,
        ));
    } else {
        assert((a + b)[0] == a[0]);
        assert((a + b).drop_first() =~= a.drop_first() + b);
        lemma_fifo_serialization(a.drop_first(), b, spec_after_cmd(script, a[0]));
        assert(spec_drain(a + b, script) =~= spec_drain(a, script) + spec_drain(
            b,
            spec_drain_script(a, script),
        ));
    }
}

/// Every submitted request gets exactly one outcome.
pub proof fn lemma_drain_len(cmds: Seq<CanioCmd>, script: Seq<Option<Seq<u8>>>)
    ensures
        spec_drain(cmds, script).len() == cmds.len(),
    decreases cmds.len(),
{
    if cmds.len() > 0 {
        lemma_drain_len(cmds.drop_first(), spec_after_cmd(script, cmds[0]));
    }
}

/// One tick of the keep-alive task: an incoming command switches the
/// heartbeat and nothing is emitted that tick; with no command, a
/// tester-present frame is emitted exactly when the heartbeat is on.
pub fn keepalive_step(send_tp: bool, cmd: Option<PrdCmd>) -> (r: (bool, bool))
    ensures
        (match cmd {
            Some(PrdCmd::PersistentTesterPresent(s)) => r == (s, false),
            None => r == (send_tp, send_tp),
        }),
{
    match cmd {
        Some(PrdCmd::PersistentTesterPresent(s)) => (s, false),
        None => (send_tp, send_tp),
    }
}

/// The segmented-transport settings every session opens its channel
/// with: block size 5, minimum separation time 5, 1 Mbit/s, no frame
/// padding, no extended addressing.
pub struct IsoTpConfig {
    pub block_size: u8,
    pub st_min: u8,
    pub can_speed: u32,
    pub pad_frame: bool,
    pub extended_addressing: bool,
}

/// The fixed channel configuration.
pub fn default_isotp_settings() -> (r: IsoTpConfig)
    ensures
        r.block_size == 5,
        r.st_min == 5,
        r.can_speed == 1000000,
        r.pad_frame == false,
        r.extended_addressing == false,
{
    IsoTpConfig {
        block_size: 5,
        st_min: 5,
        can_speed: 1000000,
        pad_frame: false,
        extended_addressing: false,
    }
}

} // verus!
