//! The UDS client: the stateless request encoder / response decoder the
//! diagnostic session hands its caller, here driven against the scripted
//! transport model so every protocol step is verified end to end. Each
//! operation sends exactly one frame per round-trip and interprets the
//! reply as the frame codec specifies.

use vstd::prelude::*;
use crate::frames::ERASE_APP_ROUTINE_ID;
use crate::frames::NEGATIVE_REPLY_SID;
use crate::frames::POSITIVE_REPLY_OFFSET;
use crate::frames::SID_ROUTINE_CONTROL;
use crate::frames::SupportedResetTypes;
use crate::frames::UdsClientError;
use crate::frames::UDS_DID_CRC;
use crate::frames::decode_did_reply;
use crate::frames::decode_ecu_reset_reply;
use crate::frames::decode_routine_start_reply;
use crate::frames::did_read_request;
use crate::frames::ecu_reset_request;
use crate::frames::routine_results_request;
use crate::frames::routine_start_request;
use crate::frames::spec_did_read_request;
use crate::frames::spec_did_read_result;
use crate::frames::spec_ecu_reset_request;
use crate::frames::spec_ecu_reset_result;
use crate::frames::spec_routine_results_request;
use crate::frames::spec_routine_start_request;
use crate::frames::spec_routine_start_result;
use crate::frames::spec_u32_from_le;
use crate::frames::u32_from_le;
use crate::transport::ScriptedTransport;

verus! {

/// A UDS client bound to one transport. `tp_enabled` mirrors the
/// keep-alive task's tester-present flag, which the client commands out
/// of band; `interactive` records whether an operator is present to
/// power-cycle the node by hand.
pub struct UdsClient {
    pub transport: ScriptedTransport,
    pub tp_enabled: bool,
    pub interactive: bool,
}

/// The result of decoding an exec byte-vector result against a spec one.
pub open spec fn view_bytes_result(r: Result<Vec<u8>, UdsClientError>) -> Result<
    Seq<u8>,
    UdsClientError,
> {
    match r {
        Ok(v) => Ok(v@),
        Err(e) => Err(e),
    }
}

impl UdsClient {
    /// A client over the given transport, with the keep-alive disabled.
    pub fn new(transport: ScriptedTransport, interactive: bool) -> (r: Self)
        ensures
            r.transport == transport,
            r.tp_enabled == false,
            r.interactive == interactive,
    {
        UdsClient { transport, tp_enabled: false, interactive }
    }

    /// Command the keep-alive task to start sending tester-present.
    pub fn start_persistent_tp(&mut self) -> (r: Result<(), UdsClientError>)
        ensures
            r == Ok::<(), UdsClientError>(()),
            final(self).tp_enabled == true,
            final(self).transport == old(self).transport,
            final(self).interactive == old(self).interactive,
    {
        self.tp_enabled = true;
        Ok(())
    }

    /// Command the keep-alive task to stop sending tester-present.
    pub fn stop_persistent_tp(&mut self) -> (r: Result<(), UdsClientError>)
        ensures
            r == Ok::<(), UdsClientError>(()),
            final(self).tp_enabled == false,
            final(self).transport == old(self).transport,
            final(self).interactive == old(self).interactive,
    {
        self.tp_enabled = false;
        Ok(())
    }

    /// Read one diagnostic identifier's value.
    pub fn did_read(&mut self, did: u16) -> (r: Result<Vec<u8>, UdsClientError>)
        ensures
            final(self).transport.sent_log() == old(self).transport.sent_log().push(
                spec_did_read_request(did),
            ),
            view_bytes_result(r) == spec_did_read_result(old(self).transport.next_reply()),
            final(self).transport.script() == spec_script_after_one(old(self).transport.script()),
            final(self).tp_enabled == old(self).tp_enabled,
            final(self).interactive == old(self).interactive,
    {
        let frame = did_read_request(did);
        let reply = self.transport.send_recv(frame.as_slice());
        decode_did_reply(&reply)
    }

    /// Reset the ECU. Any non-empty reply counts as the reset having been
    /// issued — the `conditions not correct` negative reply included, per
    /// the documented leniency; an empty reply fails only when the session
    /// is not recoverable by operator action.
    pub fn ecu_reset(&mut self, reset_type: SupportedResetTypes, recoverable: bool) -> (r: Result<
        (),
        UdsClientError,
    >)
        ensures
            final(self).transport.sent_log() == old(self).transport.sent_log().push(
                spec_ecu_reset_request(reset_type),
            ),
            r == spec_ecu_reset_result(old(self).transport.next_reply(), recoverable),
            final(self).transport.script() == spec_script_after_one(old(self).transport.script()),
            final(self).tp_enabled == old(self).tp_enabled,
            final(self).interactive == old(self).interactive,
    {
        let frame = ecu_reset_request(reset_type);
        let reply = self.transport.send_recv(frame.as_slice());
        decode_ecu_reset_reply(&reply, recoverable)
    }

    /// Reset the node. In an interactive session any outcome counts as
    /// done — an operator is there to power-cycle the node by hand; a
    /// non-interactive session reports the reset's own outcome.
    pub fn reset_node(&mut self, reset_type: SupportedResetTypes) -> (r: Result<
        (),
        UdsClientError,
    >)
        ensures
            final(self).transport.sent_log() == old(self).transport.sent_log().push(
                spec_ecu_reset_request(reset_type),
            ),
            final(self).transport.script() == spec_script_after_one(old(self).transport.script()),
            r == (if old(self).interactive {
                Ok::<(), UdsClientError>(())
            } else {
                spec_ecu_reset_result(old(self).transport.next_reply(), false)
            }),
            final(self).tp_enabled == old(self).tp_enabled,
            final(self).interactive == old(self).interactive,
    {
        let interactive = self.interactive;
        let resp = self.ecu_reset(reset_type, interactive);
        if interactive {
            Ok(())
        } else {
            resp
        }
    }

    /// Start the given routine. The acknowledgement is interpreted: a
    /// negative reply is classified on its NRC, and a reply that carries
    /// neither the negative nor the Routine Control service id is a
    /// protocol violation, never silently accepted.
    pub fn routine_start(&mut self, routine_id: u16, data: &Option<Vec<u8>>) -> (r: Result<
        (),
        UdsClientError,
    >)
        ensures
            final(self).transport.sent_log() == old(self).transport.sent_log().push(
                spec_routine_start_request(routine_id, match data {
                    Some(d) => Some(d@),
                    None => None,
                }),
            ),
            r == spec_routine_start_result(old(self).transport.next_reply()),
            final(self).transport.script() == spec_script_after_one(old(self).transport.script()),
            final(self).tp_enabled == old(self).tp_enabled,
            final(self).interactive == old(self).interactive,
    {
        let frame = routine_start_request(routine_id, data);
        let reply = self.transport.send_recv(frame.as_slice());
        decode_routine_start_reply(&reply)
    }

    /// Request the results of the given routine; the raw reply bytes are
    /// handed back for the caller to interpret.
    pub fn routine_get_results(&mut self, routine_id: u16) -> (r: Result<Vec<u8>, UdsClientError>)
        ensures
            final(self).transport.sent_log() == old(self).transport.sent_log().push(
                spec_routine_results_request(routine_id),
            ),
            view_bytes_result(r) == (match old(self).transport.next_reply() {
                None => Err::<Seq<u8>, UdsClientError>(UdsClientError::Transport),
                Some(bytes) => Ok::<Seq<u8>, UdsClientError>(bytes),
            }),
            final(self).transport.script() == spec_script_after_one(old(self).transport.script()),
            final(self).tp_enabled == old(self).tp_enabled,
            final(self).interactive == old(self).interactive,
    {
        let frame = routine_results_request(routine_id);
        let reply = self.transport.send_recv(frame.as_slice());
        match reply {
            None => Err(UdsClientError::Transport),
            Some(resp) => {
                proof {
                    assert(resp.deep_view() =~= resp@);
                }
                Ok(resp)
            },
        }
    }
}

/// The script after one round-trip was served.
pub open spec fn spec_script_after_one(script: Seq<Option<Seq<u8>>>) -> Seq<Option<Seq<u8>>> {
    if script.len() > 0 {
        script.skip(1)
    } else {
        script
    }
}

/// The script after `n` round-trips were attempted: each consumes one
/// scripted reply while any are left.
pub open spec fn spec_consume(script: Seq<Option<Seq<u8>>>, n: nat) -> Seq<Option<Seq<u8>>> {
    if n <= script.len() {
        script.skip(n as int)
    } else {
        Seq::empty()
    }
}

/// The front of the script, as the next round-trip will see it.
pub open spec fn spec_head(script: Seq<Option<Seq<u8>>>) -> Option<Seq<u8>> {
    if script.len() > 0 {
        script[0]
    } else {
        None
    }
}

/// How many polls the erase loop makes before giving up: at a 10 ms
/// cadence this bounds the wait for the bootloader to finish erasing.
pub const ERASE_RETRY_BUDGET: u32 = 1000;

/// What one "get routine results" poll of the erase routine means.
#[derive(Debug, Clone, Copy, PartialEq, Eq, Structural)]
pub enum ErasePoll {
    /// Status byte 1: still erasing; poll again.
    InProgress,
    /// Status byte 2: erase finished; proceed with the download.
    Complete,
    /// Anything else is terminal for the erase attempt.
    Abort(UdsClientError),
}

/// The classification of one poll reply. A negative reply means the
/// routine was never started; a positive Routine Control reply must be
/// exactly three bytes, its last being the status: 0 failed, 1 in
/// progress, 2 complete.
pub open spec fn spec_erase_poll(reply: Option<Seq<u8>>) -> ErasePoll {
    match reply {
        None => ErasePoll::Abort(UdsClientError::Transport),
        Some(r) => if r.len() == 0 {
            ErasePoll::Abort(UdsClientError::EmptyResponse)
        } else if r[0] == NEGATIVE_REPLY_SID {
            ErasePoll::Abort(UdsClientError::EraseNotStarted)
        } else if r[0] == (SID_ROUTINE_CONTROL + POSITIVE_REPLY_OFFSET) as u8 {
            if r.len() == 3 {
                if r[2] == 0 {
                    ErasePoll::Abort(UdsClientError::EraseFailed)
                } else if r[2] == 1 {
                    ErasePoll::InProgress
                } else if r[2] == 2 {
                    ErasePoll::Complete
                } else {
                    ErasePoll::Abort(UdsClientError::EraseUnexpectedStatus(r[2]))
                }
            } else {
                ErasePoll::Abort(UdsClientError::EraseWrongLength)
            }
        } else {
            ErasePoll::Abort(UdsClientError::EraseWrongSid(r[0]))
        },
    }
}

/// Classify one poll reply.
pub fn erase_poll_step(reply: &Vec<u8>) -> (r: ErasePoll)
    ensures
        r == spec_erase_poll(Some(reply@)),
{
    if reply.len() == 0 {
        ErasePoll::Abort(UdsClientError::EmptyResponse)
    } else if reply[0] == NEGATIVE_REPLY_SID {
        ErasePoll::Abort(UdsClientError::EraseNotStarted)
    } else if reply[0] == SID_ROUTINE_CONTROL + POSITIVE_REPLY_OFFSET {
        if reply.len() == 3 {
            if reply[2] == 0 {
                ErasePoll::Abort(UdsClientError::EraseFailed)
            } else if reply[2] == 1 {
                ErasePoll::InProgress
            } else if reply[2] == 2 {
                ErasePoll::Complete
            } else {
                ErasePoll::Abort(UdsClientError::EraseUnexpectedStatus(reply[2]))
            }
        } else {
            ErasePoll::Abort(UdsClientError::EraseWrongLength)
        }
    } else {
        ErasePoll::Abort(UdsClientError::EraseWrongSid(reply[0]))
    }
}

/// The outcome of the polling loop over a reply script with the given
/// budget of polls left: how many polls it makes, and its result. The
/// first poll decides except when the routine is still in progress and
/// budget remains; a budget run down to its last poll times out.
pub open spec fn spec_erase_poll_run(script: Seq<Option<Seq<u8>>>, budget: nat) -> (
    nat,
    Result<(), UdsClientError>,
)
    recommends
        budget >= 1,
    decreases budget,
{
    match spec_erase_poll(spec_head(script)) {
        ErasePoll::Complete => (1nat, Ok(())),
        ErasePoll::Abort(e) => (1nat, Err(e)),
        ErasePoll::InProgress => if budget <= 1 {
            (1nat, Err(UdsClientError::EraseTimeout))
        } else {
            let rest = spec_erase_poll_run(script.skip(1), (budget - 1) as nat);
            ((rest.0 + 1) as nat, rest.1)
        },
    }
}

/// The outcome of a whole erase attempt on a reply script: the "start
/// routine" round-trip consumes the first reply and its acknowledgement
/// is interpreted — a negative or malformed reply ends the attempt right
/// there; only then does the polling loop run. The pair gives the total
/// number of round-trips made and the result.
pub open spec fn spec_app_erase(script: Seq<Option<Seq<u8>>>) -> (
    nat,
    Result<(), UdsClientError>,
) {
    match spec_routine_start_result(spec_head(script)) {
        Err(e) => (1nat, Err(e)),
        Ok(()) => {
            let rest = spec_erase_poll_run(script.skip(1), ERASE_RETRY_BUDGET as nat);
            ((rest.0 + 1) as nat, rest.1)
        },
    }
}

/// The frames an erase attempt of `n` round-trips sends: the start
/// request, then `n - 1` polls.
pub open spec fn spec_erase_sent(n: nat) -> Seq<Seq<u8>>
    recommends
        n >= 1,
{
    seq![spec_routine_start_request(ERASE_APP_ROUTINE_ID, None)] + Seq::new(
        (n - 1) as nat,
        |i: int| spec_routine_results_request(ERASE_APP_ROUTINE_ID),
    )
}

/// Serving one more round-trip moves the consumed count up by one.
pub proof fn lemma_consume_step(s: Seq<Option<Seq<u8>>>, k: nat)
    ensures
        spec_script_after_one(spec_consume(s, k)) == spec_consume(s, (k + 1) as nat),
{
    if k < s.len() {
        assert(s.skip(k as int).skip(1) =~= s.skip(k as int + 1));
    } else if k == s.len() {
        assert(s.skip(k as int) =~= Seq::<Option<Seq<u8>>>::empty());
        assert(spec_consume(s, (k + 1) as nat) =~= Seq::<Option<Seq<u8>>>::empty());
    }
}

/// One served round-trip is one consumed reply.
pub proof fn lemma_after_one_is_consume_one(s: Seq<Option<Seq<u8>>>)
    ensures
        spec_script_after_one(s) == spec_consume(s, 1),
{
    if s.len() == 0 {
        assert(s =~= Seq::<Option<Seq<u8>>>::empty());
        assert(spec_consume(s, 1) =~= Seq::<Option<Seq<u8>>>::empty());
    }
}

/// Consuming from the tail of a script is consuming one more from the
/// whole script.
pub proof fn lemma_consume_skip(s: Seq<Option<Seq<u8>>>, k: nat)
    requires
        s.len() > 0,
    ensures
        spec_consume(s.skip(1), k) == spec_consume(s, (k + 1) as nat),
{
    if k <= s.len() - 1 {
        assert(s.skip(1).skip(k as int) =~= s.skip(k as int + 1));
    }
}

impl UdsClient {
    /// Tell the ECU to erase the application, and poll the routine until
    /// it reports completion, failure, or the retry budget runs out.
    pub fn app_erase(&mut self) -> (r: Result<(), UdsClientError>)
        ensures
            ({
                let run = spec_app_erase(old(self).transport.script());
                &&& r == run.1
                &&& final(self).transport.script() == spec_consume(
                    old(self).transport.script(),
                    run.0,
                )
                &&& final(self).transport.sent_log() == old(self).transport.sent_log()
                    + spec_erase_sent(run.0)
            }),
            final(self).tp_enabled == old(self).tp_enabled,
            final(self).interactive == old(self).interactive,
    {
        let ghost script0 = self.transport.script();
        let ghost sent0 = self.transport.sent_log();
        match self.routine_start(ERASE_APP_ROUTINE_ID, &None) {
            Err(e) => {
                proof {
                    assert(self.transport.sent_log() =~= sent0 + spec_erase_sent(1));
                    if script0.len() > 0 {
                        assert(self.transport.script() == spec_consume(script0, 1));
                    } else {
                        assert(self.transport.script() =~= spec_consume(script0, 1));
                    }
                }
                return Err(e);
            },
            Ok(()) => {},
        }
        let ghost polls0 = self.transport.script();
        let ghost run = spec_erase_poll_run(polls0, ERASE_RETRY_BUDGET as nat);
        proof {
            assert(self.transport.sent_log() =~= sent0 + spec_erase_sent(1));
            assert(spec_consume(polls0, 0) =~= polls0);
        }
        let mut budget: u32 = ERASE_RETRY_BUDGET;
        loop
            invariant
                1 <= budget <= ERASE_RETRY_BUDGET,
                self.tp_enabled == old(self).tp_enabled,
                self.interactive == old(self).interactive,
                script0 == old(self).transport.script(),
                sent0 == old(self).transport.sent_log(),
                polls0 == script0.skip(1),
                script0.len() > 0,
                run == spec_erase_poll_run(polls0, ERASE_RETRY_BUDGET as nat),
                run == ({
                    let rest = spec_erase_poll_run(self.transport.script(), budget as nat);
                    (((ERASE_RETRY_BUDGET - budget) + rest.0) as nat, rest.1)
                }),
                self.transport.script() == spec_consume(
                    polls0,
                    (ERASE_RETRY_BUDGET - budget) as nat,
                ),
                self.transport.sent_log() == sent0 + spec_erase_sent(
                    ((ERASE_RETRY_BUDGET - budget) + 1) as nat,
                ),
                spec_app_erase(script0) == (((run.0 + 1) as nat, run.1)),
            decreases budget,
        {
            let ghost polls_done = (ERASE_RETRY_BUDGET - budget) as nat;
            let ghost cur = self.transport.script();
            let res = self.routine_get_results(ERASE_APP_ROUTINE_ID);
            proof {
                assert(self.transport.sent_log() =~= sent0 + spec_erase_sent(
                    (polls_done + 2) as nat,
                ));
                lemma_consume_step(polls0, polls_done);
                assert(self.transport.script() == spec_consume(polls0, (polls_done + 1) as nat));
                lemma_consume_skip(script0, (polls_done + 1) as nat);
            }
            let step = match &res {
                Err(_) => ErasePoll::Abort(UdsClientError::Transport),
                Ok(resp) => erase_poll_step(resp),
            };
            proof {
                assert(step == spec_erase_poll(spec_head(cur)));
            }
            match step {
                ErasePoll::Complete => {
                    return Ok(());
                },
                ErasePoll::Abort(e) => {
                    return Err(e);
                },
                ErasePoll::InProgress => {
                    if budget == 1 {
                        return Err(UdsClientError::EraseTimeout);
                    }
                    budget = budget - 1;
                },
            }
        }
    }
}

/// A polling loop over replies that stay in progress for `k` polls and
/// then report completion ends with success after exactly `k + 1` polls,
/// for any budget that allows them.
pub proof fn lemma_erase_polls_until_complete(
    script: Seq<Option<Seq<u8>>>,
    k: nat,
    budget: nat,
)
    requires
        k < budget,
        k < script.len(),
        forall|i: int| 0 <= i < k ==> spec_erase_poll(#[trigger] script[i]) == ErasePoll::InProgress,
        spec_erase_poll(script[k as int]) == ErasePoll::Complete,
    ensures
        spec_erase_poll_run(script, budget) == ((k + 1) as nat, Ok::<(), UdsClientError>(())),
    decreases k,
{
    if k == 0 {
        assert(spec_head(script) == script[0]);
    } else {
        assert(spec_erase_poll(script[0]) == ErasePoll::InProgress);
        assert(script.skip(1)[k as int - 1] == script[k as int]);
        assert(forall|i: int|
            0 <= i < k - 1 ==> #[trigger] script.skip(1)[i] == script[i + 1]);
        lemma_erase_polls_until_complete(script.skip(1), (k - 1) as nat, (budget - 1) as nat);
    }
}

/// A first poll that reports the failed status ends the erase attempt at
/// once: failure after exactly one poll.
pub proof fn lemma_erase_failed_on_first_poll(script: Seq<Option<Seq<u8>>>, budget: nat)
    requires
        budget >= 1,
        spec_erase_poll(spec_head(script)) == ErasePoll::Abort(UdsClientError::EraseFailed),
    ensures
        spec_erase_poll_run(script, budget) == (1nat, Err::<(), UdsClientError>(
            UdsClientError::EraseFailed,
        )),
{
}

/// A routine that never completes does not hold the loop forever: once
/// the budget's polls all report in-progress, the attempt times out after
/// exactly the budget's number of polls.
pub proof fn lemma_erase_budget_exhausted(script: Seq<Option<Seq<u8>>>, budget: nat)
    requires
        budget >= 1,
        budget <= script.len(),
        forall|i: int|
            0 <= i < budget ==> spec_erase_poll(#[trigger] script[i]) == ErasePoll::InProgress,
    ensures
        spec_erase_poll_run(script, budget) == (budget, Err::<(), UdsClientError>(
            UdsClientError::EraseTimeout,
        )),
    decreases budget,
{
    assert(spec_erase_poll(script[0]) == ErasePoll::InProgress);
    if budget > 1 {
        assert(forall|i: int|
            0 <= i < budget - 1 ==> #[trigger] script.skip(1)[i] == script[i + 1]);
        lemma_erase_budget_exhausted(script.skip(1), (budget - 1) as nat);
    }
}

/// What reading the application CRC identifier yields: the identifier's
/// value interpreted as a little-endian 32-bit CRC; a value of any other
/// length is invalid.
pub open spec fn spec_get_app_crc_result(reply: Option<Seq<u8>>) -> Result<u32, UdsClientError> {
    match spec_did_read_result(reply) {
        Err(e) => Err(e),
        Ok(data) => if data.len() == 4 {
            Ok(spec_u32_from_le(data))
        } else {
            Err(UdsClientError::InvalidCrcLength)
        },
    }
}

/// Read the CRC of the application currently flashed on the node.
pub fn get_app_crc(client: &mut UdsClient) -> (r: Result<u32, UdsClientError>)
    ensures
        final(client).transport.sent_log() == old(client).transport.sent_log().push(
            spec_did_read_request(UDS_DID_CRC),
        ),
        r == spec_get_app_crc_result(old(client).transport.next_reply()),
        final(client).transport.script() == spec_script_after_one(
            old(client).transport.script(),
        ),
        final(client).tp_enabled == old(client).tp_enabled,
        final(client).interactive == old(client).interactive,
{
    let resp = client.did_read(UDS_DID_CRC);
    match resp {
        Err(e) => Err(e),
        Ok(node_crc) => {
            if node_crc.len() == 4 {
                Ok(u32_from_le(node_crc.as_slice()))
            } else {
                Err(UdsClientError::InvalidCrcLength)
            }
        },
    }
}

} // verus!
