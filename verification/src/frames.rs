//! The UDS request/response wire format. Every request is
//! `[service id, parameters...]`; a positive reply echoes the service id
//! plus 0x40; a negative reply is `[0x7F, echoed SID, NRC]`. The builders
//! here return the exact bytes put on the bus, and the `spec_*_result`
//! functions say how each operation's reply is interpreted.

use ecu_diagnostics::dynamic_diag::DiagProtocol;
use vstd::prelude::*;
use crate::crc8::spec_crc8;
use crate::crc8::crc8;
use crate::nrc::NrcClass;
use crate::nrc::spec_classify_nrc;
use crate::nrc::classify_nrc;
use crate::strutil::str_eq;

verus! {

pub const SID_ECU_RESET: u8 = 0x11;
pub const SID_READ_DATA_BY_IDENTIFIER: u8 = 0x22;
pub const SID_ROUTINE_CONTROL: u8 = 0x31;
pub const SID_REQUEST_DOWNLOAD: u8 = 0x34;
pub const SID_TRANSFER_DATA: u8 = 0x36;
pub const SID_REQUEST_TRANSFER_EXIT: u8 = 0x37;
pub const SID_TESTER_PRESENT: u8 = 0x3E;

/// A positive reply carries the request's SID plus this offset.
pub const POSITIVE_REPLY_OFFSET: u8 = 0x40;

/// First byte of every negative reply.
pub const NEGATIVE_REPLY_SID: u8 = 0x7F;

/// Routine Control sub-function: start the routine.
pub const ROUTINE_CONTROL_START: u8 = 0x01;

/// Routine Control sub-function: request the routine's results.
pub const ROUTINE_CONTROL_GET_RESULTS: u8 = 0x03;

/// Vendor-specific routine: erase the application image.
pub const ERASE_APP_ROUTINE_ID: u16 = 0xF00F;

/// Vendor-specific routine: hard-reset the non-volatile memory.
pub const NVM_HARD_RESET_ROUTINE_ID: u16 = 0xF0F0;

/// Diagnostic identifier under which the ECU reports the CRC of its
/// currently flashed application.
pub const UDS_DID_CRC: u16 = 0x03;

/// Flash address applications are downloaded to.
pub const APP_DOWNLOAD_ADDRESS: u32 = 0x08002000;

/// Flash address bootloaders are downloaded to.
pub const BOOTLOADER_DOWNLOAD_ADDRESS: u32 = 0x08000000;

/// The ECU Reset sub-functions this client supports.
#[derive(Debug, Clone, Copy, PartialEq, Eq, Structural)]
pub enum SupportedResetTypes {
    Hard,
    Soft,
}

/// Error for reset-kind strings that name no supported reset.
#[derive(Debug, Clone, Copy, PartialEq, Eq, Structural)]
pub struct ParseError {}

impl SupportedResetTypes {
    /// The standard's sub-function code of this reset kind.
    pub open spec fn spec_code(self) -> u8 {
        match self {
            SupportedResetTypes::Hard => 0x01,
            SupportedResetTypes::Soft => 0x03,
        }
    }

    /// The standard's sub-function code of this reset kind.
    pub fn code(self) -> (r: u8)
        ensures
            r == self.spec_code(),
    {
        match self {
            SupportedResetTypes::Hard => 0x01,
            SupportedResetTypes::Soft => 0x03,
        }
    }

    /// Parse the reset kind named on the command line.
    pub fn from_str(s: &str) -> (r: Result<SupportedResetTypes, ParseError>)
        ensures
            s@ == "hard"@ ==> r == Ok::<SupportedResetTypes, ParseError>(
                SupportedResetTypes::Hard,
            ),
            s@ == "soft"@ ==> r == Ok::<SupportedResetTypes, ParseError>(
                SupportedResetTypes::Soft,
            ),
            s@ != "hard"@ && s@ != "soft"@ ==> r == Err::<SupportedResetTypes, ParseError>(
                ParseError {},
            ),
    {
        proof {
            reveal_strlit("hard");
            reveal_strlit("soft");
            assert("hard"@[0] == 'h');
            assert("soft"@[0] == 's');
            assert("hard"@ != "soft"@);
        }
        if str_eq(s, "hard") {
            Ok(SupportedResetTypes::Hard)
        } else if str_eq(s, "soft") {
            Ok(SupportedResetTypes::Soft)
        } else {
            Err(ParseError {})
        }
    }
}

/// The little-endian bytes of a 16-bit value.
pub open spec fn spec_u16_le(x: u16) -> Seq<u8> {
    seq![(x & 0xFF) as u8, ((x >> 8) & 0xFF) as u8]
}

/// The little-endian bytes of a 32-bit value.
pub open spec fn spec_u32_le(x: u32) -> Seq<u8> {
    seq![
        (x & 0xFF) as u8,
        ((x >> 8) & 0xFF) as u8,
        ((x >> 16) & 0xFF) as u8,
        ((x >> 24) & 0xFF) as u8,
    ]
}

/// The 32-bit value read from four little-endian bytes.
pub open spec fn spec_u32_from_le(b: Seq<u8>) -> u32
    recommends
        b.len() == 4,
{
    (b[0] as u32) | ((b[1] as u32) << 8) | ((b[2] as u32) << 16) | ((b[3] as u32) << 24)
}

/// Read a 32-bit value from four little-endian bytes.
pub fn u32_from_le(b: &[u8]) -> (r: u32)
    requires
        b@.len() == 4,
    ensures
        r == spec_u32_from_le(b@),
{
    (b[0] as u32) | ((b[1] as u32) << 8) | ((b[2] as u32) << 16) | ((b[3] as u32) << 24)
}

/// Writing a 32-bit value as little-endian bytes and reading it back
/// yields the value: the embedded CRC comparison of the precheck reads
/// exactly what was written into the image.
pub proof fn lemma_u32_le_roundtrip(x: u32)
    ensures
        spec_u32_from_le(spec_u32_le(x)) == x,
{
    assert(((x & 0xFF) as u8 as u32) | ((((x >> 8) & 0xFF) as u8 as u32) << 8) | ((((x >> 16)
        & 0xFF) as u8 as u32) << 16) | ((((x >> 24) & 0xFF) as u8 as u32) << 24) == x)
        by (bit_vector);
}

/// The fixed 10-byte descriptor opening a download: compression and
/// encryption nibbles, the field-width nibbles, then the image size and
/// the target address, both little-endian.
pub struct UdsDownloadStart {
    pub compression: u8,
    pub encryption: u8,
    pub size_len: u8,
    pub addr_len: u8,
    pub size: u32,
    pub addr: u32,
}

/// The encoded bytes of a download start descriptor.
pub open spec fn spec_download_start_bytes(d: UdsDownloadStart) -> Seq<u8> {
    seq![(d.compression << 4) | d.encryption, (d.size_len << 4) | d.addr_len]
        + spec_u32_le(d.size) + spec_u32_le(d.addr)
}

impl UdsDownloadStart {
    /// The descriptor used for every download: no compression, no
    /// encryption, four-byte size and address fields.
    pub fn default(addr: u32, size: u32) -> (r: Self)
        ensures
            r == (UdsDownloadStart {
                compression: 0,
                encryption: 0,
                size_len: 4,
                addr_len: 4,
                size,
                addr,
            }),
    {
        UdsDownloadStart { compression: 0, encryption: 0, size_len: 4, addr_len: 4, size, addr }
    }

    /// Encode the descriptor to its 10-byte wire form.
    pub fn to_bytes(&self) -> (r: Vec<u8>)
        ensures
            r@ == spec_download_start_bytes(*self),
            r@.len() == 10,
    {
        let mut ret: Vec<u8> = Vec::new();
        ret.push((self.compression << 4u8) | self.encryption);
        ret.push((self.size_len << 4u8) | self.addr_len);
        ret.push((self.size & 0xFF) as u8);
        ret.push(((self.size >> 8u32) & 0xFF) as u8);
        ret.push(((self.size >> 16u32) & 0xFF) as u8);
        ret.push(((self.size >> 24u32) & 0xFF) as u8);
        ret.push((self.addr & 0xFF) as u8);
        ret.push(((self.addr >> 8u32) & 0xFF) as u8);
        ret.push(((self.addr >> 16u32) & 0xFF) as u8);
        ret.push(((self.addr >> 24u32) & 0xFF) as u8);
        proof {
            assert(ret@ =~= spec_download_start_bytes(*self));
        }
        ret
    }
}

/// The live parameters of one download: the rolling sequence counter and
/// the chunk size the ECU dictated in its Request Download reply.
pub struct DownloadParams {
    pub counter: u8,
    pub chunksize_len: u8,
    pub chunksize: u16,
}

impl Default for DownloadParams {
    /// All-zero parameters, as before a download is negotiated.
    fn default() -> (r: Self)
        ensures
            r.counter == 0,
            r.chunksize_len == 0,
            r.chunksize == 0,
    {
        DownloadParams { counter: 0, chunksize_len: 0, chunksize: 0 }
    }
}

/// The ECU Reset request: `[0x11, sub-function]`.
pub open spec fn spec_ecu_reset_request(kind: SupportedResetTypes) -> Seq<u8> {
    seq![SID_ECU_RESET, kind.spec_code()]
}

/// Build the ECU Reset request.
pub fn ecu_reset_request(kind: SupportedResetTypes) -> (r: Vec<u8>)
    ensures
        r@ == spec_ecu_reset_request(kind),
{
    let mut buf: Vec<u8> = Vec::new();
    buf.push(SID_ECU_RESET);
    buf.push(kind.code());
    proof {
        assert(buf@ =~= spec_ecu_reset_request(kind));
    }
    buf
}

/// The Routine Control request for one sub-function:
/// `[0x31, sub-function, routine id little-endian, optional data]`.
pub open spec fn spec_routine_request(sub: u8, routine_id: u16, data: Option<Seq<u8>>) -> Seq<u8> {
    seq![SID_ROUTINE_CONTROL, sub] + spec_u16_le(routine_id) + (match data {
        Some(d) => d,
        None => Seq::<u8>::empty(),
    })
}

/// The "start routine" request.
pub open spec fn spec_routine_start_request(routine_id: u16, data: Option<Seq<u8>>) -> Seq<u8> {
    spec_routine_request(ROUTINE_CONTROL_START, routine_id, data)
}

/// The "get routine results" request.
pub open spec fn spec_routine_results_request(routine_id: u16) -> Seq<u8> {
    spec_routine_request(ROUTINE_CONTROL_GET_RESULTS, routine_id, None)
}

/// Build the "start routine" request.
pub fn routine_start_request(routine_id: u16, data: &Option<Vec<u8>>) -> (r: Vec<u8>)
    ensures
        r@ == spec_routine_start_request(routine_id, match data {
            Some(d) => Some(d@),
            None => None,
        }),
{
    let mut buf: Vec<u8> = Vec::new();
    buf.push(SID_ROUTINE_CONTROL);
    buf.push(ROUTINE_CONTROL_START);
    buf.push((routine_id & 0xFF) as u8);
    buf.push(((routine_id >> 8u16) & 0xFF) as u8);
    match data {
        Some(d) => {
            let mut i: usize = 0;
            let n = d.len();
            while i < n
                invariant
                    i <= n,
                    n == d@.len(),
                    buf@ == seq![
                        SID_ROUTINE_CONTROL,
                        ROUTINE_CONTROL_START,
                        (routine_id & 0xFF) as u8,
                        ((routine_id >> 8u16) & 0xFF) as u8,
                    ] + d@.subrange(0, i as int),
                decreases n - i,
            {
                buf.push(d[i]);
                proof {
                    assert(d@.subrange(0, i + 1) =~= d@.subrange(0, i as int).push(d@[i as int]));
                }
                i = i + 1;
            }
            proof {
                assert(d@.subrange(0, n as int) =~= d@);
                assert(buf@ =~= spec_routine_start_request(routine_id, Some(d@)));
            }
        },
        None => {
            proof {
                assert(buf@ =~= spec_routine_start_request(routine_id, None));
            }
        },
    }
    buf
}

/// Build the "get routine results" request.
pub fn routine_results_request(routine_id: u16) -> (r: Vec<u8>)
    ensures
        r@ == spec_routine_results_request(routine_id),
{
    let mut buf: Vec<u8> = Vec::new();
    buf.push(SID_ROUTINE_CONTROL);
    buf.push(ROUTINE_CONTROL_GET_RESULTS);
    buf.push((routine_id & 0xFF) as u8);
    buf.push(((routine_id >> 8u16) & 0xFF) as u8);
    proof {
        assert(buf@ =~= spec_routine_results_request(routine_id));
    }
    buf
}

/// The Request Download request: `[0x34]` followed by the descriptor.
pub open spec fn spec_download_start_request(d: UdsDownloadStart) -> Seq<u8> {
    seq![SID_REQUEST_DOWNLOAD] + spec_download_start_bytes(d)
}

/// Build the Request Download request.
pub fn download_start_request(d: &UdsDownloadStart) -> (r: Vec<u8>)
    ensures
        r@ == spec_download_start_request(*d),
{
    let mut buf: Vec<u8> = Vec::new();
    buf.push(SID_REQUEST_DOWNLOAD);
    let mut body = d.to_bytes();
    buf.append(&mut body);
    proof {
        assert(buf@ =~= spec_download_start_request(*d));
    }
    buf
}

/// The Read Data By Identifier request:
/// `[0x22, identifier little-endian]`.
pub open spec fn spec_did_read_request(did: u16) -> Seq<u8> {
    seq![SID_READ_DATA_BY_IDENTIFIER] + spec_u16_le(did)
}

/// Build the Read Data By Identifier request.
pub fn did_read_request(did: u16) -> (r: Vec<u8>)
    ensures
        r@ == spec_did_read_request(did),
{
    let mut buf: Vec<u8> = Vec::new();
    buf.push(SID_READ_DATA_BY_IDENTIFIER);
    buf.push((did & 0xFF) as u8);
    buf.push(((did >> 8u16) & 0xFF) as u8);
    proof {
        assert(buf@ =~= spec_did_read_request(did));
    }
    buf
}

/// The Request Transfer Exit request: the bare service id.
pub open spec fn spec_transfer_exit_request() -> Seq<u8> {
    seq![SID_REQUEST_TRANSFER_EXIT]
}

/// Build the Request Transfer Exit request.
pub fn transfer_exit_request() -> (r: Vec<u8>)
    ensures
        r@ == spec_transfer_exit_request(),
{
    let mut buf: Vec<u8> = Vec::new();
    buf.push(SID_REQUEST_TRANSFER_EXIT);
    proof {
        assert(buf@ =~= spec_transfer_exit_request());
    }
    buf
}

/// The Transfer Data request: `[0x36, sequence counter, chunk bytes,
/// CRC-8 of the chunk]`. The checksum covers the chunk payload only, not
/// the sequence byte.
pub open spec fn spec_transfer_data_request(counter: u8, chunk: Seq<u8>) -> Seq<u8> {
    seq![SID_TRANSFER_DATA, counter] + chunk + seq![spec_crc8(chunk)]
}

/// Build the Transfer Data request for one chunk.
pub fn transfer_data_request(counter: u8, chunk: &[u8]) -> (r: Vec<u8>)
    ensures
        r@ == spec_transfer_data_request(counter, chunk@),
{
    let mut buf: Vec<u8> = Vec::new();
    buf.push(SID_TRANSFER_DATA);
    buf.push(counter);
    let n = chunk.len();
    let mut i: usize = 0;
    while i < n
        invariant
            i <= n,
            n == chunk@.len(),
            buf@ == seq![SID_TRANSFER_DATA, counter] + chunk@.subrange(0, i as int),
        decreases n - i,
    {
        buf.push(chunk[i]);
        proof {
            assert(chunk@.subrange(0, i + 1) =~= chunk@.subrange(0, i as int).push(
                chunk@[i as int],
            ));
        }
        i = i + 1;
    }
    proof {
        assert(chunk@.subrange(0, n as int) =~= chunk@);
    }
    buf.push(crc8(chunk));
    proof {
        assert(buf@ =~= spec_transfer_data_request(counter, chunk@));
    }
    buf
}

/// Relies on `ecu_diagnostics`' `UDSProtocol::create_tp_msg(true)` and
/// `DiagPayload::to_bytes`: the Tester Present keep-alive frame with a
/// response required, `[0x3E, 0x00]`.
#[verifier::external_body]
pub fn tester_present_frame() -> (r: Vec<u8>)
    ensures
        r@ == seq![SID_TESTER_PRESENT, 0x00u8],
{
    ecu_diagnostics::uds::UDSProtocol::create_tp_msg(true).to_bytes()
}

/// Everything that can go wrong in one client operation, classified as
/// the callers act on it.
#[derive(Debug, Clone, Copy, PartialEq, Eq, Structural)]
pub enum UdsClientError {
    /// No reply arrived: transport failure or per-transaction timeout.
    Transport,
    /// The reply had no bytes at all.
    EmptyResponse,
    /// A negative reply shorter than the three standard bytes.
    MalformedNegative,
    /// A classified negative response.
    Negative(NrcClass),
    /// A positive reply carrying an unexpected service id.
    UnexpectedSid(u8),
    /// A positive reply too short for its operation's payload.
    TooShort,
    /// An empty reset reply in a session that demands confirmation.
    ResetFailed,
    /// The CRC identifier reply was not exactly four bytes.
    InvalidCrcLength,
    /// The ECU dictated a chunk size too small to carry any payload.
    ChunkSizeInvalid,
    /// The erase routine rejected the start or poll request.
    EraseNotStarted,
    /// The erase routine reported the failed status.
    EraseFailed,
    /// The erase poll reported a status byte outside the table.
    EraseUnexpectedStatus(u8),
    /// The erase poll reply had the wrong length.
    EraseWrongLength,
    /// The erase poll reply carried the wrong service id.
    EraseWrongSid(u8),
    /// The erase routine did not report success within the retry budget.
    EraseTimeout,
}

/// How a Read Data By Identifier reply is interpreted. The positive
/// service id is `0x22 + 0x40 = 0x62`; the identifier is not echoed, so
/// everything after the service id is the value.
pub open spec fn spec_did_read_result(reply: Option<Seq<u8>>) -> Result<Seq<u8>, UdsClientError> {
    match reply {
        None => Err(UdsClientError::Transport),
        Some(r) => if r.len() == 0 {
            Err(UdsClientError::EmptyResponse)
        } else if r[0] == NEGATIVE_REPLY_SID {
            if r.len() < 3 {
                Err(UdsClientError::MalformedNegative)
            } else {
                Err(UdsClientError::Negative(spec_classify_nrc(r[2])))
            }
        } else if r[0] != (SID_READ_DATA_BY_IDENTIFIER + POSITIVE_REPLY_OFFSET) as u8 {
            Err(UdsClientError::UnexpectedSid(r[0]))
        } else if r.len() < 2 {
            Err(UdsClientError::TooShort)
        } else {
            Ok(r.subrange(1, r.len() as int))
        },
    }
}

/// How an ECU Reset reply is interpreted. Any non-empty reply counts as
/// the reset having been issued — even the `conditions not correct`
/// negative reply, which the standard's leniency for bootloaders makes
/// non-fatal. An empty reply fails only a session that cannot recover by
/// operator action (`recoverable` false).
pub open spec fn spec_ecu_reset_result(reply: Option<Seq<u8>>, recoverable: bool) -> Result<
    (),
    UdsClientError,
> {
    match reply {
        None => Err(UdsClientError::Transport),
        Some(r) => if r.len() > 0 {
            Ok(())
        } else if !recoverable {
            Err(UdsClientError::ResetFailed)
        } else {
            Ok(())
        },
    }
}

/// How a "start routine" reply is interpreted: a negative reply is
/// classified on its NRC byte (malformed when shorter than the three
/// standard bytes); a positive reply must carry the Routine Control
/// service id; any other first byte, or an empty reply, is a protocol
/// violation, never silently accepted.
pub open spec fn spec_routine_start_result(reply: Option<Seq<u8>>) -> Result<(), UdsClientError> {
    match reply {
        None => Err(UdsClientError::Transport),
        Some(r) => if r.len() == 0 {
            Err(UdsClientError::EmptyResponse)
        } else if r[0] == NEGATIVE_REPLY_SID {
            if r.len() < 3 {
                Err(UdsClientError::MalformedNegative)
            } else {
                Err(UdsClientError::Negative(spec_classify_nrc(r[2])))
            }
        } else if r[0] != (SID_ROUTINE_CONTROL + POSITIVE_REPLY_OFFSET) as u8 {
            Err(UdsClientError::UnexpectedSid(r[0]))
        } else {
            Ok(())
        },
    }
}

/// Decode a "start routine" acknowledgement.
pub fn decode_routine_start_reply(reply: &Option<Vec<u8>>) -> (r: Result<(), UdsClientError>)
    ensures
        r == spec_routine_start_result(reply.deep_view()),
{
    match reply {
        None => Err(UdsClientError::Transport),
        Some(resp) => {
            proof {
                assert(resp.deep_view() =~= resp@);
                assert(reply.deep_view() == Some(resp@));
            }
            if resp.len() == 0 {
                Err(UdsClientError::EmptyResponse)
            } else if resp[0] == NEGATIVE_REPLY_SID {
                if resp.len() < 3 {
                    Err(UdsClientError::MalformedNegative)
                } else {
                    Err(UdsClientError::Negative(classify_nrc(resp[2])))
                }
            } else if resp[0] != SID_ROUTINE_CONTROL + POSITIVE_REPLY_OFFSET {
                Err(UdsClientError::UnexpectedSid(resp[0]))
            } else {
                Ok(())
            }
        },
    }
}

/// Decode an ECU Reset reply, with the documented leniency.
pub fn decode_ecu_reset_reply(reply: &Option<Vec<u8>>, recoverable: bool) -> (r: Result<
    (),
    UdsClientError,
>)
    ensures
        r == spec_ecu_reset_result(reply.deep_view(), recoverable),
{
    match reply {
        None => Err(UdsClientError::Transport),
        Some(resp) => {
            proof {
                assert(resp.deep_view() =~= resp@);
                assert(reply.deep_view() == Some(resp@));
            }
            if resp.len() > 0 {
                Ok(())
            } else if !recoverable {
                Err(UdsClientError::ResetFailed)
            } else {
                Ok(())
            }
        },
    }
}

/// How a Request Download reply is interpreted: a negative reply is
/// classified on its last byte; a positive reply carries the length
/// format byte and the chunk size the ECU dictates.
pub open spec fn spec_download_start_result(reply: Option<Seq<u8>>) -> Result<
    DownloadParams,
    UdsClientError,
> {
    match reply {
        None => Err(UdsClientError::Transport),
        Some(r) => if r.len() == 0 {
            Err(UdsClientError::EmptyResponse)
        } else if r[0] == NEGATIVE_REPLY_SID {
            Err(UdsClientError::Negative(spec_classify_nrc(r[r.len() - 1])))
        } else if r.len() < 3 {
            Err(UdsClientError::TooShort)
        } else {
            Ok(DownloadParams { counter: 0, chunksize_len: r[1] >> 4, chunksize: r[2] as u16 })
        },
    }
}

/// How a Transfer Data or Request Transfer Exit reply is interpreted:
/// any positive reply is an acknowledgement; a negative reply is
/// classified on its last byte.
pub open spec fn spec_transfer_result(reply: Option<Seq<u8>>) -> Result<(), UdsClientError> {
    match reply {
        None => Err(UdsClientError::Transport),
        Some(r) => if r.len() == 0 {
            Err(UdsClientError::EmptyResponse)
        } else if r[0] == NEGATIVE_REPLY_SID {
            Err(UdsClientError::Negative(spec_classify_nrc(r[r.len() - 1])))
        } else {
            Ok(())
        },
    }
}

/// Decode a Request Download reply into the transfer parameters.
pub fn decode_download_start_reply(reply: &Option<Vec<u8>>) -> (r: Result<
    DownloadParams,
    UdsClientError,
>)
    ensures
        r == spec_download_start_result(reply.deep_view()),
{
    match reply {
        None => Err(UdsClientError::Transport),
        Some(resp) => {
            proof {
                assert(resp.deep_view() =~= resp@);
                assert(reply.deep_view() == Some(resp@));
            }
            if resp.len() == 0 {
                Err(UdsClientError::EmptyResponse)
            } else if resp[0] == NEGATIVE_REPLY_SID {
                Err(UdsClientError::Negative(classify_nrc(resp[resp.len() - 1])))
            } else if resp.len() < 3 {
                Err(UdsClientError::TooShort)
            } else {
                Ok(
                    DownloadParams {
                        counter: 0,
                        chunksize_len: resp[1] >> 4u8,
                        chunksize: resp[2] as u16,
                    },
                )
            }
        },
    }
}

/// Decode a Read Data By Identifier reply into the identifier's value.
pub fn decode_did_reply(reply: &Option<Vec<u8>>) -> (r: Result<Vec<u8>, UdsClientError>)
    ensures
        (match r {
            Ok(v) => spec_did_read_result(reply.deep_view()) == Ok::<Seq<u8>, UdsClientError>(v@),
            Err(e) => spec_did_read_result(reply.deep_view()) == Err::<Seq<u8>, UdsClientError>(e),
        }),
{
    match reply {
        None => Err(UdsClientError::Transport),
        Some(resp) => {
            proof {
                assert(resp.deep_view() =~= resp@);
                assert(reply.deep_view() == Some(resp@));
            }
            if resp.len() == 0 {
                Err(UdsClientError::EmptyResponse)
            } else if resp[0] == NEGATIVE_REPLY_SID {
                if resp.len() < 3 {
                    Err(UdsClientError::MalformedNegative)
                } else {
                    Err(UdsClientError::Negative(classify_nrc(resp[2])))
                }
            } else if resp[0] != SID_READ_DATA_BY_IDENTIFIER + POSITIVE_REPLY_OFFSET {
                Err(UdsClientError::UnexpectedSid(resp[0]))
            } else if resp.len() < 2 {
                Err(UdsClientError::TooShort)
            } else {
                let data = vstd::slice::slice_to_vec(
                    vstd::slice::slice_subrange(resp.as_slice(), 1, resp.len()),
                );
                Ok(data)
            }
        },
    }
}

} // verus!
