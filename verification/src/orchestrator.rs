//! The download orchestrator: erase the application, negotiate the
//! download, transfer the file chunk by chunk, and always request
//! transfer exit at the end — plus the CRC precheck that skips the whole
//! download when the node already runs the image.

use vstd::prelude::*;
use crate::frames::APP_DOWNLOAD_ADDRESS;
use crate::frames::DownloadParams;
use crate::frames::SupportedResetTypes;
use crate::frames::UDS_DID_CRC;
use crate::frames::UdsClientError;
use crate::frames::UdsDownloadStart;
use crate::frames::spec_did_read_request;
use crate::frames::spec_download_start_request;
use crate::frames::spec_download_start_result;
use crate::frames::spec_ecu_reset_request;
use crate::frames::spec_ecu_reset_result;
use crate::frames::spec_transfer_exit_request;
use crate::frames::spec_u32_from_le;
use crate::frames::u32_from_le;
use crate::session::UdsClient;
use crate::session::get_app_crc;
use crate::session::spec_app_erase;
use crate::session::spec_consume;
use crate::session::spec_erase_sent;
use crate::session::spec_get_app_crc_result;
use crate::session::spec_head;
use crate::session::lemma_after_one_is_consume_one;
use crate::session::lemma_consume_step;
use crate::transfer::spec_transfer_frames;
use crate::transfer::spec_transfer_run;

verus! {

/// The verdict of one node-update attempt, as the batch layer records it.
pub enum FlashStatus {
    /// The attempt failed; the reason, readable.
    Failed(String),
    /// The node already runs this image: nothing was erased or sent.
    CrcMatch,
    /// The image was erased, transferred and acknowledged in full.
    DownloadSuccess,
}

/// The same verdict with the failure reason kept structured, used by the
/// contracts; `FlashStatus` carries its rendered message.
#[derive(Debug, Clone, Copy, PartialEq, Eq, Structural)]
pub enum FlashOutcome {
    Success,
    CrcMatch,
    /// The preparatory hard reset got no reply at all.
    ResetFailed,
    /// Erase, download negotiation or transfer failed.
    Download(UdsClientError),
}

/// Whether a rendered status reports the structured outcome.
pub open spec fn spec_flash_status_matches(r: FlashStatus, o: FlashOutcome) -> bool {
    match (r, o) {
        (FlashStatus::DownloadSuccess, FlashOutcome::Success) => true,
        (FlashStatus::CrcMatch, FlashOutcome::CrcMatch) => true,
        (FlashStatus::Failed(m), FlashOutcome::ResetFailed) => m@
            == "Unable to communicate with ECU"@,
        (FlashStatus::Failed(m), FlashOutcome::Download(e)) => m@ == spec_client_error_message(e),
        _ => false,
    }
}

/// The readable phrase for each client error.
pub open spec fn spec_client_error_message(e: UdsClientError) -> Seq<char> {
    match e {
        UdsClientError::Transport => "no response received from the ECU"@,
        UdsClientError::EmptyResponse => "empty ECU response"@,
        UdsClientError::MalformedNegative => "malformed negative response"@,
        UdsClientError::Negative(_) => "negative response from the ECU"@,
        UdsClientError::UnexpectedSid(_) => "unexpected service id in ECU response"@,
        UdsClientError::TooShort => "ECU response too short"@,
        UdsClientError::ResetFailed => "ECU reset failed"@,
        UdsClientError::InvalidCrcLength => "invalid response length for CRC"@,
        UdsClientError::ChunkSizeInvalid => "ECU requested an unusable chunk size"@,
        UdsClientError::EraseNotStarted => "app erase failed, not started"@,
        UdsClientError::EraseFailed => "app erase failed"@,
        UdsClientError::EraseUnexpectedStatus(_) => "unexpected erase status from ECU"@,
        UdsClientError::EraseWrongLength => "unexpected response size from ECU"@,
        UdsClientError::EraseWrongSid(_) => "not a positive response for routine control"@,
        UdsClientError::EraseTimeout => "app erase did not report success in time"@,
    }
}

impl UdsClientError {
    /// The readable phrase for this error.
    pub fn message(&self) -> (r: String)
        ensures
            r@ == spec_client_error_message(*self),
    {
        match self {
            UdsClientError::Transport => String::from_str("no response received from the ECU"),
            UdsClientError::EmptyResponse => String::from_str("empty ECU response"),
            UdsClientError::MalformedNegative => String::from_str("malformed negative response"),
            UdsClientError::Negative(_) => String::from_str("negative response from the ECU"),
            UdsClientError::UnexpectedSid(_) => String::from_str(
                "unexpected service id in ECU response",
            ),
            UdsClientError::TooShort => String::from_str("ECU response too short"),
            UdsClientError::ResetFailed => String::from_str("ECU reset failed"),
            UdsClientError::InvalidCrcLength => String::from_str("invalid response length for CRC"),
            UdsClientError::ChunkSizeInvalid => String::from_str(
                "ECU requested an unusable chunk size",
            ),
            UdsClientError::EraseNotStarted => String::from_str("app erase failed, not started"),
            UdsClientError::EraseFailed => String::from_str("app erase failed"),
            UdsClientError::EraseUnexpectedStatus(_) => String::from_str(
                "unexpected erase status from ECU",
            ),
            UdsClientError::EraseWrongLength => String::from_str(
                "unexpected response size from ECU",
            ),
            UdsClientError::EraseWrongSid(_) => String::from_str(
                "not a positive response for routine control",
            ),
            UdsClientError::EraseTimeout => String::from_str(
                "app erase did not report success in time",
            ),
        }
    }
}

/// The descriptor every download opens with: no compression, no
/// encryption, four-byte fields.
pub open spec fn spec_default_descriptor(addr: u32, size: u32) -> UdsDownloadStart {
    UdsDownloadStart { compression: 0, encryption: 0, size_len: 4, addr_len: 4, size, addr }
}

/// The outcome of one whole download attempt over a reply script:
/// round-trips made, frames sent, and the result. The phases are erase,
/// download negotiation, chunked transfer, and — whether or not the
/// transfer completed — one Request Transfer Exit.
pub open spec fn spec_app_download(script: Seq<Option<Seq<u8>>>, file: Seq<u8>, addr: u32) -> (
    nat,
    Seq<Seq<u8>>,
    Result<(), UdsClientError>,
) {
    let erase = spec_app_erase(script);
    let erase_frames = spec_erase_sent(erase.0);
    match erase.1 {
        Err(e) => (erase.0, erase_frames, Err(e)),
        Ok(()) => {
            let s1 = spec_consume(script, erase.0);
            let dl_frame = spec_download_start_request(
                spec_default_descriptor(addr, file.len() as u32),
            );
            match spec_download_start_result(spec_head(s1)) {
                Err(e) => ((erase.0 + 1) as nat, erase_frames.push(dl_frame), Err(e)),
                Ok(params) => if params.chunksize < 2 {
                    (
                        (erase.0 + 1) as nat,
                        erase_frames.push(dl_frame),
                        Err(UdsClientError::ChunkSizeInvalid),
                    )
                } else {
                    let payload = (params.chunksize - 1) as nat;
                    let s2 = spec_consume(s1, 1);
                    let run = spec_transfer_run(s2, file, payload, 0);
                    (
                        (erase.0 + 1 + run.0 + 1) as nat,
                        erase_frames.push(dl_frame) + spec_transfer_frames(
                            file,
                            payload,
                            0,
                            run.0,
                        ) + seq![spec_transfer_exit_request()],
                        run.1,
                    )
                },
            }
        },
    }
}

/// Serving round-trips in two goes is serving them in one.
pub proof fn lemma_consume_add(s: Seq<Option<Seq<u8>>>, a: nat, b: nat)
    ensures
        spec_consume(spec_consume(s, a), b) == spec_consume(s, (a + b) as nat),
{
    if a <= s.len() {
        if b <= s.len() - a {
            assert(s.skip(a as int).skip(b as int) =~= s.skip(a as int + b as int));
        } else {
            assert(spec_consume(spec_consume(s, a), b) =~= Seq::<Option<Seq<u8>>>::empty());
            assert(spec_consume(s, (a + b) as nat) =~= Seq::<Option<Seq<u8>>>::empty());
        }
    } else {
        assert(spec_consume(s, a) =~= Seq::<Option<Seq<u8>>>::empty());
        if b == 0 {
            assert(spec_consume(spec_consume(s, a), b) =~= Seq::<Option<Seq<u8>>>::empty());
        }
        assert(spec_consume(s, (a + b) as nat) =~= Seq::<Option<Seq<u8>>>::empty());
    }
}

impl UdsClient {
    /// Negotiate the start of a download: the ECU replies with the length
    /// format byte and the chunk size it dictates for the transfer.
    pub fn download_start(&mut self, data: UdsDownloadStart) -> (r: Result<
        DownloadParams,
        UdsClientError,
    >)
        ensures
            final(self).transport.sent_log() == old(self).transport.sent_log().push(
                spec_download_start_request(data),
            ),
            r == spec_download_start_result(old(self).transport.next_reply()),
            final(self).transport.script() == crate::session::spec_script_after_one(
                old(self).transport.script(),
            ),
            final(self).tp_enabled == old(self).tp_enabled,
            final(self).interactive == old(self).interactive,
    {
        let frame = crate::frames::download_start_request(&data);
        let reply = self.transport.send_recv(frame.as_slice());
        crate::frames::decode_download_start_reply(&reply)
    }

    /// One whole download attempt: disable the keep-alive (the bootloader
    /// is not robust to tester-present traffic during erase and
    /// download), erase the application, negotiate the download, send
    /// every chunk, and request transfer exit whether or not the transfer
    /// completed — the exit's own reply never overrides the transfer's
    /// outcome.
    pub fn app_download(&mut self, file: &Vec<u8>, address: u32) -> (r: Result<
        (),
        UdsClientError,
    >)
        requires
            file@.len() <= u32::MAX,
        ensures
            ({
                let dl = spec_app_download(old(self).transport.script(), file@, address);
                &&& r == dl.2
                &&& final(self).transport.script() == spec_consume(
                    old(self).transport.script(),
                    dl.0,
                )
                &&& final(self).transport.sent_log() == old(self).transport.sent_log() + dl.1
            }),
            final(self).tp_enabled == false,
            final(self).interactive == old(self).interactive,
    {
        let ghost script0 = self.transport.script();
        let ghost sent0 = self.transport.sent_log();
        let _ = self.stop_persistent_tp();
        match self.app_erase() {
            Err(e) => {
                return Err(e);
            },
            Ok(()) => {},
        }
        let ghost erase = spec_app_erase(script0);
        let size = file.len() as u32;
        let mut params = match self.download_start(UdsDownloadStart::default(address, size)) {
            Err(e) => {
                proof {
                    lemma_consume_step(script0, erase.0);
                    assert(self.transport.sent_log() =~= sent0 + spec_erase_sent(erase.0).push(
                        spec_download_start_request(spec_default_descriptor(address, size)),
                    ));
                }
                return Err(e);
            },
            Ok(p) => p,
        };
        proof {
            lemma_consume_step(script0, erase.0);
        }
        if params.chunksize < 2 {
            proof {
                assert(self.transport.sent_log() =~= sent0 + spec_erase_sent(erase.0).push(
                    spec_download_start_request(spec_default_descriptor(address, size)),
                ));
            }
            return Err(UdsClientError::ChunkSizeInvalid);
        }
        let ghost s2 = self.transport.script();
        let ghost payload = (params.chunksize - 1) as nat;
        let tr = self.transfer_file(&mut params, file);
        let ghost run = spec_transfer_run(s2, file@, payload, 0);
        let _ = self.transfer_stop();
        proof {
            let dl = spec_app_download(script0, file@, address);
            lemma_consume_add(script0, (erase.0 + 1) as nat, run.0);
            lemma_consume_step(script0, (erase.0 + 1 + run.0) as nat);
            lemma_consume_add(script0, erase.0, 1);
            assert(self.transport.script() == spec_consume(script0, dl.0));
            assert(self.transport.sent_log() =~= sent0 + (spec_erase_sent(erase.0).push(
                spec_download_start_request(spec_default_descriptor(address, size)),
            ) + spec_transfer_frames(file@, payload, 0, run.0) + seq![
                spec_transfer_exit_request(),
            ]));
        }
        tr
    }

    /// One node-update attempt, CRC precheck included. With `skip` set,
    /// the last four bytes of the image are its embedded little-endian
    /// CRC; if the node reports the same CRC, the download is skipped
    /// entirely — no erase, download or transfer frame touches the bus —
    /// and a failed CRC read simply proceeds with the download, the
    /// precheck being an optimization and no correctness gate. A
    /// non-interactive session hard-resets the node first, since no
    /// operator can power-cycle it into its bootloader.
    #[verifier::rlimit(50)]
    pub fn download_app_to_target(&mut self, file: &Vec<u8>, skip: bool) -> (r: FlashStatus)
        requires
            file@.len() <= u32::MAX,
            skip ==> file@.len() >= 4,
        ensures
            ({
                let o = spec_download_app(
                    old(self).transport.script(),
                    file@,
                    skip,
                    old(self).interactive,
                );
                &&& spec_flash_status_matches(r, o.2)
                &&& final(self).transport.script() == spec_consume(
                    old(self).transport.script(),
                    o.0,
                )
                &&& final(self).transport.sent_log() == old(self).transport.sent_log() + o.1
                &&& final(self).tp_enabled == (match o.2 {
                    FlashOutcome::CrcMatch => old(self).tp_enabled,
                    FlashOutcome::ResetFailed => true,
                    _ => false,
                })
            }),
            final(self).interactive == old(self).interactive,
    {
        let ghost script0 = self.transport.script();
        let ghost sent0 = self.transport.sent_log();
        if skip {
            let n = file.len();
            let tail = vstd::slice::slice_subrange(file.as_slice(), n - 4, n);
            let embedded = u32_from_le(tail);
            match get_app_crc(self) {
                Ok(node_crc) => {
                    if node_crc == embedded {
                        return FlashStatus::CrcMatch;
                    }
                },
                Err(_) => {},
            }
        }
        let _ = self.start_persistent_tp();
        if !self.interactive {
            match self.ecu_reset(SupportedResetTypes::Hard, false) {
                Err(_) => {
                    proof {
                        if skip {
                            lemma_consume_step(script0, 1);
                            assert(self.transport.sent_log() =~= sent0 + seq![
                                spec_did_read_request(UDS_DID_CRC),
                                spec_ecu_reset_request(SupportedResetTypes::Hard),
                            ]);
                        } else {
                            assert(self.transport.sent_log() =~= sent0 + seq![
                                spec_ecu_reset_request(SupportedResetTypes::Hard),
                            ]);
                        }
                    }
                    return FlashStatus::Failed(
                        String::from_str("Unable to communicate with ECU"),
                    );
                },
                Ok(()) => {},
            }
        }
        let ghost pre = self.transport.script();
        let result = self.app_download(file, APP_DOWNLOAD_ADDRESS);
        proof {
            let o = spec_download_app(script0, file@, skip, old(self).interactive);
            let skip_n: nat = if skip {
                1nat
            } else {
                0nat
            };
            let reset_n: nat = if old(self).interactive {
                0nat
            } else {
                1nat
            };
            let s1 = spec_consume(script0, skip_n);
            lemma_after_one_is_consume_one(script0);
            assert(spec_consume(script0, 0) =~= script0);
            lemma_after_one_is_consume_one(s1);
            lemma_consume_add(script0, skip_n, reset_n);
            assert(pre == spec_consume(script0, (skip_n + reset_n) as nat));
            let dl = spec_app_download(pre, file@, APP_DOWNLOAD_ADDRESS);
            lemma_consume_add(script0, (skip_n + reset_n) as nat, dl.0);
            assert(o.0 == skip_n + reset_n + dl.0);
            assert(self.transport.script() == spec_consume(script0, o.0));
            assert(self.transport.sent_log() =~= sent0 + o.1);
        }
        match result {
            Ok(()) => FlashStatus::DownloadSuccess,
            Err(e) => FlashStatus::Failed(e.message()),
        }
    }
}

/// The outcome of one whole node-update attempt over a reply script:
/// round-trips, frames sent, and the structured verdict.
pub open spec fn spec_download_app(
    script: Seq<Option<Seq<u8>>>,
    file: Seq<u8>,
    skip: bool,
    interactive: bool,
) -> (nat, Seq<Seq<u8>>, FlashOutcome) {
    let embedded = spec_u32_from_le(file.subrange(file.len() - 4, file.len() as int));
    if skip && spec_get_app_crc_result(spec_head(script)) == Ok::<u32, UdsClientError>(embedded) {
        (1nat, seq![spec_did_read_request(UDS_DID_CRC)], FlashOutcome::CrcMatch)
    } else {
        let pre_n: nat = if skip {
            1nat
        } else {
            0nat
        };
        let pre_frames: Seq<Seq<u8>> = if skip {
            seq![spec_did_read_request(UDS_DID_CRC)]
        } else {
            Seq::empty()
        };
        let s1 = spec_consume(script, pre_n);
        if !interactive {
            match spec_ecu_reset_result(spec_head(s1), false) {
                Err(_) => (
                    (pre_n + 1) as nat,
                    pre_frames.push(spec_ecu_reset_request(SupportedResetTypes::Hard)),
                    FlashOutcome::ResetFailed,
                ),
                Ok(()) => {
                    let dl = spec_app_download(
                        spec_consume(s1, 1),
                        file,
                        APP_DOWNLOAD_ADDRESS,
                    );
                    (
                        (pre_n + 1 + dl.0) as nat,
                        pre_frames.push(spec_ecu_reset_request(SupportedResetTypes::Hard)) + dl.1,
                        match dl.2 {
                            Ok(()) => FlashOutcome::Success,
                            Err(e) => FlashOutcome::Download(e),
                        },
                    )
                },
            }
        } else {
            let dl = spec_app_download(s1, file, APP_DOWNLOAD_ADDRESS);
            (
                (pre_n + dl.0) as nat,
                pre_frames + dl.1,
                match dl.2 {
                    Ok(()) => FlashOutcome::Success,
                    Err(e) => FlashOutcome::Download(e),
                },
            )
        }
    }
}

/// CRC-skip idempotence: when the node's reported CRC equals the image's
/// embedded CRC, the attempt ends in `CrcMatch` after the one identifier
/// read — zero erase, download or transfer frames touch the bus.
pub proof fn lemma_crc_skip_idempotence(
    script: Seq<Option<Seq<u8>>>,
    file: Seq<u8>,
    interactive: bool,
)
    requires
        file.len() >= 4,
        spec_get_app_crc_result(spec_head(script)) == Ok::<u32, UdsClientError>(
            spec_u32_from_le(file.subrange(file.len() - 4, file.len() as int)),
        ),
    ensures
        spec_download_app(script, file, true, interactive).2 == FlashOutcome::CrcMatch,
        spec_download_app(script, file, true, interactive).0 == 1,
        spec_download_app(script, file, true, interactive).1 == seq![
            spec_did_read_request(UDS_DID_CRC),
        ],
{
}

} // verus!
