//! The chunked transfer phase of a download. The ECU dictates a chunk
//! size C in its Request Download reply; each protocol chunk reserves its
//! final byte for the checksum, so the file is cut into payloads of
//! C - 1 bytes, and a file of S bytes crosses the bus in exactly
//! ceil(S / (C - 1)) Transfer Data frames, each carrying the rolling
//! sequence counter and the payload's CRC-8.

use vstd::arithmetic::div_mod::lemma_add_mod_noop;
use vstd::arithmetic::div_mod::lemma_div_is_strictly_smaller;
use vstd::arithmetic::div_mod::lemma_div_multiples_vanish_fancy;
use vstd::arithmetic::div_mod::lemma_div_nonincreasing;
use vstd::arithmetic::div_mod::lemma_fundamental_div_mod;
use vstd::arithmetic::div_mod::lemma_mod_add_multiples_vanish;
use vstd::arithmetic::div_mod::lemma_small_mod;
use vstd::arithmetic::mul::lemma_mul_basics;
use vstd::arithmetic::mul::lemma_mul_inequality;
use vstd::arithmetic::mul::lemma_mul_is_commutative;
use vstd::arithmetic::mul::lemma_mul_is_distributive_add;
use vstd::arithmetic::mul::lemma_mul_is_distributive_sub;
use vstd::prelude::*;
use crate::frames::DownloadParams;
use crate::frames::NEGATIVE_REPLY_SID;
use crate::frames::UdsClientError;
use crate::frames::spec_transfer_data_request;
use crate::frames::spec_transfer_exit_request;
use crate::frames::spec_transfer_result;
use crate::frames::transfer_data_request;
use crate::frames::transfer_exit_request;
use crate::nrc::classify_nrc;
use crate::session::UdsClient;
use crate::session::spec_consume;
use crate::session::spec_head;
use crate::session::spec_script_after_one;

verus! {

/// How many chunks a file of `len` bytes makes with `payload` bytes per
/// chunk: the last chunk may be short, and an empty file makes none.
pub open spec fn spec_num_chunks(len: nat, payload: nat) -> nat
    recommends
        payload >= 1,
{
    if len % payload == 0 {
        len / payload
    } else {
        len / payload + 1
    }
}

/// Where chunk `i` ends: one payload further, or at the file's end.
pub open spec fn spec_chunk_end(len: nat, payload: nat, i: nat) -> nat {
    if (i + 1) * payload <= len {
        (i + 1) * payload
    } else {
        len
    }
}

/// The bytes of chunk `i`.
pub open spec fn spec_chunk(file: Seq<u8>, payload: nat, i: nat) -> Seq<u8>
    recommends
        payload >= 1,
        i < spec_num_chunks(file.len(), payload),
{
    file.subrange((i * payload) as int, spec_chunk_end(file.len(), payload, i) as int)
}

/// The sequence counter after `k` increments: wrapping at 256.
pub open spec fn spec_wrap_add(c0: u8, k: nat) -> u8 {
    ((c0 + k) % 256) as u8
}

/// The Transfer Data frames for the first `count` chunks, starting from
/// sequence counter `c0`.
pub open spec fn spec_transfer_frames(file: Seq<u8>, payload: nat, c0: u8, count: nat) -> Seq<
    Seq<u8>,
> {
    Seq::new(
        count,
        |j: int| spec_transfer_data_request(spec_wrap_add(c0, j as nat), spec_chunk(file, payload, j as nat)),
    )
}

/// The chunk count is the usual ceiling division.
pub proof fn lemma_num_chunks_is_ceil(len: nat, payload: nat)
    requires
        payload >= 1,
    ensures
        spec_num_chunks(len, payload) == (len + payload - 1) as int / payload as int,
{
    let p = payload as int;
    let q = len as int / p;
    let r = len as int % p;
    lemma_fundamental_div_mod(len as int, p);
    if r == 0 {
        assert(len as int + p - 1 == p * q + (p - 1));
        lemma_div_multiples_vanish_fancy(q, p - 1, p);
    } else {
        assert(p * (q + 1) == p * q + p) by {
            lemma_mul_is_distributive_add(p, q, 1);
            lemma_mul_basics(p);
        }
        assert(len as int + p - 1 == p * (q + 1) + (r - 1));
        lemma_div_multiples_vanish_fancy(q + 1, r - 1, p);
    }
}

/// The chunk count covers the file and is never one chunk too many.
pub proof fn lemma_num_chunks_bounds(len: nat, payload: nat)
    requires
        payload >= 1,
    ensures
        len <= spec_num_chunks(len, payload) * payload,
        len > 0 ==> (spec_num_chunks(len, payload) - 1) * payload < len,
        len == 0 ==> spec_num_chunks(len, payload) == 0,
        spec_num_chunks(len, payload) <= len,
{
    let p = payload as int;
    let q = len as int / p;
    let r = len as int % p;
    let n = spec_num_chunks(len, payload);
    lemma_fundamental_div_mod(len as int, p);
    if r == 0 {
        assert(n * payload == p * q) by {
            lemma_mul_is_commutative(n as int, p);
        }
        if len > 0 {
            assert((n - 1) * payload == p * q - p) by {
                lemma_mul_is_commutative(n as int - 1, p);
                lemma_mul_is_distributive_sub(p, q, 1);
                lemma_mul_basics(p);
            }
        }
        assert(n <= len) by {
            lemma_div_nonincreasing(len as int, p);
        }
    } else {
        assert(n * payload == p * q + p) by {
            lemma_mul_is_commutative(n as int, p);
            lemma_mul_is_distributive_add(p, q, 1);
            lemma_mul_basics(p);
        }
        assert((n - 1) * payload == p * q) by {
            lemma_mul_is_commutative(n as int - 1, p);
        }
        assert(n <= len) by {
            lemma_div_is_strictly_smaller(len as int, p);
        }
    }
}

/// After 256 more chunks the sequence counter is back where it stood:
/// the counter is the start value plus the chunk index, modulo 256, so
/// chunk `k + 256` carries the same counter byte as chunk `k`, and a
/// download of 256 chunks ends where it began, without a gap.
pub proof fn lemma_sequence_counter_wraps(c0: u8, k: nat)
    ensures
        spec_wrap_add(c0, k + 256) == spec_wrap_add(c0, k),
        spec_wrap_add(c0, 256) == c0,
{
    lemma_mod_add_multiples_vanish(c0 + k as int, 256);
    lemma_mod_add_multiples_vanish(c0 as int, 256);
    lemma_small_mod(c0 as nat, 256);
}

/// Checksum round trip: a receiver that recomputes the CRC-8 over the
/// payload bytes a Transfer Data frame carries obtains exactly the
/// frame's final byte — the checksum is a function of the payload alone.
pub proof fn lemma_transfer_frame_checksum_roundtrip(counter: u8, chunk: Seq<u8>)
    ensures
        ({
            let frame = spec_transfer_data_request(counter, chunk);
            &&& frame.len() == chunk.len() + 3
            &&& frame.subrange(2, frame.len() - 1) == chunk
            &&& frame.last() == crate::crc8::spec_crc8(frame.subrange(2, frame.len() - 1))
        }),
{
    let frame = spec_transfer_data_request(counter, chunk);
    assert(frame.subrange(2, frame.len() - 1) =~= chunk);
}

/// The concatenation of the first `k` chunks.
pub open spec fn spec_concat_chunks(file: Seq<u8>, payload: nat, k: nat) -> Seq<u8>
    decreases k,
{
    if k == 0 {
        Seq::empty()
    } else {
        spec_concat_chunks(file, payload, (k - 1) as nat) + spec_chunk(
            file,
            payload,
            (k - 1) as nat,
        )
    }
}

proof fn lemma_concat_chunks_prefix(file: Seq<u8>, payload: nat, k: nat)
    requires
        payload >= 1,
        k <= spec_num_chunks(file.len(), payload),
    ensures
        k == 0 ==> spec_concat_chunks(file, payload, k) == Seq::<u8>::empty(),
        k > 0 ==> spec_concat_chunks(file, payload, k) == file.subrange(
            0,
            spec_chunk_end(file.len(), payload, (k - 1) as nat) as int,
        ),
    decreases k,
{
    lemma_num_chunks_bounds(file.len(), payload);
    if k > 0 {
        lemma_concat_chunks_prefix(file, payload, (k - 1) as nat);
        let n = spec_num_chunks(file.len(), payload);
        proof_chunk_start_in_file(file.len(), payload, (k - 1) as nat);
        if k == 1 {
            assert(spec_concat_chunks(file, payload, 1) =~= spec_chunk(file, payload, 0));
            assert(spec_chunk(file, payload, 0) =~= file.subrange(
                0,
                spec_chunk_end(file.len(), payload, 0) as int,
            ));
        } else {
            let a = spec_chunk_end(file.len(), payload, (k - 2) as nat) as int;
            let b = spec_chunk_end(file.len(), payload, (k - 1) as nat) as int;
            assert(a == (k - 1) * payload) by {
                proof_chunk_start_in_file(file.len(), payload, (k - 1) as nat);
            }
            assert(file.subrange(0, a) + file.subrange(a, b) =~= file.subrange(0, b));
        }
    }
}

/// The start of chunk `i` lies inside the file, and every chunk before
/// the last ends one full payload further.
proof fn proof_chunk_start_in_file(len: nat, payload: nat, i: nat)
    requires
        payload >= 1,
        i < spec_num_chunks(len, payload),
    ensures
        i * payload < len,
        spec_chunk_end(len, payload, (i - 1) as nat) == i * payload || i == 0,
        i * payload <= spec_chunk_end(len, payload, i) <= len,
        i + 1 < spec_num_chunks(len, payload) ==> spec_chunk_end(len, payload, i) == (i + 1)
            * payload,
{
    let n = spec_num_chunks(len, payload);
    lemma_num_chunks_bounds(len, payload);
    assert(i * payload < len) by {
        lemma_mul_inequality(i as int, n as int - 1, payload as int);
    }
    if i > 0 {
        assert(spec_chunk_end(len, payload, (i - 1) as nat) == i * payload) by {
            lemma_mul_is_distributive_add(payload as int, i as int - 1, 1);
            lemma_mul_is_commutative(i as int - 1, payload as int);
            lemma_mul_is_commutative(i as int, payload as int);
        }
    }
    assert(i * payload <= spec_chunk_end(len, payload, i)) by {
        lemma_mul_inequality(i as int, i as int + 1, payload as int);
    }
    if i + 1 < n {
        assert((i + 1) * payload <= len) by {
            lemma_mul_inequality(i as int + 1, n as int - 1, payload as int);
        }
    }
}

/// Concatenating every chunk of a file reproduces the file exactly: the
/// chunking loses no byte and adds none.
pub proof fn lemma_chunks_reassemble(file: Seq<u8>, payload: nat)
    requires
        payload >= 1,
    ensures
        spec_concat_chunks(file, payload, spec_num_chunks(file.len(), payload)) == file,
{
    let n = spec_num_chunks(file.len(), payload);
    lemma_num_chunks_bounds(file.len(), payload);
    lemma_concat_chunks_prefix(file, payload, n);
    if n == 0 {
        assert(file =~= Seq::<u8>::empty());
    } else {
        proof_chunk_start_in_file(file.len(), payload, (n - 1) as nat);
        assert(spec_chunk_end(file.len(), payload, (n - 1) as nat) == file.len());
        assert(file.subrange(0, file.len() as int) =~= file);
    }
}

/// The outcome of the transfer loop from chunk `i` on, over a reply
/// script: how many Transfer Data round-trips it makes, and its result —
/// the first rejected or unanswered chunk is terminal.
pub open spec fn spec_transfer_run(
    script: Seq<Option<Seq<u8>>>,
    file: Seq<u8>,
    payload: nat,
    i: nat,
) -> (nat, Result<(), UdsClientError>)
    recommends
        payload >= 1,
        i <= spec_num_chunks(file.len(), payload),
    decreases spec_num_chunks(file.len(), payload) - i,
{
    if i >= spec_num_chunks(file.len(), payload) {
        (0nat, Ok(()))
    } else {
        match spec_transfer_result(spec_head(script)) {
            Err(e) => (1nat, Err(e)),
            Ok(()) => {
                let rest = spec_transfer_run(
                    spec_script_after_one(script),
                    file,
                    payload,
                    i + 1,
                );
                ((rest.0 + 1) as nat, rest.1)
            },
        }
    }
}

/// Decode a Transfer Data acknowledgement.
pub fn decode_transfer_reply(reply: &Option<Vec<u8>>) -> (r: Result<(), UdsClientError>)
    ensures
        r == spec_transfer_result(reply.deep_view()),
{
    match reply {
        None => Err(UdsClientError::Transport),
        Some(resp) => {
            proof {
                assert(resp.deep_view() =~= resp@);
            }
            if resp.len() == 0 {
                Err(UdsClientError::EmptyResponse)
            } else if resp[0] == NEGATIVE_REPLY_SID {
                Err(UdsClientError::Negative(classify_nrc(resp[resp.len() - 1])))
            } else {
                Ok(())
            }
        },
    }
}

impl UdsClient {
    /// Send one chunk as a Transfer Data frame carrying the current
    /// sequence counter and the chunk's checksum; the counter advances,
    /// wrapping at 256, whether or not the ECU accepted the chunk.
    pub fn transfer_payload(&mut self, params: &mut DownloadParams, data: &[u8]) -> (r: Result<
        (),
        UdsClientError,
    >)
        ensures
            final(self).transport.sent_log() == old(self).transport.sent_log().push(
                spec_transfer_data_request(old(params).counter, data@),
            ),
            r == spec_transfer_result(old(self).transport.next_reply()),
            final(self).transport.script() == spec_script_after_one(old(self).transport.script()),
            final(params).counter == spec_wrap_add(old(params).counter, 1),
            final(params).chunksize == old(params).chunksize,
            final(params).chunksize_len == old(params).chunksize_len,
            final(self).tp_enabled == old(self).tp_enabled,
            final(self).interactive == old(self).interactive,
    {
        let frame = transfer_data_request(params.counter, data);
        params.counter = if params.counter == 255 {
            0
        } else {
            params.counter + 1
        };
        proof {
            if old(params).counter == 255 {
                assert((255 + 1nat) % 256 == 0);
            } else {
                lemma_small_mod((old(params).counter + 1) as nat, 256);
            }
        }
        let reply = self.transport.send_recv(frame.as_slice());
        decode_transfer_reply(&reply)
    }

    /// Tell the ECU the transfer is over, returning it to a clean
    /// diagnostic state; the reply's content is not interpreted.
    pub fn transfer_stop(&mut self) -> (r: Result<(), UdsClientError>)
        ensures
            final(self).transport.sent_log() == old(self).transport.sent_log().push(
                spec_transfer_exit_request(),
            ),
            r == (match old(self).transport.next_reply() {
                None => Err::<(), UdsClientError>(UdsClientError::Transport),
                Some(_) => Ok::<(), UdsClientError>(()),
            }),
            final(self).transport.script() == spec_script_after_one(old(self).transport.script()),
            final(self).tp_enabled == old(self).tp_enabled,
            final(self).interactive == old(self).interactive,
    {
        let frame = transfer_exit_request();
        let reply = self.transport.send_recv(frame.as_slice());
        match reply {
            None => Err(UdsClientError::Transport),
            Some(_) => Ok(()),
        }
    }

    /// Send a whole file chunk by chunk, stopping at the first chunk the
    /// ECU rejects or leaves unanswered. On success exactly
    /// ceil(len / (chunksize - 1)) frames cross the bus, carrying the
    /// file's bytes in order with consecutive wrapping counters.
    pub fn transfer_file(&mut self, params: &mut DownloadParams, file: &Vec<u8>) -> (r: Result<
        (),
        UdsClientError,
    >)
        requires
            old(params).chunksize >= 2,
        ensures
            ({
                let payload = (old(params).chunksize - 1) as nat;
                let run = spec_transfer_run(old(self).transport.script(), file@, payload, 0);
                &&& r == run.1
                &&& final(self).transport.script() == spec_consume(
                    old(self).transport.script(),
                    run.0,
                )
                &&& final(self).transport.sent_log() == old(self).transport.sent_log()
                    + spec_transfer_frames(file@, payload, old(params).counter, run.0)
                &&& final(params).counter == spec_wrap_add(old(params).counter, run.0)
            }),
            final(params).chunksize == old(params).chunksize,
            final(params).chunksize_len == old(params).chunksize_len,
            final(self).tp_enabled == old(self).tp_enabled,
            final(self).interactive == old(self).interactive,
    {
        let payload: usize = (params.chunksize - 1) as usize;
        let len = file.len();
        let ghost p = payload as nat;
        let ghost n = spec_num_chunks(file@.len(), p);
        let ghost script0 = self.transport.script();
        let ghost sent0 = self.transport.sent_log();
        let ghost c0 = params.counter;
        let ghost run0 = spec_transfer_run(script0, file@, p, 0);
        proof {
            lemma_num_chunks_bounds(file@.len(), p);
            lemma_mul_basics(p as int);
            assert(spec_consume(script0, 0) =~= script0);
            assert(sent0 + spec_transfer_frames(file@, p, c0, 0) =~= sent0);
            lemma_small_mod(c0 as nat, 256);
        }
        let mut offset: usize = 0;
        let mut i: usize = 0;
        while offset < len
            invariant
                old(params).chunksize >= 2,
                payload == old(params).chunksize - 1,
                p == payload as nat,
                len == file@.len(),
                n == spec_num_chunks(file@.len(), p),
                script0 == old(self).transport.script(),
                sent0 == old(self).transport.sent_log(),
                c0 == old(params).counter,
                run0 == spec_transfer_run(script0, file@, p, 0),
                i <= n,
                i < n ==> offset == i * p,
                i == n ==> offset == len,
                run0 == ({
                    let rest = spec_transfer_run(self.transport.script(), file@, p, i as nat);
                    ((i + rest.0) as nat, rest.1)
                }),
                self.transport.script() == spec_consume(script0, i as nat),
                self.transport.sent_log() == sent0 + spec_transfer_frames(file@, p, c0, i as nat),
                params.counter == spec_wrap_add(c0, i as nat),
                params.chunksize == old(params).chunksize,
                params.chunksize_len == old(params).chunksize_len,
                self.tp_enabled == old(self).tp_enabled,
                self.interactive == old(self).interactive,
            decreases len - offset,
        {
            proof {
                lemma_num_chunks_bounds(file@.len(), p);
                assert(i < n);
            }
            let end = if len - offset > payload {
                offset + payload
            } else {
                len
            };
            proof {
                proof_chunk_start_in_file(file@.len(), p, i as nat);
                assert((i + 1) * p == i * p + p) by {
                    lemma_mul_is_distributive_add(p as int, i as int, 1);
                    lemma_mul_is_commutative(i as int + 1, p as int);
                    lemma_mul_is_commutative(i as int, p as int);
                }
                assert(end == spec_chunk_end(file@.len(), p, i as nat));
            }
            let chunk = vstd::slice::slice_subrange(file.as_slice(), offset, end);
            proof {
                assert(chunk@ == spec_chunk(file@, p, i as nat));
            }
            let res = self.transfer_payload(params, chunk);
            proof {
                crate::session::lemma_consume_step(script0, i as nat);
                assert(self.transport.script() == spec_consume(script0, (i + 1) as nat));
                assert(self.transport.sent_log() =~= sent0 + spec_transfer_frames(
                    file@,
                    p,
                    c0,
                    (i + 1) as nat,
                ));
                assert(params.counter == spec_wrap_add(c0, (i + 1) as nat)) by {
                    lemma_add_mod_noop(c0 + i as int, 1, 256);
                    lemma_small_mod(1nat, 256);
                }
            }
            match res {
                Err(e) => {
                    return Err(e);
                },
                Ok(()) => {},
            }
            offset = end;
            i = i + 1;
            proof {
                if i < n {
                    proof_chunk_start_in_file(file@.len(), p, i as nat);
                    assert(offset == i * p);
                } else {
                    assert(i == n);
                    assert(offset == len) by {
                        if offset < len {
                            lemma_mul_inequality(n as int, i as int, p as int);
                        }
                    }
                }
            }
        }
        proof {
            lemma_num_chunks_bounds(file@.len(), p);
            assert(i == n) by {
                if i < n {
                    lemma_mul_inequality(i as int, n as int - 1, p as int);
                }
            }
        }
        Ok(())
    }
}

} // verus!
