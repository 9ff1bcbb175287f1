//! The over-the-air update engine: a state machine that streams one
//! inbound firmware image into an inactive flash slot.
//!
//! Per request the engine runs
//! `Awaiting -> StreamingPreamble -> StreamingBody -> Finalizing ->
//! {Committed | Failed}`. The request body opens with a multipart-style
//! header section; the engine detects its end heuristically, by counting
//! consecutive bytes equal to LF (10) or CR (13) — once four such bytes
//! have been seen in a row, every later byte is firmware payload. Payload
//! bytes are collected into fixed 4096-byte blocks, each handed to the
//! flash target the moment it fills; at end of stream a non-empty partial
//! final block is flushed as well, so no payload byte is ever dropped.
//! Validation (finalize) and the boot-target switch follow; a failure of
//! either ends the session in `Failed` without the boot target ever having
//! been switched, leaving the running firmware bootable.
//!
//! The surrounding program performs the reads and the flash writes; the
//! machine consumes bytes and says which blocks to write and when to
//! finalize, switch and restart.

use vstd::prelude::*;
use vstd::seq_lib::lemma_flatten_concat;

verus! {

/// Payload bytes are grouped into blocks of this many bytes.
pub const OTA_BLOCK_SIZE: usize = 4096;

/// Phase of one OTA session.
#[derive(Clone, Copy, PartialEq, Eq, Structural, Debug)]
pub enum OtaPhase {
    /// No request body consumed yet.
    Awaiting,
    /// Consuming the multipart-style header section.
    StreamingPreamble,
    /// Consuming firmware payload into the block buffer.
    StreamingBody,
    /// Stream exhausted; image validation and boot switch pending.
    Finalizing,
    /// Image validated and marked as the next boot target.
    Committed,
    /// The session failed; the previous boot target is untouched.
    Failed,
}

/// Why an OTA session failed.
#[derive(Clone, Copy, PartialEq, Eq, Structural, Debug)]
pub enum OtaError {
    /// A flash write of a payload block failed; the session aborted.
    WriteFailed,
    /// Image validation failed.
    FinalizeFailed,
    /// Marking the new image as boot target failed.
    BootSwitchFailed,
}

/// A byte that counts towards the preamble/payload separator.
pub open spec fn spec_is_crlf(b: u8) -> bool {
    b == 10 || b == 13
}

/// Folds the body bytes consumed so far into (separator seen, current
/// consecutive CR/LF run, payload bytes). The separator is seen once four
/// CR/LF bytes have occurred in a row; the payload is every byte strictly
/// after the fourth byte of that run, however the bytes were chunked.
pub open spec fn spec_scan(input: Seq<u8>) -> (bool, nat, Seq<u8>)
    decreases input.len(),
{
    if input.len() == 0 {
        (false, 0nat, Seq::<u8>::empty())
    } else {
        let prev = spec_scan(input.drop_last());
        let b = input.last();
        if prev.0 {
            (true, prev.1, prev.2.push(b))
        } else {
            let run: nat = if spec_is_crlf(b) {
                prev.1 + 1
            } else {
                0nat
            };
            (run >= 4, run, Seq::<u8>::empty())
        }
    }
}

/// Whether the preamble/payload separator has been seen.
pub open spec fn spec_preamble_done(input: Seq<u8>) -> bool {
    spec_scan(input).0
}

/// The firmware payload within the body bytes consumed so far.
pub open spec fn spec_payload(input: Seq<u8>) -> Seq<u8> {
    spec_scan(input).2
}

/// Every flushed block is non-empty, at most one block long, and all but
/// the last are exactly one block long.
pub open spec fn spec_blocks_wf(blocks: Seq<Seq<u8>>) -> bool {
    forall|i: int|
        0 <= i < blocks.len() ==> {
            &&& 0 < (#[trigger] blocks[i]).len() <= OTA_BLOCK_SIZE
            &&& (i < blocks.len() - 1 ==> blocks[i].len() == OTA_BLOCK_SIZE)
        }
}

/// The bytes of `Error writing OTA`.
pub open spec fn spec_msg_write() -> Seq<u8> {
    seq![69u8, 114u8, 114u8, 111u8, 114u8, 32u8, 119u8, 114u8, 105u8, 116u8, 105u8, 110u8, 103u8, 32u8, 79u8, 84u8, 65u8]
}

/// Builds the bytes of `Error writing OTA`.
fn push_msg_write(v: &mut Vec<u8>)
    ensures
        final(v)@ == old(v)@ + spec_msg_write(),
{
    v.push(69);
    v.push(114);
    v.push(114);
    v.push(111);
    v.push(114);
    v.push(32);
    v.push(119);
    v.push(114);
    v.push(105);
    v.push(116);
    v.push(105);
    v.push(110);
    v.push(103);
    v.push(32);
    v.push(79);
    v.push(84);
    v.push(65);
    proof {
        assert(v@ =~= old(v)@ + spec_msg_write());
    }
}

/// The bytes of `Error finalizing OTA`.
pub open spec fn spec_msg_finalize() -> Seq<u8> {
    seq![69u8, 114u8, 114u8, 111u8, 114u8, 32u8, 102u8, 105u8, 110u8, 97u8, 108u8, 105u8, 122u8, 105u8, 110u8, 103u8, 32u8, 79u8, 84u8, 65u8]
}

/// Builds the bytes of `Error finalizing OTA`.
fn push_msg_finalize(v: &mut Vec<u8>)
    ensures
        final(v)@ == old(v)@ + spec_msg_finalize(),
{
    v.push(69);
    v.push(114);
    v.push(114);
    v.push(111);
    v.push(114);
    v.push(32);
    v.push(102);
    v.push(105);
    v.push(110);
    v.push(97);
    v.push(108);
    v.push(105);
    v.push(122);
    v.push(105);
    v.push(110);
    v.push(103);
    v.push(32);
    v.push(79);
    v.push(84);
    v.push(65);
    proof {
        assert(v@ =~= old(v)@ + spec_msg_finalize());
    }
}

/// The bytes of `Error setting OTA as boot partition`.
pub open spec fn spec_msg_boot() -> Seq<u8> {
    seq![69u8, 114u8, 114u8, 111u8, 114u8, 32u8, 115u8, 101u8, 116u8, 116u8, 105u8, 110u8, 103u8, 32u8, 79u8, 84u8, 65u8, 32u8, 97u8, 115u8, 32u8, 98u8, 111u8, 111u8, 116u8, 32u8, 112u8, 97u8, 114u8, 116u8, 105u8, 116u8, 105u8, 111u8, 110u8]
}

/// Builds the bytes of `Error setting OTA as boot partition`.
fn push_msg_boot(v: &mut Vec<u8>)
    ensures
        final(v)@ == old(v)@ + spec_msg_boot(),
{
    v.push(69);
    v.push(114);
    v.push(114);
    v.push(111);
    v.push(114);
    v.push(32);
    v.push(115);
    v.push(101);
    v.push(116);
    v.push(116);
    v.push(105);
    v.push(110);
    v.push(103);
    v.push(32);
    v.push(79);
    v.push(84);
    v.push(65);
    v.push(32);
    v.push(97);
    v.push(115);
    v.push(32);
    v.push(98);
    v.push(111);
    v.push(111);
    v.push(116);
    v.push(32);
    v.push(112);
    v.push(97);
    v.push(114);
    v.push(116);
    v.push(105);
    v.push(116);
    v.push(105);
    v.push(111);
    v.push(110);
    proof {
        assert(v@ =~= old(v)@ + spec_msg_boot());
    }
}

/// The diagnostic body of the handler's answer: empty for a committed
/// session, the step-specific message for a failed one.
pub open spec fn spec_response_body(e: Option<OtaError>) -> Seq<u8> {
    match e {
        None => Seq::<u8>::empty(),
        Some(OtaError::WriteFailed) => spec_msg_write(),
        Some(OtaError::FinalizeFailed) => spec_msg_finalize(),
        Some(OtaError::BootSwitchFailed) => spec_msg_boot(),
    }
}

/// One inbound update request's state. `stream` records every body byte
/// consumed and `flushed` every block handed to the flash target, so the
/// machine's contracts are functions of the exact byte stream.
pub struct OtaSession {
    pub phase: OtaPhase,
    /// The request's declared content length, kept for diagnostics.
    pub declared_len: u64,
    /// Consecutive CR/LF bytes seen, meaningful while in the preamble.
    pub crlf_run: u64,
    /// Payload bytes not yet flushed; always shorter than one block.
    pub buf: Vec<u8>,
    /// Blocks handed to the flash target so far.
    pub blocks_flushed: u64,
    /// Set exactly when the image passed validation.
    pub validated: bool,
    /// Set exactly when the new image was marked as next boot target.
    pub boot_switched: bool,
    pub error: Option<OtaError>,
    pub stream: Ghost<Seq<u8>>,
    pub flushed: Ghost<Seq<Seq<u8>>>,
}

impl OtaSession {
    /// The machine's invariant, tying every concrete field to the byte
    /// stream consumed so far.
    pub open spec fn wf(&self) -> bool {
        &&& self.blocks_flushed == self.flushed@.len()
        &&& match self.phase {
            OtaPhase::Awaiting => {
                &&& self.stream@.len() == 0
                &&& self.flushed@.len() == 0
                &&& self.buf@.len() == 0
                &&& self.error is None
                &&& !self.validated
                &&& !self.boot_switched
            },
            OtaPhase::StreamingPreamble => {
                &&& !spec_preamble_done(self.stream@)
                &&& self.crlf_run == spec_scan(self.stream@).1
                &&& self.crlf_run <= 3
                &&& self.buf@.len() == 0
                &&& self.flushed@.len() == 0
                &&& self.error is None
                &&& !self.validated
                &&& !self.boot_switched
            },
            OtaPhase::StreamingBody => {
                &&& spec_preamble_done(self.stream@)
                &&& self.flushed@.flatten() + self.buf@ == spec_payload(self.stream@)
                &&& self.buf@.len() < OTA_BLOCK_SIZE
                &&& forall|i: int|
                    0 <= i < self.flushed@.len() ==> (#[trigger] self.flushed@[i]).len()
                        == OTA_BLOCK_SIZE
                &&& self.error is None
                &&& !self.validated
                &&& !self.boot_switched
            },
            OtaPhase::Finalizing => {
                &&& self.flushed@.flatten() == spec_payload(self.stream@)
                &&& spec_blocks_wf(self.flushed@)
                &&& self.buf@.len() == 0
                &&& self.error is None
                &&& !self.boot_switched
            },
            OtaPhase::Committed => {
                &&& self.validated
                &&& self.boot_switched
                &&& self.error is None
            },
            OtaPhase::Failed => {
                &&& !self.boot_switched
                &&& self.error is Some
            },
        }
    }

    /// A session for a request that just arrived, before any body byte.
    pub fn begin(declared_len: u64) -> (s: OtaSession)
        ensures
            s.wf(),
            s.phase == OtaPhase::Awaiting,
            s.declared_len == declared_len,
            s.stream@ == Seq::<u8>::empty(),
    {
        OtaSession {
            phase: OtaPhase::Awaiting,
            declared_len,
            crlf_run: 0,
            buf: Vec::new(),
            blocks_flushed: 0,
            validated: false,
            boot_switched: false,
            error: None,
            stream: Ghost(Seq::empty()),
            flushed: Ghost(Seq::empty()),
        }
    }

    /// Starts consuming the request body.
    pub fn start_stream(&mut self)
        requires
            old(self).wf(),
            old(self).phase == OtaPhase::Awaiting,
        ensures
            final(self).wf(),
            final(self).phase == OtaPhase::StreamingPreamble,
            final(self).stream@ == old(self).stream@,
            final(self).flushed@ == old(self).flushed@,
    {
        self.phase = OtaPhase::StreamingPreamble;
        self.crlf_run = 0;
    }

    /// Consumes one body byte. When the byte completes a 4096-byte payload
    /// block, that block is returned for the caller to write to flash.
    pub fn push_byte(&mut self, b: u8) -> (flush: Option<Vec<u8>>)
        requires
            old(self).wf(),
            old(self).phase == OtaPhase::StreamingPreamble || old(self).phase
                == OtaPhase::StreamingBody,
            old(self).blocks_flushed < 0xffff_ffff_ffff_ffff,
        ensures
            final(self).wf(),
            final(self).stream@ == old(self).stream@.push(b),
            final(self).phase == (if spec_preamble_done(old(self).stream@.push(b)) {
                OtaPhase::StreamingBody
            } else {
                OtaPhase::StreamingPreamble
            }),
            final(self).blocks_flushed <= old(self).blocks_flushed + 1,
            final(self).declared_len == old(self).declared_len,
            match flush {
                Some(blk) => final(self).flushed@ == old(self).flushed@.push(blk@) && blk@.len()
                    == OTA_BLOCK_SIZE,
                None => final(self).flushed@ == old(self).flushed@,
            },
    {
        proof {
            assert(old(self).stream@.push(b).drop_last() =~= old(self).stream@);
            self.stream@ = self.stream@.push(b);
        }
        match self.phase {
            OtaPhase::StreamingPreamble => {
                if b == 10 || b == 13 {
                    self.crlf_run = self.crlf_run + 1;
                    if self.crlf_run == 4 {
                        self.phase = OtaPhase::StreamingBody;
                        proof {
                            assert(self.flushed@.flatten() + self.buf@ =~= spec_payload(
                                self.stream@,
                            ));
                        }
                    }
                } else {
                    self.crlf_run = 0;
                }
                None
            },
            OtaPhase::StreamingBody => {
                self.buf.push(b);
                proof {
                    assert(self.flushed@.flatten() + self.buf@ =~= spec_payload(self.stream@));
                }
                if self.buf.len() == OTA_BLOCK_SIZE {
                    let mut blk: Vec<u8> = Vec::new();
                    core::mem::swap(&mut blk, &mut self.buf);
                    self.blocks_flushed = self.blocks_flushed + 1;
                    proof {
                        self.flushed@ = self.flushed@.push(blk@);
                        assert(self.flushed@.drop_last() =~= old(self).flushed@);
                        lemma_flatten_concat(old(self).flushed@, seq![blk@]);
                        seq![blk@].lemma_flatten_one_element();
                        assert(old(self).flushed@ + seq![blk@] =~= self.flushed@);
                        assert(self.flushed@.flatten() + self.buf@ =~= spec_payload(
                            self.stream@,
                        ));
                    }
                    Some(blk)
                } else {
                    None
                }
            },
            _ => {
                proof {
                    assert(false);
                }
                None
            },
        }
    }

    /// Consumes a whole read chunk, returning the blocks it completed, in
    /// order. Chunk boundaries carry no meaning: the machine's state after
    /// this call depends only on the concatenation of all bytes fed.
    pub fn feed(&mut self, chunk: &Vec<u8>) -> (blocks: Vec<Vec<u8>>)
        requires
            old(self).wf(),
            old(self).phase == OtaPhase::StreamingPreamble || old(self).phase
                == OtaPhase::StreamingBody,
            old(self).blocks_flushed + chunk@.len() < 0xffff_ffff_ffff_ffff,
        ensures
            final(self).wf(),
            final(self).stream@ == old(self).stream@ + chunk@,
            final(self).phase == OtaPhase::StreamingPreamble || final(self).phase
                == OtaPhase::StreamingBody,
            final(self).phase == (if spec_preamble_done(old(self).stream@ + chunk@) {
                OtaPhase::StreamingBody
            } else {
                OtaPhase::StreamingPreamble
            }),
            final(self).flushed@ == old(self).flushed@ + blocks@.map_values(|v: Vec<u8>| v@),
            forall|i: int| 0 <= i < blocks@.len() ==> (#[trigger] blocks@[i])@.len()
                == OTA_BLOCK_SIZE,
            final(self).declared_len == old(self).declared_len,
    {
        let mut blocks: Vec<Vec<u8>> = Vec::new();
        let mut i: usize = 0;
        proof {
            assert(old(self).stream@ + chunk@.take(0) =~= old(self).stream@);
            assert(old(self).flushed@ + blocks@.map_values(|v: Vec<u8>| v@) =~= old(self).flushed@);
        }
        while i < chunk.len()
            invariant
                self.wf(),
                i <= chunk@.len(),
                self.phase == OtaPhase::StreamingPreamble || self.phase
                    == OtaPhase::StreamingBody,
                self.stream@ == old(self).stream@ + chunk@.take(i as int),
                self.flushed@ == old(self).flushed@ + blocks@.map_values(|v: Vec<u8>| v@),
                self.blocks_flushed <= old(self).blocks_flushed + i,
                old(self).blocks_flushed + chunk@.len() < 0xffff_ffff_ffff_ffff,
                forall|m: int| 0 <= m < blocks@.len() ==> (#[trigger] blocks@[m])@.len()
                    == OTA_BLOCK_SIZE,
                self.declared_len == old(self).declared_len,
            decreases chunk@.len() - i,
        {
            let ghost pre_stream = self.stream@;
            let ghost pre_blocks = blocks@;
            match self.push_byte(chunk[i]) {
                Some(blk) => {
                    proof {
                        assert(blocks@.map_values(|v: Vec<u8>| v@).push(blk@) =~= pre_blocks.push(
                            blk,
                        ).map_values(|v: Vec<u8>| v@));
                    }
                    blocks.push(blk);
                },
                None => {},
            }
            proof {
                assert(pre_stream.push(chunk@[i as int]) =~= old(self).stream@ + chunk@.take(
                    i + 1,
                ));
            }
            i = i + 1;
        }
        proof {
            assert(chunk@.take(chunk@.len() as int) =~= chunk@);
        }
        blocks
    }

    /// End of the request body: flushes a non-empty partial final block —
    /// so a payload that is not a whole number of blocks loses nothing —
    /// and moves to `Finalizing`.
    pub fn finish(&mut self) -> (rem: Option<Vec<u8>>)
        requires
            old(self).wf(),
            old(self).phase == OtaPhase::StreamingPreamble || old(self).phase
                == OtaPhase::StreamingBody,
            old(self).blocks_flushed < 0xffff_ffff_ffff_ffff,
        ensures
            final(self).wf(),
            final(self).phase == OtaPhase::Finalizing,
            final(self).stream@ == old(self).stream@,
            final(self).flushed@.flatten() == spec_payload(old(self).stream@),
            match rem {
                Some(r) => r@.len() > 0 && r@ == old(self).buf@ && final(self).flushed@ == old(self).flushed@.push(r@),
                None => old(self).buf@.len() == 0 && final(self).flushed@ == old(self).flushed@,
            },
    {
        proof {
            if old(self).phase == OtaPhase::StreamingPreamble {
                assert(spec_payload(self.stream@) =~= Seq::<u8>::empty());
                assert(self.flushed@.flatten() =~= Seq::<u8>::empty());
            }
        }
        self.phase = OtaPhase::Finalizing;
        if self.buf.len() > 0 {
            let mut blk: Vec<u8> = Vec::new();
            core::mem::swap(&mut blk, &mut self.buf);
            self.blocks_flushed = self.blocks_flushed + 1;
            proof {
                self.flushed@ = self.flushed@.push(blk@);
                assert(self.flushed@.drop_last() =~= old(self).flushed@);
                lemma_flatten_concat(old(self).flushed@, seq![blk@]);
                seq![blk@].lemma_flatten_one_element();
                assert(old(self).flushed@ + seq![blk@] =~= self.flushed@);
                assert(self.flushed@.flatten() =~= spec_payload(self.stream@));
            }
            Some(blk)
        } else {
            proof {
                assert(self.flushed@.flatten() + self.buf@ =~= self.flushed@.flatten());
            }
            None
        }
    }

    /// A flash write of a flushed block failed: the session aborts at
    /// once; the boot target was not and will not be switched.
    pub fn on_write_error(&mut self)
        requires
            old(self).wf(),
            old(self).phase == OtaPhase::StreamingPreamble || old(self).phase
                == OtaPhase::StreamingBody || old(self).phase == OtaPhase::Finalizing,
        ensures
            final(self).wf(),
            final(self).phase == OtaPhase::Failed,
            final(self).error == Some(OtaError::WriteFailed),
            !final(self).boot_switched,
    {
        self.phase = OtaPhase::Failed;
        self.error = Some(OtaError::WriteFailed);
    }

    /// The flash target's image validation came back. Only success admits
    /// the boot-target switch; failure ends the session with the running
    /// firmware untouched and bootable.
    pub fn on_finalize_outcome(&mut self, ok: bool)
        requires
            old(self).wf(),
            old(self).phase == OtaPhase::Finalizing,
            !old(self).validated,
        ensures
            final(self).wf(),
            final(self).stream@ == old(self).stream@,
            final(self).flushed@ == old(self).flushed@,
            ok ==> final(self).phase == OtaPhase::Finalizing && final(self).validated,
            !ok ==> final(self).phase == OtaPhase::Failed && final(self).error == Some(
                OtaError::FinalizeFailed,
            ) && !final(self).boot_switched,
    {
        if ok {
            self.validated = true;
        } else {
            self.phase = OtaPhase::Failed;
            self.error = Some(OtaError::FinalizeFailed);
        }
    }

    /// The attempt to mark the validated image as next boot target came
    /// back. Success commits the session — the caller then restarts the
    /// device, which never returns; failure ends it with the previous
    /// boot target still in place.
    pub fn on_boot_switch_outcome(&mut self, ok: bool)
        requires
            old(self).wf(),
            old(self).phase == OtaPhase::Finalizing,
            old(self).validated,
        ensures
            final(self).wf(),
            ok ==> final(self).phase == OtaPhase::Committed && final(self).boot_switched,
            !ok ==> final(self).phase == OtaPhase::Failed && final(self).error == Some(
                OtaError::BootSwitchFailed,
            ) && !final(self).boot_switched,
    {
        if ok {
            self.phase = OtaPhase::Committed;
            self.boot_switched = true;
        } else {
            self.phase = OtaPhase::Failed;
            self.error = Some(OtaError::BootSwitchFailed);
        }
    }

    /// The HTTP status the handler answers with: 200 for a committed
    /// session (unobservable in practice — the device restarts first),
    /// 500 for a failed one.
    pub fn response_status(&self) -> (code: u16)
        requires
            self.wf(),
            self.phase == OtaPhase::Committed || self.phase == OtaPhase::Failed,
        ensures
            self.phase == OtaPhase::Committed ==> code == 200,
            self.phase == OtaPhase::Failed ==> code == 500,
    {
        if self.phase == OtaPhase::Committed {
            200
        } else {
            500
        }
    }

    /// The plain-text diagnostic the handler answers with: empty on
    /// success, the failed step's message otherwise.
    pub fn response_body(&self) -> (body: Vec<u8>)
        requires
            self.wf(),
            self.phase == OtaPhase::Committed || self.phase == OtaPhase::Failed,
        ensures
            body@ == spec_response_body(self.error),
    {
        let mut v: Vec<u8> = Vec::new();
        match self.error {
            None => {},
            Some(OtaError::WriteFailed) => push_msg_write(&mut v),
            Some(OtaError::FinalizeFailed) => push_msg_finalize(&mut v),
            Some(OtaError::BootSwitchFailed) => push_msg_boot(&mut v),
        }
        proof {
            assert(v@ =~= spec_response_body(self.error));
        }
        v
    }
}

/// The length of a well-formed block sequence's concatenation: every block
/// but the last is full, so only the last one's length varies.
pub proof fn lemma_blocks_flatten_len(blocks: Seq<Seq<u8>>)
    requires
        spec_blocks_wf(blocks),
    ensures
        blocks.len() == 0 ==> blocks.flatten().len() == 0,
        blocks.len() > 0 ==> blocks.flatten().len() == OTA_BLOCK_SIZE * (blocks.len() - 1)
            + blocks.last().len(),
    decreases blocks.len(),
{
    if blocks.len() == 0 {
        assert(blocks.flatten() =~= Seq::<u8>::empty());
    } else {
        let front = blocks.drop_last();
        assert(spec_blocks_wf(front));
        lemma_blocks_flatten_len(front);
        lemma_flatten_concat(front, seq![blocks.last()]);
        assert(front + seq![blocks.last()] =~= blocks);
        seq![blocks.last()].lemma_flatten_one_element();
        if front.len() > 0 {
            assert(front.last().len() == OTA_BLOCK_SIZE);
        }
    }
}

/// Block flushing: when the payload is exactly `n` full blocks long, the
/// engine flushed exactly `n` blocks of 4096 bytes each, in order, and
/// their concatenation is the payload — nothing dropped or reordered.
pub proof fn lemma_full_blocks_flush_count(s: OtaSession, n: nat)
    requires
        s.wf(),
        s.phase == OtaPhase::Finalizing,
        spec_payload(s.stream@).len() == n * OTA_BLOCK_SIZE,
    ensures
        s.flushed@.len() == n,
        forall|i: int| 0 <= i < n ==> (#[trigger] s.flushed@[i]).len() == OTA_BLOCK_SIZE,
        s.flushed@.flatten() == spec_payload(s.stream@),
{
    let blocks = s.flushed@;
    lemma_blocks_flatten_len(blocks);
    if blocks.len() == 0 {
        assert(n * OTA_BLOCK_SIZE == 0);
        assert(n == 0) by (nonlinear_arith)
            requires
                n * OTA_BLOCK_SIZE == 0,
        ;
    } else {
        let k = blocks.len();
        let last = blocks.last().len();
        assert(OTA_BLOCK_SIZE * (k - 1) + last == n * OTA_BLOCK_SIZE);
        assert(0 < last <= OTA_BLOCK_SIZE);
        assert(k == n && last == OTA_BLOCK_SIZE) by (nonlinear_arith)
            requires
                4096 * (k - 1) + last == n * 4096,
                0 < last <= 4096,
                k >= 1,
                n >= 0,
        ;
    }
}

/// Block flushing with a tail: when the payload is `n` whole blocks plus
/// a shorter non-empty tail of `k` bytes, the engine flushed `n + 1`
/// blocks — the first `n` full, the last exactly the `k` tail bytes — and
/// their concatenation is the payload: the tail is not dropped.
pub proof fn lemma_partial_final_block_kept(s: OtaSession, n: nat, k: nat)
    requires
        s.wf(),
        s.phase == OtaPhase::Finalizing,
        spec_payload(s.stream@).len() == n * OTA_BLOCK_SIZE + k,
        0 < k < OTA_BLOCK_SIZE,
    ensures
        s.flushed@.len() == n + 1,
        s.flushed@.last().len() == k,
        forall|i: int| 0 <= i < n ==> (#[trigger] s.flushed@[i]).len() == OTA_BLOCK_SIZE,
        s.flushed@.flatten() == spec_payload(s.stream@),
{
    let blocks = s.flushed@;
    lemma_blocks_flatten_len(blocks);
    assert(blocks.len() > 0);
    let m = blocks.len();
    let last = blocks.last().len();
    assert(m == n + 1 && last == k) by (nonlinear_arith)
        requires
            4096 * (m - 1) + last == n * 4096 + k,
            0 < last <= 4096,
            0 < k < 4096,
            m >= 1,
            n >= 0,
    ;
}

/// Where each flushed block stands: block `i` is exactly the payload
/// slice it was cut from — the blocks appear in order, nothing reordered.
pub proof fn lemma_blocks_are_slices(blocks: Seq<Seq<u8>>)
    requires
        spec_blocks_wf(blocks),
    ensures
        forall|i: int|
            0 <= i < blocks.len() ==> (#[trigger] blocks[i]) == blocks.flatten().subrange(
                4096 * i,
                4096 * i + blocks[i].len() as int,
            ),
    decreases blocks.len(),
{
    if blocks.len() == 0 {
        return ;
    }
    let front = blocks.drop_last();
    assert(spec_blocks_wf(front));
    lemma_blocks_are_slices(front);
    lemma_blocks_flatten_len(front);
    lemma_flatten_concat(front, seq![blocks.last()]);
    assert(front + seq![blocks.last()] =~= blocks);
    seq![blocks.last()].lemma_flatten_one_element();
    assert(blocks.flatten() == front.flatten() + blocks.last());
    if front.len() > 0 {
        assert(front.last().len() == OTA_BLOCK_SIZE);
        assert(front.flatten().len() == 4096 * front.len());
    }
    assert forall|i: int|
        0 <= i < blocks.len() implies (#[trigger] blocks[i]) == blocks.flatten().subrange(
        4096 * i,
        4096 * i + blocks[i].len() as int,
    ) by {
        if i < blocks.len() - 1 {
            assert(blocks[i] == front[i]);
            assert(front[i] == front.flatten().subrange(4096 * i, 4096 * i + front[i].len() as int));
            assert(4096 * i + front[i].len() <= front.flatten().len());
            assert(blocks.flatten().subrange(4096 * i, 4096 * i + blocks[i].len() as int)
                =~= front.flatten().subrange(4096 * i, 4096 * i + front[i].len() as int));
        } else {
            assert(blocks[i] == blocks.last());
            assert(4096 * i == front.flatten().len());
            assert(blocks.flatten().subrange(4096 * i, 4096 * i + blocks[i].len() as int)
                =~= blocks.last());
        }
    }
}

/// One more byte moves the engine from preamble to payload exactly when
/// it is a CR/LF byte that brings the cumulative run to four.
pub proof fn lemma_detection_after_exactly_four(s: Seq<u8>, b: u8)
    requires
        !spec_preamble_done(s),
    ensures
        spec_preamble_done(s.push(b)) <==> (spec_is_crlf(b) && spec_scan(s).1 == 3),
{
    assert(s.push(b).drop_last() =~= s);
}

/// Preamble detection is chunking-independent: two sessions that consumed
/// the same body bytes — in however many reads — agree on whether the
/// separator has been seen, on the CR/LF run, and on the payload.
pub proof fn lemma_preamble_detection_chunking(s1: OtaSession, s2: OtaSession)
    requires
        s1.wf(),
        s2.wf(),
        s1.phase == OtaPhase::StreamingPreamble || s1.phase == OtaPhase::StreamingBody,
        s2.phase == OtaPhase::StreamingPreamble || s2.phase == OtaPhase::StreamingBody,
        s1.stream@ == s2.stream@,
    ensures
        s1.phase == s2.phase,
        s1.phase == OtaPhase::StreamingPreamble ==> s1.crlf_run == s2.crlf_run,
{
}

/// Atomicity: a failed session — whether the write, the validation or the
/// boot switch failed — never switched the boot target, so the previously
/// active partition remains what the device boots. (The switch is only
/// reachable through `on_boot_switch_outcome`, whose precondition demands
/// a validated image, which only a successful finalize establishes.)
pub proof fn lemma_failed_session_never_switches_boot(s: OtaSession)
    requires
        s.wf(),
        s.phase == OtaPhase::Failed,
    ensures
        !s.boot_switched,
{
}

} // verus!
