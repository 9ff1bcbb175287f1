//! The uplink client's bounded read-retry policy.
//!
//! After writing a request the client polls the transport for a response:
//! attempt a read, sleep, and try again — at most `MAX_POLL_ATTEMPTS` reads
//! in all, stopping early at the first read that returned any bytes. If
//! every attempt came back empty the upload fails with `EmptyResponse`.

use crate::wire::{parse_response, spec_parse_response, views_of, HttpResponse};
use vstd::prelude::*;

verus! {

/// The most read attempts one upload will make.
pub const MAX_POLL_ATTEMPTS: u64 = 10;

/// Why one upload cycle failed. A failed cycle is logged and abandoned;
/// it is never retried within the cycle and never blocks the next tick.
#[derive(Clone, Copy, PartialEq, Eq, Structural, Debug)]
pub enum UplinkError {
    /// No attempt ever received a byte of response.
    EmptyResponse,
    /// Bytes arrived but did not parse as a response with a status code.
    MalformedResponse,
}

/// What to do after one read attempt.
pub enum PollDecision {
    /// This attempt received bytes: the response to parse, as read.
    Deliver(Vec<u8>),
    /// Nothing yet and budget remains: sleep and poll again.
    Retry,
    /// Nothing received on the final allowed attempt: the cycle fails.
    GiveUp,
}

/// Counts read attempts and applies the retry bound. The surrounding
/// program performs the actual reads and hands each result in.
pub struct ReadPoller {
    pub attempts: u64,
}

impl ReadPoller {
    /// A fresh poller for one upload cycle.
    pub fn new() -> (p: ReadPoller)
        ensures
            p.attempts == 0,
    {
        ReadPoller { attempts: 0 }
    }

    /// Accounts one read attempt: bytes received are delivered at once;
    /// an empty read either retries or, on the last allowed attempt,
    /// gives up.
    pub fn on_read(&mut self, chunk: Vec<u8>) -> (d: PollDecision)
        requires
            old(self).attempts < MAX_POLL_ATTEMPTS,
        ensures
            final(self).attempts == old(self).attempts + 1,
            chunk@.len() > 0 ==> (d matches PollDecision::Deliver(b) && b@ == chunk@),
            chunk@.len() == 0 && final(self).attempts < MAX_POLL_ATTEMPTS ==> d
                is Retry,
            chunk@.len() == 0 && final(self).attempts == MAX_POLL_ATTEMPTS ==> d
                is GiveUp,
    {
        self.attempts = self.attempts + 1;
        if chunk.len() > 0 {
            PollDecision::Deliver(chunk)
        } else if self.attempts < MAX_POLL_ATTEMPTS {
            PollDecision::Retry
        } else {
            PollDecision::GiveUp
        }
    }
}

/// Parses the bytes the successful poll attempt delivered; any failure
/// of the response grammar is the cycle's `MalformedResponse` error, and
/// the cycle is abandoned.
pub fn parse_uplink_response(raw: &Vec<u8>) -> (r: Result<HttpResponse, UplinkError>)
    ensures
        match r {
            Ok(resp) => spec_parse_response(raw@) == Ok::<
                (int, Seq<Seq<u8>>, Seq<Seq<u8>>),
                crate::wire::ResponseParseError,
            >((resp.status as int, views_of(resp.headers@), views_of(resp.body@))),
            Err(e) => e == UplinkError::MalformedResponse && spec_parse_response(raw@) is Err,
        },
{
    match parse_response(raw) {
        Ok(resp) => Ok(resp),
        Err(_) => Err(UplinkError::MalformedResponse),
    }
}

/// How many attempts the bounded poll may consume over a given transport
/// behaviour: reads are polled in order, so the poll ends at the first
/// attempt that yields bytes, and never after more than ten attempts.
pub open spec fn spec_poll_bound(reads: Seq<Seq<u8>>) -> int {
    if reads.len() < MAX_POLL_ATTEMPTS { reads.len() as int } else { MAX_POLL_ATTEMPTS as int }
}

/// Runs the whole bounded poll against a transport whose successive read
/// results are given up front: `reads[i]` is what the i-th attempt would
/// receive. Returns the number of attempts actually made and the bytes the
/// final attempt received, or `EmptyResponse` when every allowed attempt
/// came back empty.
///
/// The contract pins the retry bound: the first attempt with data — if one
/// exists within the bound — succeeds with exactly that attempt's bytes,
/// no earlier attempt had data, and no more than ten attempts are ever
/// made.
pub fn poll_reads(reads: &Vec<Vec<u8>>) -> (r: Result<(usize, Vec<u8>), UplinkError>)
    ensures
        match r {
            Ok((attempts, bytes)) => {
                &&& 1 <= attempts <= spec_poll_bound(reads@.map_values(|v: Vec<u8>| v@))
                &&& bytes@ == reads@[attempts - 1]@
                &&& bytes@.len() > 0
                &&& forall|j: int| 0 <= j < attempts - 1 ==> reads@[j]@.len() == 0
            },
            Err(e) => {
                &&& e == UplinkError::EmptyResponse
                &&& forall|j: int|
                    0 <= j < spec_poll_bound(reads@.map_values(|v: Vec<u8>| v@))
                        ==> reads@[j]@.len() == 0
            },
        },
{
    let mut poller = ReadPoller::new();
    let mut i: usize = 0;
    let bound: usize = if reads.len() < 10 { reads.len() } else { 10 };
    while i < bound
        invariant
            poller.attempts == i,
            i <= bound,
            bound == spec_poll_bound(reads@.map_values(|v: Vec<u8>| v@)),
            bound <= reads@.len(),
            bound <= MAX_POLL_ATTEMPTS,
            forall|j: int| 0 <= j < i ==> reads@[j]@.len() == 0,
        decreases bound - i,
    {
        let chunk = reads[i].clone();
        assert(chunk@ == reads@[i as int]@);
        match poller.on_read(chunk) {
            PollDecision::Deliver(bytes) => {
                return Ok((i + 1, bytes));
            },
            PollDecision::Retry => {},
            PollDecision::GiveUp => {},
        }
        i = i + 1;
    }
    Err(UplinkError::EmptyResponse)
}

} // verus!
