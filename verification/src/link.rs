//! The network readiness supervisor: establishing the wireless link at
//! startup.
//!
//! The sequence is fixed: scan for the known network (remembering its
//! channel to speed association when found), configure the interface in a
//! dual role — client to the known network plus a fallback local access
//! point on channel 1 when no channel was discovered — start it, wait for
//! the started condition, associate, wait for association and a non-zero
//! leased address, then probe the gateway once with echo requests. Each
//! wait has a fixed timeout, and each failure is a distinct `LinkError`.
//! The driver calls are made by the surrounding program; this machine
//! fixes their order and what each observation decides.

use vstd::prelude::*;

verus! {

/// The link's association state, owned by the supervisor.
#[derive(Clone, Copy, PartialEq, Eq, Structural, Debug)]
pub enum LinkState {
    Disconnected,
    Scanning,
    Connecting,
    Connected,
    Degraded,
}

/// Why establishing the link failed. Fatal to the attempt, not to the
/// process: the next tick retries.
#[derive(Clone, Copy, PartialEq, Eq, Structural, Debug)]
pub enum LinkError {
    /// The interface did not reach the started condition in time.
    StartTimeout,
    /// Association or the address lease did not arrive in time.
    ConnectTimeout,
    /// The gateway echo counts disagreed: transmitted != received.
    GatewayUnreachable,
}

/// One network a scan made visible.
pub struct ScanEntry {
    pub name: Vec<u8>,
    pub channel: u8,
}

/// The channel of the first scanned network carrying the known name.
pub open spec fn spec_known_channel(scan: Seq<ScanEntry>, name: Seq<u8>) -> Option<u8>
    decreases scan.len(),
{
    if scan.len() == 0 {
        None
    } else if scan[0].name@ == name {
        Some(scan[0].channel)
    } else {
        spec_known_channel(scan.drop_first(), name)
    }
}

/// Byte-for-byte equality of two names.
fn bytes_eq(a: &Vec<u8>, b: &Vec<u8>) -> (r: bool)
    ensures
        r == (a@ == b@),
{
    if a.len() != b.len() {
        return false;
    }
    let mut i: usize = 0;
    while i < a.len()
        invariant
            i <= a@.len(),
            a@.len() == b@.len(),
            forall|j: int| 0 <= j < i ==> a@[j] == b@[j],
        decreases a@.len() - i,
    {
        if a[i] != b[i] {
            return false;
        }
        i = i + 1;
    }
    proof {
        assert(a@ =~= b@);
    }
    true
}

/// Finds the known network's channel in the scan results, if present.
pub fn choose_channel(scan: &Vec<ScanEntry>, name: &Vec<u8>) -> (r: Option<u8>)
    ensures
        r == spec_known_channel(scan@, name@),
{
    let mut i: usize = 0;
    proof {
        assert(scan@.skip(0) =~= scan@);
    }
    while i < scan.len()
        invariant
            i <= scan@.len(),
            spec_known_channel(scan@, name@) == spec_known_channel(scan@.skip(i as int), name@),
        decreases scan@.len() - i,
    {
        proof {
            assert(scan@.skip(i as int)[0] == scan@[i as int]);
            assert(scan@.skip(i as int).drop_first() =~= scan@.skip(i as int + 1));
        }
        if bytes_eq(&scan[i].name, name) {
            return Some(scan[i].channel);
        }
        i = i + 1;
    }
    proof {
        assert(scan@.skip(scan@.len() as int) =~= Seq::<ScanEntry>::empty());
    }
    None
}

/// The fallback access point's fixed name, `aptest`.
pub open spec fn spec_ap_name() -> Seq<u8> {
    seq![97u8, 112u8, 116u8, 101u8, 115u8, 116u8]
}

/// The dual-role interface configuration: client to the known network,
/// plus the fallback local access point.
pub struct LinkConfig {
    pub client_name: Vec<u8>,
    pub client_pass: Vec<u8>,
    /// The known network's channel when the scan found it.
    pub client_channel: Option<u8>,
    pub ap_name: Vec<u8>,
    /// The discovered channel, or the fixed channel 1.
    pub ap_channel: u8,
}

/// Builds the configuration from the scan's outcome: the access point
/// reuses the discovered channel and falls back to channel 1.
pub fn make_config(name: Vec<u8>, pass: Vec<u8>, channel: Option<u8>) -> (c: LinkConfig)
    ensures
        c.client_name@ == name@,
        c.client_pass@ == pass@,
        c.client_channel == channel,
        c.ap_name@ == spec_ap_name(),
        c.ap_channel == (match channel {
            Some(ch) => ch,
            None => 1u8,
        }),
{
    let ap_channel = match channel {
        Some(ch) => ch,
        None => 1,
    };
    let mut ap_name: Vec<u8> = Vec::new();
    ap_name.push(97);
    ap_name.push(112);
    ap_name.push(116);
    ap_name.push(101);
    ap_name.push(115);
    ap_name.push(116);
    proof {
        assert(ap_name@ =~= spec_ap_name());
    }
    LinkConfig { client_name: name, client_pass: pass, client_channel: channel, ap_name, ap_channel }
}

/// Where the link-establishing sequence stands.
#[derive(Clone, Copy, PartialEq, Eq, Structural, Debug)]
pub enum LinkPhase {
    /// Scanning for the known network.
    Scanning,
    /// Configured; the interface has yet to be started.
    Configured,
    /// Started; waiting (bounded) for the started condition.
    Starting,
    /// Associating; waiting (bounded) for association and an address.
    Associating,
    /// Associated and leased; the one-time gateway probe is pending.
    Probing,
    /// The link is up and probed.
    Ready,
    /// The attempt failed; `error` says why.
    Failed,
}

/// The supervisor for one link-establishing attempt.
pub struct LinkSupervisor {
    pub phase: LinkPhase,
    pub state: LinkState,
    pub config: Option<LinkConfig>,
    pub error: Option<LinkError>,
}

impl LinkSupervisor {
    /// The association state the data model exposes agrees with the
    /// phase, and an error is recorded exactly in the failed phase.
    pub open spec fn wf(&self) -> bool {
        &&& match self.phase {
            LinkPhase::Scanning => self.state == LinkState::Scanning && self.config is None,
            LinkPhase::Configured | LinkPhase::Starting => self.state == LinkState::Scanning
                && self.config is Some,
            LinkPhase::Associating => self.state == LinkState::Connecting && self.config is Some,
            LinkPhase::Probing | LinkPhase::Ready => self.state == LinkState::Connected
                && self.config is Some,
            LinkPhase::Failed => self.state == LinkState::Disconnected,
        }
        &&& (self.phase == LinkPhase::Failed <==> self.error is Some)
    }

    /// A fresh attempt, about to scan.
    pub fn new() -> (s: LinkSupervisor)
        ensures
            s.wf(),
            s.phase == LinkPhase::Scanning,
    {
        LinkSupervisor {
            phase: LinkPhase::Scanning,
            state: LinkState::Scanning,
            config: None,
            error: None,
        }
    }

    /// The scan came back: derive the configuration. The known network's
    /// channel is remembered when present; the fallback access point gets
    /// the same channel, or channel 1.
    pub fn on_scan(&mut self, scan: &Vec<ScanEntry>, name: Vec<u8>, pass: Vec<u8>)
        requires
            old(self).wf(),
            old(self).phase == LinkPhase::Scanning,
        ensures
            final(self).wf(),
            final(self).phase == LinkPhase::Configured,
            final(self).config matches Some(c) && c.client_channel == spec_known_channel(
                scan@,
                name@,
            ) && c.client_name@ == name@ && c.client_pass@ == pass@ && c.ap_name@ == spec_ap_name()
                && c.ap_channel == (match spec_known_channel(scan@, name@) {
                Some(ch) => ch,
                None => 1u8,
            }),
    {
        let channel = choose_channel(scan, &name);
        self.config = Some(make_config(name, pass, channel));
        self.phase = LinkPhase::Configured;
    }

    /// The interface was told to start; the bounded wait for the started
    /// condition begins.
    pub fn on_start_issued(&mut self)
        requires
            old(self).wf(),
            old(self).phase == LinkPhase::Configured,
        ensures
            final(self).wf(),
            final(self).phase == LinkPhase::Starting,
            final(self).config == old(self).config,
    {
        self.phase = LinkPhase::Starting;
    }

    /// The bounded wait for the started condition ended: not started in
    /// time fails the attempt with `StartTimeout`.
    pub fn on_start_wait(&mut self, started: bool)
        requires
            old(self).wf(),
            old(self).phase == LinkPhase::Starting,
        ensures
            final(self).wf(),
            started ==> final(self).phase == LinkPhase::Associating && final(self).state
                == LinkState::Connecting,
            !started ==> final(self).phase == LinkPhase::Failed && final(self).error == Some(
                LinkError::StartTimeout,
            ),
    {
        if started {
            self.phase = LinkPhase::Associating;
            self.state = LinkState::Connecting;
        } else {
            self.phase = LinkPhase::Failed;
            self.state = LinkState::Disconnected;
            self.error = Some(LinkError::StartTimeout);
        }
    }

    /// The bounded wait after association was initiated ended: the link
    /// goes on only when associated with a non-zero leased address; else
    /// the attempt fails with `ConnectTimeout`.
    pub fn on_connect_wait(&mut self, associated: bool, lease_nonzero: bool)
        requires
            old(self).wf(),
            old(self).phase == LinkPhase::Associating,
        ensures
            final(self).wf(),
            associated && lease_nonzero ==> final(self).phase == LinkPhase::Probing && final(self).state == LinkState::Connected,
            !(associated && lease_nonzero) ==> final(self).phase == LinkPhase::Failed && final(self).error == Some(LinkError::ConnectTimeout),
    {
        if associated && lease_nonzero {
            self.phase = LinkPhase::Probing;
            self.state = LinkState::Connected;
        } else {
            self.phase = LinkPhase::Failed;
            self.state = LinkState::Disconnected;
            self.error = Some(LinkError::ConnectTimeout);
        }
    }

    /// The one-time gateway echo probe came back: any lost echo fails the
    /// attempt with `GatewayUnreachable`; equality makes the link ready.
    pub fn on_probe(&mut self, transmitted: u64, received: u64)
        requires
            old(self).wf(),
            old(self).phase == LinkPhase::Probing,
        ensures
            final(self).wf(),
            transmitted == received ==> final(self).phase == LinkPhase::Ready && final(self).state
                == LinkState::Connected,
            transmitted != received ==> final(self).phase == LinkPhase::Failed && final(self).error == Some(LinkError::GatewayUnreachable),
    {
        if transmitted == received {
            self.phase = LinkPhase::Ready;
        } else {
            self.phase = LinkPhase::Failed;
            self.state = LinkState::Disconnected;
            self.error = Some(LinkError::GatewayUnreachable);
        }
    }
}

} // verus!
