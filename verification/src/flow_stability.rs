//! Keeping flows on one path: when a better path is taken, which packets a path
//! may carry, and how the size of packets is probed.

use crate::bytes::{be_value, lemma_byte_ranges, read_be};
use crate::error::Result;
use crate::key_map::{KeyMap, MapKey, lemma_mapped_entry, lemma_mapped_key};
use crate::text::join2;
use vstd::map::*;
use vstd::prelude::*;
use vstd::string::*;

verus! {

pub const MIN_IPV4_PATH_MTU: u16 = 576;

pub const DEFAULT_SAFE_PATH_MTU: u16 = 1280;

pub const DEFAULT_MAX_PATH_MTU: u16 = 1472;

/// How a path reaches the peer.
#[derive(Debug, Clone, Copy, PartialEq, Eq, Structural)]
pub enum StablePathKind {
    Direct,
    Relay,
}

/// A path: its kind and a number that grows with every new one.
#[derive(Debug, Clone, Copy, PartialEq, Eq, Structural)]
pub struct PathId {
    pub kind: StablePathKind,
    pub generation: u64,
}

impl PathId {
    pub fn new(kind: StablePathKind, generation: u64) -> (p: PathId)
        ensures
            p.kind == kind,
            p.generation == generation,
    {
        PathId { kind, generation }
    }
}

/// Why the path was changed last.
#[derive(Debug, Clone, Copy, PartialEq, Eq, Structural)]
pub enum PathChangeReason {
    Initial,
    PathFailure,
    SustainedImprovement,
    NetworkChange,
}

/// What was measured of a path.
#[derive(Debug, Clone, Copy, PartialEq, Eq, Structural)]
pub struct PathMetrics {
    pub median_rtt_ms: u32,
    pub jitter_ms: u32,
    pub packet_loss_basis_points: u32,
    pub nat_penalty_ms: u32,
}

/// The score of a path, less being better: the round trip, four times the jitter,
/// a quarter of a millisecond for each basis point of loss, the penalty of address
/// translation, and thirty for a relay.
pub open spec fn path_score(m: PathMetrics, kind: StablePathKind) -> nat {
    (m.median_rtt_ms + m.jitter_ms * 4 + m.packet_loss_basis_points * 25 / 100 + m.nat_penalty_ms
        + match kind {
        StablePathKind::Direct => 0int,
        StablePathKind::Relay => 30int,
    }) as nat
}

/// Metrics of a path of which nothing was measured.
pub open spec fn unknown_metrics() -> PathMetrics {
    PathMetrics {
        median_rtt_ms: 0,
        jitter_ms: 0,
        packet_loss_basis_points: 0,
        nat_penalty_ms: 0,
    }
}

impl PathMetrics {
    pub fn unknown() -> (m: PathMetrics)
        ensures
            m == unknown_metrics(),
    {
        PathMetrics {
            median_rtt_ms: 0,
            jitter_ms: 0,
            packet_loss_basis_points: 0,
            nat_penalty_ms: 0,
        }
    }

    pub fn score(self, kind: StablePathKind) -> (s: u64)
        ensures
            s == path_score(self, kind),
    {
        let relay_penalty: u64 = match kind {
            StablePathKind::Direct => 0,
            StablePathKind::Relay => 30,
        };
        self.median_rtt_ms as u64 + self.jitter_ms as u64 * 4 + self.packet_loss_basis_points as u64
            * 25 / 100 + self.nat_penalty_ms as u64 + relay_penalty
    }
}

/// Why something was refused.
#[derive(Debug, Clone, Copy, PartialEq, Eq)]
pub enum FlowStabilityError {
    InvalidConfiguration(&'static str),
    InvalidPacket(&'static str),
    FragmentedPacket,
    UnexpectedMtuProbe,
}

/// The model of a [`FlowStabilityError`].
pub enum FlowErrorView {
    InvalidConfiguration(Seq<char>),
    InvalidPacket(Seq<char>),
    FragmentedPacket,
    UnexpectedMtuProbe,
}

impl View for FlowStabilityError {
    type V = FlowErrorView;

    open spec fn view(&self) -> FlowErrorView {
        match self {
            FlowStabilityError::InvalidConfiguration(s) => FlowErrorView::InvalidConfiguration(s@),
            FlowStabilityError::InvalidPacket(s) => FlowErrorView::InvalidPacket(s@),
            FlowStabilityError::FragmentedPacket => FlowErrorView::FragmentedPacket,
            FlowStabilityError::UnexpectedMtuProbe => FlowErrorView::UnexpectedMtuProbe,
        }
    }
}

/// The message that a refusal is shown with.
pub open spec fn flow_error_text(e: FlowErrorView) -> Seq<char> {
    match e {
        FlowErrorView::InvalidConfiguration(s) => "invalid flow stability configuration: "@ + s,
        FlowErrorView::InvalidPacket(s) => "invalid packet for flow classification: "@ + s,
        FlowErrorView::FragmentedPacket =>
            "fragmented IPv4 packets are not accepted on the game flow path"@,
        FlowErrorView::UnexpectedMtuProbe =>
            "path MTU probe result does not match the outstanding probe"@,
    }
}

impl FlowStabilityError {
    pub fn to_string(&self) -> (s: String)
        ensures
            s@ == flow_error_text(self@),
    {
        match self {
            FlowStabilityError::InvalidConfiguration(s) => join2(
                "invalid flow stability configuration: ",
                s,
            ),
            FlowStabilityError::InvalidPacket(s) => join2(
                "invalid packet for flow classification: ",
                s,
            ),
            FlowStabilityError::FragmentedPacket =>
                "fragmented IPv4 packets are not accepted on the game flow path".to_owned(),
            FlowStabilityError::UnexpectedMtuProbe =>
                "path MTU probe result does not match the outstanding probe".to_owned(),
        }
    }
}

// ---------------------------------------------------------------------------
// Configuration
// ---------------------------------------------------------------------------

/// When paths are changed, when flows are forgotten, and how packet sizes are
/// probed.
#[derive(Debug, Clone, Copy, PartialEq, Eq, Structural)]
pub struct FlowStabilityConfig {
    pub minimum_score_improvement: u64,
    pub required_better_samples: u8,
    pub flow_idle_timeout_ms: u64,
    pub base_path_mtu: u16,
    pub maximum_path_mtu: u16,
    pub mtu_probe_step: u16,
}

impl Default for FlowStabilityConfig {
    fn default() -> (c: Self)
        ensures
            c == default_config(),
    {
        FlowStabilityConfig {
            minimum_score_improvement: 15,
            required_better_samples: 3,
            flow_idle_timeout_ms: 120_000,
            base_path_mtu: DEFAULT_SAFE_PATH_MTU,
            maximum_path_mtu: DEFAULT_MAX_PATH_MTU,
            mtu_probe_step: 32,
        }
    }
}

/// Three samples that are better by fifteen, two minutes of idleness, and packets
/// of 1280 to 1472 bytes in steps of 32.
pub open spec fn default_config() -> FlowStabilityConfig {
    FlowStabilityConfig {
        minimum_score_improvement: 15,
        required_better_samples: 3,
        flow_idle_timeout_ms: 120_000,
        base_path_mtu: DEFAULT_SAFE_PATH_MTU,
        maximum_path_mtu: DEFAULT_MAX_PATH_MTU,
        mtu_probe_step: 32,
    }
}

/// The first rule that a configuration breaks, if it breaks one.
pub open spec fn config_refusal(c: FlowStabilityConfig) -> Option<Seq<char>> {
    if c.required_better_samples == 0 {
        Some("required_better_samples must be greater than zero"@)
    } else if c.flow_idle_timeout_ms == 0 {
        Some("flow_idle_timeout_ms must be greater than zero"@)
    } else if c.base_path_mtu < MIN_IPV4_PATH_MTU {
        Some("base_path_mtu is below the IPv4 minimum"@)
    } else if c.maximum_path_mtu < c.base_path_mtu {
        Some("maximum_path_mtu is below base_path_mtu"@)
    } else if c.mtu_probe_step == 0 {
        Some("mtu_probe_step must be greater than zero"@)
    } else {
        None
    }
}

impl FlowStabilityConfig {
    pub fn validate(self) -> (r: Result<FlowStabilityConfig, FlowStabilityError>)
        ensures
            match config_refusal(self) {
                Some(text) => r matches Err(e) && e@ == FlowErrorView::InvalidConfiguration(text),
                None => r matches Ok(c) && c == self,
            },
    {
        if self.required_better_samples == 0 {
            return Err(
                FlowStabilityError::InvalidConfiguration(
                    "required_better_samples must be greater than zero",
                ),
            );
        }
        if self.flow_idle_timeout_ms == 0 {
            return Err(
                FlowStabilityError::InvalidConfiguration(
                    "flow_idle_timeout_ms must be greater than zero",
                ),
            );
        }
        if self.base_path_mtu < MIN_IPV4_PATH_MTU {
            return Err(
                FlowStabilityError::InvalidConfiguration("base_path_mtu is below the IPv4 minimum"),
            );
        }
        if self.maximum_path_mtu < self.base_path_mtu {
            return Err(
                FlowStabilityError::InvalidConfiguration("maximum_path_mtu is below base_path_mtu"),
            );
        }
        if self.mtu_probe_step == 0 {
            return Err(
                FlowStabilityError::InvalidConfiguration(
                    "mtu_probe_step must be greater than zero",
                ),
            );
        }
        Ok(self)
    }
}

// ---------------------------------------------------------------------------
// Flows
// ---------------------------------------------------------------------------

/// What tells flows apart. Addresses are big-endian numbers; only TCP and UDP
/// flows have ports.
#[derive(Debug, Clone, Copy, PartialEq, Eq, Structural)]
pub struct FlowKey {
    pub source: u32,
    pub destination: u32,
    pub source_port: u16,
    pub destination_port: u16,
    pub protocol: u8,
}

impl MapKey for FlowKey {
    fn same(&self, other: &FlowKey) -> (b: bool) {
        *self == *other
    }
}

/// TCP and UDP packets carry ports.
pub open spec fn has_ports(protocol: u8) -> bool {
    protocol == 6 || protocol == 17
}

/// The flow of an IPv4 packet, or why it has none: the header must be whole, the
/// lengths must fit, and the packet must be neither fragmented nor about to be.
pub open spec fn flow_of(packet: Seq<u8>) -> Result<FlowKey, FlowErrorView> {
    let header_len = (packet[0] % 16) * 4;
    let total_len = be_value(packet.subrange(2, 4));
    if packet.len() < 20 || packet[0] / 16 != 4 {
        Err(FlowErrorView::InvalidPacket("packet is not a complete IPv4 header"@))
    } else if header_len < 20 || packet.len() < header_len {
        Err(FlowErrorView::InvalidPacket("packet has an invalid IPv4 header length"@))
    } else if total_len < header_len || total_len > packet.len() {
        Err(FlowErrorView::InvalidPacket("packet has an invalid IPv4 total length"@))
    } else if be_value(packet.subrange(6, 8)) % 0x4000 != 0 {
        Err(FlowErrorView::FragmentedPacket)
    } else if has_ports(packet[9]) && total_len < header_len + 4 {
        Err(FlowErrorView::InvalidPacket("TCP or UDP packet does not contain complete ports"@))
    } else {
        Ok(
            FlowKey {
                source: be_value(packet.subrange(12, 16)) as u32,
                destination: be_value(packet.subrange(16, 20)) as u32,
                source_port: if has_ports(packet[9]) {
                    be_value(packet.subrange(header_len, header_len + 2)) as u16
                } else {
                    0
                },
                destination_port: if has_ports(packet[9]) {
                    be_value(packet.subrange(header_len + 2, header_len + 4)) as u16
                } else {
                    0
                },
                protocol: packet[9],
            },
        )
    }
}

/// The outcome of classifying a packet.
pub open spec fn is_flow_of(r: Result<FlowKey, FlowStabilityError>, packet: Seq<u8>) -> bool {
    match flow_of(packet) {
        Ok(flow) => r matches Ok(f) && f == flow,
        Err(why) => r matches Err(e) && e@ == why,
    }
}

impl FlowKey {
    pub fn from_ipv4_packet(packet: &[u8]) -> (r: Result<FlowKey, FlowStabilityError>)
        ensures
            is_flow_of(r, packet@),
    {
        if packet.len() < 20 || packet[0] / 16 != 4 {
            return Err(FlowStabilityError::InvalidPacket("packet is not a complete IPv4 header"));
        }
        let header_len: usize = (packet[0] % 16) as usize * 4;
        if header_len < 20 || packet.len() < header_len {
            return Err(
                FlowStabilityError::InvalidPacket("packet has an invalid IPv4 header length"),
            );
        }
        proof {
            lemma_byte_ranges();
        }
        let total_len: usize = read_be(packet, 2, 2) as usize;
        if total_len < header_len || total_len > packet.len() {
            return Err(
                FlowStabilityError::InvalidPacket("packet has an invalid IPv4 total length"),
            );
        }
        if read_be(packet, 6, 2) % 0x4000 != 0 {
            return Err(FlowStabilityError::FragmentedPacket);
        }
        let protocol: u8 = packet[9];
        let mut source_port: u16 = 0;
        let mut destination_port: u16 = 0;
        if protocol == 6 || protocol == 17 {
            if total_len < header_len + 4 {
                return Err(
                    FlowStabilityError::InvalidPacket(
                        "TCP or UDP packet does not contain complete ports",
                    ),
                );
            }
            source_port = read_be(packet, header_len, 2) as u16;
            destination_port = read_be(packet, header_len + 2, 2) as u16;
        }
        Ok(
            FlowKey {
                source: read_be(packet, 12, 4) as u32,
                destination: read_be(packet, 16, 4) as u32,
                source_port,
                destination_port,
                protocol,
            },
        )
    }
}

// ---------------------------------------------------------------------------
// Packet sizes
// ---------------------------------------------------------------------------

/// How far the search for the largest packet has come.
#[derive(Debug, Clone, Copy, PartialEq, Eq, Structural)]
pub enum PathMtuProbeState {
    BaseOnly,
    Searching,
    Confirmed,
}

/// The search for the largest packet, as it is reported.
#[derive(Debug, Clone, Copy, PartialEq, Eq, Structural)]
pub struct PathMtuSnapshot {
    pub confirmed_mtu: u16,
    pub next_probe_mtu: Option<u16>,
    pub state: PathMtuProbeState,
}

/// The search for the largest packet that a path carries.
#[derive(Debug, Clone, Copy, PartialEq, Eq, Structural)]
pub struct PathMtuController {
    pub base: u16,
    pub maximum: u16,
    pub step: u16,
    pub confirmed: u16,
    pub upper_bound: u16,
    pub outstanding_probe: Option<u16>,
    pub state: PathMtuProbeState,
}

/// A search that has not begun.
pub open spec fn fresh_search(base: u16, maximum: u16, step: u16) -> PathMtuController {
    PathMtuController {
        base,
        maximum,
        step,
        confirmed: base,
        upper_bound: maximum,
        outstanding_probe: None,
        state: PathMtuProbeState::BaseOnly,
    }
}

/// The next size to try: a step more, but not past the bound.
pub open spec fn probe_size(c: PathMtuController) -> u16 {
    if c.confirmed + c.step < c.upper_bound {
        (c.confirmed + c.step) as u16
    } else {
        c.upper_bound
    }
}

/// A search after it was asked for the next size: an unanswered probe is asked for
/// again, and a closed gap ends the search.
pub open spec fn search_asked(c: PathMtuController) -> PathMtuController {
    if c.outstanding_probe is Some {
        c
    } else if c.confirmed >= c.upper_bound {
        PathMtuController { state: PathMtuProbeState::Confirmed, ..c }
    } else {
        PathMtuController {
            outstanding_probe: Some(probe_size(c)),
            state: PathMtuProbeState::Searching,
            ..c
        }
    }
}

/// A search after its probe was answered: success raises what is confirmed,
/// failure lowers the bound.
pub open spec fn search_answered(c: PathMtuController, probe: u16, succeeded: bool) -> PathMtuController {
    if succeeded {
        PathMtuController {
            outstanding_probe: None,
            confirmed: probe,
            state: if probe >= c.maximum {
                PathMtuProbeState::Confirmed
            } else {
                c.state
            },
            ..c
        }
    } else {
        PathMtuController {
            outstanding_probe: None,
            upper_bound: if probe - 1 > c.confirmed {
                (probe - 1) as u16
            } else {
                c.confirmed
            },
            state: PathMtuProbeState::Confirmed,
            ..c
        }
    }
}

impl PathMtuController {
    /// What is confirmed lies between the base and the bound, the bound within the
    /// maximum, and an unanswered probe between the two.
    pub open spec fn wf(&self) -> bool {
        &&& self.step > 0
        &&& self.base <= self.confirmed <= self.upper_bound <= self.maximum
        &&& self.outstanding_probe matches Some(p) ==> self.confirmed < p <= self.upper_bound
    }

    pub fn new(config: FlowStabilityConfig) -> (c: PathMtuController)
        ensures
            c == fresh_search(
                config.base_path_mtu,
                config.maximum_path_mtu,
                config.mtu_probe_step,
            ),
            config_refusal(config) is None ==> c.wf(),
    {
        PathMtuController {
            base: config.base_path_mtu,
            maximum: config.maximum_path_mtu,
            step: config.mtu_probe_step,
            confirmed: config.base_path_mtu,
            upper_bound: config.maximum_path_mtu,
            outstanding_probe: None,
            state: PathMtuProbeState::BaseOnly,
        }
    }

    pub fn reset(&mut self)
        ensures
            *final(self) == fresh_search(old(self).base, old(self).maximum, old(self).step),
            old(self).wf() ==> final(self).wf(),
    {
        self.confirmed = self.base;
        self.upper_bound = self.maximum;
        self.outstanding_probe = None;
        self.state = PathMtuProbeState::BaseOnly;
    }

    /// The next size to try, or nothing where the search is over.
    pub fn next_probe(&mut self) -> (r: Option<u16>)
        ensures
            *final(self) == search_asked(*old(self)),
            r == final(self).outstanding_probe,
            old(self).wf() ==> final(self).wf(),
    {
        if let Some(probe) = self.outstanding_probe {
            return Some(probe);
        }
        if self.confirmed >= self.upper_bound {
            self.state = PathMtuProbeState::Confirmed;
            return None;
        }
        let raised: u32 = self.confirmed as u32 + self.step as u32;
        let probe: u16 = if raised < self.upper_bound as u32 {
            raised as u16
        } else {
            self.upper_bound
        };
        self.outstanding_probe = Some(probe);
        self.state = PathMtuProbeState::Searching;
        Some(probe)
    }

    /// Takes the answer to the probe that is out.
    pub fn record_probe_result(&mut self, probe_mtu: u16, succeeded: bool) -> (r: Result<
        (),
        FlowStabilityError,
    >)
        ensures
            if old(self).outstanding_probe == Some(probe_mtu) {
                r is Ok && *final(self) == search_answered(*old(self), probe_mtu, succeeded)
            } else {
                *final(self) == *old(self) && (r matches Err(e) && e@
                    == FlowErrorView::UnexpectedMtuProbe)
            },
            old(self).wf() ==> final(self).wf(),
    {
        let expected = match self.outstanding_probe {
            Some(probe) => probe == probe_mtu,
            None => false,
        };
        if !expected {
            return Err(FlowStabilityError::UnexpectedMtuProbe);
        }
        self.outstanding_probe = None;
        if succeeded {
            self.confirmed = probe_mtu;
            if self.confirmed >= self.maximum {
                self.state = PathMtuProbeState::Confirmed;
            }
        } else {
            let lowered: u16 = if probe_mtu > 0 {
                probe_mtu - 1
            } else {
                0
            };
            self.upper_bound =
            if lowered > self.confirmed {
                lowered
            } else {
                self.confirmed
            };
            self.state = PathMtuProbeState::Confirmed;
        }
        Ok(())
    }

    pub fn snapshot(self) -> (s: PathMtuSnapshot)
        ensures
            s == (PathMtuSnapshot {
                confirmed_mtu: self.confirmed,
                next_probe_mtu: self.outstanding_probe,
                state: self.state,
            }),
    {
        PathMtuSnapshot {
            confirmed_mtu: self.confirmed,
            next_probe_mtu: self.outstanding_probe,
            state: self.state,
        }
    }
}

/// Every answered probe narrows the search, so it ends; and what is confirmed
/// never shrinks while a path lasts.
pub proof fn law_mtu_search_narrows(c: PathMtuController, probe: u16, succeeded: bool)
    requires
        c.wf(),
        c.outstanding_probe == Some(probe),
    ensures
        ({
            let after = search_answered(c, probe, succeeded);
            &&& after.wf()
            &&& after.upper_bound - after.confirmed < c.upper_bound - c.confirmed
            &&& after.confirmed >= c.confirmed
            &&& after.upper_bound <= c.upper_bound
        }),
{
}

// ---------------------------------------------------------------------------
// The controller
// ---------------------------------------------------------------------------

/// What is reported of a controller.
#[derive(Debug, Clone, Copy, PartialEq, Eq, Structural)]
pub struct FlowPathSnapshot {
    pub active_path: Option<PathId>,
    pub active_flow_count: usize,
    pub last_change_reason: Option<PathChangeReason>,
    pub path_mtu: PathMtuSnapshot,
    pub median_rtt_ms: Option<u32>,
    pub jitter_ms: Option<u32>,
    pub packet_loss_basis_points: Option<u32>,
}

/// What came of measuring another path.
#[derive(Debug, Clone, Copy, PartialEq, Eq, Structural)]
pub enum CandidateDecision {
    KeptCurrent,
    Pending { observed: u8, required: u8 },
    Switched,
}

/// What becomes of a packet.
#[derive(Debug, Clone, Copy, PartialEq, Eq, Structural)]
pub enum PacketDecision {
    Allowed { flow: FlowKey, path: PathId },
    DroppedNoPath,
    DroppedPathMismatch,
    DroppedOversize { packet_len: usize, path_mtu: u16 },
}

/// The path of a flow, and when the flow was last seen.
#[derive(Debug, Clone, Copy, PartialEq, Eq, Structural)]
pub struct FlowBinding {
    pub path: PathId,
    pub last_seen_ms: u64,
}

/// How often in a row another path was better.
#[derive(Debug, Clone, Copy, PartialEq, Eq, Structural)]
pub struct CandidateObservation {
    pub path: PathId,
    pub consecutive_better_samples: u8,
}

/// Keeps flows on one path.
#[derive(Debug)]
pub struct FlowPathController {
    config: FlowStabilityConfig,
    active_path: Option<PathId>,
    active_metrics: Option<PathMetrics>,
    pending_candidate: Option<CandidateObservation>,
    flows: KeyMap<FlowKey, FlowBinding>,
    last_change_reason: Option<PathChangeReason>,
    path_mtu: PathMtuController,
}

/// The model of a [`FlowPathController`].
pub struct ControllerView {
    pub config: FlowStabilityConfig,
    pub active_path: Option<PathId>,
    pub active_metrics: Option<PathMetrics>,
    pub pending_candidate: Option<CandidateObservation>,
    pub flows: Map<FlowKey, FlowBinding>,
    pub last_change_reason: Option<PathChangeReason>,
    pub path_mtu: PathMtuController,
}

impl View for FlowPathController {
    type V = ControllerView;

    closed spec fn view(&self) -> ControllerView {
        ControllerView {
            config: self.config,
            active_path: self.active_path,
            active_metrics: self.active_metrics,
            pending_candidate: self.pending_candidate,
            flows: self.flows@,
            last_change_reason: self.last_change_reason,
            path_mtu: self.path_mtu,
        }
    }
}

/// The invariant of a controller over its model: a valid configuration, a sound
/// search, and finitely many flows, each on the active path.
pub open spec fn is_stable(s: ControllerView) -> bool {
    &&& config_refusal(s.config) is None
    &&& s.path_mtu.wf()
    &&& s.path_mtu.base == s.config.base_path_mtu
    &&& s.path_mtu.maximum == s.config.maximum_path_mtu
    &&& s.path_mtu.step == s.config.mtu_probe_step
    &&& s.flows.dom().finite()
    &&& forall|k: FlowKey| #[trigger]
        s.flows.dom().contains(k) ==> s.active_path == Some(s.flows[k].path)
    &&& s.pending_candidate matches Some(o) ==> 0 < o.consecutive_better_samples
        < s.config.required_better_samples
}

/// A controller without a path.
pub open spec fn fresh_controller(config: FlowStabilityConfig) -> ControllerView {
    ControllerView {
        config,
        active_path: None,
        active_metrics: None,
        pending_candidate: None,
        flows: Map::empty(),
        last_change_reason: None,
        path_mtu: fresh_search(
            config.base_path_mtu,
            config.maximum_path_mtu,
            config.mtu_probe_step,
        ),
    }
}

/// The search of a controller, begun anew.
pub open spec fn search_restarted(s: ControllerView) -> PathMtuController {
    fresh_search(s.path_mtu.base, s.path_mtu.maximum, s.path_mtu.step)
}

/// All flows on one path.
pub open spec fn rebound(flows: Map<FlowKey, FlowBinding>, path: PathId) -> Map<
    FlowKey,
    FlowBinding,
> {
    Map::new(
        |k: FlowKey| flows.dom().contains(k),
        |k: FlowKey| FlowBinding { path, last_seen_ms: flows[k].last_seen_ms },
    )
}

/// A controller that has changed its path: the flows move along, and the search
/// for the packet size begins anew.
pub open spec fn switched(
    s: ControllerView,
    path: PathId,
    metrics: PathMetrics,
    reason: PathChangeReason,
) -> ControllerView {
    ControllerView {
        active_path: Some(path),
        active_metrics: Some(metrics),
        pending_candidate: None,
        flows: rebound(s.flows, path),
        last_change_reason: Some(reason),
        path_mtu: search_restarted(s),
        ..s
    }
}

/// Why a first path is taken: after a change of the network that is the reason.
pub open spec fn activation_reason(s: ControllerView) -> PathChangeReason {
    if s.last_change_reason == Some(PathChangeReason::NetworkChange) {
        PathChangeReason::NetworkChange
    } else {
        PathChangeReason::Initial
    }
}

/// Another path is better by enough.
pub open spec fn is_better(
    s: ControllerView,
    active: PathId,
    candidate: PathId,
    metrics: PathMetrics,
) -> bool {
    let active_metrics = match s.active_metrics {
        Some(m) => m,
        None => unknown_metrics(),
    };
    path_score(metrics, candidate.kind) + s.config.minimum_score_improvement <= path_score(
        active_metrics,
        active.kind,
    )
}

/// How often in a row a path has been better once it is better again.
pub open spec fn better_count(s: ControllerView, candidate: PathId) -> int {
    match s.pending_candidate {
        Some(o) => if o.path == candidate {
            if o.consecutive_better_samples == 255 {
                255
            } else {
                o.consecutive_better_samples + 1
            }
        } else {
            1
        },
        None => 1,
    }
}

/// What comes of measuring a path: the active one has its metrics renewed; another
/// one is taken once it has been better by enough often enough in a row, and a
/// single sample that is not starts the count anew.
pub open spec fn observed(s: ControllerView, candidate: PathId, metrics: PathMetrics) -> (
    ControllerView,
    CandidateDecision,
) {
    match s.active_path {
        None => (
            switched(s, candidate, metrics, activation_reason(s)),
            CandidateDecision::Switched,
        ),
        Some(active) => if active == candidate {
            (
                ControllerView { active_metrics: Some(metrics), pending_candidate: None, ..s },
                CandidateDecision::KeptCurrent,
            )
        } else if !is_better(s, active, candidate, metrics) {
            (ControllerView { pending_candidate: None, ..s }, CandidateDecision::KeptCurrent)
        } else if better_count(s, candidate) < s.config.required_better_samples {
            (
                ControllerView {
                    pending_candidate: Some(
                        CandidateObservation {
                            path: candidate,
                            consecutive_better_samples: better_count(s, candidate) as u8,
                        },
                    ),
                    ..s
                },
                CandidateDecision::Pending {
                    observed: better_count(s, candidate) as u8,
                    required: s.config.required_better_samples,
                },
            )
        } else {
            (
                switched(s, candidate, metrics, PathChangeReason::SustainedImprovement),
                CandidateDecision::Switched,
            )
        },
    }
}

/// A controller after a change of the network: no path, no flows.
pub open spec fn invalidated(s: ControllerView) -> ControllerView {
    ControllerView {
        active_path: None,
        active_metrics: None,
        pending_candidate: None,
        flows: Map::empty(),
        last_change_reason: Some(PathChangeReason::NetworkChange),
        path_mtu: search_restarted(s),
        ..s
    }
}

/// How long a flow has not been seen.
pub open spec fn idle_ms(binding: FlowBinding, now_ms: u64) -> int {
    if now_ms >= binding.last_seen_ms {
        now_ms - binding.last_seen_ms
    } else {
        0
    }
}

/// The flows that are not idle for too long.
pub open spec fn busy_flows(s: ControllerView, now_ms: u64) -> Map<FlowKey, FlowBinding> {
    s.flows.restrict(
        Set::new(
            |k: FlowKey|
                s.flows.dom().contains(k) && idle_ms(s.flows[k], now_ms)
                    <= s.config.flow_idle_timeout_ms,
        ),
    )
}

/// What becomes of a packet, and of the flows: idle flows are forgotten first; a
/// packet passes only on the active path, within the confirmed size, and with a
/// flow of its own, which is then bound to the path.
pub open spec fn authorized(s: ControllerView, packet: Seq<u8>, path: PathId, now_ms: u64) -> (
    ControllerView,
    Result<PacketDecision, FlowErrorView>,
) {
    let t = ControllerView { flows: busy_flows(s, now_ms), ..s };
    if s.active_path is None {
        (t, Ok(PacketDecision::DroppedNoPath))
    } else if s.active_path != Some(path) {
        (t, Ok(PacketDecision::DroppedPathMismatch))
    } else if packet.len() > s.path_mtu.confirmed {
        (
            t,
            Ok(
                PacketDecision::DroppedOversize {
                    packet_len: packet.len() as usize,
                    path_mtu: s.path_mtu.confirmed,
                },
            ),
        )
    } else {
        match flow_of(packet) {
            Err(why) => (t, Err(why)),
            Ok(flow) => (
                ControllerView {
                    flows: t.flows.insert(flow, FlowBinding { path, last_seen_ms: now_ms }),
                    ..t
                },
                Ok(PacketDecision::Allowed { flow, path }),
            ),
        }
    }
}

/// The model of a packet's outcome.
pub open spec fn decision_view(r: Result<PacketDecision, FlowStabilityError>) -> Result<
    PacketDecision,
    FlowErrorView,
> {
    match r {
        Ok(d) => Ok(d),
        Err(e) => Err(e@),
    }
}

impl FlowPathController {
    pub closed spec fn wf(&self) -> bool {
        self.flows.wf() && is_stable(self@)
    }

    /// In every state that a controller can reach its configuration is valid, its
    /// search is sound, and every flow is on the active path.
    pub proof fn law_controller_is_stable(&self)
        requires
            self.wf(),
        ensures
            is_stable(self@),
    {
    }

    pub fn new(config: FlowStabilityConfig) -> (r: Result<FlowPathController, FlowStabilityError>)
        ensures
            match config_refusal(config) {
                Some(text) => r matches Err(e) && e@ == FlowErrorView::InvalidConfiguration(text),
                None => r matches Ok(c) && c.wf() && c@ == fresh_controller(config),
            },
    {
        match config.validate() {
            Err(e) => Err(e),
            Ok(config) => Ok(
                FlowPathController {
                    config,
                    active_path: None,
                    active_metrics: None,
                    pending_candidate: None,
                    flows: KeyMap::new(),
                    last_change_reason: None,
                    path_mtu: PathMtuController::new(config),
                },
            ),
        }
    }

    /// Takes the first path, or the first after a change of the network.
    pub fn activate_initial(&mut self, path: PathId, metrics: PathMetrics)
        requires
            old(self).wf(),
        ensures
            final(self).wf(),
            final(self)@ == switched(old(self)@, path, metrics, activation_reason(old(self)@)),
    {
        let reason = match self.last_change_reason {
            Some(last) => if last == PathChangeReason::NetworkChange {
                PathChangeReason::NetworkChange
            } else {
                PathChangeReason::Initial
            },
            None => PathChangeReason::Initial,
        };
        self.switch_path(path, metrics, reason);
    }

    /// Takes a sample of a path into account.
    pub fn observe_candidate(&mut self, candidate: PathId, metrics: PathMetrics) -> (d:
        CandidateDecision)
        requires
            old(self).wf(),
        ensures
            final(self).wf(),
            (final(self)@, d) == observed(old(self)@, candidate, metrics),
    {
        let active = match self.active_path {
            Some(active) => active,
            None => {
                self.activate_initial(candidate, metrics);
                return CandidateDecision::Switched;
            },
        };
        if active == candidate {
            self.active_metrics = Some(metrics);
            self.pending_candidate = None;
            return CandidateDecision::KeptCurrent;
        }
        let active_metrics = match self.active_metrics {
            Some(m) => m,
            None => PathMetrics::unknown(),
        };
        let active_score: u64 = active_metrics.score(active.kind);
        let candidate_score: u64 = metrics.score(candidate.kind);
        if candidate_score as u128 + self.config.minimum_score_improvement as u128
            > active_score as u128 {
            self.pending_candidate = None;
            return CandidateDecision::KeptCurrent;
        }
        let count: u8 = match self.pending_candidate {
            Some(observation) => if observation.path == candidate {
                if observation.consecutive_better_samples == 255 {
                    255
                } else {
                    observation.consecutive_better_samples + 1
                }
            } else {
                1
            },
            None => 1,
        };
        if count < self.config.required_better_samples {
            self.pending_candidate =
            Some(CandidateObservation { path: candidate, consecutive_better_samples: count });
            return CandidateDecision::Pending {
                observed: count,
                required: self.config.required_better_samples,
            };
        }
        self.switch_path(candidate, metrics, PathChangeReason::SustainedImprovement);
        CandidateDecision::Switched
    }

    /// Leaves a path that has failed.
    pub fn switch_after_failure(&mut self, path: PathId, metrics: PathMetrics)
        requires
            old(self).wf(),
        ensures
            final(self).wf(),
            final(self)@ == switched(
                old(self)@,
                path,
                metrics,
                PathChangeReason::PathFailure,
            ),
    {
        self.switch_path(path, metrics, PathChangeReason::PathFailure);
    }

    /// Gives every path and flow up.
    pub fn invalidate_for_network_change(&mut self)
        requires
            old(self).wf(),
        ensures
            final(self).wf(),
            final(self)@ == invalidated(old(self)@),
    {
        self.active_path = None;
        self.active_metrics = None;
        self.pending_candidate = None;
        self.flows.clear();
        self.last_change_reason = Some(PathChangeReason::NetworkChange);
        self.path_mtu.reset();
    }

    /// Decides what becomes of a packet on a path.
    pub fn authorize_ipv4_packet(&mut self, packet: &[u8], path: PathId, now_ms: u64) -> (r: Result<
        PacketDecision,
        FlowStabilityError,
    >)
        requires
            old(self).wf(),
        ensures
            final(self).wf(),
            (final(self)@, decision_view(r)) == authorized(old(self)@, packet@, path, now_ms),
    {
        self.expire_idle_flows(now_ms);
        let active = match self.active_path {
            Some(active) => active,
            None => {
                return Ok(PacketDecision::DroppedNoPath);
            },
        };
        if active != path {
            return Ok(PacketDecision::DroppedPathMismatch);
        }
        let path_mtu: u16 = self.path_mtu.confirmed;
        if packet.len() > path_mtu as usize {
            return Ok(PacketDecision::DroppedOversize { packet_len: packet.len(), path_mtu });
        }
        let flow = match FlowKey::from_ipv4_packet(packet) {
            Ok(flow) => flow,
            Err(e) => {
                return Err(e);
            },
        };
        if let Some(binding) = self.flows.get(&flow) {
            if binding.path != path {
                assert(self@.flows.dom().contains(flow));
                return Ok(PacketDecision::DroppedPathMismatch);
            }
        }
        self.flows.insert(flow, FlowBinding { path, last_seen_ms: now_ms });
        Ok(PacketDecision::Allowed { flow, path })
    }

    pub fn next_mtu_probe(&mut self) -> (r: Option<u16>)
        requires
            old(self).wf(),
        ensures
            final(self).wf(),
            final(self)@ == (ControllerView {
                path_mtu: search_asked(old(self)@.path_mtu),
                ..old(self)@
            }),
            r == final(self)@.path_mtu.outstanding_probe,
    {
        self.path_mtu.next_probe()
    }

    pub fn record_mtu_probe_result(&mut self, probe_mtu: u16, succeeded: bool) -> (r: Result<
        (),
        FlowStabilityError,
    >)
        requires
            old(self).wf(),
        ensures
            final(self).wf(),
            if old(self)@.path_mtu.outstanding_probe == Some(probe_mtu) {
                r is Ok && final(self)@ == (ControllerView {
                    path_mtu: search_answered(old(self)@.path_mtu, probe_mtu, succeeded),
                    ..old(self)@
                })
            } else {
                final(self)@ == old(self)@ && (r matches Err(e) && e@
                    == FlowErrorView::UnexpectedMtuProbe)
            },
    {
        self.path_mtu.record_probe_result(probe_mtu, succeeded)
    }

    pub fn snapshot(&self) -> (s: FlowPathSnapshot)
        requires
            self.wf(),
        ensures
            s.active_path == self@.active_path,
            s.active_flow_count == self@.flows.dom().len(),
            s.last_change_reason == self@.last_change_reason,
            s.path_mtu.confirmed_mtu == self@.path_mtu.confirmed,
            s.path_mtu.next_probe_mtu == self@.path_mtu.outstanding_probe,
            s.path_mtu.state == self@.path_mtu.state,
            match self@.active_metrics {
                Some(m) => s.median_rtt_ms == Some(m.median_rtt_ms) && s.jitter_ms == Some(
                    m.jitter_ms,
                ) && s.packet_loss_basis_points == Some(m.packet_loss_basis_points),
                None => s.median_rtt_ms is None && s.jitter_ms is None
                    && s.packet_loss_basis_points is None,
            },
    {
        let (median_rtt_ms, jitter_ms, packet_loss_basis_points) = match self.active_metrics {
            Some(m) => (
                Some(m.median_rtt_ms),
                Some(m.jitter_ms),
                Some(m.packet_loss_basis_points),
            ),
            None => (None, None, None),
        };
        FlowPathSnapshot {
            active_path: self.active_path,
            active_flow_count: self.flows.len(),
            last_change_reason: self.last_change_reason,
            path_mtu: self.path_mtu.snapshot(),
            median_rtt_ms,
            jitter_ms,
            packet_loss_basis_points,
        }
    }

    fn switch_path(&mut self, path: PathId, metrics: PathMetrics, reason: PathChangeReason)
        requires
            old(self).wf(),
        ensures
            final(self).wf(),
            final(self)@ == switched(old(self)@, path, metrics, reason),
    {
        let ghost start = self@;
        let ghost orig = self.flows@;
        let mut i: usize = 0;
        while i < self.flows.len()
            invariant
                self.flows.wf(),
                i <= self.flows.listed().len(),
                self.config == start.config,
                self.path_mtu == start.path_mtu,
                orig == start.flows,
                self.flows@.dom() == orig.dom(),
                forall|k: FlowKey| #[trigger]
                    orig.dom().contains(k) ==> self.flows@[k].last_seen_ms
                        == orig[k].last_seen_ms,
                forall|j: int| 0 <= j < i ==> (#[trigger] self.flows.listed()[j]).1.path == path,
            decreases self.flows.listed().len() - i,
        {
            proof {
                self.flows.lemma_listed();
                lemma_mapped_entry(self.flows.listed(), i as int);
            }
            let last_seen_ms: u64 = self.flows.value_at(i).last_seen_ms;
            let ghost before = self.flows.listed();
            let ghost map_before = self.flows@;
            let ghost key = before[i as int].0;
            self.flows.set_value_at(i, FlowBinding { path, last_seen_ms });
            assert(self.flows@.dom() =~= map_before.dom());
            i = i + 1;
        }
        proof {
            self.flows.lemma_listed();
            assert forall|k: FlowKey| #[trigger] self.flows@.dom().contains(k) implies self.flows@[
                k
            ].path == path by {
                let j = lemma_mapped_key(self.flows.listed(), k);
                lemma_mapped_entry(self.flows.listed(), j);
            }
            assert(self.flows@ =~= rebound(orig, path));
        }
        self.active_path = Some(path);
        self.active_metrics = Some(metrics);
        self.pending_candidate = None;
        self.last_change_reason = Some(reason);
        self.path_mtu.reset();
    }

    fn expire_idle_flows(&mut self, now_ms: u64)
        requires
            old(self).wf(),
        ensures
            final(self).wf(),
            final(self)@ == (ControllerView {
                flows: busy_flows(old(self)@, now_ms),
                ..old(self)@
            }),
    {
        let ghost start = self@;
        let ghost orig = self.flows@;
        let idle_timeout: u64 = self.config.flow_idle_timeout_ms;
        let mut i: usize = 0;
        while i < self.flows.len()
            invariant
                self.flows.wf(),
                i <= self.flows.listed().len(),
                orig == start.flows,
                idle_timeout == start.config.flow_idle_timeout_ms,
                self@ == (ControllerView { flows: self.flows@, ..start }),
                forall|k: FlowKey| #[trigger]
                    self.flows@.dom().contains(k) ==> orig.dom().contains(k) && self.flows@[k]
                        == orig[k],
                forall|k: FlowKey| #[trigger]
                    orig.dom().contains(k) && !self.flows@.dom().contains(k) ==> idle_ms(
                        orig[k],
                        now_ms,
                    ) > idle_timeout,
                forall|j: int|
                    0 <= j < i ==> idle_ms((#[trigger] self.flows.listed()[j]).1, now_ms)
                        <= idle_timeout,
            decreases self.flows.listed().len() - i,
        {
            proof {
                self.flows.lemma_listed();
                lemma_mapped_entry(self.flows.listed(), i as int);
            }
            let last_seen_ms: u64 = self.flows.value_at(i).last_seen_ms;
            if now_ms.saturating_sub(last_seen_ms) <= idle_timeout {
                i = i + 1;
            } else {
                let ghost before = self.flows.listed();
                self.flows.remove_at(i);
                assert(forall|j: int| 0 <= j < i ==> #[trigger] self.flows.listed()[j]
                    == before[j]);
            }
        }
        proof {
            self.flows.lemma_listed();
            assert forall|k: FlowKey| #[trigger] self.flows@.dom().contains(k) implies idle_ms(
                self.flows@[k],
                now_ms,
            ) <= idle_timeout by {
                let j = lemma_mapped_key(self.flows.listed(), k);
                lemma_mapped_entry(self.flows.listed(), j);
            }
            assert(self.flows@ =~= busy_flows(start, now_ms));
        }
    }
}

impl Default for FlowPathController {
    fn default() -> (c: Self)
        ensures
            c.wf(),
            c@ == fresh_controller(default_config()),
    {
        let config = FlowStabilityConfig::default();
        FlowPathController {
            config,
            active_path: None,
            active_metrics: None,
            pending_candidate: None,
            flows: KeyMap::new(),
            last_change_reason: None,
            path_mtu: PathMtuController::new(config),
        }
    }
}

// ---------------------------------------------------------------------------
// Laws
// ---------------------------------------------------------------------------

/// A packet that is let through goes over the active path, is within the confirmed
/// size, and binds its flow to that path.
pub proof fn law_flows_keep_to_the_active_path(
    s: ControllerView,
    packet: Seq<u8>,
    path: PathId,
    now_ms: u64,
)
    requires
        is_stable(s),
    ensures
        is_stable(authorized(s, packet, path, now_ms).0),
        authorized(s, packet, path, now_ms).1 matches Ok(PacketDecision::Allowed {
            flow,
            path: taken,
        }) ==> {
            let t = authorized(s, packet, path, now_ms).0;
            &&& taken == path
            &&& s.active_path == Some(path)
            &&& packet.len() <= s.path_mtu.confirmed
            &&& t.flows.dom().contains(flow)
            &&& t.flows[flow].path == path
        },
{
    let t = authorized(s, packet, path, now_ms).0;
    assert(busy_flows(s, now_ms).dom().subset_of(s.flows.dom()));
    vstd::set_lib::lemma_len_subset(busy_flows(s, now_ms).dom(), s.flows.dom());
    assert forall|k: FlowKey| #[trigger] t.flows.dom().contains(k) implies t.active_path == Some(
        t.flows[k].path,
    ) by {
        if s.flows.dom().contains(k) {
        }
    }
}

/// The number of flows grows only with a packet that is let through, and then by
/// one at most; every other packet adds no flow.
pub proof fn law_only_allowed_packets_add_flows(
    s: ControllerView,
    packet: Seq<u8>,
    path: PathId,
    now_ms: u64,
)
    requires
        is_stable(s),
    ensures
        ({
            let (t, decision) = authorized(s, packet, path, now_ms);
            match decision {
                Ok(PacketDecision::Allowed { flow, .. }) => {
                    &&& t.flows.dom().len() <= s.flows.dom().len() + 1
                    &&& t.flows.dom().subset_of(s.flows.dom().insert(flow))
                },
                _ => {
                    &&& t.flows.dom().len() <= s.flows.dom().len()
                    &&& t.flows.dom().subset_of(s.flows.dom())
                },
            }
        }),
{
    let busy = busy_flows(s, now_ms).dom();
    assert(busy.subset_of(s.flows.dom()));
    vstd::set_lib::lemma_len_subset(busy, s.flows.dom());
    if let Ok(PacketDecision::Allowed { flow, .. }) = authorized(s, packet, path, now_ms).1 {
        assert(authorized(s, packet, path, now_ms).0.flows.dom() =~= busy.insert(flow));
    }
}

/// Without a path nothing is let through; a change of the network leaves none.
pub proof fn law_network_change_stops_traffic(
    s: ControllerView,
    packet: Seq<u8>,
    path: PathId,
    now_ms: u64,
)
    ensures
        authorized(invalidated(s), packet, path, now_ms).1 == Ok::<PacketDecision, FlowErrorView>(
            PacketDecision::DroppedNoPath,
        ),
        invalidated(s).flows.dom().len() == 0,
        activation_reason(invalidated(s)) == PathChangeReason::NetworkChange,
{
    assert(invalidated(s).flows.dom() =~= Set::empty());
}

/// A change of path keeps every flow, moves all of them to the new path, and
/// starts over from the base packet size.
pub proof fn law_switch_moves_all_flows(
    s: ControllerView,
    path: PathId,
    metrics: PathMetrics,
    reason: PathChangeReason,
)
    requires
        is_stable(s),
    ensures
        ({
            let t = switched(s, path, metrics, reason);
            &&& is_stable(t)
            &&& t.flows.dom() == s.flows.dom()
            &&& forall|k: FlowKey| #[trigger] t.flows.dom().contains(k) ==> t.flows[k].path == path
                && t.flows[k].last_seen_ms == s.flows[k].last_seen_ms
            &&& t.path_mtu.confirmed == s.config.base_path_mtu
        }),
{
    assert(switched(s, path, metrics, reason).flows.dom() =~= s.flows.dom());
}

/// Samples that are not better by enough never move an active path.
pub proof fn law_noise_does_not_move_flows(
    s: ControllerView,
    active: PathId,
    candidate: PathId,
    metrics: PathMetrics,
)
    requires
        s.active_path == Some(active),
        candidate != active,
        !is_better(s, active, candidate, metrics),
    ensures
        observed(s, candidate, metrics).0.active_path == Some(active),
        observed(s, candidate, metrics).0.flows == s.flows,
        observed(s, candidate, metrics).1 == CandidateDecision::KeptCurrent,
{
}

/// A controller after a number of equal samples of a path.
pub open spec fn observed_times(
    s: ControllerView,
    candidate: PathId,
    metrics: PathMetrics,
    times: nat,
) -> ControllerView
    decreases times,
{
    if times == 0 {
        s
    } else {
        observed(
            observed_times(s, candidate, metrics, (times - 1) as nat),
            candidate,
            metrics,
        ).0
    }
}

/// A path that keeps being better is taken with the sample that makes the required
/// number, and with none before it.
pub proof fn law_sustained_improvement_switches_at_the_threshold(
    s: ControllerView,
    active: PathId,
    candidate: PathId,
    metrics: PathMetrics,
    times: nat,
)
    requires
        is_stable(s),
        s.active_path == Some(active),
        candidate != active,
        s.pending_candidate is None,
        is_better(s, active, candidate, metrics),
        0 < times <= s.config.required_better_samples,
    ensures
        ({
            let before = observed_times(s, candidate, metrics, (times - 1) as nat);
            let (after, decision) = observed(before, candidate, metrics);
            if times < s.config.required_better_samples {
                &&& decision == (CandidateDecision::Pending {
                    observed: times as u8,
                    required: s.config.required_better_samples,
                })
                &&& after == (ControllerView {
                    pending_candidate: Some(
                        CandidateObservation {
                            path: candidate,
                            consecutive_better_samples: times as u8,
                        },
                    ),
                    ..s
                })
            } else {
                &&& decision == CandidateDecision::Switched
                &&& after == switched(s, candidate, metrics, PathChangeReason::SustainedImprovement)
            }
        }),
    decreases times,
{
    if times > 1 {
        law_sustained_improvement_switches_at_the_threshold(
            s,
            active,
            candidate,
            metrics,
            (times - 1) as nat,
        );
        assert(observed_times(s, candidate, metrics, (times - 1) as nat) == observed(
            observed_times(s, candidate, metrics, (times - 2) as nat),
            candidate,
            metrics,
        ).0);
    }
}

/// A sample of the active path, or one of another path that is not better by
/// enough, starts the count anew.
pub proof fn law_count_starts_anew(
    s: ControllerView,
    candidate: PathId,
    other: PathId,
    metrics: PathMetrics,
)
    requires
        s.active_path is Some,
        other == s.active_path->0 || !is_better(s, s.active_path->0, other, metrics),
    ensures
        observed(s, other, metrics).0.pending_candidate is None,
        better_count(observed(s, other, metrics).0, candidate) == 1,
{
}

} // verus!
