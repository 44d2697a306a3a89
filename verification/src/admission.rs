//! Admission to a service: a shared token and a limit on events per address.

use crate::dytallix_identity_v2::reason_view;
use crate::error::{QlinkError, QlinkErrorView, Result};
use crate::key_map::KeyMap;
use crate::net::{IpAddr, SocketAddr, ip_text};
use crate::outside::optional_text;
use crate::text::{decimal, join2, join3, push_decimal};
use crate::time::{Duration, Instant, duration_text, elapsed};
use vstd::map::*;
use vstd::prelude::*;
use vstd::string::*;
use vstd::utf8::*;

verus! {

/// How many events an address may cause in a window of time.
#[derive(Debug, Clone, Copy, PartialEq, Eq, Structural)]
pub struct RateLimitConfig {
    pub max_events: u32,
    pub window: Duration,
}

/// What a service asks of those who come.
#[derive(Clone)]
pub struct ServiceAdmissionConfig {
    auth_token: Option<String>,
    rate_limit: Option<RateLimitConfig>,
}

/// The model of a [`ServiceAdmissionConfig`].
pub struct AdmissionView {
    pub auth_token: Option<Seq<char>>,
    pub rate_limit: Option<RateLimitConfig>,
}

impl View for ServiceAdmissionConfig {
    type V = AdmissionView;

    closed spec fn view(&self) -> AdmissionView {
        AdmissionView { auth_token: optional_text(self.auth_token), rate_limit: self.rate_limit }
    }
}

/// A rate limit as text.
pub open spec fn rate_limit_text(limit: Option<RateLimitConfig>) -> Seq<char> {
    match limit {
        None => "None"@,
        Some(l) => "Some(RateLimitConfig { max_events: "@ + decimal(l.max_events as nat)
            + ", window: "@ + duration_text(l.window) + " })"@,
    }
}

/// A configuration as text: whether there is a token, but not the token.
pub open spec fn admission_text(c: AdmissionView) -> Seq<char> {
    "ServiceAdmissionConfig { auth_token_configured: "@ + (if c.auth_token is Some {
        "true"@
    } else {
        "false"@
    }) + ", rate_limit: "@ + rate_limit_text(c.rate_limit) + " }"@
}

/// The refusal of a token.
pub open spec fn authentication_refusal(service: Seq<char>) -> QlinkErrorView {
    QlinkErrorView::Protocol(service + " authentication failed"@)
}

/// What a service without demands asks: nothing.
pub open spec fn open_admission() -> AdmissionView {
    AdmissionView { auth_token: None, rate_limit: None }
}

impl ServiceAdmissionConfig {
    pub fn open() -> (c: ServiceAdmissionConfig)
        ensures
            c@ == open_admission(),
    {
        ServiceAdmissionConfig { auth_token: None, rate_limit: None }
    }

    pub fn with_auth_token(self, token: &str) -> (c: ServiceAdmissionConfig)
        ensures
            c@ == (AdmissionView { auth_token: Some(token@), ..self@ }),
    {
        let mut config = self;
        config.auth_token = Some(token.to_owned());
        config
    }

    /// Sets a limit. One that would let nothing in, or that has no window, is
    /// passed over.
    pub fn with_rate_limit(self, max_events: u32, window: Duration) -> (c: ServiceAdmissionConfig)
        ensures
            c@ == if max_events > 0 && window.nanos > 0 {
                AdmissionView {
                    rate_limit: Some(RateLimitConfig { max_events, window }),
                    ..self@
                }
            } else {
                self@
            },
    {
        let mut config = self;
        if max_events > 0 && !window.is_zero() {
            config.rate_limit = Some(RateLimitConfig { max_events, window });
        }
        config
    }

    pub fn auth_token_configured(&self) -> (b: bool)
        ensures
            b == (self@.auth_token is Some),
    {
        self.auth_token.is_some()
    }

    pub fn rate_limit(&self) -> (l: Option<RateLimitConfig>)
        ensures
            l == self@.rate_limit,
    {
        self.rate_limit
    }

    /// Lets in whoever brings the token, and everybody where there is none.
    pub fn require_token(&self, provided: Option<&str>, service: &str) -> (r: Result<()>)
        ensures
            if self@.auth_token is None || reason_view(provided) == self@.auth_token {
                r is Ok
            } else {
                r matches Err(e) && e@ == authentication_refusal(service@)
            },
    {
        let expected = match &self.auth_token {
            Some(expected) => expected,
            None => {
                return Ok(());
            },
        };
        if let Some(token) = provided {
            if token_matches(expected.as_str(), token) {
                return Ok(());
            }
        }
        Err(QlinkError::Protocol(join2(service, " authentication failed")))
    }

    /// The configuration as text, without the token.
    pub fn debug_text(&self) -> (s: String)
        ensures
            s@ == admission_text(self@),
    {
        let mut s = "ServiceAdmissionConfig { auth_token_configured: ".to_owned();
        if self.auth_token_configured() {
            s.append("true");
        } else {
            s.append("false");
        }
        s.append(", rate_limit: ");
        match self.rate_limit {
            None => s.append("None"),
            Some(limit) => {
                s.append("Some(RateLimitConfig { max_events: ");
                push_decimal(&mut s, limit.max_events as u64);
                s.append(", window: ");
                let window = limit.window.debug_text();
                s.append(window.as_str());
                s.append(" })");
            },
        }
        s.append(" }");
        assert(s@ =~= admission_text(self@));
        s
    }
}

impl Default for ServiceAdmissionConfig {
    fn default() -> (c: Self)
        ensures
            c@ == open_admission(),
    {
        ServiceAdmissionConfig::open()
    }
}

/// The text of a configuration tells nothing of its token.
pub proof fn law_text_does_not_tell_the_token(
    one: Seq<char>,
    other: Seq<char>,
    limit: Option<RateLimitConfig>,
)
    ensures
        admission_text(AdmissionView { auth_token: Some(one), rate_limit: limit })
            == admission_text(AdmissionView { auth_token: Some(other), rate_limit: limit }),
{
}

/// Compares two tokens, looking at every byte of the longer one whatever the
/// outcome.
pub fn token_matches(expected: &str, provided: &str) -> (same: bool)
    ensures
        same == (expected@ == provided@),
{
    let left = expected.as_bytes();
    let right = provided.as_bytes();
    let max_len: usize = if left.len() > right.len() {
        left.len()
    } else {
        right.len()
    };
    let left_len: u64 = left.len() as u64;
    let right_len: u64 = right.len() as u64;
    let mut diff: u64 = left_len ^ right_len;
    assert((left_len ^ right_len == 0) == (left_len == right_len)) by (bit_vector);
    let mut i: usize = 0;
    while i < max_len
        invariant
            i <= max_len,
            max_len == if left@.len() > right@.len() {
                left@.len()
            } else {
                right@.len()
            },
            (diff == 0) == (left@.len() == right@.len() && forall|j: int|
                0 <= j < i ==> left@[j] == right@[j]),
        decreases max_len - i,
    {
        let a: u8 = if i < left.len() {
            left[i]
        } else {
            0
        };
        let b: u8 = if i < right.len() {
            right[i]
        } else {
            0
        };
        let before: u64 = diff;
        let gap: u64 = (a ^ b) as u64;
        diff = diff | gap;
        assert((before | gap == 0) == (before == 0 && gap == 0)) by (bit_vector);
        assert((a ^ b == 0) == (a == b)) by (bit_vector);
        i = i + 1;
    }
    proof {
        if diff == 0 {
            assert(left@ =~= right@);
            encode_utf8_decode_utf8(expected@);
            encode_utf8_decode_utf8(provided@);
        }
    }
    diff == 0
}

// ---------------------------------------------------------------------------
// Rate limits
// ---------------------------------------------------------------------------

/// How many events an address caused since its window began.
#[derive(Debug, Clone, Copy, PartialEq, Eq, Structural)]
pub struct RateBucket {
    pub window_started: Instant,
    pub count: u32,
}

/// Counts the events of each address.
#[derive(Debug, Clone)]
pub struct AdmissionLimiter {
    config: Option<RateLimitConfig>,
    buckets: KeyMap<IpAddr, RateBucket>,
}

/// The model of an [`AdmissionLimiter`].
pub struct LimiterView {
    pub config: Option<RateLimitConfig>,
    pub buckets: Map<IpAddr, RateBucket>,
}

impl View for AdmissionLimiter {
    type V = LimiterView;

    closed spec fn view(&self) -> LimiterView {
        LimiterView { config: self.config, buckets: self.buckets@ }
    }
}

/// The bucket of an address at a time: a new one where there is none, or where the
/// window is over.
pub open spec fn bucket_at(
    s: LimiterView,
    limit: RateLimitConfig,
    ip: IpAddr,
    now: Instant,
) -> RateBucket {
    if s.buckets.dom().contains(ip) && elapsed(s.buckets[ip].window_started, now)
        < limit.window.nanos {
        s.buckets[ip]
    } else {
        RateBucket { window_started: now, count: 0 }
    }
}

/// What comes of an event of an address: it is let in, or not.
pub open spec fn event_admitted(s: LimiterView, ip: IpAddr, now: Instant) -> (LimiterView, bool) {
    match s.config {
        None => (s, true),
        Some(limit) => {
            let b = bucket_at(s, limit, ip, now);
            if b.count >= limit.max_events {
                (LimiterView { buckets: s.buckets.insert(ip, b), ..s }, false)
            } else {
                (
                    LimiterView {
                        buckets: s.buckets.insert(
                            ip,
                            RateBucket { count: (b.count + 1) as u32, ..b },
                        ),
                        ..s
                    },
                    true,
                )
            }
        },
    }
}

impl AdmissionLimiter {
    pub closed spec fn wf(&self) -> bool {
        self.buckets.wf()
    }

    pub fn new(config: &ServiceAdmissionConfig) -> (l: AdmissionLimiter)
        ensures
            l.wf(),
            l@ == (LimiterView { config: config@.rate_limit, buckets: Map::empty() }),
    {
        AdmissionLimiter { config: config.rate_limit(), buckets: KeyMap::new() }
    }

    /// Counts an event, or refuses it where the address has caused too many. A
    /// window of zero length ends as soon as it begins.
    pub fn check(&mut self, peer_addr: SocketAddr, service: &str, now: Instant) -> (r: Result<()>)
        requires
            old(self).wf(),
        ensures
            final(self).wf(),
            final(self)@ == event_admitted(old(self)@, peer_addr.ip, now).0,
            if event_admitted(old(self)@, peer_addr.ip, now).1 {
                r is Ok
            } else {
                r matches Err(e) && e@ == QlinkErrorView::Protocol(
                    service@ + " rate limit exceeded for "@ + ip_text(peer_addr.ip),
                )
            },
    {
        let limit = match self.config {
            Some(limit) => limit,
            None => {
                return Ok(());
            },
        };
        let mut bucket = match self.buckets.get(&peer_addr.ip) {
            Some(bucket) => *bucket,
            None => RateBucket { window_started: now, count: 0 },
        };
        if now.saturating_duration_since(bucket.window_started).nanos >= limit.window.nanos {
            bucket = RateBucket { window_started: now, count: 0 };
        }
        if bucket.count >= limit.max_events {
            self.buckets.insert(peer_addr.ip, bucket);
            let ip = peer_addr.ip.to_string();
            return Err(
                QlinkError::Protocol(join3(service, " rate limit exceeded for ", ip.as_str())),
            );
        }
        bucket.count = bucket.count + 1;
        self.buckets.insert(peer_addr.ip, bucket);
        Ok(())
    }
}

/// The limiter after events of an address at some times.
pub open spec fn after_events(s: LimiterView, ip: IpAddr, times: Seq<Instant>) -> LimiterView
    decreases times.len(),
{
    if times.len() == 0 {
        s
    } else {
        event_admitted(after_events(s, ip, times.drop_last()), ip, times.last()).0
    }
}

/// Within a window an address is let in exactly as often as the limit says: the
/// first so many events pass, all others do not.
pub proof fn law_window_admits_up_to_the_limit(
    s: LimiterView,
    limit: RateLimitConfig,
    ip: IpAddr,
    times: Seq<Instant>,
)
    requires
        s.config == Some(limit),
        limit.max_events > 0,
        limit.window.nanos > 0,
        !s.buckets.dom().contains(ip),
        times.len() > 0,
        forall|i: int|
            0 <= i < times.len() ==> times[0].nanos <= (#[trigger] times[i]).nanos
                < times[0].nanos + limit.window.nanos,
    ensures
        event_admitted(after_events(s, ip, times.drop_last()), ip, times.last()).1 == (times.len()
            <= limit.max_events),
        after_events(s, ip, times).config == Some(limit),
        after_events(s, ip, times).buckets == s.buckets.insert(
            ip,
            RateBucket {
                window_started: times[0],
                count: if times.len() <= limit.max_events {
                    times.len() as u32
                } else {
                    limit.max_events
                },
            },
        ),
    decreases times.len(),
{
    let front = times.drop_last();
    if front.len() > 0 {
        assert forall|i: int| 0 <= i < front.len() implies front[0].nanos <= (
        #[trigger] front[i]).nanos < front[0].nanos + limit.window.nanos by {
            assert(front[i] == times[i]);
        }
        law_window_admits_up_to_the_limit(s, limit, ip, front);
        assert(times[times.len() - 1].nanos < times[0].nanos + limit.window.nanos);
        assert(after_events(s, ip, times).buckets =~= s.buckets.insert(
            ip,
            RateBucket {
                window_started: times[0],
                count: if times.len() <= limit.max_events {
                    times.len() as u32
                } else {
                    limit.max_events
                },
            },
        ));
    } else {
        assert(after_events(s, ip, front) == s);
        assert(times.last() == times[0]);
    }
}

/// What an address does leaves all others alone.
pub proof fn law_addresses_are_counted_apart(s: LimiterView, ip: IpAddr, other: IpAddr, now: Instant)
    requires
        ip != other,
    ensures
        ({
            let t = event_admitted(s, ip, now).0;
            &&& t.buckets.dom().contains(other) == s.buckets.dom().contains(other)
            &&& t.buckets.dom().contains(other) ==> t.buckets[other] == s.buckets[other]
        }),
{
}

} // verus!
