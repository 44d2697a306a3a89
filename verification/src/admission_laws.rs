//! What holds of every decision on who may use a service, and how often.

use crate::admission::{AdmissionLimiter, RateBucket, ServiceAdmissionConfig, token_matches};
use crate::error::{QlinkErrorView, Result};
use crate::net::{IpAddr, SocketAddr, ip_text};
use crate::text::decimal;
use crate::time::{Duration, Instant, duration_text};
use vstd::prelude::*;

verus! {

/// Without a limit everyone passes. With one, an address passes exactly while
/// fewer events than allowed were counted in its window; a window that is over, or
/// was never opened, starts anew with this event. Refused events are not counted,
/// and other addresses keep their windows.
pub proof fn law_addresses_pass_up_to_the_limit(
    limiter: &mut AdmissionLimiter,
    peer_addr: SocketAddr,
    service: &str,
    now: Instant,
    r: Result<()>,
)
    requires
        call_ensures(AdmissionLimiter::check, (limiter, peer_addr, service, now), r),
    ensures
        ({
            let s = old(limiter)@;
            let t = final(limiter)@;
            let ip = peer_addr.ip;
            &&& t.config == s.config
            &&& s.config is None ==> r is Ok && t == s
            &&& s.config matches Some(limit) ==> {
                let open = s.buckets.dom().contains(ip) && limit.window.nanos > 0 && now.nanos
                    < s.buckets[ip].window_started.nanos + limit.window.nanos;
                let fresh = !open;
                &&& open && s.buckets[ip].count < limit.max_events ==> r is Ok
                    && t.buckets[ip].window_started == s.buckets[ip].window_started
                    && t.buckets[ip].count == s.buckets[ip].count + 1
                &&& open && s.buckets[ip].count >= limit.max_events ==> r is Err && t.buckets[ip]
                    == s.buckets[ip]
                &&& fresh && limit.max_events > 0 ==> r is Ok && t.buckets[ip].window_started == now
                    && t.buckets[ip].count == 1
                &&& fresh && limit.max_events == 0 ==> r is Err && t.buckets[ip].count == 0
                &&& t.buckets.dom() == s.buckets.dom().insert(ip)
                &&& forall|other: IpAddr|
                    other != ip && s.buckets.dom().contains(other) ==> #[trigger] t.buckets[other]
                        == s.buckets[other]
            }
            &&& r matches Err(e) ==> e@ == QlinkErrorView::Protocol(
                service@ + " rate limit exceeded for "@ + ip_text(ip),
            )
        }),
{
    let s = old(limiter)@;
    let t = final(limiter)@;
    if s.config is Some {
        assert(t.buckets.dom() =~= s.buckets.dom().insert(peer_addr.ip));
    }
}

/// Where a token is configured, that token passes and nothing else does; where
/// none is, everyone does.
pub proof fn law_configured_token_is_required(
    config: &ServiceAdmissionConfig,
    provided: Option<&str>,
    service: &str,
    r: Result<()>,
)
    requires
        call_ensures(ServiceAdmissionConfig::require_token, (config, provided, service), r),
    ensures
        config@.auth_token is None ==> r is Ok,
        config@.auth_token matches Some(token) ==> (r is Ok <==> provided is Some && provided->0@
            == token),
        r matches Err(e) ==> e@ == QlinkErrorView::Protocol(
            service@ + " authentication failed"@,
        ),
{
}

/// Tokens match exactly where they are the same text.
pub proof fn law_tokens_match_by_their_text(expected: &str, provided: &str, same: bool)
    requires
        call_ensures(token_matches, (expected, provided), same),
    ensures
        same <==> expected@ == provided@,
{
}

/// A limit is taken where it allows an event in some time; one that does not
/// leaves the settings as they were. The token stays in either case.
pub proof fn law_empty_limit_is_not_taken(
    config: ServiceAdmissionConfig,
    max_events: u32,
    window: Duration,
    c: ServiceAdmissionConfig,
)
    requires
        call_ensures(ServiceAdmissionConfig::with_rate_limit, (config, max_events, window), c),
    ensures
        c@.auth_token == config@.auth_token,
        max_events > 0 && window.nanos > 0 ==> (c@.rate_limit matches Some(l) && l.max_events
            == max_events && l.window == window),
        max_events == 0 || window.nanos == 0 ==> c@.rate_limit == config@.rate_limit,
{
}

/// A configured token leaves the limit as it was.
pub proof fn law_token_is_taken_as_given(
    config: ServiceAdmissionConfig,
    token: &str,
    c: ServiceAdmissionConfig,
)
    requires
        call_ensures(ServiceAdmissionConfig::with_auth_token, (config, token), c),
    ensures
        c@.auth_token == Some(token@),
        c@.rate_limit == config@.rate_limit,
{
}

/// The text of the settings tells whether there is a token, never which, and the
/// limit.
pub proof fn law_settings_text(config: &ServiceAdmissionConfig, s: String)
    requires
        call_ensures(ServiceAdmissionConfig::debug_text, (config,), s),
    ensures
        s@ == "ServiceAdmissionConfig { auth_token_configured: "@ + (
        if config@.auth_token is Some {
            "true"@
        } else {
            "false"@
        }) + ", rate_limit: "@ + (match config@.rate_limit {
            None => "None"@,
            Some(l) => "Some(RateLimitConfig { max_events: "@ + decimal(l.max_events as nat)
                + ", window: "@ + duration_text(l.window) + " })"@,
        }) + " }"@,
{
}

/// Open settings have no token and no limit, and a new limiter no windows.
pub proof fn law_open_settings_admit_everyone(
    c: ServiceAdmissionConfig,
    config: &ServiceAdmissionConfig,
    limiter: AdmissionLimiter,
)
    requires
        call_ensures(ServiceAdmissionConfig::open, (), c),
        call_ensures(AdmissionLimiter::new, (config,), limiter),
    ensures
        c@.auth_token is None,
        c@.rate_limit is None,
        limiter@.config == config@.rate_limit,
        limiter@.buckets == Map::<IpAddr, RateBucket>::empty(),
{
}

} // verus!
