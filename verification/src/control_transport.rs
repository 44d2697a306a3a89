//! The endpoints of control connections.

use crate::error::{QlinkError, QlinkErrorView, Result, protocol, result_view};
use crate::text::{
    after_prefix, chars_of, find_last_char, first_index, has_prefix, join3, last_index,
    lemma_first_index_unique, string_of, strip_prefix,
};
use vstd::prelude::*;
use vstd::string::*;

verus! {

/// Where a control connection goes, and whether it is encrypted.
#[derive(Debug, Clone, PartialEq, Eq)]
pub enum ControlEndpoint {
    Tcp(String),
    Tls { address: String, server_name: String },
}

/// The model of a [`ControlEndpoint`].
pub enum ControlEndpointView {
    Tcp(Seq<char>),
    Tls { address: Seq<char>, server_name: Seq<char> },
}

impl View for ControlEndpoint {
    type V = ControlEndpointView;

    open spec fn view(&self) -> ControlEndpointView {
        match self {
            ControlEndpoint::Tcp(address) => ControlEndpointView::Tcp(address@),
            ControlEndpoint::Tls { address, server_name } => ControlEndpointView::Tls {
                address: address@,
                server_name: server_name@,
            },
        }
    }
}

/// A host and a port, neither of them empty.
pub open spec fn filled(host: Seq<char>, port: Seq<char>) -> Option<(Seq<char>, Seq<char>)> {
    if host.len() == 0 || port.len() == 0 {
        None
    } else {
        Some((host, port))
    }
}

/// The host and port of an address: a host in brackets and a port behind a colon,
/// or what stands before and behind the last colon.
pub open spec fn host_and_port(value: Seq<char>) -> Option<(Seq<char>, Seq<char>)> {
    if value.len() > 0 && value[0] == '[' {
        let rest = value.skip(1);
        let end = first_index(rest, ']');
        if end + 1 < rest.len() && rest[end + 1] == ':' {
            filled(rest.subrange(0, end), rest.skip(end + 2))
        } else {
            None
        }
    } else {
        let colon = last_index(value, ':');
        if colon < 0 {
            None
        } else {
            filled(value.subrange(0, colon), value.skip(colon + 1))
        }
    }
}

/// A bracket.
pub open spec fn is_bracket(c: char) -> bool {
    c == '[' || c == ']'
}

/// `s` without brackets at either end.
pub open spec fn unbracketed(s: Seq<char>) -> Seq<char>
    decreases s.len(),
{
    if s.len() > 0 && is_bracket(s[0]) {
        unbracketed(s.drop_first())
    } else if s.len() > 0 && is_bracket(s.last()) {
        unbracketed(s.drop_last())
    } else {
        s
    }
}

/// The refusal of an address without a host or a port.
pub open spec fn no_host_port(scheme: Seq<char>) -> QlinkErrorView {
    QlinkErrorView::Protocol(
        scheme + " control endpoint must be "@ + scheme + "://host:port or host:port"@,
    )
}

/// The endpoint that a text stands for, or why it stands for none: `tls://` asks
/// for encryption; `tcp://` may be left out.
pub open spec fn parsed_endpoint(input: Seq<char>) -> Result<ControlEndpointView, QlinkErrorView> {
    if has_prefix(input, "tcp://"@) {
        let address = after_prefix(input, "tcp://"@);
        if host_and_port(address) is Some {
            Ok(ControlEndpointView::Tcp(address))
        } else {
            Err(no_host_port("tcp"@))
        }
    } else if has_prefix(input, "tls://"@) {
        let address = after_prefix(input, "tls://"@);
        match host_and_port(address) {
            Some((host, _)) => Ok(
                ControlEndpointView::Tls { address, server_name: unbracketed(host) },
            ),
            None => Err(
                QlinkErrorView::Protocol("tls control endpoint must be tls://host:port"@),
            ),
        }
    } else if host_and_port(input) is Some {
        Ok(ControlEndpointView::Tcp(input))
    } else {
        Err(no_host_port("tcp"@))
    }
}

/// Splits an address into its host and port.
pub fn split_host_port(value: &str) -> (r: Option<(String, String)>)
    ensures
        match host_and_port(value@) {
            Some((host, port)) => r matches Some(found) && found.0@ == host && found.1@ == port,
            None => r is None,
        },
{
    let v = chars_of(value);
    if v.len() > 0 && v[0] == '[' {
        let ghost rest = v@.skip(1);
        let mut end: usize = 1;
        while end < v.len() && v[end] != ']'
            invariant
                1 <= end <= v@.len(),
                rest == v@.skip(1),
                forall|i: int| 0 <= i < end - 1 ==> rest[i] != ']',
            decreases v@.len() - end,
        {
            assert(rest[end - 1] == v@[end as int]);
            end = end + 1;
        }
        proof {
            if end < v@.len() {
                assert(rest[end - 1] == v@[end as int]);
            }
            lemma_first_index_unique(rest, ']', end - 1);
        }
        if end < v.len() && end + 1 < v.len() && v[end + 1] == ':' {
            let host = string_of(&v, 1, end);
            let port = string_of(&v, end + 2, v.len());
            proof {
                assert(rest[end as int] == v@[end + 1]);
                assert(rest.subrange(0, end - 1) =~= v@.subrange(1, end as int));
                assert(rest.skip(end + 1) =~= v@.subrange(end + 2, v@.len() as int));
            }
            if host.as_str().is_empty() || port.as_str().is_empty() {
                return None;
            }
            return Some((host, port));
        }
        proof {
            if end + 1 < v@.len() {
                assert(rest[end as int] == v@[end + 1]);
            }
        }
        return None;
    }
    match find_last_char(&v, ':') {
        None => None,
        Some(colon) => {
            let host = string_of(&v, 0, colon);
            let port = string_of(&v, colon + 1, v.len());
            assert(v@.skip(colon + 1) =~= v@.subrange(colon + 1, v@.len() as int));
            if host.as_str().is_empty() || port.as_str().is_empty() {
                return None;
            }
            Some((host, port))
        },
    }
}

/// `s` without brackets at either end.
fn trim_brackets(s: &str) -> (t: String)
    ensures
        t@ == unbracketed(s@),
{
    let v = chars_of(s);
    let mut from: usize = 0;
    let mut to: usize = v.len();
    assert(v@.subrange(0, to as int) =~= v@);
    while from < to && (v[from] == '[' || v[from] == ']')
        invariant
            from <= to == v@.len(),
            unbracketed(v@) == unbracketed(v@.subrange(from as int, to as int)),
        decreases to - from,
    {
        assert(v@.subrange(from as int, to as int).drop_first() =~= v@.subrange(
            from + 1,
            to as int,
        ));
        from = from + 1;
    }
    while from < to && (v[to - 1] == '[' || v[to - 1] == ']')
        invariant
            from <= to <= v@.len(),
            from < to ==> !is_bracket(v@[from as int]),
            unbracketed(v@) == unbracketed(v@.subrange(from as int, to as int)),
        decreases to - from,
    {
        assert(v@.subrange(from as int, to as int).drop_last() =~= v@.subrange(
            from as int,
            to - 1,
        ));
        to = to - 1;
    }
    string_of(&v, from, to)
}

pub fn validate_host_port(value: &str, scheme: &str) -> (r: Result<()>)
    ensures
        host_and_port(value@) is Some ==> r is Ok,
        host_and_port(value@) is None ==> (r matches Err(e) && e@ == no_host_port(scheme@)),
{
    if split_host_port(value).is_some() {
        Ok(())
    } else {
        let mut text = join3(scheme, " control endpoint must be ", scheme);
        text.append("://host:port or host:port");
        Err(QlinkError::Protocol(text))
    }
}

impl ControlEndpoint {
    pub fn parse(input: &str) -> (r: Result<ControlEndpoint>)
        ensures
            result_view(r) == parsed_endpoint(input@),
    {
        if let Some(address) = strip_prefix(input, "tcp://") {
            return match validate_host_port(address.as_str(), "tcp") {
                Ok(()) => Ok(ControlEndpoint::Tcp(address)),
                Err(e) => Err(e),
            };
        }
        if let Some(address) = strip_prefix(input, "tls://") {
            return match split_host_port(address.as_str()) {
                Some((host, _)) => {
                    let server_name = trim_brackets(host.as_str());
                    Ok(ControlEndpoint::Tls { address, server_name })
                },
                None => Err(protocol("tls control endpoint must be tls://host:port")),
            };
        }
        match validate_host_port(input, "tcp") {
            Ok(()) => Ok(ControlEndpoint::Tcp(input.to_owned())),
            Err(e) => Err(e),
        }
    }

    pub fn address(&self) -> (s: &str)
        ensures
            s@ == match self@ {
                ControlEndpointView::Tcp(address) => address,
                ControlEndpointView::Tls { address, server_name } => address,
            },
    {
        match self {
            ControlEndpoint::Tcp(address) => address.as_str(),
            ControlEndpoint::Tls { address, server_name: _ } => address.as_str(),
        }
    }

    pub fn is_tls(&self) -> (b: bool)
        ensures
            b == (self@ is Tls),
    {
        match self {
            ControlEndpoint::Tcp(_) => false,
            ControlEndpoint::Tls { address: _, server_name: _ } => true,
        }
    }
}

/// An endpoint is encrypted exactly where the text asks for it.
pub proof fn law_tls_is_asked_for(input: Seq<char>)
    ensures
        parsed_endpoint(input) matches Ok(endpoint) ==> ((endpoint is Tls) == has_prefix(
            input,
            "tls://"@,
        )),
{
    reveal_strlit("tcp://");
    reveal_strlit("tls://");
    if has_prefix(input, "tcp://"@) && has_prefix(input, "tls://"@) {
        assert(input.subrange(0, 6)[1] == 'c');
        assert(input.subrange(0, 6)[1] == 'l');
    }
}

/// Where a control server finds its certificate and key.
#[derive(Debug, Clone)]
pub struct ControlTlsServerConfig {
    pub cert_path: String,
    pub key_path: String,
}

impl ControlTlsServerConfig {
    pub fn new(cert_path: &str, key_path: &str) -> (c: ControlTlsServerConfig)
        ensures
            c.cert_path@ == cert_path@,
            c.key_path@ == key_path@,
    {
        ControlTlsServerConfig { cert_path: cert_path.to_owned(), key_path: key_path.to_owned() }
    }
}

} // verus!
