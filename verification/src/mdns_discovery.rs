//! Announcements of peers on the local network: their TXT records, the names of
//! service instances, and which announcements a browser lets through.

use crate::discovery::DevicePublicKey;
use crate::error::{QlinkError, QlinkErrorView, Result, result_view};
use crate::net::{IpAddr, SocketAddr};
use crate::text::{
    chars_of, decimal, hex_encode, hex_text, join2, law_decimal_round_trip, parse_number,
    parsed_number, push_decimal, same_text, string_of, unicode_alphanumeric,
};
use crate::text_map::TextMap;
use vstd::prelude::*;
use vstd::string::*;
use vstd::utf8::*;

verus! {

pub const QLINK_MDNS_SERVICE_TYPE: &'static str = "_qlink._udp.local.";

/// The domain of the digests that fingerprints are made of.
pub const FINGERPRINT_LABEL: &'static str = "QuantumLink mDNS public key fingerprint v1";

/// The fingerprint of a device key under a digest of eight bytes: the digest, in
/// the domain of fingerprints, of the name of the algorithm and of the key.
pub open spec fn is_fingerprint<F: Fn(&[u8], &[&[u8]]) -> [u8; 8]>(
    shake256_xof: F,
    algorithm: Seq<char>,
    bytes: Seq<u8>,
    fingerprint: Seq<char>,
) -> bool {
    exists|label: &[u8], parts: &[&[u8]], digest: [u8; 8]|
        {
            &&& label@ == encode_utf8(FINGERPRINT_LABEL@)
            &&& parts@.len() == 2
            &&& parts@[0]@ == encode_utf8(algorithm)
            &&& parts@[1]@ == bytes
            &&& #[trigger] call_ensures(shake256_xof, (label, parts), digest)
            &&& fingerprint == hex_text(digest@)
        }
}

/// The fingerprint of a key of some algorithm.
pub(crate) fn key_fingerprint<F: Fn(&[u8], &[&[u8]]) -> [u8; 8]>(
    algorithm: &str,
    bytes: &[u8],
    shake256_xof: F,
) -> (s: String)
    requires
        forall|label: &[u8], parts: &[&[u8]]| #[trigger]
            call_requires(shake256_xof, (label, parts)),
    ensures
        is_fingerprint(shake256_xof, algorithm@, bytes@, s@),
        s@.len() == 16,
{
    let mut parts: Vec<&[u8]> = Vec::new();
    parts.push(algorithm.as_bytes());
    parts.push(bytes);
    let digest = shake256_xof(FINGERPRINT_LABEL.as_bytes(), parts.as_slice());
    hex_encode(digest.as_slice())
}

/// The fingerprint of a device key that an announcement carries: sixteen
/// hexadecimal digits. The digest, eight bytes of SHAKE256 over a label and the
/// parts behind it, is the caller's.
pub fn compute_public_key_fingerprint<F: Fn(&[u8], &[&[u8]]) -> [u8; 8]>(
    public_key: &DevicePublicKey,
    shake256_xof: F,
) -> (s: String)
    requires
        forall|label: &[u8], parts: &[&[u8]]| #[trigger]
            call_requires(shake256_xof, (label, parts)),
    ensures
        is_fingerprint(shake256_xof, public_key.algorithm@, public_key.bytes@, s@),
        s@.len() == 16,
{
    key_fingerprint(public_key.algorithm.as_str(), public_key.bytes.as_slice(), shake256_xof)
}

/// What a peer announces of itself.
#[derive(Debug, Clone, PartialEq, Eq)]
pub struct MdnsPeerAnnouncement {
    pub peer_id: String,
    pub mesh_id: String,
    pub alias: String,
    pub sequence: u64,
    pub public_key_fingerprint: String,
}

/// An announcement and the addresses that it came with.
#[derive(Debug, Clone)]
pub struct MdnsPeerObservation {
    pub announcement: MdnsPeerAnnouncement,
    pub addresses: Vec<SocketAddr>,
}

/// The model of an announcement.
pub struct AnnouncementView {
    pub peer_id: Seq<char>,
    pub mesh_id: Seq<char>,
    pub alias: Seq<char>,
    pub sequence: nat,
    pub public_key_fingerprint: Seq<char>,
}

impl View for MdnsPeerAnnouncement {
    type V = AnnouncementView;

    open spec fn view(&self) -> AnnouncementView {
        AnnouncementView {
            peer_id: self.peer_id@,
            mesh_id: self.mesh_id@,
            alias: self.alias@,
            sequence: self.sequence as nat,
            public_key_fingerprint: self.public_key_fingerprint@,
        }
    }
}

/// The TXT record of an announcement: five keys and their texts.
pub open spec fn is_txt_of(map: Map<Seq<char>, String>, a: AnnouncementView) -> bool {
    &&& map.dom() == set!["pid"@, "mid"@, "alias"@, "seq"@, "fp"@]
    &&& map["pid"@]@ == a.peer_id
    &&& map["mid"@]@ == a.mesh_id
    &&& map["alias"@]@ == a.alias
    &&& map["seq"@]@ == decimal(a.sequence)
    &&& map["fp"@]@ == a.public_key_fingerprint
}

/// The refusal of a TXT record without a key.
pub open spec fn missing_field(key: Seq<char>) -> QlinkErrorView {
    QlinkErrorView::Protocol("mDNS announcement missing field "@ + key)
}

/// The announcement in a TXT record, or the first thing that is wrong with it.
/// Other keys are passed over.
pub open spec fn announced(map: Map<Seq<char>, String>) -> Result<
    AnnouncementView,
    QlinkErrorView,
> {
    if !map.dom().contains("pid"@) {
        Err(missing_field("pid"@))
    } else if !map.dom().contains("mid"@) {
        Err(missing_field("mid"@))
    } else if !map.dom().contains("alias"@) {
        Err(missing_field("alias"@))
    } else if !map.dom().contains("seq"@) {
        Err(missing_field("seq"@))
    } else {
        match parsed_number(map["seq"@]@) {
            Err(text) => Err(QlinkErrorView::Protocol("invalid mDNS seq: "@ + text)),
            Ok(sequence) => if !map.dom().contains("fp"@) {
                Err(missing_field("fp"@))
            } else {
                Ok(
                    AnnouncementView {
                        peer_id: map["pid"@]@,
                        mesh_id: map["mid"@]@,
                        alias: map["alias"@]@,
                        sequence,
                        public_key_fingerprint: map["fp"@]@,
                    },
                )
            },
        }
    }
}

proof fn lemma_txt_keys_differ()
    ensures
        "pid"@ != "mid"@,
        "pid"@ != "alias"@,
        "pid"@ != "seq"@,
        "pid"@ != "fp"@,
        "mid"@ != "alias"@,
        "mid"@ != "seq"@,
        "mid"@ != "fp"@,
        "alias"@ != "seq"@,
        "alias"@ != "fp"@,
        "seq"@ != "fp"@,
{
    reveal_strlit("pid");
    reveal_strlit("mid");
    reveal_strlit("alias");
    reveal_strlit("seq");
    reveal_strlit("fp");
    assert("pid"@[0] == 'p');
    assert("mid"@[0] == 'm');
    assert("alias"@[0] == 'a');
    assert("seq"@[0] == 's');
    assert("fp"@[0] == 'f');
}

/// An announcement comes back from its TXT record as it went in.
pub proof fn law_announcement_round_trip(map: Map<Seq<char>, String>, a: AnnouncementView)
    requires
        is_txt_of(map, a),
        a.sequence <= u64::MAX,
    ensures
        announced(map) == Ok::<AnnouncementView, QlinkErrorView>(a),
{
    law_decimal_round_trip(a.sequence);
}

/// The value of a key that must be there.
pub fn txt_required<'a>(map: &'a TextMap<String>, key: &str) -> (r: Result<&'a str>)
    requires
        map.wf(),
    ensures
        map@.dom().contains(key@) ==> (r matches Ok(s) && s@ == map@[key@]@),
        !map@.dom().contains(key@) ==> (r matches Err(e) && e@ == missing_field(key@)),
{
    match map.get(key) {
        Some(value) => Ok(value.as_str()),
        None => Err(QlinkError::Protocol(join2("mDNS announcement missing field ", key))),
    }
}

impl MdnsPeerAnnouncement {
    /// The announcement as a TXT record.
    pub fn to_txt_properties(&self) -> (map: TextMap<String>)
        ensures
            map.wf(),
            is_txt_of(map@, self@),
    {
        let mut map: TextMap<String> = TextMap::new();
        let mut sequence = String::new();
        push_decimal(&mut sequence, self.sequence);
        assert(sequence@ =~= decimal(self.sequence as nat));
        map.insert("pid".to_owned(), self.peer_id.clone());
        map.insert("mid".to_owned(), self.mesh_id.clone());
        map.insert("alias".to_owned(), self.alias.clone());
        map.insert("seq".to_owned(), sequence);
        map.insert("fp".to_owned(), self.public_key_fingerprint.clone());
        proof {
            lemma_txt_keys_differ();
            assert(map@.dom() =~= set!["pid"@, "mid"@, "alias"@, "seq"@, "fp"@]);
        }
        map
    }

    /// Reads an announcement back from a TXT record.
    pub fn from_txt_properties(map: &TextMap<String>) -> (r: Result<MdnsPeerAnnouncement>)
        requires
            map.wf(),
        ensures
            result_view(r) == announced(map@),
    {
        let peer_id = match txt_required(map, "pid") {
            Ok(text) => text.to_owned(),
            Err(e) => {
                return Err(e);
            },
        };
        let mesh_id = match txt_required(map, "mid") {
            Ok(text) => text.to_owned(),
            Err(e) => {
                return Err(e);
            },
        };
        let alias = match txt_required(map, "alias") {
            Ok(text) => text.to_owned(),
            Err(e) => {
                return Err(e);
            },
        };
        let sequence: u64 = match txt_required(map, "seq") {
            Ok(text) => match parse_number(text) {
                Ok(n) => n,
                Err(err) => {
                    return Err(QlinkError::Protocol(join2("invalid mDNS seq: ", err.as_str())));
                },
            },
            Err(e) => {
                return Err(e);
            },
        };
        let public_key_fingerprint = match txt_required(map, "fp") {
            Ok(text) => text.to_owned(),
            Err(e) => {
                return Err(e);
            },
        };
        Ok(MdnsPeerAnnouncement { peer_id, mesh_id, alias, sequence, public_key_fingerprint })
    }
}

/// The addresses of a service: each of the host's with the service's port.
pub open spec fn service_addresses(ips: Seq<IpAddr>, port: u16) -> Seq<SocketAddr> {
    Seq::new(ips.len(), |i: int| SocketAddr { ip: ips[i], port })
}

/// What a browser makes of a resolved service: an observation, where its TXT
/// record is in order and it belongs to the mesh that is browsed for.
pub fn observe_service(
    properties: &TextMap<String>,
    ips: &Vec<IpAddr>,
    port: u16,
    mesh_id_filter: &str,
) -> (r: Option<MdnsPeerObservation>)
    requires
        properties.wf(),
    ensures
        match announced(properties@) {
            Ok(a) => if a.mesh_id == mesh_id_filter@ {
                r matches Some(o) && o.announcement@ == a && o.addresses@ == service_addresses(
                    ips@,
                    port,
                )
            } else {
                r is None
            },
            Err(_) => r is None,
        },
{
    let announcement = match MdnsPeerAnnouncement::from_txt_properties(properties) {
        Ok(announcement) => announcement,
        Err(_) => {
            return None;
        },
    };
    if !same_text(announcement.mesh_id.as_str(), mesh_id_filter) {
        return None;
    }
    let mut addresses: Vec<SocketAddr> = Vec::new();
    let mut i: usize = 0;
    while i < ips.len()
        invariant
            i <= ips@.len(),
            addresses@.len() == i,
            forall|j: int| 0 <= j < i ==> addresses@[j] == service_addresses(ips@, port)[j],
        decreases ips@.len() - i,
    {
        addresses.push(SocketAddr { ip: ips[i], port });
        i = i + 1;
    }
    assert(addresses@ =~= service_addresses(ips@, port));
    Some(MdnsPeerObservation { announcement, addresses })
}

/// A character that a service instance may be named with.
pub open spec fn is_name_char(c: char) -> bool {
    unicode_alphanumeric(c) || c == '-'
}

/// A name with every other character turned into a hyphen.
pub open spec fn hyphenated(raw: Seq<char>) -> Seq<char> {
    Seq::new(
        raw.len(),
        |i: int|
            if is_name_char(raw[i]) {
                raw[i]
            } else {
                '-'
            },
    )
}

/// The instance name of an alias: hyphenated and cut to 63 characters; a name
/// without a single usable character is replaced.
pub open spec fn instance_name(raw: Seq<char>) -> Seq<char> {
    if forall|i: int| 0 <= i < raw.len() ==> !is_name_char(#[trigger] raw[i]) {
        "qlink-peer"@
    } else if raw.len() <= 63 {
        hyphenated(raw)
    } else {
        hyphenated(raw).subrange(0, 63)
    }
}

/// Turns an alias into the name of a service instance.
pub fn sanitize_instance_name(raw: &str) -> (s: String)
    ensures
        s@ == instance_name(raw@),
{
    let v = chars_of(raw);
    let mut cleaned: Vec<char> = Vec::new();
    let mut usable = false;
    let mut i: usize = 0;
    while i < v.len()
        invariant
            i <= v@.len(),
            cleaned@.len() == i,
            forall|j: int| 0 <= j < i ==> cleaned@[j] == hyphenated(v@)[j],
            usable == exists|j: int| 0 <= j < i && is_name_char(#[trigger] v@[j]),
        decreases v@.len() - i,
    {
        let c: char = v[i];
        if c.is_alphanumeric() || c == '-' {
            assert(is_name_char(v@[i as int]));
            usable = true;
            cleaned.push(c);
        } else {
            cleaned.push('-');
        }
        i = i + 1;
    }
    assert(cleaned@ =~= hyphenated(v@));
    if !usable {
        return "qlink-peer".to_owned();
    }
    if cleaned.len() <= 63 {
        assert(cleaned@.subrange(0, cleaned@.len() as int) =~= cleaned@);
        string_of(&cleaned, 0, cleaned.len())
    } else {
        string_of(&cleaned, 0, 63)
    }
}

/// The names under which an alias is announced: the instance and its host.
pub fn service_names(alias: &str) -> (r: (String, String))
    ensures
        r.0@ == instance_name(alias@),
        r.1@ == instance_name(alias@) + ".local."@,
{
    let instance = sanitize_instance_name(alias);
    let hostname = join2(instance.as_str(), ".local.");
    (instance, hostname)
}

/// An instance name is never empty, never longer than 63 characters, and holds
/// nothing but usable characters.
pub proof fn law_instance_names_are_safe(raw: Seq<char>)
    ensures
        0 < instance_name(raw).len() <= 63,
        instance_name(raw) != "qlink-peer"@ ==> forall|i: int|
            0 <= i < instance_name(raw).len() ==> is_name_char(#[trigger] instance_name(raw)[i]),
{
    reveal_strlit("qlink-peer");
}

} // verus!
