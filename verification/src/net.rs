//! Internet addresses as plain numbers.

use crate::bytes::{be_bytes, be_value, lemma_be_bytes_len, lemma_byte_ranges, push_be, read_be};
use crate::key_map::MapKey;
use crate::text::{decimal, hex_number, push_decimal, push_hex_number};
use vstd::prelude::*;
use vstd::string::*;

verus! {

/// An internet address: the octets read as one big-endian number.
#[derive(Debug, Clone, Copy, PartialEq, Eq, Structural)]
pub enum IpAddr {
    V4(u32),
    V6(u128),
}

/// An internet address with a port.
#[derive(Debug, Clone, Copy, PartialEq, Eq, Structural)]
pub struct SocketAddr {
    pub ip: IpAddr,
    pub port: u16,
}

impl MapKey for IpAddr {
    fn same(&self, other: &IpAddr) -> (b: bool) {
        *self == *other
    }
}

// ---------------------------------------------------------------------------
// Addresses as text
// ---------------------------------------------------------------------------

/// An IPv4 address in dotted decimal.
pub open spec fn ipv4_text(ip: u32) -> Seq<char> {
    decimal((ip / 0x100_0000) as nat) + "."@ + decimal(((ip / 0x1_0000) % 256) as nat) + "."@
        + decimal(((ip / 0x100) % 256) as nat) + "."@ + decimal((ip % 256) as nat)
}

fn push_ipv4(s: &mut String, ip: u32)
    ensures
        final(s)@ == old(s)@ + ipv4_text(ip),
{
    push_decimal(s, (ip / 0x100_0000) as u64);
    s.append(".");
    push_decimal(s, ((ip / 0x1_0000) % 256) as u64);
    s.append(".");
    push_decimal(s, ((ip / 0x100) % 256) as u64);
    s.append(".");
    push_decimal(s, (ip % 256) as u64);
    assert(s@ =~= old(s)@ + ipv4_text(ip));
}

/// The eight 16-bit groups of an IPv6 address.
pub open spec fn segments(ip: u128) -> Seq<nat> {
    Seq::new(8, |i: int| be_value(be_bytes(ip as nat, 16).subrange(2 * i, 2 * i + 2)))
}

/// Groups in hexadecimal, with colons between them.
pub open spec fn colon_joined(groups: Seq<nat>) -> Seq<char>
    decreases groups.len(),
{
    if groups.len() == 0 {
        Seq::empty()
    } else if groups.len() == 1 {
        hex_number(groups[0])
    } else {
        colon_joined(groups.drop_last()) + ":"@ + hex_number(groups.last())
    }
}

/// How many groups in a row are zero from `i` on.
pub open spec fn zero_run(groups: Seq<nat>, i: int) -> nat
    decreases groups.len() - i,
{
    if 0 <= i < groups.len() && groups[i] == 0 {
        1 + zero_run(groups, i + 1)
    } else {
        0
    }
}

/// Where the longest run of zero groups that starts before `n` starts, the first
/// of them if there are several, and its length.
pub open spec fn longest_run(groups: Seq<nat>, n: nat) -> (nat, nat)
    decreases n,
{
    if n == 0 {
        (0, 0)
    } else {
        let before = longest_run(groups, (n - 1) as nat);
        if zero_run(groups, n - 1) > before.1 {
            ((n - 1) as nat, zero_run(groups, n - 1))
        } else {
            before
        }
    }
}

/// The groups start as those of an IPv4 address in IPv6 form do.
pub open spec fn is_mapped(groups: Seq<nat>) -> bool {
    groups[0] == 0 && groups[1] == 0 && groups[2] == 0 && groups[3] == 0 && groups[4] == 0
        && groups[5] == 0xffff
}

/// An IPv6 address in its canonical form: the longest run of at least two zero
/// groups is left out, and an IPv4 address in IPv6 form ends in dotted decimal.
pub open spec fn ipv6_text(ip: u128) -> Seq<char> {
    let groups = segments(ip);
    let run = longest_run(groups, 8);
    if is_mapped(groups) {
        "::ffff:"@ + ipv4_text((groups[6] * 0x1_0000 + groups[7]) as u32)
    } else if run.1 > 1 {
        colon_joined(groups.subrange(0, run.0 as int)) + "::"@ + colon_joined(
            groups.subrange((run.0 + run.1) as int, 8),
        )
    } else {
        colon_joined(groups)
    }
}

/// An address as text.
pub open spec fn ip_text(ip: IpAddr) -> Seq<char> {
    match ip {
        IpAddr::V4(a) => ipv4_text(a),
        IpAddr::V6(a) => ipv6_text(a),
    }
}

/// The groups as numbers.
spec fn group_values(groups: Seq<u64>) -> Seq<nat> {
    Seq::new(groups.len(), |i: int| groups[i] as nat)
}

fn push_joined(s: &mut String, groups: &Vec<u64>, from: usize, to: usize)
    requires
        from <= to <= groups@.len(),
    ensures
        final(s)@ == old(s)@ + colon_joined(
            group_values(groups@).subrange(from as int, to as int),
        ),
{
    let ghost all = group_values(groups@);
    let ghost start = s@;
    let mut i: usize = from;
    assert(s@ =~= start + colon_joined(all.subrange(from as int, from as int)));
    while i < to
        invariant
            from <= i <= to <= groups@.len(),
            all == group_values(groups@),
            s@ == start + colon_joined(all.subrange(from as int, i as int)),
        decreases to - i,
    {
        let ghost before = all.subrange(from as int, i as int);
        let ghost after = all.subrange(from as int, i + 1);
        assert(after.drop_last() =~= before);
        assert(after.last() == groups@[i as int]);
        if i > from {
            s.append(":");
        }
        push_hex_number(s, groups[i]);
        assert(s@ =~= start + colon_joined(after));
        i = i + 1;
    }
}

fn run_of_zeros(groups: &Vec<u64>, i: usize) -> (n: usize)
    requires
        i <= groups@.len(),
    ensures
        n == zero_run(group_values(groups@), i as int),
        i + n <= groups@.len(),
    decreases groups@.len() - i,
{
    if i < groups.len() && groups[i] == 0 {
        1 + run_of_zeros(groups, i + 1)
    } else {
        0
    }
}

proof fn lemma_longest_run_fits(groups: Seq<nat>, n: nat)
    requires
        n <= groups.len(),
    ensures
        longest_run(groups, n).0 + longest_run(groups, n).1 <= groups.len(),
    decreases n,
{
    if n > 0 {
        lemma_longest_run_fits(groups, (n - 1) as nat);
        lemma_zero_run_fits(groups, n - 1);
    }
}

proof fn lemma_zero_run_fits(groups: Seq<nat>, i: int)
    requires
        0 <= i <= groups.len(),
    ensures
        i + zero_run(groups, i) <= groups.len(),
    decreases groups.len() - i,
{
    if i < groups.len() && groups[i] == 0 {
        lemma_zero_run_fits(groups, i + 1);
    }
}

fn push_ipv6(s: &mut String, ip: u128)
    ensures
        final(s)@ == old(s)@ + ipv6_text(ip),
{
    let mut octets: Vec<u8> = Vec::new();
    push_be(&mut octets, ip, 16);
    proof {
        lemma_be_bytes_len(ip as nat, 16);
        lemma_byte_ranges();
        assert(octets@ =~= be_bytes(ip as nat, 16));
    }
    let mut groups: Vec<u64> = Vec::new();
    let mut i: usize = 0;
    while i < 8
        invariant
            i <= 8,
            octets@.len() == 16,
            octets@ == be_bytes(ip as nat, 16),
            groups@.len() == i,
            forall|j: int|
                0 <= j < i ==> (#[trigger] groups@[j]) as nat == segments(ip)[j] && groups@[j]
                    < 0x1_0000,
        decreases 8 - i,
    {
        proof {
            lemma_byte_ranges();
        }
        groups.push(read_be(octets.as_slice(), 2 * i, 2) as u64);
        i = i + 1;
    }
    let ghost all = segments(ip);
    assert(group_values(groups@) =~= all);
    if groups[0] == 0 && groups[1] == 0 && groups[2] == 0 && groups[3] == 0 && groups[4] == 0
        && groups[5] == 0xffff {
        s.append("::ffff:");
        push_ipv4(s, (groups[6] * 0x1_0000 + groups[7]) as u32);
        assert(s@ =~= old(s)@ + ipv6_text(ip));
        return;
    }
    let mut start: usize = 0;
    let mut len: usize = 0;
    let mut n: usize = 0;
    while n < 8
        invariant
            n <= 8,
            groups@.len() == 8,
            group_values(groups@) == all,
            (start as nat, len as nat) == longest_run(all, n as nat),
        decreases 8 - n,
    {
        let run: usize = run_of_zeros(&groups, n);
        if run > len {
            start = n;
            len = run;
        }
        n = n + 1;
    }
    proof {
        lemma_longest_run_fits(all, 8);
    }
    if len > 1 {
        push_joined(s, &groups, 0, start);
        s.append("::");
        push_joined(s, &groups, start + len, 8);
    } else {
        push_joined(s, &groups, 0, 8);
        assert(all.subrange(0, 8) =~= all);
    }
    assert(s@ =~= old(s)@ + ipv6_text(ip));
}

impl IpAddr {
    /// The address as text.
    pub fn to_string(&self) -> (s: String)
        ensures
            s@ == ip_text(*self),
    {
        let mut s = String::new();
        match self {
            IpAddr::V4(ip) => push_ipv4(&mut s, *ip),
            IpAddr::V6(ip) => push_ipv6(&mut s, *ip),
        }
        assert(s@ =~= ip_text(*self));
        s
    }
}

/// A socket address as text: an IPv6 address stands in brackets.
pub open spec fn socket_text(addr: SocketAddr) -> Seq<char> {
    match addr.ip {
        IpAddr::V4(a) => ipv4_text(a) + ":"@ + decimal(addr.port as nat),
        IpAddr::V6(a) => "["@ + ipv6_text(a) + "]:"@ + decimal(addr.port as nat),
    }
}

impl SocketAddr {
    /// The address as text.
    pub fn to_string(&self) -> (s: String)
        ensures
            s@ == socket_text(*self),
    {
        let mut s = "".to_owned();
        match self.ip {
            IpAddr::V4(ip) => {
                push_ipv4(&mut s, ip);
                s.append(":");
            },
            IpAddr::V6(ip) => {
                s.append("[");
                push_ipv6(&mut s, ip);
                s.append("]:");
            },
        }
        push_decimal(&mut s, self.port as u64);
        proof {
            reveal_strlit("");
            assert(s@ =~= socket_text(*self));
        }
        s
    }
}

} // verus!
