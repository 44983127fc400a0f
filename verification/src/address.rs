//! Server addresses and their validation.
//!
//! A host string must be an IPv4 literal, an IPv6 literal, or a valid
//! hostname before it may reach the protocol client; a string that is none
//! of the three is rejected up front, before any network attempt.

use vstd::prelude::*;
use vstd::string::*;

use crate::error::ProtocolError;
use crate::numfmt::all_dec_digits;
use crate::numfmt::dec_str;
use crate::numfmt::dec_val;
use crate::numfmt::digit_val;
use crate::numfmt::is_dec_digit;
use crate::numfmt::u64_to_dec;
use crate::textsplit::split_on;
use crate::textsplit::split_str;

verus! {

pub open spec fn is_hex_digit(c: char) -> bool {
    is_dec_digit(c) || ('a' <= c && c <= 'f') || ('A' <= c && c <= 'F')
}

/// One group of an IPv4 literal: one to three digits, no leading zero,
/// value at most 255.
pub open spec fn ipv4_group_ok(g: Seq<char>) -> bool {
    &&& 1 <= g.len() <= 3
    &&& all_dec_digits(g)
    &&& (g.len() > 1 ==> g[0] != '0')
    &&& dec_val(g) <= 255
}

/// An IPv4 literal: four dot-separated groups.
pub open spec fn is_ipv4_text(s: Seq<char>) -> bool {
    let parts = split_on(s, '.');
    parts.len() == 4 && (forall|i: int| 0 <= i < 4 ==> ipv4_group_ok(#[trigger] parts[i]))
}

/// One group of an IPv6 literal: one to four hexadecimal digits.
pub open spec fn h16_ok(g: Seq<char>) -> bool {
    1 <= g.len() <= 4 && (forall|i: int| 0 <= i < g.len() ==> is_hex_digit(#[trigger] g[i]))
}

pub open spec fn all_h16(parts: Seq<Seq<char>>) -> bool {
    forall|i: int| 0 <= i < parts.len() ==> h16_ok(#[trigger] parts[i])
}

/// The position of the first `::` in `s`, if any.
pub open spec fn find_dc(s: Seq<char>) -> Option<int>
    decreases s.len(),
{
    if s.len() < 2 {
        None
    } else if s[0] == ':' && s[1] == ':' {
        Some(0)
    } else {
        match find_dc(s.drop_first()) {
            Some(j) => Some(j + 1),
            None => None,
        }
    }
}

/// An uncompressed IPv6 literal: eight groups, or six groups and a
/// trailing embedded IPv4 literal.
pub open spec fn ipv6_no_dc(parts: Seq<Seq<char>>) -> bool {
    ||| (parts.len() == 8 && all_h16(parts))
    ||| (parts.len() == 7 && all_h16(parts.subrange(0, 6)) && is_ipv4_text(parts[6]))
}

/// The groups to the left of a `::`, in order; none when that side is
/// empty.
pub open spec fn side_groups(side: Seq<char>) -> Seq<Seq<char>> {
    if side.len() == 0 {
        Seq::empty()
    } else {
        split_on(side, ':')
    }
}

/// The groups to the right of a `::` are sound: all hexadecimal, except
/// that the last may be an embedded IPv4 literal.
pub open spec fn right_ok(parts: Seq<Seq<char>>) -> bool {
    parts.len() == 0 || (all_h16(parts.subrange(0, parts.len() - 1)) && (h16_ok(parts.last())
        || is_ipv4_text(parts.last())))
}

/// How many 16-bit groups the right side stands for: an embedded IPv4
/// literal counts for two.
pub open spec fn right_weight(parts: Seq<Seq<char>>) -> int {
    if parts.len() == 0 {
        0
    } else if is_ipv4_text(parts.last()) {
        parts.len() + 1int
    } else {
        parts.len() as int
    }
}

/// An IPv6 literal: either eight uncompressed groups, or one `::` with
/// sound groups on both sides standing for at most seven groups in all.
pub open spec fn is_ipv6_text(s: Seq<char>) -> bool {
    match find_dc(s) {
        None => ipv6_no_dc(split_on(s, ':')),
        Some(i) => {
            let l = s.subrange(0, i);
            let r = s.subrange(i + 2, s.len() as int);
            let lp = side_groups(l);
            let rp = side_groups(r);
            &&& find_dc(r) is None
            &&& all_h16(lp)
            &&& right_ok(rp)
            &&& lp.len() + right_weight(rp) <= 7
        },
    }
}

/// A character a hostname may contain.
pub open spec fn hostname_char_ok(c: char) -> bool {
    ('a' <= c && c <= 'z') || ('A' <= c && c <= 'Z') || is_dec_digit(c) || c == '-' || c == '.'
}

/// One dot-separated label of a hostname: nonempty, at most 63 characters,
/// and neither starting nor ending with a hyphen.
pub open spec fn hostname_label_ok(l: Seq<char>) -> bool {
    1 <= l.len() <= 63 && l[0] != '-' && l.last() != '-'
}

/// A valid hostname: nonempty, at most 253 characters, alphanumeric plus
/// hyphen and dot, every label sound.
pub open spec fn is_hostname_text(s: Seq<char>) -> bool {
    &&& 1 <= s.len() <= 253
    &&& (forall|i: int| 0 <= i < s.len() ==> hostname_char_ok(#[trigger] s[i]))
    &&& (forall|i: int|
        0 <= i < split_on(s, '.').len() ==> hostname_label_ok(#[trigger] split_on(s, '.')[i]))
}

/// A host string the poller accepts: an IP literal of either family, or a
/// hostname.
pub open spec fn host_ok(s: Seq<char>) -> bool {
    is_ipv4_text(s) || is_ipv6_text(s) || is_hostname_text(s)
}

/// Relies on hostname_validator::is_valid, which accepts exactly the
/// strings of [`is_hostname_text`]: RFC 1123 hostnames, checked character
/// by character and label by label.
#[verifier::external_body]
fn hostname_is_valid(host: &str) -> (r: bool)
    ensures
        r == is_hostname_text(host@),
{
    hostname_validator::is_valid(host)
}

fn ipv4_group_check(g: &str) -> (r: bool)
    ensures
        r == ipv4_group_ok(g@),
{
    let n = g.unicode_len();
    if n == 0 || n > 3 {
        return false;
    }
    if n > 1 && g.get_char(0) == '0' {
        return false;
    }
    let mut acc: u64 = 0;
    let mut i: usize = 0;
    while i < n
        invariant
            i <= n,
            n == g@.len(),
            1 <= n <= 3,
            forall|j: int| 0 <= j < i ==> is_dec_digit(#[trigger] g@[j]),
            acc as nat == dec_val(g@.subrange(0, i as int)),
            acc <= 999,
        decreases n - i,
    {
        let c = g.get_char(i);
        if !('0' <= c && c <= '9') {
            proof {
                assert(!is_dec_digit(g@[i as int]));
                assert(!all_dec_digits(g@));
            }
            return false;
        }
        let d: u64 = (c as u32 as u64) - ('0' as u32 as u64);
        let ghost pre = g@.subrange(0, i as int);
        let ghost ext = g@.subrange(0, i as int + 1);
        proof {
            assert(ext.drop_last() =~= pre);
            assert(dec_val(ext) == dec_val(pre) * 10 + digit_val(g@[i as int]));
            assert(i <= 2);
            if i == 0 {
                assert(pre =~= Seq::<char>::empty());
                assert(dec_val(pre) == 0);
            } else if i == 1 {
                assert(pre.drop_last() =~= Seq::<char>::empty());
                assert(dec_val(pre.drop_last()) == 0);
                assert(pre.last() == g@[0] && is_dec_digit(g@[0]));
                assert(digit_val(pre.last()) <= 9);
                assert(dec_val(pre) == dec_val(pre.drop_last()) * 10 + digit_val(pre.last()));
                assert(dec_val(pre) <= 9);
            } else {
                let p0 = pre.drop_last();
                assert(p0.drop_last() =~= Seq::<char>::empty());
                assert(dec_val(p0.drop_last()) == 0);
                assert(p0.last() == g@[0] && is_dec_digit(g@[0]));
                assert(digit_val(p0.last()) <= 9);
                assert(dec_val(p0) == dec_val(p0.drop_last()) * 10 + digit_val(p0.last()));
                assert(dec_val(p0) <= 9);
                assert(pre.last() == g@[1] && is_dec_digit(g@[1]));
                assert(digit_val(pre.last()) <= 9);
                assert(dec_val(pre) == dec_val(p0) * 10 + digit_val(pre.last()));
                assert(dec_val(pre) <= 99);
            }
        }
        acc = acc * 10 + d;
        i += 1;
    }
    proof {
        assert(g@.subrange(0, n as int) =~= g@);
        assert(all_dec_digits(g@));
    }
    acc <= 255
}

fn hex_group_check(g: &str) -> (r: bool)
    ensures
        r == h16_ok(g@),
{
    let n = g.unicode_len();
    if n == 0 || n > 4 {
        return false;
    }
    let mut i: usize = 0;
    while i < n
        invariant
            i <= n,
            n == g@.len(),
            forall|j: int| 0 <= j < i ==> is_hex_digit(#[trigger] g@[j]),
        decreases n - i,
    {
        let c = g.get_char(i);
        if !(('0' <= c && c <= '9') || ('a' <= c && c <= 'f') || ('A' <= c && c <= 'F')) {
            proof {
                assert(!is_hex_digit(g@[i as int]));
            }
            return false;
        }
        i += 1;
    }
    true
}

/// Is `s` an IPv4 literal such as a dotted quad?
pub fn is_ipv4_literal(s: &str) -> (r: bool)
    ensures
        r == is_ipv4_text(s@),
{
    let parts = split_str(s, '.');
    if parts.len() != 4 {
        return false;
    }
    let mut i: usize = 0;
    while i < 4
        invariant
            i <= 4,
            parts.deep_view() == split_on(s@, '.'),
            parts@.len() == 4,
            forall|j: int| 0 <= j < i ==> ipv4_group_ok(#[trigger] parts.deep_view()[j]),
        decreases 4 - i,
    {
        if !ipv4_group_check(parts[i].as_str()) {
            proof {
                assert(parts.deep_view()[i as int] == parts@[i as int]@);
                assert(!ipv4_group_ok(split_on(s@, '.')[i as int]));
            }
            return false;
        }
        proof {
            assert(parts.deep_view()[i as int] == parts@[i as int]@);
        }
        i += 1;
    }
    true
}

fn find_dc_pos(s: &str) -> (r: Option<usize>)
    ensures
        match r {
            Some(i) => find_dc(s@) == Some(i as int),
            None => find_dc(s@) is None,
        },
{
    let n = s.unicode_len();
    if n < 2 {
        proof {
            lemma_find_dc_none(s@);
        }
        return None;
    }
    let mut i: usize = 0;
    while i + 1 < n
        invariant
            i + 1 <= n,
            n == s@.len(),
            n >= 2,
            forall|j: int| 0 <= j < i ==> !(#[trigger] s@[j] == ':' && s@[j + 1] == ':'),
        decreases n - i,
    {
        if s.get_char(i) == ':' && s.get_char(i + 1) == ':' {
            proof {
                lemma_find_dc_at(s@, i as int);
            }
            return Some(i);
        }
        i += 1;
    }
    proof {
        lemma_find_dc_none(s@);
    }
    None
}

proof fn lemma_find_dc_at(s: Seq<char>, i: int)
    requires
        0 <= i,
        i + 1 < s.len(),
        s[i] == ':',
        s[i + 1] == ':',
        forall|j: int| 0 <= j < i ==> !(#[trigger] s[j] == ':' && s[j + 1] == ':'),
    ensures
        find_dc(s) == Some(i),
    decreases i,
{
    if i > 0 {
        let t = s.drop_first();
        assert(forall|j: int| 0 <= j < i - 1 ==> !(#[trigger] t[j] == ':' && t[j + 1] == ':'));
        lemma_find_dc_at(t, i - 1);
    }
}

proof fn lemma_find_dc_none(s: Seq<char>)
    requires
        forall|j: int| 0 <= j < s.len() - 1 ==> !(#[trigger] s[j] == ':' && s[j + 1] == ':'),
    ensures
        find_dc(s) is None,
    decreases s.len(),
{
    if s.len() >= 2 {
        let t = s.drop_first();
        assert(forall|j: int| 0 <= j < t.len() - 1 ==> !(#[trigger] t[j] == ':' && t[j + 1] == ':'));
        lemma_find_dc_none(t);
    }
}

proof fn lemma_find_dc_bounds(s: Seq<char>)
    ensures
        match find_dc(s) {
            Some(i) => 0 <= i && i + 1 < s.len() && s[i] == ':' && s[i + 1] == ':',
            None => true,
        },
    decreases s.len(),
{
    if s.len() < 2 {
    } else if s[0] == ':' && s[1] == ':' {
    } else {
        lemma_find_dc_bounds(s.drop_first());
    }
}

/// Check every group of an already split side of an IPv6 literal.
fn groups_all_h16(parts: &Vec<String>, upto: usize) -> (r: bool)
    requires
        upto <= parts@.len(),
    ensures
        r == all_h16(parts.deep_view().subrange(0, upto as int)),
{
    let mut i: usize = 0;
    while i < upto
        invariant
            i <= upto,
            upto <= parts@.len(),
            forall|j: int| 0 <= j < i ==> h16_ok(#[trigger] parts.deep_view()[j]),
        decreases upto - i,
    {
        if !hex_group_check(parts[i].as_str()) {
            proof {
                assert(!h16_ok(parts.deep_view().subrange(0, upto as int)[i as int]));
            }
            return false;
        }
        i += 1;
    }
    proof {
        assert forall|j: int| 0 <= j < upto implies h16_ok(
            #[trigger] parts.deep_view().subrange(0, upto as int)[j],
        ) by {
            assert(parts.deep_view().subrange(0, upto as int)[j] == parts.deep_view()[j]);
        }
    }
    true
}

/// Is `s` an IPv6 literal, with or without a `::` compression?
pub fn is_ipv6_literal(s: &str) -> (r: bool)
    ensures
        r == is_ipv6_text(s@),
{
    let n = s.unicode_len();
    match find_dc_pos(s) {
        None => {
            let parts = split_str(s, ':');
            if parts.len() == 8 {
                proof {
                    assert(parts.deep_view().subrange(0, 8) =~= parts.deep_view());
                }
                groups_all_h16(&parts, 8)
            } else if parts.len() == 7 {
                let head_ok = groups_all_h16(&parts, 6);
                let tail_ok = is_ipv4_literal(parts[6].as_str());
                proof {
                    assert(split_on(s@, ':').subrange(0, 6) =~= parts.deep_view().subrange(0, 6));
                    assert(parts.deep_view()[6] == parts@[6]@);
                }
                head_ok && tail_ok
            } else {
                false
            }
        },
        Some(i) => {
            proof {
                lemma_find_dc_bounds(s@);
            }
            let l = s.substring_char(0, i);
            let r = s.substring_char(i + 2, n);
            if find_dc_pos(r).is_some() {
                return false;
            }
            let mut total: usize = 0;
            if l.unicode_len() > 0 {
                let lp = split_str(l, ':');
                proof {
                    assert(lp.deep_view().subrange(0, lp.deep_view().len() as int)
                        =~= lp.deep_view());
                    assert(lp.deep_view() == side_groups(l@));
                }
                if !groups_all_h16(&lp, lp.len()) {
                    return false;
                }
                if lp.len() > 7 {
                    return false;
                }
                total = lp.len();
            }
            if r.unicode_len() > 0 {
                let rp = split_str(r, ':');
                proof {
                    crate::textsplit::lemma_split_len(r@, ':');
                    assert(rp.deep_view() == side_groups(r@));
                }
                let last = rp.len() - 1;
                if !groups_all_h16(&rp, last) {
                    return false;
                }
                if rp.len() > 7 {
                    return false;
                }
                let last_str = rp[last].as_str();
                let last_hex = hex_group_check(last_str);
                let last_v4 = is_ipv4_literal(last_str);
                proof {
                    assert(rp.deep_view()[last as int] == rp@[last as int]@);
                    assert(rp.deep_view().last() == rp.deep_view()[last as int]);
                    assert(rp.deep_view().subrange(0, rp.deep_view().len() - 1) =~= rp.deep_view()
                        .subrange(0, last as int));
                }
                if !(last_hex || last_v4) {
                    return false;
                }
                let weight: usize = if last_v4 {
                    rp.len() + 1
                } else {
                    rp.len()
                };
                total = total + weight;
            }
            total <= 7
        },
    }
}

/// Is `host` acceptable: an IP literal of either family, or a hostname?
pub fn is_valid_ip(host: &str) -> (r: bool)
    ensures
        r == host_ok(host@),
{
    if is_ipv4_literal(host) {
        return true;
    }
    if is_ipv6_literal(host) {
        return true;
    }
    hostname_is_valid(host)
}

/// A validated server address: a host and a port.
#[derive(Clone, Debug)]
pub struct ServerAddress {
    pub host: String,
    pub port: u16,
}

impl ServerAddress {
    /// A well-formed address holds an acceptable host string.
    pub open spec fn wf(&self) -> bool {
        host_ok(self.host@)
    }

    /// Build an address, rejecting a host that is neither an IP literal
    /// nor a hostname before it can reach the network.
    pub fn new(host: String, port: u16) -> (r: Result<ServerAddress, ProtocolError>)
        ensures
            match r {
                Ok(a) => host_ok(host@) && a.wf() && a.host@ == host@ && a.port == port,
                Err(e) => e == ProtocolError::InvalidAddress && !host_ok(host@),
            },
            r is Ok <==> host_ok(host@),
    {
        if is_valid_ip(host.as_str()) {
            Ok(ServerAddress { host, port })
        } else {
            Err(ProtocolError::InvalidAddress)
        }
    }

    /// Does the host pass the address check?
    pub fn is_valid_ip(&self) -> (r: bool)
        ensures
            r == host_ok(self.host@),
    {
        is_valid_ip(self.host.as_str())
    }

    /// The `host:port` form handed to the protocol client and written in
    /// log records.
    pub fn address(&self) -> (r: String)
        ensures
            r@ == self.host@ + ":"@ + dec_str(self.port as nat),
    {
        let mut s = self.host.clone();
        s.append(":");
        let p = u64_to_dec(self.port as u64);
        s.append(p.as_str());
        s
    }
}

/// Every dotted-quad IPv4 literal is an acceptable host: the address
/// check never rejects one.
pub proof fn lemma_ipv4_accepted(s: Seq<char>)
    requires
        is_ipv4_text(s),
    ensures
        host_ok(s),
{
}

/// Every IPv6 literal is an acceptable host: the address check never
/// rejects one.
pub proof fn lemma_ipv6_accepted(s: Seq<char>)
    requires
        is_ipv6_text(s),
    ensures
        host_ok(s),
{
}

proof fn lemma_foreign_char_not_ipv4(s: Seq<char>, i: int)
    requires
        0 <= i < s.len(),
        !is_dec_digit(s[i]),
        s[i] != '.',
    ensures
        !is_ipv4_text(s),
{
    if is_ipv4_text(s) {
        let parts = split_on(s, '.');
        crate::textsplit::lemma_split_covers(s, '.', i);
        let (p, k) = choose|p: int, k: int|
            0 <= p < parts.len() && 0 <= k < parts[p].len() && #[trigger] parts[p][k] == s[i];
        assert(ipv4_group_ok(parts[p]));
        assert(is_dec_digit(parts[p][k]));
    }
}

proof fn lemma_foreign_char_not_ipv6(s: Seq<char>, i: int)
    requires
        0 <= i < s.len(),
        !is_hex_digit(s[i]),
        s[i] != ':',
        s[i] != '.',
    ensures
        !is_ipv6_text(s),
{
    let c = s[i];
    if is_ipv6_text(s) {
        match find_dc(s) {
            None => {
                let parts = split_on(s, ':');
                crate::textsplit::lemma_split_covers(s, ':', i);
                let (p, k) = choose|p: int, k: int|
                    0 <= p < parts.len() && 0 <= k < parts[p].len() && #[trigger] parts[p][k]
                        == c;
                if parts.len() == 8 {
                    assert(h16_ok(parts[p]));
                    assert(is_hex_digit(parts[p][k]));
                } else {
                    if p < 6 {
                        assert(h16_ok(parts.subrange(0, 6)[p]));
                        assert(is_hex_digit(parts[p][k]));
                    } else {
                        assert(parts[6][k] == c);
                        lemma_foreign_char_not_ipv4(parts[6], k);
                    }
                }
            },
            Some(d) => {
                lemma_find_dc_bounds(s);
                let l = s.subrange(0, d);
                let r = s.subrange(d + 2, s.len() as int);
                if i < d {
                    assert(l[i] == c);
                    crate::textsplit::lemma_split_covers(l, ':', i);
                    let lp = split_on(l, ':');
                    let (p, k) = choose|p: int, k: int|
                        0 <= p < lp.len() && 0 <= k < lp[p].len() && #[trigger] lp[p][k] == c;
                    assert(h16_ok(side_groups(l)[p]));
                    assert(is_hex_digit(lp[p][k]));
                } else if i == d || i == d + 1 {
                    assert(c == ':');
                } else {
                    assert(r[i - d - 2] == c);
                    crate::textsplit::lemma_split_covers(r, ':', i - d - 2);
                    let rp = split_on(r, ':');
                    crate::textsplit::lemma_split_len(r, ':');
                    let (p, k) = choose|p: int, k: int|
                        0 <= p < rp.len() && 0 <= k < rp[p].len() && #[trigger] rp[p][k] == c;
                    assert(side_groups(r) == rp);
                    if p < rp.len() - 1 {
                        assert(h16_ok(rp.subrange(0, rp.len() - 1)[p]));
                        assert(is_hex_digit(rp[p][k]));
                    } else {
                        assert(rp.last() == rp[p]);
                        if h16_ok(rp.last()) {
                            assert(is_hex_digit(rp[p][k]));
                        } else {
                            lemma_foreign_char_not_ipv4(rp[p], k);
                        }
                    }
                }
            },
        }
    }
}

/// A string with a character no hostname may hold and that is not a
/// colon — a space, a slash, an underscore — is always rejected, whatever
/// else it holds: it is no hostname and no IP literal of either family.
pub proof fn lemma_foreign_char_always_rejected(s: Seq<char>, i: int)
    requires
        0 <= i < s.len(),
        !hostname_char_ok(s[i]),
        s[i] != ':',
    ensures
        !host_ok(s),
{
    lemma_foreign_char_not_ipv4(s, i);
    lemma_foreign_char_not_ipv6(s, i);
}

} // verus!
