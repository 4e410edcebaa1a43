//! Server-side request forgery rules applied to every remote URL the service fetches.

use vstd::prelude::*;

use crate::text::{
    chars_of, decimal_digits, hex_digits, opt_chars, push_decimal_digits, push_hex_digits,
    str_equals, string_of,
};

verus! {

/// An IP address as plain values: four octets or eight 16-bit segments.
#[derive(Clone, Copy, Debug, PartialEq, Eq)]
pub enum IpAddress {
    V4(u8, u8, u8, u8),
    V6(u16, u16, u16, u16, u16, u16, u16, u16),
}

/// Why a remote URL was refused.
#[derive(Clone, Debug, PartialEq, Eq)]
pub enum SsrfError {
    /// The scheme is neither `http` nor `https` (empty when the URL does not parse).
    SchemeNotAllowed(String),
    /// The URL has no host.
    MissingHost,
    /// The host names the local machine and localhost access is off.
    Localhost,
    Loopback(IpAddress),
    Private(IpAddress),
    LinkLocal(IpAddress),
    Unspecified(IpAddress),
    Multicast(IpAddress),
    CloudMetadata,
}

/// `127.0.0.0/8` and `::1`.
pub open spec fn is_loopback(ip: IpAddress) -> bool {
    match ip {
        IpAddress::V4(a, _, _, _) => a == 127,
        IpAddress::V6(a, b, c, d, e, f, g, h) => a == 0 && b == 0 && c == 0 && d == 0 && e == 0
            && f == 0 && g == 0 && h == 1,
    }
}

/// `10.0.0.0/8`, `172.16.0.0/12`, `192.168.0.0/16`, and the unique local range `fc00::/7`.
pub open spec fn is_private(ip: IpAddress) -> bool {
    match ip {
        IpAddress::V4(a, b, _, _) => a == 10 || (a == 172 && 16 <= b <= 31) || (a == 192 && b
            == 168),
        IpAddress::V6(a, _, _, _, _, _, _, _) => 0xfc00 <= a <= 0xfdff,
    }
}

/// `169.254.0.0/16` and the unicast link-local range `fe80::/10`.
pub open spec fn is_link_local(ip: IpAddress) -> bool {
    match ip {
        IpAddress::V4(a, b, _, _) => a == 169 && b == 254,
        IpAddress::V6(a, _, _, _, _, _, _, _) => 0xfe80 <= a <= 0xfebf,
    }
}

/// `0.0.0.0` and `::`.
pub open spec fn is_unspecified(ip: IpAddress) -> bool {
    match ip {
        IpAddress::V4(a, b, c, d) => a == 0 && b == 0 && c == 0 && d == 0,
        IpAddress::V6(a, b, c, d, e, f, g, h) => a == 0 && b == 0 && c == 0 && d == 0 && e == 0
            && f == 0 && g == 0 && h == 0,
    }
}

/// `224.0.0.0/4` and `ff00::/8`.
pub open spec fn is_multicast(ip: IpAddress) -> bool {
    match ip {
        IpAddress::V4(a, _, _, _) => 224 <= a <= 239,
        IpAddress::V6(a, _, _, _, _, _, _, _) => a >= 0xff00,
    }
}

/// The cloud metadata service address `169.254.169.254`.
pub open spec fn is_cloud_metadata(ip: IpAddress) -> bool {
    ip == IpAddress::V4(169, 254, 169, 254)
}

/// The verdict on one target address, checked in a fixed order.
pub open spec fn ip_verdict(ip: IpAddress, allow_localhost: bool) -> Result<(), SsrfError> {
    if !allow_localhost && is_loopback(ip) {
        Err(SsrfError::Loopback(ip))
    } else if is_private(ip) && !is_loopback(ip) {
        Err(SsrfError::Private(ip))
    } else if is_link_local(ip) {
        Err(SsrfError::LinkLocal(ip))
    } else if is_unspecified(ip) {
        Err(SsrfError::Unspecified(ip))
    } else if is_multicast(ip) {
        Err(SsrfError::Multicast(ip))
    } else if is_cloud_metadata(ip) {
        Err(SsrfError::CloudMetadata)
    } else {
        Ok(())
    }
}

/// The verdict on a list of resolved addresses: the first refusal, if any.
pub open spec fn addresses_verdict(addrs: Seq<IpAddress>, allow_localhost: bool) -> Result<
    (),
    SsrfError,
>
    decreases addrs.len(),
{
    if addrs.len() == 0 {
        Ok(())
    } else if ip_verdict(addrs[0], allow_localhost) is Err {
        ip_verdict(addrs[0], allow_localhost)
    } else {
        addresses_verdict(addrs.drop_first(), allow_localhost)
    }
}

fn check_loopback(ip: IpAddress) -> (res: bool)
    ensures
        res == is_loopback(ip),
{
    match ip {
        IpAddress::V4(a, _, _, _) => a == 127,
        IpAddress::V6(a, b, c, d, e, f, g, h) => a == 0 && b == 0 && c == 0 && d == 0 && e == 0
            && f == 0 && g == 0 && h == 1,
    }
}

fn check_private(ip: IpAddress) -> (res: bool)
    ensures
        res == is_private(ip),
{
    match ip {
        IpAddress::V4(a, b, _, _) => a == 10 || (a == 172 && 16 <= b && b <= 31) || (a == 192 && b
            == 168),
        IpAddress::V6(a, _, _, _, _, _, _, _) => 0xfc00 <= a && a <= 0xfdff,
    }
}

fn check_link_local(ip: IpAddress) -> (res: bool)
    ensures
        res == is_link_local(ip),
{
    match ip {
        IpAddress::V4(a, b, _, _) => a == 169 && b == 254,
        IpAddress::V6(a, _, _, _, _, _, _, _) => 0xfe80 <= a && a <= 0xfebf,
    }
}

fn check_unspecified(ip: IpAddress) -> (res: bool)
    ensures
        res == is_unspecified(ip),
{
    match ip {
        IpAddress::V4(a, b, c, d) => a == 0 && b == 0 && c == 0 && d == 0,
        IpAddress::V6(a, b, c, d, e, f, g, h) => a == 0 && b == 0 && c == 0 && d == 0 && e == 0
            && f == 0 && g == 0 && h == 0,
    }
}

fn check_multicast(ip: IpAddress) -> (res: bool)
    ensures
        res == is_multicast(ip),
{
    match ip {
        IpAddress::V4(a, _, _, _) => 224 <= a && a <= 239,
        IpAddress::V6(a, _, _, _, _, _, _, _) => a >= 0xff00,
    }
}

fn check_cloud_metadata(ip: IpAddress) -> (res: bool)
    ensures
        res == is_cloud_metadata(ip),
{
    match ip {
        IpAddress::V4(a, b, c, d) => a == 169 && b == 254 && c == 169 && d == 254,
        IpAddress::V6(..) => false,
    }
}

/// Refuses loopback (unless localhost access is allowed), private, link-local, unspecified,
/// multicast and cloud metadata addresses.
pub fn validate_ip_address(ip: IpAddress, allow_localhost: bool) -> (res: Result<(), SsrfError>)
    ensures
        res == ip_verdict(ip, allow_localhost),
{
    let loopback = check_loopback(ip);
    if !allow_localhost && loopback {
        return Err(SsrfError::Loopback(ip));
    }
    if check_private(ip) && !loopback {
        return Err(SsrfError::Private(ip));
    }
    if check_link_local(ip) {
        return Err(SsrfError::LinkLocal(ip));
    }
    if check_unspecified(ip) {
        return Err(SsrfError::Unspecified(ip));
    }
    if check_multicast(ip) {
        return Err(SsrfError::Multicast(ip));
    }
    if check_cloud_metadata(ip) {
        return Err(SsrfError::CloudMetadata);
    }
    Ok(())
}

/// Checks every address a host name resolved to and reports the first refusal.
pub fn validate_resolved_addresses(addrs: &[IpAddress], allow_localhost: bool) -> (res: Result<
    (),
    SsrfError,
>)
    ensures
        res == addresses_verdict(addrs@, allow_localhost),
{
    let n = addrs.len();
    let mut i: usize = 0;
    assert(addrs@.subrange(0, n as int) =~= addrs@);
    while i < n
        invariant
            n == addrs@.len(),
            i <= n,
            addresses_verdict(addrs@, allow_localhost) == addresses_verdict(
                addrs@.subrange(i as int, n as int),
                allow_localhost,
            ),
        decreases n - i,
    {
        let ghost rest = addrs@.subrange(i as int, n as int);
        assert(rest[0] == addrs@[i as int]);
        assert(rest.drop_first() =~= addrs@.subrange(i + 1, n as int));
        let verdict = validate_ip_address(addrs[i], allow_localhost);
        if verdict.is_err() {
            return verdict;
        }
        i = i + 1;
    }
    Ok(())
}

// ---------------------------------------------------------------------------------------------
// IPv4 literals

/// An ASCII decimal digit.
pub open spec fn is_digit(c: char) -> bool {
    '0' as u32 <= c as u32 <= '9' as u32
}

/// The value of an ASCII decimal digit.
pub open spec fn digit_value(c: char) -> int {
    c as u32 - '0' as u32
}

/// One dotted-quad component: one to three digits, no leading zero, at most 255.
pub open spec fn octet_of(p: Seq<char>) -> Option<u8> {
    if p.len() == 1 && is_digit(p[0]) {
        Some(digit_value(p[0]) as u8)
    } else if p.len() == 2 && is_digit(p[0]) && is_digit(p[1]) && p[0] != '0' {
        Some((10 * digit_value(p[0]) + digit_value(p[1])) as u8)
    } else if p.len() == 3 && is_digit(p[0]) && is_digit(p[1]) && is_digit(p[2]) && p[0] != '0'
        && 100 * digit_value(p[0]) + 10 * digit_value(p[1]) + digit_value(p[2]) <= 255 {
        Some((100 * digit_value(p[0]) + 10 * digit_value(p[1]) + digit_value(p[2])) as u8)
    } else {
        None
    }
}

/// The pieces of `s` between dots.
pub open spec fn split_dots(s: Seq<char>) -> Seq<Seq<char>>
    decreases s.len(),
{
    if s.len() == 0 {
        seq![Seq::<char>::empty()]
    } else {
        let rest = split_dots(s.drop_first());
        if s[0] == '.' {
            seq![Seq::<char>::empty()] + rest
        } else {
            rest.update(0, seq![s[0]] + rest[0])
        }
    }
}

/// The address a host written as an IPv4 dotted quad denotes, as `IpAddr::from_str` reads it.
pub open spec fn ipv4_literal(s: Seq<char>) -> Option<IpAddress> {
    let parts = split_dots(s);
    if parts.len() == 4 && octet_of(parts[0]) is Some && octet_of(parts[1]) is Some && octet_of(
        parts[2],
    ) is Some && octet_of(parts[3]) is Some {
        Some(
            IpAddress::V4(
                octet_of(parts[0])->0,
                octet_of(parts[1])->0,
                octet_of(parts[2])->0,
                octet_of(parts[3])->0,
            ),
        )
    } else {
        None
    }
}

proof fn lemma_split_dots_nonempty(s: Seq<char>)
    ensures
        split_dots(s).len() >= 1,
    decreases s.len(),
{
    if s.len() > 0 {
        lemma_split_dots_nonempty(s.drop_first());
    }
}

fn digit_of(c: char) -> (res: Option<u8>)
    ensures
        res is Some <==> is_digit(c),
        res matches Some(d) ==> d == digit_value(c),
{
    let u = c as u32;
    if 48 <= u && u <= 57 {
        Some((u - 48) as u8)
    } else {
        None
    }
}

fn octet_exec(p: &[char]) -> (res: Option<u8>)
    ensures
        res == octet_of(p@),
{
    if p.len() == 1 {
        match digit_of(p[0]) {
            Some(d) => Some(d),
            None => None,
        }
    } else if p.len() == 2 {
        match (digit_of(p[0]), digit_of(p[1])) {
            (Some(a), Some(b)) => {
                if p[0] != '0' {
                    Some(10 * a + b)
                } else {
                    None
                }
            },
            _ => None,
        }
    } else if p.len() == 3 {
        match (digit_of(p[0]), digit_of(p[1]), digit_of(p[2])) {
            (Some(a), Some(b), Some(c)) => {
                let v: u32 = 100 * (a as u32) + 10 * (b as u32) + (c as u32);
                if p[0] != '0' && v <= 255 {
                    Some(v as u8)
                } else {
                    None
                }
            },
            _ => None,
        }
    } else {
        None
    }
}

fn split_dots_exec(s: &[char]) -> (res: Vec<Vec<char>>)
    ensures
        res@.len() == split_dots(s@).len(),
        forall|k: int| 0 <= k < res@.len() ==> #[trigger] res@[k]@ == split_dots(s@)[k],
{
    let n = s.len();
    let mut parts: Vec<Vec<char>> = Vec::new();
    parts.push(Vec::new());
    let mut i: usize = n;
    assert(s@.subrange(n as int, n as int) =~= Seq::<char>::empty());
    assert(parts@[0]@ =~= Seq::<char>::empty());
    while i > 0
        invariant
            n == s@.len(),
            i <= n,
            parts@.len() == split_dots(s@.subrange(i as int, n as int)).len(),
            forall|k: int|
                0 <= k < parts@.len() ==> #[trigger] parts@[k]@ == split_dots(
                    s@.subrange(i as int, n as int),
                )[k],
            parts@.len() >= 1,
        decreases i,
    {
        let ghost before = s@.subrange(i as int, n as int);
        let ghost t = s@.subrange(i - 1, n as int);
        let ghost old_parts = parts@;
        assert(t.drop_first() =~= before);
        assert(t[0] == s@[i - 1]);
        let c = s[i - 1];
        if c == '.' {
            parts.insert(0, Vec::new());
            assert forall|k: int| 0 <= k < parts@.len() implies #[trigger] parts@[k]@ == split_dots(t)[k] by {
                if k > 0 {
                    assert(parts@[k] == old_parts[k - 1]);
                } else {
                    assert(parts@[0]@ =~= Seq::<char>::empty());
                }
            }
        } else {
            let mut first = parts.remove(0);
            let ghost old_first = first@;
            first.insert(0, c);
            assert(first@ =~= seq![c] + old_first);
            parts.insert(0, first);
            assert forall|k: int| 0 <= k < parts@.len() implies #[trigger] parts@[k]@ == split_dots(t)[k] by {
                if k > 0 {
                    assert(parts@[k] == old_parts[k]);
                }
            }
        }
        i = i - 1;
        proof {
            lemma_split_dots_nonempty(t);
        }
    }
    assert(s@.subrange(0, n as int) =~= s@);
    parts
}

/// Reads `host` as an IPv4 dotted quad, returning `None` when it is not one.
pub fn parse_ipv4_literal(host: &str) -> (res: Option<IpAddress>)
    ensures
        res == ipv4_literal(host@),
{
    let cs = chars_of(host);
    let parts = split_dots_exec(cs.as_slice());
    if parts.len() != 4 {
        return None;
    }
    assert(parts@[0]@ == split_dots(host@)[0]);
    assert(parts@[1]@ == split_dots(host@)[1]);
    assert(parts@[2]@ == split_dots(host@)[2]);
    assert(parts@[3]@ == split_dots(host@)[3]);
    let a = octet_exec(parts[0].as_slice());
    let b = octet_exec(parts[1].as_slice());
    let c = octet_exec(parts[2].as_slice());
    let d = octet_exec(parts[3].as_slice());
    match (a, b, c, d) {
        (Some(a), Some(b), Some(c), Some(d)) => Some(IpAddress::V4(a, b, c, d)),
        _ => None,
    }
}

// ---------------------------------------------------------------------------------------------
// IPv6 literals

/// The value of a hexadecimal digit.
pub open spec fn hex_val(c: char) -> Option<nat> {
    let u = c as u32;
    if 48 <= u <= 57 {
        Some((u - 48) as nat)
    } else if 97 <= u <= 102 {
        Some((u - 87) as nat)
    } else if 65 <= u <= 70 {
        Some((u - 55) as nat)
    } else {
        None
    }
}

/// Every character is a hexadecimal digit.
pub open spec fn all_hex(f: Seq<char>) -> bool {
    forall|i: int| 0 <= i < f.len() ==> (#[trigger] hex_val(f[i])) is Some
}

/// The value of a string of hexadecimal digits.
pub open spec fn hex_value(f: Seq<char>) -> nat
    decreases f.len(),
{
    if f.len() == 0 {
        0
    } else {
        hex_value(f.drop_last()) * 16 + hex_val(f.last())->0
    }
}

/// One IPv6 group: one to four hexadecimal digits.
pub open spec fn hex_field(f: Seq<char>) -> Option<u16> {
    if 1 <= f.len() <= 4 && all_hex(f) {
        Some(hex_value(f) as u16)
    } else {
        None
    }
}

/// The position of the first `:`.
pub open spec fn colon_index(s: Seq<char>) -> Option<int>
    decreases s.len(),
{
    if s.len() == 0 {
        None
    } else if s[0] == ':' {
        Some(0)
    } else {
        match colon_index(s.drop_first()) {
            Some(i) => Some(i + 1),
            None => None,
        }
    }
}

/// A `::` starts at position `j`.
pub open spec fn double_colon_at(s: Seq<char>, j: int) -> bool {
    s[j] == ':' && s[j + 1] == ':'
}

/// The position of the first `::`.
pub open spec fn double_colon_index(s: Seq<char>) -> Option<int>
    decreases s.len(),
{
    if s.len() < 2 {
        None
    } else if s[0] == ':' && s[1] == ':' {
        Some(0)
    } else {
        match double_colon_index(s.drop_first()) {
            Some(i) => Some(i + 1),
            None => None,
        }
    }
}

pub proof fn lemma_colon_index_bounds(s: Seq<char>)
    ensures
        colon_index(s) matches Some(i) ==> 0 <= i < s.len(),
    decreases s.len(),
{
    if s.len() > 0 && s[0] != ':' {
        lemma_colon_index_bounds(s.drop_first());
    }
}

proof fn lemma_double_colon_index_bounds(s: Seq<char>)
    ensures
        double_colon_index(s) matches Some(i) ==> 0 <= i && i + 2 <= s.len(),
    decreases s.len(),
{
    if s.len() >= 2 && !(s[0] == ':' && s[1] == ':') {
        lemma_double_colon_index_bounds(s.drop_first());
    }
}

/// Colon-separated IPv6 groups, each one to four hexadecimal digits.
pub open spec fn hex_group_seq(s: Seq<char>) -> Option<Seq<u16>>
    decreases s.len(),
{
    match colon_index(s) {
        None => match hex_field(s) {
            Some(v) => Some(seq![v]),
            None => None,
        },
        Some(i) => {
            proof {
                lemma_colon_index_bounds(s);
            }
            match hex_field(s.take(i)) {
                Some(v) => match hex_group_seq(s.skip(i + 1)) {
                    Some(r) => Some(seq![v] + r),
                    None => None,
                },
                None => None,
            }
        },
    }
}

/// Groups on one side of a `::`, where nothing at all is allowed too.
pub open spec fn optional_groups(s: Seq<char>) -> Option<Seq<u16>> {
    if s.len() == 0 {
        Some(Seq::empty())
    } else {
        hex_group_seq(s)
    }
}

/// The eight groups of an IPv6 address in text form: eight groups, or groups on both sides of
/// one `::` that stands for the missing zero groups (at least one).
pub open spec fn ipv6_groups(s: Seq<char>) -> Option<Seq<u16>> {
    match double_colon_index(s) {
        None => match hex_group_seq(s) {
            Some(g) => if g.len() == 8 {
                Some(g)
            } else {
                None
            },
            None => None,
        },
        Some(k) => match (optional_groups(s.take(k)), optional_groups(s.skip(k + 2))) {
            (Some(h), Some(t)) => if h.len() + t.len() <= 7 {
                Some(h + Seq::new((8 - h.len() - t.len()) as nat, |i: int| 0u16) + t)
            } else {
                None
            },
            _ => None,
        },
    }
}

/// A host in brackets, as URLs write IPv6 addresses.
pub open spec fn is_bracketed(h: Seq<char>) -> bool {
    h.len() >= 2 && h[0] == '[' && h[h.len() - 1] == ']'
}

/// A bracketed host read as an IPv6 address.
pub open spec fn ipv6_literal(h: Seq<char>) -> Option<IpAddress> {
    if is_bracketed(h) {
        match ipv6_groups(h.subrange(1, h.len() - 1)) {
            Some(g) => Some(IpAddress::V6(g[0], g[1], g[2], g[3], g[4], g[5], g[6], g[7])),
            None => None,
        }
    } else {
        None
    }
}

fn hex_char(c: char) -> (res: Option<u32>)
    ensures
        match hex_val(c) {
            Some(v) => res == Some(v as u32),
            None => res is None,
        },
{
    let u = c as u32;
    if 48 <= u && u <= 57 {
        Some(u - 48)
    } else if 97 <= u && u <= 102 {
        Some(u - 87)
    } else if 65 <= u && u <= 70 {
        Some(u - 55)
    } else {
        None
    }
}

fn parse_hex_field(cs: &[char], lo: usize, hi: usize) -> (res: Option<u16>)
    requires
        lo <= hi <= cs@.len(),
    ensures
        res == hex_field(cs@.subrange(lo as int, hi as int)),
{
    let ghost f = cs@.subrange(lo as int, hi as int);
    if hi - lo < 1 || hi - lo > 4 {
        return None;
    }
    let mut value: u32 = 0;
    let mut k: usize = lo;
    while k < hi
        invariant
            lo <= k <= hi <= cs@.len(),
            hi - lo <= 4,
            f == cs@.subrange(lo as int, hi as int),
            all_hex(cs@.subrange(lo as int, k as int)),
            value as nat == hex_value(cs@.subrange(lo as int, k as int)),
            k - lo == 0 ==> value < 1,
            k - lo == 1 ==> value < 16,
            k - lo == 2 ==> value < 256,
            k - lo == 3 ==> value < 4096,
            k - lo == 4 ==> value < 65536,
        decreases hi - k,
    {
        let c = cs[k];
        let d = match hex_char(c) {
            Some(d) => d,
            None => {
                proof {
                    assert(f[k - lo] == c);
                    assert(hex_val(f[k - lo]) is None);
                }
                return None;
            },
        };
        proof {
            let p = cs@.subrange(lo as int, k + 1);
            assert(p.drop_last() =~= cs@.subrange(lo as int, k as int));
            assert(p.last() == c);
            assert forall|i: int| 0 <= i < p.len() implies (#[trigger] hex_val(p[i])) is Some by {
                if i < p.len() - 1 {
                    assert(p[i] == cs@.subrange(lo as int, k as int)[i]);
                }
            }
        }
        value = value * 16 + d;
        k = k + 1;
    }
    assert(cs@.subrange(lo as int, k as int) == f);
    Some(value as u16)
}

proof fn lemma_colon_index_at(s: Seq<char>, k: int)
    requires
        0 <= k < s.len(),
        s[k] == ':',
        forall|j: int| 0 <= j < k ==> s[j] != ':',
    ensures
        colon_index(s) == Some(k),
    decreases k,
{
    if k > 0 {
        assert(s.drop_first()[k - 1] == s[k]);
        assert forall|j: int| 0 <= j < k - 1 implies s.drop_first()[j] != ':' by {
            assert(s.drop_first()[j] == s[j + 1]);
        }
        lemma_colon_index_at(s.drop_first(), k - 1);
    }
}

proof fn lemma_no_colon_index(s: Seq<char>)
    requires
        forall|j: int| 0 <= j < s.len() ==> s[j] != ':',
    ensures
        colon_index(s) is None,
    decreases s.len(),
{
    if s.len() > 0 {
        assert forall|j: int| 0 <= j < s.len() - 1 implies s.drop_first()[j] != ':' by {
            assert(s.drop_first()[j] == s[j + 1]);
        }
        lemma_no_colon_index(s.drop_first());
    }
}

fn parse_hex_groups(cs: &[char], lo: usize, hi: usize) -> (res: Option<Vec<u16>>)
    requires
        lo <= hi <= cs@.len(),
    ensures
        match hex_group_seq(cs@.subrange(lo as int, hi as int)) {
            Some(g) => res matches Some(v) && v@ == g,
            None => res is None,
        },
    decreases hi - lo,
{
    let ghost s = cs@.subrange(lo as int, hi as int);
    let mut j: usize = lo;
    while j < hi && cs[j] != ':'
        invariant
            lo <= j <= hi <= cs@.len(),
            s == cs@.subrange(lo as int, hi as int),
            forall|m: int| lo <= m < j ==> cs@[m] != ':',
        decreases hi - j,
    {
        j = j + 1;
    }
    if j == hi {
        proof {
            assert forall|m: int| 0 <= m < s.len() implies s[m] != ':' by {
                assert(s[m] == cs@[lo + m]);
            }
            lemma_no_colon_index(s);
        }
        return match parse_hex_field(cs, lo, hi) {
            Some(v) => Some(vec![v]),
            None => None,
        };
    }
    proof {
        assert(s[j - lo] == cs@[j as int]);
        assert forall|m: int| 0 <= m < j - lo implies s[m] != ':' by {
            assert(s[m] == cs@[lo + m]);
        }
        lemma_colon_index_at(s, j - lo);
        assert(s.take(j - lo) =~= cs@.subrange(lo as int, j as int));
        assert(s.skip(j - lo + 1) =~= cs@.subrange(j + 1, hi as int));
    }
    let v = match parse_hex_field(cs, lo, j) {
        Some(v) => v,
        None => return None,
    };
    let mut rest = match parse_hex_groups(cs, j + 1, hi) {
        Some(r) => r,
        None => return None,
    };
    let mut out: Vec<u16> = vec![v];
    out.append(&mut rest);
    Some(out)
}

fn parse_optional_groups(cs: &[char], lo: usize, hi: usize) -> (res: Option<Vec<u16>>)
    requires
        lo <= hi <= cs@.len(),
    ensures
        match optional_groups(cs@.subrange(lo as int, hi as int)) {
            Some(g) => res matches Some(v) && v@ == g,
            None => res is None,
        },
{
    if lo == hi {
        return Some(Vec::new());
    }
    parse_hex_groups(cs, lo, hi)
}

proof fn lemma_double_colon_index_at(s: Seq<char>, k: int)
    requires
        0 <= k && k + 1 < s.len(),
        s[k] == ':' && s[k + 1] == ':',
        forall|j: int| 0 <= j < k ==> !#[trigger] double_colon_at(s, j),
    ensures
        double_colon_index(s) == Some(k),
    decreases k,
{
    if k > 0 {
        let t = s.drop_first();
        assert(!double_colon_at(s, 0));
        assert(t[k - 1] == s[k] && t[k] == s[k + 1]);
        assert forall|j: int| 0 <= j < k - 1 implies !#[trigger] double_colon_at(t, j) by {
            assert(t[j] == s[j + 1] && t[j + 1] == s[j + 2]);
            assert(!double_colon_at(s, j + 1));
        }
        lemma_double_colon_index_at(t, k - 1);
    }
}

proof fn lemma_no_double_colon(s: Seq<char>)
    requires
        forall|j: int| 0 <= j && j + 1 < s.len() ==> !#[trigger] double_colon_at(s, j),
    ensures
        double_colon_index(s) is None,
    decreases s.len(),
{
    if s.len() >= 2 {
        let t = s.drop_first();
        assert(!double_colon_at(s, 0));
        assert forall|j: int| 0 <= j && j + 1 < t.len() implies !#[trigger] double_colon_at(t, j) by {
            assert(t[j] == s[j + 1] && t[j + 1] == s[j + 2]);
            assert(!double_colon_at(s, j + 1));
        }
        lemma_no_double_colon(t);
    }
}

fn parse_ipv6_groups(cs: &[char], lo: usize, hi: usize) -> (res: Option<Vec<u16>>)
    requires
        lo <= hi <= cs@.len(),
    ensures
        match ipv6_groups(cs@.subrange(lo as int, hi as int)) {
            Some(g) => res matches Some(v) && v@ == g,
            None => res is None,
        },
{
    let ghost s = cs@.subrange(lo as int, hi as int);
    let mut k: usize = lo;
    while hi - k > 1 && !(cs[k] == ':' && cs[k + 1] == ':')
        invariant
            lo <= k <= hi <= cs@.len(),
            s == cs@.subrange(lo as int, hi as int),
            forall|m: int| lo <= m < k ==> !#[trigger] double_colon_at(cs@, m),
        decreases hi - k,
    {
        k = k + 1;
    }
    if hi - k <= 1 {
        proof {
            assert forall|m: int| 0 <= m && m + 1 < s.len() implies !#[trigger] double_colon_at(s, m) by {
                assert(s[m] == cs@[lo + m] && s[m + 1] == cs@[lo + m + 1]);
                assert(!double_colon_at(cs@, lo + m));
            }
            lemma_no_double_colon(s);
        }
        let g = match parse_hex_groups(cs, lo, hi) {
            Some(g) => g,
            None => return None,
        };
        if g.len() != 8 {
            return None;
        }
        return Some(g);
    }
    proof {
        assert(s[k - lo] == cs@[k as int] && s[k - lo + 1] == cs@[k + 1]);
        assert forall|m: int| 0 <= m < k - lo implies !#[trigger] double_colon_at(s, m) by {
            assert(s[m] == cs@[lo + m] && s[m + 1] == cs@[lo + m + 1]);
            assert(!double_colon_at(cs@, lo + m));
        }
        lemma_double_colon_index_at(s, k - lo);
        assert(s.take(k - lo) =~= cs@.subrange(lo as int, k as int));
        assert(s.skip(k - lo + 2) =~= cs@.subrange(k + 2, hi as int));
    }
    let mut head = match parse_optional_groups(cs, lo, k) {
        Some(h) => h,
        None => return None,
    };
    let mut tail = match parse_optional_groups(cs, k + 2, hi) {
        Some(t) => t,
        None => return None,
    };
    if head.len() > 7 || tail.len() > 7 - head.len() {
        return None;
    }
    let ghost h0 = head@;
    let ghost t0 = tail@;
    let missing = 8 - head.len() - tail.len();
    let mut i: usize = 0;
    while i < missing
        invariant
            i <= missing,
            missing == 8 - h0.len() - t0.len(),
            head@ == h0 + Seq::new(i as nat, |j: int| 0u16),
        decreases missing - i,
    {
        head.push(0);
        i = i + 1;
        assert(head@ =~= h0 + Seq::new(i as nat, |j: int| 0u16));
    }
    head.append(&mut tail);
    Some(head)
}

/// Reads a bracketed host as an IPv6 address, returning `None` when it is not one.
pub fn parse_ipv6_literal(host: &str) -> (res: Option<IpAddress>)
    ensures
        res == ipv6_literal(host@),
{
    let cs = chars_of(host);
    let n = cs.len();
    if !(n >= 2 && cs[0] == '[' && cs[n - 1] == ']') {
        return None;
    }
    let g = match parse_ipv6_groups(cs.as_slice(), 1, n - 1) {
        Some(g) => g,
        None => return None,
    };
    Some(IpAddress::V6(g[0], g[1], g[2], g[3], g[4], g[5], g[6], g[7]))
}

// ---------------------------------------------------------------------------------------------
// URLs

/// The parts of a parsed URL that the target rules read.
pub struct UrlParts {
    pub scheme: String,
    pub host: Option<String>,
    pub port: Option<u16>,
}

impl View for UrlParts {
    type V = (Seq<char>, Option<Seq<char>>, Option<u16>);

    open spec fn view(&self) -> Self::V {
        (self.scheme@, opt_chars(self.host), self.port)
    }
}

/// What `reqwest::Url::parse` makes of a text: its scheme, its host text and its port (or the
/// scheme's default port); `None` when the text is not a URL.
pub uninterp spec fn parsed_url(url: Seq<char>) -> Option<(Seq<char>, Option<Seq<char>>, Option<u16>)>;

/// Parses `url` with `reqwest::Url::parse` and reads `scheme()`, `host_str()` and
/// `port_or_known_default()` from the result. The contract only names the result.
#[verifier::external_body]
fn parse_url(url: &str) -> (res: Option<UrlParts>)
    ensures
        match res {
            Some(p) => parsed_url(url@) == Some(p@),
            None => parsed_url(url@) is None,
        },
{
    let parsed = reqwest::Url::parse(url).ok()?;
    Some(UrlParts {
        scheme: parsed.scheme().to_string(),
        host: parsed.host_str().map(|h| h.to_string()),
        port: parsed.port_or_known_default(),
    })
}

/// The host and port a validated URL points at, for the address lookup that follows.
#[derive(Clone, Debug, PartialEq, Eq)]
pub struct UrlTarget {
    pub host: String,
    pub port: u16,
}

/// Host names that always mean the local machine.
pub open spec fn is_localhost_name(h: Seq<char>) -> bool {
    h == "localhost"@ || h == "127.0.0.1"@ || h == "::1"@
}

/// The refused scheme of a URL: empty when the text does not parse, the scheme itself when it
/// is neither `http` nor `https`, and `None` when the scheme is allowed.
pub open spec fn scheme_refusal(url: Seq<char>) -> Option<Seq<char>> {
    match parsed_url(url) {
        None => Some(Seq::<char>::empty()),
        Some((scheme, _, _)) => if scheme == "http"@ || scheme == "https"@ {
            None
        } else {
            Some(scheme)
        },
    }
}

/// The verdict on a URL whose scheme is allowed: its host and port, or why it is refused.
pub open spec fn url_target_verdict(url: Seq<char>, allow_localhost: bool) -> Result<
    (Seq<char>, u16),
    SsrfError,
> {
    match parsed_url(url) {
        None => Err(SsrfError::MissingHost),
        Some((_, host, port)) => match host {
            None => Err(SsrfError::MissingHost),
            Some(h) => if !allow_localhost && is_localhost_name(h) {
                Err(SsrfError::Localhost)
            } else if ipv4_literal(h) is Some && ip_verdict(ipv4_literal(h)->0, allow_localhost) is Err {
                Err(ip_verdict(ipv4_literal(h)->0, allow_localhost)->Err_0)
            } else if is_bracketed(h) && ipv6_literal(h) is None {
                Err(SsrfError::MissingHost)
            } else if ipv6_literal(h) is Some && ip_verdict(ipv6_literal(h)->0, allow_localhost) is Err {
                Err(ip_verdict(ipv6_literal(h)->0, allow_localhost)->Err_0)
            } else {
                Ok(
                    (
                        h,
                        match port {
                            Some(p) => p,
                            None => 80,
                        },
                    ),
                )
            },
        },
    }
}

/// Checks the parts of a remote URL that need no address lookup: the scheme, the presence of a
/// host, the localhost names, and a host written as an IPv4 literal or as a bracketed IPv6
/// literal (judged like a resolved address; brackets around anything else are refused). On success returns the host
/// and port to resolve; every resolved address then goes through `validate_resolved_addresses`.
pub fn validate_url_target(url: &str, allow_localhost: bool) -> (res: Result<UrlTarget, SsrfError>)
    ensures
        match scheme_refusal(url@) {
            Some(s) => res matches Err(SsrfError::SchemeNotAllowed(t)) && t@ == s,
            None => match url_target_verdict(url@, allow_localhost) {
                Ok((h, p)) => res matches Ok(t) && t.host@ == h && t.port == p,
                Err(e) => res == Err::<UrlTarget, SsrfError>(e),
            },
        },
{
    let parts = match parse_url(url) {
        Some(p) => p,
        None => {
            let empty: Vec<char> = Vec::new();
            return Err(SsrfError::SchemeNotAllowed(string_of(empty.as_slice())));
        },
    };
    if !str_equals(parts.scheme.as_str(), "http") && !str_equals(parts.scheme.as_str(), "https") {
        return Err(SsrfError::SchemeNotAllowed(parts.scheme));
    }
    let host = match parts.host {
        Some(h) => h,
        None => return Err(SsrfError::MissingHost),
    };
    if !allow_localhost && (str_equals(host.as_str(), "localhost") || str_equals(
        host.as_str(),
        "127.0.0.1",
    ) || str_equals(host.as_str(), "::1")) {
        return Err(SsrfError::Localhost);
    }
    if let Some(ip) = parse_ipv4_literal(host.as_str()) {
        if let Err(e) = validate_ip_address(ip, allow_localhost) {
            return Err(e);
        }
    }
    let ipv6 = parse_ipv6_literal(host.as_str());
    let chars = chars_of(host.as_str());
    let n = chars.len();
    let bracketed = n >= 2 && chars[0] == '[' && chars[n - 1] == ']';
    match ipv6 {
        Some(ip) => {
            if let Err(e) = validate_ip_address(ip, allow_localhost) {
                return Err(e);
            }
        },
        None => {
            if bracketed {
                return Err(SsrfError::MissingHost);
            }
        },
    }
    let port = match parts.port {
        Some(p) => p,
        None => 80,
    };
    Ok(UrlTarget { host, port })
}

// ---------------------------------------------------------------------------------------------
// Redirects

/// Redirects a guarded fetch follows before it gives up.
pub const MAX_REDIRECTS: usize = 10;

/// What `reqwest::Url::parse(base)` followed by `Url::join(reference)` gives: the absolute URL a
/// `Location` value points at from `base`, as text, or `None` when either step fails.
pub uninterp spec fn joined_url(base: Seq<char>, reference: Seq<char>) -> Option<Seq<char>>;

/// `Url::parse(base)` and `Url::join(reference)`, the result read back as text.
#[verifier::external_body]
fn join_url(base: &str, reference: &str) -> (res: Option<String>)
    ensures
        opt_chars(res) == joined_url(base@, reference@),
{
    let parsed = reqwest::Url::parse(base).ok()?;
    parsed.join(reference).ok().map(|joined| joined.to_string())
}

/// A redirection status: `300` to `399`.
pub open spec fn is_redirect_status(status: u16) -> bool {
    300 <= status <= 399
}

/// What a guarded fetch does with an answer.
#[derive(Clone, Debug, PartialEq, Eq)]
pub enum RedirectDecision {
    /// Hand the answer to the caller.
    Deliver,
    /// Check this URL and request it next.
    Follow(String),
    /// Give up: too many redirects.
    TooMany,
    /// Give up: the `Location` does not make a URL.
    BadLocation,
}

/// Decides what to do with the answer to the request for `current_url` after `hops` redirects:
/// anything but a redirection with a `Location` is delivered; a redirection is followed to the
/// URL its `Location` names from the current one, up to `MAX_REDIRECTS` times.
pub fn redirect_step(current_url: &str, hops: usize, status: u16, location: Option<&str>) -> (res:
    RedirectDecision)
    ensures
        !is_redirect_status(status) || location is None ==> res == RedirectDecision::Deliver,
        is_redirect_status(status) && location is Some && hops >= MAX_REDIRECTS ==> res
            == RedirectDecision::TooMany,
        is_redirect_status(status) && location is Some && hops < MAX_REDIRECTS ==> match joined_url(
            current_url@,
            location->0@,
        ) {
            Some(u) => res matches RedirectDecision::Follow(next) && next@ == u,
            None => res == RedirectDecision::BadLocation,
        },
{
    if !(300 <= status && status <= 399) {
        return RedirectDecision::Deliver;
    }
    let target = match location {
        Some(l) => l,
        None => return RedirectDecision::Deliver,
    };
    if hops >= MAX_REDIRECTS {
        return RedirectDecision::TooMany;
    }
    match join_url(current_url, target) {
        Some(next) => RedirectDecision::Follow(next),
        None => RedirectDecision::BadLocation,
    }
}

// ---------------------------------------------------------------------------------------------
// Messages

/// Dotted-quad notation of an IPv4 address.
pub open spec fn ipv4_text(a: u8, b: u8, c: u8, d: u8) -> Seq<char> {
    decimal_digits(a as nat) + "."@ + decimal_digits(b as nat) + "."@ + decimal_digits(c as nat)
        + "."@ + decimal_digits(d as nat)
}

/// Hexadecimal groups separated by colons.
pub open spec fn hex_groups(s: Seq<u16>) -> Seq<char>
    decreases s.len(),
{
    if s.len() == 0 {
        Seq::empty()
    } else if s.len() == 1 {
        hex_digits(s[0] as nat)
    } else {
        hex_groups(s.drop_last()) + ":"@ + hex_digits(s.last() as nat)
    }
}

/// The number of zero groups starting at position `i`.
pub open spec fn zero_run(s: Seq<u16>, i: int) -> nat
    decreases s.len() - i,
{
    if 0 <= i < s.len() && s[i] == 0 {
        1 + zero_run(s, i + 1)
    } else {
        0
    }
}

/// The start and length of the first longest run of zero groups at or after position `i`.
pub open spec fn longest_zero_run(s: Seq<u16>, i: int) -> (int, nat)
    decreases s.len() - i,
{
    if i < 0 || i >= s.len() {
        (s.len() as int, 0)
    } else {
        let rest = longest_zero_run(s, i + 1);
        if zero_run(s, i) >= rest.1 {
            (i, zero_run(s, i))
        } else {
            rest
        }
    }
}

/// The text form of an IPv6 address: lowercase hexadecimal groups without leading zeros, with
/// the first longest run of two or more zero groups written as `::`.
pub open spec fn ipv6_text(s: Seq<u16>) -> Seq<char> {
    let run = longest_zero_run(s, 0);
    if run.1 > 1 {
        hex_groups(s.take(run.0)) + "::"@ + hex_groups(s.skip(run.0 + run.1))
    } else {
        hex_groups(s)
    }
}

/// The text form of an address.
pub open spec fn address_text(ip: IpAddress) -> Seq<char> {
    match ip {
        IpAddress::V4(a, b, c, d) => ipv4_text(a, b, c, d),
        IpAddress::V6(a, b, c, d, e, f, g, h) => ipv6_text(seq![a, b, c, d, e, f, g, h]),
    }
}

/// The message shown for a refused URL.
pub open spec fn refusal_text(e: SsrfError) -> Seq<char> {
    match e {
        SsrfError::SchemeNotAllowed(scheme) => "URL scheme '"@ + scheme@
            + "' is not allowed. Only http and https are permitted."@,
        SsrfError::MissingHost => "URL must have a valid hostname."@,
        SsrfError::Localhost => "Access to localhost is not allowed."@,
        SsrfError::Loopback(ip) => "Access to loopback address "@ + address_text(ip)
            + " is not allowed."@,
        SsrfError::Private(ip) => "Access to private address "@ + address_text(ip)
            + " is not allowed."@,
        SsrfError::LinkLocal(ip) => "Access to link-local address "@ + address_text(ip)
            + " is not allowed."@,
        SsrfError::Unspecified(ip) => "Access to unspecified address "@ + address_text(ip)
            + " is not allowed."@,
        SsrfError::Multicast(ip) => "Access to multicast address "@ + address_text(ip)
            + " is not allowed."@,
        SsrfError::CloudMetadata => "Access to cloud metadata service is not allowed."@,
    }
}

fn push_str(out: &mut Vec<char>, text: &str)
    ensures
        final(out)@ == old(out)@ + text@,
{
    let cs = chars_of(text);
    let mut k: usize = 0;
    while k < cs.len()
        invariant
            cs@ == text@,
            k <= cs@.len(),
            out@ == old(out)@ + cs@.take(k as int),
        decreases cs.len() - k,
    {
        out.push(cs[k]);
        k = k + 1;
        assert(out@ =~= old(out)@ + cs@.take(k as int));
    }
    assert(cs@.take(cs@.len() as int) =~= cs@);
}

fn push_hex_groups(segs: &[u16], from: usize, to: usize, out: &mut Vec<char>)
    requires
        from <= to <= segs@.len(),
    ensures
        final(out)@ == old(out)@ + hex_groups(segs@.subrange(from as int, to as int)),
{
    let mut k: usize = from;
    assert(segs@.subrange(from as int, from as int) =~= Seq::<u16>::empty());
    while k < to
        invariant
            from <= k <= to <= segs@.len(),
            out@ == old(out)@ + hex_groups(segs@.subrange(from as int, k as int)),
        decreases to - k,
    {
        let ghost before = out@;
        let ghost part = segs@.subrange(from as int, k + 1);
        assert(part.drop_last() =~= segs@.subrange(from as int, k as int));
        assert(part.last() == segs@[k as int]);
        if k > from {
            out.push(':');
        }
        push_hex_digits(segs[k] as u64, out);
        proof {
            if k > from {
                assert(hex_groups(part) == hex_groups(part.drop_last()) + ":"@ + hex_digits(
                    part.last() as nat,
                ));
                reveal_strlit(":");
                assert(":"@ =~= seq![':']);
            } else {
                assert(part.len() == 1);
                assert(hex_groups(part) == hex_digits(part[0] as nat));
            }
        }
        k = k + 1;
        assert(out@ =~= old(out)@ + hex_groups(segs@.subrange(from as int, k as int)));
    }
}

fn find_longest_zero_run(segs: &[u16]) -> (res: (usize, usize))
    ensures
        res.0 as int == longest_zero_run(segs@, 0).0,
        res.1 as nat == longest_zero_run(segs@, 0).1,
        res.0 + res.1 <= segs@.len(),
{
    let n = segs.len();
    let mut i: usize = n;
    let mut best_start: usize = n;
    let mut best_len: usize = 0;
    let mut current: usize = 0;
    while i > 0
        invariant
            n == segs@.len(),
            i <= n,
            best_start as int == longest_zero_run(segs@, i as int).0,
            best_len as nat == longest_zero_run(segs@, i as int).1,
            best_start + best_len <= n,
            current as nat == zero_run(segs@, i as int),
            i + current <= n,
        decreases i,
    {
        i = i - 1;
        if segs[i] == 0 {
            current = current + 1;
        } else {
            current = 0;
        }
        assert(current as nat == zero_run(segs@, i as int));
        if current >= best_len {
            best_start = i;
            best_len = current;
        }
    }
    (best_start, best_len)
}

fn address_text_of(ip: IpAddress, out: &mut Vec<char>)
    ensures
        final(out)@ == old(out)@ + address_text(ip),
{
    match ip {
        IpAddress::V4(a, b, c, d) => {
            push_decimal_digits(a as u64, out);
            out.push('.');
            push_decimal_digits(b as u64, out);
            out.push('.');
            push_decimal_digits(c as u64, out);
            out.push('.');
            push_decimal_digits(d as u64, out);
            proof {
                reveal_strlit(".");
            }
            assert(out@ =~= old(out)@ + address_text(ip));
        },
        IpAddress::V6(a, b, c, d, e, f, g, h) => {
            let segs: Vec<u16> = vec![a, b, c, d, e, f, g, h];
            assert(segs@ =~= seq![a, b, c, d, e, f, g, h]);
            let (start, len) = find_longest_zero_run(segs.as_slice());
            if len > 1 {
                push_hex_groups(segs.as_slice(), 0, start, out);
                out.push(':');
                out.push(':');
                push_hex_groups(segs.as_slice(), start + len, 8, out);
                proof {
                    reveal_strlit("::");
                }
                assert(segs@.subrange(0, start as int) =~= segs@.take(start as int));
                assert(segs@.subrange((start + len) as int, 8) =~= segs@.skip(
                    (start + len) as int,
                ));
                assert(out@ =~= old(out)@ + address_text(ip));
            } else {
                push_hex_groups(segs.as_slice(), 0, 8, out);
                assert(segs@.subrange(0, 8) =~= segs@);
                assert(out@ =~= old(out)@ + address_text(ip));
            }
        },
    }
}

impl SsrfError {
    /// The message shown for a refused URL, naming the refused scheme or address.
    pub fn message(&self) -> (res: String)
        ensures
            res@ == refusal_text(*self),
    {
        let mut out: Vec<char> = Vec::new();
        match self {
            SsrfError::SchemeNotAllowed(scheme) => {
                push_str(&mut out, "URL scheme '");
                push_str(&mut out, scheme.as_str());
                push_str(&mut out, "' is not allowed. Only http and https are permitted.");
            },
            SsrfError::MissingHost => push_str(&mut out, "URL must have a valid hostname."),
            SsrfError::Localhost => push_str(&mut out, "Access to localhost is not allowed."),
            SsrfError::Loopback(ip) => {
                push_str(&mut out, "Access to loopback address ");
                address_text_of(*ip, &mut out);
                push_str(&mut out, " is not allowed.");
            },
            SsrfError::Private(ip) => {
                push_str(&mut out, "Access to private address ");
                address_text_of(*ip, &mut out);
                push_str(&mut out, " is not allowed.");
            },
            SsrfError::LinkLocal(ip) => {
                push_str(&mut out, "Access to link-local address ");
                address_text_of(*ip, &mut out);
                push_str(&mut out, " is not allowed.");
            },
            SsrfError::Unspecified(ip) => {
                push_str(&mut out, "Access to unspecified address ");
                address_text_of(*ip, &mut out);
                push_str(&mut out, " is not allowed.");
            },
            SsrfError::Multicast(ip) => {
                push_str(&mut out, "Access to multicast address ");
                address_text_of(*ip, &mut out);
                push_str(&mut out, " is not allowed.");
            },
            SsrfError::CloudMetadata => push_str(
                &mut out,
                "Access to cloud metadata service is not allowed.",
            ),
        }
        assert(out@ =~= refusal_text(*self));
        string_of(out.as_slice())
    }
}

// ---------------------------------------------------------------------------------------------
// Laws

/// Allowing localhost only ever turns a loopback refusal into acceptance: every other address
/// gets the same verdict either way.
pub proof fn law_localhost_switch_only_affects_loopback(ip: IpAddress)
    ensures
        !is_loopback(ip) ==> ip_verdict(ip, true) == ip_verdict(ip, false),
        ip_verdict(ip, false) is Ok ==> ip_verdict(ip, true) is Ok,
        is_loopback(ip) ==> ip_verdict(ip, false) == Err::<(), SsrfError>(SsrfError::Loopback(ip)),
{
}

/// An accepted address is public: not private, link-local, unspecified, multicast or the cloud
/// metadata service, and not loopback unless localhost access is allowed.
pub proof fn law_accepted_address_is_public(ip: IpAddress, allow_localhost: bool)
    requires
        ip_verdict(ip, allow_localhost) is Ok,
    ensures
        !is_private(ip),
        !is_link_local(ip),
        !is_unspecified(ip),
        !is_multicast(ip),
        !is_cloud_metadata(ip),
        !allow_localhost ==> !is_loopback(ip),
{
}

/// Every address in an accepted lookup result is accepted on its own.
pub proof fn law_accepted_lookup_accepts_each_address(addrs: Seq<IpAddress>, allow_localhost: bool, i: int)
    requires
        addresses_verdict(addrs, allow_localhost) is Ok,
        0 <= i < addrs.len(),
    ensures
        ip_verdict(addrs[i], allow_localhost) is Ok,
    decreases i,
{
    if i > 0 {
        assert(addrs.drop_first()[i - 1] == addrs[i]);
        law_accepted_lookup_accepts_each_address(addrs.drop_first(), allow_localhost, i - 1);
    }
}

proof fn lemma_bracketed_is_not_dotted_quad(host: Seq<char>)
    requires
        host.len() > 0,
        host[0] == '[',
    ensures
        ipv4_literal(host) is None,
{
    lemma_split_dots_nonempty(host.drop_first());
    let parts = split_dots(host);
    assert(parts[0] == seq![host[0]] + split_dots(host.drop_first())[0]);
    assert(parts[0][0] == '[');
    assert(octet_of(parts[0]) is None);
}

/// A host written as a bracketed IPv6 literal gets exactly the verdict its address gets: an
/// IPv6 loopback (unless localhost access is allowed), private, link-local, unspecified or
/// multicast address is refused before any lookup.
pub proof fn law_ipv6_literal_hosts_are_judged_by_address(
    url: Seq<char>,
    allow_localhost: bool,
    scheme: Seq<char>,
    host: Seq<char>,
    port: Option<u16>,
    ip: IpAddress,
)
    requires
        parsed_url(url) == Some((scheme, Some(host), port)),
        ipv6_literal(host) == Some(ip),
        allow_localhost || !is_localhost_name(host),
    ensures
        ip_verdict(ip, allow_localhost) is Err ==> url_target_verdict(url, allow_localhost) == Err::<
            (Seq<char>, u16),
            SsrfError,
        >(ip_verdict(ip, allow_localhost)->Err_0),
        ip_verdict(ip, allow_localhost) is Ok ==> url_target_verdict(url, allow_localhost) is Ok,
{
    assert(is_bracketed(host));
    assert(ipv4_literal(host) is None) by {
        lemma_bracketed_is_not_dotted_quad(host);
    }
}

/// Only `http` and `https` URLs get past the scheme check.
pub proof fn law_only_web_schemes_pass(url: Seq<char>)
    requires
        scheme_refusal(url) is None,
    ensures
        parsed_url(url) matches Some((scheme, _, _)) && (scheme == "http"@ || scheme == "https"@),
{
}

} // verus!
