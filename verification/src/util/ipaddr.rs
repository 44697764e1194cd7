//! Textual IP addresses: the IPv4 dotted-quad and IPv6 colon-hex grammars
//! (with `::` compression and an embedded trailing IPv4 part), read over the
//! UTF-8 bytes of a host string, and the address classes the network
//! boundary cares about.
use vstd::prelude::*;

verus! {

/// A parsed address: four octets, or eight 16-bit groups.
pub enum IpModel {
    V4(Seq<int>),
    V6(Seq<int>),
}

/// Value of `b` as a digit in `radix` (10 or 16), or -1.
pub open spec fn digit_of(b: u8, radix: int) -> int {
    if 48 <= b <= 57 {
        b - 48
    } else if radix == 16 && 97 <= b <= 102 {
        b - 87
    } else if radix == 16 && 65 <= b <= 70 {
        b - 55
    } else {
        -1
    }
}

/// Number of consecutive `radix` digits of `s` from `pos` on.
pub open spec fn digit_run(s: Seq<u8>, pos: int, radix: int) -> nat
    decreases s.len() - pos,
{
    if 0 <= pos < s.len() && digit_of(s[pos], radix) >= 0 {
        1 + digit_run(s, pos + 1, radix)
    } else {
        0
    }
}

/// Value of the `n` digits of `s` starting at `pos`.
pub open spec fn digits_value(s: Seq<u8>, pos: int, n: nat, radix: int) -> int
    decreases n,
{
    if n == 0 {
        0
    } else {
        digits_value(s, pos, (n - 1) as nat, radix) * radix + digit_of(s[pos + n - 1], radix)
    }
}

/// A number of at most `max_digits` digits and at most `max_value`, read at
/// `pos`; without `allow_zero_prefix` a leading zero is refused unless the
/// number is the single digit 0. Gives the value and the position after it.
pub open spec fn read_number(
    s: Seq<u8>,
    pos: int,
    radix: int,
    max_digits: nat,
    allow_zero_prefix: bool,
    max_value: int,
) -> Option<(int, int)> {
    let n = digit_run(s, pos, radix);
    if n == 0 || n > max_digits {
        None
    } else if !allow_zero_prefix && s[pos] == 48 && n > 1 {
        None
    } else if digits_value(s, pos, n, radix) > max_value {
        None
    } else {
        Some((digits_value(s, pos, n, radix), pos + n))
    }
}

/// `sep` at `pos`, when `index > 0`; then a number read by `read_number`.
pub open spec fn read_separated_number(
    s: Seq<u8>,
    pos: int,
    index: int,
    sep: u8,
    radix: int,
    max_digits: nat,
    allow_zero_prefix: bool,
    max_value: int,
) -> Option<(int, int)> {
    if index > 0 {
        if 0 <= pos < s.len() && s[pos] == sep {
            read_number(s, pos + 1, radix, max_digits, allow_zero_prefix, max_value)
        } else {
            None
        }
    } else {
        read_number(s, pos, radix, max_digits, allow_zero_prefix, max_value)
    }
}

/// Octets `i..4` of a dotted quad starting at `pos`.
pub open spec fn read_octets(s: Seq<u8>, pos: int, i: int) -> Option<(Seq<int>, int)>
    decreases 4 - i,
{
    if i >= 4 {
        Some((Seq::empty(), pos))
    } else {
        match read_separated_number(s, pos, i, 46, 10, 3, false, 255) {
            Some((v, p)) => match read_octets(s, p, i + 1) {
                Some((rest, q)) => Some((seq![v] + rest, q)),
                None => None,
            },
            None => None,
        }
    }
}

/// A dotted-quad IPv4 address at `pos`.
pub open spec fn read_ipv4(s: Seq<u8>, pos: int) -> Option<(Seq<int>, int)> {
    read_octets(s, pos, 0)
}

/// Colon-separated groups `i..limit` starting at `pos`: each slot but the
/// last tries an embedded IPv4 address first, which then ends the list.
/// Gives the groups read, the position after them, and whether an IPv4 part
/// ended them.
pub open spec fn read_groups(s: Seq<u8>, pos: int, i: int, limit: int) -> (Seq<int>, int, bool)
    decreases limit - i,
{
    if i >= limit {
        (Seq::empty(), pos, false)
    } else {
        let v4 = if i < limit - 1 {
            if i > 0 {
                if 0 <= pos < s.len() && s[pos] == 58 {
                    read_ipv4(s, pos + 1)
                } else {
                    None
                }
            } else {
                read_ipv4(s, pos)
            }
        } else {
            None
        };
        match v4 {
            Some((o, p)) => (seq![o[0] * 256 + o[1], o[2] * 256 + o[3]], p, true),
            None => match read_separated_number(s, pos, i, 58, 16, 4, true, 65535) {
                Some((g, p)) => {
                    let rest = read_groups(s, p, i + 1, limit);
                    (seq![g] + rest.0, rest.1, rest.2)
                },
                None => (Seq::empty(), pos, false),
            },
        }
    }
}

/// An IPv6 address at `pos`: eight groups, or a head, `::`, and a tail
/// that together leave at least one group to the zeros of `::`.
pub open spec fn read_ipv6(s: Seq<u8>, pos: int) -> Option<(Seq<int>, int)> {
    let head = read_groups(s, pos, 0, 8);
    if head.0.len() == 8 {
        Some((head.0, head.1))
    } else if head.2 {
        None
    } else if head.1 + 1 < s.len() && s[head.1] == 58 && s[head.1 + 1] == 58 {
        let tail = read_groups(s, head.1 + 2, 0, 8 - (head.0.len() + 1));
        Some(
            (
                head.0 + Seq::new((8 - head.0.len() - tail.0.len()) as nat, |k: int| 0int)
                    + tail.0,
                tail.1,
            ),
        )
    } else {
        None
    }
}

/// The address that `s` spells in full, if any: IPv4 is tried first, and a
/// parse that leaves input unread fails.
pub open spec fn parse_ip(s: Seq<u8>) -> Option<IpModel> {
    match read_ipv4(s, 0) {
        Some((o, p)) => if p == s.len() {
            Some(IpModel::V4(o))
        } else {
            None
        },
        None => match read_ipv6(s, 0) {
            Some((g, p)) => if p == s.len() {
                Some(IpModel::V6(g))
            } else {
                None
            },
            None => None,
        },
    }
}

/// Loopback: `127.0.0.0/8`, or `::1`.
pub open spec fn is_loopback_ip(ip: IpModel) -> bool {
    match ip {
        IpModel::V4(o) => o[0] == 127,
        IpModel::V6(g) => g == seq![0int, 0, 0, 0, 0, 0, 0, 1],
    }
}

/// Addresses never accepted as a peer: unspecified, broadcast, multicast or
/// link-local (for IPv6: unspecified, multicast or unicast link-local).
pub open spec fn is_dangerous_ip(ip: IpModel) -> bool {
    match ip {
        IpModel::V4(o) => {
            ||| (o[0] == 0 && o[1] == 0 && o[2] == 0 && o[3] == 0)
            ||| (o[0] == 255 && o[1] == 255 && o[2] == 255 && o[3] == 255)
            ||| (224 <= o[0] <= 239)
            ||| (o[0] == 169 && o[1] == 254)
        },
        IpModel::V6(g) => {
            ||| g == seq![0int, 0, 0, 0, 0, 0, 0, 0]
            ||| g[0] >= 0xff00
            ||| (0xfe80 <= g[0] <= 0xfebf)
        },
    }
}

pub open spec fn octets_view(o: Seq<u8>) -> Seq<int> {
    o.map_values(|b: u8| b as int)
}

/// Exec form of a parsed address.
#[derive(Debug, Clone)]
pub enum IpAddress {
    V4(Vec<u8>),
    V6(Vec<u16>),
}

impl IpAddress {
    /// Four octets or eight groups.
    pub open spec fn wf(&self) -> bool {
        match self {
            IpAddress::V4(o) => o@.len() == 4,
            IpAddress::V6(g) => g@.len() == 8,
        }
    }
}

impl View for IpAddress {
    type V = IpModel;

    open spec fn view(&self) -> IpModel {
        match self {
            IpAddress::V4(o) => IpModel::V4(octets_view(o@)),
            IpAddress::V6(g) => IpModel::V6(groups_view(g@)),
        }
    }
}

/// `r` raised to `n`.
pub open spec fn rpow(r: int, n: nat) -> int
    decreases n,
{
    if n == 0 {
        1
    } else {
        r * rpow(r, (n - 1) as nat)
    }
}

proof fn lemma_digits_value_bound(s: Seq<u8>, pos: int, n: nat, radix: int)
    requires
        radix == 10 || radix == 16,
        forall|k: int| pos <= k < pos + n ==> 0 <= #[trigger] digit_of(s[k], radix) < radix,
    ensures
        0 <= digits_value(s, pos, n, radix) < rpow(radix, n),
    decreases n,
{
    if n > 0 {
        lemma_digits_value_bound(s, pos, (n - 1) as nat, radix);
        let d = digit_of(s[pos + n - 1], radix);
        let v = digits_value(s, pos, (n - 1) as nat, radix);
        let b = rpow(radix, (n - 1) as nat);
        assert(0 <= v * radix + d < radix * b) by (nonlinear_arith)
            requires
                0 <= v < b,
                radix == 10 || radix == 16,
                0 <= d < radix,
        {}
    }
}

proof fn lemma_rpow_small(radix: int, n: nat)
    requires
        radix == 10 || radix == 16,
        n <= 4,
        radix == 10 ==> n <= 3,
    ensures
        rpow(radix, n) <= 65536,
{
    reveal_with_fuel(rpow, 5);
}

fn digit_exec(b: u8, radix: u32) -> (d: Option<u32>)
    requires
        radix == 10 || radix == 16,
    ensures
        match d {
            Some(v) => v == digit_of(b, radix as int) && 0 <= v < radix,
            None => digit_of(b, radix as int) == -1,
        },
{
    if 48 <= b && b <= 57 {
        Some((b - 48) as u32)
    } else if radix == 16 && 97 <= b && b <= 102 {
        Some((b - 87) as u32)
    } else if radix == 16 && 65 <= b && b <= 70 {
        Some((b - 55) as u32)
    } else {
        None
    }
}

fn read_number_exec(
    s: &[u8],
    pos: usize,
    radix: u32,
    max_digits: usize,
    allow_zero_prefix: bool,
    max_value: u32,
) -> (r: Option<(u32, usize)>)
    requires
        radix == 10 || radix == 16,
        1 <= max_digits <= 4,
        radix == 10 ==> max_digits <= 3,
        pos <= s@.len(),
    ensures
        match r {
            Some((v, p)) => read_number(
                s@,
                pos as int,
                radix as int,
                max_digits as nat,
                allow_zero_prefix,
                max_value as int,
            ) == Some((v as int, p as int)) && p <= s@.len(),
            None => read_number(
                s@,
                pos as int,
                radix as int,
                max_digits as nat,
                allow_zero_prefix,
                max_value as int,
            ) is None,
        },
{
    let mut i: usize = pos;
    let mut value: u32 = 0;
    while i < s.len()
        invariant
            radix == 10 || radix == 16,
            1 <= max_digits <= 4,
            radix == 10 ==> max_digits <= 3,
            pos <= i <= s@.len(),
            i - pos <= max_digits,
            forall|k: int| pos <= k < i ==> 0 <= #[trigger] digit_of(s@[k], radix as int) < radix,
            digit_run(s@, pos as int, radix as int) == (i - pos) + digit_run(
                s@,
                i as int,
                radix as int,
            ),
            value == digits_value(s@, pos as int, (i - pos) as nat, radix as int),
        ensures
            pos <= i <= s@.len(),
            i - pos <= max_digits,
            forall|k: int| pos <= k < i ==> 0 <= #[trigger] digit_of(s@[k], radix as int) < radix,
            digit_run(s@, i as int, radix as int) == 0,
            digit_run(s@, pos as int, radix as int) == (i - pos),
            value == digits_value(s@, pos as int, (i - pos) as nat, radix as int),
        decreases s@.len() - i,
    {
        match digit_exec(s[i], radix) {
            Some(d) => {
                if i - pos == max_digits {
                    assert(digit_run(s@, i as int, radix as int) >= 1);
                    return None;
                }
                proof {
                    lemma_digits_value_bound(s@, pos as int, (i - pos) as nat, radix as int);
                    lemma_rpow_small(radix as int, (i - pos) as nat);
                    assert(value * radix + d < 1048576) by (nonlinear_arith)
                        requires
                            value < 65536,
                            radix <= 16,
                            d < radix,
                    {}
                }
                value = value * radix + d;
                i = i + 1;
                assert(value == digits_value(s@, pos as int, (i - pos) as nat, radix as int));
            },
            None => {
                assert(digit_run(s@, i as int, radix as int) == 0);
                break;
            },
        }
    }
    let n = i - pos;
    proof {
        assert(digit_run(s@, pos as int, radix as int) == n);
        lemma_digits_value_bound(s@, pos as int, n as nat, radix as int);
        lemma_rpow_small(radix as int, n as nat);
    }
    if n == 0 {
        return None;
    }
    if !allow_zero_prefix && s[pos] == 48 && n > 1 {
        return None;
    }
    if value > max_value {
        return None;
    }
    Some((value, i))
}

fn read_separated_number_exec(
    s: &[u8],
    pos: usize,
    index: usize,
    sep: u8,
    radix: u32,
    max_digits: usize,
    allow_zero_prefix: bool,
    max_value: u32,
) -> (r: Option<(u32, usize)>)
    requires
        radix == 10 || radix == 16,
        1 <= max_digits <= 4,
        radix == 10 ==> max_digits <= 3,
        pos <= s@.len(),
    ensures
        match r {
            Some((v, p)) => read_separated_number(
                s@,
                pos as int,
                index as int,
                sep,
                radix as int,
                max_digits as nat,
                allow_zero_prefix,
                max_value as int,
            ) == Some((v as int, p as int)) && p <= s@.len(),
            None => read_separated_number(
                s@,
                pos as int,
                index as int,
                sep,
                radix as int,
                max_digits as nat,
                allow_zero_prefix,
                max_value as int,
            ) is None,
        },
{
    if index > 0 {
        if pos < s.len() && s[pos] == sep {
            read_number_exec(s, pos + 1, radix, max_digits, allow_zero_prefix, max_value)
        } else {
            None
        }
    } else {
        read_number_exec(s, pos, radix, max_digits, allow_zero_prefix, max_value)
    }
}

fn read_ipv4_exec(s: &[u8], pos: usize) -> (r: Option<(Vec<u8>, usize)>)
    requires
        pos <= s@.len(),
    ensures
        match r {
            Some((o, p)) => read_ipv4(s@, pos as int) == Some(
                (octets_view(o@), p as int),
            ) && p <= s@.len() && o@.len() == 4,
            None => read_ipv4(s@, pos as int) is None,
        },
{
    let mut octets: Vec<u8> = Vec::new();
    let mut p: usize = pos;
    let mut i: usize = 0;
    while i < 4
        invariant
            i <= 4,
            p <= s@.len(),
            octets@.len() == i,
            read_octets(s@, pos as int, 0) == match read_octets(s@, p as int, i as int) {
                Some((rest, q)) => Some((octets_view(octets@) + rest, q)),
                None => None::<(Seq<int>, int)>,
            },
        decreases 4 - i,
    {
        match read_separated_number_exec(s, p, i, 46, 10, 3, false, 255) {
            Some((v, q)) => {
                let ghost before = octets_view(octets@);
                octets.push(v as u8);
                proof {
                    assert(octets_view(octets@) =~= before + seq![v as int]);
                    match read_octets(s@, q as int, i + 1) {
                        Some((rest, z)) => {
                            assert(before + (seq![v as int] + rest) =~= (before + seq![
                                v as int,
                            ]) + rest);
                        },
                        None => {},
                    }
                }
                p = q;
                i = i + 1;
            },
            None => {
                return None;
            },
        }
    }
    proof {
        assert(octets_view(octets@) + Seq::<int>::empty() =~= octets@.map_values(
            |b: u8| b as int,
        ));
    }
    Some((octets, p))
}

pub open spec fn groups_view(g: Seq<u16>) -> Seq<int> {
    g.map_values(|x: u16| x as int)
}

fn read_groups_exec(s: &[u8], pos: usize, limit: usize) -> (r: (Vec<u16>, usize, bool))
    requires
        pos <= s@.len(),
        limit <= 8,
    ensures
        read_groups(s@, pos as int, 0, limit as int) == (groups_view(r.0@), r.1 as int, r.2),
        r.1 <= s@.len(),
        r.0@.len() <= limit,
{
    let mut groups: Vec<u16> = Vec::new();
    let mut p: usize = pos;
    let mut i: usize = 0;
    while i < limit
        invariant
            limit <= 8,
            i <= limit,
            p <= s@.len(),
            groups@.len() == i,
            read_groups(s@, pos as int, 0, limit as int) == ({
                let rest = read_groups(s@, p as int, i as int, limit as int);
                (groups_view(groups@) + rest.0, rest.1, rest.2)
            }),
        decreases limit - i,
    {
        let ghost before = groups_view(groups@);
        if i + 1 < limit {
            let v4 = if i > 0 {
                if p < s.len() && s[p] == 58 {
                    read_ipv4_exec(s, p + 1)
                } else {
                    None
                }
            } else {
                read_ipv4_exec(s, p)
            };
            match v4 {
                Some((o, q)) => {
                    let hi = (o[0] as u16) * 256 + (o[1] as u16);
                    let lo = (o[2] as u16) * 256 + (o[3] as u16);
                    groups.push(hi);
                    groups.push(lo);
                    proof {
                        let ov = octets_view(o@);
                        assert(ov[0] == o@[0] as int && ov[1] == o@[1] as int);
                        assert(ov[2] == o@[2] as int && ov[3] == o@[3] as int);
                        assert(groups_view(groups@) =~= before + seq![
                            ov[0] * 256 + ov[1],
                            ov[2] * 256 + ov[3],
                        ]);
                    }
                    return (groups, q, true);
                },
                None => {},
            }
        }
        match read_separated_number_exec(s, p, i, 58, 16, 4, true, 65535) {
            Some((g, q)) => {
                groups.push(g as u16);
                proof {
                    assert(groups_view(groups@) =~= before + seq![g as int]);
                    let rest = read_groups(s@, q as int, i + 1, limit as int);
                    assert(before + (seq![g as int] + rest.0) =~= (before + seq![g as int])
                        + rest.0);
                }
                p = q;
                i = i + 1;
            },
            None => {
                proof {
                    assert(before + Seq::<int>::empty() =~= before);
                }
                return (groups, p, false);
            },
        }
    }
    proof {
        assert(groups_view(groups@) + Seq::<int>::empty() =~= groups_view(groups@));
    }
    (groups, p, false)
}

fn read_ipv6_exec(s: &[u8], pos: usize) -> (r: Option<(Vec<u16>, usize)>)
    requires
        pos <= s@.len(),
    ensures
        match r {
            Some((g, p)) => read_ipv6(s@, pos as int) == Some((groups_view(g@), p as int))
                && g@.len() == 8,
            None => read_ipv6(s@, pos as int) is None,
        },
{
    let (head, p, head_v4) = read_groups_exec(s, pos, 8);
    if head.len() == 8 {
        return Some((head, p));
    }
    if head_v4 {
        return None;
    }
    if !(p < s.len() && p + 1 < s.len() && s[p] == 58 && s[p + 1] == 58) {
        return None;
    }
    let (tail, q, _) = read_groups_exec(s, p + 2, 8 - (head.len() + 1));
    let mut groups = head;
    let zeros = 8 - groups.len() - tail.len();
    let ghost h = groups_view(groups@);
    let mut k: usize = 0;
    while k < zeros
        invariant
            k <= zeros,
            groups@.len() == h.len() + k,
            groups_view(groups@) =~= h + Seq::new(k as nat, |j: int| 0int),
        decreases zeros - k,
    {
        let ghost old_groups = groups@;
        groups.push(0);
        proof {
            assert(groups_view(groups@) =~= groups_view(old_groups).push(0int));
        }
        k = k + 1;
    }
    let ghost z = groups_view(groups@);
    let mut t: usize = 0;
    while t < tail.len()
        invariant
            t <= tail@.len(),
            groups@.len() == z.len() + t,
            groups_view(groups@) =~= z + groups_view(tail@).subrange(0, t as int),
        decreases tail@.len() - t,
    {
        let ghost old_groups = groups@;
        groups.push(tail[t]);
        proof {
            assert(groups_view(groups@) =~= groups_view(old_groups).push(tail@[t as int] as int));
            assert(groups_view(tail@).subrange(0, t + 1) =~= groups_view(tail@).subrange(
                0,
                t as int,
            ).push(tail@[t as int] as int));
        }
        t = t + 1;
    }
    proof {
        assert(groups_view(tail@).subrange(0, tail@.len() as int) =~= groups_view(tail@));
    }
    Some((groups, q))
}

/// Parses the UTF-8 bytes of a host as an IP address.
pub fn parse_ip_exec(s: &[u8]) -> (r: Option<IpAddress>)
    ensures
        match r {
            Some(a) => parse_ip(s@) == Some(a@) && a.wf(),
            None => parse_ip(s@) is None,
        },
{
    match read_ipv4_exec(s, 0) {
        Some((o, p)) => {
            if p == s.len() {
                Some(IpAddress::V4(o))
            } else {
                None
            }
        },
        None => match read_ipv6_exec(s, 0) {
            Some((g, p)) => {
                if p == s.len() {
                    Some(IpAddress::V6(g))
                } else {
                    None
                }
            },
            None => None,
        },
    }
}

} // verus!
