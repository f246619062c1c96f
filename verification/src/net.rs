//! IP and socket addresses as plain values, with the text grammar the
//! standard library reads them in and the text it writes them as.

use vstd::prelude::*;

use crate::text::{
    ascii_lower, ascii_lower_char, find_char, index_of, lemma_index_of, lemma_split_any_nonempty,
    slice_chars, split_any, split_chars, string_of,
};

verus! {

/// An IP address: IPv4 as its four octets, IPv6 as its eight segments.
#[derive(Debug, Clone, Copy, PartialEq, Eq, Structural)]
pub enum IpAddress {
    V4(u8, u8, u8, u8),
    V6(u16, u16, u16, u16, u16, u16, u16, u16),
}

/// A socket address: IP, port, and for IPv6 the scope id (0 for none).
#[derive(Debug, Clone, Copy, PartialEq, Eq, Structural)]
pub struct SocketAddress {
    pub ip: IpAddress,
    pub port: u16,
    pub scope_id: u32,
}

// ------------------------------------------------------------- numbers

/// Value of a hexadecimal (or decimal) digit.
pub open spec fn digit_value(c: char) -> nat {
    if '0' <= c <= '9' {
        (c as u32 - '0' as u32) as nat
    } else if 'a' <= c <= 'f' {
        (c as u32 - 'a' as u32 + 10) as nat
    } else if 'A' <= c <= 'F' {
        (c as u32 - 'A' as u32 + 10) as nat
    } else {
        0
    }
}

pub open spec fn is_digit_of(c: char, radix: nat) -> bool {
    if radix == 10 {
        '0' <= c <= '9'
    } else {
        ('0' <= c <= '9') || ('a' <= c <= 'f') || ('A' <= c <= 'F')
    }
}

/// Value of a digit string in `radix`.
pub open spec fn number_value(s: Seq<char>, radix: nat) -> nat
    decreases s.len(),
{
    if s.len() == 0 {
        0
    } else {
        number_value(s.drop_last(), radix) * radix + digit_value(s.last())
    }
}

/// A whole numeric field as the standard address parser reads one: at
/// least one digit, at most `max_digits` when that is set, no leading
/// zero unless `zero_prefix_ok` (or the field is a single `0`), and a
/// value no greater than `bound`.
pub open spec fn number_field(
    s: Seq<char>,
    radix: nat,
    max_digits: Option<nat>,
    zero_prefix_ok: bool,
    bound: nat,
) -> Option<nat> {
    if s.len() > 0 && (forall|i: int| 0 <= i < s.len() ==> is_digit_of(#[trigger] s[i], radix))
        && (max_digits matches Some(m) ==> s.len() <= m) && (zero_prefix_ok || !(s[0] == '0'
        && s.len() > 1)) && number_value(s, radix) <= bound {
        Some(number_value(s, radix))
    } else {
        None
    }
}

proof fn lemma_number_value_grows(s: Seq<char>, radix: nat, i: int)
    requires
        radix >= 1,
        0 <= i <= s.len(),
    ensures
        number_value(s.take(i), radix) <= number_value(s, radix),
    decreases s.len() - i,
{
    if i < s.len() {
        lemma_number_value_grows(s, radix, i + 1);
        assert(s.take(i + 1).drop_last() =~= s.take(i));
        let a = number_value(s.take(i), radix);
        assert(number_value(s.take(i + 1), radix) == a * radix + digit_value(s[i]));
        assert(a * radix >= a) by (nonlinear_arith)
            requires
                radix >= 1,
        ;
    } else {
        assert(s.take(i) =~= s);
    }
}

/// Exec [`number_field`] (`radix` is 10 or 16, `bound` fits 32 bits).
pub fn read_number_field(
    v: &Vec<char>,
    radix: u32,
    max_digits: Option<usize>,
    zero_prefix_ok: bool,
    bound: u32,
) -> (r: Option<u32>)
    requires
        radix == 10 || radix == 16,
    ensures
        r matches Some(n) ==> number_field(v@, radix as nat, match max_digits {
            Some(m) => Some(m as nat),
            None => None,
        }, zero_prefix_ok, bound as nat) == Some(n as nat),
        r is None ==> number_field(v@, radix as nat, match max_digits {
            Some(m) => Some(m as nat),
            None => None,
        }, zero_prefix_ok, bound as nat) is None,
{
    let ghost md: Option<nat> = match max_digits {
        Some(m) => Some(m as nat),
        None => None,
    };
    if v.len() == 0 {
        return None;
    }
    if let Some(m) = max_digits {
        if v.len() > m {
            return None;
        }
    }
    if !zero_prefix_ok && v[0] == '0' && v.len() > 1 {
        return None;
    }
    let mut acc: u64 = 0;
    let mut i: usize = 0;
    while i < v.len()
        invariant
            i <= v.len(),
            radix == 10 || radix == 16,
            acc == number_value(v@.take(i as int), radix as nat),
            acc <= bound,
            forall|j: int| 0 <= j < i ==> is_digit_of(#[trigger] v@[j], radix as nat),
        decreases v.len() - i,
    {
        let c = v[i];
        let ok = if radix == 10 {
            '0' <= c && c <= '9'
        } else {
            ('0' <= c && c <= '9') || ('a' <= c && c <= 'f') || ('A' <= c && c <= 'F')
        };
        if !ok {
            return None;
        }
        let d: u64 = if '0' <= c && c <= '9' {
            (c as u64) - 48
        } else if 'a' <= c && c <= 'f' {
            (c as u64) - 87
        } else {
            (c as u64) - 55
        };
        assert(d == digit_value(c));
        proof {
            assert(v@.take(i + 1).drop_last() =~= v@.take(i as int));
        }
        assert(acc * (radix as u64) <= 0xffff_ffffu64 * 16) by (nonlinear_arith)
            requires
                acc <= 0xffff_ffffu64,
                radix <= 16,
        ;
        let next: u64 = acc * (radix as u64) + d;
        if next > bound as u64 {
            proof {
                lemma_number_value_grows(v@, radix as nat, i + 1);
            }
            return None;
        }
        acc = next;
        i = i + 1;
    }
    proof {
        assert(v@.take(v.len() as int) =~= v@);
    }
    Some(acc as u32)
}

// ---------------------------------------------------------------- IPv4

/// The four octets `std`'s IPv4 parser reads from `s`: exactly four
/// dot-separated decimal fields of at most three digits, no leading
/// zeros, each at most 255.
pub open spec fn ipv4_octets(s: Seq<char>) -> Option<Seq<nat>> {
    let toks = split_any(s, seq!['.']);
    if toks.len() == 4 && forall|i: int|
        0 <= i < 4 ==> #[trigger] number_field(toks[i], 10, Some(3), false, 255) is Some {
        Some(Seq::new(4, |i: int| number_field(toks[i], 10, Some(3), false, 255).unwrap()))
    } else {
        None
    }
}

pub(crate) fn read_ipv4(v: &Vec<char>) -> (r: Option<(u8, u8, u8, u8)>)
    ensures
        r matches Some(o) ==> ipv4_octets(v@) == Some(seq![o.0 as nat, o.1 as nat, o.2 as nat, o.3 as nat]),
        r is None ==> ipv4_octets(v@) is None,
{
    let dot: Vec<char> = vec!['.'];
    let toks = split_chars(v, &dot);
    assert(dot@ == seq!['.']);
    if toks.len() != 4 {
        return None;
    }
    let a = read_number_field(&toks[0], 10, Some(3), false, 255);
    let b = read_number_field(&toks[1], 10, Some(3), false, 255);
    let c = read_number_field(&toks[2], 10, Some(3), false, 255);
    let d = read_number_field(&toks[3], 10, Some(3), false, 255);
    let ghost t = split_any(v@, seq!['.']);
    assert(toks@[0]@ == t[0] && toks@[1]@ == t[1] && toks@[2]@ == t[2] && toks@[3]@ == t[3]);
    match (a, b, c, d) {
        (Some(a), Some(b), Some(c), Some(d)) => {
            proof {
                assert forall|i: int| 0 <= i < 4 implies #[trigger] number_field(t[i], 10, Some(3), false, 255) is Some by {
                    if i == 0 {} else if i == 1 {} else if i == 2 {} else {}
                }
                assert(Seq::new(4, |i: int| number_field(t[i], 10, Some(3), false, 255).unwrap())
                    =~= seq![a as nat, b as nat, c as nat, d as nat]);
            }
            Some((a as u8, b as u8, c as u8, d as u8))
        },
        _ => {
            proof {
                if a is None {
                    assert(!(number_field(t[0], 10, Some(3), false, 255) is Some));
                } else if b is None {
                    assert(!(number_field(t[1], 10, Some(3), false, 255) is Some));
                } else if c is None {
                    assert(!(number_field(t[2], 10, Some(3), false, 255) is Some));
                } else {
                    assert(!(number_field(t[3], 10, Some(3), false, 255) is Some));
                }
            }
            None
        },
    }
}


// ---------------------------------------------------------------- IPv6

/// A hexadecimal group of an IPv6 text: one to four hex digits.
pub open spec fn hex_group(t: Seq<char>) -> Option<nat> {
    number_field(t, 16, Some(4), true, 65535)
}

/// Every token of `toks` is a hex group.
pub open spec fn all_hex_groups(toks: Seq<Seq<char>>) -> bool {
    forall|i: int| 0 <= i < toks.len() ==> #[trigger] hex_group(toks[i]) is Some
}

pub open spec fn hex_values(toks: Seq<Seq<char>>) -> Seq<nat> {
    Seq::new(toks.len(), |i: int| hex_group(toks[i]).unwrap())
}

/// The 16-bit segments one side of an IPv6 text denotes: colon-separated
/// hex groups, where (when `v4_tail`) the last token may be a dotted IPv4
/// address standing for two segments.
pub open spec fn ipv6_groups(part: Seq<char>, v4_tail: bool) -> Option<Seq<nat>> {
    if part.len() == 0 {
        Some(Seq::<nat>::empty())
    } else {
        let toks = split_any(part, seq![':']);
        let n = toks.len();
        let front = toks.take(n - 1);
        if v4_tail && n >= 1 && ipv4_octets(toks[n - 1]) is Some && all_hex_groups(front) {
            let o = ipv4_octets(toks[n - 1]).unwrap();
            Some(hex_values(front) + seq![o[0] * 256 + o[1], o[2] * 256 + o[3]])
        } else if all_hex_groups(toks) {
            Some(hex_values(toks))
        } else {
            None
        }
    }
}

/// Position of the first `::` in `s`.
pub open spec fn first_double_colon(s: Seq<char>) -> Option<int>
    decreases s.len(),
{
    if s.len() < 2 {
        None
    } else if s[0] == ':' && s[1] == ':' {
        Some(0)
    } else {
        match first_double_colon(s.drop_first()) {
            Some(i) => Some(i + 1),
            None => None,
        }
    }
}

/// The eight segments `std`'s IPv6 parser reads from `s`: eight groups,
/// or groups on both sides of one `::` standing for at least one zero
/// segment; a dotted IPv4 tail counts as two segments.
pub open spec fn ipv6_segments(s: Seq<char>) -> Option<Seq<nat>> {
    match first_double_colon(s) {
        None => match ipv6_groups(s, true) {
            Some(g) => if g.len() == 8 {
                Some(g)
            } else {
                None
            },
            None => None,
        },
        Some(d) => match (ipv6_groups(s.take(d), false), ipv6_groups(s.skip(d + 2), true)) {
            (Some(h), Some(k)) => if h.len() + k.len() <= 7 {
                Some(h + Seq::new((8 - h.len() - k.len()) as nat, |i: int| 0nat) + k)
            } else {
                None
            },
            _ => None,
        },
    }
}

/// Whether a `::` starts at position `j` of `s`.
pub open spec fn dc_at(s: Seq<char>, j: int) -> bool {
    0 <= j && j + 1 < s.len() && s[j] == ':' && s[j + 1] == ':'
}

proof fn lemma_first_double_colon(s: Seq<char>)
    ensures
        first_double_colon(s) matches Some(i) ==> 0 <= i && i + 2 <= s.len() && s[i] == ':' && s[i + 1] == ':'
            && forall|j: int| 0 <= j < i ==> !#[trigger] dc_at(s, j),
        first_double_colon(s) is None ==> forall|j: int| !#[trigger] dc_at(s, j),
    decreases s.len(),
{
    if s.len() >= 2 {
        lemma_first_double_colon(s.drop_first());
        if !(s[0] == ':' && s[1] == ':') {
            assert forall|j: int| 1 <= j && j + 1 < s.len() implies #[trigger] dc_at(s, j) == dc_at(s.drop_first(), j - 1) by {}
        }
    }
}

fn find_double_colon(v: &Vec<char>) -> (r: Option<usize>)
    ensures
        r matches Some(i) ==> first_double_colon(v@) == Some(i as int),
        r is None ==> first_double_colon(v@) is None,
{
    proof {
        lemma_first_double_colon(v@);
    }
    let mut i: usize = 0;
    while i < v.len()
        invariant
            i <= v.len(),
            forall|j: int| 0 <= j < i ==> !#[trigger] dc_at(v@, j),
        decreases v.len() - i,
    {
        if i + 1 < v.len() && v[i] == ':' && v[i + 1] == ':' {
            proof {
                lemma_first_double_colon(v@);
                assert(dc_at(v@, i as int));
                if let Some(k) = first_double_colon(v@) {
                    assert(dc_at(v@, k));
                    assert(k == i);
                }
            }
            return Some(i);
        }
        assert(!dc_at(v@, i as int));
        i = i + 1;
    }
    proof {
        lemma_first_double_colon(v@);
        if let Some(k) = first_double_colon(v@) {
            assert(dc_at(v@, k));
        }
    }
    None
}

/// Reads every token of `toks[..n]` as a hex group.
fn read_hex_groups(toks: &Vec<Vec<char>>, n: usize) -> (r: Option<Vec<u16>>)
    requires
        n <= toks@.len(),
    ensures
        ({
            let t = toks@.take(n as int).map_values(|x: Vec<char>| x@);
            &&& r matches Some(g) ==> all_hex_groups(t) && g@.map_values(|x: u16| x as nat) == hex_values(t)
            &&& r is None ==> !all_hex_groups(t)
        }),
{
    let ghost t = toks@.take(n as int).map_values(|x: Vec<char>| x@);
    let mut out: Vec<u16> = Vec::new();
    let mut i: usize = 0;
    while i < n
        invariant
            i <= n <= toks@.len(),
            t == toks@.take(n as int).map_values(|x: Vec<char>| x@),
            out@.len() == i,
            forall|j: int| 0 <= j < i ==> #[trigger] hex_group(t[j]) == Some(out@[j] as nat),
        decreases n - i,
    {
        assert(t[i as int] == toks@[i as int]@);
        match read_number_field(&toks[i], 16, Some(4), true, 65535) {
            Some(g) => {
                out.push(g as u16);
            },
            None => {
                proof {
                    assert(!(hex_group(t[i as int]) is Some));
                }
                return None;
            },
        }
        i = i + 1;
    }
    assert(out@.map_values(|x: u16| x as nat) =~= hex_values(t));
    Some(out)
}

/// Exec [`ipv6_groups`].
fn read_ipv6_groups(part: &Vec<char>, v4_tail: bool) -> (r: Option<Vec<u16>>)
    ensures
        r matches Some(g) ==> ipv6_groups(part@, v4_tail) == Some(g@.map_values(|x: u16| x as nat)),
        r is None ==> ipv6_groups(part@, v4_tail) is None,
{
    if part.len() == 0 {
        let out: Vec<u16> = Vec::new();
        assert(out@.map_values(|x: u16| x as nat) =~= Seq::<nat>::empty());
        return Some(out);
    }
    let colon: Vec<char> = vec![':'];
    let toks = split_chars(part, &colon);
    let ghost st = split_any(part@, seq![':']);
    assert(colon@ == seq![':']);
    let n = toks.len();
    assert(toks@.map_values(|x: Vec<char>| x@) =~= st);
    assert(toks@.take(n as int) =~= toks@);
    assert(toks@.take((n - 1) as int).map_values(|x: Vec<char>| x@) =~= st.take(n - 1));
    if v4_tail {
        assert(toks@[n - 1]@ == st[n - 1]);
        if let Some(o) = read_ipv4(&toks[n - 1]) {
            if let Some(front) = read_hex_groups(&toks, n - 1) {
                let mut out = front;
                let hi: u16 = (o.0 as u16) * 256 + (o.1 as u16);
                let lo: u16 = (o.2 as u16) * 256 + (o.3 as u16);
                let ghost f = out@;
                out.push(hi);
                out.push(lo);
                proof {
                    assert(out@.map_values(|x: u16| x as nat) =~= f.map_values(|x: u16| x as nat)
                        + seq![hi as nat, lo as nat]);
                }
                return Some(out);
            }
        }
    }
    let all = read_hex_groups(&toks, n);
    all
}

/// Exec [`ipv6_segments`].
fn read_ipv6(v: &Vec<char>) -> (r: Option<[u16; 8]>)
    ensures
        r matches Some(g) ==> ipv6_segments(v@) == Some(g@.map_values(|x: u16| x as nat)),
        r is None ==> ipv6_segments(v@) is None,
{
    match find_double_colon(v) {
        None => {
            match read_ipv6_groups(v, true) {
                Some(g) => {
                    if g.len() == 8 {
                        let a = [g[0], g[1], g[2], g[3], g[4], g[5], g[6], g[7]];
                        assert(a@.map_values(|x: u16| x as nat) =~= g@.map_values(|x: u16| x as nat));
                        Some(a)
                    } else {
                        None
                    }
                },
                None => None,
            }
        },
        Some(d) => {
            proof {
                lemma_first_double_colon(v@);
                assert(first_double_colon(v@) == Some(d as int));
                assert(d + 2 <= v@.len());
                assert(v@.len() == v.len());
            }
            let head = slice_chars(v, 0, d);
            let tail = slice_chars(v, d + 2, v.len());
            assert(head@ =~= v@.take(d as int));
            assert(tail@ =~= v@.skip(d + 2));
            let h = read_ipv6_groups(&head, false);
            let k = read_ipv6_groups(&tail, true);
            match (h, k) {
                (Some(h), Some(k)) => {
                    if h.len() <= 7 && k.len() <= 7 - h.len() {
                        let mut a: [u16; 8] = [0u16; 8];
                        let zeros = 8 - h.len() - k.len();
                        let mut i: usize = 0;
                        while i < h.len()
                            invariant
                                i <= h.len(),
                                h.len() + k.len() <= 7,
                                forall|j: int| 0 <= j < i ==> a@[j] == h@[j],
                                forall|j: int| i <= j < 8 ==> a@[j] == 0,
                            decreases h.len() - i,
                        {
                            a[i] = h[i];
                            i = i + 1;
                        }
                        let mut j: usize = 0;
                        while j < k.len()
                            invariant
                                j <= k.len(),
                                h.len() + k.len() <= 7,
                                zeros == 8 - h.len() - k.len(),
                                forall|x: int| 0 <= x < h.len() ==> a@[x] == h@[x],
                                forall|x: int| h.len() <= x < h.len() + zeros ==> a@[x] == 0,
                                forall|x: int| 0 <= x < j ==> a@[h.len() + zeros + x] == k@[x],
                            decreases k.len() - j,
                        {
                            a[h.len() + zeros + j] = k[j];
                            j = j + 1;
                        }
                        let ghost hv = h@.map_values(|x: u16| x as nat);
                        let ghost kv = k@.map_values(|x: u16| x as nat);
                        assert(a@.map_values(|x: u16| x as nat) =~= hv + Seq::new(zeros as nat, |i: int| 0nat) + kv);
                        Some(a)
                    } else {
                        None
                    }
                },
                _ => None,
            }
        },
    }
}


// --------------------------------------------------- addresses from text

pub open spec fn v4_of(o: Seq<nat>) -> IpAddress {
    IpAddress::V4(o[0] as u8, o[1] as u8, o[2] as u8, o[3] as u8)
}

pub open spec fn v6_of(g: Seq<nat>) -> IpAddress {
    IpAddress::V6(g[0] as u16, g[1] as u16, g[2] as u16, g[3] as u16, g[4] as u16, g[5] as u16, g[6] as u16, g[7] as u16)
}

/// The IP address `std::net::IpAddr::from_str` reads from `s`.
pub open spec fn ip_address_syntax(s: Seq<char>) -> Option<IpAddress> {
    match ipv4_octets(s) {
        Some(o) => Some(v4_of(o)),
        None => match ipv6_segments(s) {
            Some(g) => Some(v6_of(g)),
            None => None,
        },
    }
}

/// The socket address `std::net::SocketAddr::from_str` reads from `s`:
/// `a.b.c.d:port`, or `[ipv6]:port` with an optional `%scope` after the
/// IPv6 text; the port (and scope) are decimal, leading zeros allowed.
pub open spec fn socket_address_syntax(s: Seq<char>) -> Option<SocketAddress> {
    if s.len() > 0 && s[0] == '[' {
        match index_of(s, ']') {
            None => None,
            Some(j) => {
                let inner = s.subrange(1, j);
                let rest = s.skip(j + 1);
                let port = if rest.len() >= 1 && rest[0] == ':' {
                    number_field(rest.skip(1), 10, None, true, 65535)
                } else {
                    None
                };
                let addr = match index_of(inner, '%') {
                    None => inner,
                    Some(p) => inner.take(p),
                };
                let scope = match index_of(inner, '%') {
                    None => Some(0nat),
                    Some(p) => number_field(inner.skip(p + 1), 10, None, true, 0xffff_ffff),
                };
                match (ipv6_segments(addr), scope, port) {
                    (Some(g), Some(sc), Some(pt)) => Some(
                        SocketAddress { ip: v6_of(g), port: pt as u16, scope_id: sc as u32 },
                    ),
                    _ => None,
                }
            },
        }
    } else {
        match index_of(s, ':') {
            None => None,
            Some(p) => match (ipv4_octets(s.take(p)), number_field(s.skip(p + 1), 10, None, true, 65535)) {
                (Some(o), Some(pt)) => Some(SocketAddress { ip: v4_of(o), port: pt as u16, scope_id: 0 }),
                _ => None,
            },
        }
    }
}

impl IpAddress {
    /// Reads an IP address the way `std::net::IpAddr::from_str` does.
    pub fn parse_chars(v: &Vec<char>) -> (r: Option<IpAddress>)
        ensures
            r == ip_address_syntax(v@),
    {
        match read_ipv4(v) {
            Some(o) => Some(IpAddress::V4(o.0, o.1, o.2, o.3)),
            None => match read_ipv6(v) {
                Some(g) => {
                    proof {
                        assert(g@.map_values(|x: u16| x as nat)[0] == g@[0] as nat);
                    }
                    Some(IpAddress::V6(g[0], g[1], g[2], g[3], g[4], g[5], g[6], g[7]))
                },
                None => None,
            },
        }
    }

    /// Reads an IP address the way `std::net::IpAddr::from_str` does.
    pub fn parse(text: &str) -> (r: Option<IpAddress>)
        ensures
            r == ip_address_syntax(text@),
    {
        IpAddress::parse_chars(&crate::text::chars_of(text))
    }

    /// Whether this is a loopback address (`127.0.0.0/8` or `::1`).
    pub open spec fn spec_is_loopback(self) -> bool {
        match self {
            IpAddress::V4(a, _, _, _) => a == 127,
            IpAddress::V6(a, b, c, d, e, f, g, h) => a == 0 && b == 0 && c == 0 && d == 0 && e == 0
                && f == 0 && g == 0 && h == 1,
        }
    }

    /// Whether this is a loopback address (`127.0.0.0/8` or `::1`).
    pub fn is_loopback(&self) -> (r: bool)
        ensures
            r == self.spec_is_loopback(),
    {
        match *self {
            IpAddress::V4(a, _, _, _) => a == 127,
            IpAddress::V6(a, b, c, d, e, f, g, h) => a == 0 && b == 0 && c == 0 && d == 0 && e == 0
                && f == 0 && g == 0 && h == 1,
        }
    }

    /// Whether this is an IPv6 address.
    pub fn is_ipv6(&self) -> (r: bool)
        ensures
            r == (*self is V6),
    {
        match self {
            IpAddress::V6(..) => true,
            _ => false,
        }
    }
}

impl SocketAddress {
    /// Reads a socket address the way `std::net::SocketAddr::from_str` does.
    pub fn parse_chars(v: &Vec<char>) -> (r: Option<SocketAddress>)
        ensures
            r == socket_address_syntax(v@),
    {
        proof {
            lemma_index_of(v@, ']');
            lemma_index_of(v@, ':');
        }
        if v.len() > 0 && v[0] == '[' {
            match find_char(v, ']') {
                None => None,
                Some(j) => {
                    let inner = slice_chars(v, 1, j);
                    let rest = slice_chars(v, j + 1, v.len());
                    assert(rest@ =~= v@.skip(j + 1));
                    let port = if rest.len() >= 1 && rest[0] == ':' {
                        let digits = slice_chars(&rest, 1, rest.len());
                        assert(digits@ =~= rest@.skip(1));
                        read_number_field(&digits, 10, None, true, 65535)
                    } else {
                        None
                    };
                    proof {
                        lemma_index_of(inner@, '%');
                    }
                    let (addr, scope) = match find_char(&inner, '%') {
                        None => (inner, Some(0u32)),
                        Some(p) => {
                            let a = slice_chars(&inner, 0, p);
                            let sc = slice_chars(&inner, p + 1, inner.len());
                            assert(a@ =~= inner@.take(p as int));
                            assert(sc@ =~= inner@.skip(p + 1));
                            (a, read_number_field(&sc, 10, None, true, 0xffff_ffff))
                        },
                    };
                    match (read_ipv6(&addr), scope, port) {
                        (Some(g), Some(sc), Some(pt)) => Some(
                            SocketAddress {
                                ip: IpAddress::V6(g[0], g[1], g[2], g[3], g[4], g[5], g[6], g[7]),
                                port: pt as u16,
                                scope_id: sc,
                            },
                        ),
                        _ => None,
                    }
                },
            }
        } else {
            match find_char(v, ':') {
                None => None,
                Some(p) => {
                    let a = slice_chars(v, 0, p);
                    let digits = slice_chars(v, p + 1, v.len());
                    assert(a@ =~= v@.take(p as int));
                    assert(digits@ =~= v@.skip(p + 1));
                    match (read_ipv4(&a), read_number_field(&digits, 10, None, true, 65535)) {
                        (Some(o), Some(pt)) => Some(
                            SocketAddress { ip: IpAddress::V4(o.0, o.1, o.2, o.3), port: pt as u16, scope_id: 0 },
                        ),
                        _ => None,
                    }
                },
            }
        }
    }

    /// Reads a socket address the way `std::net::SocketAddr::from_str` does.
    pub fn parse(text: &str) -> (r: Option<SocketAddress>)
        ensures
            r == socket_address_syntax(text@),
    {
        SocketAddress::parse_chars(&crate::text::chars_of(text))
    }
}


// ----------------------------------------------------- addresses as text

/// The lower-case digit character for `d < 16`.
pub open spec fn digit_char(d: nat) -> char {
    if d < 10 {
        (('0' as u32) + d) as char
    } else {
        (('a' as u32) + d - 10) as char
    }
}

/// `n` written in `radix` (10 or 16), lower case, without leading zeros.
pub open spec fn digits_text(n: nat, radix: nat) -> Seq<char>
    recommends
        radix >= 2,
    decreases n,
    when radix >= 2
{
    if n < radix {
        seq![digit_char(n)]
    } else {
        proof {
            assert(n / radix < n) by (nonlinear_arith)
                requires
                    radix >= 2,
                    n >= radix,
            ;
        }
        digits_text(n / radix, radix).push(digit_char(n % radix))
    }
}

/// Decimal text of `n`.
pub open spec fn decimal(n: nat) -> Seq<char> {
    digits_text(n, 10)
}

/// `n` written in `radix` (10 or 16).
pub fn number_text(n: u64, radix: u64) -> (r: String)
    requires
        radix == 10 || radix == 16,
    ensures
        r@ == digits_text(n as nat, radix as nat),
{
    // Digits come least significant first; `rev` holds them reversed.
    let mut rev: Vec<char> = Vec::new();
    let mut m: u64 = n;
    while m >= radix
        invariant
            radix == 10 || radix == 16,
            digits_text(n as nat, radix as nat) == digits_text(m as nat, radix as nat) + rev@.reverse(),
        decreases m,
    {
        let d: u64 = m % radix;
        let c: char = if d < 10 { ((48 + d) as u8) as char } else { ((87 + d) as u8) as char };
        assert(c == digit_char(d as nat));
        let ghost old_rev = rev@;
        rev.push(c);
        proof {
            assert(rev@.reverse() =~= seq![c] + old_rev.reverse());
            assert(digits_text(m as nat, radix as nat) == digits_text((m / radix) as nat, radix as nat).push(c));
            assert(digits_text(m as nat, radix as nat) + old_rev.reverse() =~= digits_text((m / radix) as nat, radix as nat) + rev@.reverse());
        }
        m = m / radix;
    }
    let c: char = if m < 10 { ((48 + m) as u8) as char } else { ((87 + m) as u8) as char };
    assert(c == digit_char(m as nat));
    assert(digits_text(m as nat, radix as nat) == seq![c]);
    let mut out: Vec<char> = Vec::new();
    out.push(c);
    let mut i: usize = rev.len();
    while i > 0
        invariant
            i <= rev.len(),
            out@ == seq![c] + rev@.reverse().take(rev.len() - i),
        decreases i,
    {
        i = i - 1;
        out.push(rev[i]);
        proof {
            assert(rev@.reverse().take(rev.len() - i) =~= rev@.reverse().take(rev.len() - i - 1).push(rev@[i as int]));
        }
    }
    assert(out@ =~= seq![c] + rev@.reverse());
    string_of(&out)
}

/// Decimal text of `n`.
pub fn decimal_text(n: u64) -> (r: String)
    ensures
        r@ == decimal(n as nat),
{
    number_text(n, 10)
}

pub open spec fn ipv4_text(a: u8, b: u8, c: u8, d: u8) -> Seq<char> {
    decimal(a as nat) + seq!['.'] + decimal(b as nat) + seq!['.'] + decimal(c as nat) + seq!['.']
        + decimal(d as nat)
}

/// Colon-separated lower-case hex groups.
pub open spec fn join_hex(gs: Seq<nat>) -> Seq<char>
    decreases gs.len(),
{
    if gs.len() == 0 {
        Seq::<char>::empty()
    } else if gs.len() == 1 {
        digits_text(gs[0], 16)
    } else {
        join_hex(gs.drop_last()) + seq![':'] + digits_text(gs.last(), 16)
    }
}

/// The first longest run of zero segments, scanning from `i` with the
/// current run `(cs, cl)` and the best so far `(bs, bl)`.
pub open spec fn zero_run(gs: Seq<nat>, i: int, cs: int, cl: int, bs: int, bl: int) -> (int, int)
    decreases gs.len() - i,
{
    if i >= gs.len() || i < 0 {
        (bs, bl)
    } else if gs[i] == 0 {
        let ncs = if cl == 0 { i } else { cs };
        let ncl = cl + 1;
        if ncl > bl {
            zero_run(gs, i + 1, ncs, ncl, ncs, ncl)
        } else {
            zero_run(gs, i + 1, ncs, ncl, bs, bl)
        }
    } else {
        zero_run(gs, i + 1, 0, 0, bs, bl)
    }
}

pub open spec fn segments_of(ip: IpAddress) -> Seq<nat> {
    match ip {
        IpAddress::V6(a, b, c, d, e, f, g, h) => seq![a as nat, b as nat, c as nat, d as nat, e as nat, f as nat, g as nat, h as nat],
        IpAddress::V4(..) => Seq::<nat>::empty(),
    }
}

/// The text `Display` writes for an IPv6 address: an IPv4-mapped address
/// as `::ffff:a.b.c.d`; otherwise hex groups with the first longest run
/// of two or more zero groups written as `::`.
pub open spec fn ipv6_text(g: Seq<nat>) -> Seq<char> {
    if g[0] == 0 && g[1] == 0 && g[2] == 0 && g[3] == 0 && g[4] == 0 && g[5] == 0xffff {
        "::ffff:"@ + ipv4_text((g[6] / 256) as u8, (g[6] % 256) as u8, (g[7] / 256) as u8, (g[7] % 256) as u8)
    } else {
        let (st, len) = zero_run(g, 0, 0, 0, 0, 0);
        if len > 1 {
            join_hex(g.take(st)) + "::"@ + join_hex(g.skip(st + len))
        } else {
            join_hex(g)
        }
    }
}

/// The text `Display` writes for an IP address.
pub open spec fn ip_text(ip: IpAddress) -> Seq<char> {
    match ip {
        IpAddress::V4(a, b, c, d) => ipv4_text(a, b, c, d),
        IpAddress::V6(..) => ipv6_text(segments_of(ip)),
    }
}

/// The text `Display` writes for a socket address.
pub open spec fn socket_text(a: SocketAddress) -> Seq<char> {
    match a.ip {
        IpAddress::V4(..) => ip_text(a.ip) + seq![':'] + decimal(a.port as nat),
        IpAddress::V6(..) => if a.scope_id == 0 {
            seq!['['] + ip_text(a.ip) + "]:"@ + decimal(a.port as nat)
        } else {
            seq!['['] + ip_text(a.ip) + seq!['%'] + decimal(a.scope_id as nat) + "]:"@ + decimal(
                a.port as nat,
            )
        },
    }
}

fn ipv4_string(a: u8, b: u8, c: u8, d: u8) -> (r: String)
    ensures
        r@ == ipv4_text(a, b, c, d),
{
    let mut s = decimal_text(a as u64);
    s.append(".");
    s.append(decimal_text(b as u64).as_str());
    s.append(".");
    s.append(decimal_text(c as u64).as_str());
    s.append(".");
    s.append(decimal_text(d as u64).as_str());
    proof {
        reveal_strlit(".");
    }
    s
}

fn join_hex_string(g: &[u16; 8], lo: usize, hi: usize) -> (r: String)
    requires
        lo <= hi <= 8,
    ensures
        r@ == join_hex(g@.map_values(|x: u16| x as nat).subrange(lo as int, hi as int)),
{
    let ghost gs = g@.map_values(|x: u16| x as nat);
    let mut s = String::new();
    let mut i: usize = lo;
    while i < hi
        invariant
            lo <= i <= hi <= 8,
            gs == g@.map_values(|x: u16| x as nat),
            s@ == join_hex(gs.subrange(lo as int, i as int)),
        decreases hi - i,
    {
        if i > lo {
            s.append(":");
            proof {
                reveal_strlit(":");
            }
        }
        s.append(number_text(g[i] as u64, 16).as_str());
        proof {
            assert(gs.subrange(lo as int, i + 1).drop_last() =~= gs.subrange(lo as int, i as int));
        }
        i = i + 1;
    }
    s
}

fn ipv6_string(g: &[u16; 8]) -> (r: String)
    ensures
        r@ == ipv6_text(g@.map_values(|x: u16| x as nat)),
{
    let ghost gs = g@.map_values(|x: u16| x as nat);
    if g[0] == 0 && g[1] == 0 && g[2] == 0 && g[3] == 0 && g[4] == 0 && g[5] == 0xffff {
        let mut s = String::from_str("::ffff:");
        let v4 = ipv4_string((g[6] / 256) as u8, (g[6] % 256) as u8, (g[7] / 256) as u8, (g[7] % 256) as u8);
        s.append(v4.as_str());
        return s;
    }
    let mut cs: usize = 0;
    let mut cl: usize = 0;
    let mut bs: usize = 0;
    let mut bl: usize = 0;
    let mut i: usize = 0;
    while i < 8
        invariant
            i <= 8,
            cl <= i,
            bl <= i,
            bs + bl <= 8,
            cs + cl <= i,
            gs == g@.map_values(|x: u16| x as nat),
            zero_run(gs, 0, 0, 0, 0, 0) == zero_run(gs, i as int, cs as int, cl as int, bs as int, bl as int),
        decreases 8 - i,
    {
        if g[i] == 0 {
            if cl == 0 {
                cs = i;
            }
            cl = cl + 1;
            if cl > bl {
                bs = cs;
                bl = cl;
            }
        } else {
            cs = 0;
            cl = 0;
        }
        i = i + 1;
    }
    if bl > 1 {
        let mut s = join_hex_string(g, 0, bs);
        s.append("::");
        s.append(join_hex_string(g, bs + bl, 8).as_str());
        proof {
            assert(gs.subrange(0, bs as int) =~= gs.take(bs as int));
            assert(gs.subrange((bs + bl) as int, 8) =~= gs.skip((bs + bl) as int));
        }
        s
    } else {
        let s = join_hex_string(g, 0, 8);
        proof {
            assert(gs.subrange(0, 8) =~= gs);
        }
        s
    }
}

impl IpAddress {
    /// The text `Display` writes for this address.
    pub fn to_string(&self) -> (r: String)
        ensures
            r@ == ip_text(*self),
    {
        match *self {
            IpAddress::V4(a, b, c, d) => ipv4_string(a, b, c, d),
            IpAddress::V6(a, b, c, d, e, f, g, h) => {
                let arr = [a, b, c, d, e, f, g, h];
                assert(arr@.map_values(|x: u16| x as nat) =~= segments_of(*self));
                ipv6_string(&arr)
            },
        }
    }
}

impl SocketAddress {
    /// The text `Display` writes for this address.
    pub fn to_string(&self) -> (r: String)
        ensures
            r@ == socket_text(*self),
    {
        let ip = self.ip.to_string();
        let port = decimal_text(self.port as u64);
        match self.ip {
            IpAddress::V4(..) => {
                let mut s = ip;
                s.append(":");
                s.append(port.as_str());
                proof {
                    reveal_strlit(":");
                }
                s
            },
            IpAddress::V6(..) => {
                let mut s = String::from_str("[");
                s.append(ip.as_str());
                if self.scope_id != 0 {
                    s.append("%");
                    s.append(decimal_text(self.scope_id as u64).as_str());
                }
                s.append("]:");
                s.append(port.as_str());
                proof {
                    reveal_strlit("[");
                    reveal_strlit("%");
                }
                s
            },
        }
    }
}


/// Nothing parses from empty text.
pub proof fn lemma_empty_is_no_socket_address(s: Seq<char>)
    requires
        s.len() == 0,
    ensures
        socket_address_syntax(s) is None,
{
    assert(index_of(s, ':') is None);
}

// ---------------------------------------------------------- letter case

/// The pieces of a split, each lower-cased.
pub open spec fn lower_each(ts: Seq<Seq<char>>) -> Seq<Seq<char>> {
    Seq::new(ts.len(), |i: int| ascii_lower(ts[i]))
}

/// Lower-casing a character keeps its digit class and value, and touches
/// neither digits nor the punctuation of address texts.
proof fn lemma_lower_char(c: char)
    ensures
        is_digit_of(ascii_lower_char(c), 16) == is_digit_of(c, 16),
        is_digit_of(ascii_lower_char(c), 10) == is_digit_of(c, 10),
        is_digit_of(c, 10) ==> ascii_lower_char(c) == c,
        is_digit_of(c, 16) ==> digit_value(ascii_lower_char(c)) == digit_value(c),
        (ascii_lower_char(c) == '0') == (c == '0'),
        (ascii_lower_char(c) == '.') == (c == '.'),
        (ascii_lower_char(c) == ':') == (c == ':'),
        (ascii_lower_char(c) == ']') == (c == ']'),
        (ascii_lower_char(c) == '%') == (c == '%'),
        (ascii_lower_char(c) == '[') == (c == '['),
{
}

proof fn lemma_lower_index_of(s: Seq<char>, c: char)
    requires
        c == ']' || c == '%' || c == ':',
    ensures
        index_of(ascii_lower(s), c) == index_of(s, c),
    decreases s.len(),
{
    if s.len() > 0 {
        lemma_lower_char(s[0]);
        assert(ascii_lower(s).drop_first() =~= ascii_lower(s.drop_first()));
        lemma_lower_index_of(s.drop_first(), c);
    }
}

proof fn lemma_lower_number_value(s: Seq<char>, radix: nat)
    requires
        forall|i: int| 0 <= i < s.len() ==> is_digit_of(#[trigger] s[i], 16),
    ensures
        number_value(ascii_lower(s), radix) == number_value(s, radix),
    decreases s.len(),
{
    if s.len() > 0 {
        assert(ascii_lower(s).drop_last() =~= ascii_lower(s.drop_last()));
        lemma_lower_number_value(s.drop_last(), radix);
        lemma_lower_char(s.last());
    }
}

/// A decimal or hexadecimal field reads the same in either letter case.
proof fn lemma_lower_number_field(s: Seq<char>, radix: nat, m: Option<nat>, z: bool, b: nat)
    requires
        radix == 10 || radix == 16,
    ensures
        number_field(ascii_lower(s), radix, m, z, b) == number_field(s, radix, m, z, b),
{
    let t = ascii_lower(s);
    if forall|i: int| 0 <= i < s.len() ==> is_digit_of(#[trigger] s[i], radix) {
        assert forall|i: int| 0 <= i < t.len() implies is_digit_of(#[trigger] t[i], radix) by {
            lemma_lower_char(s[i]);
        }
        assert forall|i: int| 0 <= i < s.len() implies is_digit_of(#[trigger] s[i], 16) by {}
        lemma_lower_number_value(s, radix);
        if s.len() > 0 {
            lemma_lower_char(s[0]);
        }
    } else {
        let i = choose|i: int| 0 <= i < s.len() && !is_digit_of(#[trigger] s[i], radix);
        lemma_lower_char(s[i]);
        assert(!is_digit_of(t[i], radix));
    }
}

/// Splitting at separators that lower-casing leaves alone commutes with
/// lower-casing.
proof fn lemma_lower_split(s: Seq<char>, seps: Seq<char>)
    requires
        forall|c: char| #[trigger] seps.contains(ascii_lower_char(c)) == seps.contains(c),
    ensures
        split_any(ascii_lower(s), seps) == lower_each(split_any(s, seps)),
    decreases s.len(),
{
    let t = ascii_lower(s);
    let e = Seq::<char>::empty();
    assert(ascii_lower(e) =~= e);
    if s.len() == 0 {
        assert(t =~= e);
        assert(lower_each(split_any(s, seps)) =~= seq![e]);
    } else {
        assert(t.drop_last() =~= ascii_lower(s.drop_last()));
        lemma_lower_split(s.drop_last(), seps);
        lemma_split_any_nonempty(s.drop_last(), seps);
        let r = split_any(s.drop_last(), seps);
        let rl = lower_each(r);
        assert(t.last() == ascii_lower_char(s.last()));
        assert(seps.contains(t.last()) == seps.contains(s.last()));
        if seps.contains(s.last()) {
            assert(rl.push(e) =~= lower_each(r.push(e)));
        } else {
            let n = r.len();
            assert(ascii_lower(r.last().push(s.last())) =~= rl.last().push(t.last()));
            assert(rl.update(n - 1, rl.last().push(t.last())) =~= lower_each(
                r.update(n - 1, r.last().push(s.last())),
            ));
        }
    }
}

/// Lower-casing neither makes nor unmakes the separator `sep`.
proof fn lemma_lower_keeps_sep(sep: char)
    requires
        sep == '.' || sep == ':',
    ensures
        forall|c: char| #[trigger] seq![sep].contains(ascii_lower_char(c)) == seq![sep].contains(c),
{
    assert forall|c: char| #[trigger] seq![sep].contains(ascii_lower_char(c)) == seq![sep].contains(c) by {
        let x = seq![sep];
        lemma_lower_char(c);
        if c == sep {
            assert(x[0] == c);
        }
        if ascii_lower_char(c) == sep {
            assert(x[0] == ascii_lower_char(c));
        }
    }
}

proof fn lemma_lower_ipv4(s: Seq<char>)
    ensures
        ipv4_octets(ascii_lower(s)) == ipv4_octets(s),
{
    lemma_lower_keeps_sep('.');
    lemma_lower_split(s, seq!['.']);
    let toks = split_any(s, seq!['.']);
    let lt = split_any(ascii_lower(s), seq!['.']);
    assert forall|i: int| 0 <= i < toks.len() implies #[trigger] number_field(
        lt[i],
        10,
        Some(3),
        false,
        255,
    ) == number_field(toks[i], 10, Some(3), false, 255) by {
        lemma_lower_number_field(toks[i], 10, Some(3nat), false, 255);
    }
    if toks.len() == 4 {
        let ok = forall|i: int| 0 <= i < 4 ==> #[trigger] number_field(toks[i], 10, Some(3), false, 255) is Some;
        let lok = forall|i: int| 0 <= i < 4 ==> #[trigger] number_field(lt[i], 10, Some(3), false, 255) is Some;
        if ok {
            assert(lok);
        } else {
            let i = choose|i: int| 0 <= i < 4 && !(#[trigger] number_field(toks[i], 10, Some(3), false, 255) is Some);
            assert(!(number_field(lt[i], 10, Some(3), false, 255) is Some));
        }
        assert(Seq::new(4, |i: int| number_field(lt[i], 10, Some(3), false, 255).unwrap()) =~= Seq::new(
            4,
            |i: int| number_field(toks[i], 10, Some(3), false, 255).unwrap(),
        ));
    }
}

proof fn lemma_lower_hex_groups(toks: Seq<Seq<char>>)
    ensures
        all_hex_groups(lower_each(toks)) == all_hex_groups(toks),
        hex_values(lower_each(toks)) == hex_values(toks),
{
    let lt = lower_each(toks);
    assert forall|i: int| 0 <= i < toks.len() implies #[trigger] hex_group(lt[i]) == hex_group(toks[i]) by {
        lemma_lower_number_field(toks[i], 16, Some(4nat), true, 65535);
    }
    if all_hex_groups(toks) {
        assert(all_hex_groups(lt));
    } else {
        let i = choose|i: int| 0 <= i < toks.len() && !(#[trigger] hex_group(toks[i]) is Some);
        assert(!(hex_group(lt[i]) is Some));
    }
    assert(hex_values(lt) =~= hex_values(toks));
}

proof fn lemma_lower_ipv6_groups(part: Seq<char>, v4_tail: bool)
    ensures
        ipv6_groups(ascii_lower(part), v4_tail) == ipv6_groups(part, v4_tail),
{
    if part.len() > 0 {
        lemma_lower_keeps_sep(':');
        lemma_lower_split(part, seq![':']);
        lemma_split_any_nonempty(part, seq![':']);
        let toks = split_any(part, seq![':']);
        let n = toks.len();
        let lt = lower_each(toks);
        assert(lt.take(n - 1) =~= lower_each(toks.take(n - 1)));
        lemma_lower_hex_groups(toks);
        lemma_lower_hex_groups(toks.take(n - 1));
        lemma_lower_ipv4(toks[n - 1]);
        assert(lt[n - 1] == ascii_lower(toks[n - 1]));
    }
}

proof fn lemma_lower_double_colon(s: Seq<char>)
    ensures
        first_double_colon(ascii_lower(s)) == first_double_colon(s),
    decreases s.len(),
{
    if s.len() >= 2 {
        lemma_lower_char(s[0]);
        lemma_lower_char(s[1]);
        assert(ascii_lower(s).drop_first() =~= ascii_lower(s.drop_first()));
        lemma_lower_double_colon(s.drop_first());
    }
}

proof fn lemma_lower_ipv6(s: Seq<char>)
    ensures
        ipv6_segments(ascii_lower(s)) == ipv6_segments(s),
{
    lemma_lower_double_colon(s);
    lemma_first_double_colon(s);
    match first_double_colon(s) {
        None => {
            lemma_lower_ipv6_groups(s, true);
        },
        Some(d) => {
            assert(ascii_lower(s).take(d) =~= ascii_lower(s.take(d)));
            assert(ascii_lower(s).skip(d + 2) =~= ascii_lower(s.skip(d + 2)));
            lemma_lower_ipv6_groups(s.take(d), false);
            lemma_lower_ipv6_groups(s.skip(d + 2), true);
        },
    }
}

/// Hex groups are read in either letter case: a text and its ASCII
/// lower-cased form denote the same IP address, or both none
/// (`2001:DB8::1` is `2001:db8::1`).
pub proof fn law_ip_text_ignores_case(s: Seq<char>)
    ensures
        ip_address_syntax(ascii_lower(s)) == ip_address_syntax(s),
{
    lemma_lower_ipv4(s);
    lemma_lower_ipv6(s);
}

/// Socket address texts ignore letter case too: `[2001:DB8::1]:2408`
/// is `[2001:db8::1]:2408`.
pub proof fn law_socket_text_ignores_case(s: Seq<char>)
    ensures
        socket_address_syntax(ascii_lower(s)) == socket_address_syntax(s),
{
    let t = ascii_lower(s);
    if s.len() > 0 {
        lemma_lower_char(s[0]);
    }
    if s.len() > 0 && s[0] == '[' {
        lemma_lower_index_of(s, ']');
        lemma_index_of(s, ']');
        match index_of(s, ']') {
            None => {},
            Some(j) => {
                let inner = s.subrange(1, j);
                let rest = s.skip(j + 1);
                assert(t.subrange(1, j) =~= ascii_lower(inner));
                assert(t.skip(j + 1) =~= ascii_lower(rest));
                if rest.len() >= 1 {
                    lemma_lower_char(rest[0]);
                    assert(ascii_lower(rest).skip(1) =~= ascii_lower(rest.skip(1)));
                    lemma_lower_number_field(rest.skip(1), 10, None, true, 65535);
                }
                lemma_lower_index_of(inner, '%');
                lemma_index_of(inner, '%');
                match index_of(inner, '%') {
                    None => {
                        lemma_lower_ipv6(inner);
                    },
                    Some(p) => {
                        assert(ascii_lower(inner).take(p) =~= ascii_lower(inner.take(p)));
                        assert(ascii_lower(inner).skip(p + 1) =~= ascii_lower(inner.skip(p + 1)));
                        lemma_lower_ipv6(inner.take(p));
                        lemma_lower_number_field(inner.skip(p + 1), 10, None, true, 0xffff_ffff);
                    },
                }
            },
        }
    } else {
        lemma_lower_index_of(s, ':');
        lemma_index_of(s, ':');
        match index_of(s, ':') {
            None => {},
            Some(p) => {
                assert(t.take(p) =~= ascii_lower(s.take(p)));
                assert(t.skip(p + 1) =~= ascii_lower(s.skip(p + 1)));
                lemma_lower_ipv4(s.take(p));
                lemma_lower_number_field(s.skip(p + 1), 10, None, true, 65535);
            },
        }
    }
}

/// A hexadecimal digit is a one-digit group worth 10 to 15 for `a`/`A`
/// through `f`/`F`, in either case.
pub proof fn law_hex_digit_values(c: char)
    requires
        'a' <= c <= 'f' || 'A' <= c <= 'F',
    ensures
        'a' <= c <= 'f' ==> hex_group(seq![c]) == Some((c as u32 - 'a' as u32 + 10) as nat),
        'A' <= c <= 'F' ==> hex_group(seq![c]) == Some((c as u32 - 'A' as u32 + 10) as nat),
{
    let t = seq![c];
    assert(t.drop_last() =~= Seq::<char>::empty());
    assert(t.last() == c);
    assert(number_value(Seq::<char>::empty(), 16) == 0);
    assert(number_value(t, 16) == number_value(t.drop_last(), 16) * 16 + digit_value(c));
    assert(number_value(t, 16) == digit_value(c));
}

// ------------------------------------------------------------ read back

proof fn lemma_digit_char(d: nat, radix: nat)
    requires
        radix == 10 || radix == 16,
        d < radix,
    ensures
        is_digit_of(digit_char(d), radix),
        digit_value(digit_char(d)) == d,
        (digit_char(d) == '0') == (d == 0),
{
}

/// The digits of `n` read back as `n`: at least one digit of `radix`, no
/// leading zero but for `0` itself, and no more digits than `n` needs.
proof fn lemma_digits_text(n: nat, radix: nat)
    requires
        radix == 10 || radix == 16,
    ensures
        digits_text(n, radix).len() >= 1,
        forall|i: int|
            0 <= i < digits_text(n, radix).len() ==> is_digit_of(#[trigger] digits_text(n, radix)[i], radix),
        number_value(digits_text(n, radix), radix) == n,
        digits_text(n, radix)[0] == '0' ==> n == 0,
        n < radix ==> digits_text(n, radix).len() == 1,
        n < radix * radix ==> digits_text(n, radix).len() <= 2,
        n < radix * radix * radix ==> digits_text(n, radix).len() <= 3,
        n < radix * radix * radix * radix ==> digits_text(n, radix).len() <= 4,
    decreases n,
{
    let t = digits_text(n, radix);
    if n < radix {
        lemma_digit_char(n, radix);
        assert(t.drop_last() =~= Seq::<char>::empty());
        assert(number_value(Seq::<char>::empty(), radix) == 0);
    } else {
        let q = n / radix;
        let r = n % radix;
        assert(q < n && q >= 1 && n == q * radix + r && r < radix) by {
            if radix == 10 {
            } else {
            }
        }
        lemma_digits_text(q, radix);
        lemma_digit_char(r, radix);
        let h = digits_text(q, radix);
        assert(t == h.push(digit_char(r)));
        assert(t.drop_last() =~= h);
        assert(t[0] == h[0]);
        assert(n < radix * radix ==> q < radix) by {
            if radix == 10 {
            } else {
            }
        }
        assert(n < radix * radix * radix ==> q < radix * radix) by {
            if radix == 10 {
            } else {
            }
        }
        assert(n < radix * radix * radix * radix ==> q < radix * radix * radix) by {
            if radix == 10 {
            } else {
            }
        }
    }
}

/// A segment's hex text is a valid group worth the segment, with neither
/// `:` nor `.` in it.
proof fn lemma_hex_piece(g: nat)
    requires
        g <= 65535,
    ensures
        hex_group(digits_text(g, 16)) == Some(g),
        digits_text(g, 16).len() >= 1,
        forall|i: int| 0 <= i < digits_text(g, 16).len() ==> #[trigger] digits_text(g, 16)[i] != '.'
            && digits_text(g, 16)[i] != ':',
{
    lemma_digits_text(g, 16);
    let t = digits_text(g, 16);
    assert forall|i: int| 0 <= i < t.len() implies #[trigger] t[i] != '.' && t[i] != ':' by {
        assert(is_digit_of(t[i], 16));
    }
}

/// A decimal octet is a valid IPv4 field worth itself.
proof fn lemma_octet_field(n: nat)
    requires
        n <= 255,
    ensures
        number_field(decimal(n), 10, Some(3), false, 255) == Some(n),
        forall|i: int| 0 <= i < decimal(n).len() ==> #[trigger] decimal(n)[i] != '.' && decimal(n)[i] != ':',
{
    lemma_digits_text(n, 10);
    let t = decimal(n);
    assert forall|i: int| 0 <= i < t.len() implies #[trigger] t[i] != '.' && t[i] != ':' by {
        assert(is_digit_of(t[i], 10));
    }
}

/// A piece without separators does not split.
proof fn lemma_split_plain(x: Seq<char>, seps: Seq<char>)
    requires
        forall|i: int| 0 <= i < x.len() ==> !seps.contains(#[trigger] x[i]),
    ensures
        split_any(x, seps) == seq![x],
    decreases x.len(),
{
    if x.len() > 0 {
        lemma_split_plain(x.drop_last(), seps);
        assert(!seps.contains(x[x.len() - 1]));
        assert(x.drop_last().push(x.last()) =~= x);
        assert(seq![x.drop_last()].update(0, x.drop_last().push(x.last())) =~= seq![x]);
    } else {
        assert(x =~= Seq::<char>::empty());
    }
}

/// A separator-free piece, a separator, then the rest: the piece comes
/// first, then the pieces of the rest.
proof fn lemma_split_after(x: Seq<char>, c: char, y: Seq<char>, seps: Seq<char>)
    requires
        seps.contains(c),
        forall|i: int| 0 <= i < x.len() ==> !seps.contains(#[trigger] x[i]),
    ensures
        split_any(x + seq![c] + y, seps) == seq![x] + split_any(y, seps),
    decreases y.len(),
{
    let w = x + seq![c] + y;
    let e = Seq::<char>::empty();
    if y.len() == 0 {
        assert(w.drop_last() =~= x);
        assert(w.last() == c);
        lemma_split_plain(x, seps);
        assert(split_any(y, seps) == seq![e]);
        assert(seq![x].push(e) =~= seq![x] + seq![e]);
    } else {
        assert(w.drop_last() =~= x + seq![c] + y.drop_last());
        assert(w.last() == y.last());
        lemma_split_after(x, c, y.drop_last(), seps);
        lemma_split_any_nonempty(y.drop_last(), seps);
        let r = split_any(y.drop_last(), seps);
        if seps.contains(y.last()) {
            assert((seq![x] + r).push(e) =~= seq![x] + r.push(e));
        } else {
            let u = seq![x] + r;
            assert(u.last() == r.last());
            assert(u.update(u.len() - 1, u.last().push(y.last())) =~= seq![x] + r.update(
                r.len() - 1,
                r.last().push(y.last()),
            ));
        }
    }
}

/// An IPv4 text is decimal digits and dots, starting with a digit.
proof fn lemma_ipv4_text_chars(a: u8, b: u8, c: u8, d: u8)
    ensures
        ipv4_text(a, b, c, d).len() >= 1,
        is_digit_of(ipv4_text(a, b, c, d)[0], 10),
        forall|i: int|
            0 <= i < ipv4_text(a, b, c, d).len() ==> is_digit_of(#[trigger] ipv4_text(a, b, c, d)[i], 10)
                || ipv4_text(a, b, c, d)[i] == '.',
{
    let t = ipv4_text(a, b, c, d);
    let (da, db, dc, dd) = (decimal(a as nat), decimal(b as nat), decimal(c as nat), decimal(d as nat));
    lemma_digits_text(a as nat, 10);
    lemma_digits_text(b as nat, 10);
    lemma_digits_text(c as nat, 10);
    lemma_digits_text(d as nat, 10);
    assert(t[0] == da[0]);
    assert forall|i: int| 0 <= i < t.len() implies is_digit_of(#[trigger] t[i], 10) || t[i] == '.' by {
        if i < da.len() {
            assert(t[i] == da[i]);
        } else if i == da.len() {
        } else if i < da.len() + 1 + db.len() {
            assert(t[i] == db[i - da.len() - 1]);
        } else if i == da.len() + 1 + db.len() {
        } else if i < da.len() + 2 + db.len() + dc.len() {
            assert(t[i] == dc[i - da.len() - db.len() - 2]);
        } else if i == da.len() + 2 + db.len() + dc.len() {
        } else {
            assert(t[i] == dd[i - da.len() - db.len() - dc.len() - 3]);
        }
    }
}

/// The text written for an IPv4 address reads back as that address.
pub proof fn law_ipv4_text_reads_back(a: u8, b: u8, c: u8, d: u8)
    ensures
        ipv4_octets(ipv4_text(a, b, c, d)) == Some(seq![a as nat, b as nat, c as nat, d as nat]),
        ip_address_syntax(ip_text(IpAddress::V4(a, b, c, d))) == Some(IpAddress::V4(a, b, c, d)),
{
    let (da, db, dc, dd) = (decimal(a as nat), decimal(b as nat), decimal(c as nat), decimal(d as nat));
    lemma_octet_field(a as nat);
    lemma_octet_field(b as nat);
    lemma_octet_field(c as nat);
    lemma_octet_field(d as nat);
    let dot = seq!['.'];
    assert(dot.contains('.')) by {
        assert(dot[0] == '.');
    }
    assert forall|x: char| x != '.' implies !dot.contains(x) by {}
    let t = ipv4_text(a, b, c, d);
    assert(t =~= da + seq!['.'] + (db + seq!['.'] + (dc + seq!['.'] + dd)));
    lemma_split_after(dc, '.', dd, dot);
    lemma_split_after(db, '.', dc + seq!['.'] + dd, dot);
    lemma_split_after(da, '.', db + seq!['.'] + (dc + seq!['.'] + dd), dot);
    lemma_split_plain(dd, dot);
    let toks = split_any(t, dot);
    assert(toks =~= seq![da, db, dc, dd]);
    assert(Seq::new(4, |i: int| number_field(toks[i], 10, Some(3), false, 255).unwrap()) =~= seq![
        a as nat,
        b as nat,
        c as nat,
        d as nat,
    ]);
}

/// The text written for an IPv4 socket address reads back as that
/// socket address.
pub proof fn law_ipv4_socket_text_reads_back(a: SocketAddress)
    requires
        a.ip is V4,
        a.scope_id == 0,
    ensures
        socket_address_syntax(socket_text(a)) == Some(a),
{
    if let IpAddress::V4(o0, o1, o2, o3) = a.ip {
        law_ipv4_text_reads_back(o0, o1, o2, o3);
        lemma_ipv4_text_chars(o0, o1, o2, o3);
        let t = ipv4_text(o0, o1, o2, o3);
        let p = decimal(a.port as nat);
        let s = socket_text(a);
        assert(s == t + seq![':'] + p);
        assert(s[0] == t[0]);
        lemma_index_of(s, ':');
        assert(s[t.len() as int] == ':');
        assert(forall|j: int| 0 <= j < t.len() ==> s[j] == t[j]);
        assert(index_of(s, ':') == Some(t.len() as int));
        assert(s.take(t.len() as int) =~= t);
        assert(s.skip(t.len() + 1int) =~= p);
        lemma_digits_text(a.port as nat, 10);
    }
}

/// A separator, then a separator-free piece: the pieces before, then
/// that piece.
proof fn lemma_split_before(x: Seq<char>, c: char, y: Seq<char>, seps: Seq<char>)
    requires
        seps.contains(c),
        forall|i: int| 0 <= i < y.len() ==> !seps.contains(#[trigger] y[i]),
    ensures
        split_any(x + seq![c] + y, seps) == split_any(x, seps).push(y),
    decreases y.len(),
{
    let w = x + seq![c] + y;
    if y.len() == 0 {
        assert(w.drop_last() =~= x);
        assert(w.last() == c);
        assert(y =~= Seq::<char>::empty());
    } else {
        assert(w.drop_last() =~= x + seq![c] + y.drop_last());
        assert(w.last() == y.last());
        assert(!seps.contains(y[y.len() - 1]));
        lemma_split_before(x, c, y.drop_last(), seps);
        let r = split_any(x, seps);
        assert(y.drop_last().push(y.last()) =~= y);
        assert(r.push(y.drop_last()).update(r.len() as int, y.drop_last().push(y.last())) =~= r.push(y));
    }
}

/// The hex texts of some segments.
pub open spec fn hex_pieces(gs: Seq<nat>) -> Seq<Seq<char>> {
    Seq::new(gs.len(), |i: int| digits_text(gs[i], 16))
}

pub open spec fn segments_fit(gs: Seq<nat>) -> bool {
    forall|i: int| 0 <= i < gs.len() ==> #[trigger] gs[i] <= 65535
}

/// Joined hex groups split back into their pieces, which read back as
/// the segments; the text has no `.`, no `::`, and (when not empty)
/// neither starts nor ends with `:`.
proof fn lemma_join_hex(gs: Seq<nat>)
    requires
        segments_fit(gs),
        gs.len() >= 1,
    ensures
        split_any(join_hex(gs), seq![':']) == hex_pieces(gs),
        all_hex_groups(hex_pieces(gs)),
        hex_values(hex_pieces(gs)) == gs,
        forall|i: int| 0 <= i < join_hex(gs).len() ==> #[trigger] join_hex(gs)[i] != '.',
        forall|i: int|
            0 <= i < join_hex(gs).len() ==> is_digit_of(#[trigger] join_hex(gs)[i], 16) || join_hex(gs)[i]
                == ':',
        forall|j: int| !#[trigger] dc_at(join_hex(gs), j),
        join_hex(gs).len() >= 1,
        join_hex(gs)[0] != ':',
        join_hex(gs).last() != ':',
    decreases gs.len(),
{
    let colon = seq![':'];
    assert(colon.contains(':')) by {
        assert(colon[0] == ':');
    }
    assert forall|x: char| x != ':' implies !colon.contains(x) by {}
    let w = join_hex(gs);
    let d = digits_text(gs.last(), 16);
    lemma_hex_piece(gs.last());
    lemma_digits_text(gs.last(), 16);
    assert forall|i: int| 0 <= i < gs.len() implies #[trigger] hex_group(hex_pieces(gs)[i]) == Some(gs[i]) by {
        lemma_hex_piece(gs[i]);
    }
    assert(hex_values(hex_pieces(gs)) =~= gs);
    if gs.len() == 1 {
        lemma_split_plain(d, colon);
        assert(hex_pieces(gs) =~= seq![d]);
    } else {
        let j = join_hex(gs.drop_last());
        lemma_join_hex(gs.drop_last());
        assert(w == j + seq![':'] + d);
        lemma_split_before(j, ':', d, colon);
        assert(hex_pieces(gs.drop_last()).push(d) =~= hex_pieces(gs));
        assert forall|i: int| 0 <= i < w.len() implies #[trigger] w[i] != '.' && (is_digit_of(w[i], 16)
            || w[i] == ':') by {
            if i < j.len() {
                assert(w[i] == j[i]);
            } else if i > j.len() {
                assert(w[i] == d[i - j.len() - 1]);
            }
        }
        assert forall|k: int| !#[trigger] dc_at(w, k) by {
            if dc_at(w, k) {
                if k + 1 < j.len() {
                    assert(w[k] == j[k] && w[k + 1] == j[k + 1]);
                    assert(dc_at(j, k));
                } else if k + 1 == j.len() {
                    assert(w[k] == j.last());
                } else if k == j.len() {
                    assert(w[k + 1] == d[0]);
                } else {
                    assert(w[k] == d[k - j.len() - 1]);
                }
            }
        }
        assert(w[0] == j[0]);
        assert(w.last() == d.last());
    }
}

/// The run `zero_run` picks lies inside the segments and holds only
/// zeros.
proof fn lemma_zero_run(gs: Seq<nat>, i: int, cs: int, cl: int, bs: int, bl: int)
    requires
        0 <= i <= gs.len(),
        0 <= bs,
        0 <= bl,
        bs + bl <= i,
        forall|k: int| bs <= k < bs + bl ==> #[trigger] gs[k] == 0,
        0 <= cl,
        cl > 0 ==> 0 <= cs && cs + cl == i && forall|k: int| cs <= k < i ==> #[trigger] gs[k] == 0,
    ensures
        ({
            let (st, len) = zero_run(gs, i, cs, cl, bs, bl);
            &&& 0 <= st
            &&& 0 <= len
            &&& st + len <= gs.len()
            &&& forall|k: int| st <= k < st + len ==> #[trigger] gs[k] == 0
        }),
    decreases gs.len() - i,
{
    if i < gs.len() {
        if gs[i] == 0 {
            let ncs = if cl == 0 { i } else { cs };
            let ncl = cl + 1;
            if ncl > bl {
                lemma_zero_run(gs, i + 1, ncs, ncl, ncs, ncl);
            } else {
                lemma_zero_run(gs, i + 1, ncs, ncl, bs, bl);
            }
        } else {
            lemma_zero_run(gs, i + 1, 0, 0, bs, bl);
        }
    }
}

/// Joined hex groups read back as their segments, on either side of a
/// `::`.
proof fn lemma_join_hex_groups(gs: Seq<nat>, v4_tail: bool)
    requires
        segments_fit(gs),
    ensures
        ipv6_groups(join_hex(gs), v4_tail) == Some(gs),
{
    if gs.len() == 0 {
        assert(join_hex(gs).len() == 0);
        assert(gs =~= Seq::<nat>::empty());
    } else {
        lemma_join_hex(gs);
        let toks = hex_pieces(gs);
        let n = toks.len();
        lemma_hex_piece(gs.last());
        let dot = seq!['.'];
        assert forall|i: int| 0 <= i < toks[n - 1].len() implies !dot.contains(#[trigger] toks[n - 1][i]) by {
            assert(toks[n - 1][i] != '.');
        }
        lemma_split_plain(toks[n - 1], dot);
        assert(ipv4_octets(toks[n - 1]) is None);
    }
}

proof fn lemma_first_double_colon_at(s: Seq<char>, d: int)
    requires
        dc_at(s, d),
        forall|j: int| 0 <= j < d ==> !#[trigger] dc_at(s, j),
    ensures
        first_double_colon(s) == Some(d),
{
    lemma_first_double_colon(s);
    if let Some(i) = first_double_colon(s) {
        assert(dc_at(s, i));
        if i > d {
            assert(!dc_at(s, d));
        }
    }
}

/// A text without `.` is no IPv4 address.
proof fn lemma_dotless_not_ipv4(t: Seq<char>)
    requires
        forall|i: int| 0 <= i < t.len() ==> #[trigger] t[i] != '.',
    ensures
        ipv4_octets(t) is None,
{
    let dot = seq!['.'];
    assert forall|i: int| 0 <= i < t.len() implies !dot.contains(#[trigger] t[i]) by {}
    lemma_split_plain(t, dot);
}

/// Eight segments written without `::` read back.
proof fn lemma_plain_v6_text(g: Seq<nat>)
    requires
        g.len() == 8,
        segments_fit(g),
    ensures
        ipv4_octets(join_hex(g)) is None,
        ipv6_segments(join_hex(g)) == Some(g),
{
    lemma_join_hex(g);
    lemma_dotless_not_ipv4(join_hex(g));
    lemma_first_double_colon(join_hex(g));
    if let Some(i) = first_double_colon(join_hex(g)) {
        assert(dc_at(join_hex(g), i));
    }
    lemma_join_hex_groups(g, true);
}

/// Segments written with a run of zeros as `::` read back.
proof fn lemma_compressed_v6_text(g: Seq<nat>, st: int, len: int)
    requires
        g.len() == 8,
        segments_fit(g),
        0 <= st,
        2 <= len,
        st + len <= 8,
        forall|k: int| st <= k < st + len ==> #[trigger] g[k] == 0,
    ensures
        ({
            let t = join_hex(g.take(st)) + "::"@ + join_hex(g.skip(st + len));
            &&& ipv4_octets(t) is None
            &&& ipv6_segments(t) == Some(g)
        }),
{
    reveal_strlit("::");
    let (h, k) = (g.take(st), g.skip(st + len));
    let (j1, j2) = (join_hex(h), join_hex(k));
    let t = j1 + "::"@ + j2;
    assert("::"@ =~= seq![':', ':']);
    if h.len() > 0 {
        lemma_join_hex(h);
    }
    if k.len() > 0 {
        lemma_join_hex(k);
    }
    let n = j1.len() as int;
    assert forall|i: int| 0 <= i < t.len() implies #[trigger] t[i] != '.' by {
        if i < n {
            assert(t[i] == j1[i]);
        } else if i >= n + 2 {
            assert(t[i] == j2[i - n - 2]);
        }
    }
    lemma_dotless_not_ipv4(t);
    assert(dc_at(t, n));
    assert forall|j: int| 0 <= j < n implies !#[trigger] dc_at(t, j) by {
        if j + 1 < n {
            assert(t[j] == j1[j] && t[j + 1] == j1[j + 1]);
            assert(!dc_at(j1, j));
        } else {
            assert(t[j] == j1.last());
        }
    }
    lemma_first_double_colon_at(t, n);
    assert(t.take(n) =~= j1);
    assert(t.skip(n + 2) =~= j2);
    lemma_join_hex_groups(h, false);
    lemma_join_hex_groups(k, true);
    assert(h + Seq::new((8 - h.len() - k.len()) as nat, |i: int| 0nat) + k =~= g);
}

/// An IPv4-mapped address written as `::ffff:a.b.c.d` reads back.
proof fn lemma_mapped_v6_text(g: Seq<nat>)
    requires
        g.len() == 8,
        segments_fit(g),
        g[0] == 0 && g[1] == 0 && g[2] == 0 && g[3] == 0 && g[4] == 0 && g[5] == 0xffff,
    ensures
        ({
            let t = "::ffff:"@ + ipv4_text(
                (g[6] / 256) as u8,
                (g[6] % 256) as u8,
                (g[7] / 256) as u8,
                (g[7] % 256) as u8,
            );
            &&& ipv4_octets(t) is None
            &&& ipv6_segments(t) == Some(g)
        }),
{
    reveal_strlit("::ffff:");
    let (b0, b1, b2, b3) = ((g[6] / 256) as u8, (g[6] % 256) as u8, (g[7] / 256) as u8, (g[7] % 256) as u8);
    let q = ipv4_text(b0, b1, b2, b3);
    let f = seq!['f', 'f', 'f', 'f'];
    let pre = seq![':', ':'] + f + seq![':'];
    assert("::ffff:"@ =~= pre);
    let t = pre + q;
    lemma_ipv4_text_chars(b0, b1, b2, b3);
    law_ipv4_text_reads_back(b0, b1, b2, b3);
    // not IPv4: the first dotted field starts with ':'
    let (da, db, dc, dd) = (decimal(b0 as nat), decimal(b1 as nat), decimal(b2 as nat), decimal(b3 as nat));
    lemma_octet_field(b0 as nat);
    let dot = seq!['.'];
    assert(dot.contains('.')) by {
        assert(dot[0] == '.');
    }
    let x = pre + da;
    assert forall|i: int| 0 <= i < x.len() implies !dot.contains(#[trigger] x[i]) by {
        if i >= pre.len() {
            assert(x[i] == da[i - pre.len()]);
        }
    }
    assert(t =~= x + seq!['.'] + (db + seq!['.'] + dc + seq!['.'] + dd));
    lemma_split_after(x, '.', db + seq!['.'] + dc + seq!['.'] + dd, dot);
    let toks = split_any(t, dot);
    assert(toks[0] == x);
    assert(!is_digit_of(x[0], 10));
    assert(number_field(toks[0], 10, Some(3), false, 255) is None);
    // IPv6: `::` at the start, then `ffff` and the dotted tail
    assert(dc_at(t, 0));
    lemma_first_double_colon_at(t, 0);
    assert(t.take(0) =~= Seq::<char>::empty());
    let rest = t.skip(2);
    assert(rest =~= f + seq![':'] + q);
    let colon = seq![':'];
    assert(colon.contains(':')) by {
        assert(colon[0] == ':');
    }
    assert forall|i: int| 0 <= i < f.len() implies !colon.contains(#[trigger] f[i]) by {}
    assert forall|i: int| 0 <= i < q.len() implies !colon.contains(#[trigger] q[i]) by {}
    lemma_split_after(f, ':', q, colon);
    lemma_split_plain(q, colon);
    let rt = split_any(rest, colon);
    assert(rt =~= seq![f, q]);
    assert(rt.take(1) =~= seq![f]);
    assert(number_value(f, 16) == 65535) by {
        assert(f.drop_last() =~= seq!['f', 'f', 'f']);
        assert(seq!['f', 'f', 'f'].drop_last() =~= seq!['f', 'f']);
        assert(seq!['f', 'f'].drop_last() =~= seq!['f']);
        assert(seq!['f'].drop_last() =~= Seq::<char>::empty());
        assert(seq!['f'].last() == 'f');
        assert(number_value(Seq::<char>::empty(), 16) == 0);
        assert(digit_value('f') == 15);
        assert(number_value(seq!['f'], 16) == 15);
        assert(number_value(seq!['f', 'f'], 16) == 255);
        assert(number_value(seq!['f', 'f', 'f'], 16) == 4095);
    }
    assert(hex_group(f) == Some(65535nat));
    assert(all_hex_groups(seq![f]));
    assert(hex_values(seq![f]) =~= seq![65535nat]);
    assert(b0 as nat * 256 + b1 as nat == g[6]);
    assert(b2 as nat * 256 + b3 as nat == g[7]);
    let kk = seq![65535nat, g[6], g[7]];
    assert(ipv6_groups(rest, true) == Some(kk));
    assert(ipv6_groups(Seq::<char>::empty(), false) == Some(Seq::<nat>::empty()));
    assert(Seq::<nat>::empty() + Seq::new(5, |i: int| 0nat) + kk =~= g);
}

/// An IPv6 text is hex digits, colons and (in a dotted tail) dots.
proof fn lemma_v6_text_chars(g: Seq<nat>)
    requires
        g.len() == 8,
        segments_fit(g),
    ensures
        forall|i: int|
            0 <= i < ipv6_text(g).len() ==> is_digit_of(#[trigger] ipv6_text(g)[i], 16) || ipv6_text(g)[i]
                == ':' || ipv6_text(g)[i] == '.',
{
    let t = ipv6_text(g);
    if g[0] == 0 && g[1] == 0 && g[2] == 0 && g[3] == 0 && g[4] == 0 && g[5] == 0xffff {
        reveal_strlit("::ffff:");
        let (b0, b1, b2, b3) = ((g[6] / 256) as u8, (g[6] % 256) as u8, (g[7] / 256) as u8, (g[7] % 256) as u8);
        lemma_ipv4_text_chars(b0, b1, b2, b3);
        let q = ipv4_text(b0, b1, b2, b3);
        assert forall|i: int| 0 <= i < t.len() implies is_digit_of(#[trigger] t[i], 16) || t[i] == ':'
            || t[i] == '.' by {
            if i >= 7 {
                assert(t[i] == q[i - 7]);
            }
        }
    } else {
        lemma_zero_run(g, 0, 0, 0, 0, 0);
        let (st, len) = zero_run(g, 0, 0, 0, 0, 0);
        if len > 1 {
            reveal_strlit("::");
            let (j1, j2) = (join_hex(g.take(st)), join_hex(g.skip(st + len)));
            if st > 0 {
                lemma_join_hex(g.take(st));
            }
            if st + len < 8 {
                lemma_join_hex(g.skip(st + len));
            }
            assert forall|i: int| 0 <= i < t.len() implies is_digit_of(#[trigger] t[i], 16) || t[i] == ':'
                || t[i] == '.' by {
                if i < j1.len() {
                    assert(t[i] == j1[i]);
                } else if i >= j1.len() + 2 {
                    assert(t[i] == j2[i - j1.len() - 2]);
                }
            }
        } else {
            lemma_join_hex(g);
        }
    }
}

/// The text written for an IPv6 address reads back as that address.
pub proof fn law_ipv6_text_reads_back(ip: IpAddress)
    requires
        ip is V6,
    ensures
        ip_address_syntax(ip_text(ip)) == Some(ip),
        ipv6_segments(ip_text(ip)) == Some(segments_of(ip)),
        forall|i: int|
            0 <= i < ip_text(ip).len() ==> is_digit_of(#[trigger] ip_text(ip)[i], 16) || ip_text(ip)[i]
                == ':' || ip_text(ip)[i] == '.',
{
    let g = segments_of(ip);
    assert(segments_fit(g));
    lemma_v6_text_chars(g);
    if g[0] == 0 && g[1] == 0 && g[2] == 0 && g[3] == 0 && g[4] == 0 && g[5] == 0xffff {
        lemma_mapped_v6_text(g);
    } else {
        lemma_zero_run(g, 0, 0, 0, 0, 0);
        let (st, len) = zero_run(g, 0, 0, 0, 0, 0);
        if len > 1 {
            lemma_compressed_v6_text(g, st, len);
        } else {
            lemma_plain_v6_text(g);
        }
    }
}

/// The text written for an IPv6 socket address, with or without a scope
/// id, reads back as that socket address.
#[verifier::rlimit(50)]
pub proof fn law_ipv6_socket_text_reads_back(a: SocketAddress)
    requires
        a.ip is V6,
    ensures
        socket_address_syntax(socket_text(a)) == Some(a),
{
    reveal_strlit("]:");
    law_ipv6_text_reads_back(a.ip);
    let t = ip_text(a.ip);
    let p = decimal(a.port as nat);
    lemma_digits_text(a.port as nat, 10);
    lemma_digits_text(a.scope_id as nat, 10);
    let sc = decimal(a.scope_id as nat);
    let inner = if a.scope_id == 0 { t } else { t + seq!['%'] + sc };
    let s = socket_text(a);
    assert("]:"@ =~= seq![']', ':']);
    assert(s =~= seq!['['] + inner + seq![']'] + (seq![':'] + p));
    let j = inner.len() + 1int;
    assert forall|i: int| 0 <= i < inner.len() implies #[trigger] inner[i] != ']' by {
        if i < t.len() {
            assert(inner[i] == t[i]);
        } else if i > t.len() {
            assert(inner[i] == sc[i - t.len() - 1]);
        }
    }
    lemma_index_of(s, ']');
    assert(s[j] == ']');
    assert(forall|k: int| 0 <= k < j ==> s[k] != ']') by {
        assert(s[0] == '[');
        assert(forall|k: int| 1 <= k < j ==> s[k] == inner[k - 1]);
    }
    assert(index_of(s, ']') == Some(j));
    assert(s.subrange(1, j) =~= inner);
    let rest = s.skip(j + 1);
    assert(rest =~= seq![':'] + p);
    assert(rest.skip(1) =~= p);
    assert forall|i: int| 0 <= i < t.len() implies #[trigger] t[i] != '%' by {}
    lemma_index_of(inner, '%');
    if a.scope_id == 0 {
        assert(index_of(inner, '%') is None);
    } else {
        assert(inner[t.len() as int] == '%');
        assert(forall|k: int| 0 <= k < t.len() ==> inner[k] == t[k]);
        assert(index_of(inner, '%') == Some(t.len() as int));
        assert(inner.take(t.len() as int) =~= t);
        assert(inner.skip(t.len() + 1int) =~= sc);
    }
    assert(v6_of(segments_of(a.ip)) == a.ip);
}

/// Every IP address reads back from the text written for it, and every
/// socket address does too (a scope id only on IPv6).
pub proof fn law_text_reads_back(ip: IpAddress, a: SocketAddress)
    requires
        a.ip is V6 || a.scope_id == 0,
    ensures
        ip_address_syntax(ip_text(ip)) == Some(ip),
        socket_address_syntax(socket_text(a)) == Some(a),
{
    match ip {
        IpAddress::V4(o0, o1, o2, o3) => law_ipv4_text_reads_back(o0, o1, o2, o3),
        IpAddress::V6(..) => law_ipv6_text_reads_back(ip),
    }
    if a.ip is V6 {
        law_ipv6_socket_text_reads_back(a);
    } else {
        law_ipv4_socket_text_reads_back(a);
    }
}

} // verus!
