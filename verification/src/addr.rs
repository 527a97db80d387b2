use vstd::prelude::*;
use vstd::slice::slice_subrange;

verus! {

/// An IP address held as plain data: four octets for the v4 form, a single
/// 128-bit value for the v6 form.
#[derive(Clone, Copy, Debug, PartialEq, Eq, Structural)]
pub enum IpAddress {
    V4(u8, u8, u8, u8),
    V6(u128),
}

/// An IP endpoint: address and port.
#[derive(Clone, Copy, Debug, PartialEq, Eq, Structural)]
pub struct SockAddress {
    pub ip: IpAddress,
    pub port: u16,
}

/// Splitting a byte string on a separator, defined one byte at a time: the
/// empty string has one empty field, a leading separator opens a new empty
/// field, and any other byte extends the first field of the rest.
pub open spec fn spec_split(s: Seq<u8>, sep: u8) -> Seq<Seq<u8>>
    decreases s.len(),
{
    if s.len() == 0 {
        seq![Seq::<u8>::empty()]
    } else if s[0] == sep {
        seq![Seq::<u8>::empty()] + spec_split(s.skip(1), sep)
    } else {
        let rest = spec_split(s.skip(1), sep);
        seq![seq![s[0]] + rest[0]] + rest.skip(1)
    }
}

pub proof fn lemma_split_nonempty(s: Seq<u8>, sep: u8)
    ensures
        spec_split(s, sep).len() >= 1,
    decreases s.len(),
{
    if s.len() > 0 && s[0] != sep {
        lemma_split_nonempty(s.skip(1), sep);
    }
}

/// Splitting at the first separator occurrence: when `j` is the index of the
/// first separator, the split is the prefix before it followed by the split of
/// the suffix after it; when there is no separator, the split is the whole
/// string alone.
pub proof fn lemma_split_at_first_sep(s: Seq<u8>, sep: u8, j: int)
    requires
        0 <= j <= s.len(),
        forall|k: int| 0 <= k < j ==> s[k] != sep,
        j < s.len() ==> s[j] == sep,
    ensures
        j == s.len() ==> spec_split(s, sep) =~~= seq![s],
        j < s.len() ==> spec_split(s, sep) =~~= seq![s.take(j)] + spec_split(s.skip(j + 1), sep),
    decreases s.len(),
{
    if s.len() == 0 {
        assert(s =~= Seq::<u8>::empty());
    } else if j == 0 {
        assert(s.take(0) =~= Seq::<u8>::empty());
        assert(s.skip(1) =~= s.skip(j + 1));
    } else {
        let t = s.skip(1);
        lemma_split_at_first_sep(t, sep, j - 1);
        lemma_split_nonempty(t, sep);
        let rest = spec_split(t, sep);
        if j == s.len() {
            assert(rest =~~= seq![t]);
            assert(seq![s[0]] + t =~= s);
            assert(spec_split(s, sep) =~~= seq![s]);
        } else {
            assert(rest =~~= seq![t.take(j - 1)] + spec_split(t.skip(j), sep));
            assert(rest[0] == t.take(j - 1));
            assert(seq![s[0]] + t.take(j - 1) =~= s.take(j));
            assert(t.skip(j) =~= s.skip(j + 1));
            assert(rest.skip(1) =~~= spec_split(s.skip(j + 1), sep));
            assert(spec_split(s, sep) =~~= seq![s.take(j)] + spec_split(s.skip(j + 1), sep));
        }
    }
}

/// The index of the first occurrence of `b` in `s` at or after `start`, or the
/// length of `s` when there is none.
pub fn find_byte_from(s: &[u8], start: usize, b: u8) -> (r: usize)
    requires
        start <= s@.len(),
    ensures
        start <= r <= s@.len(),
        forall|k: int| start <= k < r ==> s@[k] != b,
        r < s@.len() ==> s@[r as int] == b,
{
    let mut i: usize = start;
    while i < s.len()
        invariant
            start <= i <= s@.len(),
            forall|k: int| start <= k < i ==> s@[k] != b,
        decreases s@.len() - i,
    {
        if s[i] == b {
            return i;
        }
        i = i + 1;
    }
    i
}

/// Splits `s` on the separator byte; the result always has at least one field,
/// and equals `spec_split(s@, sep)` field for field.
pub fn split_bytes(s: &[u8], sep: u8) -> (r: Vec<Vec<u8>>)
    ensures
        r.deep_view() == spec_split(s@, sep),
        r.len() >= 1,
{
    let mut parts: Vec<Vec<u8>> = Vec::new();
    let mut start: usize = 0;
    proof {
        assert(s@.skip(0) =~= s@);
        assert(parts.deep_view() + spec_split(s@, sep) =~~= spec_split(s@, sep));
    }
    loop
        invariant_except_break
            spec_split(s@, sep) =~~= parts.deep_view() + spec_split(s@.skip(start as int), sep),
        invariant
            start <= s@.len(),
        ensures
            parts.deep_view() =~~= spec_split(s@, sep),
            parts.len() >= 1,
        decreases s@.len() - start,
    {
        let ghost pdv = parts.deep_view();
        let ghost suffix = s@.skip(start as int);
        let j = find_byte_from(s, start, sep);
        let mut field: Vec<u8> = Vec::new();
        let mut k: usize = start;
        while k < j
            invariant
                start <= k <= j <= s@.len(),
                field@ =~= s@.subrange(start as int, k as int),
            decreases j - k,
        {
            field.push(s[k]);
            k = k + 1;
        }
        proof {
            lemma_split_at_first_sep(suffix, sep, j - start);
            assert(suffix.take(j - start) =~= s@.subrange(start as int, j as int));
        }
        parts.push(field);
        proof {
            assert(parts.deep_view() =~~= pdv.push(field@));
        }
        if j == s.len() {
            proof {
                assert(suffix.take(j - start) =~= suffix);
                assert(spec_split(suffix, sep) =~~= seq![field@]);
                assert(parts.deep_view() =~~= spec_split(s@, sep));
            }
            proof {
                lemma_split_nonempty(s@, sep);
            }
            break;
        }
        proof {
            assert(suffix.skip(j - start + 1) =~= s@.skip(j + 1));
            assert(spec_split(suffix, sep) =~~= seq![field@] + spec_split(s@.skip(j + 1), sep));
            assert(pdv + (seq![field@] + spec_split(s@.skip(j + 1), sep)) =~~= parts.deep_view()
                + spec_split(s@.skip(j + 1), sep));
        }
        start = j + 1;
    }
    parts
}

/// The index of the first occurrence of `b` in `s`, or the length of `s`.
pub open spec fn spec_find_byte(s: Seq<u8>, b: u8) -> int
    decreases s.len(),
{
    if s.len() == 0 {
        0
    } else if s[0] == b {
        0
    } else {
        1 + spec_find_byte(s.skip(1), b)
    }
}

pub proof fn lemma_find_byte_props(s: Seq<u8>, b: u8)
    ensures
        0 <= spec_find_byte(s, b) <= s.len(),
        forall|k: int| 0 <= k < spec_find_byte(s, b) ==> s[k] != b,
        spec_find_byte(s, b) < s.len() ==> s[spec_find_byte(s, b)] == b,
    decreases s.len(),
{
    if s.len() > 0 && s[0] != b {
        lemma_find_byte_props(s.skip(1), b);
        assert forall|k: int| 0 <= k < spec_find_byte(s, b) implies s[k] != b by {
            if k >= 1 {
                assert(s.skip(1)[k - 1] == s[k]);
            }
        }
    }
}

pub open spec fn is_dec_digit(b: u8) -> bool {
    48 <= b <= 57
}

pub open spec fn all_dec_digits(s: Seq<u8>) -> bool {
    forall|i: int| 0 <= i < s.len() ==> is_dec_digit(#[trigger] s[i])
}

/// The value of a string of decimal digits, most significant first.
pub open spec fn dec_val(s: Seq<u8>) -> int
    decreases s.len(),
{
    if s.len() == 0 {
        0
    } else {
        dec_val(s.drop_last()) * 10 + (s.last() - 48)
    }
}

pub open spec fn is_hex_digit(b: u8) -> bool {
    (48 <= b <= 57) || (97 <= b <= 102) || (65 <= b <= 70)
}

pub open spec fn all_hex_digits(s: Seq<u8>) -> bool {
    forall|i: int| 0 <= i < s.len() ==> is_hex_digit(#[trigger] s[i])
}

pub open spec fn hex_digit_val(b: u8) -> int {
    if 48 <= b <= 57 {
        b - 48
    } else if 97 <= b <= 102 {
        b - 87
    } else {
        b - 55
    }
}

/// The value of a string of hexadecimal digits, most significant first.
pub open spec fn hex_val(s: Seq<u8>) -> int
    decreases s.len(),
{
    if s.len() == 0 {
        0
    } else {
        hex_val(s.drop_last()) * 16 + hex_digit_val(s.last())
    }
}

/// A decimal IPv4 octet: one to three digits, no leading zero, value at most
/// 255.
pub open spec fn spec_parse_octet(s: Seq<u8>) -> Option<u8> {
    if 1 <= s.len() <= 3 && all_dec_digits(s) && !(s.len() > 1 && s[0] == 48) && dec_val(s)
        <= 255 {
        Some(dec_val(s) as u8)
    } else {
        None
    }
}

/// A decimal port number: one to five digits, value at most 65535. Leading
/// zeros are accepted.
pub open spec fn spec_parse_port(s: Seq<u8>) -> Option<u16> {
    if 1 <= s.len() <= 5 && all_dec_digits(s) && dec_val(s) <= 65535 {
        Some(dec_val(s) as u16)
    } else {
        None
    }
}

/// The value of a string of at most five decimal digits, or `None` when the
/// string is empty, longer than five bytes, or holds a non-digit.
fn dec_value_short(s: &[u8]) -> (r: Option<u32>)
    ensures
        r is Some <==> (1 <= s@.len() <= 5 && all_dec_digits(s@)),
        r is Some ==> r->Some_0 == dec_val(s@),
{
    if s.len() < 1 || s.len() > 5 {
        return None;
    }
    let mut acc: u32 = 0;
    let mut i: usize = 0;
    while i < s.len()
        invariant
            0 <= i <= s@.len() <= 5,
            all_dec_digits(s@.take(i as int)),
            acc == dec_val(s@.take(i as int)),
            acc < (if i == 0 {
                1int
            } else if i == 1 {
                10int
            } else if i == 2 {
                100int
            } else if i == 3 {
                1000int
            } else if i == 4 {
                10000int
            } else {
                100000int
            }),
        decreases s@.len() - i,
    {
        let b = s[i];
        if b < 48 || b > 57 {
            proof {
                assert(!is_dec_digit(s@[i as int]));
            }
            return None;
        }
        proof {
            assert(s@.take(i + 1).drop_last() =~= s@.take(i as int));
            assert(s@.take(i + 1).last() == s@[i as int]);
            assert(all_dec_digits(s@.take(i + 1)));
        }
        acc = acc * 10 + (b - 48) as u32;
        i = i + 1;
    }
    proof {
        assert(s@.take(s@.len() as int) =~= s@);
    }
    Some(acc)
}

/// Parses one decimal octet; agrees with `spec_parse_octet` on every input.
pub fn parse_octet(s: &[u8]) -> (r: Option<u8>)
    ensures
        r == spec_parse_octet(s@),
{
    if s.len() > 3 {
        return None;
    }
    if s.len() > 1 && s[0] == 48 {
        return None;
    }
    match dec_value_short(s) {
        None => None,
        Some(v) => {
            if v <= 255 {
                Some(v as u8)
            } else {
                None
            }
        },
    }
}

/// Parses one decimal port number; agrees with `spec_parse_port` on every
/// input.
pub fn parse_port(s: &[u8]) -> (r: Option<u16>)
    ensures
        r == spec_parse_port(s@),
{
    match dec_value_short(s) {
        None => None,
        Some(v) => {
            if v <= 65535 {
                Some(v as u16)
            } else {
                None
            }
        },
    }
}

/// A textual IPv4 address: four octets separated by dots.
pub open spec fn spec_parse_ipv4(s: Seq<u8>) -> Option<IpAddress> {
    let parts = spec_split(s, 46);
    if parts.len() == 4 && spec_parse_octet(parts[0]) is Some && spec_parse_octet(parts[1])
        is Some && spec_parse_octet(parts[2]) is Some && spec_parse_octet(parts[3]) is Some {
        Some(
            IpAddress::V4(
                spec_parse_octet(parts[0])->Some_0,
                spec_parse_octet(parts[1])->Some_0,
                spec_parse_octet(parts[2])->Some_0,
                spec_parse_octet(parts[3])->Some_0,
            ),
        )
    } else {
        None
    }
}

/// Parses a dotted-quad IPv4 address; agrees with `spec_parse_ipv4` on every
/// input.
pub fn parse_ipv4(s: &[u8]) -> (r: Option<IpAddress>)
    ensures
        r == spec_parse_ipv4(s@),
{
    let parts = split_bytes(s, 46);
    if parts.len() != 4 {
        return None;
    }
    proof {
        assert(parts.deep_view()[0] == parts@[0]@);
        assert(parts.deep_view()[1] == parts@[1]@);
        assert(parts.deep_view()[2] == parts@[2]@);
        assert(parts.deep_view()[3] == parts@[3]@);
    }
    let a = parse_octet(parts[0].as_slice());
    let b = parse_octet(parts[1].as_slice());
    let c = parse_octet(parts[2].as_slice());
    let d = parse_octet(parts[3].as_slice());
    match (a, b, c, d) {
        (Some(a), Some(b), Some(c), Some(d)) => Some(IpAddress::V4(a, b, c, d)),
        _ => None,
    }
}

/// A hexadecimal IPv6 group: one to four hex digits; leading zeros are
/// accepted.
pub open spec fn spec_parse_group(s: Seq<u8>) -> Option<u16> {
    if 1 <= s.len() <= 4 && all_hex_digits(s) {
        Some(hex_val(s) as u16)
    } else {
        None
    }
}

/// Parses one IPv6 group; agrees with `spec_parse_group` on every input.
pub fn parse_group(s: &[u8]) -> (r: Option<u16>)
    ensures
        r == spec_parse_group(s@),
{
    if s.len() < 1 || s.len() > 4 {
        return None;
    }
    let mut acc: u32 = 0;
    let mut i: usize = 0;
    while i < s.len()
        invariant
            0 <= i <= s@.len() <= 4,
            all_hex_digits(s@.take(i as int)),
            acc == hex_val(s@.take(i as int)),
            acc < (if i == 0 {
                1int
            } else if i == 1 {
                16int
            } else if i == 2 {
                256int
            } else if i == 3 {
                4096int
            } else {
                65536int
            }),
        decreases s@.len() - i,
    {
        let b = s[i];
        let d: u32 = if 48 <= b && b <= 57 {
            (b - 48) as u32
        } else if 97 <= b && b <= 102 {
            (b - 87) as u32
        } else if 65 <= b && b <= 70 {
            (b - 55) as u32
        } else {
            proof {
                assert(!is_hex_digit(s@[i as int]));
            }
            return None;
        };
        proof {
            assert(s@.take(i + 1).drop_last() =~= s@.take(i as int));
            assert(s@.take(i + 1).last() == s@[i as int]);
            assert(all_hex_digits(s@.take(i + 1)));
        }
        acc = acc * 16 + d;
        i = i + 1;
    }
    proof {
        assert(s@.take(s@.len() as int) =~= s@);
    }
    Some(acc as u16)
}

/// The value of a sequence of 16-bit groups, most significant first.
pub open spec fn groups_val(g: Seq<u16>) -> int
    decreases g.len(),
{
    if g.len() == 0 {
        0
    } else {
        groups_val(g.drop_last()) * 0x10000 + g.last()
    }
}

pub open spec fn pow65536(n: nat) -> int
    decreases n,
{
    if n == 0 {
        1
    } else {
        0x10000 * pow65536((n - 1) as nat)
    }
}

pub proof fn lemma_groups_val_bound(g: Seq<u16>)
    ensures
        0 <= groups_val(g) < pow65536(g.len()),
    decreases g.len(),
{
    if g.len() > 0 {
        lemma_groups_val_bound(g.drop_last());
    }
}

pub proof fn lemma_pow65536_values()
    ensures
        pow65536(0nat) == 1,
        pow65536(1nat) == 0x10000,
        pow65536(2nat) == 0x1_0000_0000,
        pow65536(3nat) == 0x1_0000_0000_0000,
        pow65536(4nat) == 0x1_0000_0000_0000_0000,
        pow65536(5nat) == 0x1_0000_0000_0000_0000_0000,
        pow65536(6nat) == 0x1_0000_0000_0000_0000_0000_0000,
        pow65536(7nat) == 0x1_0000_0000_0000_0000_0000_0000_0000,
        pow65536(8nat) == 0x1_0000_0000_0000_0000_0000_0000_0000_0000,
{
}

/// The combined value of exactly eight groups.
pub fn groups_to_value(g: &Vec<u16>) -> (r: u128)
    requires
        g@.len() == 8,
    ensures
        r == groups_val(g@),
{
    proof {
        lemma_pow65536_values();
    }
    let mut acc: u128 = 0;
    let mut i: usize = 0;
    while i < 8
        invariant
            0 <= i <= 8,
            g@.len() == 8,
            acc == groups_val(g@.take(i as int)),
            acc < pow65536(i as nat),
            pow65536(8nat) == 0x1_0000_0000_0000_0000_0000_0000_0000_0000,
        decreases 8 - i,
    {
        proof {
            assert(g@.take(i + 1).drop_last() =~= g@.take(i as int));
            assert(g@.take(i + 1).last() == g@[i as int]);
            assert(pow65536((i + 1) as nat) == 0x10000 * pow65536(i as nat));
            lemma_pow65536_values();
        }
        acc = acc * 0x10000 + (g[i] as u128);
        i = i + 1;
    }
    proof {
        assert(g@.take(8) =~= g@);
    }
    acc
}

/// Every field parsed as a group, in order, or `None` when one fails.
pub open spec fn all_groups(parts: Seq<Seq<u8>>) -> Option<Seq<u16>>
    decreases parts.len(),
{
    if parts.len() == 0 {
        Some(Seq::<u16>::empty())
    } else {
        let rest = all_groups(parts.drop_last());
        let g = spec_parse_group(parts.last());
        if rest is Some && g is Some {
            Some(rest->Some_0.push(g->Some_0))
        } else {
            None
        }
    }
}

proof fn lemma_all_groups_element(s: Seq<Seq<u8>>, k: int)
    requires
        0 <= k < s.len(),
        spec_parse_group(s[k]) is None,
    ensures
        all_groups(s) is None,
    decreases s.len(),
{
    if k < s.len() - 1 {
        assert(s.drop_last()[k] == s[k]);
        lemma_all_groups_element(s.drop_last(), k);
    }
}

/// Parses the fields with indexes in `[lo, hi)` as groups.
fn parse_groups(parts: &Vec<Vec<u8>>, lo: usize, hi: usize) -> (r: Option<Vec<u16>>)
    requires
        lo <= hi <= parts@.len(),
    ensures
        match r {
            Some(g) => all_groups(parts.deep_view().subrange(lo as int, hi as int)) == Some(g@),
            None => all_groups(parts.deep_view().subrange(lo as int, hi as int)) is None,
        },
{
    let ghost dv = parts.deep_view();
    let mut out: Vec<u16> = Vec::new();
    let mut i: usize = lo;
    proof {
        assert(dv.subrange(lo as int, lo as int) =~~= Seq::<Seq<u8>>::empty());
    }
    while i < hi
        invariant
            lo <= i <= hi <= parts@.len(),
            dv == parts.deep_view(),
            all_groups(dv.subrange(lo as int, i as int)) == Some(out@),
        decreases hi - i,
    {
        proof {
            assert(dv[i as int] == parts@[i as int]@);
        }
        match parse_group(parts[i].as_slice()) {
            Some(v) => {
                proof {
                    assert(dv.subrange(lo as int, i + 1).drop_last() =~~= dv.subrange(
                        lo as int,
                        i as int,
                    ));
                    assert(dv.subrange(lo as int, i + 1).last() == dv[i as int]);
                }
                out.push(v);
            },
            None => {
                proof {
                    assert(dv.subrange(lo as int, hi as int)[i - lo] == dv[i as int]);
                    lemma_all_groups_element(dv.subrange(lo as int, hi as int), i - lo);
                }
                return None;
            },
        }
        i = i + 1;
    }
    Some(out)
}

proof fn lemma_all_groups_len(s: Seq<Seq<u8>>)
    ensures
        all_groups(s) is Some ==> all_groups(s)->Some_0.len() == s.len(),
    decreases s.len(),
{
    if s.len() > 0 {
        lemma_all_groups_len(s.drop_last());
    }
}

/// The index of the first empty field, or the number of fields.
pub open spec fn spec_find_empty(parts: Seq<Seq<u8>>) -> int
    decreases parts.len(),
{
    if parts.len() == 0 {
        0
    } else if parts[0].len() == 0 {
        0
    } else {
        1 + spec_find_empty(parts.skip(1))
    }
}

pub proof fn lemma_find_empty_props(parts: Seq<Seq<u8>>)
    ensures
        0 <= spec_find_empty(parts) <= parts.len(),
        forall|k: int| 0 <= k < spec_find_empty(parts) ==> parts[k].len() != 0,
        spec_find_empty(parts) < parts.len() ==> parts[spec_find_empty(parts)].len() == 0,
    decreases parts.len(),
{
    if parts.len() > 0 && parts[0].len() != 0 {
        lemma_find_empty_props(parts.skip(1));
        assert forall|k: int| 0 <= k < spec_find_empty(parts) implies parts[k].len() != 0 by {
            if k >= 1 {
                assert(parts.skip(1)[k - 1] == parts[k]);
            }
        }
    }
}

/// The index of the first empty field at or after `start`, or the number of
/// fields.
fn find_empty_part(parts: &Vec<Vec<u8>>, start: usize) -> (r: usize)
    requires
        start <= parts@.len(),
    ensures
        start <= r <= parts@.len(),
        forall|k: int| start <= k < r ==> parts.deep_view()[k].len() != 0,
        r < parts@.len() ==> parts.deep_view()[r as int].len() == 0,
{
    let ghost dv = parts.deep_view();
    let mut i: usize = start;
    while i < parts.len()
        invariant
            start <= i <= parts@.len(),
            dv == parts.deep_view(),
            forall|k: int| start <= k < i ==> dv[k].len() != 0,
        decreases parts@.len() - i,
    {
        proof {
            assert(dv[i as int] == parts@[i as int]@);
        }
        if parts[i].len() == 0 {
            return i;
        }
        i = i + 1;
    }
    i
}

/// Eight groups made of a run before a `::` gap, the zero groups the gap
/// stands for, and a run after it; the two runs together may hold at most
/// seven groups.
pub open spec fn spec_groups_expand(head: Seq<Seq<u8>>, tail: Seq<Seq<u8>>) -> Option<u128> {
    if head.len() + tail.len() <= 7 && all_groups(head) is Some && all_groups(tail) is Some {
        let g = all_groups(head)->Some_0 + Seq::new(
            (8 - head.len() - tail.len()) as nat,
            |i: int| 0u16,
        ) + all_groups(tail)->Some_0;
        Some(groups_val(g) as u128)
    } else {
        None
    }
}

/// A textual IPv6 address over its `:`-separated fields: either eight groups,
/// or one `::` gap between runs of groups (possibly at either end), standing
/// for the missing zero groups. Embedded dotted-quad forms are not part of
/// this grammar.
pub open spec fn spec_ipv6_parts(parts: Seq<Seq<u8>>) -> Option<u128> {
    let fe = spec_find_empty(parts);
    let n = parts.len() as int;
    if fe == n {
        if n == 8 {
            match all_groups(parts) {
                Some(g) => Some(groups_val(g) as u128),
                None => None,
            }
        } else {
            None
        }
    } else if n == 3 && parts[0].len() == 0 && parts[1].len() == 0 && parts[2].len() == 0 {
        Some(0)
    } else if fe == 0 {
        if n >= 3 && parts[1].len() == 0 && spec_find_empty(parts.skip(2)) == n - 2 {
            spec_groups_expand(Seq::<Seq<u8>>::empty(), parts.skip(2))
        } else {
            None
        }
    } else if fe == n - 2 && parts[n - 1].len() == 0 {
        spec_groups_expand(parts.take(fe), Seq::<Seq<u8>>::empty())
    } else if fe < n - 1 {
        if spec_find_empty(parts.skip(fe + 1)) == n - fe - 1 {
            spec_groups_expand(parts.take(fe), parts.skip(fe + 1))
        } else {
            None
        }
    } else {
        None
    }
}

/// A textual IPv6 address.
pub open spec fn spec_parse_ipv6(s: Seq<u8>) -> Option<u128> {
    spec_ipv6_parts(spec_split(s, 58))
}

/// Builds the eight groups around a `::` gap from the fields before `head_hi`
/// and the fields from `tail_lo` on, then combines them.
fn expand_groups(parts: &Vec<Vec<u8>>, head_hi: usize, tail_lo: usize) -> (r: Option<u128>)
    requires
        head_hi <= parts@.len(),
        tail_lo <= parts@.len(),
    ensures
        r == spec_groups_expand(
            parts.deep_view().subrange(0, head_hi as int),
            parts.deep_view().subrange(tail_lo as int, parts.deep_view().len() as int),
        ),
{
    let ghost dv = parts.deep_view();
    proof {
        assert(dv.len() == parts@.len());
    }
    let n = parts.len();
    let head_n = head_hi;
    let tail_n = n - tail_lo;
    proof {
        assert(dv.subrange(0, head_hi as int).len() == head_n);
        assert(dv.subrange(tail_lo as int, n as int).len() == tail_n);
    }
    if head_n > 7 || tail_n > 7 || head_n + tail_n > 7 {
        return None;
    }
    let hg = match parse_groups(parts, 0, head_hi) {
        Some(g) => g,
        None => {
            return None;
        },
    };
    let tg = match parse_groups(parts, tail_lo, n) {
        Some(g) => g,
        None => {
            return None;
        },
    };
    let ghost head_g = hg@;
    let ghost tail_g = tg@;
    proof {
        lemma_all_groups_len(dv.subrange(0, head_hi as int));
        lemma_all_groups_len(dv.subrange(tail_lo as int, n as int));
    }
    let zero_n = 8 - head_n - tail_n;
    let mut g: Vec<u16> = hg;
    let mut z: usize = 0;
    while z < zero_n
        invariant
            0 <= z <= zero_n,
            g@ =~= head_g + Seq::new(z as nat, |i: int| 0u16),
        decreases zero_n - z,
    {
        g.push(0);
        proof {
            assert(g@ =~= head_g + Seq::new((z + 1) as nat, |i: int| 0u16));
        }
        z = z + 1;
    }
    let mut t: usize = 0;
    while t < tg.len()
        invariant
            0 <= t <= tg@.len(),
            tg@ == tail_g,
            g@ =~= head_g + Seq::new(zero_n as nat, |i: int| 0u16) + tail_g.take(t as int),
        decreases tg@.len() - t,
    {
        g.push(tg[t]);
        proof {
            assert(tail_g.take(t + 1) =~= tail_g.take(t as int).push(tail_g[t as int]));
            assert(g@ =~= head_g + Seq::new(zero_n as nat, |i: int| 0u16) + tail_g.take(t + 1));
        }
        t = t + 1;
    }
    proof {
        assert(tail_g.take(tail_g.len() as int) =~= tail_g);
        assert(g@ =~= head_g + Seq::new(zero_n as nat, |i: int| 0u16) + tail_g);
        assert(g@.len() == 8);
        lemma_groups_val_bound(g@);
        lemma_pow65536_values();
    }
    let v = groups_to_value(&g);
    Some(v)
}

/// Parses a textual IPv6 address; agrees with `spec_parse_ipv6` on every
/// input.
pub fn parse_ipv6(s: &[u8]) -> (r: Option<u128>)
    ensures
        r == spec_parse_ipv6(s@),
{
    let parts = split_bytes(s, 58);
    let ghost dv = parts.deep_view();
    let n = parts.len();
    proof {
        assert(dv.len() == n);
        assert forall|k: int| 0 <= k < dv.len() implies #[trigger] dv[k] == parts@[k]@ by {
            assert(dv[k] =~= parts@[k]@);
        }
    }
    let fe = find_empty_part(&parts, 0);
    proof {
        lemma_find_empty_props(dv);
        if fe < spec_find_empty(dv) {
            assert(dv[fe as int].len() == 0);
            assert(false);
        }
        if spec_find_empty(dv) < fe {
            assert(dv[spec_find_empty(dv)].len() != 0);
            assert(false);
        }
        assert(fe == spec_find_empty(dv));
    }
    if fe == n {
        if n != 8 {
            return None;
        }
        match parse_groups(&parts, 0, 8) {
            Some(g) => {
                proof {
                    assert(dv.subrange(0, 8) =~~= dv);
                    lemma_all_groups_len(dv);
                    lemma_groups_val_bound(g@);
                    lemma_pow65536_values();
                }
                Some(groups_to_value(&g))
            },
            None => {
                proof {
                    assert(dv.subrange(0, 8) =~~= dv);
                }
                None
            },
        }
    } else if n == 3 && parts[0].len() == 0 && parts[1].len() == 0 && parts[2].len() == 0 {
        proof {
            assert(dv[0] == parts@[0]@);
            assert(dv[1] == parts@[1]@);
            assert(dv[2] == parts@[2]@);
        }
        Some(0)
    } else {
        proof {
            if n == 3 {
                assert(dv[0] == parts@[0]@);
                assert(dv[1] == parts@[1]@);
                assert(dv[2] == parts@[2]@);
            }
        }
        if fe == 0 {
            proof {
                if n >= 3 {
                    assert(dv[1] == parts@[1]@);
                }
            }
            if n >= 3 && parts[1].len() == 0 {
                let fe2 = find_empty_part(&parts, 2);
                proof {
                    let sk = dv.skip(2);
                    lemma_find_empty_props(sk);
                    assert(forall|k: int| 0 <= k < sk.len() ==> #[trigger] sk[k] == dv[k + 2]);
                    if fe2 - 2 < spec_find_empty(sk) {
                        assert(sk[fe2 - 2].len() == 0);
                        assert(false);
                    }
                    if spec_find_empty(sk) < fe2 - 2 {
                        assert(sk[spec_find_empty(sk)].len() != 0);
                        assert(false);
                    }
                    assert(spec_find_empty(sk) == fe2 - 2);
                }
                if fe2 == n {
                    proof {
                        assert(dv.subrange(0, 0) =~~= Seq::<Seq<u8>>::empty());
                        assert(dv.subrange(2, n as int) =~~= dv.skip(2));
                    }
                    expand_groups(&parts, 0, 2)
                } else {
                    None
                }
            } else {
                None
            }
        } else if fe == n - 2 && parts[n - 1].len() == 0 {
            proof {
                assert(dv.subrange(0, fe as int) =~~= dv.take(fe as int));
                assert(dv.subrange(n as int, n as int) =~~= Seq::<Seq<u8>>::empty());
            }
            expand_groups(&parts, fe, n)
        } else if fe < n - 1 {
            let fe2 = find_empty_part(&parts, fe + 1);
            proof {
                let sk = dv.skip(fe + 1);
                lemma_find_empty_props(sk);
                assert(forall|k: int|
                    0 <= k < sk.len() ==> #[trigger] sk[k] == dv[k + fe + 1]);
                if fe2 - fe - 1 < spec_find_empty(sk) {
                    assert(sk[fe2 - fe - 1].len() == 0);
                    assert(false);
                }
                if spec_find_empty(sk) < fe2 - fe - 1 {
                    assert(sk[spec_find_empty(sk)].len() != 0);
                    assert(false);
                }
                assert(spec_find_empty(sk) == fe2 - fe - 1);
            }
            if fe2 == n {
                proof {
                    assert(dv.subrange(0, fe as int) =~~= dv.take(fe as int));
                    assert(dv.subrange(fe + 1, n as int) =~~= dv.skip(fe + 1));
                }
                expand_groups(&parts, fe, fe + 1)
            } else {
                None
            }
        } else {
            None
        }
    }
}

/// A textual IP address: the dotted-quad form, or else the IPv6 form.
pub open spec fn spec_parse_ip(s: Seq<u8>) -> Option<IpAddress> {
    if spec_parse_ipv4(s) is Some {
        spec_parse_ipv4(s)
    } else {
        match spec_parse_ipv6(s) {
            Some(v) => Some(IpAddress::V6(v)),
            None => None,
        }
    }
}

/// Parses a textual IP address; agrees with `spec_parse_ip` on every input.
pub fn parse_ip(s: &[u8]) -> (r: Option<IpAddress>)
    ensures
        r == spec_parse_ip(s@),
{
    match parse_ipv4(s) {
        Some(ip) => Some(ip),
        None => {
            match parse_ipv6(s) {
                Some(v) => Some(IpAddress::V6(v)),
                None => None,
            }
        },
    }
}

/// One 16-bit group of a 128-bit address, most significant first.
pub open spec fn spec_ipv6_group(v: u128, i: int) -> int {
    (v as int) / pow65536((7 - i) as nat) % 0x10000
}

/// The dotted-quad text of four octets.
pub open spec fn spec_ipv4_string(a: u8, b: u8, c: u8, d: u8) -> Seq<char> {
    crate::text::spec_dec_string(a as nat) + seq!['.'] + crate::text::spec_dec_string(b as nat)
        + seq!['.'] + crate::text::spec_dec_string(c as nat) + seq!['.']
        + crate::text::spec_dec_string(d as nat)
}

/// The full-form text of a 128-bit address: all eight groups in lowercase
/// hexadecimal, without a gap.
pub open spec fn spec_ipv6_string(v: u128) -> Seq<char> {
    crate::text::spec_hex_string(spec_ipv6_group(v, 0) as nat) + seq![':']
        + crate::text::spec_hex_string(spec_ipv6_group(v, 1) as nat) + seq![':']
        + crate::text::spec_hex_string(spec_ipv6_group(v, 2) as nat) + seq![':']
        + crate::text::spec_hex_string(spec_ipv6_group(v, 3) as nat) + seq![':']
        + crate::text::spec_hex_string(spec_ipv6_group(v, 4) as nat) + seq![':']
        + crate::text::spec_hex_string(spec_ipv6_group(v, 5) as nat) + seq![':']
        + crate::text::spec_hex_string(spec_ipv6_group(v, 6) as nat) + seq![':']
        + crate::text::spec_hex_string(spec_ipv6_group(v, 7) as nat)
}

/// The text of an address: dotted quad, or full-form v6 groups.
pub open spec fn spec_ip_string(ip: IpAddress) -> Seq<char> {
    match ip {
        IpAddress::V4(a, b, c, d) => spec_ipv4_string(a, b, c, d),
        IpAddress::V6(v) => spec_ipv6_string(v),
    }
}

/// One group of a 128-bit address, for its textual form.
fn ipv6_group(v: u128, i: usize) -> (g: u16)
    requires
        i < 8,
    ensures
        g as int == spec_ipv6_group(v, i as int),
{
    proof {
        lemma_pow65536_values();
    }
    let divisor: u128 = if i == 0 {
        0x1_0000_0000_0000_0000_0000_0000_0000
    } else if i == 1 {
        0x1_0000_0000_0000_0000_0000_0000
    } else if i == 2 {
        0x1_0000_0000_0000_0000_0000
    } else if i == 3 {
        0x1_0000_0000_0000_0000
    } else if i == 4 {
        0x1_0000_0000_0000
    } else if i == 5 {
        0x1_0000_0000
    } else if i == 6 {
        0x1_0000
    } else {
        1
    };
    ((v / divisor) % 0x1_0000) as u16
}

impl IpAddress {
    /// The textual form: the dotted quad, or the full-form v6 groups.
    pub fn to_string(&self) -> (r: String)
        ensures
            r@ == spec_ip_string(*self),
    {
        let mut s = String::new();
        match self {
            IpAddress::V4(a, b, c, d) => {
                crate::text::push_dec(&mut s, *a as u64);
                crate::text::push_char(&mut s, '.');
                crate::text::push_dec(&mut s, *b as u64);
                crate::text::push_char(&mut s, '.');
                crate::text::push_dec(&mut s, *c as u64);
                crate::text::push_char(&mut s, '.');
                crate::text::push_dec(&mut s, *d as u64);
                proof {
                    assert(s@ =~= spec_ip_string(*self));
                }
            },
            IpAddress::V6(v) => {
                crate::text::push_hex(&mut s, ipv6_group(*v, 0) as u64);
                crate::text::push_char(&mut s, ':');
                crate::text::push_hex(&mut s, ipv6_group(*v, 1) as u64);
                crate::text::push_char(&mut s, ':');
                crate::text::push_hex(&mut s, ipv6_group(*v, 2) as u64);
                crate::text::push_char(&mut s, ':');
                crate::text::push_hex(&mut s, ipv6_group(*v, 3) as u64);
                crate::text::push_char(&mut s, ':');
                crate::text::push_hex(&mut s, ipv6_group(*v, 4) as u64);
                crate::text::push_char(&mut s, ':');
                crate::text::push_hex(&mut s, ipv6_group(*v, 5) as u64);
                crate::text::push_char(&mut s, ':');
                crate::text::push_hex(&mut s, ipv6_group(*v, 6) as u64);
                crate::text::push_char(&mut s, ':');
                crate::text::push_hex(&mut s, ipv6_group(*v, 7) as u64);
                proof {
                    assert(s@ =~= spec_ip_string(*self));
                }
            },
        }
        s
    }
}

/// A textual socket address: `ip:port` for the dotted-quad form, or
/// `[ipv6]:port` for the bracketed IPv6 form.
pub open spec fn spec_parse_sock_addr(s: Seq<u8>) -> Option<SockAddress> {
    if s.len() > 0 && s[0] == 91 {
        let c = spec_find_byte(s, 93);
        if c < s.len() && s.len() - c >= 2 && s[c + 1] == 58 {
            match (spec_parse_ipv6(s.subrange(1, c)), spec_parse_port(s.skip(c + 2))) {
                (Some(v), Some(p)) => Some(SockAddress { ip: IpAddress::V6(v), port: p }),
                _ => None,
            }
        } else {
            None
        }
    } else {
        let c = spec_find_byte(s, 58);
        if c < s.len() {
            match (spec_parse_ipv4(s.take(c)), spec_parse_port(s.skip(c + 1))) {
                (Some(ip), Some(p)) => Some(SockAddress { ip, port: p }),
                _ => None,
            }
        } else {
            None
        }
    }
}

/// Parses a textual socket address; agrees with `spec_parse_sock_addr` on
/// every input.
pub fn parse_sock_addr(s: &[u8]) -> (r: Option<SockAddress>)
    ensures
        r == spec_parse_sock_addr(s@),
{
    if s.len() > 0 && s[0] == 91 {
        let c = find_byte_from(s, 0, 93);
        proof {
            lemma_find_byte_props(s@, 93);
            if c < spec_find_byte(s@, 93) {
                assert(s@[c as int] == 93);
                assert(false);
            }
            if spec_find_byte(s@, 93) < c {
                assert(s@[spec_find_byte(s@, 93)] != 93);
                assert(false);
            }
        }
        if c < s.len() && s.len() - c >= 2 && s[c + 1] == 58 {
            let ip_part = slice_subrange(s, 1, c);
            let port_part = slice_subrange(s, c + 2, s.len());
            proof {
                assert(port_part@ =~= s@.skip(c + 2));
            }
            match (parse_ipv6(ip_part), parse_port(port_part)) {
                (Some(v), Some(p)) => Some(SockAddress { ip: IpAddress::V6(v), port: p }),
                _ => None,
            }
        } else {
            None
        }
    } else {
        let c = find_byte_from(s, 0, 58);
        proof {
            lemma_find_byte_props(s@, 58);
            if c < spec_find_byte(s@, 58) {
                assert(s@[c as int] == 58);
                assert(false);
            }
            if spec_find_byte(s@, 58) < c {
                assert(s@[spec_find_byte(s@, 58)] != 58);
                assert(false);
            }
        }
        if c < s.len() {
            let ip_part = slice_subrange(s, 0, c);
            let port_part = slice_subrange(s, c + 1, s.len());
            proof {
                assert(ip_part@ =~= s@.take(c as int));
                assert(port_part@ =~= s@.skip(c + 1));
            }
            match (parse_ipv4(ip_part), parse_port(port_part)) {
                (Some(ip), Some(p)) => Some(SockAddress { ip, port: p }),
                _ => None,
            }
        } else {
            None
        }
    }
}

} // verus!
