//! Socket addresses written as text, in the forms that a server address in
//! the configuration may take: `a.b.c.d:port` and `[ipv6]:port` (with an
//! optional `%scope` inside the brackets).
use vstd::prelude::*;
use vstd::string::StringSliceAdditionalSpecFns;
use crate::numeric::{is_digit, digits_value, digits_within, parse_digits};

verus! {

/// A socket address read from text.
#[derive(Clone, Copy, Debug, PartialEq, Eq)]
pub enum SocketAddress {
    V4 { octets: [u8; 4], port: u16 },
    V6 { segments: [u16; 8], port: u16, scope_id: u32 },
}

pub open spec fn is_hex_digit(b: u8) -> bool {
    is_digit(b) || (97 <= b <= 102) || (65 <= b <= 70)
}

pub open spec fn hex_digit_value(b: u8) -> nat {
    if is_digit(b) {
        (b - 48) as nat
    } else if 97 <= b <= 102 {
        (b - 87) as nat
    } else {
        (b - 55) as nat
    }
}

/// The value of a run of hexadecimal digits, most significant first.
pub open spec fn hex_value(s: Seq<u8>) -> nat
    decreases s.len(),
{
    if s.len() == 0 {
        0
    } else {
        hex_value(s.drop_last()) * 16 + hex_digit_value(s.last())
    }
}

/// The fields of `s` between occurrences of `sep` (there is always at least one).
pub open spec fn split(s: Seq<u8>, sep: u8) -> Seq<Seq<u8>>
    decreases s.len(),
{
    if s.len() == 0 {
        seq![Seq::<u8>::empty()]
    } else {
        let f = split(s.drop_last(), sep);
        if s.last() == sep {
            f.push(Seq::<u8>::empty())
        } else {
            f.update(f.len() - 1, f.last().push(s.last()))
        }
    }
}

/// The fields of `s` between occurrences of `sep`, none at all for empty `s`.
pub open spec fn split_nonempty(s: Seq<u8>, sep: u8) -> Seq<Seq<u8>> {
    if s.len() == 0 {
        Seq::<Seq<u8>>::empty()
    } else {
        split(s, sep)
    }
}

/// The first index at or after `i` where byte `c` stands in `s`, or -1.
pub open spec fn first_index(s: Seq<u8>, c: u8, i: int) -> int
    decreases s.len() - i,
{
    if i < 0 || i >= s.len() {
        -1
    } else if s[i] == c {
        i
    } else {
        first_index(s, c, i + 1)
    }
}

/// The first index at or after `i` where `::` starts in `s`, or -1.
pub open spec fn first_double_colon(s: Seq<u8>, i: int) -> int
    decreases s.len() - i,
{
    if i < 0 || i + 1 >= s.len() {
        -1
    } else if s[i] == 58 && s[i + 1] == 58 {
        i
    } else {
        first_double_colon(s, i + 1)
    }
}

/// A decimal octet of a dotted IPv4 address: one to three digits, no
/// leading zero, value at most 255.
pub open spec fn octet_text(s: Seq<u8>) -> bool {
    &&& 1 <= s.len() <= 3
    &&& digits_within(s, 255)
    &&& s.len() > 1 ==> s[0] != 48
}

/// A dotted IPv4 address: four octets separated by `.`.
pub open spec fn ipv4_text(s: Seq<u8>) -> bool {
    let f = split(s, 46);
    f.len() == 4 && forall|i: int| 0 <= i < 4 ==> octet_text(#[trigger] f[i])
}

pub open spec fn ipv4_octets(s: Seq<u8>) -> Seq<u8> {
    let f = split(s, 46);
    seq![
        digits_value(f[0]) as u8,
        digits_value(f[1]) as u8,
        digits_value(f[2]) as u8,
        digits_value(f[3]) as u8,
    ]
}

/// One group of an IPv6 address: one to four hexadecimal digits.
pub open spec fn h16_text(s: Seq<u8>) -> bool {
    1 <= s.len() <= 4 && forall|i: int| 0 <= i < s.len() ==> is_hex_digit(#[trigger] s[i])
}

/// The 16-bit segments that one field of an IPv6 address stands for: a
/// group gives one, an embedded IPv4 address gives two.
pub open spec fn field_segments(f: Seq<u8>) -> Seq<u16> {
    if h16_text(f) {
        seq![hex_value(f) as u16]
    } else {
        let o = ipv4_octets(f);
        seq![(o[0] * 256 + o[1]) as u16, (o[2] * 256 + o[3]) as u16]
    }
}

pub open spec fn fields_segments(fs: Seq<Seq<u8>>) -> Seq<u16>
    decreases fs.len(),
{
    if fs.len() == 0 {
        Seq::<u16>::empty()
    } else {
        fields_segments(fs.drop_last()) + field_segments(fs.last())
    }
}

/// Every field is a group, except that the last one may be an IPv4 address.
pub open spec fn groups_text(fs: Seq<Seq<u8>>) -> bool {
    &&& forall|i: int| 0 <= i < fs.len() - 1 ==> h16_text(#[trigger] fs[i])
    &&& fs.len() > 0 ==> (h16_text(fs.last()) || ipv4_text(fs.last()))
}

/// An IPv6 address: eight groups separated by `:` (the last two may be
/// written as an IPv4 address), or fewer around one `::` that stands for at
/// least one zero group; an IPv4 address may only come last.
pub open spec fn ipv6_text(s: Seq<u8>) -> bool {
    let k = first_double_colon(s, 0);
    if k < 0 {
        let f = split(s, 58);
        groups_text(f) && fields_segments(f).len() == 8
    } else {
        let head = split_nonempty(s.subrange(0, k), 58);
        let tail = split_nonempty(s.subrange(k + 2, s.len() as int), 58);
        &&& forall|i: int| 0 <= i < head.len() ==> h16_text(#[trigger] head[i])
        &&& groups_text(tail)
        &&& head.len() + fields_segments(tail).len() <= 7
    }
}

/// The eight segments of an IPv6 address.
pub open spec fn ipv6_segments(s: Seq<u8>) -> Seq<u16> {
    let k = first_double_colon(s, 0);
    if k < 0 {
        fields_segments(split(s, 58))
    } else {
        let head = fields_segments(split_nonempty(s.subrange(0, k), 58));
        let tail = fields_segments(split_nonempty(s.subrange(k + 2, s.len() as int), 58));
        head + Seq::new((8 - head.len() - tail.len()) as nat, |i: int| 0u16) + tail
    }
}

/// `a.b.c.d:port`
pub open spec fn socket_v4_text(s: Seq<u8>) -> bool {
    let f = split(s, 58);
    f.len() == 2 && ipv4_text(f[0]) && digits_within(f[1], 65535)
}

pub open spec fn socket_v4_octets(s: Seq<u8>) -> Seq<u8> {
    ipv4_octets(split(s, 58)[0])
}

pub open spec fn socket_v4_port(s: Seq<u8>) -> nat {
    digits_value(split(s, 58)[1])
}

/// The index of the `]` that closes the bracketed part of `[ipv6]:port`.
pub open spec fn v6_close(s: Seq<u8>) -> int {
    first_index(s, 93, 0)
}

/// The bracketed part of `[ipv6]:port`, without the brackets.
pub open spec fn v6_inner(s: Seq<u8>) -> Seq<u8> {
    s.subrange(1, v6_close(s))
}

/// The index of `%` in the bracketed part, or -1.
pub open spec fn v6_scope_mark(s: Seq<u8>) -> int {
    first_index(v6_inner(s), 37, 0)
}

pub open spec fn v6_address(s: Seq<u8>) -> Seq<u8> {
    let p = v6_scope_mark(s);
    if p < 0 {
        v6_inner(s)
    } else {
        v6_inner(s).subrange(0, p)
    }
}

/// `[ipv6]:port` or `[ipv6%scope]:port`
pub open spec fn socket_v6_text(s: Seq<u8>) -> bool {
    let k = v6_close(s);
    let p = v6_scope_mark(s);
    &&& s.len() > 0 && s[0] == 91
    &&& k > 0 && k + 1 < s.len() && s[k + 1] == 58
    &&& digits_within(s.subrange(k + 2, s.len() as int), 65535)
    &&& ipv6_text(v6_address(s))
    &&& p >= 0 ==> digits_within(v6_inner(s).subrange(p + 1, v6_inner(s).len() as int), 0xffff_ffff)
}

pub open spec fn socket_v6_port(s: Seq<u8>) -> nat {
    digits_value(s.subrange(v6_close(s) + 2, s.len() as int))
}

pub open spec fn socket_v6_scope(s: Seq<u8>) -> nat {
    let p = v6_scope_mark(s);
    if p < 0 {
        0
    } else {
        digits_value(v6_inner(s).subrange(p + 1, v6_inner(s).len() as int))
    }
}

/// `s` is the text of a socket address.
pub open spec fn socket_addr_text(s: Seq<u8>) -> bool {
    socket_v4_text(s) || socket_v6_text(s)
}

// ---------------------------------------------------------------------------
// Reading

/// The fields of `b[start..end]` between occurrences of `sep`, as index ranges.
fn split_ranges(b: &[u8], start: usize, end: usize, sep: u8) -> (r: Vec<(usize, usize)>)
    requires
        start <= end <= b@.len(),
    ensures
        r@.len() == split(b@.subrange(start as int, end as int), sep).len(),
        forall|j: int|
            0 <= j < r@.len() ==> start <= (#[trigger] r@[j]).0 <= r@[j].1 <= end
                && b@.subrange(r@[j].0 as int, r@[j].1 as int) == split(
                b@.subrange(start as int, end as int),
                sep,
            )[j],
{
    let mut r: Vec<(usize, usize)> = Vec::new();
    let mut cur: usize = start;
    let mut i: usize = start;
    assert(b@.subrange(start as int, start as int) =~= Seq::<u8>::empty());
    assert(b@.subrange(cur as int, i as int) =~= Seq::<u8>::empty());
    while i < end
        invariant
            start <= cur <= i <= end <= b@.len(),
            split(b@.subrange(start as int, i as int), sep).len() == r@.len() + 1,
            split(b@.subrange(start as int, i as int), sep).last() == b@.subrange(
                cur as int,
                i as int,
            ),
            forall|j: int|
                0 <= j < r@.len() ==> start <= (#[trigger] r@[j]).0 <= r@[j].1 <= cur
                    && b@.subrange(r@[j].0 as int, r@[j].1 as int) == split(
                    b@.subrange(start as int, i as int),
                    sep,
                )[j],
        decreases end - i,
    {
        let ghost pre = b@.subrange(start as int, i as int);
        let ghost post = b@.subrange(start as int, i + 1);
        assert(post.drop_last() =~= pre);
        assert(post.last() == b@[i as int]);
        if b[i] == sep {
            r.push((cur, i));
            cur = i + 1;
            assert(b@.subrange(cur as int, i + 1) =~= Seq::<u8>::empty());
        } else {
            assert(b@.subrange(cur as int, i + 1) =~= b@.subrange(cur as int, i as int).push(
                b@[i as int],
            ));
        }
        i = i + 1;
    }
    r.push((cur, end));
    r
}

/// Reads `b[start..end]` as an IPv4 octet.
fn parse_octet(b: &[u8], start: usize, end: usize) -> (r: Option<u8>)
    requires
        start <= end <= b@.len(),
    ensures
        r == (if octet_text(b@.subrange(start as int, end as int)) {
            Some(digits_value(b@.subrange(start as int, end as int)) as u8)
        } else {
            None::<u8>
        }),
{
    let ghost s = b@.subrange(start as int, end as int);
    if end - start > 3 || (end - start > 1 && b[start] == 48) {
        return None;
    }
    match parse_digits(b, start, end, 255) {
        Some(v) => Some(v as u8),
        None => None,
    }
}

/// Reads `b[start..end]` as a dotted IPv4 address.
fn parse_ipv4(b: &[u8], start: usize, end: usize) -> (r: Option<[u8; 4]>)
    requires
        start <= end <= b@.len(),
    ensures
        match r {
            Some(a) => ipv4_text(b@.subrange(start as int, end as int)) && a@ == ipv4_octets(
                b@.subrange(start as int, end as int),
            ),
            None => !ipv4_text(b@.subrange(start as int, end as int)),
        },
{
    let ghost s = b@.subrange(start as int, end as int);
    let f = split_ranges(b, start, end, 46);
    if f.len() != 4 {
        return None;
    }
    let mut a: [u8; 4] = [0u8; 4];
    let mut i: usize = 0;
    while i < 4
        invariant
            f@.len() == 4,
            f@.len() == split(s, 46).len(),
            s == b@.subrange(start as int, end as int),
            start <= end <= b@.len(),
            forall|j: int|
                0 <= j < f@.len() ==> start <= (#[trigger] f@[j]).0 <= f@[j].1 <= end
                    && b@.subrange(f@[j].0 as int, f@[j].1 as int) == split(s, 46)[j],
            0 <= i <= 4,
            forall|j: int| 0 <= j < i ==> octet_text(#[trigger] split(s, 46)[j]),
            forall|j: int|
                0 <= j < i ==> a@[j] == digits_value(#[trigger] split(s, 46)[j]) as u8,
        decreases 4 - i,
    {
        let (fs, fe) = f[i];
        match parse_octet(b, fs, fe) {
            Some(v) => {
                a[i] = v;
            },
            None => {
                return None;
            },
        }
        i = i + 1;
    }
    assert(a@ =~= ipv4_octets(s));
    Some(a)
}

/// 16 to the power `n`.
pub open spec fn pow16(n: nat) -> nat
    decreases n,
{
    if n == 0 {
        1
    } else {
        16 * pow16((n - 1) as nat)
    }
}

/// Reads `b[start..end]` as one group of an IPv6 address.
fn parse_h16(b: &[u8], start: usize, end: usize) -> (r: Option<u16>)
    requires
        start <= end <= b@.len(),
    ensures
        r == (if h16_text(b@.subrange(start as int, end as int)) {
            Some(hex_value(b@.subrange(start as int, end as int)) as u16)
        } else {
            None::<u16>
        }),
        h16_text(b@.subrange(start as int, end as int)) ==> hex_value(
            b@.subrange(start as int, end as int),
        ) < 65536,
{
    let ghost s = b@.subrange(start as int, end as int);
    if start == end || end - start > 4 {
        return None;
    }
    let mut value: u32 = 0;
    let mut i: usize = start;
    assert(pow16(4) == 65536) by {
        reveal_with_fuel(pow16, 5);
    }
    while i < end
        invariant
            start <= i <= end <= b@.len(),
            end - start <= 4,
            s == b@.subrange(start as int, end as int),
            forall|j: int| 0 <= j < i - start ==> is_hex_digit(#[trigger] s[j]),
            value as nat == hex_value(s.subrange(0, i - start)),
            value < pow16((i - start) as nat),
            pow16(4) == 65536,
        decreases end - i,
    {
        let c = b[i];
        let d: u32 = if 48 <= c && c <= 57 {
            (c - 48) as u32
        } else if 97 <= c && c <= 102 {
            (c - 87) as u32
        } else if 65 <= c && c <= 70 {
            (c - 55) as u32
        } else {
            assert(s[i - start] == c);
            return None;
        };
        let ghost pre = s.subrange(0, i - start);
        assert(s.subrange(0, i + 1 - start).drop_last() =~= pre);
        assert(s[i - start] == c);
        assert(pow16((i + 1 - start) as nat) == 16 * pow16((i - start) as nat));
        assert(i - start < 4);
        assert(pow16((i - start) as nat) <= 4096) by {
            reveal_with_fuel(pow16, 5);
        }
        value = value * 16 + d;
        i = i + 1;
    }
    assert(s.subrange(0, end - start) =~= s);
    assert(pow16((end - start) as nat) <= 65536) by {
        reveal_with_fuel(pow16, 5);
        assert(1 <= end - start <= 4);
    }
    Some(value as u16)
}

/// The first index in `b[start..end]` where byte `c` stands.
fn find_byte(b: &[u8], start: usize, end: usize, c: u8) -> (r: Option<usize>)
    requires
        start <= end <= b@.len(),
    ensures
        match r {
            Some(k) => start <= k < end && first_index(b@.subrange(start as int, end as int), c, 0)
                == k - start,
            None => first_index(b@.subrange(start as int, end as int), c, 0) < 0,
        },
{
    let ghost s = b@.subrange(start as int, end as int);
    let mut i: usize = start;
    while i < end
        invariant
            start <= i <= end <= b@.len(),
            s == b@.subrange(start as int, end as int),
            first_index(s, c, 0) == first_index(s, c, i - start),
        decreases end - i,
    {
        assert(s[i - start] == b@[i as int]);
        if b[i] == c {
            return Some(i);
        }
        i = i + 1;
    }
    None
}

/// The first index in `b[start..end]` where `::` starts.
fn find_double_colon(b: &[u8], start: usize, end: usize) -> (r: Option<usize>)
    requires
        start <= end <= b@.len(),
    ensures
        match r {
            Some(k) => start <= k && k + 1 < end && first_double_colon(
                b@.subrange(start as int, end as int),
                0,
            ) == k - start,
            None => first_double_colon(b@.subrange(start as int, end as int), 0) < 0,
        },
{
    let ghost s = b@.subrange(start as int, end as int);
    let mut i: usize = start;
    while end - i > 1
        invariant
            start <= i <= end <= b@.len(),
            s == b@.subrange(start as int, end as int),
            first_double_colon(s, 0) == first_double_colon(s, i - start),
        decreases end - i,
    {
        assert(s[i - start] == b@[i as int]);
        assert(s[i + 1 - start] == b@[i + 1]);
        if b[i] == 58 && b[i + 1] == 58 {
            return Some(i);
        }
        i = i + 1;
    }
    None
}

/// The fields given by `f` (ranges into `b`) are `fs`.
pub open spec fn ranges_hold(b: Seq<u8>, f: Seq<(usize, usize)>, fs: Seq<Seq<u8>>) -> bool {
    &&& f.len() == fs.len()
    &&& forall|j: int|
        0 <= j < f.len() ==> (#[trigger] f[j]).0 <= f[j].1 <= b.len() && b.subrange(
            f[j].0 as int,
            f[j].1 as int,
        ) == fs[j]
}

/// Reads fields that must all be IPv6 groups.
fn parse_all_h16(b: &[u8], f: &Vec<(usize, usize)>, Ghost(fs): Ghost<Seq<Seq<u8>>>) -> (r: Option<
    Vec<u16>,
>)
    requires
        ranges_hold(b@, f@, fs),
    ensures
        match r {
            Some(v) => (forall|i: int| 0 <= i < fs.len() ==> h16_text(#[trigger] fs[i]))
                && v@ == fields_segments(fs) && v@.len() == fs.len(),
            None => !(forall|i: int| 0 <= i < fs.len() ==> h16_text(#[trigger] fs[i])),
        },
{
    let mut v: Vec<u16> = Vec::new();
    let mut j: usize = 0;
    while j < f.len()
        invariant
            ranges_hold(b@, f@, fs),
            0 <= j <= f@.len(),
            forall|i: int| 0 <= i < j ==> h16_text(#[trigger] fs[i]),
            v@ == fields_segments(fs.take(j as int)),
            v@.len() == j,
        decreases f@.len() - j,
    {
        let (s, e) = f[j];
        assert(fs.take(j + 1).drop_last() =~= fs.take(j as int));
        match parse_h16(b, s, e) {
            Some(x) => {
                v.push(x);
            },
            None => {
                return None;
            },
        }
        j = j + 1;
    }
    assert(fs.take(f@.len() as int) =~= fs);
    Some(v)
}

/// Reads fields that must all be IPv6 groups, save that the last may be an
/// IPv4 address.
fn parse_groups(b: &[u8], f: &Vec<(usize, usize)>, Ghost(fs): Ghost<Seq<Seq<u8>>>) -> (r: Option<
    Vec<u16>,
>)
    requires
        ranges_hold(b@, f@, fs),
    ensures
        match r {
            Some(v) => groups_text(fs) && v@ == fields_segments(fs),
            None => !groups_text(fs),
        },
{
    let mut v: Vec<u16> = Vec::new();
    let mut j: usize = 0;
    let n = f.len();
    while j < n
        invariant
            ranges_hold(b@, f@, fs),
            n == f@.len(),
            0 <= j <= n,
            forall|i: int| 0 <= i < j ==> h16_text(#[trigger] fs[i]),
            v@ == fields_segments(fs.take(j as int)),
        decreases n - j,
    {
        let (s, e) = f[j];
        assert(fs.take(j + 1).drop_last() =~= fs.take(j as int));
        assert(fs.take(j + 1).last() == fs[j as int]);
        match parse_h16(b, s, e) {
            Some(x) => {
                v.push(x);
            },
            None => {
                if j + 1 == n {
                    match parse_ipv4(b, s, e) {
                        Some(o) => {
                            let hi: u16 = (o[0] as u16) * 256 + (o[1] as u16);
                            let lo: u16 = (o[2] as u16) * 256 + (o[3] as u16);
                            v.push(hi);
                            v.push(lo);
                            assert(fs.take(n as int) =~= fs);
                            assert(v@ =~= fields_segments(fs));
                            return Some(v);
                        },
                        None => {
                            return None;
                        },
                    }
                } else {
                    return None;
                }
            },
        }
        j = j + 1;
    }
    assert(fs.take(n as int) =~= fs);
    Some(v)
}

/// Copies eight segments into an array.
fn segments_array(v: &Vec<u16>) -> (a: [u16; 8])
    requires
        v@.len() == 8,
    ensures
        a@ == v@,
{
    let mut a: [u16; 8] = [0u16; 8];
    let mut i: usize = 0;
    while i < 8
        invariant
            v@.len() == 8,
            0 <= i <= 8,
            forall|j: int| 0 <= j < i ==> a@[j] == v@[j],
        decreases 8 - i,
    {
        a[i] = v[i];
        i = i + 1;
    }
    assert(a@ =~= v@);
    a
}

/// Reads `b[start..end]` as an IPv6 address.
fn parse_ipv6(b: &[u8], start: usize, end: usize) -> (r: Option<[u16; 8]>)
    requires
        start <= end <= b@.len(),
    ensures
        match r {
            Some(a) => ipv6_text(b@.subrange(start as int, end as int)) && a@ == ipv6_segments(
                b@.subrange(start as int, end as int),
            ),
            None => !ipv6_text(b@.subrange(start as int, end as int)),
        },
{
    let ghost s = b@.subrange(start as int, end as int);
    match find_double_colon(b, start, end) {
        None => {
            let f = split_ranges(b, start, end, 58);
            match parse_groups(b, &f, Ghost(split(s, 58))) {
                Some(v) => {
                    if v.len() == 8 {
                        Some(segments_array(&v))
                    } else {
                        None
                    }
                },
                None => None,
            }
        },
        Some(k) => {
            let ghost hs = s.subrange(0, k - start);
            let ghost ts = s.subrange(k - start + 2, s.len() as int);
            assert(hs =~= b@.subrange(start as int, k as int));
            assert(ts =~= b@.subrange(k + 2, end as int));
            let hf: Vec<(usize, usize)> = if k == start {
                Vec::new()
            } else {
                split_ranges(b, start, k, 58)
            };
            let hv = match parse_all_h16(b, &hf, Ghost(split_nonempty(hs, 58))) {
                Some(v) => v,
                None => {
                    return None;
                },
            };
            let tf: Vec<(usize, usize)> = if k + 2 == end {
                Vec::new()
            } else {
                split_ranges(b, k + 2, end, 58)
            };
            let tv = match parse_groups(b, &tf, Ghost(split_nonempty(ts, 58))) {
                Some(v) => v,
                None => {
                    return None;
                },
            };
            if hv.len() > 7 || tv.len() > 7 - hv.len() {
                return None;
            }
            let zeros: usize = 8 - hv.len() - tv.len();
            let mut out: Vec<u16> = Vec::new();
            let mut i: usize = 0;
            while i < hv.len()
                invariant
                    0 <= i <= hv@.len(),
                    out@ == hv@.take(i as int),
                decreases hv@.len() - i,
            {
                out.push(hv[i]);
                assert(hv@.take(i + 1) =~= hv@.take(i as int).push(hv@[i as int]));
                i = i + 1;
            }
            assert(hv@.take(hv@.len() as int) =~= hv@);
            let mut z: usize = 0;
            while z < zeros
                invariant
                    0 <= z <= zeros,
                    out@ == hv@ + Seq::new(z as nat, |i: int| 0u16),
                decreases zeros - z,
            {
                out.push(0);
                assert(hv@ + Seq::new((z + 1) as nat, |i: int| 0u16) =~= (hv@ + Seq::new(
                    z as nat,
                    |i: int| 0u16,
                )).push(0));
                z = z + 1;
            }
            let ghost mid = out@;
            let mut j: usize = 0;
            while j < tv.len()
                invariant
                    0 <= j <= tv@.len(),
                    out@ == mid + tv@.take(j as int),
                decreases tv@.len() - j,
            {
                out.push(tv[j]);
                assert(mid + tv@.take(j + 1) =~= (mid + tv@.take(j as int)).push(tv@[j as int]));
                j = j + 1;
            }
            assert(tv@.take(tv@.len() as int) =~= tv@);
            assert(out@ =~= ipv6_segments(s));
            Some(segments_array(&out))
        },
    }
}

/// Reads a socket address as `str::parse::<SocketAddr>` reads one: first as
/// `a.b.c.d:port`, then as `[ipv6]:port` or `[ipv6%scope]:port`.
pub fn parse_socket_addr(text: &str) -> (r: Option<SocketAddress>)
    ensures
        match r {
            Some(SocketAddress::V4 { octets, port }) => socket_v4_text(text.spec_bytes())
                && octets@ == socket_v4_octets(text.spec_bytes()) && port == socket_v4_port(
                text.spec_bytes(),
            ),
            Some(SocketAddress::V6 { segments, port, scope_id }) => !socket_v4_text(
                text.spec_bytes(),
            ) && socket_v6_text(text.spec_bytes()) && segments@ == ipv6_segments(
                v6_address(text.spec_bytes()),
            ) && port == socket_v6_port(text.spec_bytes()) && scope_id == socket_v6_scope(
                text.spec_bytes(),
            ),
            None => !socket_addr_text(text.spec_bytes()),
        },
{
    let b = text.as_bytes();
    let n = b.len();
    let ghost s = b@;
    assert(b@.subrange(0, n as int) =~= s);
    let f = split_ranges(b, 0, n, 58);
    if f.len() == 2 {
        let (s0, e0) = f[0];
        let (s1, e1) = f[1];
        match parse_ipv4(b, s0, e0) {
            Some(o) => {
                match parse_digits(b, s1, e1, 65535) {
                    Some(p) => {
                        return Some(SocketAddress::V4 { octets: o, port: p as u16 });
                    },
                    None => {},
                }
            },
            None => {},
        }
    }
    assert(!socket_v4_text(s));
    if n == 0 || b[0] != 91 {
        return None;
    }
    let k = match find_byte(b, 0, n, 93) {
        Some(k) => k,
        None => {
            return None;
        },
    };
    if k == 0 || n - k < 2 || b[k + 1] != 58 {
        return None;
    }
    let port = match parse_digits(b, k + 2, n, 65535) {
        Some(p) => p as u16,
        None => {
            return None;
        },
    };
    let ghost inner = s.subrange(1, k as int);
    assert(inner == v6_inner(s));
    let mark = find_byte(b, 1, k, 37);
    let addr_end: usize = match mark {
        Some(p) => p,
        None => k,
    };
    assert(b@.subrange(1, addr_end as int) =~= v6_address(s));
    let segments = match parse_ipv6(b, 1, addr_end) {
        Some(a) => a,
        None => {
            return None;
        },
    };
    let scope_id: u32 = match mark {
        Some(p) => {
            assert(b@.subrange(p + 1, k as int) =~= inner.subrange(p - 1 + 1, inner.len() as int));
            match parse_digits(b, p + 1, k, 0xffff_ffff) {
                Some(v) => v as u32,
                None => {
                    return None;
                },
            }
        },
        None => 0,
    };
    Some(SocketAddress::V6 { segments, port, scope_id })
}

} // verus!

verus! {

/// A byte that no field of `split(s, sep)` holds, and that is not `sep`,
/// is nowhere in `s`.
proof fn lemma_split_without(s: Seq<u8>, sep: u8, c: u8)
    requires
        c != sep,
        forall|f: int, j: int|
            0 <= f < split(s, sep).len() && 0 <= j < split(s, sep)[f].len() ==> split(s, sep)[f][j]
                != c,
    ensures
        forall|i: int| 0 <= i < s.len() ==> s[i] != c,
    decreases s.len(),
{
    if s.len() > 0 {
        let p = s.drop_last();
        let fp = split(p, sep);
        let fs = split(s, sep);
        lemma_split_len(p, sep);
        if s.last() == sep {
            assert forall|f: int, j: int| 0 <= f < fp.len() && 0 <= j < fp[f].len() implies fp[f][j]
                != c by {
                assert(fs[f] == fp[f]);
            }
        } else {
            assert forall|f: int, j: int| 0 <= f < fp.len() && 0 <= j < fp[f].len() implies fp[f][j]
                != c by {
                if f == fp.len() - 1 {
                    assert(fs[f] == fp[f].push(s.last()));
                    assert(fs[f][j] == fp[f][j]);
                } else {
                    assert(fs[f] == fp[f]);
                }
            }
            let l = fp.len() - 1;
            assert(fs[l] == fp[l].push(s.last()));
            assert(fs[l][fp[l].len() as int] == s.last());
        }
        lemma_split_without(p, sep, c);
        assert forall|i: int| 0 <= i < s.len() implies s[i] != c by {
            if i < s.len() - 1 {
                assert(s[i] == p[i]);
            }
        }
    }
}

/// There is always at least one field.
proof fn lemma_split_len(s: Seq<u8>, sep: u8)
    ensures
        split(s, sep).len() >= 1,
    decreases s.len(),
{
    if s.len() > 0 {
        lemma_split_len(s.drop_last(), sep);
    }
}

/// The first field starts with the first byte, where that is not `sep`.
proof fn lemma_split_first(s: Seq<u8>, sep: u8)
    requires
        s.len() > 0,
        s[0] != sep,
    ensures
        split(s, sep)[0].len() > 0,
        split(s, sep)[0][0] == s[0],
    decreases s.len(),
{
    let p = s.drop_last();
    lemma_split_len(p, sep);
    if p.len() > 0 {
        lemma_split_first(p, sep);
        assert(p[0] == s[0]);
    } else {
        assert(split(p, sep) =~= seq![Seq::<u8>::empty()]);
    }
    let fp = split(p, sep);
    if s.last() != sep && fp.len() - 1 == 0 {
        assert(split(s, sep)[0] == fp[0].push(s.last()));
        if p.len() > 0 {
            assert(split(s, sep)[0][0] == fp[0][0]);
        }
    }
}

/// Where `first_index` finds nothing, the byte is absent from there on.
proof fn lemma_first_index_none(s: Seq<u8>, c: u8, i: int)
    requires
        0 <= i,
        forall|j: int| i <= j < s.len() ==> s[j] != c,
    ensures
        first_index(s, c, i) == -1,
    decreases s.len() - i,
{
    if i < s.len() {
        lemma_first_index_none(s, c, i + 1);
    }
}

/// `first_index` finds the first occurrence.
proof fn lemma_first_index_at(s: Seq<u8>, c: u8, i: int, k: int)
    requires
        0 <= i <= k < s.len(),
        s[k] == c,
        forall|j: int| i <= j < k ==> s[j] != c,
    ensures
        first_index(s, c, i) == k,
    decreases k - i,
{
    if i < k {
        lemma_first_index_at(s, c, i + 1, k);
    }
}

/// `first_double_colon` finds a `::`.
proof fn lemma_first_double_colon(s: Seq<u8>, i: int)
    ensures
        first_double_colon(s, i) >= 0 ==> i <= first_double_colon(s, i) && first_double_colon(
            s,
            i,
        ) + 1 < s.len() && s[first_double_colon(s, i)] == 58 && s[first_double_colon(s, i) + 1]
            == 58,
    decreases s.len() - i,
{
    if 0 <= i && i + 1 < s.len() && !(s[i] == 58 && s[i + 1] == 58) {
        lemma_first_double_colon(s, i + 1);
    }
}

/// A byte other than a hexadecimal digit, `:` and `.` is not in a group or
/// an IPv4 address.
proof fn lemma_field_without(f: Seq<u8>, c: u8)
    requires
        !is_hex_digit(c),
        c != 46,
        h16_text(f) || ipv4_text(f),
    ensures
        forall|j: int| 0 <= j < f.len() ==> f[j] != c,
{
    if !h16_text(f) {
        let o = split(f, 46);
        assert forall|a: int, j: int| 0 <= a < o.len() && 0 <= j < o[a].len() implies o[a][j]
            != c by {
            assert(octet_text(o[a]));
            assert(is_digit(o[a][j]));
        }
        lemma_split_without(f, 46, c);
    }
}

/// A byte other than a hexadecimal digit, `:` and `.` is not in an IPv6
/// address.
proof fn lemma_ipv6_without(a: Seq<u8>, c: u8)
    requires
        !is_hex_digit(c),
        c != 46,
        c != 58,
        ipv6_text(a),
    ensures
        forall|i: int| 0 <= i < a.len() ==> a[i] != c,
{
    let k = first_double_colon(a, 0);
    if k < 0 {
        let f = split(a, 58);
        assert forall|x: int, j: int| 0 <= x < f.len() && 0 <= j < f[x].len() implies f[x][j]
            != c by {
            lemma_field_without(f[x], c);
        }
        lemma_split_without(a, 58, c);
    } else {
        lemma_first_double_colon(a, 0);
        let head = a.subrange(0, k);
        let tail = a.subrange(k + 2, a.len() as int);
        if head.len() > 0 {
            let f = split(head, 58);
            assert forall|x: int, j: int| 0 <= x < f.len() && 0 <= j < f[x].len() implies f[x][j]
                != c by {
                lemma_field_without(f[x], c);
            }
            lemma_split_without(head, 58, c);
        }
        if tail.len() > 0 {
            let f = split(tail, 58);
            assert forall|x: int, j: int| 0 <= x < f.len() && 0 <= j < f[x].len() implies f[x][j]
                != c by {
                lemma_field_without(f[x], c);
            }
            lemma_split_without(tail, 58, c);
        }
        assert forall|i: int| 0 <= i < a.len() implies a[i] != c by {
            if i < k {
                assert(a[i] == head[i]);
            } else if i > k + 1 {
                assert(a[i] == tail[i - k - 2]);
            }
        }
    }
}

/// The port of an IPv6 socket address may be any 16-bit number: for every
/// IPv6 address `a` and port `p` up to 65535, `[a]:p` is the text of an
/// IPv6 socket address (and not of an IPv4 one) whose address is `a`, whose
/// port is `p` and whose scope is 0.
pub proof fn law_ipv6_socket_ports(a: Seq<u8>, p: nat)
    requires
        ipv6_text(a),
        p <= 65535,
    ensures
        ({
            let s = seq![91u8] + a + seq![93u8, 58u8] + crate::numeric::decimal(p);
            &&& socket_v6_text(s)
            &&& !socket_v4_text(s)
            &&& v6_address(s) == a
            &&& socket_v6_port(s) == p
            &&& socket_v6_scope(s) == 0
        }),
{
    let d = crate::numeric::decimal(p);
    crate::numeric::law_decimal_reads_back(p);
    let s = seq![91u8] + a + seq![93u8, 58u8] + d;
    let k: int = a.len() as int + 1;
    lemma_ipv6_without(a, 93);
    lemma_ipv6_without(a, 37);
    assert(s[0] == 91u8);
    assert(s[k] == 93u8);
    assert(s[k + 1] == 58u8);
    assert forall|j: int| 0 <= j < k implies s[j] != 93u8 by {
        if j > 0 {
            assert(s[j] == a[j - 1]);
        }
    }
    lemma_first_index_at(s, 93, 0, k);
    assert(v6_close(s) == k);
    assert(v6_inner(s) =~= a);
    lemma_first_index_none(a, 37, 0);
    assert(v6_address(s) == a);
    assert(s.subrange(k + 2, s.len() as int) =~= d);
    assert(crate::numeric::digits_within(d, 65535));
    // `[` begins the first `:`-field, and no IPv4 address begins with it.
    lemma_split_first(s, 58);
    let f0 = split(s, 58)[0];
    if ipv4_text(f0) {
        lemma_split_first(f0, 46);
        let o = split(f0, 46);
        assert(octet_text(o[0]));
        assert(is_digit(o[0][0]));
    }
}

} // verus!

verus! {

/// Splitting at a separator splits the two sides apart.
proof fn lemma_split_concat(x: Seq<u8>, y: Seq<u8>, sep: u8)
    ensures
        split(x + seq![sep] + y, sep) == split(x, sep) + split(y, sep),
    decreases y.len(),
{
    let s = x + seq![sep] + y;
    if y.len() == 0 {
        assert(s.drop_last() =~= x);
        assert(split(s, sep) =~= split(x, sep) + split(y, sep));
    } else {
        let y2 = y.drop_last();
        lemma_split_concat(x, y2, sep);
        lemma_split_len(y2, sep);
        assert(s.drop_last() =~= x + seq![sep] + y2);
        assert(s.last() == y.last());
        assert(split(s, sep) =~= split(x, sep) + split(y, sep));
    }
}

/// Text without the separator is a single field.
proof fn lemma_split_single(s: Seq<u8>, sep: u8)
    requires
        forall|i: int| 0 <= i < s.len() ==> s[i] != sep,
    ensures
        split(s, sep) == seq![s],
    decreases s.len(),
{
    if s.len() > 0 {
        lemma_split_single(s.drop_last(), sep);
        assert(s.drop_last().push(s.last()) =~= s);
        assert(split(s, sep) =~= seq![s]);
    } else {
        assert(s =~= Seq::<u8>::empty());
    }
}

/// A number below 1000 is written with at most three digits.
proof fn lemma_decimal_short(n: nat)
    requires
        n < 1000,
    ensures
        crate::numeric::decimal(n).len() <= 3,
{
    if n >= 10 {
        let q = n / 10;
        assert(crate::numeric::decimal(n).len() == crate::numeric::decimal(q).len() + 1);
        if q >= 10 {
            assert(q / 10 < 10);
            assert(crate::numeric::decimal(q).len() == crate::numeric::decimal(q / 10).len() + 1);
            assert(crate::numeric::decimal(q / 10).len() == 1);
        } else {
            assert(crate::numeric::decimal(q).len() == 1);
        }
    }
}

/// The dotted text of four octets: `a.b.c.d`.
pub open spec fn dotted(o: Seq<u8>) -> Seq<u8> {
    crate::numeric::decimal(o[0] as nat) + seq![46u8] + crate::numeric::decimal(o[1] as nat) + seq![
        46u8,
    ] + crate::numeric::decimal(o[2] as nat) + seq![46u8] + crate::numeric::decimal(o[3] as nat)
}

/// Every IPv4 address and port reads back from its usual text: for any four
/// octets and any port, `a.b.c.d:p` written in shortest decimal is the
/// text of an IPv4 socket address with those octets and that port.
pub proof fn law_ipv4_socket_texts(o: Seq<u8>, p: nat)
    requires
        o.len() == 4,
        p <= 65535,
    ensures
        ({
            let s = dotted(o) + seq![58u8] + crate::numeric::decimal(p);
            &&& socket_v4_text(s)
            &&& socket_v4_octets(s) == o
            &&& socket_v4_port(s) == p
        }),
{
    let d0 = crate::numeric::decimal(o[0] as nat);
    let d1 = crate::numeric::decimal(o[1] as nat);
    let d2 = crate::numeric::decimal(o[2] as nat);
    let d3 = crate::numeric::decimal(o[3] as nat);
    let dp = crate::numeric::decimal(p);
    crate::numeric::law_decimal_reads_back(o[0] as nat);
    crate::numeric::law_decimal_reads_back(o[1] as nat);
    crate::numeric::law_decimal_reads_back(o[2] as nat);
    crate::numeric::law_decimal_reads_back(o[3] as nat);
    crate::numeric::law_decimal_reads_back(p);
    lemma_decimal_short(o[0] as nat);
    lemma_decimal_short(o[1] as nat);
    lemma_decimal_short(o[2] as nat);
    lemma_decimal_short(o[3] as nat);
    lemma_split_single(d0, 46);
    lemma_split_single(d1, 46);
    lemma_split_single(d2, 46);
    lemma_split_single(d3, 46);
    let r = dotted(o);
    lemma_split_concat(d0, d1, 46);
    lemma_split_concat(d0 + seq![46u8] + d1, d2, 46);
    lemma_split_concat(d0 + seq![46u8] + d1 + seq![46u8] + d2, d3, 46);
    let f = split(r, 46);
    assert(f =~= seq![d0, d1, d2, d3]);
    assert forall|i: int| 0 <= i < 4 implies octet_text(#[trigger] f[i]) by {
        assert(f[i] == d0 || f[i] == d1 || f[i] == d2 || f[i] == d3);
    }
    assert forall|i: int| 0 <= i < r.len() implies r[i] != 58u8 by {
        assert(is_digit(r[i]) || r[i] == 46u8);
    }
    lemma_split_single(r, 58);
    lemma_split_single(dp, 58);
    lemma_split_concat(r, dp, 58);
    let s = r + seq![58u8] + dp;
    assert(split(s, 58) =~= seq![r, dp]);
    assert(ipv4_octets(r) =~= o);
}

} // verus!
