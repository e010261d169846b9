//! IP addresses as plain values: parsing and formatting.
//!
//! An IPv4 address is four octets written as a dotted decimal quad; an IPv6
//! address is eight 16-bit groups written as colon-separated hexadecimal
//! groups, with a single `::` allowed to elide a run of zero groups and a
//! trailing dotted quad allowed to stand for the last two groups (the
//! IPv4-mapped text form).  The formatter emits the full eight-group
//! lowercase form for IPv6 and the usual dotted quad for IPv4; the parser
//! also accepts the elided, mixed-case and mapped forms.  Formatting
//! followed by parsing provably returns the address.

use vstd::prelude::*;
use vstd::slice::slice_subrange;

use crate::text::{spec_split, spec_join, spec_trim, split_bytes, join_bytes, lemma_split_join};

verus! {

/// An IPv4 address, one field per octet, most significant first.
#[derive(Debug, Clone, Copy, PartialEq, Eq, Structural, Hash)]
pub struct Ipv4Address {
    pub o0: u8,
    pub o1: u8,
    pub o2: u8,
    pub o3: u8,
}

/// An IPv6 address, one field per 16-bit group, most significant first.
#[derive(Debug, Clone, Copy, PartialEq, Eq, Structural, Hash)]
pub struct Ipv6Address {
    pub g0: u16,
    pub g1: u16,
    pub g2: u16,
    pub g3: u16,
    pub g4: u16,
    pub g5: u16,
    pub g6: u16,
    pub g7: u16,
}

impl Ipv6Address {
    /// The eight groups in order.
    pub open spec fn groups(self) -> Seq<u16> {
        seq![self.g0, self.g1, self.g2, self.g3, self.g4, self.g5, self.g6, self.g7]
    }

    /// Whether the address is link-local (`fe80::/10`), which local
    /// enumeration must exclude from reportable addresses.
    pub open spec fn spec_is_link_local(self) -> bool {
        self.g0 & 0xffc0 == 0xfe80
    }

    /// Whether the address is link-local (`fe80::/10`).
    pub fn is_link_local(&self) -> (r: bool)
        ensures
            r == self.spec_is_link_local(),
    {
        self.g0 & 0xffc0 == 0xfe80
    }
}

/// The address whose groups are the given eight values.
pub open spec fn ipv6_from_groups(gs: Seq<u16>) -> Ipv6Address
    recommends
        gs.len() == 8,
{
    Ipv6Address {
        g0: gs[0],
        g1: gs[1],
        g2: gs[2],
        g3: gs[3],
        g4: gs[4],
        g5: gs[5],
        g6: gs[6],
        g7: gs[7],
    }
}

/// Builds an address from a list of exactly eight groups.
fn ipv6_of_group_vec(gs: &Vec<u16>) -> (r: Ipv6Address)
    requires
        gs@.len() == 8,
    ensures
        r == ipv6_from_groups(gs@),
        r.groups() =~= gs@,
{
    Ipv6Address {
        g0: gs[0],
        g1: gs[1],
        g2: gs[2],
        g3: gs[3],
        g4: gs[4],
        g5: gs[5],
        g6: gs[6],
        g7: gs[7],
    }
}

// ---------------------------------------------------------------------------
// Decimal octets (IPv4 pieces)
// ---------------------------------------------------------------------------

/// ASCII decimal digit.
pub open spec fn is_dec_digit(b: u8) -> bool {
    48 <= b <= 57
}

/// Value of a decimal digit byte.
pub open spec fn dec_val(b: u8) -> int {
    b - 48
}

/// The digit byte for a value below ten.
pub open spec fn dec_digit(n: int) -> u8
    recommends
        0 <= n < 10,
{
    (48 + n) as u8
}

/// The decimal text of one octet: one to three digits, no leading zero.
pub open spec fn spec_format_octet(n: u8) -> Seq<u8> {
    if n < 10 {
        seq![dec_digit(n as int)]
    } else if n < 100 {
        seq![dec_digit(n as int / 10), dec_digit(n as int % 10)]
    } else {
        seq![dec_digit(n as int / 100), dec_digit((n as int / 10) % 10), dec_digit(n as int % 10)]
    }
}

/// The octet a piece of text denotes: one to three decimal digits, no
/// leading zero, value at most 255.
pub open spec fn spec_parse_octet(s: Seq<u8>) -> Option<u8> {
    if s.len() == 1 && is_dec_digit(s[0]) {
        Some(dec_val(s[0]) as u8)
    } else if s.len() == 2 && is_dec_digit(s[0]) && is_dec_digit(s[1]) && s[0] != 48 {
        Some((10 * dec_val(s[0]) + dec_val(s[1])) as u8)
    } else if s.len() == 3 && is_dec_digit(s[0]) && is_dec_digit(s[1]) && is_dec_digit(s[2])
        && s[0] != 48 && 100 * dec_val(s[0]) + 10 * dec_val(s[1]) + dec_val(s[2]) <= 255 {
        Some((100 * dec_val(s[0]) + 10 * dec_val(s[1]) + dec_val(s[2])) as u8)
    } else {
        None
    }
}

/// Parses one dotted-quad piece.
fn parse_octet(s: &[u8]) -> (r: Option<u8>)
    ensures
        r == spec_parse_octet(s@),
{
    if s.len() == 1 {
        let b = s[0];
        if 48 <= b && b <= 57 {
            Some(b - 48)
        } else {
            None
        }
    } else if s.len() == 2 {
        let b0 = s[0];
        let b1 = s[1];
        if 48 < b0 && b0 <= 57 && 48 <= b1 && b1 <= 57 {
            Some(10 * (b0 - 48) + (b1 - 48))
        } else {
            None
        }
    } else if s.len() == 3 {
        let b0 = s[0];
        let b1 = s[1];
        let b2 = s[2];
        if 48 < b0 && b0 <= 57 && 48 <= b1 && b1 <= 57 && 48 <= b2 && b2 <= 57 {
            let v: u16 = 100 * ((b0 - 48) as u16) + 10 * ((b1 - 48) as u16) + ((b2 - 48) as u16);
            if v <= 255 {
                Some(v as u8)
            } else {
                None
            }
        } else {
            None
        }
    } else {
        None
    }
}

/// Formats one octet in decimal.
fn format_octet(n: u8) -> (r: Vec<u8>)
    ensures
        r@ =~= spec_format_octet(n),
{
    let mut out: Vec<u8> = Vec::new();
    if n < 10 {
        out.push(48 + n);
    } else if n < 100 {
        out.push(48 + n / 10);
        out.push(48 + n % 10);
    } else {
        out.push(48 + n / 100);
        out.push(48 + (n / 10) % 10);
        out.push(48 + n % 10);
    }
    out
}

/// Every byte of a formatted octet is a decimal digit.
proof fn lemma_format_octet_digits(n: u8)
    ensures
        spec_format_octet(n).len() >= 1,
        forall|j: int|
            0 <= j < spec_format_octet(n).len() ==> is_dec_digit(spec_format_octet(n)[j]),
{
}

/// Parsing the decimal text of an octet gives the octet back.
proof fn lemma_octet_round_trip(n: u8)
    ensures
        spec_parse_octet(spec_format_octet(n)) == Some(n),
{
    if n < 10 {
    } else if n < 100 {
        assert(n as int == 10 * (n as int / 10) + n as int % 10);
        assert(dec_digit(n as int / 10) != 48);
    } else {
        assert(n as int == 100 * (n as int / 100) + 10 * ((n as int / 10) % 10) + n as int % 10)
            by (nonlinear_arith);
        assert(n as int / 100 >= 1);
        assert(dec_digit(n as int / 100) != 48);
    }
}

// ---------------------------------------------------------------------------
// Hexadecimal groups (IPv6 pieces)
// ---------------------------------------------------------------------------

/// ASCII hexadecimal digit, either case.
pub open spec fn is_hex_digit(b: u8) -> bool {
    (48 <= b <= 57) || (97 <= b <= 102) || (65 <= b <= 70)
}

/// Value of a hexadecimal digit byte.
pub open spec fn hex_val(b: u8) -> int {
    if 48 <= b <= 57 {
        b - 48
    } else if 97 <= b <= 102 {
        b - 87
    } else {
        b - 55
    }
}

/// The lowercase digit byte for a value below sixteen.
pub open spec fn hex_digit(n: int) -> u8
    recommends
        0 <= n < 16,
{
    if n < 10 {
        (48 + n) as u8
    } else {
        (87 + n) as u8
    }
}

/// The hexadecimal text of one group: one to four lowercase digits, no
/// leading zero.
pub open spec fn spec_format_group(n: u16) -> Seq<u8> {
    if n < 0x10 {
        seq![hex_digit(n as int)]
    } else if n < 0x100 {
        seq![hex_digit(n as int / 16), hex_digit(n as int % 16)]
    } else if n < 0x1000 {
        seq![
            hex_digit(n as int / 256),
            hex_digit((n as int / 16) % 16),
            hex_digit(n as int % 16),
        ]
    } else {
        seq![
            hex_digit(n as int / 4096),
            hex_digit((n as int / 256) % 16),
            hex_digit((n as int / 16) % 16),
            hex_digit(n as int % 16),
        ]
    }
}

/// The group a piece of text denotes: one to four hexadecimal digits,
/// leading zeros allowed.
pub open spec fn spec_parse_group(s: Seq<u8>) -> Option<u16> {
    if s.len() == 1 && is_hex_digit(s[0]) {
        Some(hex_val(s[0]) as u16)
    } else if s.len() == 2 && is_hex_digit(s[0]) && is_hex_digit(s[1]) {
        Some((16 * hex_val(s[0]) + hex_val(s[1])) as u16)
    } else if s.len() == 3 && is_hex_digit(s[0]) && is_hex_digit(s[1]) && is_hex_digit(s[2]) {
        Some((256 * hex_val(s[0]) + 16 * hex_val(s[1]) + hex_val(s[2])) as u16)
    } else if s.len() == 4 && is_hex_digit(s[0]) && is_hex_digit(s[1]) && is_hex_digit(s[2])
        && is_hex_digit(s[3]) {
        Some(
            (4096 * hex_val(s[0]) + 256 * hex_val(s[1]) + 16 * hex_val(s[2]) + hex_val(
                s[3],
            )) as u16,
        )
    } else {
        None
    }
}

/// Whether a byte is a hexadecimal digit.
fn is_hex(b: u8) -> (r: bool)
    ensures
        r == is_hex_digit(b),
{
    (48 <= b && b <= 57) || (97 <= b && b <= 102) || (65 <= b && b <= 70)
}

/// The value of a hexadecimal digit byte.
fn hex_value(b: u8) -> (r: u16)
    requires
        is_hex_digit(b),
    ensures
        r == hex_val(b),
        r < 16,
{
    if 48 <= b && b <= 57 {
        (b - 48) as u16
    } else if 97 <= b && b <= 102 {
        (b - 87) as u16
    } else {
        (b - 55) as u16
    }
}

/// Parses one colon-separated piece as a group.
fn parse_group(s: &[u8]) -> (r: Option<u16>)
    ensures
        r == spec_parse_group(s@),
{
    if s.len() == 1 {
        if is_hex(s[0]) {
            Some(hex_value(s[0]))
        } else {
            None
        }
    } else if s.len() == 2 {
        if is_hex(s[0]) && is_hex(s[1]) {
            Some(16 * hex_value(s[0]) + hex_value(s[1]))
        } else {
            None
        }
    } else if s.len() == 3 {
        if is_hex(s[0]) && is_hex(s[1]) && is_hex(s[2]) {
            Some(256 * hex_value(s[0]) + 16 * hex_value(s[1]) + hex_value(s[2]))
        } else {
            None
        }
    } else if s.len() == 4 {
        if is_hex(s[0]) && is_hex(s[1]) && is_hex(s[2]) && is_hex(s[3]) {
            Some(4096 * hex_value(s[0]) + 256 * hex_value(s[1]) + 16 * hex_value(s[2]) + hex_value(
                s[3],
            ))
        } else {
            None
        }
    } else {
        None
    }
}

/// Formats one group in lowercase hexadecimal.
fn format_group(n: u16) -> (r: Vec<u8>)
    ensures
        r@ =~= spec_format_group(n),
{
    let mut out: Vec<u8> = Vec::new();
    if n < 0x10 {
        out.push(hex_digit_byte(n));
    } else if n < 0x100 {
        out.push(hex_digit_byte(n / 16));
        out.push(hex_digit_byte(n % 16));
    } else if n < 0x1000 {
        out.push(hex_digit_byte(n / 256));
        out.push(hex_digit_byte((n / 16) % 16));
        out.push(hex_digit_byte(n % 16));
    } else {
        out.push(hex_digit_byte(n / 4096));
        out.push(hex_digit_byte((n / 256) % 16));
        out.push(hex_digit_byte((n / 16) % 16));
        out.push(hex_digit_byte(n % 16));
    }
    out
}

/// The lowercase digit byte of a value below sixteen.
fn hex_digit_byte(n: u16) -> (r: u8)
    requires
        n < 16,
    ensures
        r == hex_digit(n as int),
{
    if n < 10 {
        (48 + n) as u8
    } else {
        (87 + n) as u8
    }
}

/// Every byte of a formatted group is a hexadecimal digit, so the text is
/// nonempty and free of separators.
proof fn lemma_format_group_digits(n: u16)
    ensures
        spec_format_group(n).len() >= 1,
        forall|j: int|
            0 <= j < spec_format_group(n).len() ==> is_hex_digit(spec_format_group(n)[j]),
{
}

// ---------------------------------------------------------------------------
// IPv6 assembly
// ---------------------------------------------------------------------------

/// Index of the first empty piece, or the length if none is empty.
pub open spec fn spec_first_empty(ps: Seq<Seq<u8>>) -> int
    decreases ps.len(),
{
    if ps.len() == 0 {
        0
    } else if ps[0].len() == 0 {
        0
    } else {
        1 + spec_first_empty(ps.drop_first())
    }
}

/// No piece in `[lo, hi)` is empty.
pub open spec fn no_empty_piece(ps: Seq<Seq<u8>>, lo: int, hi: int) -> bool {
    forall|j: int| lo <= j < hi ==> ps[j].len() > 0
}

proof fn lemma_first_empty_at(ps: Seq<Seq<u8>>, k: int)
    requires
        0 <= k < ps.len(),
        ps[k].len() == 0,
        no_empty_piece(ps, 0, k),
    ensures
        spec_first_empty(ps) == k,
    decreases k,
{
    if k > 0 {
        lemma_first_empty_at(ps.drop_first(), k - 1);
    }
}

proof fn lemma_first_empty_none(ps: Seq<Seq<u8>>)
    requires
        no_empty_piece(ps, 0, ps.len() as int),
    ensures
        spec_first_empty(ps) == ps.len(),
    decreases ps.len(),
{
    if ps.len() > 0 {
        lemma_first_empty_none(ps.drop_first());
    }
}

/// The groups denoted by a run of pieces, if every piece is a valid group.
pub open spec fn spec_parse_pieces(ps: Seq<Seq<u8>>) -> Option<Seq<u16>>
    decreases ps.len(),
{
    if ps.len() == 0 {
        Some(Seq::<u16>::empty())
    } else {
        match (spec_parse_group(ps[0]), spec_parse_pieces(ps.drop_first())) {
            (Some(g), Some(rest)) => Some(seq![g] + rest),
            _ => None,
        }
    }
}

/// `k` zero groups.
pub open spec fn spec_zero_groups(k: nat) -> Seq<u16> {
    Seq::<u16>::new(k, |i: int| 0u16)
}

/// Whether a piece holds a dot, which marks it as dotted-quad text.
pub open spec fn piece_has_dot(p: Seq<u8>) -> bool {
    exists|j: int| 0 <= j < p.len() && p[j] == 46
}

/// The two groups a trailing dotted quad denotes: its four octets taken
/// pairwise, most significant first.
pub open spec fn spec_quad_groups(a: Ipv4Address) -> Seq<u16> {
    seq![
        ((a.o0 as int) * 256 + (a.o1 as int)) as u16,
        ((a.o2 as int) * 256 + (a.o3 as int)) as u16,
    ]
}

/// The groups of a run of pieces that may end in dotted-quad text (the
/// IPv4-mapped form, `::ffff:192.0.2.1`): every piece is a hexadecimal
/// group, except that a final piece holding a dot is an embedded IPv4
/// address contributing its two groups.
pub open spec fn spec_parse_tail(ps: Seq<Seq<u8>>) -> Option<Seq<u16>> {
    if ps.len() > 0 && piece_has_dot(ps.last()) {
        match (spec_parse_pieces(ps.drop_last()), spec_parse_ipv4(ps.last())) {
            (Some(gs), Some(a)) => Some(gs + spec_quad_groups(a)),
            _ => None,
        }
    } else {
        spec_parse_pieces(ps)
    }
}

/// The address an elided form denotes: the pieces before the `::` as leading
/// groups, the pieces after it as trailing groups (possibly ending in a
/// dotted quad), zeros in between.  The elision stands for at least one zero
/// group, so at most seven groups may be written out.
pub open spec fn spec_elided(ps: Seq<Seq<u8>>, l_hi: int, r_lo: int) -> Option<Ipv6Address>
    recommends
        0 <= l_hi <= r_lo <= ps.len(),
{
    let n = ps.len() as int;
    match (spec_parse_pieces(ps.subrange(0, l_hi)), spec_parse_tail(ps.subrange(r_lo, n))) {
        (Some(lg), Some(rg)) => if lg.len() + rg.len() <= 7 {
            Some(
                ipv6_from_groups(
                    lg + spec_zero_groups((8 - lg.len() - rg.len()) as nat) + rg,
                ),
            )
        } else {
            None
        },
        _ => None,
    }
}

/// The address denoted by the colon-separated pieces of an IPv6 text: eight
/// groups with no elision (a trailing dotted quad counting as two), or one
/// `::` (written as an empty piece) with at most seven groups around it.
pub open spec fn spec_parse_ipv6_pieces(ps: Seq<Seq<u8>>) -> Option<Ipv6Address> {
    let n = ps.len() as int;
    let f = spec_first_empty(ps);
    if f == n {
        match spec_parse_tail(ps) {
            Some(gs) => if gs.len() == 8 {
                Some(ipv6_from_groups(gs))
            } else {
                None
            },
            None => None,
        }
    } else if f == 0 {
        if n == 3 && ps[1].len() == 0 && ps[2].len() == 0 {
            Some(ipv6_from_groups(spec_zero_groups(8)))
        } else if n >= 3 && ps[1].len() == 0 && no_empty_piece(ps, 2, n) {
            spec_elided(ps, 0, 2)
        } else {
            None
        }
    } else if f == n - 2 && ps[n - 1].len() == 0 {
        spec_elided(ps, n - 2, n)
    } else if f < n - 1 && no_empty_piece(ps, f + 1, n) {
        spec_elided(ps, f, f + 1)
    } else {
        None
    }
}

/// The address an IPv6 text denotes, if any.
pub open spec fn spec_parse_ipv6(s: Seq<u8>) -> Option<Ipv6Address> {
    spec_parse_ipv6_pieces(spec_split(s, 58))
}

/// The full-form text of an address: eight lowercase hexadecimal groups
/// joined with colons, no elision.
pub open spec fn spec_format_ipv6(a: Ipv6Address) -> Seq<u8> {
    spec_join(
        seq![
            spec_format_group(a.g0),
            spec_format_group(a.g1),
            spec_format_group(a.g2),
            spec_format_group(a.g3),
            spec_format_group(a.g4),
            spec_format_group(a.g5),
            spec_format_group(a.g6),
            spec_format_group(a.g7),
        ],
        58,
    )
}

/// Parses a run of pieces as groups.
fn parse_groups_range(ps: &Vec<Vec<u8>>, lo: usize, hi: usize) -> (r: Option<Vec<u16>>)
    requires
        lo <= hi <= ps@.len(),
    ensures
        match r {
            Some(gs) => spec_parse_pieces(ps.deep_view().subrange(lo as int, hi as int)) == Some(
                gs@,
            ),
            None => spec_parse_pieces(ps.deep_view().subrange(lo as int, hi as int)) is None,
        },
    decreases hi - lo,
{
    let ghost sub = ps.deep_view().subrange(lo as int, hi as int);
    if lo == hi {
        proof {
            assert(sub =~~= Seq::<Seq<u8>>::empty());
            let gs: Seq<u16> = Seq::empty();
            assert(spec_parse_pieces(sub) == Some(gs));
        }
        let r: Vec<u16> = Vec::new();
        proof {
            assert(r@ =~= Seq::<u16>::empty());
        }
        Some(r)
    } else {
        proof {
            assert(sub[0] == ps.deep_view()[lo as int]);
            assert(ps.deep_view()[lo as int] =~= ps@[lo as int]@);
            assert(sub.drop_first() =~~= ps.deep_view().subrange(lo as int + 1, hi as int));
        }
        match parse_group(ps[lo].as_slice()) {
            None => None,
            Some(g) => {
                match parse_groups_range(ps, lo + 1, hi) {
                    None => None,
                    Some(mut rest) => {
                        let ghost tail = rest@;
                        rest.insert(0, g);
                        proof {
                            assert(rest@ =~= seq![g] + tail);
                        }
                        Some(rest)
                    },
                }
            },
        }
    }
}

/// Whether a piece holds a dot.
fn has_dot(p: &[u8]) -> (r: bool)
    ensures
        r == piece_has_dot(p@),
{
    let mut i: usize = 0;
    while i < p.len()
        invariant
            i <= p@.len(),
            forall|j: int| 0 <= j < i ==> p@[j] != 46,
        decreases p@.len() - i,
    {
        if p[i] == 46 {
            return true;
        }
        i = i + 1;
    }
    false
}

/// Parses a run of pieces that may end in dotted-quad text.
fn parse_tail_range(ps: &Vec<Vec<u8>>, lo: usize, hi: usize) -> (r: Option<Vec<u16>>)
    requires
        lo <= hi <= ps@.len(),
    ensures
        match r {
            Some(gs) => spec_parse_tail(ps.deep_view().subrange(lo as int, hi as int)) == Some(
                gs@,
            ),
            None => spec_parse_tail(ps.deep_view().subrange(lo as int, hi as int)) is None,
        },
{
    let ghost sub = ps.deep_view().subrange(lo as int, hi as int);
    if lo == hi {
        return parse_groups_range(ps, lo, hi);
    }
    proof {
        assert(sub.last() == ps.deep_view()[hi - 1]);
        assert(ps.deep_view()[hi - 1] =~= ps@[hi - 1]@);
    }
    let last = &ps[hi - 1];
    if !has_dot(last.as_slice()) {
        return parse_groups_range(ps, lo, hi);
    }
    proof {
        assert(sub.drop_last() =~~= ps.deep_view().subrange(lo as int, hi as int - 1));
    }
    let mut groups = match parse_groups_range(ps, lo, hi - 1) {
        Some(gs) => gs,
        None => {
            return None;
        },
    };
    let quad = match parse_ipv4(last.as_slice()) {
        Some(a) => a,
        None => {
            return None;
        },
    };
    let ghost head = groups@;
    groups.push(256 * (quad.o0 as u16) + (quad.o1 as u16));
    groups.push(256 * (quad.o2 as u16) + (quad.o3 as u16));
    proof {
        assert(groups@ =~= head + spec_quad_groups(quad));
    }
    Some(groups)
}

/// Checks that no piece in `[lo, hi)` is empty.
fn all_nonempty(ps: &Vec<Vec<u8>>, lo: usize, hi: usize) -> (r: bool)
    requires
        lo <= hi <= ps@.len(),
    ensures
        r == no_empty_piece(ps.deep_view(), lo as int, hi as int),
{
    let mut i: usize = lo;
    while i < hi
        invariant
            lo <= i <= hi <= ps@.len(),
            no_empty_piece(ps.deep_view(), lo as int, i as int),
        decreases hi - i,
    {
        if ps[i].len() == 0 {
            proof {
                assert(ps.deep_view()[i as int] =~= ps@[i as int]@);
                assert(ps.deep_view()[i as int].len() == 0);
            }
            return false;
        }
        proof {
            assert(ps.deep_view()[i as int] =~= ps@[i as int]@);
        }
        i = i + 1;
    }
    true
}

/// Builds the group list of an elided form and the address it denotes.
fn assemble_elided(ps: &Vec<Vec<u8>>, l_hi: usize, r_lo: usize) -> (r: Option<Ipv6Address>)
    requires
        l_hi <= r_lo <= ps@.len(),
    ensures
        r == spec_elided(ps.deep_view(), l_hi as int, r_lo as int),
{
    let n = ps.len();
    let left = match parse_groups_range(ps, 0, l_hi) {
        Some(gs) => gs,
        None => {
            return None;
        },
    };
    let right = match parse_tail_range(ps, r_lo, n) {
        Some(gs) => gs,
        None => {
            return None;
        },
    };
    if left.len() > 7 || right.len() > 7 - left.len() {
        return None;
    }
    let zeros = 8 - left.len() - right.len();
    let mut groups: Vec<u16> = left;
    let mut k: usize = 0;
    let ghost left_view = groups@;
    while k < zeros
        invariant
            k <= zeros,
            groups@ =~= left_view + spec_zero_groups(k as nat),
        decreases zeros - k,
    {
        groups.push(0);
        proof {
            assert(left_view + spec_zero_groups((k + 1) as nat) =~= (left_view
                + spec_zero_groups(k as nat)).push(0u16));
        }
        k = k + 1;
    }
    let mut j: usize = 0;
    let ghost mid_view = groups@;
    while j < right.len()
        invariant
            j <= right@.len(),
            groups@ =~= mid_view + right@.subrange(0, j as int),
        decreases right@.len() - j,
    {
        groups.push(right[j]);
        j = j + 1;
    }
    proof {
        assert(right@.subrange(0, right@.len() as int) =~= right@);
        assert(groups@ =~= left_view + spec_zero_groups(zeros as nat) + right@);
    }
    Some(ipv6_of_group_vec(&groups))
}

/// Parses an IPv6 text: colon-separated hexadecimal groups, at most one
/// `::` elision, and optionally a trailing dotted quad standing for the
/// last two groups.
pub fn parse_ipv6(s: &[u8]) -> (r: Option<Ipv6Address>)
    ensures
        r == spec_parse_ipv6(s@),
{
    let pieces = split_bytes(s, 58);
    let ghost ps = pieces.deep_view();
    let n = pieces.len();
    proof {
        crate::text::lemma_split_len(s@, 58);
        assert forall|i: int| 0 <= i < n implies ps[i] == pieces@[i]@ by {
            assert(ps[i] =~= pieces@[i]@);
        }
    }
    // Find the first empty piece.
    let mut f: usize = 0;
    while f < n && pieces[f].len() > 0
        invariant
            f <= n,
            n == ps.len(),
            ps =~~= pieces.deep_view(),
            no_empty_piece(ps, 0, f as int),
        decreases n - f,
    {
        proof {
            assert(ps[f as int] =~= pieces@[f as int]@);
        }
        f = f + 1;
    }
    proof {
        if f < n {
            assert(ps[f as int] =~= pieces@[f as int]@);
            lemma_first_empty_at(ps, f as int);
        } else {
            lemma_first_empty_none(ps);
        }
    }
    if f == n {
        proof {
            assert(ps.subrange(0, n as int) =~~= ps);
        }
        match parse_tail_range(&pieces, 0, n) {
            Some(gs) => {
                if gs.len() == 8 {
                    Some(ipv6_of_group_vec(&gs))
                } else {
                    None
                }
            },
            None => None,
        }
    } else if f == 0 {
        if n >= 3 && pieces[1].len() == 0 {
            proof {
                assert(ps[1] =~= pieces@[1]@);
                assert(ps[2] =~= pieces@[2]@);
            }
            if n == 3 && pieces[2].len() == 0 {
                let mut zeros: Vec<u16> = Vec::new();
                let mut k: usize = 0;
                while k < 8
                    invariant
                        k <= 8,
                        zeros@ =~= spec_zero_groups(k as nat),
                    decreases 8 - k,
                {
                    zeros.push(0);
                    proof {
                        assert(spec_zero_groups((k + 1) as nat) =~= spec_zero_groups(
                            k as nat,
                        ).push(0u16));
                    }
                    k = k + 1;
                }
                Some(ipv6_of_group_vec(&zeros))
            } else if all_nonempty(&pieces, 2, n) {
                assemble_elided(&pieces, 0, 2)
            } else {
                None
            }
        } else {
            None
        }
    } else if f == n - 2 && pieces[n - 1].len() == 0 {
        proof {
            assert(ps[n - 1] =~= pieces@[n - 1]@);
        }
        assemble_elided(&pieces, n - 2, n)
    } else if f < n - 1 && all_nonempty(&pieces, f + 1, n) {
        assemble_elided(&pieces, f, f + 1)
    } else {
        None
    }
}

/// Formats an address in the full eight-group lowercase form.
pub fn format_ipv6(a: &Ipv6Address) -> (r: Vec<u8>)
    ensures
        r@ =~= spec_format_ipv6(*a),
{
    let mut pieces: Vec<Vec<u8>> = Vec::new();
    pieces.push(format_group(a.g0));
    pieces.push(format_group(a.g1));
    pieces.push(format_group(a.g2));
    pieces.push(format_group(a.g3));
    pieces.push(format_group(a.g4));
    pieces.push(format_group(a.g5));
    pieces.push(format_group(a.g6));
    pieces.push(format_group(a.g7));
    proof {
        assert(pieces.deep_view() =~~= seq![
            spec_format_group(a.g0),
            spec_format_group(a.g1),
            spec_format_group(a.g2),
            spec_format_group(a.g3),
            spec_format_group(a.g4),
            spec_format_group(a.g5),
            spec_format_group(a.g6),
            spec_format_group(a.g7),
        ]);
    }
    join_bytes(&pieces, 58)
}

/// Parsing the full-form text of an address gives the address back.
pub proof fn lemma_ipv6_round_trip(a: Ipv6Address)
    ensures
        spec_parse_ipv6(spec_format_ipv6(a)) == Some(a),
{
    let pieces = seq![
        spec_format_group(a.g0),
        spec_format_group(a.g1),
        spec_format_group(a.g2),
        spec_format_group(a.g3),
        spec_format_group(a.g4),
        spec_format_group(a.g5),
        spec_format_group(a.g6),
        spec_format_group(a.g7),
    ];
    assert forall|k: int, j: int| 0 <= k < 8 && 0 <= j < pieces[k].len() implies pieces[k][j]
        != 58 by {
        lemma_format_group_digits(a.groups()[k]);
        assert(pieces[k] == spec_format_group(a.groups()[k]));
    }
    lemma_split_join(pieces, 58);
    assert forall|k: int| 0 <= k < 8 implies pieces[k].len() > 0 by {
        lemma_format_group_digits(a.groups()[k]);
        assert(pieces[k] == spec_format_group(a.groups()[k]));
    }
    lemma_first_empty_none(pieces);
    assert(!piece_has_dot(pieces.last())) by {
        lemma_format_group_digits(a.g7);
        assert(pieces.last() == spec_format_group(a.g7));
    }
    lemma_parse_format_pieces(a);
    let gs = seq![a.g0, a.g1, a.g2, a.g3, a.g4, a.g5, a.g6, a.g7];
    assert(ipv6_from_groups(gs) == a);
}

proof fn lemma_parse_format_pieces(a: Ipv6Address)
    ensures
        spec_parse_pieces(
            seq![
                spec_format_group(a.g0),
                spec_format_group(a.g1),
                spec_format_group(a.g2),
                spec_format_group(a.g3),
                spec_format_group(a.g4),
                spec_format_group(a.g5),
                spec_format_group(a.g6),
                spec_format_group(a.g7),
            ],
        ) == Some(seq![a.g0, a.g1, a.g2, a.g3, a.g4, a.g5, a.g6, a.g7]),
{
    let gs = seq![a.g0, a.g1, a.g2, a.g3, a.g4, a.g5, a.g6, a.g7];
    lemma_parse_format_suffix(gs, 0);
    reveal_with_fuel(pieces_of_groups, 10);
    assert(pieces_of_groups(gs, 0) =~~= seq![
        spec_format_group(a.g0),
        spec_format_group(a.g1),
        spec_format_group(a.g2),
        spec_format_group(a.g3),
        spec_format_group(a.g4),
        spec_format_group(a.g5),
        spec_format_group(a.g6),
        spec_format_group(a.g7),
    ]);
    assert(gs.skip(0) =~= gs);
}

/// The formatted pieces of the groups from `i` on.
spec fn pieces_of_groups(gs: Seq<u16>, i: int) -> Seq<Seq<u8>>
    decreases gs.len() - i,
{
    if i < 0 || i >= gs.len() {
        Seq::empty()
    } else {
        seq![spec_format_group(gs[i])] + pieces_of_groups(gs, i + 1)
    }
}

proof fn lemma_parse_format_suffix(gs: Seq<u16>, i: int)
    requires
        0 <= i <= gs.len(),
    ensures
        spec_parse_pieces(pieces_of_groups(gs, i)) == Some(gs.skip(i)),
    decreases gs.len() - i,
{
    if i == gs.len() {
        assert(pieces_of_groups(gs, i) =~~= Seq::<Seq<u8>>::empty());
        assert(gs.skip(i) =~= Seq::<u16>::empty());
    } else {
        lemma_group_round_trip(gs[i]);
        lemma_parse_format_suffix(gs, i + 1);
        let ps = pieces_of_groups(gs, i);
        assert(ps.drop_first() =~~= pieces_of_groups(gs, i + 1));
        assert(seq![gs[i]] + gs.skip(i + 1) =~= gs.skip(i));
    }
}

// ---------------------------------------------------------------------------
// IPv4 assembly
// ---------------------------------------------------------------------------

/// The address an IPv4 text denotes: four dot-separated decimal octets.
pub open spec fn spec_parse_ipv4(s: Seq<u8>) -> Option<Ipv4Address> {
    let ps = spec_split(s, 46);
    if ps.len() == 4 {
        match (spec_parse_octet(ps[0]), spec_parse_octet(ps[1]), spec_parse_octet(ps[2]),
        spec_parse_octet(ps[3])) {
            (Some(o0), Some(o1), Some(o2), Some(o3)) => Some(Ipv4Address { o0, o1, o2, o3 }),
            _ => None,
        }
    } else {
        None
    }
}

/// The dotted-quad text of an address.
pub open spec fn spec_format_ipv4(a: Ipv4Address) -> Seq<u8> {
    spec_join(
        seq![
            spec_format_octet(a.o0),
            spec_format_octet(a.o1),
            spec_format_octet(a.o2),
            spec_format_octet(a.o3),
        ],
        46,
    )
}

/// Parses an IPv4 text.
pub fn parse_ipv4(s: &[u8]) -> (r: Option<Ipv4Address>)
    ensures
        r == spec_parse_ipv4(s@),
{
    let pieces = split_bytes(s, 46);
    let ghost ps = pieces.deep_view();
    if pieces.len() != 4 {
        return None;
    }
    proof {
        assert(ps[0] =~= pieces@[0]@);
        assert(ps[1] =~= pieces@[1]@);
        assert(ps[2] =~= pieces@[2]@);
        assert(ps[3] =~= pieces@[3]@);
    }
    let o0 = match parse_octet(pieces[0].as_slice()) {
        Some(v) => v,
        None => {
            return None;
        },
    };
    let o1 = match parse_octet(pieces[1].as_slice()) {
        Some(v) => v,
        None => {
            return None;
        },
    };
    let o2 = match parse_octet(pieces[2].as_slice()) {
        Some(v) => v,
        None => {
            return None;
        },
    };
    let o3 = match parse_octet(pieces[3].as_slice()) {
        Some(v) => v,
        None => {
            return None;
        },
    };
    Some(Ipv4Address { o0, o1, o2, o3 })
}

/// Formats an address as a dotted quad.
pub fn format_ipv4(a: &Ipv4Address) -> (r: Vec<u8>)
    ensures
        r@ =~= spec_format_ipv4(*a),
{
    let mut pieces: Vec<Vec<u8>> = Vec::new();
    pieces.push(format_octet(a.o0));
    pieces.push(format_octet(a.o1));
    pieces.push(format_octet(a.o2));
    pieces.push(format_octet(a.o3));
    proof {
        assert(pieces.deep_view() =~~= seq![
            spec_format_octet(a.o0),
            spec_format_octet(a.o1),
            spec_format_octet(a.o2),
            spec_format_octet(a.o3),
        ]);
    }
    join_bytes(&pieces, 46)
}

/// A formatted IPv4 address is never the empty text.
pub proof fn lemma_format_ipv4_nonempty(a: Ipv4Address)
    ensures
        spec_format_ipv4(a).len() > 0,
{
    let pieces = seq![
        spec_format_octet(a.o0),
        spec_format_octet(a.o1),
        spec_format_octet(a.o2),
        spec_format_octet(a.o3),
    ];
    assert(spec_join(pieces, 46) == pieces[0] + seq![46u8] + spec_join(pieces.drop_first(), 46));
}

/// Parsing the dotted-quad text of an address gives the address back.
pub proof fn lemma_ipv4_round_trip(a: Ipv4Address)
    ensures
        spec_parse_ipv4(spec_format_ipv4(a)) == Some(a),
{
    let pieces = seq![
        spec_format_octet(a.o0),
        spec_format_octet(a.o1),
        spec_format_octet(a.o2),
        spec_format_octet(a.o3),
    ];
    let os = seq![a.o0, a.o1, a.o2, a.o3];
    assert forall|k: int, j: int| 0 <= k < 4 && 0 <= j < pieces[k].len() implies pieces[k][j]
        != 46 by {
        lemma_format_octet_digits(os[k]);
        assert(pieces[k] == spec_format_octet(os[k]));
    }
    lemma_split_join(pieces, 46);
    lemma_octet_round_trip(a.o0);
    lemma_octet_round_trip(a.o1);
    lemma_octet_round_trip(a.o2);
    lemma_octet_round_trip(a.o3);
}

// ---------------------------------------------------------------------------
// Comma-joined address lists (the history store's row format)
// ---------------------------------------------------------------------------

/// The addresses denoted by comma-separated pieces: each piece is trimmed
/// and parsed, and pieces that do not parse are dropped.
pub open spec fn spec_filter_parse(ps: Seq<Seq<u8>>) -> Seq<Ipv6Address>
    decreases ps.len(),
{
    if ps.len() == 0 {
        Seq::<Ipv6Address>::empty()
    } else {
        let rest = spec_filter_parse(ps.drop_first());
        match spec_parse_ipv6(spec_trim(ps[0])) {
            Some(a) => seq![a] + rest,
            None => rest,
        }
    }
}

/// The addresses a comma-joined list text denotes, unparsable entries
/// dropped.
pub open spec fn spec_parse_ipv6_list(s: Seq<u8>) -> Seq<Ipv6Address> {
    spec_filter_parse(spec_split(s, 44))
}

/// The comma-joined text of an address list, each address in full form.
pub open spec fn spec_format_ipv6_list(addrs: Seq<Ipv6Address>) -> Seq<u8> {
    spec_join(addrs.map_values(|a: Ipv6Address| spec_format_ipv6(a)), 44)
}

/// Parses a comma-joined address list, dropping entries that do not parse.
pub fn parse_ipv6_list(s: &[u8]) -> (r: Vec<Ipv6Address>)
    ensures
        r@ =~= spec_parse_ipv6_list(s@),
{
    let pieces = split_bytes(s, 44);
    let ghost ps = pieces.deep_view();
    let mut out: Vec<Ipv6Address> = Vec::new();
    let mut i: usize = 0;
    proof {
        assert(ps.skip(0) =~~= ps);
    }
    while i < pieces.len()
        invariant
            i <= pieces@.len(),
            ps =~~= pieces.deep_view(),
            spec_filter_parse(ps) =~= out@ + spec_filter_parse(ps.skip(i as int)),
        decreases pieces@.len() - i,
    {
        proof {
            assert(ps[i as int] =~= pieces@[i as int]@);
            assert(ps.skip(i as int)[0] == ps[i as int]);
            assert(ps.skip(i as int).drop_first() =~~= ps.skip(i as int + 1));
        }
        let trimmed = crate::text::trim_bytes(pieces[i].as_slice());
        match parse_ipv6(trimmed) {
            Some(a) => {
                out.push(a);
            },
            None => {},
        }
        i = i + 1;
    }
    proof {
        assert(ps.skip(pieces@.len() as int) =~~= Seq::<Seq<u8>>::empty());
    }
    out
}

/// Formats an address list as comma-joined full forms; an empty list is
/// the empty text.
pub fn format_ipv6_list(addrs: &Vec<Ipv6Address>) -> (r: Vec<u8>)
    ensures
        r@ =~= spec_format_ipv6_list(addrs@),
{
    if addrs.len() == 0 {
        let empty: Vec<u8> = Vec::new();
        proof {
            assert(addrs@.map_values(|a: Ipv6Address| spec_format_ipv6(a)).len() == 0);
        }
        return empty;
    }
    let mut pieces: Vec<Vec<u8>> = Vec::new();
    let mut i: usize = 0;
    while i < addrs.len()
        invariant
            i <= addrs@.len(),
            pieces.deep_view().len() == i,
            forall|k: int|
                0 <= k < i ==> pieces.deep_view()[k] == spec_format_ipv6(addrs@[k]),
        decreases addrs@.len() - i,
    {
        let piece = format_ipv6(&addrs[i]);
        let ghost pdv = pieces.deep_view();
        pieces.push(piece);
        proof {
            assert(pieces.deep_view() =~~= pdv.push(piece@));
        }
        i = i + 1;
    }
    proof {
        assert(pieces.deep_view() =~~= addrs@.map_values(|a: Ipv6Address| spec_format_ipv6(a)));
    }
    join_bytes(&pieces, 44)
}

/// A formatted address is nonempty and made of colons and hexadecimal digits
/// only, so trimming keeps it intact inside a stored list and no byte of it
/// is a comma.
proof fn lemma_format_ipv6_clean(a: Ipv6Address)
    ensures
        spec_trim(spec_format_ipv6(a)) == spec_format_ipv6(a),
        spec_format_ipv6(a).len() > 0,
        forall|j: int|
            0 <= j < spec_format_ipv6(a).len() ==> spec_format_ipv6(a)[j] == 58 || is_hex_digit(
                spec_format_ipv6(a)[j],
            ),
{
    let pieces = seq![
        spec_format_group(a.g0),
        spec_format_group(a.g1),
        spec_format_group(a.g2),
        spec_format_group(a.g3),
        spec_format_group(a.g4),
        spec_format_group(a.g5),
        spec_format_group(a.g6),
        spec_format_group(a.g7),
    ];
    lemma_join_members(pieces, 58);
    assert forall|k: int, j: int| 0 <= k < 8 && 0 <= j < pieces[k].len() implies is_hex_digit(
        pieces[k][j],
    ) by {
        lemma_format_group_digits(a.groups()[k]);
        assert(pieces[k] == spec_format_group(a.groups()[k]));
    }
    let s = spec_format_ipv6(a);
    assert forall|j: int| 0 <= j < s.len() implies !crate::text::is_ascii_space(s[j]) by {}
    crate::text::lemma_trim_clean(s);
    lemma_format_group_digits(a.g0);
}

/// Every byte of a join is the separator or a byte of some piece.
proof fn lemma_join_members(ps: Seq<Seq<u8>>, sep: u8)
    ensures
        forall|j: int|
            0 <= j < spec_join(ps, sep).len() ==> spec_join(ps, sep)[j] == sep || exists|k: int,
            l: int| 0 <= k < ps.len() && 0 <= l < ps[k].len() && spec_join(ps, sep)[j] == ps[k][l],
    decreases ps.len(),
{
    if ps.len() >= 2 {
        lemma_join_members(ps.drop_first(), sep);
        let s = spec_join(ps, sep);
        let head = ps[0];
        let rest = spec_join(ps.drop_first(), sep);
        assert forall|j: int| 0 <= j < s.len() implies s[j] == sep || exists|k: int, l: int|
            0 <= k < ps.len() && 0 <= l < ps[k].len() && s[j] == ps[k][l] by {
            if j < head.len() {
                assert(s[j] == ps[0][j]);
            } else if j == head.len() {
                assert(s[j] == sep);
            } else {
                let jr = j - head.len() - 1;
                assert(s[j] == rest[jr]);
                if rest[jr] != sep {
                    let (k, l): (int, int) = choose|k: int, l: int|
                        0 <= k < ps.drop_first().len() && 0 <= l < ps.drop_first()[k].len()
                            && rest[jr] == ps.drop_first()[k][l];
                    assert(s[j] == ps[k + 1][l]);
                }
            }
        }
    }
}

/// Storing a list of addresses and reading the row back yields the same
/// addresses: formatting then parsing is the identity on address lists.
pub proof fn lemma_ipv6_list_round_trip(addrs: Seq<Ipv6Address>)
    requires
        addrs.len() >= 1,
    ensures
        spec_parse_ipv6_list(spec_format_ipv6_list(addrs)) =~= addrs,
{
    let f = |a: Ipv6Address| spec_format_ipv6(a);
    let pieces = addrs.map_values(f);
    assert forall|k: int, j: int| 0 <= k < pieces.len() && 0 <= j < pieces[k].len() implies
        pieces[k][j] != 44 by {
        lemma_format_ipv6_clean(addrs[k]);
        lemma_join_members(
            seq![
                spec_format_group(addrs[k].g0),
                spec_format_group(addrs[k].g1),
                spec_format_group(addrs[k].g2),
                spec_format_group(addrs[k].g3),
                spec_format_group(addrs[k].g4),
                spec_format_group(addrs[k].g5),
                spec_format_group(addrs[k].g6),
                spec_format_group(addrs[k].g7),
            ],
            58,
        );
    }
    lemma_split_join(pieces, 44);
    lemma_filter_parse_formatted(addrs);
}

proof fn lemma_filter_parse_formatted(addrs: Seq<Ipv6Address>)
    ensures
        spec_filter_parse(addrs.map_values(|a: Ipv6Address| spec_format_ipv6(a))) =~= addrs,
    decreases addrs.len(),
{
    let f = |a: Ipv6Address| spec_format_ipv6(a);
    let pieces = addrs.map_values(f);
    if addrs.len() > 0 {
        lemma_format_ipv6_clean(addrs[0]);
        lemma_ipv6_round_trip(addrs[0]);
        lemma_filter_parse_formatted(addrs.drop_first());
        assert(pieces.drop_first() =~~= addrs.drop_first().map_values(f));
        assert(spec_trim(pieces[0]) == pieces[0]);
        assert(spec_parse_ipv6(spec_trim(pieces[0])) == Some(addrs[0]));
        assert(seq![addrs[0]] + addrs.drop_first() =~= addrs);
    }
}

/// Parsing the hexadecimal text of a group gives the group back.
proof fn lemma_group_round_trip(n: u16)
    ensures
        spec_parse_group(spec_format_group(n)) == Some(n),
{
    if n < 0x10 {
        assert(hex_val(hex_digit(n as int)) == n as int);
    } else if n < 0x100 {
        assert(n as int == 16 * (n as int / 16) + n as int % 16);
        assert(hex_val(hex_digit(n as int / 16)) == n as int / 16);
        assert(hex_val(hex_digit(n as int % 16)) == n as int % 16);
    } else if n < 0x1000 {
        assert(n as int == 256 * (n as int / 256) + 16 * ((n as int / 16) % 16) + n as int % 16)
            by (nonlinear_arith);
        assert(hex_val(hex_digit(n as int / 256)) == n as int / 256);
        assert(hex_val(hex_digit((n as int / 16) % 16)) == (n as int / 16) % 16);
        assert(hex_val(hex_digit(n as int % 16)) == n as int % 16);
    } else {
        assert(n as int == 4096 * (n as int / 4096) + 256 * ((n as int / 256) % 16) + 16 * ((
        n as int / 16) % 16) + n as int % 16) by (nonlinear_arith);
        assert(hex_val(hex_digit(n as int / 4096)) == n as int / 4096);
        assert(hex_val(hex_digit((n as int / 256) % 16)) == (n as int / 256) % 16);
        assert(hex_val(hex_digit((n as int / 16) % 16)) == (n as int / 16) % 16);
        assert(hex_val(hex_digit(n as int % 16)) == n as int % 16);
    }
}

} // verus!
