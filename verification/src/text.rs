//! The printable textual form of an IPv4 socket address.
//!
//! The datagram path exchanges addresses as text: four decimal octets
//! separated by dots, a colon, and a decimal port.  The canonical form is
//! fixed here as the one conversion between text and structured addresses:
//! rendering produces it, and parsing accepts exactly it — a byte string
//! parses to an address precisely when it is that address's rendering.
//! Leading zeros, empty components, out-of-range values and any other
//! shape are rejected, never an abort.

use vstd::prelude::*;

use crate::addr::{Ipv4Addr, SocketAddrV4};

verus! {

/// The dot separating the octets.
pub const BYTE_DOT: u8 = 46;
/// The colon separating host from port.
pub const BYTE_COLON: u8 = 58;
/// The digit zero.
pub const BYTE_ZERO: u8 = 48;

/// Whether a byte is an ASCII decimal digit.
pub open spec fn is_digit_byte(b: u8) -> bool {
    48 <= b && b <= 57
}

/// Whether every byte of the string is a decimal digit.
pub open spec fn all_digit_bytes(s: Seq<u8>) -> bool {
    forall|i: int| 0 <= i < s.len() ==> is_digit_byte(#[trigger] s[i])
}

/// The number a digit string denotes.
pub open spec fn dec_val(s: Seq<u8>) -> nat
    decreases s.len(),
{
    if s.len() == 0 {
        0
    } else {
        10 * dec_val(s.drop_last()) + ((s.last() - 48) as nat)
    }
}

/// The canonical decimal rendering of a number: no sign, no leading zero.
pub open spec fn dec_digits(n: nat) -> Seq<u8>
    decreases n,
{
    if n < 10 {
        seq![(48 + n) as u8]
    } else {
        dec_digits(n / 10).push((48 + n % 10) as u8)
    }
}

/// A canonical digit string: nonempty, digits only, and no leading zero
/// unless it is the single digit zero.
pub open spec fn canonical_dec(s: Seq<u8>) -> bool {
    s.len() > 0 && all_digit_bytes(s) && (s.len() > 1 ==> s[0] != BYTE_ZERO)
}

/// Powers of ten.
pub open spec fn pow10(n: nat) -> nat
    decreases n,
{
    if n == 0 {
        1
    } else {
        10 * pow10((n - 1) as nat)
    }
}

proof fn lemma_pow10_pos(n: nat)
    ensures
        pow10(n) >= 1,
    decreases n,
{
    if n > 0 {
        lemma_pow10_pos((n - 1) as nat);
    }
}

proof fn lemma_pow10_mono(i: nat, j: nat)
    requires
        i <= j,
    ensures
        pow10(i) <= pow10(j),
    decreases j,
{
    if i < j {
        lemma_pow10_mono(i, (j - 1) as nat);
        lemma_pow10_pos((j - 1) as nat);
    }
}

proof fn lemma_pow10_small()
    ensures
        pow10(0) == 1,
        pow10(1) == 10,
        pow10(2) == 100,
        pow10(3) == 1000,
        pow10(4) == 10000,
        pow10(5) == 100000,
{
    assert(pow10(0) == 1);
    assert(pow10(1) == 10);
    assert(pow10(2) == 100);
    assert(pow10(3) == 1000);
    assert(pow10(4) == 10000);
    assert(pow10(5) == 100000);
}

/// The canonical rendering of `n` is canonical, denotes `n`, and has as
/// many digits as `n` requires.
proof fn lemma_dec_digits_canonical(n: nat)
    ensures
        canonical_dec(dec_digits(n)),
        dec_val(dec_digits(n)) == n,
        n > 0 ==> dec_digits(n)[0] != BYTE_ZERO,
        n < pow10(dec_digits(n).len()),
        dec_digits(n).len() > 1 ==> n >= pow10((dec_digits(n).len() - 1) as nat),
    decreases n,
{
    if n < 10 {
        let d = dec_digits(n);
        assert(d =~= seq![(48 + n) as u8]);
        assert(d.drop_last() =~= Seq::<u8>::empty());
        assert(dec_val(Seq::<u8>::empty()) == 0);
        assert(d.last() == (48 + n) as u8);
        assert(pow10(1) == 10);
    } else {
        lemma_dec_digits_canonical(n / 10);
        let q = dec_digits(n / 10);
        let b = (48 + n % 10) as u8;
        let d = dec_digits(n);
        assert(d == q.push(b));
        assert(d.drop_last() =~= q);
        assert(d.last() == b);
        assert(dec_val(d) == 10 * (n / 10) + n % 10);
        assert(n == 10 * (n / 10) + n % 10);
        assert(d[0] == q[0]);
        assert(n / 10 >= 1);
        // upper bound: n <= 10 * (n / 10) + 9 < 10 * pow10(q.len())
        assert(n / 10 < pow10(q.len()));
        assert(n < 10 * pow10(q.len()));
        assert(pow10(d.len()) == 10 * pow10((d.len() - 1) as nat));
        assert((d.len() - 1) as nat == q.len());
        // lower bound
        if q.len() > 1 {
            assert(n / 10 >= pow10((q.len() - 1) as nat));
        } else {
            assert(pow10((q.len() - 1) as nat) == 1);
        }
        assert(n >= 10 * (n / 10));
        assert(n >= 10 * pow10((q.len() - 1) as nat));
        assert(pow10(q.len()) == 10 * pow10((q.len() - 1) as nat));
    }
}

/// A canonical digit string is the canonical rendering of its value.
proof fn lemma_canonical_digits(s: Seq<u8>)
    requires
        canonical_dec(s),
    ensures
        dec_digits(dec_val(s)) == s,
        dec_val(s) < pow10(s.len()),
        s.len() > 1 ==> dec_val(s) >= pow10((s.len() - 1) as nat),
    decreases s.len(),
{
    if s.len() == 1 {
        let v = dec_val(s);
        assert(s.drop_last() =~= Seq::<u8>::empty());
        assert(dec_val(Seq::<u8>::empty()) == 0);
        assert(s.last() == s[0]);
        assert(v == (s[0] - 48) as nat);
        assert(v < 10);
        assert(dec_digits(v) =~= seq![(48 + v) as u8]);
        assert((48 + v) as u8 == s[0]);
        assert(dec_digits(v) =~= s);
        assert(pow10(1) == 10);
    } else {
        let s1 = s.drop_last();
        assert(s1[0] == s[0]);
        assert(all_digit_bytes(s1)) by {
            assert(forall|i: int| 0 <= i < s1.len() ==> s1[i] == s[i] && is_digit_byte(#[trigger] s[i]));
        }
        assert(canonical_dec(s1));
        lemma_canonical_digits(s1);
        let a = dec_val(s1);
        let b = (s.last() - 48) as nat;
        let v = dec_val(s);
        assert(v == 10 * a + b);
        assert(b < 10);
        // a >= 1: the leading digit is not zero
        if s1.len() > 1 {
            lemma_pow10_pos((s1.len() - 1) as nat);
            assert(a >= 1);
        } else {
            assert(a == (s1[0] - 48) as nat);
            assert(s1[0] != BYTE_ZERO);
            assert(a >= 1);
        }
        assert(v >= 10);
        vstd::arithmetic::div_mod::lemma_fundamental_div_mod_converse(
            v as int,
            10,
            a as int,
            b as int,
        );
        assert(v / 10 == a && v % 10 == b);
        assert(dec_digits(v) == dec_digits(a).push((48 + b) as u8));
        assert((48 + b) as u8 == s.last());
        assert(dec_digits(v) =~= s1.push(s.last()));
        assert(s1.push(s.last()) =~= s);
        // bounds
        assert(pow10(s.len()) == 10 * pow10((s.len() - 1) as nat));
        assert((s.len() - 1) as nat == s1.len());
        assert(v < 10 * pow10(s1.len()));
        if s1.len() > 1 {
            assert(a >= pow10((s1.len() - 1) as nat));
        } else {
            assert(pow10((s1.len() - 1) as nat) == 1);
        }
        assert(v >= 10 * pow10((s1.len() - 1) as nat));
        assert(pow10((s.len() - 1) as nat) == 10 * pow10((s1.len() - 1) as nat));
    }
}

/// The canonical textual form of an IPv4 socket address:
/// `octet.octet.octet.octet:port`, each number in canonical decimal.
pub open spec fn spec_render_sockaddr_v4(a: SocketAddrV4) -> Seq<u8> {
    dec_digits(a.ip.a as nat) + seq![BYTE_DOT] + dec_digits(a.ip.b as nat) + seq![BYTE_DOT]
        + dec_digits(a.ip.c as nat) + seq![BYTE_DOT] + dec_digits(a.ip.d as nat) + seq![BYTE_COLON]
        + dec_digits(a.port as nat)
}

/// Append the canonical decimal rendering of `v`.
fn push_dec(out: &mut Vec<u8>, v: u32)
    ensures
        final(out)@ == old(out)@ + dec_digits(v as nat),
{
    let mut tmp: Vec<u8> = Vec::new();
    let mut m: u32 = v;
    while m >= 10
        invariant
            dec_digits(v as nat) =~= dec_digits(m as nat) + rev_bytes(tmp@),
        decreases m,
    {
        let d: u8 = (48 + (m % 10)) as u8;
        proof {
            assert(dec_digits(m as nat) == dec_digits((m as nat) / 10).push(
                (48 + (m as nat) % 10) as u8,
            ));
            assert((m / 10) as nat == (m as nat) / 10);
            assert(d == (48 + (m as nat) % 10) as u8);
            assert(tmp@.push(d).drop_last() =~= tmp@);
            assert(rev_bytes(tmp@.push(d)) =~= seq![d] + rev_bytes(tmp@));
            assert(dec_digits((m as nat) / 10) + rev_bytes(tmp@.push(d)) =~= dec_digits(
                m as nat,
            ) + rev_bytes(tmp@));
        }
        tmp.push(d);
        m = m / 10;
    }
    let first: u8 = (48 + m) as u8;
    proof {
        assert(dec_digits(m as nat) =~= seq![first]);
    }
    out.push(first);
    proof {
        assert(out@ + rev_bytes(tmp@) =~= old(out)@ + dec_digits(v as nat));
    }
    while tmp.len() > 0
        invariant
            out@ + rev_bytes(tmp@) =~= old(out)@ + dec_digits(v as nat),
        decreases tmp@.len(),
    {
        let ghost pre = tmp@;
        let e = tmp.pop().unwrap();
        proof {
            assert(e == pre.last());
            assert(tmp@ =~= pre.drop_last());
            assert(rev_bytes(pre) =~= seq![e] + rev_bytes(tmp@));
            assert(out@.push(e) + rev_bytes(tmp@) =~= out@ + rev_bytes(pre));
        }
        out.push(e);
    }
    proof {
        assert(rev_bytes(tmp@) =~= Seq::<u8>::empty());
        assert(out@ =~= old(out)@ + dec_digits(v as nat));
    }
}

/// The byte string read back to front.
spec fn rev_bytes(s: Seq<u8>) -> Seq<u8>
    decreases s.len(),
{
    if s.len() == 0 {
        Seq::empty()
    } else {
        seq![s.last()] + rev_bytes(s.drop_last())
    }
}

/// Render an IPv4 socket address in its canonical textual form.
pub fn render_sockaddr_v4(a: &SocketAddrV4) -> (r: Vec<u8>)
    ensures
        r@ == spec_render_sockaddr_v4(*a),
{
    let mut out: Vec<u8> = Vec::new();
    push_dec(&mut out, a.ip.a as u32);
    out.push(BYTE_DOT);
    push_dec(&mut out, a.ip.b as u32);
    out.push(BYTE_DOT);
    push_dec(&mut out, a.ip.c as u32);
    out.push(BYTE_DOT);
    push_dec(&mut out, a.ip.d as u32);
    out.push(BYTE_COLON);
    push_dec(&mut out, a.port as u32);
    proof {
        assert(out@ =~= spec_render_sockaddr_v4(*a));
    }
    out
}

// ---------------------------------------------------------------------------
// parsing
// ---------------------------------------------------------------------------

/// What a digit scan starting at `from` reports: every byte before `e` is
/// a digit and `e` is the end of the string or a non-digit.
pub open spec fn scan_post(s: Seq<u8>, from: int, e: int) -> bool {
    &&& from <= e <= s.len()
    &&& forall|t: int| from <= t < e ==> is_digit_byte(#[trigger] s[t])
    &&& (e == s.len() || !is_digit_byte(s[e]))
}

/// Find the end of the run of digits starting at `from`.
fn scan_digits(s: &Vec<u8>, from: usize) -> (end: usize)
    requires
        from <= s@.len(),
    ensures
        from <= end <= s@.len(),
        scan_post(s@, from as int, end as int),
{
    let mut i = from;
    while i < s.len() && s[i] >= 48 && s[i] <= 57
        invariant
            from <= i <= s@.len(),
            forall|t: int| from <= t < i ==> is_digit_byte(#[trigger] s@[t]),
        decreases s@.len() - i,
    {
        i += 1;
    }
    i
}

/// A digit run bounded on both sides is the one the scan finds.
proof fn lemma_scan_unique(s: Seq<u8>, from: int, e: int, tok: Seq<u8>)
    requires
        0 <= from,
        from + tok.len() <= s.len(),
        s.subrange(from, from + tok.len()) == tok,
        all_digit_bytes(tok),
        from + tok.len() == s.len() || !is_digit_byte(s[from + tok.len()]),
        scan_post(s, from, e),
    ensures
        e == from + tok.len(),
{
    let te = from + tok.len();
    if e < te {
        assert(tok[e - from] == s.subrange(from, te)[e - from]);
        assert(is_digit_byte(s[e]));
    } else if e > te {
        assert(is_digit_byte(s[te]));
    }
}

/// The value of the digit run `[start, end)`, which holds at most five
/// digits.
fn parse_dec_token(s: &Vec<u8>, start: usize, end: usize) -> (r: u32)
    requires
        start <= end <= s@.len(),
        end - start <= 5,
        forall|t: int| start <= t < end ==> is_digit_byte(#[trigger] s@[t]),
    ensures
        r as nat == dec_val(s@.subrange(start as int, end as int)),
        r < 100000,
{
    let mut i = start;
    let mut val: u32 = 0;
    proof {
        assert(s@.subrange(start as int, start as int) =~= Seq::<u8>::empty());
        assert(dec_val(Seq::<u8>::empty()) == 0);
    }
    while i < end
        invariant
            start <= i <= end,
            end <= s@.len(),
            end - start <= 5,
            forall|t: int| start <= t < end ==> is_digit_byte(#[trigger] s@[t]),
            val as nat == dec_val(s@.subrange(start as int, i as int)),
            (val as nat) < pow10((i - start) as nat),
        decreases end - i,
    {
        proof {
            lemma_pow10_small();
            lemma_pow10_mono((i - start) as nat, 4);
        }
        let d = s[i];
        proof {
            let sub_i = s@.subrange(start as int, i as int);
            let sub_n = s@.subrange(start as int, i as int + 1);
            assert(sub_n.drop_last() =~= sub_i);
            assert(sub_n.last() == s@[i as int]);
            assert(is_digit_byte(s@[i as int]));
            assert(dec_val(sub_n) == 10 * dec_val(sub_i) + ((s@[i as int] - 48) as nat));
            assert(pow10((i + 1 - start) as nat) == 10 * pow10((i - start) as nat));
        }
        val = 10 * val + ((d - 48) as u32);
        i += 1;
    }
    proof {
        lemma_pow10_small();
        lemma_pow10_mono((i - start) as nat, 5);
    }
    val
}

/// Parse one address octet: accepts exactly a canonical digit run whose
/// value fits a byte.
fn parse_octet(s: &Vec<u8>, start: usize, end: usize) -> (r: Option<u8>)
    requires
        start <= end <= s@.len(),
        forall|t: int| start <= t < end ==> is_digit_byte(#[trigger] s@[t]),
    ensures
        ({
            let tok = s@.subrange(start as int, end as int);
            match r {
                Some(v) => canonical_dec(tok) && dec_val(tok) == v as nat,
                None => !(canonical_dec(tok) && dec_val(tok) <= 255),
            }
        }),
{
    let ghost tok = s@.subrange(start as int, end as int);
    let len = end - start;
    if len == 0 {
        return None;
    }
    if len > 1 && s[start] == BYTE_ZERO {
        proof {
            assert(tok[0] == s@[start as int]);
        }
        return None;
    }
    if len > 3 {
        proof {
            if canonical_dec(tok) {
                lemma_canonical_digits(tok);
                lemma_pow10_small();
                lemma_pow10_mono(3, (tok.len() - 1) as nat);
                assert(dec_val(tok) >= 1000);
            }
        }
        return None;
    }
    let v = parse_dec_token(s, start, end);
    if v > 255 {
        return None;
    }
    proof {
        assert(tok[0] == s@[start as int]);
        assert(canonical_dec(tok));
    }
    Some(v as u8)
}

/// Parse the port: accepts exactly a canonical digit run whose value fits
/// sixteen bits.
fn parse_port(s: &Vec<u8>, start: usize, end: usize) -> (r: Option<u16>)
    requires
        start <= end <= s@.len(),
        forall|t: int| start <= t < end ==> is_digit_byte(#[trigger] s@[t]),
    ensures
        ({
            let tok = s@.subrange(start as int, end as int);
            match r {
                Some(v) => canonical_dec(tok) && dec_val(tok) == v as nat,
                None => !(canonical_dec(tok) && dec_val(tok) <= 65535),
            }
        }),
{
    let ghost tok = s@.subrange(start as int, end as int);
    let len = end - start;
    if len == 0 {
        return None;
    }
    if len > 1 && s[start] == BYTE_ZERO {
        proof {
            assert(tok[0] == s@[start as int]);
        }
        return None;
    }
    if len > 5 {
        proof {
            if canonical_dec(tok) {
                lemma_canonical_digits(tok);
                lemma_pow10_small();
                lemma_pow10_mono(5, (tok.len() - 1) as nat);
                assert(dec_val(tok) >= 100000);
            }
        }
        return None;
    }
    let v = parse_dec_token(s, start, end);
    if v > 65535 {
        return None;
    }
    proof {
        assert(tok[0] == s@[start as int]);
        assert(canonical_dec(tok));
    }
    Some(v as u16)
}

/// How a rendered address decomposes: token boundaries, separators, and
/// the value of each token.
proof fn lemma_render_boundaries(s: Seq<u8>, a: SocketAddrV4)
    requires
        s == spec_render_sockaddr_v4(a),
    ensures
        ({
            let t0 = dec_digits(a.ip.a as nat);
            let t1 = dec_digits(a.ip.b as nat);
            let t2 = dec_digits(a.ip.c as nat);
            let t3 = dec_digits(a.ip.d as nat);
            let t4 = dec_digits(a.port as nat);
            let e0 = t0.len() as int;
            let e1 = e0 + 1 + t1.len();
            let e2 = e1 + 1 + t2.len();
            let e3 = e2 + 1 + t3.len();
            &&& s.len() == t0.len() + t1.len() + t2.len() + t3.len() + t4.len() + 4
            &&& 1 <= t0.len() <= 3 && 1 <= t1.len() <= 3 && 1 <= t2.len() <= 3 && 1 <= t3.len()
                <= 3 && 1 <= t4.len() <= 5
            &&& s.subrange(0, e0) == t0 && s[e0] == BYTE_DOT
            &&& s.subrange(e0 + 1, e1) == t1 && s[e1] == BYTE_DOT
            &&& s.subrange(e1 + 1, e2) == t2 && s[e2] == BYTE_DOT
            &&& s.subrange(e2 + 1, e3) == t3 && s[e3] == BYTE_COLON
            &&& s.subrange(e3 + 1, s.len() as int) == t4
            &&& canonical_dec(t0) && canonical_dec(t1) && canonical_dec(t2) && canonical_dec(t3)
                && canonical_dec(t4)
            &&& dec_val(t0) == a.ip.a as nat && dec_val(t1) == a.ip.b as nat && dec_val(t2)
                == a.ip.c as nat && dec_val(t3) == a.ip.d as nat && dec_val(t4) == a.port as nat
        }),
{
    lemma_dec_digits_canonical(a.ip.a as nat);
    lemma_dec_digits_canonical(a.ip.b as nat);
    lemma_dec_digits_canonical(a.ip.c as nat);
    lemma_dec_digits_canonical(a.ip.d as nat);
    lemma_dec_digits_canonical(a.port as nat);
    lemma_pow10_small();
    let t0 = dec_digits(a.ip.a as nat);
    let t1 = dec_digits(a.ip.b as nat);
    let t2 = dec_digits(a.ip.c as nat);
    let t3 = dec_digits(a.ip.d as nat);
    let t4 = dec_digits(a.port as nat);
    // length bounds follow from the value bounds
    if t0.len() > 3 {
        lemma_pow10_mono(3, (t0.len() - 1) as nat);
    }
    if t1.len() > 3 {
        lemma_pow10_mono(3, (t1.len() - 1) as nat);
    }
    if t2.len() > 3 {
        lemma_pow10_mono(3, (t2.len() - 1) as nat);
    }
    if t3.len() > 3 {
        lemma_pow10_mono(3, (t3.len() - 1) as nat);
    }
    if t4.len() > 5 {
        lemma_pow10_mono(5, (t4.len() - 1) as nat);
    }
    let e0 = t0.len() as int;
    let e1 = e0 + 1 + t1.len();
    let e2 = e1 + 1 + t2.len();
    let e3 = e2 + 1 + t3.len();
    assert(s.subrange(0, e0) =~= t0);
    assert(s.subrange(e0 + 1, e1) =~= t1);
    assert(s.subrange(e1 + 1, e2) =~= t2);
    assert(s.subrange(e2 + 1, e3) =~= t3);
    assert(s.subrange(e3 + 1, s.len() as int) =~= t4);
}

/// Forced decomposition, first octet: when `s` is a rendering and a digit
/// scan from the start reported `e0`, that scan stopped at the first dot.
proof fn lemma_stage0(s: Seq<u8>, a: SocketAddrV4, e0: int)
    requires
        s == spec_render_sockaddr_v4(a),
        scan_post(s, 0, e0),
    ensures
        1 <= e0 <= 3,
        e0 + 1 < s.len(),
        s[e0] == BYTE_DOT,
        canonical_dec(s.subrange(0, e0)),
        dec_val(s.subrange(0, e0)) == a.ip.a as nat,
{
    lemma_render_boundaries(s, a);
    lemma_scan_unique(s, 0, e0, dec_digits(a.ip.a as nat));
}

/// Forced decomposition, second octet.
proof fn lemma_stage1(s: Seq<u8>, a: SocketAddrV4, e0: int, e1: int)
    requires
        s == spec_render_sockaddr_v4(a),
        scan_post(s, 0, e0),
        scan_post(s, e0 + 1, e1),
    ensures
        e0 + 2 <= e1,
        e1 + 1 < s.len(),
        s[e1] == BYTE_DOT,
        canonical_dec(s.subrange(e0 + 1, e1)),
        dec_val(s.subrange(e0 + 1, e1)) == a.ip.b as nat,
{
    lemma_stage0(s, a, e0);
    lemma_render_boundaries(s, a);
    lemma_scan_unique(s, e0 + 1, e1, dec_digits(a.ip.b as nat));
}

/// Forced decomposition, third octet.
proof fn lemma_stage2(s: Seq<u8>, a: SocketAddrV4, e0: int, e1: int, e2: int)
    requires
        s == spec_render_sockaddr_v4(a),
        scan_post(s, 0, e0),
        scan_post(s, e0 + 1, e1),
        scan_post(s, e1 + 1, e2),
    ensures
        e1 + 2 <= e2,
        e2 + 1 < s.len(),
        s[e2] == BYTE_DOT,
        canonical_dec(s.subrange(e1 + 1, e2)),
        dec_val(s.subrange(e1 + 1, e2)) == a.ip.c as nat,
{
    lemma_stage1(s, a, e0, e1);
    lemma_render_boundaries(s, a);
    lemma_scan_unique(s, e1 + 1, e2, dec_digits(a.ip.c as nat));
}

/// Forced decomposition, fourth octet.
proof fn lemma_stage3(s: Seq<u8>, a: SocketAddrV4, e0: int, e1: int, e2: int, e3: int)
    requires
        s == spec_render_sockaddr_v4(a),
        scan_post(s, 0, e0),
        scan_post(s, e0 + 1, e1),
        scan_post(s, e1 + 1, e2),
        scan_post(s, e2 + 1, e3),
    ensures
        e2 + 2 <= e3,
        e3 + 1 < s.len(),
        s[e3] == BYTE_COLON,
        canonical_dec(s.subrange(e2 + 1, e3)),
        dec_val(s.subrange(e2 + 1, e3)) == a.ip.d as nat,
{
    lemma_stage2(s, a, e0, e1, e2);
    lemma_render_boundaries(s, a);
    lemma_scan_unique(s, e2 + 1, e3, dec_digits(a.ip.d as nat));
}

/// Forced decomposition, port: the final digit run reaches the end.
proof fn lemma_stage4(s: Seq<u8>, a: SocketAddrV4, e0: int, e1: int, e2: int, e3: int, e4: int)
    requires
        s == spec_render_sockaddr_v4(a),
        scan_post(s, 0, e0),
        scan_post(s, e0 + 1, e1),
        scan_post(s, e1 + 1, e2),
        scan_post(s, e2 + 1, e3),
        scan_post(s, e3 + 1, e4),
    ensures
        e4 == s.len(),
        canonical_dec(s.subrange(e3 + 1, e4)),
        dec_val(s.subrange(e3 + 1, e4)) == a.port as nat,
{
    lemma_stage3(s, a, e0, e1, e2, e3);
    lemma_render_boundaries(s, a);
    lemma_scan_unique(s, e3 + 1, e4, dec_digits(a.port as nat));
}

/// Reassembly: canonical tokens in the right shape are a rendering.
proof fn lemma_assemble(
    s: Seq<u8>,
    e0: int,
    e1: int,
    e2: int,
    e3: int,
    a: SocketAddrV4,
)
    requires
        0 < e0 < e1 < e2 < e3 < s.len(),
        s[e0] == BYTE_DOT,
        s[e1] == BYTE_DOT,
        s[e2] == BYTE_DOT,
        s[e3] == BYTE_COLON,
        canonical_dec(s.subrange(0, e0)),
        canonical_dec(s.subrange(e0 + 1, e1)),
        canonical_dec(s.subrange(e1 + 1, e2)),
        canonical_dec(s.subrange(e2 + 1, e3)),
        canonical_dec(s.subrange(e3 + 1, s.len() as int)),
        dec_val(s.subrange(0, e0)) == a.ip.a as nat,
        dec_val(s.subrange(e0 + 1, e1)) == a.ip.b as nat,
        dec_val(s.subrange(e1 + 1, e2)) == a.ip.c as nat,
        dec_val(s.subrange(e2 + 1, e3)) == a.ip.d as nat,
        dec_val(s.subrange(e3 + 1, s.len() as int)) == a.port as nat,
    ensures
        s == spec_render_sockaddr_v4(a),
{
    let s0 = s.subrange(0, e0);
    let s1 = s.subrange(e0 + 1, e1);
    let s2 = s.subrange(e1 + 1, e2);
    let s3 = s.subrange(e2 + 1, e3);
    let s4 = s.subrange(e3 + 1, s.len() as int);
    lemma_canonical_digits(s0);
    lemma_canonical_digits(s1);
    lemma_canonical_digits(s2);
    lemma_canonical_digits(s3);
    lemma_canonical_digits(s4);
    assert(s =~= s0 + seq![BYTE_DOT] + s1 + seq![BYTE_DOT] + s2 + seq![BYTE_DOT] + s3
        + seq![BYTE_COLON] + s4);
}

/// Parse the canonical textual form of an IPv4 socket address.
///
/// Law: parsing is exactly the inverse of rendering.  A byte string parses
/// to an address precisely when it is that address's canonical rendering;
/// every other input is rejected with `None`, never an abort.
#[verifier::rlimit(50)]
#[verifier::spinoff_prover]
pub fn parse_sockaddr_v4(s: &Vec<u8>) -> (r: Option<SocketAddrV4>)
    ensures
        match r {
            Some(a) => s@ == spec_render_sockaddr_v4(a),
            None => forall|a: SocketAddrV4| s@ != spec_render_sockaddr_v4(a),
        },
{
    let n = s.len();
    let e0 = scan_digits(s, 0);
    if e0 >= n || s[e0] != BYTE_DOT {
        proof {
            assert forall|a: SocketAddrV4| s@ != spec_render_sockaddr_v4(a) by {
                if s@ == spec_render_sockaddr_v4(a) {
                    lemma_stage0(s@, a, e0 as int);
                }
            }
        }
        return None;
    }
    let octet0 = parse_octet(s, 0, e0);
    if octet0.is_none() {
        proof {
            assert forall|a: SocketAddrV4| s@ != spec_render_sockaddr_v4(a) by {
                if s@ == spec_render_sockaddr_v4(a) {
                    lemma_stage0(s@, a, e0 as int);
                }
            }
        }
        return None;
    }
    let p1 = e0 + 1;
    let e1 = scan_digits(s, p1);
    if e1 >= n || s[e1] != BYTE_DOT {
        proof {
            assert forall|a: SocketAddrV4| s@ != spec_render_sockaddr_v4(a) by {
                if s@ == spec_render_sockaddr_v4(a) {
                    lemma_stage1(s@, a, e0 as int, e1 as int);
                }
            }
        }
        return None;
    }
    let octet1 = parse_octet(s, p1, e1);
    if octet1.is_none() {
        proof {
            assert forall|a: SocketAddrV4| s@ != spec_render_sockaddr_v4(a) by {
                if s@ == spec_render_sockaddr_v4(a) {
                    lemma_stage1(s@, a, e0 as int, e1 as int);
                }
            }
        }
        return None;
    }
    let p2 = e1 + 1;
    let e2 = scan_digits(s, p2);
    if e2 >= n || s[e2] != BYTE_DOT {
        proof {
            assert forall|a: SocketAddrV4| s@ != spec_render_sockaddr_v4(a) by {
                if s@ == spec_render_sockaddr_v4(a) {
                    lemma_stage2(s@, a, e0 as int, e1 as int, e2 as int);
                }
            }
        }
        return None;
    }
    let octet2 = parse_octet(s, p2, e2);
    if octet2.is_none() {
        proof {
            assert forall|a: SocketAddrV4| s@ != spec_render_sockaddr_v4(a) by {
                if s@ == spec_render_sockaddr_v4(a) {
                    lemma_stage2(s@, a, e0 as int, e1 as int, e2 as int);
                }
            }
        }
        return None;
    }
    let p3 = e2 + 1;
    let e3 = scan_digits(s, p3);
    if e3 >= n || s[e3] != BYTE_COLON {
        proof {
            assert forall|a: SocketAddrV4| s@ != spec_render_sockaddr_v4(a) by {
                if s@ == spec_render_sockaddr_v4(a) {
                    lemma_stage3(s@, a, e0 as int, e1 as int, e2 as int, e3 as int);
                }
            }
        }
        return None;
    }
    let octet3 = parse_octet(s, p3, e3);
    if octet3.is_none() {
        proof {
            assert forall|a: SocketAddrV4| s@ != spec_render_sockaddr_v4(a) by {
                if s@ == spec_render_sockaddr_v4(a) {
                    lemma_stage3(s@, a, e0 as int, e1 as int, e2 as int, e3 as int);
                }
            }
        }
        return None;
    }
    let p4 = e3 + 1;
    let e4 = scan_digits(s, p4);
    if e4 != n {
        proof {
            assert forall|a: SocketAddrV4| s@ != spec_render_sockaddr_v4(a) by {
                if s@ == spec_render_sockaddr_v4(a) {
                    lemma_stage4(s@, a, e0 as int, e1 as int, e2 as int, e3 as int, e4 as int);
                }
            }
        }
        return None;
    }
    let port_val = parse_port(s, p4, e4);
    if port_val.is_none() {
        proof {
            assert forall|a: SocketAddrV4| s@ != spec_render_sockaddr_v4(a) by {
                if s@ == spec_render_sockaddr_v4(a) {
                    lemma_stage4(s@, a, e0 as int, e1 as int, e2 as int, e3 as int, e4 as int);
                }
            }
        }
        return None;
    }
    let o0 = octet0.unwrap();
    let o1 = octet1.unwrap();
    let o2 = octet2.unwrap();
    let o3 = octet3.unwrap();
    let port = port_val.unwrap();
    let out = SocketAddrV4 { ip: Ipv4Addr { a: o0, b: o1, c: o2, d: o3 }, port };
    proof {
        lemma_assemble(s@, e0 as int, e1 as int, e2 as int, e3 as int, out);
    }
    Some(out)
}

} // verus!
