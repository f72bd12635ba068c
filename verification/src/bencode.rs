//! Bencode primitives: mathematical description of the encoding, executable
//! builders for the byte forms the protocol emits, and a verified
//! recursive-descent reader for untrusted inbound bytes.

use vstd::prelude::*;

verus! {

// ---------------------------------------------------------------------------
// Decimal digit runs
// ---------------------------------------------------------------------------

/// ASCII decimal digit.
pub open spec fn is_digit(b: u8) -> bool {
    48 <= b && b <= 57
}

/// The ASCII decimal digits of `n`, most significant first.
pub open spec fn dec_seq(n: nat) -> Seq<u8>
    decreases n,
{
    if n < 10 {
        seq![(48 + n) as u8]
    } else {
        dec_seq(n / 10).push((48 + n % 10) as u8)
    }
}

/// Powers of ten.
pub open spec fn dec_pow(k: nat) -> nat
    decreases k,
{
    if k == 0 {
        1
    } else {
        10 * dec_pow((k - 1) as nat)
    }
}

/// A number below the `k`-th power of ten has at most `k` digits.
pub proof fn lemma_dec_seq_len(n: nat, k: nat)
    requires
        k >= 1,
        n < dec_pow(k),
    ensures
        dec_seq(n).len() <= k,
    decreases n,
{
    if n >= 10 {
        if k == 1 {
            assert(dec_pow(1) == 10) by {
                reveal_with_fuel(dec_pow, 2);
            }
        } else {
            assert(n < 10 * dec_pow((k - 1) as nat));
            assert(n / 10 < dec_pow((k - 1) as nat)) by (nonlinear_arith)
                requires
                    n < 10 * dec_pow((k - 1) as nat),
            ;
            lemma_dec_seq_len(n / 10, (k - 1) as nat);
        }
    }
}

/// A 64-bit number has at most twenty decimal digits.
pub proof fn lemma_dec_seq_len20(n: nat)
    requires
        n <= u64::MAX,
    ensures
        dec_seq(n).len() <= 20,
{
    assert(dec_pow(20) > u64::MAX) by {
        reveal_with_fuel(dec_pow, 21);
    }
    lemma_dec_seq_len(n, 20);
}

/// The four big-endian bytes of a length, reduced to 32 bits.
pub open spec fn be32n(n: nat) -> Seq<u8> {
    seq![
        ((n / 0x1000000) % 256) as u8,
        ((n / 0x10000) % 256) as u8,
        ((n / 256) % 256) as u8,
        (n % 256) as u8,
    ]
}

/// Appends the four big-endian bytes of `n` reduced to 32 bits.
pub fn push_be32n(out: &mut Vec<u8>, n: usize)
    ensures
        final(out)@ == old(out)@ + be32n(n as nat),
{
    out.push(((n / 0x1000000) % 256) as u8);
    out.push(((n / 0x10000) % 256) as u8);
    out.push(((n / 256) % 256) as u8);
    out.push((n % 256) as u8);
    proof {
        assert(out@ =~= old(out)@ + be32n(n as nat));
    }
}

/// A bencoded byte string: decimal length, a colon, then the bytes.
pub open spec fn benc_str(s: Seq<u8>) -> Seq<u8> {
    dec_seq(s.len()) + seq![58u8] + s
}

/// A bencoded non-negative integer: `i`, decimal digits, `e`.
pub open spec fn benc_nat(n: nat) -> Seq<u8> {
    seq![105u8] + dec_seq(n) + seq![101u8]
}

/// Appends the decimal digits of `n` to `out`.
pub fn push_dec(out: &mut Vec<u8>, n: usize)
    ensures
        final(out)@ == old(out)@ + dec_seq(n as nat),
    decreases n,
{
    if n >= 10 {
        push_dec(out, n / 10);
        out.push(48 + (n % 10) as u8);
        proof {
            assert(out@ =~= old(out)@ + dec_seq(n as nat));
        }
    } else {
        out.push(48 + n as u8);
        proof {
            assert(out@ =~= old(out)@ + dec_seq(n as nat));
        }
    }
}

/// Appends all of `src` to `out`.
pub fn push_bytes(out: &mut Vec<u8>, src: &[u8])
    ensures
        final(out)@ == old(out)@ + src@,
{
    let n: usize = src.len();
    let mut i: usize = 0;
    while i < n
        invariant
            i <= n,
            n == src@.len(),
            out@ == old(out)@ + src@.subrange(0, i as int),
        decreases n - i,
    {
        out.push(src[i]);
        proof {
            assert(src@.subrange(0, i + 1) =~= src@.subrange(0, i as int).push(src@[i as int]));
        }
        i = i + 1;
    }
    proof {
        assert(src@.subrange(0, n as int) =~= src@);
    }
}

/// Appends the bencoded form of the byte string `src` to `out`.
pub fn push_bstr(out: &mut Vec<u8>, src: &[u8])
    ensures
        final(out)@ == old(out)@ + benc_str(src@),
{
    push_dec(out, src.len());
    out.push(58);
    push_bytes(out, src);
    proof {
        assert(out@ =~= old(out)@ + benc_str(src@));
    }
}

/// Appends the bencoded form of the integer `n` to `out`.
pub fn push_bnat(out: &mut Vec<u8>, n: usize)
    ensures
        final(out)@ == old(out)@ + benc_nat(n as nat),
{
    out.push(105);
    push_dec(out, n);
    out.push(101);
    proof {
        assert(out@ =~= old(out)@ + benc_nat(n as nat));
    }
}

// ---------------------------------------------------------------------------
// Reading: digit runs and their numeric value
// ---------------------------------------------------------------------------

/// Index of the first non-digit byte at or after `pos`.
pub open spec fn digits_end(s: Seq<u8>, pos: int) -> int
    decreases s.len() - pos,
    when 0 <= pos <= s.len()
{
    if pos < s.len() && is_digit(s[pos]) {
        digits_end(s, pos + 1)
    } else {
        pos
    }
}

/// Numeric value of the decimal digits `s[a..b)`.
pub open spec fn dec_val(s: Seq<u8>, a: int, b: int) -> nat
    decreases b - a,
    when a <= b
{
    if b <= a {
        0
    } else {
        dec_val(s, a, b - 1) * 10 + (if s[b - 1] >= 48 { (s[b - 1] - 48) as nat } else { 0 })
    }
}

/// A digit run's value only grows as more digits are appended.
pub proof fn lemma_dec_val_grows(s: Seq<u8>, a: int, c: int, b: int)
    requires
        a <= c <= b,
    ensures
        dec_val(s, a, b) >= dec_val(s, a, c),
    decreases b - c,
{
    if c < b {
        lemma_dec_val_grows(s, a, c, b - 1);
        assert(dec_val(s, a, b) >= dec_val(s, a, b - 1)) by {
            assert(dec_val(s, a, b - 1) * 10 >= dec_val(s, a, b - 1) * 1) by (nonlinear_arith);
        }
    }
}

/// Advances past the digit run starting at `pos`.
pub fn digits_end_x(s: &[u8], pos: usize) -> (r: usize)
    requires
        pos <= s@.len(),
    ensures
        r == digits_end(s@, pos as int),
        pos <= r <= s@.len(),
{
    let n: usize = s.len();
    let mut i: usize = pos;
    while i < n && 48 <= s[i] && s[i] <= 57
        invariant
            pos <= i <= n,
            n == s@.len(),
            digits_end(s@, pos as int) == digits_end(s@, i as int),
        decreases n - i,
    {
        i = i + 1;
    }
    i
}

/// Computes `dec_val(s, a, b)` when it fits below `cap`; reports an
/// overflow otherwise.
fn dec_val_x(s: &[u8], a: usize, b: usize, cap: usize) -> (r: Option<usize>)
    requires
        a <= b <= s@.len(),
    ensures
        match r {
            Some(v) => v == dec_val(s@, a as int, b as int) && v <= cap,
            None => dec_val(s@, a as int, b as int) > cap,
        },
{
    let mut acc: usize = 0;
    let mut i: usize = a;
    while i < b
        invariant
            a <= i <= b <= s@.len(),
            acc == dec_val(s@, a as int, i as int),
            acc <= cap,
        decreases b - i,
    {
        let d: usize = if s[i] >= 48 { (s[i] - 48) as usize } else { 0 };
        let next: Option<usize> = acc.checked_mul(10);
        match next {
            Some(m) => {
                let next2: Option<usize> = m.checked_add(d);
                match next2 {
                    Some(v) => {
                        if v > cap {
                            proof {
                                lemma_dec_val_grows(s@, a as int, i + 1, b as int);
                            }
                            return None;
                        }
                        acc = v;
                    },
                    None => {
                        proof {
                            lemma_dec_val_grows(s@, a as int, i + 1, b as int);
                        }
                        return None;
                    },
                }
            },
            None => {
                proof {
                    assert(acc * 10 + d >= acc * 10);
                    lemma_dec_val_grows(s@, a as int, i + 1, b as int);
                }
                return None;
            },
        }
        i = i + 1;
    }
    Some(acc)
}

/// As `dec_val_x`, with a 64-bit accumulator for integer values.
fn dec_val_x64(s: &[u8], a: usize, b: usize, cap: u64) -> (r: Option<u64>)
    requires
        a <= b <= s@.len(),
    ensures
        match r {
            Some(v) => v == dec_val(s@, a as int, b as int) && v <= cap,
            None => dec_val(s@, a as int, b as int) > cap,
        },
{
    let mut acc: u64 = 0;
    let mut i: usize = a;
    while i < b
        invariant
            a <= i <= b <= s@.len(),
            acc == dec_val(s@, a as int, i as int),
            acc <= cap,
        decreases b - i,
    {
        let d: u64 = if s[i] >= 48 { (s[i] - 48) as u64 } else { 0 };
        let next: Option<u64> = acc.checked_mul(10);
        match next {
            Some(m) => {
                let next2: Option<u64> = m.checked_add(d);
                match next2 {
                    Some(v) => {
                        if v > cap {
                            proof {
                                lemma_dec_val_grows(s@, a as int, i + 1, b as int);
                            }
                            return None;
                        }
                        acc = v;
                    },
                    None => {
                        proof {
                            lemma_dec_val_grows(s@, a as int, i + 1, b as int);
                        }
                        return None;
                    },
                }
            },
            None => {
                proof {
                    assert(acc * 10 + d >= acc * 10);
                    lemma_dec_val_grows(s@, a as int, i + 1, b as int);
                }
                return None;
            },
        }
        i = i + 1;
    }
    Some(acc)
}

// ---------------------------------------------------------------------------
// Reading: byte strings and integers
// ---------------------------------------------------------------------------

/// Reads a bencoded byte string at `pos`; yields the content bounds
/// `(start, end)`.  Fails when there is no digit run, no colon, or the
/// announced length overruns the input.
pub open spec fn parse_bstr(s: Seq<u8>, pos: int) -> Option<(int, int)>
    recommends
        0 <= pos <= s.len(),
{
    let de = digits_end(s, pos);
    if de == pos {
        None
    } else if de >= s.len() || s[de] != 58 {
        None
    } else if dec_val(s, pos, de) > s.len() - (de + 1) {
        None
    } else {
        Some((de + 1, de + 1 + dec_val(s, pos, de) as int))
    }
}

pub fn parse_bstr_x(s: &[u8], pos: usize) -> (r: Option<(usize, usize)>)
    requires
        pos <= s@.len(),
    ensures
        match r {
            Some((cs, ce)) => {
                &&& parse_bstr(s@, pos as int) == Some((cs as int, ce as int))
                &&& pos < cs <= ce <= s@.len()
            },
            None => parse_bstr(s@, pos as int) is None,
        },
{
    let de: usize = digits_end_x(s, pos);
    if de == pos {
        return None;
    }
    if de == s.len() || s[de] != 58 {
        return None;
    }
    let room: usize = s.len() - (de + 1);
    match dec_val_x(s, pos, de, room) {
        Some(n) => Some((de + 1, de + 1 + n)),
        None => None,
    }
}

/// Reads a bencoded integer `i...e` at `pos`; yields `(value, end)`.
/// The digits may be preceded by one minus sign; values outside the
/// signed 64-bit range are rejected, as the envelope's consumers hold
/// integers in that range.
pub open spec fn parse_bint(s: Seq<u8>, pos: int) -> Option<(int, int)>
    recommends
        0 <= pos <= s.len(),
{
    if pos < s.len() && s[pos] == 105 {
        let neg = pos + 1 < s.len() && s[pos + 1] == 45;
        let ds = if neg { pos + 2 } else { pos + 1 };
        let de = digits_end(s, ds);
        if de == ds {
            None
        } else if de >= s.len() || s[de] != 101 {
            None
        } else {
            let v = if neg { -(dec_val(s, ds, de) as int) } else { dec_val(s, ds, de) as int };
            if v < -0x8000_0000_0000_0000 || v > 0x7fff_ffff_ffff_ffff {
                None
            } else {
                Some((v, de + 1))
            }
        }
    } else {
        None
    }
}

pub fn parse_bint_x(s: &[u8], pos: usize) -> (r: Option<(i64, usize)>)
    requires
        pos <= s@.len(),
    ensures
        match r {
            Some((v, e)) => {
                &&& parse_bint(s@, pos as int) == Some((v as int, e as int))
                &&& pos < e <= s@.len()
            },
            None => parse_bint(s@, pos as int) is None,
        },
{
    if pos == s.len() || s[pos] != 105 {
        return None;
    }
    let neg: bool = pos + 1 < s.len() && s[pos + 1] == 45;
    let ds: usize = if neg { pos + 2 } else { pos + 1 };
    if ds > s.len() {
        proof {
            assert(digits_end(s@, ds as int) == ds);
        }
        return None;
    }
    let de: usize = digits_end_x(s, ds);
    if de == ds {
        return None;
    }
    if de == s.len() || s[de] != 101 {
        return None;
    }
    let cap: u64 = if neg {
        0x8000_0000_0000_0000
    } else {
        0x7fff_ffff_ffff_ffff
    };
    let m: Option<u64> = dec_val_x64(s, ds, de, cap);
    match m {
        Some(v) => {
            if neg {
                if v == 0x8000_0000_0000_0000 {
                    Some((i64::MIN, de + 1))
                } else {
                    Some((-(v as i64), de + 1))
                }
            } else {
                Some((v as i64, de + 1))
            }
        },
        None => None,
    }
}

// ---------------------------------------------------------------------------
// Reading: skipping one arbitrary value
// ---------------------------------------------------------------------------

/// Advances past one bencoded value at `pos`.  List and dictionary bodies
/// are walked as flat item runs up to their closing `e`.  The fuel bounds
/// the recursion; the canonical callers pass more than the input's length,
/// which a well-formed value can never exhaust.
pub open spec fn skip_value(s: Seq<u8>, pos: int, fuel: nat) -> Option<int>
    decreases fuel, 0int,
    when 0 <= pos <= s.len()
{
    if pos < s.len() {
        if s[pos] == 105 {
            match parse_bint(s, pos) {
                Some((v, e)) => Some(e),
                None => None,
            }
        } else if is_digit(s[pos]) {
            match parse_bstr(s, pos) {
                Some((cs, ce)) => Some(ce),
                None => None,
            }
        } else if s[pos] == 108 || s[pos] == 100 {
            if fuel == 0 {
                None
            } else {
                skip_items(s, pos + 1, (fuel - 1) as nat)
            }
        } else {
            None
        }
    } else {
        None
    }
}

/// Advances past a run of values terminated by `e`, yielding the position
/// after the terminator.
pub open spec fn skip_items(s: Seq<u8>, pos: int, fuel: nat) -> Option<int>
    decreases fuel, 1int,
    when 0 <= pos <= s.len()
{
    if pos < s.len() && s[pos] == 101 {
        Some(pos + 1)
    } else {
        match skip_value(s, pos, fuel) {
            Some(p2) => {
                if fuel == 0 || !(p2 <= s.len()) {
                    None
                } else {
                    skip_items(s, p2, (fuel - 1) as nat)
                }
            },
            None => None,
        }
    }
}

pub fn skip_value_x(s: &[u8], pos: usize, fuel: usize) -> (r: Option<usize>)
    requires
        pos <= s@.len(),
    ensures
        match r {
            Some(p) => skip_value(s@, pos as int, fuel as nat) == Some(p as int) && pos < p
                <= s@.len(),
            None => skip_value(s@, pos as int, fuel as nat) is None,
        },
    decreases fuel, 0int,
{
    if pos == s.len() {
        return None;
    }
    let b: u8 = s[pos];
    if b == 105 {
        match parse_bint_x(s, pos) {
            Some((v, e)) => Some(e),
            None => None,
        }
    } else if 48 <= b && b <= 57 {
        match parse_bstr_x(s, pos) {
            Some((cs, ce)) => Some(ce),
            None => None,
        }
    } else if b == 108 || b == 100 {
        if fuel == 0 {
            None
        } else {
            skip_items_x(s, pos + 1, fuel - 1)
        }
    } else {
        None
    }
}

pub fn skip_items_x(s: &[u8], pos: usize, fuel: usize) -> (r: Option<usize>)
    requires
        pos <= s@.len(),
    ensures
        match r {
            Some(p) => skip_items(s@, pos as int, fuel as nat) == Some(p as int) && pos < p
                <= s@.len(),
            None => skip_items(s@, pos as int, fuel as nat) is None,
        },
    decreases fuel, 1int,
{
    if pos < s.len() && s[pos] == 101 {
        return Some(pos + 1);
    }
    match skip_value_x(s, pos, fuel) {
        Some(p2) => {
            if fuel == 0 {
                None
            } else {
                skip_items_x(s, p2, fuel - 1)
            }
        },
        None => None,
    }
}

/// Failure of a decode: the bytes do not form the expected shape.
#[derive(Clone, Copy, Debug, PartialEq, Eq)]
pub enum DecodeError {
    Malformed,
}

/// Copies the bytes `s[a..b)` into a fresh vector.
pub fn sub_vec(s: &[u8], a: usize, b: usize) -> (v: Vec<u8>)
    requires
        a <= b <= s@.len(),
    ensures
        v@ == s@.subrange(a as int, b as int),
{
    let mut v: Vec<u8> = Vec::new();
    let mut i: usize = a;
    while i < b
        invariant
            a <= i <= b <= s@.len(),
            v@ == s@.subrange(a as int, i as int),
        decreases b - i,
    {
        v.push(s[i]);
        proof {
            assert(s@.subrange(a as int, i + 1) =~= s@.subrange(a as int, i as int).push(
                s@[i as int],
            ));
        }
        i = i + 1;
    }
    v
}

// ---------------------------------------------------------------------------
// Key comparison
// ---------------------------------------------------------------------------

/// Compares the bytes `s[ks..ke)` against `lit`.
pub fn match_key(s: &[u8], ks: usize, ke: usize, lit: &[u8]) -> (b: bool)
    requires
        ks <= ke <= s@.len(),
    ensures
        b <==> s@.subrange(ks as int, ke as int) == lit@,
{
    let ghost sub = s@.subrange(ks as int, ke as int);
    if ke - ks != lit.len() {
        proof {
            assert(sub.len() != lit@.len());
        }
        return false;
    }
    let n: usize = lit.len();
    let mut i: usize = 0;
    while i < n
        invariant
            i <= n,
            n == lit@.len(),
            ks + n == ke,
            ke <= s@.len(),
            sub == s@.subrange(ks as int, ke as int),
            forall|j: int| 0 <= j < i ==> sub[j] == lit@[j],
        decreases n - i,
    {
        if s[ks + i] != lit[i] {
            proof {
                assert(sub[i as int] != lit@[i as int]);
            }
            return false;
        }
        i = i + 1;
    }
    proof {
        assert(sub =~= lit@);
    }
    true
}

} // verus!
