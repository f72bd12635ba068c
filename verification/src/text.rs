//! Decimal rendering of small numbers, used for the dotted-quad and
//! host:port text forms of peer addresses.

use vstd::prelude::*;

verus! {

/// The ASCII character for the digit `d`.
pub open spec fn digit_char(d: nat) -> char {
    if d == 0 { '0' } else if d == 1 { '1' } else if d == 2 { '2' } else if d == 3 { '3' }
    else if d == 4 { '4' } else if d == 5 { '5' } else if d == 6 { '6' } else if d == 7 { '7' }
    else if d == 8 { '8' } else { '9' }
}

/// The decimal digits of `n` as characters, most significant first.
pub open spec fn dec_chars(n: nat) -> Seq<char>
    decreases n,
{
    if n < 10 {
        seq![digit_char(n)]
    } else {
        dec_chars(n / 10).push(digit_char(n % 10))
    }
}

/// One-character string for the digit `d`.
pub fn digit_str(d: usize) -> (s: &'static str)
    requires
        d < 10,
    ensures
        s@ == seq![digit_char(d as nat)],
{
    if d == 0 { proof { reveal_strlit("0"); assert("0"@ =~= seq![digit_char(0)]); } "0" }
    else if d == 1 { proof { reveal_strlit("1"); assert("1"@ =~= seq![digit_char(1)]); } "1" }
    else if d == 2 { proof { reveal_strlit("2"); assert("2"@ =~= seq![digit_char(2)]); } "2" }
    else if d == 3 { proof { reveal_strlit("3"); assert("3"@ =~= seq![digit_char(3)]); } "3" }
    else if d == 4 { proof { reveal_strlit("4"); assert("4"@ =~= seq![digit_char(4)]); } "4" }
    else if d == 5 { proof { reveal_strlit("5"); assert("5"@ =~= seq![digit_char(5)]); } "5" }
    else if d == 6 { proof { reveal_strlit("6"); assert("6"@ =~= seq![digit_char(6)]); } "6" }
    else if d == 7 { proof { reveal_strlit("7"); assert("7"@ =~= seq![digit_char(7)]); } "7" }
    else if d == 8 { proof { reveal_strlit("8"); assert("8"@ =~= seq![digit_char(8)]); } "8" }
    else { proof { reveal_strlit("9"); assert("9"@ =~= seq![digit_char(9)]); } "9" }
}

/// Appends the decimal digits of `n` to `out`.
pub fn push_dec_str(out: &mut String, n: usize)
    ensures
        final(out)@ == old(out)@ + dec_chars(n as nat),
    decreases n,
{
    if n >= 10 {
        push_dec_str(out, n / 10);
        out.append(digit_str(n % 10));
        proof {
            assert(out@ =~= old(out)@ + dec_chars(n as nat));
        }
    } else {
        out.append(digit_str(n));
        proof {
            assert(out@ =~= old(out)@ + dec_chars(n as nat));
        }
    }
}

/// The dotted-quad text of a 4-byte address.
pub open spec fn quad_chars(ip: Seq<u8>) -> Seq<char>
    recommends
        ip.len() == 4,
{
    dec_chars(ip[0] as nat) + seq!['.'] + dec_chars(ip[1] as nat) + seq!['.'] + dec_chars(
        ip[2] as nat,
    ) + seq!['.'] + dec_chars(ip[3] as nat)
}

/// The `address:port` text of a 4-byte address and a port.
pub open spec fn host_chars(ip: Seq<u8>, port: nat) -> Seq<char>
    recommends
        ip.len() == 4,
{
    quad_chars(ip) + seq![':'] + dec_chars(port)
}

/// Builds the dotted-quad text of `ip`.
pub fn quad_string(ip: &[u8; 4]) -> (r: String)
    ensures
        r@ == quad_chars(ip@),
{
    let mut s = String::new();
    push_dec_str(&mut s, ip[0] as usize);
    s.append(".");
    push_dec_str(&mut s, ip[1] as usize);
    s.append(".");
    push_dec_str(&mut s, ip[2] as usize);
    s.append(".");
    push_dec_str(&mut s, ip[3] as usize);
    proof {
        reveal_strlit(".");
        assert("."@ =~= seq!['.']);
        assert(s@ =~= quad_chars(ip@));
    }
    s
}

/// Appends `:port` to the dotted-quad text in `out`.
pub fn push_port(out: &mut String, port: u16)
    ensures
        final(out)@ == old(out)@ + seq![':'] + dec_chars(port as nat),
{
    out.append(":");
    push_dec_str(out, port as usize);
    proof {
        reveal_strlit(":");
        assert(":"@ =~= seq![':']);
        assert(out@ =~= old(out)@ + seq![':'] + dec_chars(port as nat));
    }
}

} // verus!
