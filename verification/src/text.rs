//! Character-level text building: decimal and hexadecimal renderings of
//! integers, as mathematical character sequences and as executable writers.
use vstd::prelude::*;

verus! {

/// `String::push` appends exactly one character to the end of the string.
pub assume_specification[ String::push ](s: &mut String, ch: char)
    ensures
        final(s)@ == old(s)@.push(ch),
;

/// The upper-case hexadecimal digit for `d` (`0..=9`, then `A..=F`).
pub open spec fn hex_digit(d: int) -> char {
    if d < 10 {
        (48 + d) as char
    } else {
        (55 + d) as char
    }
}

/// The decimal digit for `d`.
pub open spec fn dec_digit(d: int) -> char {
    (48 + d) as char
}

/// Decimal rendering of `n` without leading zeros (`"0"` for zero).
pub open spec fn dec_str(n: nat) -> Seq<char>
    decreases n,
{
    if n < 10 {
        seq![dec_digit(n as int)]
    } else {
        dec_str(n / 10).push(dec_digit((n % 10) as int))
    }
}

/// Upper-case hexadecimal rendering of `n` without leading zeros (`"0"` for zero).
pub open spec fn hex_str(n: nat) -> Seq<char>
    decreases n,
{
    if n < 16 {
        seq![hex_digit(n as int)]
    } else {
        hex_str(n / 16).push(hex_digit((n % 16) as int))
    }
}

/// `s` left-padded with `'0'` up to `width` characters.
pub open spec fn zero_pad(s: Seq<char>, width: nat) -> Seq<char> {
    if s.len() < width {
        Seq::new((width - s.len()) as nat, |i: int| '0') + s
    } else {
        s
    }
}

/// The two upper-case hexadecimal digits of a byte.
pub open spec fn byte_hex(b: u8) -> Seq<char> {
    seq![hex_digit((b / 16) as int), hex_digit((b % 16) as int)]
}

/// Bytes rendered as two-digit upper-case hexadecimal, separated by single spaces.
pub open spec fn hex_join(bs: Seq<u8>) -> Seq<char>
    decreases bs.len(),
{
    if bs.len() == 0 {
        Seq::empty()
    } else if bs.len() == 1 {
        byte_hex(bs[0])
    } else {
        hex_join(bs.drop_last()) + seq![' '] + byte_hex(bs.last())
    }
}

/// The character for hexadecimal digit value `d`.
pub fn hex_digit_char(d: u8) -> (c: char)
    requires
        d < 16,
    ensures
        c == hex_digit(d as int),
{
    if d < 10 {
        (48u8 + d) as char
    } else {
        (55u8 + d) as char
    }
}

/// Appends the decimal rendering of `n`.
pub fn push_dec(s: &mut String, n: u64)
    ensures
        final(s)@ == old(s)@ + dec_str(n as nat),
    decreases n,
{
    if n >= 10 {
        push_dec(s, n / 10);
    }
    let d: u8 = (n % 10) as u8;
    s.push((48u8 + d) as char);
    assert(final(s)@ =~= old(s)@ + dec_str(n as nat));
}

/// Decimal rendering of an integer, with a leading `'-'` when negative.
pub open spec fn signed_dec_str(n: int) -> Seq<char> {
    if n < 0 {
        seq!['-'] + dec_str((-n) as nat)
    } else {
        dec_str(n as nat)
    }
}

/// Appends the decimal rendering of `n`, with a leading `'-'` when negative.
pub fn push_signed_dec(s: &mut String, n: i64)
    ensures
        final(s)@ == old(s)@ + signed_dec_str(n as int),
{
    if n < 0 {
        s.push('-');
        let m: u64 = (0i128 - n as i128) as u64;
        push_dec(s, m);
        assert(final(s)@ =~= old(s)@ + signed_dec_str(n as int));
    } else {
        push_dec(s, n as u64);
    }
}

/// Appends the upper-case hexadecimal rendering of `n`.
pub fn push_hex(s: &mut String, n: u64)
    ensures
        final(s)@ == old(s)@ + hex_str(n as nat),
    decreases n,
{
    if n >= 16 {
        push_hex(s, n / 16);
    }
    let d: u8 = (n % 16) as u8;
    s.push(hex_digit_char(d));
    assert(final(s)@ =~= old(s)@ + hex_str(n as nat));
}

/// Appends the two hexadecimal digits of a byte.
pub fn push_byte_hex(s: &mut String, b: u8)
    ensures
        final(s)@ == old(s)@ + byte_hex(b),
{
    s.push(hex_digit_char(b / 16));
    s.push(hex_digit_char(b % 16));
    assert(final(s)@ =~= old(s)@ + byte_hex(b));
}

/// The number of characters in the hexadecimal rendering of `n`.
pub fn hex_len(n: u64) -> (r: usize)
    ensures
        r == hex_str(n as nat).len(),
        1 <= r <= 16,
    decreases n,
{
    if n < 16 {
        1
    } else {
        let r = hex_len(n / 16);
        assert(r < 16) by {
            reveal_with_fuel(pow16, 16);
            assert(pow16(15) == 0x1000_0000_0000_0000);
            lemma_hex_len_bound((n / 16) as nat, 15);
        }
        r + 1
    }
}

/// Sixteen to the power `k`.
pub open spec fn pow16(k: nat) -> nat
    decreases k,
{
    if k == 0 {
        1
    } else {
        16 * pow16((k - 1) as nat)
    }
}

/// The hexadecimal rendering of a value below `16^k` has at most `k` digits.
pub proof fn lemma_hex_len_bound(n: nat, k: nat)
    requires
        k >= 1,
        n < pow16(k),
    ensures
        hex_str(n).len() <= k,
    decreases n,
{
    if n >= 16 {
        reveal_with_fuel(pow16, 2);
        let p = pow16((k - 1) as nat);
        assert(k >= 2);
        assert(n / 16 < p) by (nonlinear_arith)
            requires
                n < 16 * p,
        ;
        lemma_hex_len_bound(n / 16, (k - 1) as nat);
    }
}

/// A copy of `s`.
pub fn copy_string(s: &String) -> (r: String)
    ensures
        r@ == s@,
{
    s.clone()
}

/// Renders bytes as space-separated upper-case hexadecimal pairs, e.g. `"68 04 07"`.
pub fn hex_bytes(data: &[u8]) -> (r: String)
    ensures
        r@ == hex_join(data@),
{
    let mut s = String::new();
    let mut i: usize = 0;
    while i < data.len()
        invariant
            i <= data.len(),
            s@ == hex_join(data@.subrange(0, i as int)),
        decreases data.len() - i,
    {
        if i > 0 {
            s.push(' ');
        }
        push_byte_hex(&mut s, data[i]);
        proof {
            let t = data@.subrange(0, i + 1);
            assert(t.drop_last() =~= data@.subrange(0, i as int));
            assert(t.last() == data@[i as int]);
            assert(s@ =~= hex_join(t));
        }
        i = i + 1;
    }
    assert(data@.subrange(0, data.len() as int) =~= data@);
    s
}

/// The characters of `s`, in order.
pub fn chars_of(s: &str) -> (r: Vec<char>)
    ensures
        r@ == s@,
{
    broadcast use vstd::string::group_string_axioms;

    let mut out: Vec<char> = Vec::new();
    for c in it: s.chars()
        invariant
            it.seq() == s@,
            out@ == it.seq().take(it.index()),
    {
        assert(c == it.seq()[it.index()]);
        out.push(c);
        assert(out@ =~= it.seq().take(it.index() + 1));
    }
    assert(s@.take(s@.len() as int) =~= s@);
    out
}

/// Whether two strings hold the same characters.
pub fn str_eq(a: &str, b: &str) -> (r: bool)
    ensures
        r == (a@ == b@),
{
    let x = chars_of(a);
    let y = chars_of(b);
    if x.len() != y.len() {
        return false;
    }
    let mut i: usize = 0;
    while i < x.len()
        invariant
            x@ == a@,
            y@ == b@,
            x@.len() == y@.len(),
            i <= x@.len(),
            forall|j: int| 0 <= j < i ==> x@[j] == y@[j],
        decreases x@.len() - i,
    {
        if x[i] != y[i] {
            return false;
        }
        i = i + 1;
    }
    assert(x@ =~= y@);
    true
}

} // verus!
