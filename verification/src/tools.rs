//! Operator tools: hexadecimal dump/parse and information object address display.
use crate::text;
use vstd::prelude::*;

verus! {

/// Errors of the hexadecimal parser.
#[derive(Debug, Clone, Copy, PartialEq, Eq, Structural)]
pub enum ToolError {
    /// hex string has odd length
    InvalidHexLength,
    /// invalid hex character
    InvalidHexChar,
}

/// Unicode `White_Space`, the property that `char::is_whitespace` tests.
pub open spec fn is_whitespace(c: char) -> bool {
    let u = c as u32;
    ||| 9 <= u <= 13
    ||| u == 32
    ||| u == 0x85
    ||| u == 0xA0
    ||| u == 0x1680
    ||| 0x2000 <= u <= 0x200A
    ||| u == 0x2028
    ||| u == 0x2029
    ||| u == 0x202F
    ||| u == 0x205F
    ||| u == 0x3000
}

/// Number of bytes in the UTF-8 encoding of `c`.
pub open spec fn utf8_len(c: char) -> nat {
    let u = c as u32;
    if u < 0x80 {
        1
    } else if u < 0x800 {
        2
    } else if u < 0x10000 {
        3
    } else {
        4
    }
}

/// Number of bytes in the UTF-8 encoding of a character sequence.
pub open spec fn byte_len(cs: Seq<char>) -> nat
    decreases cs.len(),
{
    if cs.len() == 0 {
        0
    } else {
        byte_len(cs.drop_last()) + utf8_len(cs.last())
    }
}

/// The value of a hexadecimal digit (either case).
pub open spec fn hex_value(c: char) -> Option<u8> {
    let u = c as u32;
    if 48 <= u <= 57 {
        Some((u - 48) as u8)
    } else if 65 <= u <= 70 {
        Some((u - 55) as u8)
    } else if 97 <= u <= 102 {
        Some((u - 87) as u8)
    } else {
        None
    }
}

/// The byte that two hexadecimal digits stand for, if both are digits.
pub open spec fn pair_value(a: char, b: char) -> Option<u8> {
    match (hex_value(a), hex_value(b)) {
        (Some(x), Some(y)) => Some((16 * x + y) as u8),
        _ => None,
    }
}

/// The outcome of reading whitespace-free input two bytes at a time.
pub enum HexScan {
    /// every two-byte piece was a valid hexadecimal byte
    Bytes(Seq<u8>),
    /// a two-byte piece is not a hexadecimal byte
    BadChar,
    /// a two-byte piece would end inside a multi-byte character
    SplitsChar,
}

/// Reads `cs` (its UTF-8 bytes) in two-byte pieces from the front, stopping at
/// the first piece that is not a byte in hexadecimal.
pub open spec fn hex_scan(cs: Seq<char>) -> HexScan
    decreases cs.len(),
{
    if cs.len() == 0 {
        HexScan::Bytes(Seq::empty())
    } else if utf8_len(cs[0]) == 1 {
        if cs.len() < 2 || utf8_len(cs[1]) != 1 {
            HexScan::SplitsChar
        } else {
            match pair_value(cs[0], cs[1]) {
                None => HexScan::BadChar,
                Some(v) => match hex_scan(cs.skip(2)) {
                    HexScan::Bytes(rest) => HexScan::Bytes(seq![v] + rest),
                    other => other,
                },
            }
        }
    } else if utf8_len(cs[0]) == 2 {
        HexScan::BadChar
    } else {
        HexScan::SplitsChar
    }
}

/// The test that keeps a character: it is not whitespace.
pub open spec fn keep_char() -> spec_fn(char) -> bool {
    |c: char| !is_whitespace(c)
}

/// The input with every whitespace character removed.
pub open spec fn strip_whitespace(s: Seq<char>) -> Seq<char> {
    s.filter(keep_char())
}

/// What `parse_hex_string` returns for the characters `s`.
pub open spec fn spec_parse_hex(s: Seq<char>) -> Result<Seq<u8>, ToolError> {
    let cleaned = strip_whitespace(s);
    if byte_len(cleaned) % 2 == 1 {
        Err(ToolError::InvalidHexLength)
    } else {
        match hex_scan(cleaned) {
            HexScan::Bytes(b) => Ok(b),
            _ => Err(ToolError::InvalidHexChar),
        }
    }
}

/// The inputs on which reading two bytes at a time would cut a multi-byte
/// character in half.
pub open spec fn hex_parse_splits_char(s: Seq<char>) -> bool {
    let cleaned = strip_whitespace(s);
    byte_len(cleaned) % 2 == 0 && hex_scan(cleaned) is SplitsChar
}

/// Whether `c` is Unicode whitespace.
pub fn char_is_whitespace(c: char) -> (r: bool)
    ensures
        r == is_whitespace(c),
{
    let u = c as u32;
    (9 <= u && u <= 13) || u == 32 || u == 0x85 || u == 0xA0 || u == 0x1680 || (0x2000 <= u && u
        <= 0x200A) || u == 0x2028 || u == 0x2029 || u == 0x202F || u == 0x205F || u == 0x3000
}

fn char_utf8_len(c: char) -> (r: usize)
    ensures
        r == utf8_len(c),
{
    let u = c as u32;
    if u < 0x80 {
        1
    } else if u < 0x800 {
        2
    } else if u < 0x10000 {
        3
    } else {
        4
    }
}

fn char_hex_value(c: char) -> (r: Option<u8>)
    ensures
        r == hex_value(c),
{
    let u = c as u32;
    if 48 <= u && u <= 57 {
        Some((u - 48) as u8)
    } else if 65 <= u && u <= 70 {
        Some((u - 55) as u8)
    } else if 97 <= u && u <= 102 {
        Some((u - 87) as u8)
    } else {
        None
    }
}

fn char_pair_value(a: char, b: char) -> (r: Option<u8>)
    ensures
        r == pair_value(a, b),
{
    match (char_hex_value(a), char_hex_value(b)) {
        (Some(x), Some(y)) => Some(16 * x + y),
        _ => None,
    }
}

/// The characters of `s` other than whitespace, and whether their UTF-8
/// encoding has an odd number of bytes.
fn strip_whitespace_chars(s: &str) -> (r: (Vec<char>, bool))
    ensures
        r.0@ == strip_whitespace(s@),
        r.1 == (byte_len(strip_whitespace(s@)) % 2 == 1),
{
    broadcast use vstd::string::group_string_axioms;

    let mut out: Vec<char> = Vec::new();
    let mut odd = false;
    for c in it: s.chars()
        invariant
            it.seq() == s@,
            out@ == it.seq().take(it.index()).filter(keep_char()),
            odd == (byte_len(out@) % 2 == 1),
    {
        let ghost idx = it.index();
        let ghost t = it.seq().take(idx);
        proof {
            assert(c == it.seq()[idx]);
            assert(it.seq().take(idx + 1) =~= t.push(c));
            t.lemma_filter_push(c, keep_char());
            assert(keep_char()(c) == !is_whitespace(c));
        }
        if !char_is_whitespace(c) {
            let ghost prev = out@;
            out.push(c);
            proof {
                assert(out@.drop_last() =~= prev);
            }
            if char_utf8_len(c) % 2 == 1 {
                odd = !odd;
            }
        }
        assert(out@ == it.seq().take(idx + 1).filter(keep_char()));
    }
    assert(s@.take(s@.len() as int) =~= s@);
    (out, odd)
}

/// Whether parsing `s` would cut a multi-byte character in half.
pub fn hex_string_splits_char(s: &str) -> (r: bool)
    ensures
        r == hex_parse_splits_char(s@),
{
    let (cleaned, odd) = strip_whitespace_chars(s);
    if odd {
        return false;
    }
    match scan_hex(&cleaned) {
        HexScanResult::SplitsChar => true,
        _ => false,
    }
}

enum HexScanResult {
    Bytes(Vec<u8>),
    BadChar,
    SplitsChar,
}

spec fn scan_result_matches(r: HexScanResult, s: HexScan) -> bool {
    match (r, s) {
        (HexScanResult::Bytes(v), HexScan::Bytes(b)) => v@ == b,
        (HexScanResult::BadChar, HexScan::BadChar) => true,
        (HexScanResult::SplitsChar, HexScan::SplitsChar) => true,
        _ => false,
    }
}

fn scan_hex(cs: &Vec<char>) -> (r: HexScanResult)
    ensures
        scan_result_matches(r, hex_scan(cs@)),
{
    let mut out: Vec<u8> = Vec::new();
    let mut i: usize = 0;
    proof {
        assert(cs@.skip(0) =~= cs@);
        match hex_scan(cs@) {
            HexScan::Bytes(rest) => {
                assert(out@ + rest =~= rest);
            },
            _ => {},
        }
    }
    while i < cs.len()
        invariant
            i <= cs.len(),
            hex_scan(cs@) == match hex_scan(cs@.skip(i as int)) {
                HexScan::Bytes(rest) => HexScan::Bytes(out@ + rest),
                other => other,
            },
        decreases cs.len() - i,
    {
        let ghost tail = cs@.skip(i as int);
        assert(tail[0] == cs@[i as int]);
        let a = cs[i];
        let la = char_utf8_len(a);
        if la == 1 {
            if i + 1 >= cs.len() {
                return HexScanResult::SplitsChar;
            }
            let b = cs[i + 1];
            assert(tail[1] == b);
            if char_utf8_len(b) != 1 {
                return HexScanResult::SplitsChar;
            }
            match char_pair_value(a, b) {
                None => {
                    return HexScanResult::BadChar;
                },
                Some(v) => {
                    let ghost prev = out@;
                    out.push(v);
                    proof {
                        assert(tail.skip(2) =~= cs@.skip(i + 2));
                        match hex_scan(cs@.skip(i + 2)) {
                            HexScan::Bytes(rest) => {
                                assert(out@ + rest =~= prev + (seq![v] + rest));
                            },
                            _ => {},
                        }
                    }
                    i = i + 2;
                },
            }
        } else if la == 2 {
            return HexScanResult::BadChar;
        } else {
            return HexScanResult::SplitsChar;
        }
    }
    assert(cs@.skip(i as int) =~= Seq::<char>::empty());
    assert(out@ + Seq::<u8>::empty() =~= out@);
    HexScanResult::Bytes(out)
}

/// Parse a hex string (e.g. "68 04 07 00") into bytes.
///
/// Whitespace is ignored; the rest is read two bytes at a time, each piece
/// being two hexadecimal digits.
pub fn parse_hex_string(s: &str) -> (r: Result<Vec<u8>, ToolError>)
    requires
        !hex_parse_splits_char(s@),
    ensures
        match r {
            Ok(v) => spec_parse_hex(s@) == Ok::<Seq<u8>, ToolError>(v@),
            Err(e) => spec_parse_hex(s@) == Err::<Seq<u8>, ToolError>(e),
        },
{
    let (cleaned, odd) = strip_whitespace_chars(s);
    if odd {
        return Err(ToolError::InvalidHexLength);
    }
    match scan_hex(&cleaned) {
        HexScanResult::Bytes(v) => Ok(v),
        _ => Err(ToolError::InvalidHexChar),
    }
}

/// The hexadecimal pairs of `bs` written one after another, without separators.
pub open spec fn hex_concat(bs: Seq<u8>) -> Seq<char>
    decreases bs.len(),
{
    if bs.len() == 0 {
        Seq::empty()
    } else {
        hex_concat(bs.drop_last()) + text::byte_hex(bs.last())
    }
}

proof fn lemma_byte_len_add(a: Seq<char>, b: Seq<char>)
    ensures
        byte_len(a + b) == byte_len(a) + byte_len(b),
    decreases b.len(),
{
    if b.len() == 0 {
        assert(a + b =~= a);
    } else {
        assert((a + b).drop_last() =~= a + b.drop_last());
        lemma_byte_len_add(a, b.drop_last());
    }
}

proof fn lemma_byte_hex_digits(x: u8)
    ensures
        text::byte_hex(x).len() == 2,
        utf8_len(text::byte_hex(x)[0]) == 1,
        utf8_len(text::byte_hex(x)[1]) == 1,
        !is_whitespace(text::byte_hex(x)[0]),
        !is_whitespace(text::byte_hex(x)[1]),
        pair_value(text::byte_hex(x)[0], text::byte_hex(x)[1]) == Some(x),
{
    let hi = (x / 16) as int;
    let lo = (x % 16) as int;
    assert(text::hex_digit(hi) as u32 == if hi < 10 { 48 + hi } else { 55 + hi });
    assert(text::hex_digit(lo) as u32 == if lo < 10 { 48 + lo } else { 55 + lo });
}

proof fn lemma_empty_filter()
    ensures
        Seq::<char>::empty().filter(keep_char()) == Seq::<char>::empty(),
{
    reveal(Seq::filter);
    assert(Seq::<char>::empty().filter(keep_char()) =~= Seq::<char>::empty());
}

proof fn lemma_pair_facts(h: Seq<char>)
    requires
        h.len() == 2,
        utf8_len(h[0]) == 1,
        utf8_len(h[1]) == 1,
        !is_whitespace(h[0]),
        !is_whitespace(h[1]),
    ensures
        byte_len(h) == 2,
        h.filter(keep_char()) == h,
{
    reveal_with_fuel(byte_len, 3);
    assert(h.drop_last() =~= seq![h[0]]);
    assert(seq![h[0]].drop_last() =~= Seq::<char>::empty());
    assert(byte_len(seq![h[0]]) == 1);
    assert(h =~= seq![h[0]].push(h[1]));
    assert(seq![h[0]] =~= Seq::<char>::empty().push(h[0]));
    lemma_empty_filter();
    Seq::<char>::empty().lemma_filter_push(h[0], keep_char());
    seq![h[0]].lemma_filter_push(h[1], keep_char());
    assert(h.filter(keep_char()) =~= h);
}

proof fn lemma_hex_concat_one(x: u8)
    ensures
        hex_concat(seq![x]) == text::byte_hex(x),
{
    reveal_with_fuel(hex_concat, 2);
    let s = seq![x];
    assert(s.drop_last() =~= Seq::<u8>::empty());
    assert(s.last() == x);
    assert(Seq::<char>::empty() + text::byte_hex(x) =~= text::byte_hex(x));
}

proof fn lemma_hex_concat_facts(bs: Seq<u8>)
    ensures
        strip_whitespace(hex_concat(bs)) == hex_concat(bs),
        byte_len(hex_concat(bs)) == 2 * bs.len(),
    decreases bs.len(),
{
    if bs.len() > 0 {
        lemma_hex_concat_facts(bs.drop_last());
        let p = hex_concat(bs.drop_last());
        let h = text::byte_hex(bs.last());
        lemma_byte_hex_digits(bs.last());
        lemma_pair_facts(h);
        lemma_byte_len_add(p, h);
        Seq::filter_distributes_over_add(p, h, keep_char());
    } else {
        lemma_empty_filter();
    }
}

proof fn lemma_hex_concat_front(bs: Seq<u8>)
    requires
        bs.len() > 0,
    ensures
        hex_concat(bs) == text::byte_hex(bs[0]) + hex_concat(bs.skip(1)),
    decreases bs.len(),
{
    if bs.len() == 1 {
        lemma_hex_concat_one(bs[0]);
        assert(bs =~= seq![bs[0]]);
        assert(bs.skip(1) =~= Seq::<u8>::empty());
        assert(hex_concat(bs) =~= text::byte_hex(bs[0]) + hex_concat(bs.skip(1)));
    } else {
        lemma_hex_concat_front(bs.drop_last());
        assert(bs.drop_last().skip(1) =~= bs.skip(1).drop_last());
        assert(bs.skip(1).last() == bs.last());
        assert(bs.drop_last()[0] == bs[0]);
        assert(hex_concat(bs) =~= text::byte_hex(bs[0]) + hex_concat(bs.skip(1)));
    }
}

proof fn lemma_hex_scan_prefix(x: u8, rest: Seq<char>)
    ensures
        hex_scan(text::byte_hex(x) + rest) == match hex_scan(rest) {
            HexScan::Bytes(r) => HexScan::Bytes(seq![x] + r),
            other => other,
        },
{
    let h = text::byte_hex(x);
    lemma_byte_hex_digits(x);
    let c = h + rest;
    assert(c[0] == h[0] && c[1] == h[1]);
    assert(c.skip(2) =~= rest);
}

proof fn lemma_hex_scan_concat(bs: Seq<u8>)
    ensures
        hex_scan(hex_concat(bs)) == HexScan::Bytes(bs),
    decreases bs.len(),
{
    if bs.len() == 0 {
        assert(hex_concat(bs) =~= Seq::<char>::empty());
        assert(bs =~= Seq::<u8>::empty());
    } else {
        lemma_hex_concat_front(bs);
        lemma_hex_scan_concat(bs.skip(1));
        lemma_hex_scan_prefix(bs[0], hex_concat(bs.skip(1)));
        assert(seq![bs[0]] + bs.skip(1) =~= bs);
    }
}

proof fn lemma_strip_hex_join(bs: Seq<u8>)
    ensures
        strip_whitespace(text::hex_join(bs)) == hex_concat(bs),
    decreases bs.len(),
{
    if bs.len() == 0 {
        lemma_empty_filter();
    } else if bs.len() == 1 {
        lemma_hex_concat_facts(bs);
        lemma_hex_concat_one(bs[0]);
        assert(bs =~= seq![bs[0]]);
    } else {
        lemma_strip_hex_join(bs.drop_last());
        let a = text::hex_join(bs.drop_last());
        let h = text::byte_hex(bs.last());
        lemma_byte_hex_digits(bs.last());
        lemma_pair_facts(h);
        assert(seq![' '] =~= Seq::<char>::empty().push(' '));
        lemma_empty_filter();
        Seq::<char>::empty().lemma_filter_push(' ', keep_char());
        assert(seq![' '].filter(keep_char()) =~= Seq::<char>::empty());
        Seq::filter_distributes_over_add(a, seq![' '], keep_char());
        Seq::filter_distributes_over_add(a + seq![' '], h, keep_char());
        assert(text::hex_join(bs) == a + seq![' '] + h);
        assert(hex_concat(bs.drop_last()) + Seq::<char>::empty() =~= hex_concat(bs.drop_last()));
    }
}

/// The upper-case form of a hexadecimal letter `a`..`f`; any other
/// character is left as it is.
pub open spec fn upper_hex_letter(c: char) -> char {
    if 'a' <= c <= 'f' {
        ((c as u32) - 32) as char
    } else {
        c
    }
}

/// `s` with its hexadecimal letters written in upper case.
pub open spec fn upper_hex_letters(s: Seq<char>) -> Seq<char> {
    s.map_values(|c: char| upper_hex_letter(c))
}

proof fn lemma_upper_letter_facts(c: char)
    ensures
        utf8_len(upper_hex_letter(c)) == utf8_len(c),
        is_whitespace(upper_hex_letter(c)) == is_whitespace(c),
        hex_value(upper_hex_letter(c)) == hex_value(c),
{
}

proof fn lemma_strip_upper(s: Seq<char>)
    ensures
        strip_whitespace(upper_hex_letters(s)) == upper_hex_letters(strip_whitespace(s)),
    decreases s.len(),
{
    if s.len() == 0 {
        lemma_empty_filter();
        assert(upper_hex_letters(s) =~= Seq::<char>::empty());
        assert(upper_hex_letters(Seq::<char>::empty()) =~= Seq::<char>::empty());
    } else {
        let init = s.drop_last();
        let c = s.last();
        lemma_strip_upper(init);
        assert(s =~= init.push(c));
        assert(upper_hex_letters(s) =~= upper_hex_letters(init).push(upper_hex_letter(c)));
        init.lemma_filter_push(c, keep_char());
        upper_hex_letters(init).lemma_filter_push(upper_hex_letter(c), keep_char());
        lemma_upper_letter_facts(c);
        assert(upper_hex_letters(strip_whitespace(init).push(c)) =~= upper_hex_letters(
            strip_whitespace(init),
        ).push(upper_hex_letter(c)));
    }
}

proof fn lemma_byte_len_upper(cs: Seq<char>)
    ensures
        byte_len(upper_hex_letters(cs)) == byte_len(cs),
    decreases cs.len(),
{
    if cs.len() > 0 {
        lemma_byte_len_upper(cs.drop_last());
        assert(upper_hex_letters(cs).drop_last() =~= upper_hex_letters(cs.drop_last()));
        lemma_upper_letter_facts(cs.last());
    }
}

proof fn lemma_hex_scan_upper(cs: Seq<char>)
    ensures
        hex_scan(upper_hex_letters(cs)) == hex_scan(cs),
    decreases cs.len(),
{
    let u = upper_hex_letters(cs);
    if cs.len() > 0 {
        lemma_upper_letter_facts(cs[0]);
        if cs.len() >= 2 {
            lemma_upper_letter_facts(cs[1]);
            assert(u.skip(2) =~= upper_hex_letters(cs.skip(2)));
            lemma_hex_scan_upper(cs.skip(2));
        }
    }
}

/// The hexadecimal parser does not care about the case of the letters:
/// writing any of `a`..`f` as `A`..`F` gives the same result, so a dump in
/// lower case reads back as the same bytes as one in upper case.
pub proof fn lemma_parse_hex_ignores_case(s: Seq<char>)
    ensures
        spec_parse_hex(upper_hex_letters(s)) == spec_parse_hex(s),
        hex_parse_splits_char(upper_hex_letters(s)) == hex_parse_splits_char(s),
{
    lemma_strip_upper(s);
    lemma_byte_len_upper(strip_whitespace(s));
    lemma_hex_scan_upper(strip_whitespace(s));
}

/// Every byte reads back from its two hexadecimal digits in either case:
/// the digit values are 0..9 for `0`..`9` and 10..15 for `A`..`F` and
/// `a`..`f` alike.
pub proof fn lemma_byte_from_digits_either_case(x: u8)
    ensures
        pair_value(text::hex_digit((x / 16) as int), text::hex_digit((x % 16) as int)) == Some(x),
        pair_value(
            lower_hex_letter(text::hex_digit((x / 16) as int)),
            lower_hex_letter(text::hex_digit((x % 16) as int)),
        ) == Some(x),
{
    let hi = (x / 16) as int;
    let lo = (x % 16) as int;
    assert(text::hex_digit(hi) as u32 == if hi < 10 { 48 + hi } else { 55 + hi });
    assert(text::hex_digit(lo) as u32 == if lo < 10 { 48 + lo } else { 55 + lo });
}

/// The lower-case form of a letter `A`..`F`; any other character is left as
/// it is.
pub open spec fn lower_hex_letter(c: char) -> char {
    if 'A' <= c <= 'F' {
        ((c as u32) + 32) as char
    } else {
        c
    }
}

/// Reading back a hex dump gives the bytes that were dumped:
/// `parse_hex_string(format_hex(b)) == Ok(b)`.
pub proof fn lemma_parse_hex_of_format_hex(bs: Seq<u8>)
    ensures
        !hex_parse_splits_char(text::hex_join(bs)),
        spec_parse_hex(text::hex_join(bs)) == Ok::<Seq<u8>, ToolError>(bs),
{
    lemma_strip_hex_join(bs);
    lemma_hex_concat_facts(bs);
    lemma_hex_scan_concat(bs);
    lemma_parse_of_clean(text::hex_join(bs), hex_concat(bs), bs);
}

proof fn lemma_parse_of_clean(s: Seq<char>, c: Seq<char>, bs: Seq<u8>)
    requires
        strip_whitespace(s) == c,
        byte_len(c) == 2 * bs.len(),
        hex_scan(c) == HexScan::Bytes(bs),
    ensures
        !hex_parse_splits_char(s),
        spec_parse_hex(s) == Ok::<Seq<u8>, ToolError>(bs),
{
}

/// Format bytes as hex string with spaces.
pub fn format_hex(data: &[u8]) -> (r: String)
    ensures
        r@ == text::hex_join(data@),
{
    text::hex_bytes(data)
}

/// Format an IOA (Information Object Address) for display.
pub fn format_ioa(ioa: u32) -> (r: String)
    ensures
        r@ == text::dec_str(ioa as nat),
{
    let mut s = String::new();
    text::push_dec(&mut s, ioa as u64);
    assert(s@ =~= text::dec_str(ioa as nat));
    s
}

/// Format an IOA as hex: `0x` followed by at least six upper-case digits.
pub fn format_ioa_hex(ioa: u32) -> (r: String)
    ensures
        r@ == seq!['0', 'x'] + text::zero_pad(text::hex_str(ioa as nat), 6),
{
    let n = text::hex_len(ioa as u64);
    let pad: usize = if n < 6 { 6 - n } else { 0 };
    let mut s = String::new();
    s.push('0');
    s.push('x');
    let mut j: usize = 0;
    while j < pad
        invariant
            j <= pad,
            s@ == seq!['0', 'x'] + Seq::new(j as nat, |i: int| '0'),
        decreases pad - j,
    {
        s.push('0');
        j = j + 1;
        assert(s@ =~= seq!['0', 'x'] + Seq::new(j as nat, |i: int| '0'));
    }
    text::push_hex(&mut s, ioa as u64);
    assert(s@ =~= seq!['0', 'x'] + text::zero_pad(text::hex_str(ioa as nat), 6));
    s
}

} // verus!
