//! Numbers and tokens in the text of a frame.
//!
//! Frames are handled as bytes. A number is read the way the standard library
//! reads an unsigned integer from a string: an optional `+`, then one or more
//! digits and nothing else, and the value has to fit. A number is written
//! with no sign and no leading zero.

use vstd::prelude::*;

verus! {

/// The value of the digit `c` in base `radix`, where it is one.
pub open spec fn digit_value(c: u8, radix: int) -> Option<int> {
    let v: int = if 0x30 <= c <= 0x39 {
        c - 0x30
    } else if 0x61 <= c <= 0x7a {
        c - 0x61 + 10
    } else if 0x41 <= c <= 0x5a {
        c - 0x41 + 10
    } else {
        36
    };
    if v < radix {
        Some(v)
    } else {
        None
    }
}

/// Every byte of `digits` is a digit in base `radix`.
pub open spec fn all_digits(digits: Seq<u8>, radix: int) -> bool {
    forall|i: int| 0 <= i < digits.len() ==> (#[trigger] digit_value(digits[i], radix)) is Some
}

/// The number that `digits` spell in base `radix`, most significant digit
/// first.
pub open spec fn digits_value(digits: Seq<u8>, radix: int) -> int
    decreases digits.len(),
{
    if digits.len() == 0 {
        0
    } else {
        digits_value(digits.drop_last(), radix) * radix + digit_value(digits.last(), radix)->0
    }
}

/// `text` without the `+` that may stand in front of a number.
pub open spec fn unsigned_digits(text: Seq<u8>) -> Seq<u8> {
    if text.len() > 0 && text[0] == 0x2b {
        text.subrange(1, text.len() as int)
    } else {
        text
    }
}

/// The unsigned number that `text` spells in base `radix`, if it spells one
/// that is at most `max`.
pub open spec fn parse_unsigned(text: Seq<u8>, radix: int, max: int) -> Option<int> {
    let digits = unsigned_digits(text);
    if digits.len() > 0 && all_digits(digits, radix) && digits_value(digits, radix) <= max {
        Some(digits_value(digits, radix))
    } else {
        None
    }
}

/// The digit that stands for `v` in bases up to 16: `0` to `9`, then `a` to
/// `f`.
pub open spec fn digit_byte(v: int) -> u8 {
    if v < 10 {
        (0x30 + v) as u8
    } else {
        (0x61 + v - 10) as u8
    }
}

/// `v` written in base `radix`, with no leading zero.
pub open spec fn unsigned_text(v: nat, radix: nat) -> Seq<u8>
    recommends
        2 <= radix <= 16,
    decreases v,
    via unsigned_text_decreases
{
    if v < radix || radix < 2 {
        seq![digit_byte(v as int)]
    } else {
        unsigned_text(v / radix, radix).push(digit_byte((v % radix) as int))
    }
}

#[via_fn]
proof fn unsigned_text_decreases(v: nat, radix: nat) {
    if !(v < radix || radix < 2) {
        lemma_quotient_is_smaller(v as int, radix as int);
    }
}

/// Dividing by two or more makes a positive number smaller.
proof fn lemma_quotient_is_smaller(v: int, radix: int)
    requires
        2 <= radix <= v,
    ensures
        0 <= v / radix < v,
{
    assert(0 <= v / radix < v) by (nonlinear_arith)
        requires
            2 <= radix <= v,
    ;
}

/// The characters of a text of bytes below 128.
pub open spec fn ascii_chars(text: Seq<u8>) -> Seq<char> {
    Seq::new(text.len(), |i: int| text[i] as char)
}

/// The token with index `n` of `text` cut at every `sep`, if there are that
/// many.
pub open spec fn nth_token(text: Seq<u8>, sep: u8, n: nat) -> Option<Seq<u8>>
    decreases n,
{
    let end = first_index_of(text, sep, 0);
    if n == 0 {
        Some(text.subrange(0, end))
    } else if end < text.len() {
        nth_token(text.subrange(end + 1, text.len() as int), sep, (n - 1) as nat)
    } else {
        None
    }
}

/// The index of the first `sep` in `text` at or behind `from`, or the length
/// of `text` where there is none.
pub open spec fn first_index_of(text: Seq<u8>, sep: u8, from: int) -> int
    decreases text.len() - from,
{
    if from >= text.len() {
        text.len() as int
    } else if from >= 0 && text[from] == sep {
        from
    } else {
        first_index_of(text, sep, from + 1)
    }
}

/// `text` begins with `prefix`.
pub open spec fn has_prefix(text: Seq<u8>, prefix: Seq<u8>) -> bool {
    prefix.len() <= text.len() && text.subrange(0, prefix.len() as int) == prefix
}

/// Appending a digit never makes the number smaller.
proof fn lemma_digits_value_grows(digits: Seq<u8>, radix: int, k: int)
    requires
        radix >= 1,
        all_digits(digits, radix),
        0 <= k <= digits.len(),
    ensures
        0 <= digits_value(digits.take(k), radix) <= digits_value(digits, radix),
    decreases digits.len() - k,
{
    lemma_digits_value_nonnegative(digits.take(k), radix);
    if k < digits.len() {
        lemma_digits_value_grows(digits, radix, k + 1);
        let longer = digits.take(k + 1);
        assert(longer.drop_last() =~= digits.take(k));
        assert(longer.last() == digits[k]);
        assert(digit_value(digits[k], radix) is Some);
        let shorter = digits_value(digits.take(k), radix);
        assert(shorter * radix >= shorter) by (nonlinear_arith)
            requires
                shorter >= 0,
                radix >= 1,
        ;
    } else {
        assert(digits.take(k) =~= digits);
    }
}

/// A number spelled by digits is not negative.
proof fn lemma_digits_value_nonnegative(digits: Seq<u8>, radix: int)
    requires
        radix >= 1,
        all_digits(digits, radix),
    ensures
        0 <= digits_value(digits, radix),
    decreases digits.len(),
{
    if digits.len() > 0 {
        lemma_digits_value_nonnegative(digits.drop_last(), radix);
        let shorter = digits_value(digits.drop_last(), radix);
        assert(digit_value(digits.last(), radix) is Some);
        assert(shorter * radix >= 0) by (nonlinear_arith)
            requires
                shorter >= 0,
                radix >= 1,
        ;
    }
}

/// The value of the digit `c` in base `radix`, where it is one.
pub fn digit_of(c: u8, radix: u8) -> (res: Option<u8>)
    requires
        2 <= radix <= 36,
    ensures
        match res {
            Some(v) => digit_value(c, radix as int) == Some(v as int),
            None => digit_value(c, radix as int) is None,
        },
{
    let v: u8 = if 0x30 <= c && c <= 0x39 {
        c - 0x30
    } else if 0x61 <= c && c <= 0x7a {
        c - 0x61 + 10
    } else if 0x41 <= c && c <= 0x5a {
        c - 0x41 + 10
    } else {
        36
    };
    if v < radix {
        Some(v)
    } else {
        None
    }
}

/// Reads an unsigned number in base `radix` that fills all of `text`.
pub fn parse_u64(text: &[u8], radix: u8) -> (res: Option<u64>)
    requires
        2 <= radix <= 36,
    ensures
        match res {
            Some(v) => parse_unsigned(text@, radix as int, u64::MAX as int) == Some(v as int),
            None => parse_unsigned(text@, radix as int, u64::MAX as int) is None,
        },
{
    let len = text.len();
    let first: usize = if len > 0 && text[0] == 0x2b {
        1
    } else {
        0
    };
    let ghost digits = unsigned_digits(text@);
    let ghost r = radix as int;
    proof {
        assert(digits =~= text@.subrange(first as int, len as int));
    }
    if first == len {
        return None;
    }
    let mut acc: u64 = 0;
    let mut i: usize = first;
    proof {
        assert(digits.take(0) =~= Seq::<u8>::empty());
    }
    while i < len
        invariant
            2 <= radix <= 36,
            r == radix as int,
            len == text@.len(),
            first <= i <= len,
            first < len,
            digits == unsigned_digits(text@),
            digits == text@.subrange(first as int, len as int),
            all_digits(digits.take(i - first), r),
            acc == digits_value(digits.take(i - first), r),
        decreases len - i,
    {
        let ghost k = i - first;
        let digit = match digit_of(text[i], radix) {
            Some(d) => d,
            None => {
                proof {
                    assert(digits[k] == text@[i as int]);
                    assert(digit_value(digits[k], r) is None);
                    assert(!all_digits(digits, r));
                }
                return None;
            },
        };
        proof {
            let longer = digits.take(k + 1);
            assert(longer.drop_last() =~= digits.take(k));
            assert(longer.last() == text@[i as int]);
            assert forall|j: int| 0 <= j < longer.len() implies (#[trigger] digit_value(
                longer[j],
                r,
            )) is Some by {
                if j < k {
                    assert(longer[j] == digits.take(k)[j]);
                }
            }
        }
        let next = match acc.checked_mul(radix as u64) {
            Some(scaled) => scaled.checked_add(digit as u64),
            None => None,
        };
        match next {
            Some(value) => {
                acc = value;
            },
            None => {
                proof {
                    let longer = digits.take(k + 1);
                    assert(digit_value(longer.last(), r) == Some(digit as int));
                    assert(digits_value(longer, r) == acc * r + digit);
                    assert(digits_value(longer, r) > u64::MAX);
                    if all_digits(digits, r) {
                        lemma_digits_value_grows(digits, r, k + 1);
                    }
                    assert(parse_unsigned(text@, r, u64::MAX as int) is None);
                }
                return None;
            },
        }
        i += 1;
    }
    proof {
        assert(digits.take(len - first) =~= digits);
    }
    Some(acc)
}

/// Reads an unsigned number in base `radix` that fills all of `text`.
pub fn parse_usize(text: &[u8], radix: u8) -> (res: Option<usize>)
    requires
        2 <= radix <= 36,
    ensures
        match res {
            Some(v) => parse_unsigned(text@, radix as int, usize::MAX as int) == Some(v as int),
            None => parse_unsigned(text@, radix as int, usize::MAX as int) is None,
        },
{
    match parse_u64(text, radix) {
        Some(v) => {
            if v <= usize::MAX as u64 {
                Some(v as usize)
            } else {
                None
            }
        },
        None => None,
    }
}

/// The digit that stands for `v`.
pub fn digit_for(v: u8) -> (res: u8)
    requires
        v < 16,
    ensures
        res == digit_byte(v as int),
        res < 128,
{
    if v < 10 {
        0x30 + v
    } else {
        0x61 + (v - 10)
    }
}

/// Writes `v` in base `radix` behind what `out` holds.
pub fn push_unsigned(out: &mut Vec<u8>, v: u64, radix: u8)
    requires
        2 <= radix <= 16,
    ensures
        final(out)@ == old(out)@ + unsigned_text(v as nat, radix as nat),
    decreases v,
{
    if v >= radix as u64 {
        proof {
            lemma_quotient_is_smaller(v as int, radix as int);
        }
        push_unsigned(out, v / (radix as u64), radix);
    }
    proof {
        if v < radix {
            vstd::arithmetic::div_mod::lemma_small_mod(v as nat, radix as nat);
        } else {
            vstd::arithmetic::div_mod::lemma_mod_bound(v as int, radix as int);
        }
    }
    let ghost head = out@;
    out.push(digit_for((v % (radix as u64)) as u8));
    proof {
        let prefix = old(out)@;
        let whole = unsigned_text(v as nat, radix as nat);
        let last = digit_byte((v as nat % radix as nat) as int);
        if v >= radix {
            let front = unsigned_text(v as nat / radix as nat, radix as nat);
            assert(whole == front.push(last));
            assert(head == prefix + front);
            assert(prefix + whole =~= (prefix + front).push(last));
        } else {
            assert(whole == seq![last]);
            assert(prefix + whole =~= prefix.push(last));
        }
    }
}

/// The one character that stands for the digit `v`.
pub fn digit_str(v: u8) -> (res: &'static str)
    requires
        v < 16,
    ensures
        res@ == seq![digit_byte(v as int) as char],
{
    proof {
        reveal_strlit("0");
        reveal_strlit("1");
        reveal_strlit("2");
        reveal_strlit("3");
        reveal_strlit("4");
        reveal_strlit("5");
        reveal_strlit("6");
        reveal_strlit("7");
        reveal_strlit("8");
        reveal_strlit("9");
        reveal_strlit("a");
        reveal_strlit("b");
        reveal_strlit("c");
        reveal_strlit("d");
        reveal_strlit("e");
        reveal_strlit("f");
    }
    let res = match v {
        0 => "0",
        1 => "1",
        2 => "2",
        3 => "3",
        4 => "4",
        5 => "5",
        6 => "6",
        7 => "7",
        8 => "8",
        9 => "9",
        10 => "a",
        11 => "b",
        12 => "c",
        13 => "d",
        14 => "e",
        _ => "f",
    };
    proof {
        assert(res@ =~= seq![digit_byte(v as int) as char]);
    }
    res
}

/// `v` written in base `radix` as a string.
pub fn unsigned_string(v: u64, radix: u8) -> (res: String)
    requires
        2 <= radix <= 16,
    ensures
        res@ == ascii_chars(unsigned_text(v as nat, radix as nat)),
    decreases v,
{
    let mut res = if v >= radix as u64 {
        proof {
            lemma_quotient_is_smaller(v as int, radix as int);
        }
        unsigned_string(v / (radix as u64), radix)
    } else {
        String::new()
    };
    proof {
        if v < radix {
            vstd::arithmetic::div_mod::lemma_small_mod(v as nat, radix as nat);
        } else {
            vstd::arithmetic::div_mod::lemma_mod_bound(v as int, radix as int);
        }
    }
    res.append(digit_str((v % (radix as u64)) as u8));
    proof {
        let last = digit_byte((v as nat % radix as nat) as int);
        if v >= radix {
            assert(unsigned_text(v as nat, radix as nat) == unsigned_text(
                v as nat / radix as nat,
                radix as nat,
            ).push(last));
        } else {
            assert(unsigned_text(v as nat, radix as nat) == seq![last]);
        }
        assert(res@ =~= ascii_chars(unsigned_text(v as nat, radix as nat)));
    }
    res
}

/// Copies the bytes of `text` from `from` up to `to`.
pub fn copy_range(text: &[u8], from: usize, to: usize) -> (res: Vec<u8>)
    requires
        from <= to <= text@.len(),
    ensures
        res@ == text@.subrange(from as int, to as int),
{
    let mut res: Vec<u8> = Vec::new();
    let mut i: usize = from;
    while i < to
        invariant
            from <= i <= to <= text@.len(),
            res@ == text@.subrange(from as int, i as int),
        decreases to - i,
    {
        res.push(text[i]);
        proof {
            assert(text@.subrange(from as int, i + 1) =~= text@.subrange(
                from as int,
                i as int,
            ).push(text@[i as int]));
        }
        i += 1;
    }
    res
}

/// The index of the first `sep` in `text` at or behind `from`, or the length
/// of `text` where there is none.
pub fn find_byte(text: &[u8], sep: u8, from: usize) -> (res: usize)
    requires
        from <= text@.len(),
    ensures
        res == first_index_of(text@, sep, from as int),
        from <= res <= text@.len(),
        res < text@.len() ==> text@[res as int] == sep,
{
    let mut i: usize = from;
    while i < text.len()
        invariant
            from <= i <= text@.len(),
            first_index_of(text@, sep, from as int) == first_index_of(text@, sep, i as int),
        ensures
            from <= i <= text@.len(),
            i == first_index_of(text@, sep, from as int),
            i < text@.len() ==> text@[i as int] == sep,
        decreases text@.len() - i,
    {
        if text[i] == sep {
            break ;
        }
        i += 1;
    }
    i
}

/// The bounds of the token with index `n` of `text` cut at every `sep`.
pub fn token_bounds(text: &[u8], sep: u8, n: usize) -> (res: Option<(usize, usize)>)
    ensures
        match res {
            Some((from, to)) => from <= to <= text@.len() && nth_token(text@, sep, n as nat)
                == Some(text@.subrange(from as int, to as int)),
            None => nth_token(text@, sep, n as nat) is None,
        },
{
    let mut from: usize = 0;
    let mut left: usize = n;
    proof {
        assert(text@.subrange(0, text@.len() as int) =~= text@);
    }
    loop
        invariant
            from <= text@.len(),
            left <= n,
            nth_token(text@, sep, n as nat) == nth_token(
                text@.subrange(from as int, text@.len() as int),
                sep,
                left as nat,
            ),
        decreases left,
    {
        let ghost rest = text@.subrange(from as int, text@.len() as int);
        let end = find_byte(text, sep, from);
        proof {
            lemma_first_index_of_suffix(text@, sep, from as int, from as int);
        }
        if left == 0 {
            proof {
                assert(rest.subrange(0, end - from) =~= text@.subrange(from as int, end as int));
            }
            return Some((from, end));
        }
        if end >= text.len() {
            return None;
        }
        proof {
            assert(rest.subrange(end - from + 1, rest.len() as int) =~= text@.subrange(
                end + 1,
                text@.len() as int,
            ));
        }
        from = end + 1;
        left -= 1;
    }
}

/// Searching a suffix finds the same byte as searching the whole text from
/// where the suffix begins.
proof fn lemma_first_index_of_suffix(text: Seq<u8>, sep: u8, from: int, at: int)
    requires
        0 <= from <= at <= text.len(),
    ensures
        first_index_of(text.subrange(from, text.len() as int), sep, at - from) == first_index_of(
            text,
            sep,
            at,
        ) - from,
    decreases text.len() - at,
{
    let rest = text.subrange(from, text.len() as int);
    if at < text.len() {
        assert(rest[at - from] == text[at]);
        if text[at] != sep {
            lemma_first_index_of_suffix(text, sep, from, at + 1);
        }
    }
}

/// The token with index `n` of `text` cut at every `sep`.
pub fn token(text: &[u8], sep: u8, n: usize) -> (res: Option<Vec<u8>>)
    ensures
        match res {
            Some(t) => nth_token(text@, sep, n as nat) == Some(t@),
            None => nth_token(text@, sep, n as nat) is None,
        },
{
    match token_bounds(text, sep, n) {
        Some((from, to)) => Some(copy_range(text, from, to)),
        None => None,
    }
}

/// Does `text` begin with `prefix`?
pub fn starts_with(text: &[u8], prefix: &[u8]) -> (res: bool)
    ensures
        res == has_prefix(text@, prefix@),
{
    if prefix.len() > text.len() {
        return false;
    }
    let mut i: usize = 0;
    while i < prefix.len()
        invariant
            i <= prefix@.len() <= text@.len(),
            text@.subrange(0, i as int) == prefix@.subrange(0, i as int),
        decreases prefix@.len() - i,
    {
        if text[i] != prefix[i] {
            proof {
                let head = text@.subrange(0, prefix@.len() as int);
                assert(head[i as int] != prefix@[i as int]);
            }
            return false;
        }
        proof {
            assert(text@.subrange(0, i + 1) =~= text@.subrange(0, i as int).push(text@[i as int]));
            assert(prefix@.subrange(0, i + 1) =~= prefix@.subrange(0, i as int).push(
                prefix@[i as int],
            ));
        }
        i += 1;
    }
    proof {
        assert(prefix@.subrange(0, prefix@.len() as int) =~= prefix@);
    }
    true
}

/// Are `a` and `b` the same bytes?
pub fn bytes_eq(a: &[u8], b: &[u8]) -> (res: bool)
    ensures
        res == (a@ == b@),
{
    if a.len() != b.len() {
        return false;
    }
    let same = starts_with(a, b);
    proof {
        assert(a@.subrange(0, a@.len() as int) =~= a@);
    }
    same
}

/// A written number is made of bytes below 128, so that its bytes are the
/// bytes of the text of its characters.
pub proof fn law_unsigned_text_is_ascii(v: nat, radix: nat)
    requires
        2 <= radix <= 16,
    ensures
        forall|i: int|
            0 <= i < unsigned_text(v, radix).len() ==> (#[trigger] unsigned_text(v, radix)[i])
                < 128,
        vstd::utf8::encode_utf8(ascii_chars(unsigned_text(v, radix))) == unsigned_text(v, radix),
    decreases v,
{
    let text = unsigned_text(v, radix);
    if v >= radix {
        lemma_quotient_is_smaller(v as int, radix as int);
        law_unsigned_text_is_ascii(v / radix, radix);
        vstd::arithmetic::div_mod::lemma_mod_bound(v as int, radix as int);
        let head = unsigned_text(v / radix, radix);
        assert forall|i: int| 0 <= i < text.len() implies (#[trigger] text[i]) < 128 by {
            if i < head.len() {
                assert(text[i] == head[i]);
            }
        }
    }
    let chars = ascii_chars(text);
    assert(vstd::utf8::is_ascii_chars(chars)) by {
        assert forall|i: int| 0 <= i < chars.len() implies '\0' <= (#[trigger] chars[i])
            <= '\u{7f}' by {
            assert(text[i] < 128);
        }
    }
    vstd::utf8::is_ascii_chars_encode_utf8(chars);
    assert(vstd::utf8::encode_utf8(chars) =~= text) by {
        assert forall|i: int| 0 <= i < text.len() implies vstd::utf8::encode_utf8(chars)[i]
            == text[i] by {
            assert(text[i] < 128);
            assert(chars[i] as u8 == text[i]);
        }
    }
}

/// What is written can be read back.
pub proof fn law_unsigned_text_round_trip(v: nat, radix: nat, max: int)
    requires
        2 <= radix <= 16,
        v <= max,
    ensures
        parse_unsigned(unsigned_text(v, radix), radix as int, max) == Some(v as int),
    decreases v,
{
    lemma_unsigned_text(v, radix);
    let text = unsigned_text(v, radix);
    assert(text[0] != 0x2b) by {
        lemma_unsigned_text_first(v, radix);
    }
}

/// The first byte of a written number is a digit.
proof fn lemma_unsigned_text_first(v: nat, radix: nat)
    requires
        2 <= radix <= 16,
    ensures
        unsigned_text(v, radix).len() > 0,
        digit_value(unsigned_text(v, radix)[0], radix as int) is Some,
    decreases v,
{
    if v >= radix {
        lemma_unsigned_text_first(v / radix, radix);
    } else {
        lemma_digit_byte(v as int, radix as int);
    }
}

/// The digit written for `v` is read as `v`.
proof fn lemma_digit_byte(v: int, radix: int)
    requires
        2 <= radix <= 16,
        0 <= v < radix,
    ensures
        digit_value(digit_byte(v), radix) == Some(v),
{
}

/// A written number is made of digits and spells its value.
proof fn lemma_unsigned_text(v: nat, radix: nat)
    requires
        2 <= radix <= 16,
    ensures
        unsigned_text(v, radix).len() > 0,
        all_digits(unsigned_text(v, radix), radix as int),
        digits_value(unsigned_text(v, radix), radix as int) == v,
    decreases v,
{
    let text = unsigned_text(v, radix);
    if v >= radix {
        let head = unsigned_text(v / radix, radix);
        lemma_unsigned_text(v / radix, radix);
        lemma_digit_byte((v % radix) as int, radix as int);
        assert(text.drop_last() =~= head);
        assert(text.last() == digit_byte((v % radix) as int));
        assert forall|i: int| 0 <= i < text.len() implies (#[trigger] digit_value(
            text[i],
            radix as int,
        )) is Some by {
            if i < head.len() {
                assert(text[i] == head[i]);
            }
        }
        assert((v / radix) * radix + v % radix == v) by (nonlinear_arith)
            requires
                radix >= 2,
        ;
    } else {
        lemma_digit_byte(v as int, radix as int);
        assert(text.drop_last() =~= Seq::<u8>::empty());
        assert(digits_value(text.drop_last(), radix as int) == 0);
    }
}

} // verus!
