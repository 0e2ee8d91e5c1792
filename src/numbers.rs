//! Question numbers as text: reading what was typed, and writing a number
//! out as a starting suggestion.
use vstd::prelude::*;

verus! {

/// Whether `c` is an ASCII decimal digit.
pub open spec fn is_digit(c: char) -> bool {
    '0' <= c <= '9'
}

/// The value of the decimal digits `s`, most significant first.
pub open spec fn digits_value(s: Seq<char>) -> nat
    decreases s.len(),
{
    if s.len() == 0 {
        0
    } else {
        digits_value(s.drop_last()) * 10 + (s.last() as nat - '0' as nat) as nat
    }
}

/// `s` without one leading plus sign.
pub open spec fn unsigned_part(s: Seq<char>) -> Seq<char> {
    if s.len() > 0 && s[0] == '+' {
        s.drop_first()
    } else {
        s
    }
}

/// The non-negative number that `s` spells: an optional `+`, then one or
/// more decimal digits whose value fits in a `u32`. Nothing else (no sign
/// `-`, no blank, no other character) is accepted.
pub open spec fn parsed_number(s: Seq<char>) -> Option<u32> {
    let d = unsigned_part(s);
    if d.len() > 0 && (forall|i: int| 0 <= i < d.len() ==> is_digit(d[i])) && digits_value(d)
        <= u32::MAX {
        Some(digits_value(d) as u32)
    } else {
        None
    }
}

/// The character of the decimal digit `d`.
pub open spec fn digit_char(d: nat) -> char {
    if d == 0 {
        '0'
    } else if d == 1 {
        '1'
    } else if d == 2 {
        '2'
    } else if d == 3 {
        '3'
    } else if d == 4 {
        '4'
    } else if d == 5 {
        '5'
    } else if d == 6 {
        '6'
    } else if d == 7 {
        '7'
    } else if d == 8 {
        '8'
    } else {
        '9'
    }
}

/// `n` written in decimal, without sign or leading zeros.
pub open spec fn decimal(n: nat) -> Seq<char>
    decreases n,
{
    if n < 10 {
        seq![digit_char(n)]
    } else {
        decimal(n / 10).push(digit_char(n % 10))
    }
}

/// Relies on `u32::to_string` (its `Display`): the number in decimal
/// digits, without sign or padding.
#[verifier::external_body]
pub(crate) fn number_text(n: u32) -> (r: String)
    ensures
        r@ == decimal(n as nat),
{
    n.to_string()
}

proof fn lemma_digits_grow(s: Seq<char>, c: char)
    requires
        is_digit(c),
    ensures
        digits_value(s.push(c)) >= digits_value(s),
        digits_value(s.push(c)) == digits_value(s) * 10 + (c as nat - '0' as nat),
{
    assert(s.push(c).drop_last() =~= s);
}

/// Reads a question number typed as text.
pub fn parse_number(text: &str) -> (r: Option<u32>)
    ensures
        r == parsed_number(text@),
{
    let mut value: u32 = 0;
    let mut any_digit = false;
    let mut first = true;
    let ghost s = text@;
    let ghost signed = s.len() > 0 && s[0] == '+';
    let ghost start: int = if signed { 1 } else { 0 };
    for c in it: text.chars()
        invariant
            it.seq() == s,
            s == text@,
            signed == (s.len() > 0 && s[0] == '+'),
            start == (if signed { 1int } else { 0int }),
            first == (it.index() == 0),
            any_digit == (it.index() > start),
            forall|i: int| start <= i < it.index() ==> is_digit(#[trigger] s[i]),
            value as nat == digits_value(s.subrange(start, if it.index() >= start { it.index() as int } else { start })),
    {
        let ghost i = it.index();
        if first && c == '+' {
            first = false;
            assert(signed);
        } else {
            if !('0' <= c && c <= '9') {
                proof {
                    assert(s[i] == c);
                    if i == 0 {
                        assert(!signed);
                    }
                    let d_part = unsigned_part(s);
                    assert(d_part =~= s.subrange(start, s.len() as int));
                    assert(d_part[i - start] == s[i]);
                    assert(!is_digit(d_part[i - start]));
                    assert(!(forall|j: int| 0 <= j < d_part.len() ==> is_digit(d_part[j])));
                    assert(parsed_number(s) is None);
                }
                return None;
            }
            let d: u32 = (c as u32) - ('0' as u32);
            proof {
                assert(s[i] == c);
                if i == 0 {
                    assert(!signed);
                }
                lemma_digits_grow(s.subrange(start, i as int), c);
                assert(s.subrange(start, i as int).push(c) =~= s.subrange(start, i as int + 1));
            }
            if value > 429496729 || (value == 429496729 && d > 5) {
                proof {
                    let v = value as nat;
                    let dd = d as nat;
                    assert(v * 10 + dd > u32::MAX) by (nonlinear_arith)
                        requires v > 429496729 || (v == 429496729 && dd > 5);
                    let d_part = unsigned_part(s);
                    assert(d_part =~= s.subrange(start, s.len() as int));
                    assert(d_part.subrange(0, i + 1 - start) =~= s.subrange(start, i as int + 1));
                    if forall|j: int| 0 <= j < d_part.len() ==> is_digit(d_part[j]) {
                        lemma_prefix_bound(d_part, (i + 1 - start) as int);
                        assert(digits_value(s.subrange(start, i as int + 1)) > u32::MAX);
                    }
                    assert(parsed_number(s) is None);
                }
                return None;
            }
            value = value * 10 + d;
            any_digit = true;
            first = false;
        }
    }
    proof {
        let d_part = unsigned_part(s);
        assert(d_part =~= s.subrange(start, s.len() as int));
    }
    if !any_digit {
        None
    } else {
        Some(value)
    }
}

proof fn lemma_prefix_bound(s: Seq<char>, k: int)
    requires
        0 <= k <= s.len(),
        forall|i: int| 0 <= i < s.len() ==> is_digit(s[i]),
    ensures
        digits_value(s) >= digits_value(s.subrange(0, k)),
    decreases s.len(),
{
    if k < s.len() {
        let t = s.drop_last();
        assert(t.subrange(0, k) =~= s.subrange(0, k));
        lemma_prefix_bound(t, k);
        assert(t.push(s.last()) =~= s);
        lemma_digits_grow(t, s.last());
    } else {
        assert(s.subrange(0, k) =~= s);
    }
}

proof fn lemma_digit_char(d: nat)
    requires
        d < 10,
    ensures
        is_digit(digit_char(d)),
        digit_char(d) as nat == d + '0' as nat,
{
}

proof fn lemma_decimal_digits(n: nat)
    ensures
        decimal(n).len() > 0,
        forall|i: int| 0 <= i < decimal(n).len() ==> is_digit(#[trigger] decimal(n)[i]),
        digits_value(decimal(n)) == n,
    decreases n,
{
    if n < 10 {
        let s = decimal(n);
        lemma_digit_char(n);
        assert(s == seq![digit_char(n)]);
        assert(s.drop_last() =~= Seq::<char>::empty());
        assert(s.last() == digit_char(n));
        assert(digits_value(s) == digits_value(s.drop_last()) * 10 + (s.last() as nat - '0' as nat) as nat);
        assert forall|i: int| 0 <= i < s.len() implies is_digit(#[trigger] s[i]) by {
            assert(s[i] == digit_char(n));
        }
    } else {
        lemma_decimal_digits(n / 10);
        let s = decimal(n);
        let t = decimal(n / 10);
        assert(s.drop_last() =~= t);
        lemma_digit_char(n % 10);
        assert(s.last() == digit_char(n % 10));
        assert(digits_value(s) == digits_value(t) * 10 + n % 10);
        assert((n / 10) * 10 + n % 10 == n) by (nonlinear_arith);
        assert forall|i: int| 0 <= i < s.len() implies is_digit(#[trigger] s[i]) by {
            if i < t.len() {
                assert(s[i] == t[i]);
            } else {
                assert(s[i] == digit_char(n % 10));
            }
        }
    }
}

/// A number written out in decimal reads back as the same number, so the
/// suggested question number commits to that number.
pub proof fn law_number_text_reads_back(n: u32)
    ensures
        parsed_number(decimal(n as nat)) == Some(n),
{
    lemma_decimal_digits(n as nat);
    let s = decimal(n as nat);
    assert(is_digit(s[0]));
    assert(unsigned_part(s) == s);
}

} // verus!
