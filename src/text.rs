//! Decimal numbers in text: reading and writing them.
use vstd::prelude::*;
use vstd::string::{StrSliceExecFns, StringExecFns};

verus! {

pub open spec fn is_digit(c: char) -> bool {
    '0' <= c && c <= '9'
}

pub open spec fn digit_value(c: char) -> int {
    c as int - '0' as int
}

/// Every character is a decimal digit.
pub open spec fn all_digits(s: Seq<char>) -> bool {
    forall|i: int| 0 <= i < s.len() ==> is_digit(#[trigger] s[i])
}

/// The number the digits `s` spell, most significant first.
pub open spec fn digits_value(s: Seq<char>) -> int
    decreases s.len(),
{
    if s.len() == 0 {
        0
    } else {
        digits_value(s.drop_last()) * 10 + digit_value(s.last())
    }
}

/// The digits after an optional leading `+`.
pub open spec fn unsigned_digits(s: Seq<char>) -> Seq<char> {
    if s.len() > 0 && s[0] == '+' {
        s.subrange(1, s.len() as int)
    } else {
        s
    }
}

/// `s` reads as an unsigned 32-bit number: an optional `+`, then at least one
/// decimal digit and nothing else, of a value that fits in `u32`.
pub open spec fn parses_u32(s: Seq<char>) -> bool {
    let d = unsigned_digits(s);
    d.len() > 0 && all_digits(d) && digits_value(d) <= u32::MAX
}

/// The value `s` reads as, when `parses_u32(s)`.
pub open spec fn u32_value(s: Seq<char>) -> int {
    digits_value(unsigned_digits(s))
}

proof fn lemma_digits_value_nonneg(s: Seq<char>)
    requires
        all_digits(s),
    ensures
        digits_value(s) >= 0,
    decreases s.len(),
{
    if s.len() > 0 {
        assert(is_digit(s[s.len() - 1]));
        lemma_digits_value_nonneg(s.drop_last());
    }
}

/// Reads the characters `s[from..to]` as an unsigned decimal number.
fn parse_u32_range(s: &str, from: usize, to: usize) -> (r: Option<u32>)
    requires
        from <= to <= s@.len(),
    ensures
        r is Some <==> parses_u32(s@.subrange(from as int, to as int)),
        r matches Some(v) ==> v as int == u32_value(s@.subrange(from as int, to as int)),
{
    let ghost t = s@.subrange(from as int, to as int);
    let mut start = from;
    if from < to && s.get_char(from) == '+' {
        start = from + 1;
    }
    let ghost d = s@.subrange(start as int, to as int);
    assert(unsigned_digits(t) =~= d);
    if start == to {
        return None;
    }
    // `acc` is the value of the digits read so far, or anything above
    // `u32::MAX` once that value is.
    let mut acc: u64 = 0;
    let mut i = start;
    while i < to
        invariant
            start <= i <= to <= s@.len(),
            d == s@.subrange(start as int, to as int),
            unsigned_digits(t) == d,
            t == s@.subrange(from as int, to as int),
            all_digits(s@.subrange(start as int, i as int)),
            acc <= 0xF_FFFF_FFFF,
            acc > u32::MAX <==> digits_value(s@.subrange(start as int, i as int)) > u32::MAX,
            acc <= u32::MAX ==> acc == digits_value(s@.subrange(start as int, i as int)),
        decreases to - i,
    {
        let c = s.get_char(i);
        let ghost pre = s@.subrange(start as int, i as int);
        let ghost next = s@.subrange(start as int, i + 1);
        assert(next.drop_last() =~= pre);
        if !('0' <= c && c <= '9') {
            assert(d[i - start] == c);
            assert(!is_digit(d[i - start]));
            assert(!all_digits(unsigned_digits(t)));
            return None;
        }
        proof {
            lemma_digits_value_nonneg(pre);
        }
        if acc <= 0xFFFF_FFFF {
            acc = acc * 10 + (c as u64 - '0' as u64);
        }
        assert(all_digits(next)) by {
            assert forall|k: int| 0 <= k < next.len() implies is_digit(#[trigger] next[k]) by {
                if k < pre.len() {
                    assert(next[k] == pre[k]);
                }
            }
        }
        i = i + 1;
    }
    assert(s@.subrange(start as int, i as int) =~= d);
    if acc > 0xFFFF_FFFF {
        None
    } else {
        Some(acc as u32)
    }
}

/// The index of the first `/` in `s`, if any.
pub open spec fn first_slash(s: Seq<char>) -> Option<int>
    decreases s.len(),
{
    if s.len() == 0 {
        None
    } else {
        match first_slash(s.drop_last()) {
            Some(k) => Some(k),
            None => if s.last() == '/' {
                Some(s.len() - 1)
            } else {
                None
            },
        }
    }
}

proof fn lemma_first_slash_take(s: Seq<char>, i: int)
    requires
        0 <= i < s.len(),
    ensures
        s.take(i + 1).drop_last() =~= s.take(i),
        s.take(i + 1).last() == s[i],
{
}

/// Finds the first `/` in `s`.
pub fn find_slash(s: &str) -> (r: Option<usize>)
    ensures
        r matches Some(k) ==> first_slash(s@) == Some(k as int) && k < s@.len(),
        r is None ==> first_slash(s@) is None,
{
    let n = s.unicode_len();
    let mut i: usize = 0;
    while i < n
        invariant
            n == s@.len(),
            i <= n,
            first_slash(s@.take(i as int)) is None,
        decreases n - i,
    {
        proof {
            lemma_first_slash_take(s@, i as int);
        }
        if s.get_char(i) == '/' {
            proof {
                lemma_first_slash_prefix(s@, i as int + 1);
                lemma_first_slash_in_range(s@);
            }
            return Some(i);
        }
        i = i + 1;
    }
    assert(s@.take(n as int) =~= s@);
    None
}

/// A `/` found in a prefix is the first one of the whole sequence.
proof fn lemma_first_slash_prefix(s: Seq<char>, i: int)
    requires
        0 <= i <= s.len(),
        first_slash(s.take(i)) is Some,
    ensures
        first_slash(s) == first_slash(s.take(i)),
    decreases s.len() - i,
{
    if i < s.len() {
        assert(s.take(i + 1).drop_last() =~= s.take(i));
        lemma_first_slash_prefix(s, i + 1);
    } else {
        assert(s.take(i) =~= s);
    }
}

/// The decimal digits of `v`, most significant first, with no leading zero.
pub open spec fn decimal(v: nat) -> Seq<char>
    decreases v,
{
    if v < 10 {
        seq![digit_char(v)]
    } else {
        decimal(v / 10).push(digit_char(v % 10))
    }
}

pub open spec fn digit_char(d: nat) -> char {
    if d == 0 {
        '0'
    } else if d == 1 {
        '1'
    } else if d == 2 {
        '2'
    } else if d == 3 {
        '3'
    } else if d == 4 {
        '4'
    } else if d == 5 {
        '5'
    } else if d == 6 {
        '6'
    } else if d == 7 {
        '7'
    } else if d == 8 {
        '8'
    } else {
        '9'
    }
}

fn digit_str(d: u32) -> (r: &'static str)
    requires
        d < 10,
    ensures
        r@ == seq![digit_char(d as nat)],
{
    proof {
        reveal_strlit("0");
        reveal_strlit("1");
        reveal_strlit("2");
        reveal_strlit("3");
        reveal_strlit("4");
        reveal_strlit("5");
        reveal_strlit("6");
        reveal_strlit("7");
        reveal_strlit("8");
        reveal_strlit("9");
    }
    let r = if d == 0 {
        "0"
    } else if d == 1 {
        "1"
    } else if d == 2 {
        "2"
    } else if d == 3 {
        "3"
    } else if d == 4 {
        "4"
    } else if d == 5 {
        "5"
    } else if d == 6 {
        "6"
    } else if d == 7 {
        "7"
    } else if d == 8 {
        "8"
    } else {
        "9"
    };
    assert(r@ =~= seq![digit_char(d as nat)]);
    r
}

/// Appends the decimal digits of `v` to `out`.
pub fn push_decimal(out: &mut String, v: u32)
    ensures
        final(out)@ == old(out)@ + decimal(v as nat),
    decreases v,
{
    if v >= 10 {
        push_decimal(out, v / 10);
        out.append(digit_str(v % 10));
        assert(decimal(v as nat) =~= decimal((v / 10) as nat).push(digit_char((v % 10) as nat)));
    } else {
        out.append(digit_str(v));
    }
}

/// Reads the characters `s[from..to]` as a decimal number that fits in `u32`
/// and is not zero.
pub fn parse_nonzero_u32(s: &str, from: usize, to: usize) -> (r: Option<u32>)
    requires
        from <= to <= s@.len(),
    ensures
        r is Some <==> parses_u32(s@.subrange(from as int, to as int)) && u32_value(
            s@.subrange(from as int, to as int),
        ) != 0,
        r matches Some(v) ==> v as int == u32_value(s@.subrange(from as int, to as int)),
{
    match parse_u32_range(s, from, to) {
        Some(v) => if v == 0 {
            None
        } else {
            Some(v)
        },
        None => None,
    }
}

proof fn lemma_first_slash_in_range(s: Seq<char>)
    ensures
        first_slash(s) matches Some(k) ==> 0 <= k < s.len() && s[k] == '/',
    decreases s.len(),
{
    if s.len() > 0 {
        lemma_first_slash_in_range(s.drop_last());
    }
}

} // verus!
