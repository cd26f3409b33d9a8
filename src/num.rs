//! Signed decimal integers as Rust's `i32` parser reads them.
use vstd::prelude::*;

verus! {

pub open spec fn is_digit(c: char) -> bool {
    '0' <= c <= '9'
}

/// A nonempty run of decimal digits.
pub open spec fn all_digits(d: Seq<char>) -> bool {
    d.len() > 0 && forall|i: int| 0 <= i < d.len() ==> is_digit(#[trigger] d[i])
}

/// The value of a run of decimal digits, most significant first.
pub open spec fn decimal_value(d: Seq<char>) -> int
    decreases d.len(),
{
    if d.len() == 0 {
        0
    } else {
        decimal_value(d.drop_last()) * 10 + (d.last() as int - '0' as int)
    }
}

/// Whether `t` starts with a sign character.
pub open spec fn has_sign(t: Seq<char>) -> bool {
    t.len() > 0 && (t[0] == '+' || t[0] == '-')
}

/// `t` without its sign character.
pub open spec fn unsigned_part(t: Seq<char>) -> Seq<char> {
    if has_sign(t) {
        t.drop_first()
    } else {
        t
    }
}

/// The integer that `t` denotes: an optional `+` or `-` and at least one digit,
/// with a value that fits in an `i32`; `None` for any other text.
pub open spec fn parse_i32(t: Seq<char>) -> Option<int> {
    let m = decimal_value(unsigned_part(t));
    let v = if has_sign(t) && t[0] == '-' {
        -m
    } else {
        m
    };
    if all_digits(unsigned_part(t)) && i32::MIN <= v <= i32::MAX {
        Some(v)
    } else {
        None
    }
}

pub open spec fn abs(v: int) -> int {
    if v < 0 {
        -v
    } else {
        v
    }
}

proof fn lemma_prefix_value_le(d: Seq<char>, k: int)
    requires
        all_digits(d),
        0 < k <= d.len(),
    ensures
        decimal_value(d.take(k)) <= decimal_value(d),
    decreases d.len(),
{
    if k < d.len() {
        let e = d.drop_last();
        assert(e.take(k) == d.take(k));
        assert(all_digits(e)) by {
            assert forall|i: int| 0 <= i < e.len() implies is_digit(#[trigger] e[i]) by {
                assert(e[i] == d[i]);
            }
        }
        lemma_prefix_value_le(e, k);
        lemma_value_nonneg(e);
        assert(is_digit(d[d.len() - 1]));
    } else {
        assert(d.take(k) == d);
    }
}

proof fn lemma_value_nonneg(d: Seq<char>)
    requires
        forall|i: int| 0 <= i < d.len() ==> is_digit(#[trigger] d[i]),
    ensures
        decimal_value(d) >= 0,
    decreases d.len(),
{
    if d.len() > 0 {
        let e = d.drop_last();
        assert forall|i: int| 0 <= i < e.len() implies is_digit(#[trigger] e[i]) by {
            assert(e[i] == d[i]);
        }
        lemma_value_nonneg(e);
        assert(is_digit(d[d.len() - 1]));
    }
}

/// The absolute value of the integer written in `chars[a..b]`, if it is one.
pub fn parse_magnitude(chars: &Vec<char>, a: usize, b: usize) -> (r: Option<u32>)
    requires
        a <= b <= chars.len(),
    ensures
        r == match parse_i32(chars@.subrange(a as int, b as int)) {
            Some(v) => Some(abs(v) as u32),
            None => None,
        },
{
    let ghost t = chars@.subrange(a as int, b as int);
    let signed = a < b && (chars[a] == '+' || chars[a] == '-');
    let negative = signed && chars[a] == '-';
    let start: usize = if signed {
        a + 1
    } else {
        a
    };
    let ghost d = chars@.subrange(start as int, b as int);
    assert(a < b ==> t[0] == chars@[a as int]);
    assert(d == unsigned_part(t));
    if start == b {
        return None;
    }
    let limit: u64 = if negative {
        2147483648
    } else {
        2147483647
    };
    let mut acc: u64 = 0;
    let mut i: usize = start;
    while i < b
        invariant
            start <= i <= b <= chars.len(),
            d == chars@.subrange(start as int, b as int),
            d == unsigned_part(t),
            t == chars@.subrange(a as int, b as int),
            negative == (has_sign(t) && t[0] == '-'),
            limit == if negative {
                2147483648u64
            } else {
                2147483647u64
            },
            acc == decimal_value(chars@.subrange(start as int, i as int)),
            acc <= limit <= 2147483648,
            forall|j: int| start <= j < i ==> is_digit(#[trigger] chars@[j]),
        decreases b - i,
    {
        let c = chars[i];
        if !('0' <= c && c <= '9') {
            assert(!is_digit(d[i - start]));
            assert(!all_digits(d));
            assert(parse_i32(t) is None);
            return None;
        }
        let ghost before = chars@.subrange(start as int, i as int);
        let ghost after = chars@.subrange(start as int, i + 1);
        assert(after.drop_last() == before);
        assert(after.last() == c);
        acc = acc * 10 + (c as u64 - '0' as u64);
        assert(acc == decimal_value(after));
        i += 1;
        if acc > limit {
            proof {
                if all_digits(d) {
                    assert(d.take(i - start) == chars@.subrange(start as int, i as int));
                    lemma_prefix_value_le(d, i - start);
                    assert(decimal_value(d) > limit);
                }
                assert(parse_i32(t) is None);
            }
            return None;
        }
    }
    assert(chars@.subrange(start as int, i as int) == d);
    assert(all_digits(d));
    Some(acc as u32)
}

} // verus!
