//! Reading a shape's fields from comma-separated text.
//!
//! The text is cut at every comma into fields, as `str::split(',')` cuts it
//! (an empty text is one empty field). A numeric field holds an optional
//! `+` or `-` sign followed by one or more ASCII digits, and its value must
//! fit in an `i32`; a field that is absent reads as 0, and an absent name
//! reads as the empty text.

use vstd::prelude::*;

verus! {

/// A numeric field of the text is present but is not an `i32` in decimal.
#[derive(Debug, Clone, Copy, PartialEq, Eq)]
pub struct ParseError {
    /// Position of the offending field, counted from 0.
    pub field: usize,
}

/// The fields of `s`, cut at every comma.
pub open spec fn split_commas(s: Seq<char>) -> Seq<Seq<char>>
    decreases s.len(),
{
    if s.len() == 0 {
        seq![Seq::empty()]
    } else {
        let init = split_commas(s.drop_last());
        if s.last() == ',' {
            init.push(Seq::empty())
        } else {
            init.update(init.len() - 1, init.last().push(s.last()))
        }
    }
}

pub open spec fn is_digit(c: char) -> bool {
    '0' <= c && c <= '9'
}

pub open spec fn all_digits(s: Seq<char>) -> bool {
    forall|i: int| 0 <= i < s.len() ==> #[trigger] is_digit(s[i])
}

/// The number that a run of decimal digits writes.
pub open spec fn digits_value(s: Seq<char>) -> int
    decreases s.len(),
{
    if s.len() == 0 {
        0
    } else {
        10 * digits_value(s.drop_last()) + (s.last() as int - '0' as int)
    }
}

/// The integer that `s` writes in decimal, with an optional sign.
pub open spec fn decimal_value(s: Seq<char>) -> Option<int> {
    if s.len() > 0 && (s[0] == '+' || s[0] == '-') {
        let d = s.drop_first();
        if d.len() > 0 && all_digits(d) {
            Some(if s[0] == '-' { -digits_value(d) } else { digits_value(d) })
        } else {
            None
        }
    } else if s.len() > 0 && all_digits(s) {
        Some(digits_value(s))
    } else {
        None
    }
}

/// The value of `s` read as an `i32`: none where `s` is no decimal
/// integer or its value does not fit.
pub open spec fn i32_value(s: Seq<char>) -> Option<int> {
    match decimal_value(s) {
        Some(v) => if i32::MIN <= v <= i32::MAX {
            Some(v)
        } else {
            None
        },
        None => None,
    }
}

/// The numeric field at position `k`: 0 where the text has fewer fields.
pub open spec fn number_field(fields: Seq<Seq<char>>, k: int) -> Option<int> {
    if k < fields.len() {
        i32_value(fields[k])
    } else {
        Some(0)
    }
}

/// The text field at position `k`: empty where the text has fewer fields.
pub open spec fn text_field(fields: Seq<Seq<char>>, k: int) -> Seq<char> {
    if k < fields.len() {
        fields[k]
    } else {
        Seq::empty()
    }
}

/// `bounds` gives, as positions in `s`, where each comma-separated field
/// of `s` begins and ends.
pub open spec fn bounds_of_fields(s: Seq<char>, bounds: Seq<(usize, usize)>) -> bool {
    &&& bounds.len() == split_commas(s).len()
    &&& forall|k: int|
        0 <= k < bounds.len() ==> {
            &&& (#[trigger] bounds[k]).0 <= bounds[k].1 <= s.len()
            &&& s.subrange(bounds[k].0 as int, bounds[k].1 as int) == split_commas(s)[k]
        }
}

proof fn lemma_digits_prefix_le(d: Seq<char>, j: int)
    requires
        all_digits(d),
        0 <= j <= d.len(),
    ensures
        0 <= digits_value(d.take(j)) <= digits_value(d),
    decreases d.len(),
{
    if j < d.len() {
        let init = d.drop_last();
        assert(init.take(j) =~= d.take(j));
        assert(all_digits(init)) by {
            assert forall|i: int| 0 <= i < init.len() implies #[trigger] is_digit(init[i]) by {
                assert(is_digit(d[i]));
            }
        }
        assert(is_digit(d[d.len() - 1]));
        lemma_digits_prefix_le(init, j);
    } else {
        assert(d.take(j) =~= d);
        lemma_digits_nonneg(d);
    }
}

proof fn lemma_digits_nonneg(d: Seq<char>)
    requires
        all_digits(d),
    ensures
        digits_value(d) >= 0,
    decreases d.len(),
{
    if d.len() > 0 {
        let init = d.drop_last();
        assert(all_digits(init)) by {
            assert forall|i: int| 0 <= i < init.len() implies #[trigger] is_digit(init[i]) by {
                assert(is_digit(d[i]));
            }
        }
        assert(is_digit(d[d.len() - 1]));
        lemma_digits_nonneg(init);
    }
}

/// The characters of `s`, one by one.
pub fn chars_of(s: &str) -> (r: Vec<char>)
    ensures
        r@ == s@,
{
    let n = s.unicode_len();
    let mut r: Vec<char> = Vec::new();
    let mut i: usize = 0;
    while i < n
        invariant
            n == s@.len(),
            i <= n,
            r@ == s@.take(i as int),
        decreases n - i,
    {
        let c = s.get_char(i);
        r.push(c);
        i = i + 1;
        assert(r@ =~= s@.take(i as int));
    }
    assert(r@ =~= s@);
    r
}

/// The bounds, as positions in `chars`, of each comma-separated field.
pub fn comma_fields(chars: &Vec<char>) -> (r: Vec<(usize, usize)>)
    ensures
        bounds_of_fields(chars@, r@),
{
    let n = chars.len();
    let mut r: Vec<(usize, usize)> = Vec::new();
    let mut start: usize = 0;
    let mut i: usize = 0;
    while i < n
        invariant
            n == chars@.len(),
            start <= i <= n,
            split_commas(chars@.take(i as int)).len() == r@.len() + 1,
            split_commas(chars@.take(i as int))[r@.len() as int] == chars@.subrange(
                start as int,
                i as int,
            ),
            forall|k: int|
                0 <= k < r@.len() ==> {
                    &&& (#[trigger] r@[k]).0 <= r@[k].1 <= start
                    &&& chars@.subrange(r@[k].0 as int, r@[k].1 as int) == split_commas(
                        chars@.take(i as int),
                    )[k]
                },
        decreases n - i,
    {
        let ghost before = split_commas(chars@.take(i as int));
        let ghost old_r = r@;
        assert(chars@.take(i + 1).drop_last() =~= chars@.take(i as int));
        assert(chars@.take(i + 1).last() == chars@[i as int]);
        if chars[i] == ',' {
            r.push((start, i));
            start = i + 1;
            i = i + 1;
            let ghost after = split_commas(chars@.take(i as int));
            assert(after == before.push(Seq::empty()));
            assert(chars@.subrange(start as int, i as int) =~= Seq::<char>::empty());
            assert forall|k: int| 0 <= k < r@.len() implies {
                &&& (#[trigger] r@[k]).0 <= r@[k].1 <= start
                &&& chars@.subrange(r@[k].0 as int, r@[k].1 as int) == split_commas(
                    chars@.take(i as int),
                )[k]
            } by {
                if k < old_r.len() {
                    assert(r@[k] == old_r[k]);
                    assert(after[k] == before[k]);
                }
            }
        } else {
            assert(chars@.subrange(start as int, i + 1) =~= chars@.subrange(
                start as int,
                i as int,
            ).push(chars@[i as int]));
            i = i + 1;
            let ghost after = split_commas(chars@.take(i as int));
            assert(after == before.update(
                before.len() - 1,
                before.last().push(chars@[i - 1]),
            ));
            assert forall|k: int| 0 <= k < r@.len() implies {
                &&& (#[trigger] r@[k]).0 <= r@[k].1 <= start
                &&& chars@.subrange(r@[k].0 as int, r@[k].1 as int) == split_commas(
                    chars@.take(i as int),
                )[k]
            } by {
                assert(after[k] == before[k]);
            }
        }
    }
    assert(chars@.take(n as int) =~= chars@);
    let ghost old_r = r@;
    r.push((start, n));
    assert forall|k: int| 0 <= k < r@.len() implies {
        &&& (#[trigger] r@[k]).0 <= r@[k].1 <= chars@.len()
        &&& chars@.subrange(r@[k].0 as int, r@[k].1 as int) == split_commas(chars@)[k]
    } by {
        if k < old_r.len() {
            assert(r@[k] == old_r[k]);
        }
    }
    r
}

/// Reads `chars[from..to]` as an `i32` written in decimal.
pub fn parse_i32(chars: &Vec<char>, from: usize, to: usize) -> (r: Option<i32>)
    requires
        from <= to <= chars@.len(),
    ensures
        match r {
            Some(v) => i32_value(chars@.subrange(from as int, to as int)) == Some(v as int),
            None => i32_value(chars@.subrange(from as int, to as int)) is None,
        },
{
    let ghost s = chars@.subrange(from as int, to as int);
    if from == to {
        return None;
    }
    let negative = chars[from] == '-';
    let signed = negative || chars[from] == '+';
    let start: usize = if signed {
        from + 1
    } else {
        from
    };
    let ghost d = chars@.subrange(start as int, to as int);
    assert(signed ==> d =~= s.drop_first());
    assert(!signed ==> d =~= s);
    if start == to {
        return None;
    }
    let mut acc: i64 = 0;
    let mut i: usize = start;
    while i < to
        invariant
            from <= start < to <= chars@.len(),
            start <= i <= to,
            d == chars@.subrange(start as int, to as int),
            s == chars@.subrange(from as int, to as int),
            s.len() > 0,
            signed == (s[0] == '+' || s[0] == '-'),
            negative == (s[0] == '-'),
            signed ==> d == s.drop_first(),
            !signed ==> d == s,
            0 <= acc <= 2147483648,
            all_digits(chars@.subrange(start as int, i as int)),
            acc == digits_value(chars@.subrange(start as int, i as int)),
        decreases to - i,
    {
        let c = chars[i];
        if !('0' <= c && c <= '9') {
            assert(!is_digit(d[i - start]));
            return None;
        }
        let ghost prefix = chars@.subrange(start as int, i + 1);
        assert(prefix.drop_last() =~= chars@.subrange(start as int, i as int));
        assert(all_digits(prefix)) by {
            assert forall|j: int| 0 <= j < prefix.len() implies #[trigger] is_digit(prefix[j]) by {
                if j < prefix.len() - 1 {
                    assert(is_digit(chars@.subrange(start as int, i as int)[j]));
                }
            }
        }
        acc = acc * 10 + (c as u32 - '0' as u32) as i64;
        i = i + 1;
        if acc > 2147483648 {
            proof {
                if all_digits(d) {
                    assert(d.take(i - start) =~= chars@.subrange(start as int, i as int));
                    lemma_digits_prefix_le(d, i - start);
                }
            }
            return None;
        }
    }
    assert(chars@.subrange(start as int, i as int) =~= d);
    if negative {
        Some((-acc) as i32)
    } else if acc <= 2147483647 {
        Some(acc as i32)
    } else {
        None
    }
}

/// The numeric field at position `k` of the text whose characters are
/// `chars` and whose fields are at `bounds`.
pub fn number_at(chars: &Vec<char>, bounds: &Vec<(usize, usize)>, k: usize) -> (r: Option<i32>)
    requires
        bounds_of_fields(chars@, bounds@),
    ensures
        match r {
            Some(v) => number_field(split_commas(chars@), k as int) == Some(v as int),
            None => number_field(split_commas(chars@), k as int) is None,
        },
{
    if k < bounds.len() {
        let (from, to) = bounds[k];
        parse_i32(chars, from, to)
    } else {
        Some(0)
    }
}

/// The text field at position `k` of `s`, whose fields are at `bounds`.
pub fn text_at(s: &str, bounds: &Vec<(usize, usize)>, k: usize) -> (r: String)
    requires
        bounds_of_fields(s@, bounds@),
    ensures
        r@ == text_field(split_commas(s@), k as int),
{
    if k < bounds.len() {
        let (from, to) = bounds[k];
        String::from_str(s.substring_char(from, to))
    } else {
        String::new()
    }
}

} // verus!
