//! Parsing of a brightness argument.
//!
//! The argument is a single token, surrounded by optional whitespace:
//! a leading or trailing sign makes it a signed delta (`+10`, `-10`,
//! `10+`, `10-`), bare digits make it an absolute value.

use vstd::prelude::*;

use crate::types::{BrightnessError, ValueChange};

verus! {

/// ASCII whitespace, stripped from both ends of the argument.
pub open spec fn is_space_char(c: char) -> bool {
    c == ' ' || c == '\t' || c == '\n' || c == '\r'
}

pub open spec fn all_spaces(s: Seq<char>) -> bool {
    forall|i: int| 0 <= i < s.len() ==> is_space_char(#[trigger] s[i])
}

pub open spec fn is_digit_char(c: char) -> bool {
    ('0' as u32) <= (c as u32) && (c as u32) <= ('9' as u32)
}

pub open spec fn all_digits(s: Seq<char>) -> bool {
    forall|i: int| 0 <= i < s.len() ==> is_digit_char(#[trigger] s[i])
}

pub open spec fn digit_val(c: char) -> int {
    (c as u32) - ('0' as u32)
}

/// The number that a sequence of decimal digits denotes.
pub open spec fn digits_val(s: Seq<char>) -> int
    decreases s.len(),
{
    if s.len() == 0 {
        0
    } else {
        digits_val(s.drop_last()) * 10 + digit_val(s.last())
    }
}

/// Leading whitespace removed.
pub open spec fn trim_front(s: Seq<char>) -> Seq<char>
    decreases s.len(),
{
    if s.len() > 0 && is_space_char(s[0]) {
        trim_front(s.drop_first())
    } else {
        s
    }
}

/// Trailing whitespace removed.
pub open spec fn trim_back(s: Seq<char>) -> Seq<char>
    decreases s.len(),
{
    if s.len() > 0 && is_space_char(s.last()) {
        trim_back(s.drop_last())
    } else {
        s
    }
}

/// Whitespace removed from both ends.
pub open spec fn trim_spec(s: Seq<char>) -> Seq<char> {
    trim_back(trim_front(s))
}

/// The grammar on the trimmed, non-empty token; the first matching
/// pattern wins. Deltas must fit an `i16`, absolute values a `u16`.
pub open spec fn parse_trimmed(t: Seq<char>) -> Result<ValueChange, BrightnessError> {
    if t[0] == '+' && t.len() > 1 {
        let ds = t.subrange(1, t.len() as int);
        if all_digits(ds) && digits_val(ds) <= 32767 {
            Ok(ValueChange::Delta(digits_val(ds) as i16))
        } else {
            Err(BrightnessError::ParseError)
        }
    } else if t[0] == '-' && t.len() > 1 {
        let ds = t.subrange(1, t.len() as int);
        if all_digits(ds) && digits_val(ds) <= 32768 {
            Ok(ValueChange::Delta((-digits_val(ds)) as i16))
        } else {
            Err(BrightnessError::ParseError)
        }
    } else if t.last() == '+' && t.len() > 1 {
        let ds = t.subrange(0, t.len() - 1);
        if all_digits(ds) && digits_val(ds) <= 32767 {
            Ok(ValueChange::Delta(digits_val(ds) as i16))
        } else {
            Err(BrightnessError::ParseError)
        }
    } else if t.last() == '-' && t.len() > 1 {
        let ds = t.subrange(0, t.len() - 1);
        if all_digits(ds) && digits_val(ds) <= 32767 {
            Ok(ValueChange::Delta((-digits_val(ds)) as i16))
        } else {
            Err(BrightnessError::ParseError)
        }
    } else {
        if t.len() > 0 && all_digits(t) && digits_val(t) <= 65535 {
            Ok(ValueChange::Absolute(digits_val(t) as u16))
        } else {
            Err(BrightnessError::ParseError)
        }
    }
}

/// What `parse_change` returns for any argument string.
pub open spec fn parse_spec(s: Seq<char>) -> Result<ValueChange, BrightnessError> {
    let t = trim_spec(s);
    if t.len() == 0 {
        Err(BrightnessError::EmptyInput)
    } else {
        parse_trimmed(t)
    }
}

proof fn lemma_digits_val_nonneg(s: Seq<char>)
    requires
        all_digits(s),
    ensures
        digits_val(s) >= 0,
    decreases s.len(),
{
    if s.len() > 0 {
        assert(all_digits(s.drop_last()));
        lemma_digits_val_nonneg(s.drop_last());
    }
}

/// A digit string's value only grows as digits are appended.
proof fn lemma_digits_val_prefix(s: Seq<char>, j: int)
    requires
        all_digits(s),
        0 <= j <= s.len(),
    ensures
        digits_val(s.subrange(0, j)) <= digits_val(s),
    decreases s.len(),
{
    if j == s.len() {
        assert(s.subrange(0, j) =~= s);
    } else {
        let d = s.drop_last();
        assert(all_digits(d));
        assert(s.subrange(0, j) =~= d.subrange(0, j));
        lemma_digits_val_prefix(d, j);
        lemma_digits_val_nonneg(d);
    }
}

proof fn lemma_trim_front_spaces(pre: Seq<char>, rest: Seq<char>)
    requires
        all_spaces(pre),
    ensures
        trim_front(pre + rest) == trim_front(rest),
    decreases pre.len(),
{
    if pre.len() == 0 {
        assert(pre + rest =~= rest);
    } else {
        let s = pre + rest;
        assert(s[0] == pre[0]);
        assert(s.drop_first() =~= pre.drop_first() + rest);
        assert(all_spaces(pre.drop_first()));
        lemma_trim_front_spaces(pre.drop_first(), rest);
    }
}

proof fn lemma_trim_back_spaces(x: Seq<char>, post: Seq<char>)
    requires
        all_spaces(post),
    ensures
        trim_back(x + post) == trim_back(x),
    decreases post.len(),
{
    if post.len() == 0 {
        assert(x + post =~= x);
    } else {
        let s = x + post;
        assert(s.last() == post.last());
        assert(s.drop_last() =~= x + post.drop_last());
        assert(all_spaces(post.drop_last()));
        lemma_trim_back_spaces(x, post.drop_last());
    }
}

/// A plain digit string in the percentage scale, surrounded by any
/// amount of whitespace, parses as that absolute value.
pub proof fn lemma_parse_absolute(pre: Seq<char>, ds: Seq<char>, post: Seq<char>)
    requires
        all_spaces(pre),
        all_spaces(post),
        ds.len() > 0,
        all_digits(ds),
        digits_val(ds) <= 100,
    ensures
        parse_spec(pre + ds + post) == Ok::<ValueChange, BrightnessError>(
            ValueChange::Absolute(digits_val(ds) as u16),
        ),
{
    let s = pre + ds + post;
    assert(s =~= pre + (ds + post));
    lemma_trim_front_spaces(pre, ds + post);
    assert((ds + post)[0] == ds[0]);
    assert(is_digit_char(ds[0]));
    assert(!is_space_char(ds[0]));
    assert(trim_front(ds + post) == ds + post);
    lemma_trim_back_spaces(ds, post);
    assert(!is_space_char(ds.last()));
    assert(trim_back(ds) == ds);
    assert(trim_spec(s) == ds);
    lemma_digits_val_nonneg(ds);
    assert(ds[0] != '+' && ds[0] != '-');
    assert(ds.last() != '+' && ds.last() != '-');
}

fn exec_is_space(c: char) -> (r: bool)
    ensures
        r == is_space_char(c),
{
    c == ' ' || c == '\t' || c == '\n' || c == '\r'
}

/// Reads `t[from..to]` as a decimal number; `None` on an empty range,
/// a non-digit, or a value above `cap`.
fn parse_digits(t: &str, from: usize, to: usize, cap: u32) -> (r: Option<u32>)
    requires
        from <= to <= t@.len(),
        cap <= 65536,
    ensures
        ({
            let ds = t@.subrange(from as int, to as int);
            &&& (r is Some <==> (from < to && all_digits(ds) && digits_val(ds) <= cap))
            &&& (r matches Some(v) ==> v == digits_val(ds))
        }),
{
    if from == to {
        return None;
    }
    let mut acc: u32 = 0;
    let mut i: usize = from;
    while i < to
        invariant
            from <= i <= to <= t@.len(),
            cap <= 65536,
            all_digits(t@.subrange(from as int, i as int)),
            acc == digits_val(t@.subrange(from as int, i as int)),
            acc <= cap,
        decreases to - i,
    {
        let c = t.get_char(i);
        let u = c as u32;
        if u < ('0' as u32) || u > ('9' as u32) {
            proof {
                let ds = t@.subrange(from as int, to as int);
                assert(ds[i - from] == t@[i as int]);
            }
            return None;
        }
        let d = u - ('0' as u32);
        let next = acc * 10 + d;
        proof {
            let pre = t@.subrange(from as int, i as int);
            let pre1 = t@.subrange(from as int, i as int + 1);
            assert(pre1.drop_last() =~= pre);
            assert(pre1.last() == t@[i as int]);
        }
        if next > cap {
            proof {
                let ds = t@.subrange(from as int, to as int);
                let pre1 = t@.subrange(from as int, i as int + 1);
                if all_digits(ds) {
                    assert(pre1 =~= ds.subrange(0, i - from + 1));
                    lemma_digits_val_prefix(ds, i - from + 1);
                }
            }
            return None;
        }
        acc = next;
        i = i + 1;
    }
    proof {
        assert(t@.subrange(from as int, to as int) =~= t@.subrange(from as int, i as int));
    }
    Some(acc)
}

/// Parses a brightness argument into an absolute value or a delta.
pub fn parse_change(s: &str) -> (r: Result<ValueChange, BrightnessError>)
    ensures
        r == parse_spec(s@),
{
    let n = s.unicode_len();
    let mut start: usize = 0;
    proof {
        assert(s@.skip(0) =~= s@);
    }
    loop
        invariant
            start <= n,
            n == s@.len(),
            trim_front(s@) == trim_front(s@.skip(start as int)),
        ensures
            start <= n,
            n == s@.len(),
            trim_front(s@) == s@.subrange(start as int, n as int),
        decreases n - start,
    {
        if start >= n {
            proof {
                assert(s@.skip(start as int) =~= s@.subrange(start as int, n as int));
            }
            break;
        }
        let c = s.get_char(start);
        if !exec_is_space(c) {
            proof {
                let rest = s@.skip(start as int);
                assert(rest[0] == s@[start as int]);
                assert(rest =~= s@.subrange(start as int, n as int));
            }
            break;
        }
        proof {
            let rest = s@.skip(start as int);
            assert(rest[0] == s@[start as int]);
            assert(rest.drop_first() =~= s@.skip(start as int + 1));
        }
        start = start + 1;
    }
    let mut end: usize = n;
    loop
        invariant
            start <= end <= n,
            n == s@.len(),
            trim_front(s@) == s@.subrange(start as int, n as int),
            trim_spec(s@) == trim_back(s@.subrange(start as int, end as int)),
        ensures
            start <= end <= n,
            n == s@.len(),
            trim_spec(s@) == s@.subrange(start as int, end as int),
        decreases end - start,
    {
        if end == start {
            break;
        }
        let c = s.get_char(end - 1);
        if !exec_is_space(c) {
            proof {
                let cur = s@.subrange(start as int, end as int);
                assert(cur.last() == s@[end - 1]);
            }
            break;
        }
        proof {
            let cur = s@.subrange(start as int, end as int);
            assert(cur.last() == s@[end - 1]);
            assert(cur.drop_last() =~= s@.subrange(start as int, end - 1));
        }
        end = end - 1;
    }
    if start == end {
        return Err(BrightnessError::EmptyInput);
    }
    let t = s.substring_char(start, end);
    let m = end - start;
    proof {
        assert(t@ == trim_spec(s@));
        assert(t@.len() == m);
    }
    let first = t.get_char(0);
    if first == '+' && m > 1 {
        match parse_digits(t, 1, m, 32767) {
            Some(v) => {
                proof {
                    lemma_digits_val_nonneg(t@.subrange(1, m as int));
                }
                Ok(ValueChange::Delta(v as i16))
            },
            None => Err(BrightnessError::ParseError),
        }
    } else if first == '-' && m > 1 {
        match parse_digits(t, 1, m, 32768) {
            Some(v) => {
                proof {
                    lemma_digits_val_nonneg(t@.subrange(1, m as int));
                }
                let d = -(v as i32);
                Ok(ValueChange::Delta(d as i16))
            },
            None => Err(BrightnessError::ParseError),
        }
    } else {
        let last = t.get_char(m - 1);
        if last == '+' && m > 1 {
            match parse_digits(t, 0, m - 1, 32767) {
                Some(v) => {
                    proof {
                        lemma_digits_val_nonneg(t@.subrange(0, m - 1));
                    }
                    Ok(ValueChange::Delta(v as i16))
                },
                None => Err(BrightnessError::ParseError),
            }
        } else if last == '-' && m > 1 {
            match parse_digits(t, 0, m - 1, 32767) {
                Some(v) => {
                    proof {
                        lemma_digits_val_nonneg(t@.subrange(0, m - 1));
                    }
                    let d = -(v as i32);
                    Ok(ValueChange::Delta(d as i16))
                },
                None => Err(BrightnessError::ParseError),
            }
        } else {
            proof {
                assert(t@.subrange(0, m as int) =~= t@);
            }
            match parse_digits(t, 0, m, 65535) {
                Some(v) => {
                    proof {
                        lemma_digits_val_nonneg(t@.subrange(0, m as int));
                    }
                    Ok(ValueChange::Absolute(v as u16))
                },
                None => Err(BrightnessError::ParseError),
            }
        }
    }
}

} // verus!
