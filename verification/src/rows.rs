//! Readers for rows of the tab-delimited source datasets: splitting a line
//! into fields, the reserved token that stands for "no value", and the
//! numeric field parsers.

use vstd::prelude::*;

verus! {

/// The reserved token that marks an absent value in a source column.
pub open spec fn spec_null_token() -> Seq<char> {
    seq!['\\', 'N']
}

/// A column is treated as absent when it is empty or holds the null token.
pub open spec fn spec_is_absent(s: Seq<char>) -> bool {
    s.len() == 0 || s == spec_null_token()
}

pub open spec fn spec_is_digit(c: char) -> bool {
    48 <= c as int <= 57
}

pub open spec fn spec_digit_val(c: char) -> int {
    c as int - 48
}

pub open spec fn spec_all_digits(s: Seq<char>) -> bool {
    forall|i: int| 0 <= i < s.len() ==> spec_is_digit(#[trigger] s[i])
}

/// Numeric value of a digit string, most significant digit first.
pub open spec fn spec_digits_val(s: Seq<char>) -> int
    decreases s.len(),
{
    if s.len() == 0 {
        0
    } else {
        spec_digits_val(s.drop_last()) * 10 + spec_digit_val(s.last())
    }
}

/// What `parse_i64` returns on a present column: the usual decimal integer
/// grammar with an optional sign, rejected when any character is not a
/// digit or the value does not fit in an `i64`.
pub open spec fn spec_parse_signed(s: Seq<char>) -> Option<i64> {
    let signed = s.len() > 0 && (s[0] == '+' || s[0] == '-');
    let body = if signed {
        s.drop_first()
    } else {
        s
    };
    let neg = s.len() > 0 && s[0] == '-';
    if body.len() == 0 || !spec_all_digits(body) {
        None
    } else {
        let m = spec_digits_val(body);
        let v = if neg {
            -m
        } else {
            m
        };
        if i64::MIN <= v <= i64::MAX {
            Some(v as i64)
        } else {
            None
        }
    }
}

/// The contract of `parse_i64`: absent columns never parse.
pub open spec fn spec_parse_i64(value: Option<&str>) -> Option<i64> {
    match value {
        None => None,
        Some(v) => if spec_is_absent(v@) {
            None
        } else {
            spec_parse_signed(v@)
        },
    }
}

proof fn lemma_digits_val_nonneg(s: Seq<char>)
    requires
        spec_all_digits(s),
    ensures
        spec_digits_val(s) >= 0,
    decreases s.len(),
{
    if s.len() > 0 {
        assert(spec_all_digits(s.drop_last()));
        lemma_digits_val_nonneg(s.drop_last());
    }
}

/// Appending one digit multiplies the value by ten and adds the digit.
proof fn lemma_digits_val_push(s: Seq<char>, c: char)
    ensures
        spec_digits_val(s.push(c)) == spec_digits_val(s) * 10 + spec_digit_val(c),
{
    assert(s.push(c).drop_last() =~= s);
}

/// A digit string is worth at least any of its prefixes.
proof fn lemma_digits_val_prefix_le(s: Seq<char>, i: int)
    requires
        spec_all_digits(s),
        0 <= i <= s.len(),
    ensures
        spec_digits_val(s.take(i)) <= spec_digits_val(s),
    decreases s.len() - i,
{
    if i == s.len() {
        assert(s.take(i) =~= s);
    } else {
        lemma_digits_val_prefix_le(s, i + 1);
        assert(s.take(i + 1).drop_last() =~= s.take(i));
        assert(spec_all_digits(s.take(i)));
        lemma_digits_val_nonneg(s.take(i));
        assert(spec_digits_val(s.take(i + 1)) == spec_digits_val(s.take(i)) * 10
            + spec_digit_val(s.take(i + 1).last()));
        assert(spec_is_digit(s[i]));
        assert(spec_digits_val(s.take(i)) <= spec_digits_val(s.take(i + 1)));
    }
}

/// Index of the first occurrence of `sep`, or the length when absent.
pub open spec fn spec_sep_idx(s: Seq<char>, sep: char) -> int
    decreases s.len(),
{
    if s.len() == 0 {
        0
    } else if s[0] == sep {
        0
    } else {
        1 + spec_sep_idx(s.drop_first(), sep)
    }
}

proof fn lemma_sep_idx_bounds(s: Seq<char>, sep: char)
    ensures
        0 <= spec_sep_idx(s, sep) <= s.len(),
        forall|j: int| 0 <= j < spec_sep_idx(s, sep) ==> #[trigger] s[j] != sep,
        spec_sep_idx(s, sep) < s.len() ==> s[spec_sep_idx(s, sep)] == sep,
    decreases s.len(),
{
    if s.len() > 0 && s[0] != sep {
        lemma_sep_idx_bounds(s.drop_first(), sep);
        assert forall|j: int| 0 <= j < spec_sep_idx(s, sep) implies #[trigger] s[j] != sep by {
            if j > 0 {
                assert(s.drop_first()[j - 1] == s[j]);
            }
        }
    }
}

/// The first separator is at `k` when nothing before `k` is one and either
/// the string ends there or `k` holds one.
proof fn lemma_sep_idx_is(s: Seq<char>, sep: char, k: int)
    requires
        0 <= k <= s.len(),
        forall|j: int| 0 <= j < k ==> #[trigger] s[j] != sep,
        k == s.len() || s[k] == sep,
    ensures
        spec_sep_idx(s, sep) == k,
    decreases k,
{
    if s.len() > 0 && k > 0 {
        assert(s[0] != sep);
        lemma_sep_idx_is(s.drop_first(), sep, k - 1);
    }
}

/// A string split at every occurrence of `sep`; separators are dropped and
/// empty pieces are kept, as the source format demands.
pub open spec fn spec_split(s: Seq<char>, sep: char) -> Seq<Seq<char>>
    decreases s.len(),
{
    let i = spec_sep_idx(s, sep);
    if 0 <= i < s.len() {
        seq![s.take(i)] + spec_split(s.skip(i + 1), sep)
    } else {
        seq![s]
    }
}

/// Splits a string at every occurrence of `sep`.
#[verifier::loop_isolation(false)]
pub fn split_on(s: &str, sep: char) -> (r: Vec<String>)
    ensures
        r.deep_view() == spec_split(s@, sep),
{
    let n = s.unicode_len();
    let mut out: Vec<String> = Vec::new();
    let mut field_start: usize = 0;
    let mut i: usize = 0;
    proof {
        assert(s@.skip(0) =~= s@);
        assert(out.deep_view() + spec_split(s@, sep) =~= spec_split(s@, sep));
    }
    while i < n
        invariant
            field_start <= i <= n,
            forall|j: int| field_start <= j < i ==> #[trigger] s@[j] != sep,
            spec_split(s@, sep) == out.deep_view() + spec_split(s@.skip(field_start as int), sep),
        decreases n - i,
    {
        if s.get_char(i) == sep {
            let piece = s.substring_char(field_start, i);
            proof {
                let t = s@.skip(field_start as int);
                assert forall|j: int| 0 <= j < i - field_start implies #[trigger] t[j]
                    != sep by {
                    assert(t[j] == s@[field_start + j]);
                }
                assert(t[i - field_start] == s@[i as int]);
                lemma_sep_idx_is(t, sep, i - field_start);
                assert(t.take(i - field_start) =~= piece@);
                assert(t.skip(i - field_start + 1) =~= s@.skip(i + 1));
            }
            let owned = String::from_str(piece);
            out.push(owned);
            proof {
                assert(out.deep_view() =~= out.deep_view().take(out.len() - 1).push(piece@));
                assert(out.deep_view().take(out.len() - 1) + (seq![piece@] + spec_split(
                    s@.skip(i + 1),
                    sep,
                )) =~= out.deep_view() + spec_split(s@.skip(i + 1), sep));
            }
            field_start = i + 1;
        }
        i = i + 1;
    }
    let piece = s.substring_char(field_start, n);
    proof {
        let t = s@.skip(field_start as int);
        assert forall|j: int| 0 <= j < t.len() implies #[trigger] t[j] != sep by {
            assert(t[j] == s@[field_start + j]);
        }
        lemma_sep_idx_is(t, sep, t.len() as int);
        assert(t =~= piece@);
        assert(spec_split(s@.skip(field_start as int), sep) == seq![piece@]);
    }
    let owned = String::from_str(piece);
    out.push(owned);
    proof {
        assert(out.deep_view() =~= out.deep_view().take(out.len() - 1).push(piece@));
        assert(out.deep_view().take(out.len() - 1) + seq![piece@] =~= out.deep_view());
    }
    out
}

/// Whether a present column should be treated as absent.
pub fn is_absent_field(s: &str) -> (r: bool)
    ensures
        r == spec_is_absent(s@),
{
    let n = s.unicode_len();
    if n == 0 {
        return true;
    }
    if n == 2 && s.get_char(0) == '\\' && s.get_char(1) == 'N' {
        proof {
            assert(s@ =~= spec_null_token());
        }
        return true;
    }
    proof {
        if s@ == spec_null_token() {
            assert(s@.len() == 2);
            assert(s@[0] == '\\' && s@[1] == 'N');
        }
    }
    false
}

/// Parses an optional column as a decimal integer; absent columns and the
/// null token never parse.
#[verifier::loop_isolation(false)]
pub fn parse_i64(value: Option<&str>) -> (r: Option<i64>)
    ensures
        r == spec_parse_i64(value),
{
    let v = match value {
        Some(v) => v,
        None => {
            return None;
        },
    };
    if is_absent_field(v) {
        return None;
    }
    let n = v.unicode_len();
    let mut start: usize = 0;
    let mut neg: bool = false;
    if n > 0 {
        let c0 = v.get_char(0);
        if c0 == '-' {
            neg = true;
            start = 1;
        } else if c0 == '+' {
            start = 1;
        }
    }
    let ghost body: Seq<char> = if start == 1 {
        v@.drop_first()
    } else {
        v@
    };
    proof {
        assert(body =~= v@.subrange(start as int, n as int));
    }
    if start >= n {
        return None;
    }
    let mut acc: u128 = 0;
    let mut i: usize = start;
    while i < n
        invariant
            start <= i <= n,
            n == v@.len(),
            body == v@.subrange(start as int, n as int),
            start <= 1,
            spec_all_digits(v@.subrange(start as int, i as int)),
            acc == spec_digits_val(v@.subrange(start as int, i as int)),
            acc <= 0x8000_0000_0000_0000,
        decreases n - i,
    {
        let c = v.get_char(i);
        let code = c as u32;
        if code < 48 || code > 57 {
            proof {
                assert(body[i - start] == v@[i as int]);
                assert(!spec_is_digit(body[i - start]));
                assert(!spec_all_digits(body));
            }
            return None;
        }
        let d = (code - 48) as u128;
        proof {
            assert(v@.subrange(start as int, (i + 1) as int) =~= v@.subrange(
                start as int,
                i as int,
            ).push(v@[i as int]));
            lemma_digits_val_push(v@.subrange(start as int, i as int), v@[i as int]);
        }
        acc = acc * 10 + d;
        i = i + 1;
        if acc > 0x8000_0000_0000_0000 {
            // Every longer digit string is worth at least this much, so the
            // value cannot fit in an i64 whichever characters follow.
            proof {
                if spec_all_digits(body) {
                    assert(v@.subrange(start as int, i as int) =~= body.take(i - start));
                    lemma_digits_val_prefix_le(body, i - start);
                    lemma_digits_val_nonneg(body);
                    assert(spec_digits_val(body) > 0x8000_0000_0000_0000);
                    assert(i64::MIN == -0x8000_0000_0000_0000int);
                    assert(i64::MAX == 0x7fff_ffff_ffff_ffffint);
                    assert(spec_parse_signed(v@) is None);
                } else {
                    assert(spec_parse_signed(v@) is None);
                }
            }
            return None;
        }
    }
    proof {
        assert(v@.subrange(start as int, i as int) =~= body);
    }
    if neg {
        if acc == 0x8000_0000_0000_0000 {
            Some(i64::MIN)
        } else {
            Some(-(acc as i64))
        }
    } else {
        if acc > i64::MAX as u128 {
            None
        } else {
            Some(acc as i64)
        }
    }
}

/// What a present rating column is worth, in tenths of a rating point:
/// decimal digits, optionally followed by a dot and at most one fractional
/// digit, on the zero-to-ten scale of the source data.  Anything else —
/// including a finer fraction, which the scale never produces — is rejected.
pub open spec fn spec_parse_rating_tenths(s: Seq<char>) -> Option<i64> {
    let i = spec_sep_idx(s, '.');
    let int_part = s.take(i);
    let frac = if i < s.len() {
        s.skip(i + 1)
    } else {
        Seq::<char>::empty()
    };
    if int_part.len() == 0 || !spec_all_digits(int_part) || frac.len() > 1 || !spec_all_digits(
        frac,
    ) {
        None
    } else {
        let v = spec_digits_val(int_part) * 10 + if frac.len() == 1 {
            spec_digit_val(frac[0])
        } else {
            0
        };
        if 0 <= v <= 100 {
            Some(v as i64)
        } else {
            None
        }
    }
}

/// The contract of `parse_rating_tenths`: absent columns never parse.
pub open spec fn spec_parse_rating(value: Option<&str>) -> Option<i64> {
    match value {
        None => None,
        Some(v) => if spec_is_absent(v@) {
            None
        } else {
            spec_parse_rating_tenths(v@)
        },
    }
}

/// Parses an optional rating column into tenths of a rating point.
#[verifier::loop_isolation(false)]
pub fn parse_rating_tenths(value: Option<&str>) -> (r: Option<i64>)
    ensures
        r == spec_parse_rating(value),
{
    let v = match value {
        Some(v) => v,
        None => {
            return None;
        },
    };
    if is_absent_field(v) {
        return None;
    }
    let n = v.unicode_len();
    let mut dot: usize = n;
    let mut found: bool = false;
    let mut i: usize = 0;
    while i < n && !found
        invariant
            0 <= i <= n,
            n == v@.len(),
            forall|j: int| 0 <= j < i ==> #[trigger] v@[j] != '.',
            found ==> dot == i && i < n && v@[dot as int] == '.',
            !found ==> dot == n,
        decreases n - i + if found {
            0int
        } else {
            1int
        },
    {
        if v.get_char(i) == '.' {
            found = true;
            dot = i;
        } else {
            i = i + 1;
        }
    }
    proof {
        lemma_sep_idx_is(v@, '.', dot as int);
    }
    let ghost int_part: Seq<char> = v@.take(dot as int);
    if dot == 0 {
        return None;
    }
    let mut acc: u64 = 0;
    let mut k: usize = 0;
    while k < dot
        invariant
            0 <= k <= dot <= n,
            n == v@.len(),
            int_part == v@.take(dot as int),
            spec_all_digits(v@.subrange(0, k as int)),
            acc == spec_digits_val(v@.subrange(0, k as int)),
            acc <= 100,
        decreases dot - k,
    {
        let c = v.get_char(k);
        let code = c as u32;
        if code < 48 || code > 57 {
            proof {
                assert(int_part[k as int] == v@[k as int]);
                assert(!spec_all_digits(int_part));
            }
            return None;
        }
        proof {
            assert(v@.subrange(0, (k + 1) as int) =~= v@.subrange(0, k as int).push(
                v@[k as int],
            ));
            lemma_digits_val_push(v@.subrange(0, k as int), v@[k as int]);
        }
        acc = acc * 10 + (code - 48) as u64;
        k = k + 1;
        if acc > 100 {
            // The leading digits alone put the value over the scale's top,
            // and further digits can only push it higher.
            proof {
                if spec_all_digits(int_part) {
                    assert(v@.subrange(0, k as int) =~= int_part.take(k as int));
                    lemma_digits_val_prefix_le(int_part, k as int);
                    lemma_digits_val_nonneg(int_part);
                }
            }
            return None;
        }
    }
    proof {
        assert(v@.subrange(0, dot as int) =~= int_part);
    }
    let frac_digit: u64 = if dot == n {
        0
    } else {
        let flen = n - dot - 1;
        if flen > 1 {
            proof {
                assert(v@.skip(dot + 1).len() > 1);
            }
            return None;
        }
        if flen == 0 {
            proof {
                assert(v@.skip(dot + 1).len() == 0);
            }
            0
        } else {
            let c = v.get_char(dot + 1);
            let code = c as u32;
            if code < 48 || code > 57 {
                proof {
                    assert(v@.skip(dot + 1)[0] == v@[dot + 1]);
                    assert(!spec_all_digits(v@.skip(dot + 1)));
                }
                return None;
            }
            proof {
                assert(v@.skip(dot + 1)[0] == v@[dot + 1]);
                assert(forall|j: int|
                    0 <= j < v@.skip(dot + 1).len() ==> #[trigger] v@.skip(dot + 1)[j] == v@[dot
                        + 1]);
            }
            (code - 48) as u64
        }
    };
    let value_tenths: u64 = acc * 10 + frac_digit;
    if value_tenths > 100 {
        return None;
    }
    Some(value_tenths as i64)
}

} // verus!
