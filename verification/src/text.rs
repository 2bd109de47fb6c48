//! Text utilities for the scorer and the lookup tables: character-exact
//! string comparison, and the match classification between a query and a
//! candidate name.  Unicode case folding, trimming and alphanumericity come
//! from the standard library through trusted wrappers; everything stated
//! about a match is proved over those names.

use vstd::prelude::*;

verus! {

/// Unicode lowercasing as the standard library computes it; a function of
/// the characters alone.
pub uninterp spec fn lower_of(s: Seq<char>) -> Seq<char>;

/// A string with its leading and trailing whitespace removed, as the
/// standard library computes it; a function of the characters alone.
pub uninterp spec fn trim_of(s: Seq<char>) -> Seq<char>;

/// Unicode alphanumericity of one character.
pub uninterp spec fn alnum_of(c: char) -> bool;

/// Relies on `str::to_lowercase`: Unicode lowercasing, determined by the
/// characters alone; an empty string stays empty.
#[verifier::external_body]
pub fn lowercase(s: &str) -> (r: String)
    ensures
        r@ == lower_of(s@),
        s@.len() == 0 ==> r@.len() == 0,
{
    s.to_lowercase()
}

/// Relies on `str::trim`: removes leading and trailing whitespace, so the
/// result is determined by the characters alone and never grows.
#[verifier::external_body]
pub fn trim(s: &str) -> (r: &str)
    ensures
        r@ == trim_of(s@),
        r@.len() <= s@.len(),
{
    s.trim()
}

/// Relies on `char::is_alphanumeric`: Unicode alphanumericity of the
/// character.
#[verifier::external_body]
pub fn is_alnum_char(c: char) -> (r: bool)
    ensures
        r == alnum_of(c),
{
    c.is_alphanumeric()
}

/// The characters of a string, in order.
pub fn chars_of(s: &str) -> (r: Vec<char>)
    ensures
        r@ == s@,
{
    let n = s.unicode_len();
    let mut out: Vec<char> = Vec::new();
    let mut i: usize = 0;
    while i < n
        invariant
            0 <= i <= n,
            n == s@.len(),
            out@ =~= s@.take(i as int),
        decreases n - i,
    {
        let c = s.get_char(i);
        out.push(c);
        proof {
            assert(out@ =~= s@.take(i + 1));
        }
        i = i + 1;
    }
    proof {
        assert(s@.take(n as int) =~= s@);
    }
    out
}

/// Character-exact equality of two strings.
pub fn str_eq(a: &str, b: &str) -> (r: bool)
    ensures
        r == (a@ == b@),
{
    let na = a.unicode_len();
    let nb = b.unicode_len();
    if na != nb {
        return false;
    }
    let mut i: usize = 0;
    while i < na
        invariant
            0 <= i <= na,
            na == a@.len(),
            na == b@.len(),
            forall|j: int| 0 <= j < i ==> a@[j] == b@[j],
        decreases na - i,
    {
        if a.get_char(i) != b.get_char(i) {
            return false;
        }
        i = i + 1;
    }
    proof {
        assert(a@ =~= b@);
    }
    true
}

/// Character-exact equality of two character vectors.
pub fn seq_eq(a: &Vec<char>, b: &Vec<char>) -> (r: bool)
    ensures
        r == (a@ == b@),
{
    if a.len() != b.len() {
        return false;
    }
    let mut i: usize = 0;
    while i < a.len()
        invariant
            0 <= i <= a@.len(),
            a@.len() == b@.len(),
            forall|j: int| 0 <= j < i ==> a@[j] == b@[j],
        decreases a@.len() - i,
    {
        if a[i] != b[i] {
            return false;
        }
        i = i + 1;
    }
    proof {
        assert(a@ =~= b@);
    }
    true
}

/// The needle occurs at position `i` of the haystack.
pub open spec fn spec_match_at(h: Seq<char>, n: Seq<char>, i: int) -> bool {
    0 <= i && i + n.len() <= h.len() && h.subrange(i, i + n.len()) == n
}

/// The needle is a prefix of the haystack.
pub open spec fn spec_is_prefix(h: Seq<char>, n: Seq<char>) -> bool {
    spec_match_at(h, n, 0)
}

/// The needle occurs somewhere in the haystack.
pub open spec fn spec_contains(h: Seq<char>, n: Seq<char>) -> bool {
    exists|i: int| spec_match_at(h, n, i)
}

/// The needle occurs at `i` as a whole token: its neighbours, where they
/// exist, are not alphanumeric.
pub open spec fn spec_word_at(h: Seq<char>, n: Seq<char>, i: int) -> bool {
    &&& spec_match_at(h, n, i)
    &&& (i == 0 || !alnum_of(h[i - 1]))
    &&& (i + n.len() == h.len() || !alnum_of(h[i + n.len()]))
}

/// The needle equals one of the haystack's tokens, a token being a maximal
/// run of alphanumeric characters.
pub open spec fn spec_contains_word(h: Seq<char>, n: Seq<char>) -> bool {
    &&& n.len() > 0
    &&& (forall|k: int| 0 <= k < n.len() ==> alnum_of(#[trigger] n[k]))
    &&& exists|i: int| spec_word_at(h, n, i)
}

/// Whether the needle occurs at position `i` of the haystack.
#[verifier::loop_isolation(false)]
pub fn match_at(h: &Vec<char>, n: &Vec<char>, i: usize) -> (r: bool)
    requires
        i + n@.len() <= h@.len(),
    ensures
        r == spec_match_at(h@, n@, i as int),
{
    let hl = h.len();
    let mut k: usize = 0;
    while k < n.len()
        invariant
            0 <= k <= n@.len(),
            forall|j: int| 0 <= j < k ==> h@[i + j] == n@[j],
        decreases n@.len() - k,
    {
        proof {
            assert(i + k < h@.len());
        }
        if h[i + k] != n[k] {
            proof {
                assert(h@.subrange(i as int, i + n@.len())[k as int] == h@[i + k]);
            }
            return false;
        }
        k = k + 1;
    }
    proof {
        assert(h@.subrange(i as int, i + n@.len()) =~= n@);
    }
    true
}

/// Whether the needle is a prefix of the haystack.
pub fn is_prefix_of(h: &Vec<char>, n: &Vec<char>) -> (r: bool)
    ensures
        r == spec_is_prefix(h@, n@),
{
    if n.len() > h.len() {
        return false;
    }
    match_at(h, n, 0)
}

/// Whether the needle occurs somewhere in the haystack.
#[verifier::loop_isolation(false)]
pub fn contains_seq(h: &Vec<char>, n: &Vec<char>) -> (r: bool)
    ensures
        r == spec_contains(h@, n@),
{
    if n.len() == 0 {
        proof {
            assert(h@.subrange(0, 0) =~= n@);
            assert(spec_match_at(h@, n@, 0));
        }
        return true;
    }
    if n.len() > h.len() {
        return false;
    }
    let last = h.len() - n.len();
    let mut i: usize = 0;
    while i <= last
        invariant
            0 <= i <= last + 1,
            forall|j: int| 0 <= j < i ==> !spec_match_at(h@, n@, j),
        decreases last - i + 1,
    {
        if match_at(h, n, i) {
            return true;
        }
        i = i + 1;
    }
    proof {
        assert forall|j: int| !spec_match_at(h@, n@, j) by {
            if j > last {
                assert(j + n@.len() > h@.len());
            }
        }
    }
    false
}

/// Whether every character of the needle is alphanumeric.
#[verifier::loop_isolation(false)]
pub fn all_alnum(n: &Vec<char>) -> (r: bool)
    ensures
        r == (forall|k: int| 0 <= k < n@.len() ==> alnum_of(#[trigger] n@[k])),
{
    let mut i: usize = 0;
    while i < n.len()
        invariant
            0 <= i <= n@.len(),
            forall|k: int| 0 <= k < i ==> alnum_of(#[trigger] n@[k]),
        decreases n@.len() - i,
    {
        if !is_alnum_char(n[i]) {
            return false;
        }
        i = i + 1;
    }
    true
}

/// Whether the needle equals one of the haystack's tokens.
#[verifier::loop_isolation(false)]
pub fn contains_word(h: &Vec<char>, n: &Vec<char>) -> (r: bool)
    ensures
        r == spec_contains_word(h@, n@),
{
    if n.len() == 0 {
        return false;
    }
    if !all_alnum(n) {
        return false;
    }
    if n.len() > h.len() {
        proof {
            assert forall|j: int| !spec_word_at(h@, n@, j) by {
                if j >= 0 {
                    assert(j + n@.len() > h@.len());
                }
            }
        }
        return false;
    }
    let last = h.len() - n.len();
    let mut i: usize = 0;
    while i <= last
        invariant
            0 <= i <= last + 1,
            forall|j: int| 0 <= j < i ==> !spec_word_at(h@, n@, j),
        decreases last - i + 1,
    {
        if match_at(h, n, i) {
            let left_ok = i == 0 || !is_alnum_char(h[i - 1]);
            let right_ok = i + n.len() == h.len() || !is_alnum_char(h[i + n.len()]);
            if left_ok && right_ok {
                proof {
                    assert(spec_word_at(h@, n@, i as int));
                }
                return true;
            }
        }
        i = i + 1;
    }
    proof {
        assert forall|j: int| !spec_word_at(h@, n@, j) by {
            if j > last {
                assert(j + n@.len() > h@.len());
            }
        }
    }
    false
}

} // verus!
