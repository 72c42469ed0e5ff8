//! Verified character-sequence utilities: substring search, first- and
//! every-occurrence replacement, whitespace trimming, comma splitting and
//! path-segment extraction. Every executable function is specified
//! against spec functions over `Seq<char>`.

use vstd::prelude::*;
use vstd::slice::slice_to_vec;
use vstd::string::StrSliceExecFns;

verus! {

/// True when `p` occurs in `s` starting at index `i`.
pub open spec fn match_at(s: Seq<char>, p: Seq<char>, i: int) -> bool {
    &&& 0 <= i
    &&& i + p.len() <= s.len()
    &&& s.subrange(i, i + p.len() as int) == p
}

/// True when `p` occurs somewhere in `s`.
pub open spec fn contains_seq(s: Seq<char>, p: Seq<char>) -> bool {
    exists|i: int| match_at(s, p, i)
}

/// `s` with the leftmost occurrence of `p` (if any) replaced by `r`.
pub open spec fn spec_replace_first(s: Seq<char>, p: Seq<char>, r: Seq<char>) -> Seq<char>
    decreases s.len(),
{
    if p.len() > s.len() {
        s
    } else if match_at(s, p, 0) {
        r + s.skip(p.len() as int)
    } else if s.len() == 0 {
        s
    } else {
        seq![s[0]] + spec_replace_first(s.skip(1), p, r)
    }
}

/// `s` with every occurrence of `p` replaced by `r`, scanning left to
/// right without overlap; the empty pattern replaces nothing.
pub open spec fn spec_replace_all(s: Seq<char>, p: Seq<char>, r: Seq<char>) -> Seq<char>
    decreases s.len(),
{
    if p.len() == 0 || p.len() > s.len() {
        s
    } else if match_at(s, p, 0) {
        r + spec_replace_all(s.skip(p.len() as int), p, r)
    } else {
        seq![s[0]] + spec_replace_all(s.skip(1), p, r)
    }
}

/// Occurrences of `p` shift with `skip`: a match of `p` at `i + j` in `s`
/// is a match at `j` in `s.skip(i)`.
pub proof fn lemma_match_at_skip(s: Seq<char>, p: Seq<char>, i: int, j: int)
    requires
        0 <= i <= s.len(),
        0 <= j,
    ensures
        match_at(s.skip(i), p, j) <==> match_at(s, p, i + j),
{
    if i + j + p.len() <= s.len() {
        assert(s.skip(i).subrange(j, j + p.len() as int) =~= s.subrange(
            i + j,
            i + j + p.len() as int,
        ));
    }
}

/// When `p` occurs nowhere in `s`, replacing its first occurrence
/// changes nothing.
pub proof fn lemma_replace_first_none(s: Seq<char>, p: Seq<char>, r: Seq<char>)
    requires
        forall|j: int| !match_at(s, p, j),
    ensures
        spec_replace_first(s, p, r) == s,
    decreases s.len(),
{
    if p.len() > s.len() {
    } else if match_at(s, p, 0) {
        assert(false);
    } else if s.len() == 0 {
    } else {
        assert forall|j: int| !match_at(s.skip(1), p, j) by {
            if 0 <= j {
                lemma_match_at_skip(s, p, 1, j);
            }
        }
        lemma_replace_first_none(s.skip(1), p, r);
        assert(seq![s[0]] + s.skip(1) =~= s);
    }
}

/// When the leftmost occurrence of `p` in `s` is at `i`, replacing the
/// first occurrence splices `r` in exactly there.
pub proof fn lemma_replace_first_at(s: Seq<char>, p: Seq<char>, r: Seq<char>, i: int)
    requires
        match_at(s, p, i),
        forall|j: int| 0 <= j < i ==> !match_at(s, p, j),
    ensures
        spec_replace_first(s, p, r) == s.take(i) + r + s.skip(i + p.len() as int),
    decreases s.len(),
{
    if i == 0 {
        assert(s.take(0) + r + s.skip(p.len() as int) =~= r + s.skip(p.len() as int));
    } else {
        assert(!match_at(s, p, 0));
        assert(s.len() > 0);
        lemma_match_at_skip(s, p, 1, i - 1);
        assert forall|j: int| 0 <= j < i - 1 implies !match_at(s.skip(1), p, j) by {
            lemma_match_at_skip(s, p, 1, j);
        }
        lemma_replace_first_at(s.skip(1), p, r, i - 1);
        assert(seq![s[0]] + (s.skip(1).take(i - 1) + r + s.skip(1).skip(i - 1 + p.len() as int))
            =~= s.take(i) + r + s.skip(i + p.len() as int));
    }
}

/// If `p` occurs in `s` at all, it has a leftmost occurrence.
pub proof fn lemma_first_match_exists(s: Seq<char>, p: Seq<char>)
    requires
        contains_seq(s, p),
    ensures
        exists|i: int|
            {
                &&& match_at(s, p, i)
                &&& forall|j: int| 0 <= j < i ==> !match_at(s, p, j)
            },
    decreases s.len(),
{
    if match_at(s, p, 0) {
        assert(match_at(s, p, 0) && forall|j: int| 0 <= j < 0 ==> !match_at(s, p, j));
    } else {
        let w = choose|w: int| match_at(s, p, w);
        assert(w > 0);
        lemma_match_at_skip(s, p, 1, w - 1);
        assert(contains_seq(s.skip(1), p));
        lemma_first_match_exists(s.skip(1), p);
        let i1 = choose|i1: int|
            {
                &&& match_at(s.skip(1), p, i1)
                &&& forall|j: int| 0 <= j < i1 ==> !match_at(s.skip(1), p, j)
            };
        lemma_match_at_skip(s, p, 1, i1);
        assert forall|j: int| 0 <= j < i1 + 1 implies !match_at(s, p, j) by {
            if j > 0 {
                lemma_match_at_skip(s, p, 1, j - 1);
            }
        }
        assert(match_at(s, p, i1 + 1) && forall|j: int| 0 <= j < i1 + 1 ==> !match_at(s, p, j));
    }
}

/// Collects the characters of `s` into a vector, in order.
pub fn str_to_chars(s: &str) -> (v: Vec<char>)
    ensures
        v@ == s@,
{
    let n = s.unicode_len();
    let mut v: Vec<char> = Vec::new();
    let mut i: usize = 0;
    while i < n
        invariant
            i <= n,
            n == s@.len(),
            v@ == s@.take(i as int),
        decreases n - i,
    {
        let c = s.get_char(i);
        v.push(c);
        i = i + 1;
        proof {
            assert(v@ =~= s@.take(i as int));
        }
    }
    proof {
        assert(s@.take(n as int) =~= s@);
    }
    v
}

/// Relies on std's `String: FromIterator<char>` through `Iterator::collect`:
/// the string built from a sequence of characters holds exactly those
/// characters, in order.
#[verifier::external_body]
pub(crate) fn chars_to_string(v: &[char]) -> (s: String)
    ensures
        s@ == v@,
{
    v.iter().collect()
}

/// Character-wise equality of two slices.
pub fn eq_chars(a: &[char], b: &[char]) -> (r: bool)
    ensures
        r == (a@ == b@),
{
    if a.len() != b.len() {
        return false;
    }
    let mut i: usize = 0;
    while i < a.len()
        invariant
            i <= a@.len(),
            a@.len() == b@.len(),
            forall|k: int| 0 <= k < i ==> a@[k] == b@[k],
        decreases a@.len() - i,
    {
        if a[i] != b[i] {
            return false;
        }
        i = i + 1;
    }
    proof {
        assert(a@ =~= b@);
    }
    true
}

/// Does `p` occur in `s` starting at index `i`?
fn starts_with_at(s: &[char], p: &[char], i: usize) -> (b: bool)
    requires
        i <= s@.len(),
    ensures
        b == match_at(s@, p@, i as int),
{
    let n = s.len();
    if n - i < p.len() {
        return false;
    }
    proof {
        assert(i + p@.len() <= n);
    }
    let mut j: usize = 0;
    while j < p.len()
        invariant
            n == s@.len(),
            i + p@.len() <= n,
            j <= p@.len(),
            forall|k: int| 0 <= k < j ==> s@[i + k] == p@[k],
        decreases p@.len() - j,
    {
        proof {
            assert(i + j < n);
        }
        if s[i + j] != p[j] {
            proof {
                assert(s@.subrange(i as int, i + p@.len() as int)[j as int] == s@[i + j]);
            }
            return false;
        }
        j = j + 1;
    }
    proof {
        assert(s@.subrange(i as int, i + p@.len() as int) =~= p@);
    }
    true
}

/// The leftmost index at which `p` occurs in `s`, if any.
pub fn find_match(s: &[char], p: &[char]) -> (r: Option<usize>)
    ensures
        match r {
            Some(i) => {
                &&& match_at(s@, p@, i as int)
                &&& forall|j: int| 0 <= j < i ==> !match_at(s@, p@, j)
            },
            None => !contains_seq(s@, p@),
        },
{
    if p.len() > s.len() {
        return None;
    }
    if p.len() == 0 {
        proof {
            assert(s@.subrange(0, 0) =~= p@);
        }
        return Some(0);
    }
    let mut i: usize = 0;
    while i <= s.len() - p.len()
        invariant
            0 < p@.len() <= s@.len(),
            i <= s@.len() - p@.len() + 1,
            forall|j: int| 0 <= j < i ==> !match_at(s@, p@, j),
        decreases s@.len() - p@.len() + 1 - i,
    {
        if starts_with_at(s, p, i) {
            return Some(i);
        }
        i = i + 1;
    }
    None
}

/// Does `p` occur anywhere in `s`?
pub fn contains_chars(s: &[char], p: &[char]) -> (r: bool)
    ensures
        r == contains_seq(s@, p@),
{
    match find_match(s, p) {
        Some(i) => {
            proof {
                assert(match_at(s@, p@, i as int));
            }
            true
        },
        None => false,
    }
}

/// Replaces the leftmost occurrence of `p` in `s` by `r`; `s` unchanged
/// when `p` does not occur.
pub fn replace_first(s: &[char], p: &[char], r: &[char]) -> (out: Vec<char>)
    ensures
        out@ == spec_replace_first(s@, p@, r@),
{
    match find_match(s, p) {
        None => {
            proof {
                assert forall|j: int| !match_at(s@, p@, j) by {
                    if match_at(s@, p@, j) {
                        assert(contains_seq(s@, p@));
                    }
                }
                lemma_replace_first_none(s@, p@, r@);
            }
            slice_to_vec(s)
        },
        Some(i) => {
            let n = s.len();
            proof {
                assert(i + p@.len() <= n);
            }
            let mut out: Vec<char> = Vec::new();
            let mut k: usize = 0;
            while k < i
                invariant
                    i + p@.len() <= s@.len(),
                    k <= i,
                    out@ == s@.take(k as int),
                decreases i - k,
            {
                out.push(s[k]);
                proof {
                    assert(out@ =~= s@.take(k + 1));
                }
                k = k + 1;
            }
            let mut k: usize = 0;
            while k < r.len()
                invariant
                    i + p@.len() <= s@.len(),
                    k <= r@.len(),
                    out@ == s@.take(i as int) + r@.take(k as int),
                decreases r@.len() - k,
            {
                out.push(r[k]);
                proof {
                    assert(out@ =~= s@.take(i as int) + r@.take(k + 1));
                }
                k = k + 1;
            }
            proof {
                assert(r@.take(r@.len() as int) =~= r@);
            }
            let mut k: usize = i + p.len();
            while k < s.len()
                invariant
                    i + p@.len() <= k <= s@.len(),
                    out@ == s@.take(i as int) + r@ + s@.subrange(i + p@.len() as int, k as int),
                decreases s@.len() - k,
            {
                out.push(s[k]);
                proof {
                    assert(out@ =~= s@.take(i as int) + r@ + s@.subrange(
                        i + p@.len() as int,
                        k + 1,
                    ));
                }
                k = k + 1;
            }
            proof {
                lemma_replace_first_at(s@, p@, r@, i as int);
            }
            out
        },
    }
}

/// Replaces every occurrence of `p` in `s` by `r`, scanning left to
/// right without overlap.
#[verifier::rlimit(100)]
#[verifier::spinoff_prover]
pub fn replace_all(s: &[char], p: &[char], r: &[char]) -> (out: Vec<char>)
    requires
        p@.len() > 0,
    ensures
        out@ == spec_replace_all(s@, p@, r@),
{
    let n = s.len();
    let mut out: Vec<char> = Vec::new();
    let mut i: usize = 0;
    proof {
        assert(s@.skip(0) =~= s@);
        assert(out@ + spec_replace_all(s@, p@, r@) =~= spec_replace_all(s@, p@, r@));
    }
    while i < n
        invariant
            n == s@.len(),
            0 < p@.len(),
            i <= n,
            out@ + spec_replace_all(s@.skip(i as int), p@, r@) == spec_replace_all(s@, p@, r@),
        decreases n - i,
    {
        let ghost rest = s@.skip(i as int);
        let ghost old_out = out@;
        if starts_with_at(s, p, i) {
            proof {
                lemma_match_at_skip(s@, p@, 0 + i as int, 0);
                assert(match_at(rest, p@, 0));
                assert(rest.skip(p@.len() as int) =~= s@.skip(i + p@.len() as int));
                assert(spec_replace_all(rest, p@, r@) == r@ + spec_replace_all(
                    s@.skip(i + p@.len() as int),
                    p@,
                    r@,
                ));
            }
            let mut k: usize = 0;
            while k < r.len()
                invariant
                    k <= r@.len(),
                    out@ == old_out + r@.take(k as int),
                decreases r@.len() - k,
            {
                out.push(r[k]);
                proof {
                    assert(out@ =~= old_out + r@.take(k + 1));
                }
                k = k + 1;
            }
            proof {
                assert(r@.take(r@.len() as int) =~= r@);
                assert((old_out + r@) + spec_replace_all(s@.skip(i + p@.len() as int), p@, r@)
                    =~= old_out + (r@ + spec_replace_all(s@.skip(i + p@.len() as int), p@, r@)));
            }
            i = i + p.len();
        } else {
            proof {
                lemma_match_at_skip(s@, p@, i as int, 0);
                assert(!match_at(rest, p@, 0));
                assert(rest[0] == s@[i as int]);
                assert(rest.skip(1) =~= s@.skip(i + 1));
                if p@.len() <= rest.len() {
                    assert(spec_replace_all(rest, p@, r@) == seq![s@[i as int]]
                        + spec_replace_all(s@.skip(i + 1), p@, r@));
                } else {
                    assert(spec_replace_all(rest, p@, r@) == rest);
                    assert(spec_replace_all(s@.skip(i + 1), p@, r@) == s@.skip(i + 1));
                    assert(rest =~= seq![s@[i as int]] + s@.skip(i + 1));
                }
            }
            out.push(s[i]);
            proof {
                assert((old_out + seq![s@[i as int]]) + spec_replace_all(s@.skip(i + 1), p@, r@)
                    =~= old_out + (seq![s@[i as int]] + spec_replace_all(s@.skip(i + 1), p@, r@)));
            }
            i = i + 1;
        }
    }
    proof {
        assert(s@.skip(n as int) =~= Seq::<char>::empty());
        assert(spec_replace_all(s@.skip(n as int), p@, r@) == s@.skip(n as int));
        assert(out@ + Seq::<char>::empty() =~= out@);
    }
    out
}

/// Law: when `p` occurs in `s`, replacing its first occurrence splices
/// `r` in at exactly the position where `p` first stood, and the text on
/// either side is unchanged.
pub proof fn lemma_replace_first_splices(s: Seq<char>, p: Seq<char>, r: Seq<char>)
    requires
        contains_seq(s, p),
    ensures
        exists|i: int|
            {
                &&& match_at(s, p, i)
                &&& forall|j: int| 0 <= j < i ==> !match_at(s, p, j)
                &&& spec_replace_first(s, p, r) == s.take(i) + r + s.skip(i + p.len() as int)
            },
{
    lemma_first_match_exists(s, p);
    let i = choose|i: int|
        {
            &&& match_at(s, p, i)
            &&& forall|j: int| 0 <= j < i ==> !match_at(s, p, j)
        };
    lemma_replace_first_at(s, p, r, i);
    assert({
        &&& match_at(s, p, i)
        &&& forall|j: int| 0 <= j < i ==> !match_at(s, p, j)
        &&& spec_replace_first(s, p, r) == s.take(i) + r + s.skip(i + p.len() as int)
    });
}

/// The whitespace characters that trimming removes.
pub open spec fn is_space(c: char) -> bool {
    c == ' ' || c == '\t' || c == '\n' || c == '\r'
}

/// `s` without its leading whitespace.
pub open spec fn spec_trim_front(s: Seq<char>) -> Seq<char>
    decreases s.len(),
{
    if s.len() > 0 && is_space(s[0]) {
        spec_trim_front(s.skip(1))
    } else {
        s
    }
}

/// `s` without its trailing whitespace.
pub open spec fn spec_trim_back(s: Seq<char>) -> Seq<char>
    decreases s.len(),
{
    if s.len() > 0 && is_space(s[s.len() - 1]) {
        spec_trim_back(s.take(s.len() - 1))
    } else {
        s
    }
}

/// `s` without leading and trailing whitespace.
pub open spec fn spec_trim(s: Seq<char>) -> Seq<char> {
    spec_trim_back(spec_trim_front(s))
}

/// Dropping a prefix of whitespace that ends at the first non-space
/// character (or at the end) is exactly `spec_trim_front`.
proof fn lemma_trim_front_skip(s: Seq<char>, a: int)
    requires
        0 <= a <= s.len(),
        forall|k: int| 0 <= k < a ==> is_space(s[k]),
        a < s.len() ==> !is_space(s[a]),
    ensures
        spec_trim_front(s) == s.skip(a),
    decreases a,
{
    if a == 0 {
        assert(s.skip(0) =~= s);
    } else {
        assert(is_space(s[0]));
        assert forall|k: int| 0 <= k < a - 1 implies is_space(s.skip(1)[k]) by {
            assert(s.skip(1)[k] == s[k + 1]);
        }
        lemma_trim_front_skip(s.skip(1), a - 1);
        assert(s.skip(1).skip(a - 1) =~= s.skip(a));
    }
}

/// Keeping a prefix that ends just after the last non-space character is
/// exactly `spec_trim_back`.
proof fn lemma_trim_back_take(s: Seq<char>, b: int)
    requires
        0 <= b <= s.len(),
        forall|k: int| b <= k < s.len() ==> is_space(s[k]),
        b > 0 ==> !is_space(s[b - 1]),
    ensures
        spec_trim_back(s) == s.take(b),
    decreases s.len() - b,
{
    if b == s.len() {
        assert(s.take(b) =~= s);
    } else {
        assert(is_space(s[s.len() - 1]));
        lemma_trim_back_take(s.take(s.len() - 1), b);
        assert(s.take(s.len() - 1).take(b) =~= s.take(b));
    }
}

/// The trimmed string has no whitespace at either end.
proof fn lemma_trim_ends(s: Seq<char>)
    ensures
        spec_trim(s).len() > 0 ==> !is_space(spec_trim(s)[0]),
        spec_trim(s).len() > 0 ==> !is_space(spec_trim(s)[spec_trim(s).len() - 1]),
    decreases s.len(),
{
    lemma_trim_front_head(s);
    let t = spec_trim_front(s);
    lemma_trim_back_tail(t);
    lemma_trim_back_prefix(t);
}

/// `spec_trim_front` never starts with whitespace.
proof fn lemma_trim_front_head(s: Seq<char>)
    ensures
        spec_trim_front(s).len() > 0 ==> !is_space(spec_trim_front(s)[0]),
    decreases s.len(),
{
    if s.len() > 0 && is_space(s[0]) {
        lemma_trim_front_head(s.skip(1));
    }
}

/// `spec_trim_back` never ends with whitespace.
proof fn lemma_trim_back_tail(s: Seq<char>)
    ensures
        spec_trim_back(s).len() > 0 ==> !is_space(spec_trim_back(s)[spec_trim_back(s).len() - 1]),
    decreases s.len(),
{
    if s.len() > 0 && is_space(s[s.len() - 1]) {
        lemma_trim_back_tail(s.take(s.len() - 1));
    }
}

/// `spec_trim_back` returns a prefix of its argument.
proof fn lemma_trim_back_prefix(s: Seq<char>)
    ensures
        spec_trim_back(s) == s.take(spec_trim_back(s).len() as int),
        spec_trim_back(s).len() <= s.len(),
    decreases s.len(),
{
    if s.len() > 0 && is_space(s[s.len() - 1]) {
        lemma_trim_back_prefix(s.take(s.len() - 1));
        assert(s.take(s.len() - 1).take(spec_trim_back(s).len() as int) =~= s.take(
            spec_trim_back(s).len() as int,
        ));
    } else {
        assert(s.take(s.len() as int) =~= s);
    }
}

/// Trimming is idempotent: trimming a trimmed string changes nothing.
pub proof fn lemma_trim_idempotent(s: Seq<char>)
    ensures
        spec_trim(spec_trim(s)) == spec_trim(s),
{
    let t = spec_trim(s);
    lemma_trim_ends(s);
    if t.len() > 0 {
        assert(spec_trim_front(t) == t);
        assert(spec_trim_back(t) == t);
    } else {
        assert(spec_trim_front(t) == t);
        assert(spec_trim_back(t) == t);
    }
}

/// Is `c` one of the whitespace characters that trimming removes?
fn is_space_exec(c: char) -> (r: bool)
    ensures
        r == is_space(c),
{
    c == ' ' || c == '\t' || c == '\n' || c == '\r'
}

/// Removes leading and trailing whitespace from `s`.
pub fn trim_chars(s: &[char]) -> (out: Vec<char>)
    ensures
        out@ == spec_trim(s@),
{
    let n = s.len();
    let mut a: usize = 0;
    while a < n && is_space_exec(s[a])
        invariant
            n == s@.len(),
            a <= n,
            forall|k: int| 0 <= k < a ==> is_space(s@[k]),
        decreases n - a,
    {
        a = a + 1;
    }
    proof {
        lemma_trim_front_skip(s@, a as int);
    }
    let mut b: usize = n;
    while b > a && is_space_exec(s[b - 1])
        invariant
            n == s@.len(),
            a <= b <= n,
            forall|k: int| b <= k < n ==> is_space(s@[k]),
        decreases b,
    {
        b = b - 1;
    }
    proof {
        let t = s@.skip(a as int);
        assert forall|k: int| b - a <= k < t.len() implies is_space(t[k]) by {
            assert(t[k] == s@[k + a]);
        }
        if b > a {
            assert(t[b - a - 1] == s@[b - 1]);
        }
        lemma_trim_back_take(t, b - a);
        assert(t.take(b - a) =~= s@.subrange(a as int, b as int));
    }
    let mut out: Vec<char> = Vec::new();
    let mut k: usize = a;
    while k < b
        invariant
            n == s@.len(),
            a <= k <= b <= n,
            out@ == s@.subrange(a as int, k as int),
        decreases b - k,
    {
        out.push(s[k]);
        proof {
            assert(out@ =~= s@.subrange(a as int, k + 1));
        }
        k = k + 1;
    }
    out
}

/// The comma-separated segments of `s`, in order; an empty string is one
/// empty segment, and every comma separates two segments.
pub open spec fn spec_split_commas(s: Seq<char>) -> Seq<Seq<char>>
    decreases s.len(),
{
    if s.len() == 0 {
        seq![Seq::<char>::empty()]
    } else if s[0] == ',' {
        seq![Seq::<char>::empty()] + spec_split_commas(s.skip(1))
    } else {
        let rest = spec_split_commas(s.skip(1));
        seq![seq![s[0]] + rest[0]] + rest.skip(1)
    }
}

/// Splitting yields at least one segment.
pub proof fn lemma_split_commas_len(s: Seq<char>)
    ensures
        spec_split_commas(s).len() >= 1,
    decreases s.len(),
{
    if s.len() > 0 {
        lemma_split_commas_len(s.skip(1));
    }
}

/// The tag list read from a raw comma-separated field: each segment with
/// surrounding whitespace removed, order and duplicates preserved.
pub open spec fn spec_tags(s: Seq<char>) -> Seq<Seq<char>> {
    spec_split_commas(s).map_values(|t: Seq<char>| spec_trim(t))
}

/// Every entry of the tag list is already trimmed, so extracting tags a
/// second time from any single entry gives that entry back.
pub proof fn lemma_tags_trimmed(s: Seq<char>)
    ensures
        forall|i: int|
            0 <= i < spec_tags(s).len() ==> spec_trim(#[trigger] spec_tags(s)[i]) == spec_tags(
                s,
            )[i],
{
    assert forall|i: int| 0 <= i < spec_tags(s).len() implies spec_trim(
        #[trigger] spec_tags(s)[i],
    ) == spec_tags(s)[i] by {
        lemma_trim_idempotent(spec_split_commas(s)[i]);
    }
}

/// Splits `s` on commas and trims each segment.
pub fn split_tags_chars(s: &[char]) -> (out: Vec<String>)
    ensures
        out@.len() == spec_tags(s@).len(),
        forall|i: int| 0 <= i < out@.len() ==> (#[trigger] out@[i])@ == spec_tags(s@)[i],
{
    let n = s.len();
    let mut done: Vec<String> = Vec::new();
    let ghost mut raws: Seq<Seq<char>> = Seq::empty();
    let mut cur: Vec<char> = Vec::new();
    let mut i: usize = 0;
    proof {
        assert(s@.skip(0) =~= s@);
        lemma_split_commas_len(s@);
        assert(raws + (seq![cur@ + spec_split_commas(s@)[0]] + spec_split_commas(s@).skip(1))
            =~= spec_split_commas(s@));
    }
    while i < n
        invariant
            n == s@.len(),
            i <= n,
            spec_split_commas(s@.skip(i as int)).len() >= 1,
            spec_split_commas(s@) == raws + (seq![cur@ + spec_split_commas(s@.skip(i as int))[0]]
                + spec_split_commas(s@.skip(i as int)).skip(1)),
            done@.len() == raws.len(),
            forall|k: int| 0 <= k < done@.len() ==> (#[trigger] done@[k])@ == spec_trim(raws[k]),
        decreases n - i,
    {
        let ghost rest = s@.skip(i as int);
        let ghost rest1 = s@.skip(i + 1);
        proof {
            assert(rest[0] == s@[i as int]);
            assert(rest.skip(1) =~= rest1);
            lemma_split_commas_len(rest1);
        }
        let ghost x = spec_split_commas(rest1);
        let ghost cur0 = cur@;
        let c = s[i];
        if c == ',' {
            proof {
                assert(spec_split_commas(rest) == seq![Seq::<char>::empty()] + x);
                assert(spec_split_commas(rest)[0] == Seq::<char>::empty());
                assert(spec_split_commas(rest).skip(1) =~= x);
                assert(cur0 + Seq::<char>::empty() =~= cur0);
                assert(Seq::<char>::empty() + x[0] =~= x[0]);
                assert(raws + (seq![cur0 + spec_split_commas(rest)[0]] + spec_split_commas(
                    rest,
                ).skip(1)) =~= (raws + seq![cur0]) + (seq![Seq::<char>::empty() + x[0]] + x.skip(
                    1,
                )));
            }
            let trimmed = trim_chars(cur.as_slice());
            done.push(chars_to_string(trimmed.as_slice()));
            proof {
                raws = raws + seq![cur0];
            }
            cur = Vec::new();
        } else {
            proof {
                assert(spec_split_commas(rest) == seq![seq![s@[i as int]] + x[0]] + x.skip(1));
                assert(spec_split_commas(rest)[0] == seq![s@[i as int]] + x[0]);
                assert(spec_split_commas(rest).skip(1) =~= x.skip(1));
                assert(cur0.push(c) =~= cur0 + seq![s@[i as int]]);
                assert(cur0 + (seq![s@[i as int]] + x[0]) =~= (cur0 + seq![s@[i as int]]) + x[0]);
                assert(raws + (seq![cur0 + spec_split_commas(rest)[0]] + spec_split_commas(
                    rest,
                ).skip(1)) =~= raws + (seq![cur0.push(c) + x[0]] + x.skip(1)));
            }
            cur.push(c);
        }
        i = i + 1;
    }
    proof {
        assert(s@.skip(n as int) =~= Seq::<char>::empty());
        assert(spec_split_commas(s@.skip(n as int)) == seq![Seq::<char>::empty()]);
        assert(cur@ + Seq::<char>::empty() =~= cur@);
        assert(seq![Seq::<char>::empty()].skip(1) =~= Seq::<Seq<char>>::empty());
        assert(raws + (seq![cur@] + Seq::<Seq<char>>::empty()) =~= raws + seq![cur@]);
    }
    let trimmed = trim_chars(cur.as_slice());
    done.push(chars_to_string(trimmed.as_slice()));
    proof {
        raws = raws + seq![cur@];
        assert(spec_split_commas(s@) == raws);
        assert forall|k: int| 0 <= k < done@.len() implies (#[trigger] done@[k])@ == spec_tags(
            s@,
        )[k] by {
            assert(done@[k]@ == spec_trim(raws[k]));
        }
    }
    done
}

/// The part of `s` after its last `'/'`; all of `s` when it has none.
pub open spec fn spec_last_seg(s: Seq<char>) -> Seq<char>
    decreases s.len(),
{
    if s.len() == 0 {
        s
    } else if s[s.len() - 1] == '/' {
        Seq::empty()
    } else {
        spec_last_seg(s.take(s.len() - 1)).push(s[s.len() - 1])
    }
}

/// When every character from `j` on differs from `'/'` and (unless `j`
/// is zero) a `'/'` stands just before `j`, the last segment is the
/// suffix from `j`.
proof fn lemma_last_seg_skip(s: Seq<char>, j: int)
    requires
        0 <= j <= s.len(),
        forall|k: int| j <= k < s.len() ==> s[k] != '/',
        j > 0 ==> s[j - 1] == '/',
    ensures
        spec_last_seg(s) == s.skip(j),
    decreases s.len(),
{
    if s.len() == 0 {
        assert(s.skip(0) =~= s);
    } else if j == s.len() {
        assert(s[s.len() - 1] == '/');
        assert(s.skip(j) =~= Seq::<char>::empty());
    } else {
        assert(s[s.len() - 1] != '/');
        let t = s.take(s.len() - 1);
        assert forall|k: int| j <= k < t.len() implies t[k] != '/' by {
            assert(t[k] == s[k]);
        }
        lemma_last_seg_skip(t, j);
        assert(t.skip(j).push(s[s.len() - 1]) =~= s.skip(j));
    }
}

/// The last `'/'`-separated segment of `s`.
pub fn last_segment(s: &[char]) -> (out: Vec<char>)
    ensures
        out@ == spec_last_seg(s@),
{
    let n = s.len();
    let mut j: usize = n;
    while j > 0 && s[j - 1] != '/'
        invariant
            n == s@.len(),
            j <= n,
            forall|k: int| j <= k < n ==> s@[k] != '/',
        decreases j,
    {
        j = j - 1;
    }
    proof {
        lemma_last_seg_skip(s@, j as int);
    }
    let mut out: Vec<char> = Vec::new();
    let mut k: usize = j;
    while k < n
        invariant
            n == s@.len(),
            j <= k <= n,
            out@ == s@.subrange(j as int, k as int),
        decreases n - k,
    {
        out.push(s[k]);
        proof {
            assert(out@ =~= s@.subrange(j as int, k + 1));
        }
        k = k + 1;
    }
    proof {
        assert(s@.subrange(j as int, n as int) =~= s@.skip(j as int));
    }
    out
}

} // verus!
