//! Small helpers for moving between `String`/`&str` and `Vec<char>`, the
//! representation the verified codecs work on.

use vstd::prelude::*;
use vstd::string::StrSliceExecFns;

verus! {

/// The characters of `s`, in order, as a vector.
pub fn str_to_chars(s: &str) -> (r: Vec<char>)
    ensures
        r@ == s@,
{
    let n: usize = s.unicode_len();
    let mut r: Vec<char> = Vec::new();
    let mut i: usize = 0;
    while i < n
        invariant
            i <= n,
            n == s@.len(),
            r@ == s@.subrange(0, i as int),
        decreases n - i,
    {
        r.push(s.get_char(i));
        proof {
            assert(r@ =~= s@.subrange(0, i + 1 as int));
        }
        i = i + 1;
    }
    proof {
        assert(r@ =~= s@);
    }
    r
}

/// Relies on `String: FromIterator<char>` of std: collecting characters
/// yields the string with exactly those characters in order.
#[verifier::external_body]
pub fn chars_to_string(v: &Vec<char>) -> (r: String)
    ensures
        r@ == v@,
{
    v.iter().collect()
}

/// True when the two vectors hold the same characters.
pub fn chars_eq(a: &Vec<char>, b: &Vec<char>) -> (r: bool)
    ensures
        r == (a@ == b@),
{
    if a.len() != b.len() {
        proof {
            assert(a@.len() != b@.len());
        }
        return false;
    }
    let n = a.len();
    let mut i: usize = 0;
    while i < n
        invariant
            i <= n,
            n == a@.len(),
            a@.len() == b@.len(),
            forall|j: int| 0 <= j < i ==> a@[j] == b@[j],
        decreases n - i,
    {
        if a[i] != b[i] {
            return false;
        }
        i = i + 1;
    }
    proof {
        assert(a@ =~= b@);
    }
    true
}

/// The views of a list of strings.
pub open spec fn strs_view(v: Seq<String>) -> Seq<Seq<char>> {
    v.map_values(|s: String| s@)
}

/// The mathematical value of an optional string.
pub open spec fn opt_str_view(o: &Option<String>) -> Option<Seq<char>> {
    match o {
        Some(s) => Some(s@),
        None => None,
    }
}

/// Filtering a sequence extended by one element keeps the filtered prefix and
/// appends the element exactly when it satisfies the predicate.
pub proof fn lemma_filter_one<A>(s: Seq<A>, x: A, pred: spec_fn(A) -> bool)
    ensures
        (s + seq![x]).filter(pred) == s.filter(pred) + (if pred(x) {
            seq![x]
        } else {
            Seq::<A>::empty()
        }),
{
    reveal(Seq::filter);
    let whole = s + seq![x];
    assert(whole.drop_last() =~= s);
    assert(whole.last() == x);
    if pred(x) {
        assert(whole.filter(pred) =~= s.filter(pred) + seq![x]);
    } else {
        assert(whole.filter(pred) =~= s.filter(pred) + Seq::<A>::empty());
    }
}

/// True when the two texts hold the same characters.
pub fn str_eq(a: &str, b: &str) -> (r: bool)
    ensures
        r == (a@ == b@),
{
    let na = a.unicode_len();
    let nb = b.unicode_len();
    if na != nb {
        proof {
            assert(a@.len() != b@.len());
        }
        return false;
    }
    let mut i: usize = 0;
    while i < na
        invariant
            i <= na,
            na == a@.len(),
            a@.len() == b@.len(),
            forall|j: int| 0 <= j < i ==> a@[j] == b@[j],
        decreases na - i,
    {
        if a.get_char(i) != b.get_char(i) {
            return false;
        }
        i = i + 1;
    }
    proof {
        assert(a@ =~= b@);
    }
    true
}

/// The whitespace characters that trimming strips.
pub open spec fn is_space(c: char) -> bool {
    c == ' ' || c == '\t' || c == '\n' || c == '\r'
}

/// The position of the first non-space character at or after `i`.
pub open spec fn lead_spec(s: Seq<char>, i: int) -> int
    recommends
        0 <= i <= s.len(),
    decreases s.len() - i,
{
    if i < s.len() && is_space(s[i]) {
        lead_spec(s, i + 1)
    } else {
        i
    }
}

/// The position after the last non-space character at or before `i - 1`.
pub open spec fn tail_spec(s: Seq<char>, i: int) -> int
    recommends
        0 <= i <= s.len(),
    decreases i,
{
    if i > 0 && is_space(s[i - 1]) {
        tail_spec(s, i - 1)
    } else {
        i
    }
}

/// The stopping point of `tail_spec` never lies beyond its start.
proof fn lemma_tail_le(s: Seq<char>, i: int)
    requires
        0 <= i <= s.len(),
    ensures
        0 <= tail_spec(s, i) <= i,
    decreases i,
{
    if i > 0 && is_space(s[i - 1]) {
        lemma_tail_le(s, i - 1);
    }
}

/// The text with leading and trailing whitespace stripped.
pub open spec fn trim_spec(s: Seq<char>) -> Seq<char> {
    let a = lead_spec(s, 0);
    let b = tail_spec(s, s.len() as int);
    if a <= b {
        s.subrange(a, b)
    } else {
        Seq::empty()
    }
}

/// Strips leading and trailing whitespace.
pub fn trim_chars(v: &Vec<char>) -> (r: Vec<char>)
    ensures
        r@ == trim_spec(v@),
{
    let n = v.len();
    let mut a: usize = 0;
    while a < n && is_space_char(v[a])
        invariant
            a <= n,
            n == v@.len(),
            lead_spec(v@, 0) == lead_spec(v@, a as int),
        decreases n - a,
    {
        a = a + 1;
    }
    proof {
        assert(lead_spec(v@, 0) == a as int);
    }
    if a == n {
        proof {
            lemma_tail_le(v@, n as int);
            if lead_spec(v@, 0) > tail_spec(v@, v@.len() as int) {
            } else {
                assert(trim_spec(v@) =~= Seq::empty());
            }
        }
        return Vec::new();
    }
    let mut b: usize = n;
    while b > a && is_space_char(v[b - 1])
        invariant
            a < b <= n,
            n == v@.len(),
            a < n,
            !is_space(v@[a as int]),
            tail_spec(v@, n as int) == tail_spec(v@, b as int),
        decreases b,
    {
        proof {
            if b - 1 == a {
                assert(false);
            }
        }
        b = b - 1;
    }
    proof {
        assert(tail_spec(v@, n as int) == b as int);
    }
    let mut r: Vec<char> = Vec::new();
    let mut i: usize = a;
    while i < b
        invariant
            a <= i <= b <= n,
            n == v@.len(),
            r@ == v@.subrange(a as int, i as int),
        decreases b - i,
    {
        r.push(v[i]);
        proof {
            assert(r@ =~= v@.subrange(a as int, i + 1 as int));
        }
        i = i + 1;
    }
    proof {
        assert(r@ =~= trim_spec(v@));
    }
    r
}

/// Whether the character counts as whitespace for trimming.
fn is_space_char(c: char) -> (r: bool)
    ensures
        r == is_space(c),
{
    c == ' ' || c == '\t' || c == '\n' || c == '\r'
}

/// The text with one trailing line break (`\n` or `\r\n`) removed.
pub open spec fn trim_newline_spec(s: Seq<char>) -> Seq<char> {
    if s.len() > 0 && s[s.len() - 1] == '\n' {
        if s.len() > 1 && s[s.len() - 2] == '\r' {
            s.take(s.len() - 2)
        } else {
            s.take(s.len() - 1)
        }
    } else {
        s
    }
}

/// Removes one trailing line break, if any.
pub fn trim_newline(s: &str) -> (r: String)
    ensures
        r@ == trim_newline_spec(s@),
{
    let mut chars = str_to_chars(s);
    let n = chars.len();
    if n > 0 && chars[n - 1] == '\n' {
        chars.pop();
        if n > 1 && chars[n - 2] == '\r' {
            chars.pop();
            proof {
                assert(chars@ =~= s@.take(s@.len() - 2));
            }
        } else {
            proof {
                assert(chars@ =~= s@.take(s@.len() - 1));
            }
        }
    }
    chars_to_string(&chars)
}

/// The text with leading and trailing whitespace stripped, as a new string.
pub fn trim_string(s: &str) -> (r: String)
    ensures
        r@ == trim_spec(s@),
{
    let chars = str_to_chars(s);
    let trimmed = trim_chars(&chars);
    chars_to_string(&trimmed)
}

} // verus!
