//! Small verified operations on character sequences and strings.

use vstd::prelude::*;
use vstd::string::StringSliceAdditionalSpecFns;

verus! {

/// The pieces of `list`, with `sep` between each two neighbours.
pub open spec fn seq_join(list: Seq<Seq<char>>, sep: Seq<char>) -> Seq<char>
    decreases list.len(),
{
    if list.len() == 0 {
        Seq::empty()
    } else if list.len() == 1 {
        list[0]
    } else {
        seq_join(list.drop_last(), sep) + sep + list.last()
    }
}

/// `s` ends with `suffix`.
pub open spec fn has_suffix(s: Seq<char>, suffix: Seq<char>) -> bool {
    suffix.len() <= s.len() && s.subrange(s.len() - suffix.len(), s.len() as int) == suffix
}

/// `s` starts with `prefix`.
pub open spec fn has_prefix(s: Seq<char>, prefix: Seq<char>) -> bool {
    prefix.len() <= s.len() && s.subrange(0, prefix.len() as int) == prefix
}

/// `pat` occurs in `s` at position `i`.
pub open spec fn occurs_at(s: Seq<char>, pat: Seq<char>, i: int) -> bool {
    0 <= i && i + pat.len() <= s.len() && s.subrange(i, i + pat.len()) == pat
}

/// Joins strings with a separator.
pub fn join_strings(list: &Vec<String>, sep: &str) -> (r: String)
    ensures
        r@ == seq_join(list@.map_values(|t: String| t@), sep@),
{
    let ghost views = list@.map_values(|t: String| t@);
    let mut r = String::new();
    let mut i: usize = 0;
    while i < list.len()
        invariant
            i <= list.len(),
            views == list@.map_values(|t: String| t@),
            r@ == seq_join(views.take(i as int), sep@),
        decreases list.len() - i,
    {
        if i > 0 {
            r.append(sep);
        }
        r.append(list[i].as_str());
        assert(views.take(i + 1).drop_last() =~= views.take(i as int));
        i += 1;
    }
    assert(views.take(i as int) =~= views);
    r
}

/// Whether `s` ends with `suffix`.
pub fn ends_with(s: &str, suffix: &str) -> (r: bool)
    ensures
        r == has_suffix(s@, suffix@),
{
    let n = s.unicode_len();
    let k = suffix.unicode_len();
    if k > n {
        return false;
    }
    let mut j: usize = 0;
    while j < k
        invariant
            n == s@.len(),
            k == suffix@.len(),
            k <= n,
            j <= k,
            forall|t: int| 0 <= t < j ==> s@[n - k + t] == suffix@[t],
        decreases k - j,
    {
        if s.get_char(n - k + j) != suffix.get_char(j) {
            assert(s@.subrange(n - k, n as int)[j as int] != suffix@[j as int]);
            return false;
        }
        j += 1;
    }
    assert(s@.subrange(n - k, n as int) =~= suffix@);
    true
}

/// Whether `s` starts with `prefix`.
pub fn starts_with(s: &str, prefix: &str) -> (r: bool)
    ensures
        r == has_prefix(s@, prefix@),
{
    let n = s.unicode_len();
    let k = prefix.unicode_len();
    if k > n {
        return false;
    }
    let mut j: usize = 0;
    while j < k
        invariant
            n == s@.len(),
            k == prefix@.len(),
            k <= n,
            j <= k,
            forall|t: int| 0 <= t < j ==> s@[t] == prefix@[t],
        decreases k - j,
    {
        if s.get_char(j) != prefix.get_char(j) {
            assert(s@.subrange(0, k as int)[j as int] != prefix@[j as int]);
            return false;
        }
        j += 1;
    }
    assert(s@.subrange(0, k as int) =~= prefix@);
    true
}

/// Whether `pat` occurs in `s` at character position `i`.
pub fn matches_at(s: &str, pat: &str, i: usize) -> (r: bool)
    requires
        i <= s@.len(),
    ensures
        r == occurs_at(s@, pat@, i as int),
{
    let n = s.unicode_len();
    let k = pat.unicode_len();
    if k > n - i {
        return false;
    }
    let mut j: usize = 0;
    while j < k
        invariant
            n == s@.len(),
            k == pat@.len(),
            i + k <= n,
            j <= k,
            forall|t: int| 0 <= t < j ==> s@[i + t] == pat@[t],
        decreases k - j,
    {
        if s.get_char(i + j) != pat.get_char(j) {
            assert(s@.subrange(i as int, i + k)[j as int] != pat@[j as int]);
            return false;
        }
        j += 1;
    }
    assert(s@.subrange(i as int, i + k) =~= pat@);
    true
}

/// Whether two strings hold the same characters, compared byte by byte.
pub fn same_text(a: &str, b: &str) -> (r: bool)
    ensures
        r == (a@ == b@),
{
    let x = a.as_bytes();
    let y = b.as_bytes();
    if x.len() != y.len() {
        return false;
    }
    let mut i: usize = 0;
    while i < x.len()
        invariant
            x@ == a.spec_bytes(),
            y@ == b.spec_bytes(),
            x.len() == y.len(),
            i <= x.len(),
            forall|k: int| 0 <= k < i ==> x@[k] == y@[k],
        decreases x.len() - i,
    {
        if x[i] != y[i] {
            return false;
        }
        i += 1;
    }
    proof {
        assert(x@ =~= y@);
        vstd::utf8::encode_utf8_decode_utf8(a@);
        vstd::utf8::encode_utf8_decode_utf8(b@);
    }
    true
}

} // verus!
