use vstd::prelude::*;

verus! {

/// What `str::to_lowercase` makes of a text.
pub uninterp spec fn lower_of(s: Seq<char>) -> Seq<char>;

/// `needle` occurs in `hay` as a contiguous run of characters.
pub open spec fn is_infix(needle: Seq<char>, hay: Seq<char>) -> bool {
    exists|i: int| 0 <= i <= hay.len() - needle.len() && #[trigger] hay.subrange(i, i + needle.len()) == needle
}

/// Relies on `str::to_lowercase`: the lowercase form of a text depends on
/// its characters alone.
#[verifier::external_body]
pub(crate) fn lowercase(s: &str) -> (r: String)
    ensures
        r@ == lower_of(s@),
{
    s.to_lowercase()
}

/// Relies on `String::push`: the character is appended at the end.
#[verifier::external_body]
pub(crate) fn push_char(s: &mut String, c: char)
    ensures
        final(s)@ == old(s)@.push(c),
{
    s.push(c)
}

/// Relies on `String::pop`: the last character is removed and returned;
/// an empty string is left as it is.
#[verifier::external_body]
pub(crate) fn pop_char(s: &mut String) -> (r: Option<char>)
    ensures
        old(s)@.len() == 0 ==> r is None && final(s)@ == old(s)@,
        old(s)@.len() > 0 ==> r == Some(old(s)@.last()) && final(s)@ == old(s)@.drop_last(),
{
    s.pop()
}

/// Whether the already lowercased filter occurs in the already lowercased
/// name.
pub fn matches_folded(folded_name: &str, folded_filter: &str) -> (r: bool)
    ensures
        r == is_infix(folded_filter@, folded_name@),
{
    let n = folded_name.unicode_len();
    let m = folded_filter.unicode_len();
    if m > n {
        return false;
    }
    let mut i: usize = 0;
    while i <= n - m
        invariant
            n == folded_name@.len(),
            m == folded_filter@.len(),
            m <= n,
            i <= n - m + 1,
            forall|k: int| 0 <= k < i ==> #[trigger] folded_name@.subrange(k, k + m) != folded_filter@,
        decreases n - m + 1 - i,
    {
        let mut j: usize = 0;
        let mut same = true;
        while same && j < m
            invariant
                n == folded_name@.len(),
                m == folded_filter@.len(),
                i + m <= n,
                j <= m,
                forall|t: int| 0 <= t < j ==> folded_name@[i + t] == folded_filter@[t],
                !same ==> j < m && folded_name@[i + j] != folded_filter@[j as int],
            decreases m - j + if same { 1int } else { 0int },
        {
            if folded_name.get_char(i + j) != folded_filter.get_char(j) {
                same = false;
            } else {
                j = j + 1;
            }
        }
        if same {
            assert(folded_name@.subrange(i as int, i + m) =~= folded_filter@);
            return true;
        }
        assert(folded_name@.subrange(i as int, i + m)[j as int] == folded_name@[i + j]);
        i = i + 1;
    }
    false
}

/// Whether `filter` occurs in `name`, both taken in lowercase.
pub fn matches_filter(name: &str, filter: &str) -> (r: bool)
    ensures
        r == is_infix(lower_of(filter@), lower_of(name@)),
{
    let folded_name = lowercase(name);
    let folded_filter = lowercase(filter);
    matches_folded(folded_name.as_str(), folded_filter.as_str())
}

} // verus!
