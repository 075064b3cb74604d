//! Small verified string helpers.

use vstd::prelude::*;

verus! {

/// String equality at the character level.
pub fn str_eq(a: &str, b: &str) -> (r: bool)
    ensures
        r == (a@ == b@),
{
    let alen = a.unicode_len();
    let blen = b.unicode_len();
    if alen != blen {
        return false;
    }
    let mut i: usize = 0;
    while i < alen
        invariant
            alen == a@.len(),
            blen == b@.len(),
            alen == blen,
            0 <= i <= alen,
            forall|j: int| 0 <= j < i ==> a@.index(j) == b@.index(j),
        decreases alen - i,
    {
        if a.get_char(i) != b.get_char(i) {
            return false;
        }
        i += 1;
    }
    proof {
        assert(a@ =~= b@);
    }
    true
}

/// The first position at or after `from` holding `'/'`, or the end of `s`.
pub open spec fn slash_or_end(s: Seq<char>, from: int) -> int
    decreases s.len() - from,
{
    if from >= s.len() {
        s.len() as int
    } else if s[from] == '/' {
        from
    } else {
        slash_or_end(s, from + 1)
    }
}

/// The second `'/'`-separated segment of `s`: what stands between the first
/// `'/'` and the next one, or the end.
pub open spec fn app_id_of_ref(s: Seq<char>) -> Seq<char> {
    let i = slash_or_end(s, 0);
    let j = slash_or_end(s, i + 1);
    s.subrange(i + 1, j)
}

/// `slash_or_end` finds exactly the first `'/'` at or after `from`.
proof fn lemma_slash_or_end(s: Seq<char>, from: int, i: int)
    requires
        0 <= from <= i <= s.len(),
        forall|k: int| from <= k < i ==> s[k] != '/',
        i == s.len() || s[i] == '/',
    ensures
        slash_or_end(s, from) == i,
    decreases i - from,
{
    if from < i {
        lemma_slash_or_end(s, from + 1, i);
    }
}

/// The application id carried by a ref string: its second `'/'`-separated
/// segment. The ref must contain at least one `'/'`.
pub fn app_id_from_ref(refstring: &str) -> (r: String)
    requires
        exists|k: int| 0 <= k < refstring@.len() && refstring@[k] == '/',
    ensures
        r@ == app_id_of_ref(refstring@),
{
    let n = refstring.unicode_len();
    let mut i: usize = 0;
    while i < n && refstring.get_char(i) != '/'
        invariant
            n == refstring@.len(),
            0 <= i <= n,
            exists|k: int| 0 <= k < refstring@.len() && refstring@[k] == '/',
            forall|k: int| 0 <= k < i ==> refstring@[k] != '/',
        decreases n - i,
    {
        i += 1;
    }
    proof {
        if i == n {
            let k = choose|k: int| 0 <= k < refstring@.len() && refstring@[k] == '/';
            assert(refstring@[k] != '/');
        }
        lemma_slash_or_end(refstring@, 0, i as int);
    }
    let mut j: usize = i + 1;
    while j < n && refstring.get_char(j) != '/'
        invariant
            n == refstring@.len(),
            i + 1 <= j <= n,
            forall|k: int| i + 1 <= k < j ==> refstring@[k] != '/',
        decreases n - j,
    {
        j += 1;
    }
    proof {
        lemma_slash_or_end(refstring@, i as int + 1, j as int);
    }
    let seg = refstring.substring_char(i + 1, j);
    seg.to_owned()
}

} // verus!
