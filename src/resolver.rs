//! Case-insensitive prefix matching of a query against candidate nation names.

use vstd::prelude::*;
use vstd::string::StrSliceExecFns;

verus! {

/// What `str::to_lowercase` makes of a sequence of characters.
pub uninterp spec fn lower_of(s: Seq<char>) -> Seq<char>;

/// Relies on `str::to_lowercase`: the result depends on the characters alone,
/// and an empty string stays empty.
#[verifier::external_body]
fn lowercase(s: &str) -> (r: String)
    ensures
        r@ == lower_of(s@),
        s@.len() == 0 ==> r@.len() == 0,
{
    s.to_lowercase()
}

/// `q` is a prefix of `s`.
pub open spec fn is_prefix(q: Seq<char>, s: Seq<char>) -> bool {
    q.len() <= s.len() && s.subrange(0, q.len() as int) == q
}

/// The outcome of matching a query against a list of candidates.
#[derive(PartialEq, Eq, Structural, Clone, Copy, Debug)]
pub enum Resolution {
    /// Exactly one candidate matches; it stands at this index.
    Unique(usize),
    /// More than one candidate matches.
    Ambiguous,
    /// No candidate matches.
    NotFound,
}

/// The resolution of the (already folded) query `q` against the (already
/// folded) candidate names: the one matching index, or which way it fails.
pub open spec fn resolution(names: Seq<Seq<char>>, q: Seq<char>) -> Resolution {
    if forall|i: int| 0 <= i < names.len() ==> !is_prefix(q, #[trigger] names[i]) {
        Resolution::NotFound
    } else if exists|i: int, j: int|
        0 <= i < j < names.len() && is_prefix(q, #[trigger] names[i]) && is_prefix(
            q,
            #[trigger] names[j],
        ) {
        Resolution::Ambiguous
    } else {
        Resolution::Unique((choose|i: int| 0 <= i < names.len() && is_prefix(q, names[i])) as usize)
    }
}

/// The candidate names after case folding.
pub open spec fn folded_names(names: Seq<Seq<char>>) -> Seq<Seq<char>> {
    names.map_values(|n: Seq<char>| lower_of(n))
}

/// The views of a list of strings.
pub open spec fn views(v: Seq<String>) -> Seq<Seq<char>> {
    v.map_values(|s: String| s@)
}

/// Whether `folded_query` is a prefix of `folded_name`.
pub fn name_matches_folded(folded_name: &str, folded_query: &str) -> (r: bool)
    ensures
        r == is_prefix(folded_query@, folded_name@),
{
    let n = folded_name.unicode_len();
    let m = folded_query.unicode_len();
    if m > n {
        return false;
    }
    let mut i: usize = 0;
    while i < m
        invariant
            m == folded_query@.len(),
            n == folded_name@.len(),
            m <= n,
            0 <= i <= m,
            folded_name@.subrange(0, i as int) == folded_query@.subrange(0, i as int),
        decreases m - i,
    {
        if folded_name.get_char(i) != folded_query.get_char(i) {
            assert(folded_name@.subrange(0, m as int)[i as int] != folded_query@[i as int]);
            return false;
        }
        assert(folded_name@.subrange(0, i + 1) =~= folded_query@.subrange(0, i + 1));
        i = i + 1;
    }
    assert(folded_query@.subrange(0, m as int) =~= folded_query@);
    true
}

/// Whether `query` is a prefix of `name`, both taken in lower case.
pub fn name_matches(name: &str, query: &str) -> (r: bool)
    ensures
        r == is_prefix(lower_of(query@), lower_of(name@)),
{
    let n = lowercase(name);
    let q = lowercase(query);
    name_matches_folded(n.as_str(), q.as_str())
}

/// Matches an already folded query against already folded candidate names.
pub fn resolve_folded(folded_names: &Vec<String>, folded_query: &str) -> (r: Resolution)
    ensures
        r == resolution(views(folded_names@), folded_query@),
{
    let ghost names = views(folded_names@);
    let ghost q = folded_query@;
    let mut found: Option<usize> = None;
    let mut i: usize = 0;
    while i < folded_names.len()
        invariant
            names == views(folded_names@),
            q == folded_query@,
            0 <= i <= folded_names.len(),
            match found {
                None => forall|k: int| 0 <= k < i ==> !is_prefix(q, #[trigger] names[k]),
                Some(f) => f < i && is_prefix(q, names[f as int]) && forall|k: int|
                    0 <= k < i && k != f ==> !is_prefix(q, #[trigger] names[k]),
            },
        decreases folded_names.len() - i,
    {
        let hit = name_matches_folded(folded_names[i].as_str(), folded_query);
        assert(names[i as int] == folded_names@[i as int]@);
        if hit {
            match found {
                Some(f) => {
                    assert(is_prefix(q, names[f as int]) && is_prefix(q, names[i as int]));
                    return Resolution::Ambiguous;
                },
                None => {
                    found = Some(i);
                },
            }
        }
        i = i + 1;
    }
    match found {
        None => Resolution::NotFound,
        Some(f) => {
            assert(is_prefix(q, names[f as int]));
            let ghost c = choose|c: int| 0 <= c < names.len() && is_prefix(q, names[c]);
            assert(c == f as int);
            Resolution::Unique(f)
        },
    }
}

/// Matches `query` against the candidate names, both taken in lower case: the
/// index of the one candidate whose name starts with the query, or which way
/// matching fails.
pub fn resolve(candidates: &Vec<String>, query: &str) -> (r: Resolution)
    ensures
        r == resolution(folded_names(views(candidates@)), lower_of(query@)),
{
    let mut folded: Vec<String> = Vec::new();
    let mut i: usize = 0;
    while i < candidates.len()
        invariant
            0 <= i <= candidates.len(),
            views(folded@) =~= folded_names(views(candidates@)).subrange(0, i as int),
        decreases candidates.len() - i,
    {
        let f = lowercase(candidates[i].as_str());
        let ghost before = folded@;
        folded.push(f);
        assert(folded@ == before.push(f));
        assert(views(folded@) =~= views(before).push(f@));
        assert(views(folded@) =~= folded_names(views(candidates@)).subrange(0, i + 1));
        i = i + 1;
    }
    assert(views(folded@) =~= folded_names(views(candidates@)));
    let q = lowercase(query);
    resolve_folded(&folded, q.as_str())
}

} // verus!
