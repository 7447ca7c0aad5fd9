//! Choosing modules from partial identifiers typed by a user.
use vstd::prelude::*;
use crate::module::{Module, identifier_of};
use crate::text::{lower_of, lowercase, views};

verus! {

/// What a set of partial identifiers selects from the catalogue, as indices.
#[derive(Debug, PartialEq, Eq)]
pub enum ResolveMatch {
    /// Exactly one module matched.
    Full(usize),
    /// Several matched and the caller has to pick one.
    Partial(Vec<usize>),
    /// Several matched and all of them were asked for.
    All(Vec<usize>),
    /// Nothing matched.
    NoMatch,
}

/// `needle` occurs in `hay` as a contiguous run.
pub open spec fn contains_seq(hay: Seq<char>, needle: Seq<char>) -> bool {
    exists|i: int| 0 <= i <= hay.len() - needle.len() && #[trigger] hay.subrange(i, i + needle.len()) == needle
}

/// The partials typed last as `ALL` ask for every match.
pub open spec fn wants_all(partials: Seq<Seq<char>>) -> bool {
    partials.len() > 0 && partials.last() == "ALL"@
}

/// The partials that are matched against identifiers: all but a trailing `ALL`.
pub open spec fn search_terms(partials: Seq<Seq<char>>) -> Seq<Seq<char>> {
    if wants_all(partials) {
        partials.drop_last()
    } else {
        partials
    }
}

/// Every (lower-cased) term occurs in the (lower-cased) identifier.
pub open spec fn matches_lowered(terms: Seq<Seq<char>>, id: Seq<char>) -> bool {
    forall|j: int| 0 <= j < terms.len() ==> contains_seq(id, #[trigger] terms[j])
}

/// Each term lower-cased.
pub open spec fn lowered(terms: Seq<Seq<char>>) -> Seq<Seq<char>> {
    terms.map_values(|t: Seq<char>| lower_of(t))
}

/// Every term occurs in the module's identifier, ignoring case.
pub open spec fn module_matches(m: Module, terms: Seq<Seq<char>>) -> bool {
    matches_lowered(lowered(terms), lower_of(identifier_of(m)))
}

/// Indices, in catalogue order, of the first `n` entries that match every term.
pub open spec fn matching(catalogue: Seq<Module>, terms: Seq<Seq<char>>, n: nat) -> Seq<usize>
    decreases n,
{
    if n == 0 {
        Seq::<usize>::empty()
    } else {
        let prev = matching(catalogue, terms, (n - 1) as nat);
        if module_matches(catalogue[n - 1], terms) {
            prev.push((n - 1) as usize)
        } else {
            prev
        }
    }
}

/// What a list of matching indices resolves to.
pub open spec fn classify(found: Seq<usize>, all: bool, r: ResolveMatch) -> bool {
    if found.len() == 0 {
        r == ResolveMatch::NoMatch
    } else if found.len() == 1 {
        r == ResolveMatch::Full(found[0])
    } else if all {
        r matches ResolveMatch::All(v) && v@ == found
    } else {
        r matches ResolveMatch::Partial(v) && v@ == found
    }
}

/// Whether `needle` occurs in `hay`.
pub fn contains_text(hay: &String, needle: &String) -> (r: bool)
    ensures
        r == contains_seq(hay@, needle@),
{
    let h = hay.as_str().unicode_len();
    let n = needle.as_str().unicode_len();
    if n > h {
        return false;
    }
    let mut i: usize = 0;
    while i <= h - n
        invariant
            h == hay@.len(),
            n == needle@.len(),
            n <= h,
            0 <= i <= h - n + 1,
            forall|x: int| 0 <= x < i ==> #[trigger] hay@.subrange(x, x + n) != needle@,
        decreases h - n + 1 - i,
    {
        let mut j: usize = 0;
        let mut same = true;
        assert(hay@.subrange(i as int, i as int) =~= needle@.take(0));
        while j < n
            invariant
                h == hay@.len(),
                n == needle@.len(),
                i + n <= h,
                0 <= j <= n,
                same == (hay@.subrange(i as int, i + j) == needle@.take(j as int)),
            decreases n - j,
        {
            let a = hay.as_str().get_char(i + j);
            let b = needle.as_str().get_char(j);
            proof {
                assert(hay@.subrange(i as int, i + j + 1) == hay@.subrange(i as int, i + j).push(a));
                assert(needle@.take(j as int + 1) == needle@.take(j as int).push(b));
                if hay@.subrange(i as int, i + j + 1) == needle@.take(j as int + 1) {
                    assert(hay@.subrange(i as int, i + j) =~= hay@.subrange(i as int, i + j + 1).drop_last());
                    assert(needle@.take(j as int) =~= needle@.take(j as int + 1).drop_last());
                }
                if a != b {
                    assert(hay@.subrange(i as int, i + j + 1).last() != needle@.take(j as int + 1).last());
                }
            }
            same = same && a == b;
            j = j + 1;
        }
        proof {
            assert(needle@.take(n as int) =~= needle@);
        }
        if same {
            return true;
        }
        if i == h - n {
            return false;
        }
        i = i + 1;
    }
    false
}

/// Whether every lower-cased term occurs in a lower-cased identifier.
pub fn matches_folded(terms: &Vec<String>, id: &String) -> (r: bool)
    ensures
        r == matches_lowered(views(terms@), id@),
{
    let mut j: usize = 0;
    while j < terms.len()
        invariant
            0 <= j <= terms@.len(),
            forall|x: int| 0 <= x < j ==> contains_seq(id@, #[trigger] views(terms@)[x]),
        decreases terms@.len() - j,
    {
        if !contains_text(id, &terms[j]) {
            assert(!contains_seq(id@, views(terms@)[j as int]));
            return false;
        }
        j = j + 1;
    }
    true
}

/// Selects the catalogue entries whose identifier holds every partial,
/// ignoring case. A trailing `ALL` is not matched but asks for every match
/// when there are several.
pub fn resolve(partials: &Vec<String>, catalogue: &Vec<Module>) -> (r: ResolveMatch)
    ensures
        classify(
            matching(catalogue@, search_terms(views(partials@)), catalogue@.len()),
            wants_all(views(partials@)),
            r,
        ),
{
    let ghost ps = views(partials@);
    let n = partials.len();
    let all_word = String::from_str("ALL");
    let all = n > 0 && partials[n - 1] == all_word;
    let count = if all { n - 1 } else { n };
    proof {
        assert(all == wants_all(ps));
        assert(search_terms(ps) =~= ps.take(count as int));
    }
    let mut terms: Vec<String> = Vec::new();
    let mut j: usize = 0;
    while j < count
        invariant
            ps == views(partials@),
            count <= partials@.len(),
            search_terms(ps) == ps.take(count as int),
            0 <= j <= count,
            views(terms@) == lowered(search_terms(ps).take(j as int)),
        decreases count - j,
    {
        let t = lowercase(partials[j].as_str());
        let ghost prev = terms@;
        terms.push(t);
        proof {
            crate::text::lemma_views_push(prev, t);
            assert(lowered(search_terms(ps).take(j as int + 1)) =~= lowered(
                search_terms(ps).take(j as int),
            ).push(t@));
        }
        j = j + 1;
    }
    proof {
        assert(search_terms(ps).take(count as int) =~= search_terms(ps));
    }
    let mut found: Vec<usize> = Vec::new();
    let mut i: usize = 0;
    while i < catalogue.len()
        invariant
            ps == views(partials@),
            views(terms@) == lowered(search_terms(ps)),
            0 <= i <= catalogue@.len(),
            found@ == matching(catalogue@, search_terms(ps), i as nat),
        decreases catalogue@.len() - i,
    {
        let id = catalogue[i].identifier();
        let low = lowercase(id.as_str());
        if matches_folded(&terms, &low) {
            found.push(i);
        }
        i = i + 1;
    }
    let len = found.len();
    if len == 0 {
        ResolveMatch::NoMatch
    } else if len == 1 {
        ResolveMatch::Full(found[0])
    } else if all {
        ResolveMatch::All(found)
    } else {
        ResolveMatch::Partial(found)
    }
}

/// An index is among the matches exactly when its entry matches every term.
pub proof fn lemma_matching_member(catalogue: Seq<Module>, terms: Seq<Seq<char>>, n: nat, i: usize)
    requires
        n <= catalogue.len() <= usize::MAX,
    ensures
        matching(catalogue, terms, n).contains(i) <==> (i < n && module_matches(
            catalogue[i as int],
            terms,
        )),
    decreases n,
{
    if n > 0 {
        let prev = matching(catalogue, terms, (n - 1) as nat);
        lemma_matching_member(catalogue, terms, (n - 1) as nat, i);
        let cur = matching(catalogue, terms, n);
        if prev.contains(i) {
            let y = choose|y: int| 0 <= y < prev.len() && prev[y] == i;
            assert(cur[y] == i);
        }
        if cur.contains(i) {
            let y = choose|y: int| 0 <= y < cur.len() && cur[y] == i;
            if y < prev.len() {
                assert(prev[y] == i);
            }
        }
        if i == n - 1 && module_matches(catalogue[i as int], terms) {
            assert(cur.last() == i);
        }
    }
}

/// Adding partials never grows the match set: an entry that matches a list of
/// terms matches every list whose terms all occur in it.
pub proof fn lemma_resolver_monotone(
    catalogue: Seq<Module>,
    fewer: Seq<Seq<char>>,
    more: Seq<Seq<char>>,
    i: usize,
)
    requires
        catalogue.len() <= usize::MAX,
        forall|j: int| 0 <= j < fewer.len() ==> more.contains(#[trigger] fewer[j]),
        matching(catalogue, more, catalogue.len()).contains(i),
    ensures
        matching(catalogue, fewer, catalogue.len()).contains(i),
{
    lemma_matching_member(catalogue, more, catalogue.len(), i);
    lemma_matching_member(catalogue, fewer, catalogue.len(), i);
    let id = lower_of(identifier_of(catalogue[i as int]));
    assert forall|j: int| 0 <= j < fewer.len() implies contains_seq(id, #[trigger] lowered(fewer)[j]) by {
        assert(more.contains(fewer[j]));
        let y = choose|y: int| 0 <= y < more.len() && more[y] == fewer[j];
        assert(contains_seq(id, lowered(more)[y]));
    }
}

/// Matching ignores case: partials that lower-case alike select the same
/// entries, in the same order.
pub proof fn lemma_resolver_case_insensitive(
    catalogue: Seq<Module>,
    first: Seq<Seq<char>>,
    second: Seq<Seq<char>>,
    n: nat,
)
    requires
        n <= catalogue.len(),
        lowered(first) == lowered(second),
    ensures
        matching(catalogue, first, n) == matching(catalogue, second, n),
    decreases n,
{
    if n > 0 {
        lemma_resolver_case_insensitive(catalogue, first, second, (n - 1) as nat);
    }
}

} // verus!
