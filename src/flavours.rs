//! Flavour expansion: every combination of peer modules a module is built against.
use vstd::prelude::*;
use crate::module::{Dependency, Module, identifier_of, mod_name_of, valid_peers};
use crate::text::{split_at_char, split_on, views};

verus! {

/// One combination of peers, as indices into the module catalogue. The first
/// `k` peers come from `Class` dependencies, the rest are required modules.
#[derive(Debug)]
pub struct Flavour {
    pub peers: Vec<usize>,
    pub k: usize,
}

/// A catalogue entry answers to a dependency name by full identifier or by `name/version`.
pub open spec fn peer_matches(m: Module, name: Seq<char>) -> bool {
    identifier_of(m) == name || mod_name_of(m) == name
}

/// Index of the first entry at or after `start` that answers to `name`, or -1.
pub open spec fn first_match_from(catalogue: Seq<Module>, name: Seq<char>, start: int) -> int
    decreases catalogue.len() - start,
{
    if start < 0 || start >= catalogue.len() {
        -1
    } else if peer_matches(catalogue[start], name) {
        start
    } else {
        first_match_from(catalogue, name, start + 1)
    }
}

/// Index of the first catalogue entry that answers to `name`, or -1.
pub open spec fn first_match(catalogue: Seq<Module>, name: Seq<char>) -> int {
    first_match_from(catalogue, name, 0)
}

/// A `Module` or `Depends` dependency names some catalogue entry; the others always do.
pub open spec fn dep_resolves(catalogue: Seq<Module>, d: Dependency) -> bool {
    match d {
        Dependency::Module(n) => first_match(catalogue, n@) >= 0,
        Dependency::Depends(n) => first_match(catalogue, n@) >= 0,
        _ => true,
    }
}

/// Every required module of the declaration can be found.
pub open spec fn all_resolve(catalogue: Seq<Module>, deps: Seq<Dependency>) -> bool {
    forall|i: int| 0 <= i < deps.len() ==> dep_resolves(catalogue, #[trigger] deps[i])
}

/// The name a dependency carries.
pub open spec fn dep_name(d: Dependency) -> Seq<char> {
    match d {
        Dependency::Class(n) => n@,
        Dependency::Module(n) => n@,
        Dependency::Depends(n) => n@,
        Dependency::Deny(n) => n@,
    }
}

/// Index of the first dependency at or after `start` that does not resolve, or -1.
pub open spec fn first_unresolved_from(catalogue: Seq<Module>, deps: Seq<Dependency>, start: int) -> int
    decreases deps.len() - start,
{
    if start < 0 || start >= deps.len() {
        -1
    } else if !dep_resolves(catalogue, deps[start]) {
        start
    } else {
        first_unresolved_from(catalogue, deps, start + 1)
    }
}

/// The error for a required module that is not in the catalogue.
pub open spec fn missing_text(name: Seq<char>) -> Seq<char> {
    "Failed to find module matching dependency '"@ + name + "'"@
}

/// The error naming the first required module that is not in the catalogue.
pub open spec fn missing_dependency_text(catalogue: Seq<Module>, deps: Seq<Dependency>) -> Seq<char> {
    missing_text(dep_name(deps[first_unresolved_from(catalogue, deps, 0)]))
}

/// The catalogue index of each `Module` and `Depends` dependency, in declaration order.
pub open spec fn required_peers(catalogue: Seq<Module>, deps: Seq<Dependency>) -> Seq<usize>
    decreases deps.len(),
{
    if deps.len() == 0 {
        Seq::<usize>::empty()
    } else {
        let prev = required_peers(catalogue, deps.drop_last());
        match deps.last() {
            Dependency::Module(n) => prev.push(first_match(catalogue, n@) as usize),
            Dependency::Depends(n) => prev.push(first_match(catalogue, n@) as usize),
            _ => prev,
        }
    }
}

/// The names of the `Class` dependencies, in declaration order.
pub open spec fn class_names(deps: Seq<Dependency>) -> Seq<Seq<char>>
    decreases deps.len(),
{
    if deps.len() == 0 {
        Seq::<Seq<char>>::empty()
    } else {
        let prev = class_names(deps.drop_last());
        match deps.last() {
            Dependency::Class(c) => prev.push(c@),
            _ => prev,
        }
    }
}

/// The `Deny` dependencies, each split at `:` into `name/version` entries.
pub open spec fn deny_specs(deps: Seq<Dependency>) -> Seq<Seq<Seq<char>>>
    decreases deps.len(),
{
    if deps.len() == 0 {
        Seq::<Seq<Seq<char>>>::empty()
    } else {
        let prev = deny_specs(deps.drop_last());
        match deps.last() {
            Dependency::Deny(d) => prev.push(split_on(d@, ':')),
            _ => prev,
        }
    }
}

/// Indices, in catalogue order, of the first `n` entries whose class is `class`.
pub open spec fn class_members(catalogue: Seq<Module>, class: Seq<char>, n: nat) -> Seq<usize>
    decreases n,
{
    if n == 0 {
        Seq::<usize>::empty()
    } else {
        let prev = class_members(catalogue, class, (n - 1) as nat);
        if catalogue[n - 1].class@ == class {
            prev.push((n - 1) as usize)
        } else {
            prev
        }
    }
}

/// The candidates of a class: every catalogue entry of that class.
pub open spec fn candidates(catalogue: Seq<Module>, class: Seq<char>) -> Seq<usize> {
    class_members(catalogue, class, catalogue.len())
}

/// The candidates of each `Class` dependency, in declaration order.
pub open spec fn class_candidates(catalogue: Seq<Module>, deps: Seq<Dependency>) -> Seq<Seq<usize>> {
    class_names(deps).map_values(|c: Seq<char>| candidates(catalogue, c))
}

/// Each row with `x` appended.
pub open spec fn append_each(rows: Seq<Seq<usize>>, x: usize) -> Seq<Seq<usize>> {
    rows.map_values(|r: Seq<usize>| r.push(x))
}

/// For each of the first `n` choices in `cs`, in order, every row with that choice appended.
pub open spec fn extend_rows(rows: Seq<Seq<usize>>, cs: Seq<usize>, n: nat) -> Seq<Seq<usize>>
    decreases n,
{
    if n == 0 {
        Seq::<Seq<usize>>::empty()
    } else {
        extend_rows(rows, cs, (n - 1) as nat) + append_each(rows, cs[n - 1])
    }
}

/// The Cartesian product of the candidate lists, the first list varying fastest.
pub open spec fn combos(cands: Seq<Seq<usize>>) -> Seq<Seq<usize>>
    decreases cands.len(),
{
    if cands.len() == 0 {
        seq![Seq::<usize>::empty()]
    } else {
        extend_rows(combos(cands.drop_last()), cands.last(), cands.last().len())
    }
}

/// Some peer of the flavour has this `name/version`.
pub open spec fn holds_name(catalogue: Seq<Module>, peers: Seq<usize>, s: Seq<char>) -> bool {
    exists|i: int| 0 <= i < peers.len() && mod_name_of(catalogue[peers[i] as int]) == s
}

/// Every entry of the deny spec is among the peers.
pub open spec fn deny_hits(catalogue: Seq<Module>, peers: Seq<usize>, d: Seq<Seq<char>>) -> bool {
    forall|j: int| 0 <= j < d.len() ==> holds_name(catalogue, peers, #[trigger] d[j])
}

/// Some deny spec matches the flavour in full.
pub open spec fn denied(catalogue: Seq<Module>, peers: Seq<usize>, denies: Seq<Seq<Seq<char>>>) -> bool {
    exists|i: int| 0 <= i < denies.len() && deny_hits(catalogue, peers, #[trigger] denies[i])
}

/// Each combination followed by the required peers.
pub open spec fn with_required(rows: Seq<Seq<usize>>, req: Seq<usize>) -> Seq<Seq<usize>> {
    rows.map_values(|r: Seq<usize>| r + req)
}

/// The rows that no deny spec matches, in order.
pub open spec fn keep_allowed(
    catalogue: Seq<Module>,
    denies: Seq<Seq<Seq<char>>>,
    rows: Seq<Seq<usize>>,
) -> Seq<Seq<usize>>
    decreases rows.len(),
{
    if rows.len() == 0 {
        Seq::<Seq<usize>>::empty()
    } else {
        let prev = keep_allowed(catalogue, denies, rows.drop_last());
        if denied(catalogue, rows.last(), denies) {
            prev
        } else {
            prev.push(rows.last())
        }
    }
}

/// The peers of every flavour of a module with these dependencies, in order.
pub open spec fn flavour_peers(catalogue: Seq<Module>, deps: Seq<Dependency>) -> Seq<Seq<usize>> {
    keep_allowed(
        catalogue,
        deny_specs(deps),
        with_required(combos(class_candidates(catalogue, deps)), required_peers(catalogue, deps)),
    )
}

/// The peer lists of a sequence of flavours.
pub open spec fn peer_lists(fs: Seq<Flavour>) -> Seq<Seq<usize>> {
    fs.map_values(|f: Flavour| f.peers@)
}

/// The contents of a sequence of index vectors.
pub open spec fn rows_of(v: Seq<Vec<usize>>) -> Seq<Seq<usize>> {
    v.map_values(|r: Vec<usize>| r@)
}

/// The contents of a sequence of deny specs.
pub open spec fn denies_of(v: Seq<Vec<String>>) -> Seq<Seq<Seq<char>>> {
    v.map_values(|d: Vec<String>| views(d@))
}

proof fn lemma_first_match_from(catalogue: Seq<Module>, name: Seq<char>, start: int)
    ensures
        first_match_from(catalogue, name, start) == -1 || (start <= first_match_from(
            catalogue,
            name,
            start,
        ) < catalogue.len() && peer_matches(
            catalogue[first_match_from(catalogue, name, start)],
            name,
        )),
    decreases catalogue.len() - start,
{
    if 0 <= start < catalogue.len() && !peer_matches(catalogue[start], name) {
        lemma_first_match_from(catalogue, name, start + 1);
    }
}

/// The first catalogue entry that answers to `name`.
fn find_peer(catalogue: &Vec<Module>, name: &String) -> (r: Option<usize>)
    ensures
        match r {
            Some(i) => i as int == first_match(catalogue@, name@) && i < catalogue@.len(),
            None => first_match(catalogue@, name@) == -1,
        },
{
    let mut i: usize = 0;
    while i < catalogue.len()
        invariant
            0 <= i <= catalogue@.len(),
            first_match(catalogue@, name@) == first_match_from(catalogue@, name@, i as int),
        decreases catalogue@.len() - i,
    {
        let id = catalogue[i].identifier();
        let short = catalogue[i].mod_name();
        if id == *name || short == *name {
            return Some(i);
        }
        i = i + 1;
    }
    None
}

proof fn lemma_rows_push(v: Seq<Vec<usize>>, r: Vec<usize>)
    ensures
        rows_of(v.push(r)) == rows_of(v).push(r@),
{
    assert(rows_of(v.push(r)) =~= rows_of(v).push(r@));
}

/// The catalogue entries of a class, in catalogue order.
fn members_of_class(catalogue: &Vec<Module>, class: &String) -> (r: Vec<usize>)
    ensures
        r@ == candidates(catalogue@, class@),
{
    let mut r: Vec<usize> = Vec::new();
    let mut i: usize = 0;
    while i < catalogue.len()
        invariant
            0 <= i <= catalogue@.len(),
            r@ == class_members(catalogue@, class@, i as nat),
        decreases catalogue@.len() - i,
    {
        if catalogue[i].class == *class {
            r.push(i);
        }
        i = i + 1;
    }
    r
}

/// A copy of an index list.
fn copy_row(v: &Vec<usize>) -> (r: Vec<usize>)
    ensures
        r@ == v@,
{
    let mut r: Vec<usize> = Vec::new();
    let mut i: usize = 0;
    while i < v.len()
        invariant
            0 <= i <= v@.len(),
            r@ == v@.take(i as int),
        decreases v@.len() - i,
    {
        r.push(v[i]);
        proof {
            assert(r@ =~= v@.take(i as int + 1));
        }
        i = i + 1;
    }
    proof {
        assert(v@.take(v@.len() as int) =~= v@);
    }
    r
}

/// Every combination that takes one entry from each candidate list.
fn cartesian(cands: &Vec<Vec<usize>>) -> (r: Vec<Vec<usize>>)
    ensures
        rows_of(r@) == combos(rows_of(cands@)),
{
    let mut acc: Vec<Vec<usize>> = Vec::new();
    acc.push(Vec::new());
    proof {
        assert(rows_of(acc@) =~= combos(rows_of(cands@).take(0)));
    }
    let mut ci: usize = 0;
    while ci < cands.len()
        invariant
            0 <= ci <= cands@.len(),
            rows_of(acc@) == combos(rows_of(cands@).take(ci as int)),
        decreases cands@.len() - ci,
    {
        let cs = &cands[ci];
        let ghost base = rows_of(acc@);
        let mut next: Vec<Vec<usize>> = Vec::new();
        let mut j: usize = 0;
        while j < cs.len()
            invariant
                0 <= j <= cs@.len(),
                base == rows_of(acc@),
                rows_of(next@) == extend_rows(base, cs@, j as nat),
            decreases cs@.len() - j,
        {
            let mut k: usize = 0;
            while k < acc.len()
                invariant
                    0 <= k <= acc@.len(),
                    j < cs@.len(),
                    base == rows_of(acc@),
                    rows_of(next@) == extend_rows(base, cs@, j as nat) + append_each(
                        base.take(k as int),
                        cs@[j as int],
                    ),
                decreases acc@.len() - k,
            {
                let mut row = copy_row(&acc[k]);
                row.push(cs[j]);
                let ghost prev = next@;
                next.push(row);
                proof {
                    lemma_rows_push(prev, row);
                    assert(append_each(base.take(k as int + 1), cs@[j as int]) =~= append_each(
                        base.take(k as int),
                        cs@[j as int],
                    ).push(row@));
                    assert(rows_of(next@) =~= extend_rows(base, cs@, j as nat) + append_each(
                        base.take(k as int + 1),
                        cs@[j as int],
                    ));
                }
                k = k + 1;
            }
            proof {
                assert(base.take(acc@.len() as int) =~= base);
            }
            j = j + 1;
        }
        proof {
            let t = rows_of(cands@).take(ci as int + 1);
            assert(t.drop_last() =~= rows_of(cands@).take(ci as int));
            assert(t.last() == cs@);
        }
        acc = next;
        ci = ci + 1;
    }
    proof {
        assert(rows_of(cands@).take(cands@.len() as int) =~= rows_of(cands@));
    }
    acc
}

/// Each row has one entry per candidate list, taken from that list.
pub open spec fn row_fits(cands: Seq<Seq<usize>>, row: Seq<usize>) -> bool {
    &&& row.len() == cands.len()
    &&& forall|i: int| 0 <= i < row.len() ==> #[trigger] cands[i].contains(row[i])
}

proof fn lemma_extend_rows_member(rows: Seq<Seq<usize>>, cs: Seq<usize>, n: nat, x: int)
    requires
        n <= cs.len(),
        0 <= x < extend_rows(rows, cs, n).len(),
    ensures
        exists|a: int, b: int|
            0 <= a < rows.len() && 0 <= b < n && extend_rows(rows, cs, n)[x] == rows[a].push(cs[b]),
    decreases n,
{
    if n > 0 {
        let prev = extend_rows(rows, cs, (n - 1) as nat);
        if x < prev.len() {
            lemma_extend_rows_member(rows, cs, (n - 1) as nat, x);
        } else {
            let a = x - prev.len();
            assert(extend_rows(rows, cs, n)[x] == rows[a].push(cs[n - 1]));
        }
    }
}

proof fn lemma_extend_rows_has(rows: Seq<Seq<usize>>, cs: Seq<usize>, n: nat, a: int, b: int)
    requires
        n <= cs.len(),
        0 <= a < rows.len(),
        0 <= b < n,
    ensures
        extend_rows(rows, cs, n).contains(rows[a].push(cs[b])),
    decreases n,
{
    let prev = extend_rows(rows, cs, (n - 1) as nat);
    if b == n - 1 {
        assert(extend_rows(rows, cs, n)[prev.len() + a] == rows[a].push(cs[b]));
    } else {
        lemma_extend_rows_has(rows, cs, (n - 1) as nat, a, b);
        let x = choose|x: int| 0 <= x < prev.len() && prev[x] == rows[a].push(cs[b]);
        assert(extend_rows(rows, cs, n)[x] == rows[a].push(cs[b]));
    }
}

/// Every row of the product takes one entry from each candidate list.
pub proof fn lemma_combos_fit(cands: Seq<Seq<usize>>, x: int)
    requires
        0 <= x < combos(cands).len(),
    ensures
        row_fits(cands, combos(cands)[x]),
    decreases cands.len(),
{
    if cands.len() > 0 {
        let dl = cands.drop_last();
        let last = cands.last();
        lemma_extend_rows_member(combos(dl), last, last.len(), x);
        let (a, b) = choose|a: int, b: int|
            0 <= a < combos(dl).len() && 0 <= b < last.len() && combos(cands)[x] == combos(
                dl,
            )[a].push(last[b]);
        lemma_combos_fit(dl, a);
        let row = combos(cands)[x];
        assert forall|i: int| 0 <= i < row.len() implies #[trigger] cands[i].contains(row[i]) by {
            if i < dl.len() {
                assert(dl[i] == cands[i]);
                assert(dl[i].contains(combos(dl)[a][i]));
            } else {
                assert(row[i] == last[b]);
            }
        }
    }
}

/// Every row that takes one entry from each candidate list is in the product.
pub proof fn lemma_combos_complete(cands: Seq<Seq<usize>>, row: Seq<usize>)
    requires
        row_fits(cands, row),
    ensures
        combos(cands).contains(row),
    decreases cands.len(),
{
    if cands.len() == 0 {
        assert(row =~= Seq::<usize>::empty());
        assert(combos(cands)[0] == row);
    } else {
        let dl = cands.drop_last();
        let last = cands.last();
        let head = row.drop_last();
        assert forall|i: int| 0 <= i < head.len() implies #[trigger] dl[i].contains(head[i]) by {
            assert(cands[i].contains(row[i]));
        }
        lemma_combos_complete(dl, head);
        let a = choose|a: int| 0 <= a < combos(dl).len() && combos(dl)[a] == head;
        assert(cands[cands.len() - 1].contains(row[cands.len() - 1]));
        let b = choose|b: int| 0 <= b < last.len() && last[b] == row.last();
        assert(head.push(last[b]) =~= row);
        lemma_extend_rows_has(combos(dl), last, last.len(), a, b);
    }
}

/// Entries of a class member list point into the catalogue, at entries of that class.
pub proof fn lemma_class_members(catalogue: Seq<Module>, class: Seq<char>, n: nat, y: int)
    requires
        n <= catalogue.len() <= usize::MAX,
        0 <= y < class_members(catalogue, class, n).len(),
    ensures
        class_members(catalogue, class, n)[y] < n,
        catalogue[class_members(catalogue, class, n)[y] as int].class@ == class,
    decreases n,
{
    let prev = class_members(catalogue, class, (n - 1) as nat);
    if y < prev.len() {
        lemma_class_members(catalogue, class, (n - 1) as nat, y);
    }
}

/// Whether some peer has this `name/version`.
fn has_name(catalogue: &Vec<Module>, peers: &Vec<usize>, s: &String) -> (r: bool)
    requires
        forall|i: int| 0 <= i < peers@.len() ==> #[trigger] peers@[i] < catalogue@.len(),
    ensures
        r == holds_name(catalogue@, peers@, s@),
{
    let mut i: usize = 0;
    while i < peers.len()
        invariant
            forall|i: int| 0 <= i < peers@.len() ==> #[trigger] peers@[i] < catalogue@.len(),
            0 <= i <= peers@.len(),
            forall|x: int| 0 <= x < i ==> mod_name_of(catalogue@[#[trigger] peers@[x] as int]) != s@,
        decreases peers@.len() - i,
    {
        let n = catalogue[peers[i]].mod_name();
        if n == *s {
            return true;
        }
        i = i + 1;
    }
    false
}

/// Whether every entry of a deny spec is among the peers.
fn hits(catalogue: &Vec<Module>, peers: &Vec<usize>, d: &Vec<String>) -> (r: bool)
    requires
        forall|i: int| 0 <= i < peers@.len() ==> #[trigger] peers@[i] < catalogue@.len(),
    ensures
        r == deny_hits(catalogue@, peers@, views(d@)),
{
    let mut j: usize = 0;
    while j < d.len()
        invariant
            forall|i: int| 0 <= i < peers@.len() ==> #[trigger] peers@[i] < catalogue@.len(),
            0 <= j <= d@.len(),
            forall|x: int| 0 <= x < j ==> holds_name(catalogue@, peers@, #[trigger] views(d@)[x]),
        decreases d@.len() - j,
    {
        if !has_name(catalogue, peers, &d[j]) {
            assert(!holds_name(catalogue@, peers@, views(d@)[j as int]));
            return false;
        }
        j = j + 1;
    }
    true
}

/// Whether some deny spec matches the peers in full.
fn is_denied(catalogue: &Vec<Module>, peers: &Vec<usize>, denies: &Vec<Vec<String>>) -> (r: bool)
    requires
        forall|i: int| 0 <= i < peers@.len() ==> #[trigger] peers@[i] < catalogue@.len(),
    ensures
        r == denied(catalogue@, peers@, denies_of(denies@)),
{
    let mut i: usize = 0;
    while i < denies.len()
        invariant
            forall|i: int| 0 <= i < peers@.len() ==> #[trigger] peers@[i] < catalogue@.len(),
            0 <= i <= denies@.len(),
            forall|x: int|
                0 <= x < i ==> !deny_hits(catalogue@, peers@, #[trigger] denies_of(denies@)[x]),
        decreases denies@.len() - i,
    {
        if hits(catalogue, peers, &denies[i]) {
            assert(deny_hits(catalogue@, peers@, denies_of(denies@)[i as int]));
            return true;
        }
        i = i + 1;
    }
    false
}

/// The class part of a flavour points into the catalogue, at entries of the
/// declared classes in declaration order.
pub proof fn lemma_row_classes(catalogue: Seq<Module>, deps: Seq<Dependency>, row: Seq<usize>)
    requires
        catalogue.len() <= usize::MAX,
        row_fits(class_candidates(catalogue, deps), row),
    ensures
        row.len() == class_names(deps).len(),
        forall|i: int|
            0 <= i < row.len() ==> #[trigger] row[i] < catalogue.len() && catalogue[row[i] as int].class@
                == class_names(deps)[i],
{
    let cands = class_candidates(catalogue, deps);
    assert forall|i: int| 0 <= i < row.len() implies #[trigger] row[i] < catalogue.len()
        && catalogue[row[i] as int].class@ == class_names(deps)[i] by {
        assert(cands[i].contains(row[i]));
        let c = class_names(deps)[i];
        assert(cands[i] == candidates(catalogue, c));
        let y = choose|y: int| 0 <= y < cands[i].len() && cands[i][y] == row[i];
        lemma_class_members(catalogue, c, catalogue.len(), y);
    }
}

/// Appends `b` to `a`.
fn append_row(a: &mut Vec<usize>, b: &Vec<usize>)
    ensures
        final(a)@ == old(a)@ + b@,
{
    let ghost start = a@;
    let mut q: usize = 0;
    while q < b.len()
        invariant
            0 <= q <= b@.len(),
            a@ == start + b@.take(q as int),
        decreases b@.len() - q,
    {
        a.push(b[q]);
        proof {
            assert(a@ =~= start + b@.take(q as int + 1));
        }
        q = q + 1;
    }
    proof {
        assert(b@.take(b@.len() as int) =~= b@);
    }
}

/// The catalogue index of a required module, or the error that names it.
fn lookup_required(catalogue: &Vec<Module>, name: &String) -> (r: Result<usize, String>)
    ensures
        r is Ok <==> first_match(catalogue@, name@) >= 0,
        r matches Ok(p) ==> p as int == first_match(catalogue@, name@) && p < catalogue@.len(),
        r matches Err(m) ==> m@ == missing_text(name@),
{
    match find_peer(catalogue, name) {
        Some(p) => Ok(p),
        None => {
            let mut msg = String::from_str("Failed to find module matching dependency '");
            msg.append(name.as_str());
            msg.append("'");
            Err(msg)
        },
    }
}

/// Every flavour of `module` against the catalogue: one per combination of
/// candidates of its `Class` dependencies (the first class varying fastest),
/// followed by its required modules, less the combinations that a deny spec
/// matches in full. Fails when a required module is not in the catalogue.
pub fn generate(module: &Module, catalogue: &Vec<Module>) -> (r: Result<Vec<Flavour>, String>)
    ensures
        r is Err <==> !all_resolve(catalogue@, module.dependencies@),
        r matches Err(e) ==> e@ == missing_dependency_text(catalogue@, module.dependencies@),
        r matches Ok(fs) ==> {
            &&& peer_lists(fs@) == flavour_peers(catalogue@, module.dependencies@)
            &&& forall|i: int|
                0 <= i < fs@.len() ==> #[trigger] fs@[i].k == class_names(module.dependencies@).len()
                    && valid_peers(catalogue@, fs@[i].peers@, fs@[i].k as nat)
        },
{
    let deps = &module.dependencies;
    let mut required: Vec<usize> = Vec::new();
    let mut cands: Vec<Vec<usize>> = Vec::new();
    let mut denies: Vec<Vec<String>> = Vec::new();
    let mut i: usize = 0;
    while i < deps.len()
        invariant
            deps@ == module.dependencies@,
            0 <= i <= deps@.len(),
            required@ == required_peers(catalogue@, deps@.take(i as int)),
            rows_of(cands@) == class_candidates(catalogue@, deps@.take(i as int)),
            denies_of(denies@) == deny_specs(deps@.take(i as int)),
            forall|x: int| 0 <= x < i ==> dep_resolves(catalogue@, #[trigger] deps@[x]),
            forall|x: int| 0 <= x < required@.len() ==> #[trigger] required@[x] < catalogue@.len(),
            first_unresolved_from(catalogue@, deps@, 0) == first_unresolved_from(catalogue@, deps@, i as int),
        decreases deps@.len() - i,
    {
        let ghost t = deps@.take(i as int + 1);
        proof {
            assert(t.drop_last() =~= deps@.take(i as int));
            assert(t.last() == deps@[i as int]);
        }
        match &deps[i] {
            Dependency::Module(name) => {
                match lookup_required(catalogue, name) {
                    Ok(p) => {
                        required.push(p);
                        proof {
                            assert(class_names(t) == class_names(deps@.take(i as int)));
                        }
                    },
                    Err(e) => {
                        assert(!dep_resolves(catalogue@, deps@[i as int]));
                        assert(!all_resolve(catalogue@, deps@));
                        return Err(e);
                    },
                }
            },
            Dependency::Depends(name) => {
                match lookup_required(catalogue, name) {
                    Ok(p) => {
                        required.push(p);
                        proof {
                            assert(class_names(t) == class_names(deps@.take(i as int)));
                        }
                    },
                    Err(e) => {
                        assert(!dep_resolves(catalogue@, deps@[i as int]));
                        assert(!all_resolve(catalogue@, deps@));
                        return Err(e);
                    },
                }
            },
            Dependency::Class(c) => {
                let m = members_of_class(catalogue, c);
                let ghost prev = cands@;
                cands.push(m);
                proof {
                    lemma_rows_push(prev, m);
                    assert(class_candidates(catalogue@, t) =~= class_candidates(
                        catalogue@,
                        deps@.take(i as int),
                    ).push(candidates(catalogue@, c@)));
                }
            },
            Dependency::Deny(d) => {
                let parts = split_at_char(d.as_str(), ':');
                let ghost prev = denies@;
                denies.push(parts);
                proof {
                    assert(denies_of(denies@) =~= denies_of(prev).push(views(parts@)));
                    assert(class_names(t) == class_names(deps@.take(i as int)));
                }
            },
        }
        i = i + 1;
    }
    proof {
        assert(deps@.take(deps@.len() as int) =~= deps@);
    }
    let product = cartesian(&cands);
    let k = cands.len();
    let cat_len = catalogue.len();
    let ghost rows = with_required(rows_of(product@), required@);
    let ghost dspec = deny_specs(deps@);
    let mut out: Vec<Flavour> = Vec::new();
    let mut x: usize = 0;
    while x < product.len()
        invariant
            0 <= x <= product@.len(),
            rows == with_required(rows_of(product@), required@),
            rows_of(product@) == combos(class_candidates(catalogue@, deps@)),
            rows_of(cands@) == class_candidates(catalogue@, deps@),
            required@ == required_peers(catalogue@, deps@),
            denies_of(denies@) == dspec,
            k == class_names(deps@).len(),
            cat_len == catalogue@.len(),
            forall|y: int| 0 <= y < required@.len() ==> #[trigger] required@[y] < catalogue@.len(),
            peer_lists(out@) == keep_allowed(catalogue@, dspec, rows.take(x as int)),
            forall|y: int| 0 <= y < out@.len() ==> #[trigger] out@[y].k == k,
            forall|y: int|
                0 <= y < out@.len() ==> valid_peers(catalogue@, #[trigger] out@[y].peers@, k as nat),
        decreases product@.len() - x,
    {
        let mut peers = copy_row(&product[x]);
        append_row(&mut peers, &required);
        proof {
            let row = rows_of(product@)[x as int];
            lemma_combos_fit(class_candidates(catalogue@, deps@), x as int);
            lemma_row_classes(catalogue@, deps@, row);
            assert(peers@ == row + required@);
            assert forall|i: int| 0 <= i < peers@.len() implies #[trigger] peers@[i]
                < catalogue@.len() by {
                if i >= row.len() {
                    assert(peers@[i] == required@[i - row.len()]);
                }
            }
            let tk = rows.take(x as int + 1);
            assert(tk.drop_last() =~= rows.take(x as int));
            assert(tk.last() == peers@);
        }
        if !is_denied(catalogue, &peers, &denies) {
            let ghost prev = out@;
            let f = Flavour { peers, k };
            out.push(f);
            proof {
                assert(peer_lists(out@) =~= peer_lists(prev).push(f.peers@));
                assert(valid_peers(catalogue@, f.peers@, k as nat));
                assert forall|y: int| 0 <= y < out@.len() implies valid_peers(
                    catalogue@,
                    #[trigger] out@[y].peers@,
                    k as nat,
                ) by {
                    if y < prev.len() {
                        assert(out@[y] == prev[y]);
                    }
                }
            }
        }
        x = x + 1;
    }
    proof {
        assert(rows.take(product@.len() as int) =~= rows);
    }
    Ok(out)
}

proof fn lemma_keep_allowed(catalogue: Seq<Module>, denies: Seq<Seq<Seq<char>>>, rows: Seq<Seq<usize>>)
    ensures
        forall|p: Seq<usize>| #[trigger]
            keep_allowed(catalogue, denies, rows).contains(p) <==> (rows.contains(p) && !denied(
                catalogue,
                p,
                denies,
            )),
    decreases rows.len(),
{
    if rows.len() > 0 {
        let dl = rows.drop_last();
        lemma_keep_allowed(catalogue, denies, dl);
        let prev = keep_allowed(catalogue, denies, dl);
        assert forall|p: Seq<usize>| #[trigger]
            keep_allowed(catalogue, denies, rows).contains(p) <==> (rows.contains(p) && !denied(
                catalogue,
                p,
                denies,
            )) by {
            if rows.contains(p) && !denied(catalogue, p, denies) {
                let y = choose|y: int| 0 <= y < rows.len() && rows[y] == p;
                if y < dl.len() {
                    assert(dl[y] == p);
                    assert(prev.contains(p));
                    let z = choose|z: int| 0 <= z < prev.len() && prev[z] == p;
                    assert(keep_allowed(catalogue, denies, rows)[z] == p);
                } else {
                    assert(keep_allowed(catalogue, denies, rows).last() == p);
                }
            }
            if keep_allowed(catalogue, denies, rows).contains(p) {
                let z = choose|z: int|
                    0 <= z < keep_allowed(catalogue, denies, rows).len() && keep_allowed(
                        catalogue,
                        denies,
                        rows,
                    )[z] == p;
                if z < prev.len() {
                    assert(prev.contains(p));
                    let y = choose|y: int| 0 <= y < dl.len() && dl[y] == p;
                    assert(rows[y] == p);
                } else {
                    assert(rows[rows.len() - 1] == p);
                }
            }
        }
    }
}

/// A choice of one candidate per `Class` dependency, followed by the required
/// modules, is among the flavours exactly when no deny spec matches it in full.
/// With the soundness lemma below: the flavours are the Cartesian product of
/// the class candidates less what the deny specs match.
pub proof fn lemma_flavour_completeness(catalogue: Seq<Module>, deps: Seq<Dependency>, c: Seq<usize>)
    requires
        row_fits(class_candidates(catalogue, deps), c),
    ensures
        flavour_peers(catalogue, deps).contains(c + required_peers(catalogue, deps)) <==> !denied(
            catalogue,
            c + required_peers(catalogue, deps),
            deny_specs(deps),
        ),
{
    let cands = class_candidates(catalogue, deps);
    let req = required_peers(catalogue, deps);
    let all = with_required(combos(cands), req);
    lemma_keep_allowed(catalogue, deny_specs(deps), all);
    lemma_combos_complete(cands, c);
    let y = choose|y: int| 0 <= y < combos(cands).len() && combos(cands)[y] == c;
    assert(all[y] == c + req);
}

/// Every flavour is a choice of one candidate per `Class` dependency, followed
/// by the required modules, that no deny spec matches in full.
pub proof fn lemma_flavour_soundness(catalogue: Seq<Module>, deps: Seq<Dependency>, x: int) -> (c: Seq<usize>)
    requires
        0 <= x < flavour_peers(catalogue, deps).len(),
    ensures
        row_fits(class_candidates(catalogue, deps), c),
        flavour_peers(catalogue, deps)[x] == c + required_peers(catalogue, deps),
        !denied(catalogue, flavour_peers(catalogue, deps)[x], deny_specs(deps)),
{
    let cands = class_candidates(catalogue, deps);
    let req = required_peers(catalogue, deps);
    let all = with_required(combos(cands), req);
    let fp = flavour_peers(catalogue, deps);
    lemma_keep_allowed(catalogue, deny_specs(deps), all);
    assert(fp.contains(fp[x]));
    let y = choose|y: int| 0 <= y < all.len() && all[y] == fp[x];
    lemma_combos_fit(cands, y);
    combos(cands)[y]
}

/// Every flavour starts with one peer per `Class` dependency, in declaration
/// order, each of the class it stands for.
pub proof fn lemma_flavour_split(catalogue: Seq<Module>, deps: Seq<Dependency>, x: int)
    requires
        catalogue.len() <= usize::MAX,
        0 <= x < flavour_peers(catalogue, deps).len(),
    ensures
        class_names(deps).len() <= flavour_peers(catalogue, deps)[x].len(),
        forall|i: int|
            0 <= i < class_names(deps).len() ==> #[trigger] catalogue[flavour_peers(
                catalogue,
                deps,
            )[x][i] as int].class@ == class_names(deps)[i],
{
    let fp = flavour_peers(catalogue, deps);
    let c = lemma_flavour_soundness(catalogue, deps, x);
    lemma_row_classes(catalogue, deps, c);
    assert forall|i: int| 0 <= i < class_names(deps).len() implies #[trigger] catalogue[fp[x][i] as int].class@
        == class_names(deps)[i] by {
        assert(fp[x][i] == c[i]);
    }
}

/// `|name/version|` for each of the first `k` peers: `|` then each name followed by `|`.
pub open spec fn flavour_label(catalogue: Seq<Module>, peers: Seq<usize>, k: nat) -> Seq<char>
    decreases k,
{
    if k == 0 {
        "|"@
    } else {
        flavour_label(catalogue, peers, (k - 1) as nat) + mod_name_of(catalogue[peers[k - 1] as int]) + "|"@
    }
}

/// A short name for a flavour, listing its class peers: `|gcc/12|openmpi/4|`.
pub fn gen_name(flavour: &Flavour, catalogue: &Vec<Module>) -> (r: String)
    requires
        valid_peers(catalogue@, flavour.peers@, flavour.k as nat),
    ensures
        r@ == flavour_label(catalogue@, flavour.peers@, flavour.k as nat),
{
    let mut r = String::from_str("|");
    let mut i: usize = 0;
    while i < flavour.k
        invariant
            valid_peers(catalogue@, flavour.peers@, flavour.k as nat),
            0 <= i <= flavour.k,
            r@ == flavour_label(catalogue@, flavour.peers@, i as nat),
        decreases flavour.k - i,
    {
        let n = catalogue[flavour.peers[i]].mod_name();
        r.append(n.as_str());
        r.append("|");
        i = i + 1;
    }
    r
}

} // verus!
