//! The symbol scope of a file: identifier lookup over its declarations,
//! established together with the facts that later passes rely on.

use crate::ast::{Annotation, Decl, Field, File, SourceRange};
use vstd::prelude::*;

verus! {

/// What a diagnostic reports.
#[derive(Debug, Copy, Clone, PartialEq, Eq, Structural)]
pub enum DiagnosticKind {
    /// An identifier used as parent, type or group is not declared.
    UnresolvedReference,
    /// A declaration reaches itself through the identifiers it refers to.
    CyclicStructure,
    /// Two declarations share one identifier.
    DuplicateIdentifier,
}

/// One finding of the analysis, attached to source ranges.
#[derive(Debug, Copy, Clone, PartialEq, Eq, Structural)]
pub struct Diagnostic {
    pub kind: DiagnosticKind,
    /// The offending construct.
    pub primary: SourceRange,
    /// Supporting context, such as the earlier declaration of a name.
    pub secondary: Option<SourceRange>,
}

/// The index of the first declaration at or after `from` that is known by `id`.
pub open spec fn lookup_from<A: Annotation>(decls: Seq<Decl<A>>, id: Seq<char>, from: int) -> Option<
    int,
>
    decreases decls.len() - from,
{
    if from < 0 || from >= decls.len() {
        None
    } else if decls[from].spec_id() == Some(id) {
        Some(from)
    } else {
        lookup_from(decls, id, from + 1)
    }
}

/// The index of the declaration that `id` resolves to.
pub open spec fn lookup<A: Annotation>(decls: Seq<Decl<A>>, id: Seq<char>) -> Option<int> {
    lookup_from(decls, id, 0)
}

/// What `lookup_from` finds is the first match, and `None` means no match.
pub proof fn lemma_lookup_from<A: Annotation>(decls: Seq<Decl<A>>, id: Seq<char>, from: int)
    requires
        0 <= from,
    ensures
        match lookup_from(decls, id, from) {
            Some(j) => from <= j < decls.len() && decls[j].spec_id() == Some(id) && forall|k: int|
                from <= k < j ==> (#[trigger] decls[k]).spec_id() != Some(id),
            None => forall|k: int|
                from <= k < decls.len() ==> (#[trigger] decls[k]).spec_id() != Some(id),
        },
    decreases decls.len() - from,
{
    if from < decls.len() && decls[from].spec_id() != Some(id) {
        lemma_lookup_from(decls, id, from + 1);
    }
}

/// Whether `id`, where it resolves, resolves to a declaration ranked below `limit`.
pub open spec fn ref_below<A: Annotation>(
    decls: Seq<Decl<A>>,
    rank: Seq<usize>,
    limit: int,
    id: Seq<char>,
) -> bool {
    match lookup(decls, id) {
        Some(j) => 0 <= j < rank.len() && rank[j] < limit,
        None => true,
    }
}

/// Whether the declaration that `field` refers to, if any, ranks below `limit`.
pub open spec fn field_below<A: Annotation>(
    decls: Seq<Decl<A>>,
    rank: Seq<usize>,
    limit: int,
    field: Field<A>,
) -> bool {
    match field.desc.spec_reference() {
        Some(id) => ref_below(decls, rank, limit, id),
        None => true,
    }
}

/// Whether every declaration that `decl` refers to, as its parent or from
/// one of its fields, ranks below `limit`.
pub open spec fn decl_below<A: Annotation>(
    decls: Seq<Decl<A>>,
    rank: Seq<usize>,
    limit: int,
    decl: Decl<A>,
) -> bool {
    &&& match decl.spec_parent_id() {
        Some(id) => ref_below(decls, rank, limit, id),
        None => true,
    }
    &&& forall|k: int|
        0 <= k < decl.spec_fields().len() ==> field_below(
            decls,
            rank,
            limit,
            #[trigger] decl.spec_fields()[k],
        )
}

/// Whether `rank` orders the declarations so that each refers only to
/// declarations ranked strictly below it. Such a ranking exists only where
/// no declaration reaches itself.
pub open spec fn ranked<A: Annotation>(decls: Seq<Decl<A>>, rank: Seq<usize>) -> bool {
    &&& rank.len() == decls.len()
    &&& forall|i: int| 0 <= i < decls.len() ==> (#[trigger] rank[i]) < decls.len()
    &&& forall|i: int|
        0 <= i < decls.len() ==> decl_below(decls, rank, rank[i] as int, #[trigger] decls[i])
}

/// Whether every identifier resolves to the one declaration that bears it.
pub open spec fn unique_ids<A: Annotation>(decls: Seq<Decl<A>>) -> bool {
    forall|i: int|
        0 <= i < decls.len() ==> ((#[trigger] decls[i]).spec_id() matches Some(id) ==> lookup(
            decls,
            id,
        ) == Some(i))
}

/// The index of the declaration that `id` resolves to.
pub fn find<A: Annotation>(decls: &Vec<Decl<A>>, id: &String) -> (r: Option<usize>)
    ensures
        r matches Some(j) ==> j < decls@.len() && lookup(decls@, id@) == Some(j as int),
        r is None ==> lookup(decls@, id@) is None,
{
    let mut k: usize = 0;
    while k < decls.len()
        invariant
            0 <= k <= decls@.len(),
            lookup(decls@, id@) == lookup_from(decls@, id@, k as int),
        decreases decls@.len() - k,
    {
        match decls[k].id_string() {
            Some(other) => {
                if *other == *id {
                    return Some(k);
                }
            },
            None => {},
        }
        k += 1;
    }
    None
}

/// A change of the ranking that leaves every rank below `limit` as it was
/// keeps a declaration's references below `limit`.
proof fn lemma_below_frame<A: Annotation>(
    decls: Seq<Decl<A>>,
    rank: Seq<usize>,
    rank2: Seq<usize>,
    limit: int,
    decl: Decl<A>,
)
    requires
        decl_below(decls, rank, limit, decl),
        rank2.len() == rank.len(),
        forall|j: int| 0 <= j < rank.len() && rank[j] < limit ==> rank2[j] == rank[j],
    ensures
        decl_below(decls, rank2, limit, decl),
{
    assert forall|k: int| 0 <= k < decl.spec_fields().len() implies field_below(
        decls,
        rank2,
        limit,
        #[trigger] decl.spec_fields()[k],
    ) by {
        assert(field_below(decls, rank, limit, decl.spec_fields()[k]));
    }
}

/// Whether `id`, where it resolves, resolves to a declaration ranked below `limit`.
fn id_below<A: Annotation>(decls: &Vec<Decl<A>>, rank: &Vec<usize>, limit: usize, id: &String) -> (b:
    bool)
    requires
        rank@.len() == decls@.len(),
    ensures
        b == ref_below(decls@, rank@, limit as int, id@),
{
    match find(decls, id) {
        Some(j) => rank[j] < limit,
        None => true,
    }
}

/// Whether every declaration that `decl` refers to ranks below `limit`.
fn refs_below<A: Annotation>(
    decls: &Vec<Decl<A>>,
    rank: &Vec<usize>,
    limit: usize,
    decl: &Decl<A>,
) -> (b: bool)
    requires
        rank@.len() == decls@.len(),
    ensures
        b == decl_below(decls@, rank@, limit as int, *decl),
{
    match decl.parent_id_string() {
        Some(p) => {
            if !id_below(decls, rank, limit, p) {
                return false;
            }
        },
        None => {},
    }
    let fields = decl.fields();
    let mut k: usize = 0;
    while k < fields.len()
        invariant
            0 <= k <= fields@.len(),
            rank@.len() == decls@.len(),
            fields@ == decl.spec_fields(),
            forall|j: int|
                0 <= j < k ==> field_below(decls@, rank@, limit as int, #[trigger] fields@[j]),
        decreases fields@.len() - k,
    {
        match fields[k].desc.reference() {
            Some(id) => {
                if !id_below(decls, rank, limit, id) {
                    assert(!field_below(
                        decls@,
                        rank@,
                        limit as int,
                        decl.spec_fields()[k as int],
                    ));
                    return false;
                }
            },
            None => {},
        }
        k += 1;
    }
    true
}

/// The diagnostics for the first `n` declarations that bear an identifier
/// which resolves to another, earlier declaration: each names its own
/// range and, as context, the range of the earlier one.
pub open spec fn duplicates_among<A: Annotation>(decls: Seq<Decl<A>>, n: int) -> Seq<Diagnostic>
    decreases n,
{
    if n <= 0 || n > decls.len() {
        Seq::empty()
    } else {
        let rest = duplicates_among(decls, n - 1);
        match decls[n - 1].spec_id() {
            Some(id) => match lookup(decls, id) {
                Some(first) => if first != n - 1 && 0 <= first < decls.len() {
                    rest.push(
                        Diagnostic {
                            kind: DiagnosticKind::DuplicateIdentifier,
                            primary: decls[n - 1].loc,
                            secondary: Some(decls[first].loc),
                        },
                    )
                } else {
                    rest
                },
                None => rest,
            },
            None => rest,
        }
    }
}

/// The diagnostics for the first `n` declarations that cannot be ranked.
pub open spec fn unrankable_among<A: Annotation>(decls: Seq<Decl<A>>, n: int) -> Seq<Diagnostic>
    decreases n,
{
    if n <= 0 || n > decls.len() {
        Seq::empty()
    } else {
        let rest = unrankable_among(decls, n - 1);
        if rankable(decls, n - 1) {
            rest
        } else {
            rest.push(
                Diagnostic {
                    kind: DiagnosticKind::CyclicStructure,
                    primary: decls[n - 1].loc,
                    secondary: None,
                },
            )
        }
    }
}

/// One diagnostic for each declaration whose identifier an earlier
/// declaration already bears, in the order of the declarations.
pub fn duplicate_identifiers<A: Annotation>(decls: &Vec<Decl<A>>) -> (ds: Vec<Diagnostic>)
    ensures
        ds@ == duplicates_among(decls@, decls@.len() as int),
        ds@.len() == 0 <==> unique_ids(decls@),
{
    let mut ds: Vec<Diagnostic> = Vec::new();
    let mut i: usize = 0;
    while i < decls.len()
        invariant
            0 <= i <= decls@.len(),
            ds@.len() == 0 <==> forall|j: int|
                0 <= j < i ==> ((#[trigger] decls@[j]).spec_id() matches Some(id) ==> lookup(
                    decls@,
                    id,
                ) == Some(j)),
            ds@ == duplicates_among(decls@, i as int),
        decreases decls@.len() - i,
    {
        match decls[i].id_string() {
            Some(id) => {
                proof {
                    lemma_lookup_from(decls@, id@, 0);
                }
                match find(decls, id) {
                    Some(first) => {
                        if first != i {
                            ds.push(
                                Diagnostic {
                                    kind: DiagnosticKind::DuplicateIdentifier,
                                    primary: decls[i].loc,
                                    secondary: Some(decls[first].loc),
                                },
                            );
                        }
                    },
                    None => {},
                }
            },
            None => {},
        }
        i += 1;
    }
    ds
}

/// Whether the declarations can be ranked: no declaration reaches itself
/// through the identifiers that it and those it reaches refer to.
pub open spec fn acyclic<A: Annotation>(decls: Seq<Decl<A>>) -> bool {
    exists|rank: Seq<usize>| ranked(decls, rank)
}

/// Where one ranking puts the references of a declaration below `bound`,
/// and another ranking puts below `limit` everything that the first puts
/// below `bound`, the other puts those references below `limit`.
proof fn lemma_below_transfer<A: Annotation>(
    decls: Seq<Decl<A>>,
    witness: Seq<usize>,
    rank: Seq<usize>,
    bound: int,
    limit: int,
    decl: Decl<A>,
)
    requires
        decl_below(decls, witness, bound, decl),
        rank.len() == witness.len(),
        forall|j: int| 0 <= j < witness.len() && witness[j] < bound ==> (#[trigger] rank[j]) < limit,
    ensures
        decl_below(decls, rank, limit, decl),
{
    assert forall|k: int| 0 <= k < decl.spec_fields().len() implies field_below(
        decls,
        rank,
        limit,
        #[trigger] decl.spec_fields()[k],
    ) by {
        assert(field_below(decls, witness, bound, decl.spec_fields()[k]));
    }
}

/// Whether `rank` puts every declaration that it ranks, with a rank below
/// the number of declarations, above everything that the declaration
/// refers to.
pub open spec fn ranks_some<A: Annotation>(decls: Seq<Decl<A>>, rank: Seq<usize>) -> bool {
    &&& rank.len() == decls.len()
    &&& forall|i: int|
        0 <= i < decls.len() && (#[trigger] rank[i]) < decls.len() ==> decl_below(
            decls,
            rank,
            rank[i] as int,
            decls[i],
        )
}

/// Whether the declaration at `i` can be ranked: it does not reach a
/// declaration that reaches itself.
pub open spec fn rankable<A: Annotation>(decls: Seq<Decl<A>>, i: int) -> bool {
    exists|rank: Seq<usize>| #[trigger]
        ranks_some(decls, rank) && 0 <= i < rank.len() && rank[i] < decls.len()
}

/// Ranks the declarations: a declaration gets a rank below the number of
/// declarations once everything that it refers to has a smaller one. A
/// declaration that cannot be ranked keeps that number as its mark.
fn rank_declarations<A: Annotation>(decls: &Vec<Decl<A>>) -> (rank: Vec<usize>)
    ensures
        ranks_some(decls@, rank@),
        forall|i: int|
            0 <= i < decls@.len() ==> ((#[trigger] rank@[i]) < decls@.len() <==> rankable(decls@, i)),
{
    let n = decls.len();
    let mut rank: Vec<usize> = Vec::new();
    while rank.len() < n
        invariant
            n == decls@.len(),
            rank@.len() <= n,
            forall|i: int| 0 <= i < rank@.len() ==> (#[trigger] rank@[i]) == n,
        decreases n - rank@.len(),
    {
        rank.push(n);
    }
    let mut round: usize = 0;
    while round < n
        invariant
            n == decls@.len(),
            0 <= round <= n,
            ranks_some(decls@, rank@),
            forall|j: int| 0 <= j < n ==> (#[trigger] rank@[j]) < round || rank@[j] == n,
            forall|w: Seq<usize>, j: int|
                #![trigger ranks_some(decls@, w), w[j]]
                ranks_some(decls@, w) && 0 <= j < n && w[j] < round ==> rank@[j] < round,
        decreases n - round,
    {
        let mut i: usize = 0;
        while i < n
            invariant
                n == decls@.len(),
                0 <= round < n,
                0 <= i <= n,
                ranks_some(decls@, rank@),
                forall|j: int| 0 <= j < n ==> (#[trigger] rank@[j]) <= round || rank@[j] == n,
                forall|w: Seq<usize>, j: int|
                    #![trigger ranks_some(decls@, w), w[j]]
                    ranks_some(decls@, w) && 0 <= j < n && w[j] < round ==> rank@[j] < round,
                forall|w: Seq<usize>, j: int|
                    #![trigger ranks_some(decls@, w), w[j]]
                    ranks_some(decls@, w) && 0 <= j < i && w[j] <= round ==> rank@[j] <= round,
            decreases n - i,
        {
            let ghost before = rank@;
            let ghost due = exists|w: Seq<usize>| #[trigger]
                ranks_some(decls@, w) && w[i as int] <= round;
            proof {
                if due {
                    let w = choose|w: Seq<usize>| #[trigger]
                        ranks_some(decls@, w) && w[i as int] <= round;
                    assert(decl_below(decls@, w, w[i as int] as int, decls@[i as int]));
                    lemma_below_transfer(
                        decls@,
                        w,
                        before,
                        w[i as int] as int,
                        round as int,
                        decls@[i as int],
                    );
                }
            }
            if rank[i] == n && refs_below(decls, &rank, round, &decls[i]) {
                rank.set(i, round);
                proof {
                    assert forall|j: int| 0 <= j < n && (#[trigger] rank@[j]) < n implies decl_below(
                        decls@,
                        rank@,
                        rank@[j] as int,
                        decls@[j],
                    ) by {
                        if j == i {
                            lemma_below_frame(decls@, before, rank@, round as int, decls@[j]);
                        } else {
                            assert(before[j] < n);
                            lemma_below_frame(decls@, before, rank@, before[j] as int, decls@[j]);
                        }
                    }
                }
            }
            proof {
                assert(due ==> rank@[i as int] <= round);
                assert forall|w: Seq<usize>, j: int|
                    #![trigger ranks_some(decls@, w), w[j]]
                    ranks_some(decls@, w) && 0 <= j < i + 1 && w[j] <= round implies rank@[j]
                    <= round by {
                    if j < i {
                        assert(before[j] <= round);
                    }
                }
                assert forall|w: Seq<usize>, j: int|
                    #![trigger ranks_some(decls@, w), w[j]]
                    ranks_some(decls@, w) && 0 <= j < n && w[j] < round implies rank@[j]
                    < round by {
                    assert(before[j] < round);
                }
            }
            i += 1;
        }
        round += 1;
    }
    proof {
        assert forall|i: int| 0 <= i < n && rankable(decls@, i) implies (#[trigger] rank@[i]) < n by {
            let w = choose|w: Seq<usize>| #[trigger]
                ranks_some(decls@, w) && 0 <= i < w.len() && w[i] < decls@.len();
            assert(ranks_some(decls@, w) && w[i] < round);
        }
    }
    rank
}

/// One diagnostic for each declaration that `rank` leaves unranked, in
/// the order of the declarations.
fn unranked<A: Annotation>(decls: &Vec<Decl<A>>, rank: &Vec<usize>) -> (ds: Vec<Diagnostic>)
    requires
        rank@.len() == decls@.len(),
        forall|i: int|
            0 <= i < decls@.len() ==> ((#[trigger] rank@[i]) < decls@.len() <==> rankable(decls@, i)),
    ensures
        ds@ == unrankable_among(decls@, decls@.len() as int),
        ds@.len() == 0 <==> forall|i: int|
            0 <= i < decls@.len() ==> (#[trigger] rank@[i]) < decls@.len(),
{
    let mut ds: Vec<Diagnostic> = Vec::new();
    let mut i: usize = 0;
    while i < decls.len()
        invariant
            0 <= i <= decls@.len(),
            rank@.len() == decls@.len(),
            forall|i: int|
                0 <= i < decls@.len() ==> ((#[trigger] rank@[i]) < decls@.len() <==> rankable(
                    decls@,
                    i,
                )),
            ds@ == unrankable_among(decls@, i as int),
            ds@.len() == 0 <==> forall|j: int| 0 <= j < i ==> (#[trigger] rank@[j]) < decls@.len(),
        decreases decls@.len() - i,
    {
        if rank[i] >= decls.len() {
            ds.push(
                Diagnostic {
                    kind: DiagnosticKind::CyclicStructure,
                    primary: decls[i].loc,
                    secondary: None,
                },
            );
        }
        i += 1;
    }
    ds
}

/// The parent of the declaration at `i`, where it has one that resolves.
pub open spec fn parent_of<A: Annotation>(decls: Seq<Decl<A>>, i: int) -> Option<int> {
    if 0 <= i < decls.len() {
        match decls[i].spec_parent_id() {
            Some(id) => lookup(decls, id),
            None => None,
        }
    } else {
        None
    }
}

/// The ancestor of the declaration at `i` that stands `n` parents up.
pub open spec fn ancestor_of<A: Annotation>(decls: Seq<Decl<A>>, i: int, n: nat) -> Option<int>
    decreases n,
{
    if n == 0 {
        Some(i)
    } else {
        match ancestor_of(decls, i, (n - 1) as nat) {
            Some(j) => parent_of(decls, j),
            None => None,
        }
    }
}

/// Where the declarations are ranked, every ancestor of a declaration
/// ranks strictly below it, so that no declaration is its own ancestor:
/// a file with a cycle of parents has no ranking.
pub proof fn lemma_ancestors_rank_below<A: Annotation>(
    decls: Seq<Decl<A>>,
    rank: Seq<usize>,
    i: int,
    n: nat,
)
    requires
        ranked(decls, rank),
        0 <= i < decls.len(),
        n > 0,
    ensures
        ancestor_of(decls, i, n) matches Some(j) ==> 0 <= j < decls.len() && rank[j] < rank[i],
        ancestor_of(decls, i, n) != Some(i),
    decreases n,
{
    if n == 1 {
        assert(ancestor_of(decls, i, 0) == Some(i));
        assert(decl_below(decls, rank, rank[i] as int, decls[i]));
    } else {
        lemma_ancestors_rank_below(decls, rank, i, (n - 1) as nat);
        match ancestor_of(decls, i, (n - 1) as nat) {
            Some(j) => {
                assert(decl_below(decls, rank, rank[j] as int, decls[j]));
            },
            None => {},
        }
    }
}

/// Whether `id`, where there is one, is the identifier of a declaration.
pub open spec fn resolves<A: Annotation>(decls: Seq<Decl<A>>, id: Option<Seq<char>>) -> bool {
    id matches Some(name) ==> lookup(decls, name) is Some
}

/// Whether the parent of `decl` and what its fields refer to are declared.
pub open spec fn decl_resolved<A: Annotation>(decls: Seq<Decl<A>>, decl: Decl<A>) -> bool {
    &&& resolves(decls, decl.spec_parent_id())
    &&& forall|k: int|
        0 <= k < decl.spec_fields().len() ==> resolves(
            decls,
            (#[trigger] decl.spec_fields()[k]).desc.spec_reference(),
        )
}

/// Whether every reference in `decls` is to a declaration among them.
pub open spec fn all_resolved<A: Annotation>(decls: Seq<Decl<A>>) -> bool {
    forall|i: int| 0 <= i < decls.len() ==> decl_resolved(decls, #[trigger] decls[i])
}

/// The diagnostic for a reference at `loc` to an identifier that no
/// declaration bears.
pub open spec fn unresolved_at(loc: SourceRange) -> Diagnostic {
    Diagnostic { kind: DiagnosticKind::UnresolvedReference, primary: loc, secondary: None }
}

/// The diagnostics for the first `n` of `fields` that refer to an
/// identifier which no declaration bears, each at the range of its field.
pub open spec fn unresolved_in_fields<A: Annotation>(
    decls: Seq<Decl<A>>,
    fields: Seq<Field<A>>,
    n: int,
) -> Seq<Diagnostic>
    decreases n,
{
    if n <= 0 || n > fields.len() {
        Seq::empty()
    } else {
        let rest = unresolved_in_fields(decls, fields, n - 1);
        if resolves(decls, fields[n - 1].desc.spec_reference()) {
            rest
        } else {
            rest.push(unresolved_at(fields[n - 1].loc))
        }
    }
}

/// The diagnostics for `decl`: one at its own range where its parent is
/// not declared, then those for its fields.
pub open spec fn unresolved_in_decl<A: Annotation>(decls: Seq<Decl<A>>, decl: Decl<A>) -> Seq<
    Diagnostic,
> {
    let parent = if resolves(decls, decl.spec_parent_id()) {
        Seq::empty()
    } else {
        seq![unresolved_at(decl.loc)]
    };
    parent + unresolved_in_fields(decls, decl.spec_fields(), decl.spec_fields().len() as int)
}

/// The diagnostics for the first `n` declarations, in their order.
pub open spec fn unresolved_among<A: Annotation>(decls: Seq<Decl<A>>, n: int) -> Seq<Diagnostic>
    decreases n,
{
    if n <= 0 || n > decls.len() {
        Seq::empty()
    } else {
        unresolved_among(decls, n - 1) + unresolved_in_decl(decls, decls[n - 1])
    }
}

/// One diagnostic for the parent of `decl` where it is not declared, and
/// one for each of its fields that refers to what is not declared.
fn unresolved_in<A: Annotation>(decls: &Vec<Decl<A>>, decl: &Decl<A>) -> (ds: Vec<Diagnostic>)
    ensures
        ds@ == unresolved_in_decl(decls@, *decl),
        ds@.len() == 0 <==> decl_resolved(decls@, *decl),
{
    let mut ds: Vec<Diagnostic> = Vec::new();
    match decl.parent_id_string() {
        Some(p) => {
            if find(decls, p).is_none() {
                ds.push(
                    Diagnostic {
                        kind: DiagnosticKind::UnresolvedReference,
                        primary: decl.loc,
                        secondary: None,
                    },
                );
            }
        },
        None => {},
    }
    let ghost parent = ds@;
    assert(parent =~= if resolves(decls@, decl.spec_parent_id()) {
        Seq::<Diagnostic>::empty()
    } else {
        seq![unresolved_at(decl.loc)]
    });
    let fields = decl.fields();
    let mut k: usize = 0;
    assert(ds@ =~= parent + unresolved_in_fields(decls@, fields@, 0));
    while k < fields.len()
        invariant
            0 <= k <= fields@.len(),
            fields@ == decl.spec_fields(),
            parent.len() == 0 <==> resolves(decls@, decl.spec_parent_id()),
            ds@ == parent + unresolved_in_fields(decls@, fields@, k as int),
            ds@.len() == 0 <==> (resolves(decls@, decl.spec_parent_id()) && forall|j: int|
                0 <= j < k ==> resolves(
                    decls@,
                    (#[trigger] decl.spec_fields()[j]).desc.spec_reference(),
                )),
        decreases fields@.len() - k,
    {
        let ghost before = unresolved_in_fields(decls@, fields@, k as int);
        match fields[k].desc.reference() {
            Some(id) => {
                if find(decls, id).is_none() {
                    ds.push(
                        Diagnostic {
                            kind: DiagnosticKind::UnresolvedReference,
                            primary: fields[k].loc,
                            secondary: None,
                        },
                    );
                    assert(ds@ =~= parent + before.push(unresolved_at(fields@[k as int].loc)));
                }
            },
            None => {},
        }
        k += 1;
    }
    ds
}

/// The symbol table of one file. It borrows the file that it indexes, and
/// holds a ranking that witnesses that no declaration reaches itself.
pub struct Scope<'d, A: Annotation> {
    file: &'d File<A>,
    rank: Vec<usize>,
}

impl<'d, A: Annotation> Scope<'d, A> {
    /// The declarations that the scope indexes.
    pub closed spec fn decls(&self) -> Seq<Decl<A>> {
        self.file.declarations@
    }

    /// The rank of each declaration.
    pub closed spec fn rank(&self) -> Seq<usize> {
        self.rank@
    }

    /// The file that the scope was built over.
    pub closed spec fn spec_file(&self) -> File<A> {
        *self.file
    }

    /// What holds of every scope: identifiers are unique, and references
    /// lead strictly down the ranking.
    #[verifier::type_invariant]
    pub open spec fn wf(&self) -> bool {
        &&& self.decls() == self.spec_file().declarations@
        &&& unique_ids(self.decls())
        &&& ranked(self.decls(), self.rank())
    }

    /// The index of the declaration that `id` resolves to.
    pub open spec fn spec_index_of(&self, id: Seq<char>) -> Option<int> {
        lookup(self.decls(), id)
    }

    /// Builds the scope of `file`. It fails with one diagnostic for each
    /// declaration that repeats an identifier, or else with one for each
    /// declaration that could not be ranked below everything it refers to.
    pub fn new(file: &'d File<A>) -> (r: Result<Scope<'d, A>, Vec<Diagnostic>>)
        ensures
            match r {
                Ok(scope) => scope.wf() && scope.spec_file() == *file,
                Err(ds) => {
                    &&& ds@.len() > 0
                    &&& ds@ == if unique_ids(file.declarations@) {
                        unrankable_among(file.declarations@, file.declarations@.len() as int)
                    } else {
                        duplicates_among(file.declarations@, file.declarations@.len() as int)
                    }
                },
            },
            r is Ok <==> unique_ids(file.declarations@) && acyclic(file.declarations@),
            (exists|i: int, n: nat|
                0 <= i < file.declarations@.len() && n > 0 && ancestor_of(file.declarations@, i, n)
                    == Some(i)) ==> r is Err,
    {
        let decls = &file.declarations;
        let duplicates = duplicate_identifiers(decls);
        if duplicates.len() > 0 {
            return Err(duplicates);
        }
        let rank = rank_declarations(decls);
        let cycles = unranked(decls, &rank);
        proof {
            if acyclic(decls@) {
                let witness = choose|witness: Seq<usize>| ranked(decls@, witness);
                assert(ranks_some(decls@, witness));
                assert forall|i: int| 0 <= i < decls@.len() implies (#[trigger] rank@[i])
                    < decls@.len() by {
                    assert(witness[i] < decls@.len());
                    assert(rankable(decls@, i));
                }
            }
        }
        if cycles.len() > 0 {
            return Err(cycles);
        }
        proof {
            assert(ranked(decls@, rank@));
            assert forall|i: int, n: nat|
                0 <= i < decls@.len() && n > 0 implies ancestor_of(decls@, i, n) != Some(i) by {
                lemma_ancestors_rank_below(decls@, rank@, i, n);
            }
        }
        Ok(Scope { file, rank })
    }

    /// Builds the scope of `file` and checks its references: the scope of
    /// a file that may go on to code generation, or else the diagnostics
    /// of the first check that found any.
    pub fn validated(file: &'d File<A>) -> (r: Result<Scope<'d, A>, Vec<Diagnostic>>)
        ensures
            r is Ok <==> unique_ids(file.declarations@) && acyclic(file.declarations@)
                && all_resolved(file.declarations@),
            match r {
                Ok(scope) => scope.wf() && scope.spec_file() == *file,
                Err(ds) => {
                    &&& ds@.len() > 0
                    &&& ds@ == if !unique_ids(file.declarations@) {
                        duplicates_among(file.declarations@, file.declarations@.len() as int)
                    } else if !acyclic(file.declarations@) {
                        unrankable_among(file.declarations@, file.declarations@.len() as int)
                    } else {
                        unresolved_among(file.declarations@, file.declarations@.len() as int)
                    }
                },
            },
    {
        match Scope::new(file) {
            Ok(scope) => {
                let unresolved = scope.unresolved_references();
                if unresolved.len() > 0 {
                    Err(unresolved)
                } else {
                    Ok(scope)
                }
            },
            Err(ds) => Err(ds),
        }
    }

    /// One diagnostic for each parent and for each field whose reference
    /// is to no declaration of the file, in the order of the file. The
    /// range is that of the declaration for a parent, of the field else.
    pub fn unresolved_references(&self) -> (ds: Vec<Diagnostic>)
        ensures
            ds@ == unresolved_among(self.decls(), self.decls().len() as int),
            ds@.len() == 0 <==> all_resolved(self.decls()),
    {
        let decls = &self.file.declarations;
        let mut ds: Vec<Diagnostic> = Vec::new();
        let mut i: usize = 0;
        while i < decls.len()
            invariant
                0 <= i <= decls@.len(),
                decls@ == self.decls(),
                ds@ == unresolved_among(decls@, i as int),
                ds@.len() == 0 <==> forall|j: int|
                    0 <= j < i ==> decl_resolved(decls@, #[trigger] decls@[j]),
            decreases decls@.len() - i,
        {
            let mut part = unresolved_in(decls, &decls[i]);
            ds.append(&mut part);
            i += 1;
        }
        ds
    }

    /// The file that the scope was built over.
    pub fn file(&self) -> (r: &'d File<A>)
        ensures
            *r == self.spec_file(),
    {
        self.file
    }

    /// The declaration that `id` resolves to.
    pub fn get(&self, id: &str) -> (r: Option<&'d Decl<A>>)
        ensures
            match self.spec_index_of(id@) {
                Some(j) => 0 <= j < self.decls().len() && r == Some(&self.decls()[j]),
                None => r is None,
            },
    {
        let key = id.to_owned();
        self.get_by(&key)
    }

    /// The declaration that `id` resolves to.
    pub fn get_by(&self, id: &String) -> (r: Option<&'d Decl<A>>)
        ensures
            match self.spec_index_of(id@) {
                Some(j) => 0 <= j < self.decls().len() && r == Some(&self.decls()[j]),
                None => r is None,
            },
    {
        match find(&self.file.declarations, id) {
            Some(j) => Some(&self.file.declarations[j]),
            None => None,
        }
    }
}

} // verus!
