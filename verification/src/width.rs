//! Bit-width resolution of fields and declarations against a scope, and
//! the classification of fields that rests on the scope.

use crate::ast::{Annotation, Decl, DeclDesc, Field, FieldDesc};
use crate::scope::{decl_below, field_below, lemma_lookup_from, lookup, ranked, ref_below, Scope};
use vstd::prelude::*;

verus! {

/// The sum of two widths, where both are known.
pub open spec fn opt_add(a: Option<nat>, b: Option<nat>) -> Option<nat> {
    match (a, b) {
        (Some(x), Some(y)) => Some(x + y),
        _ => None,
    }
}

/// A width as a machine word: one that does not fit counts as not known.
pub open spec fn clip(w: Option<nat>) -> Option<usize> {
    match w {
        Some(x) => if x <= usize::MAX {
            Some(x as usize)
        } else {
            None
        },
        None => None,
    }
}

/// The width of a machine word, as a natural number.
pub open spec fn unclip(w: Option<usize>) -> Option<nat> {
    match w {
        Some(x) => Some(x as nat),
        None => None,
    }
}

/// The width in bits of the declaration that `id` resolves to, as a machine
/// word. `limit` bounds the rank of that declaration; in a ranked scope
/// every reference stays below the rank of the declaration that makes it.
pub open spec fn ref_width<A: Annotation>(
    decls: Seq<Decl<A>>,
    rank: Seq<usize>,
    id: Seq<char>,
    limit: nat,
    skip_payload: bool,
) -> Option<nat>
    decreases limit, 0nat, 0nat,
{
    match lookup(decls, id) {
        Some(j) => if 0 <= j < decls.len() && j < rank.len() && rank[j] < limit {
            unclip(clip(decl_width(decls, rank, decls[j], rank[j] as nat, skip_payload)))
        } else {
            None
        },
        None => None,
    }
}

/// The width in bits of a field, where it is statically known.
///
/// A sized field has its declared width. A fixed enum field and a typedef
/// field have the width of the declaration they name. An array of known
/// count has that many times its element width, which is the declared one
/// or else that of its element type. A checksum field takes no room.
/// Payload, body and arrays of unknown count have no static width, but
/// count as empty when `skip_payload` is set. Padding and group fields
/// have none.
pub open spec fn field_width<A: Annotation>(
    decls: Seq<Decl<A>>,
    rank: Seq<usize>,
    desc: FieldDesc,
    limit: nat,
    skip_payload: bool,
) -> Option<nat>
    decreases limit, 0nat, 1nat,
{
    match desc {
        FieldDesc::Scalar { width, .. } => Some(width as nat),
        FieldDesc::Size { width, .. } => Some(width as nat),
        FieldDesc::Count { width, .. } => Some(width as nat),
        FieldDesc::ElementSize { width, .. } => Some(width as nat),
        FieldDesc::Reserved { width } => Some(width as nat),
        FieldDesc::FixedScalar { width, .. } => Some(width as nat),
        FieldDesc::FixedEnum { enum_id, .. } => ref_width(decls, rank, enum_id@, limit, false),
        FieldDesc::Typedef { type_id, .. } => ref_width(decls, rank, type_id@, limit, false),
        FieldDesc::Array { size: Some(count), width: Some(w), .. } => Some((w * count) as nat),
        FieldDesc::Array { size: Some(count), width: None, type_id: Some(t), .. } => match ref_width(
            decls,
            rank,
            t@,
            limit,
            false,
        ) {
            Some(w) => Some((w * count) as nat),
            None => None,
        },
        FieldDesc::Array { size: Some(_), width: None, type_id: None, .. } => None,
        FieldDesc::Array { size: None, .. } => if skip_payload {
            Some(0nat)
        } else {
            None
        },
        FieldDesc::Payload { .. } => if skip_payload {
            Some(0nat)
        } else {
            None
        },
        FieldDesc::Body => if skip_payload {
            Some(0nat)
        } else {
            None
        },
        FieldDesc::Checksum { .. } => Some(0nat),
        FieldDesc::Padding { .. } => None,
        FieldDesc::Group { .. } => None,
    }
}

/// The sum of the widths of `fields`, where each is known.
pub open spec fn fields_width<A: Annotation>(
    decls: Seq<Decl<A>>,
    rank: Seq<usize>,
    fields: Seq<Field<A>>,
    limit: nat,
    skip_payload: bool,
) -> Option<nat>
    decreases limit, 1nat, fields.len(),
{
    if fields.len() == 0 {
        Some(0nat)
    } else {
        opt_add(
            fields_width(decls, rank, fields.drop_last(), limit, skip_payload),
            field_width(decls, rank, fields.last().desc, limit, skip_payload),
        )
    }
}

/// The width of a packet or struct: the fixed prefix of its parent, if it
/// has one, and then its own fields.
pub open spec fn layout_width<A: Annotation>(
    decls: Seq<Decl<A>>,
    rank: Seq<usize>,
    parent_id: Option<Seq<char>>,
    fields: Seq<Field<A>>,
    limit: nat,
    skip_payload: bool,
) -> Option<nat>
    decreases limit, 1nat, fields.len() + 1,
{
    opt_add(
        match parent_id {
            Some(id) => ref_width(decls, rank, id, limit, true),
            None => Some(0nat),
        },
        fields_width(decls, rank, fields, limit, skip_payload),
    )
}

/// The width in bits of a declaration, where it is statically known.
///
/// An enum and a checksum have their declared width, a custom field has
/// one where it declares one, a packet or struct has the width of its
/// layout, and a group or test has none.
pub open spec fn decl_width<A: Annotation>(
    decls: Seq<Decl<A>>,
    rank: Seq<usize>,
    decl: Decl<A>,
    limit: nat,
    skip_payload: bool,
) -> Option<nat>
    decreases limit, 2nat, 0nat,
{
    match decl.desc {
        DeclDesc::Enum { width, .. } => Some(width as nat),
        DeclDesc::Checksum { width, .. } => Some(width as nat),
        DeclDesc::CustomField { width, .. } => unclip(width),
        DeclDesc::Packet { .. } => layout_width(
            decls,
            rank,
            decl.spec_parent_id(),
            decl.spec_fields(),
            limit,
            skip_payload,
        ),
        DeclDesc::Struct { .. } => layout_width(
            decls,
            rank,
            decl.spec_parent_id(),
            decl.spec_fields(),
            limit,
            skip_payload,
        ),
        DeclDesc::Group { .. } => None,
        DeclDesc::Test { .. } => None,
    }
}

/// The declaration that gives `desc` its type, where it names one that resolves.
pub open spec fn declaration_of<A: Annotation>(decls: Seq<Decl<A>>, desc: FieldDesc) -> Option<int> {
    match desc.spec_type_id() {
        Some(id) => lookup(decls, id),
        None => None,
    }
}

/// Whether a field takes part in the packing of adjacent bits: the sized
/// fields, both fixed forms, and a typedef of an enum.
pub open spec fn bitfield<A: Annotation>(decls: Seq<Decl<A>>, desc: FieldDesc) -> bool {
    match desc {
        FieldDesc::Size { .. } => true,
        FieldDesc::Count { .. } => true,
        FieldDesc::ElementSize { .. } => true,
        FieldDesc::FixedScalar { .. } => true,
        FieldDesc::FixedEnum { .. } => true,
        FieldDesc::Reserved { .. } => true,
        FieldDesc::Scalar { .. } => true,
        FieldDesc::Typedef { type_id, .. } => match lookup(decls, type_id@) {
            Some(j) => 0 <= j < decls.len() && decls[j].desc is Enum,
            None => false,
        },
        _ => false,
    }
}

/// The sum over a prefix of the fields is known where the sum over all of
/// them is, and is no larger.
proof fn lemma_fields_prefix<A: Annotation>(
    decls: Seq<Decl<A>>,
    rank: Seq<usize>,
    fields: Seq<Field<A>>,
    limit: nat,
    skip_payload: bool,
    k: int,
)
    requires
        0 <= k <= fields.len(),
        fields_width(decls, rank, fields, limit, skip_payload) is Some,
    ensures
        fields_width(decls, rank, fields.subrange(0, k), limit, skip_payload) is Some,
        fields_width(decls, rank, fields.subrange(0, k), limit, skip_payload).unwrap()
            <= fields_width(decls, rank, fields, limit, skip_payload).unwrap(),
    decreases fields.len(),
{
    if k == fields.len() {
        assert(fields.subrange(0, k) =~= fields);
    } else {
        lemma_fields_prefix(decls, rank, fields.drop_last(), limit, skip_payload, k);
        assert(fields.drop_last().subrange(0, k) =~= fields.subrange(0, k));
    }
}

/// Every reference ranks below the number of declarations.
proof fn lemma_ref_below_len<A: Annotation>(decls: Seq<Decl<A>>, rank: Seq<usize>, id: Seq<char>)
    requires
        ranked(decls, rank),
    ensures
        ref_below(decls, rank, decls.len() as int, id),
{
    lemma_lookup_from(decls, id, 0);
}

/// The width of the declaration that `id` resolves to, as a machine word.
fn ref_width_below<A: Annotation>(
    scope: &Scope<'_, A>,
    id: &String,
    skip_payload: bool,
    Ghost(limit): Ghost<nat>,
) -> (r: Option<usize>)
    requires
        scope.wf(),
        ref_below(scope.decls(), scope.rank(), limit as int, id@),
    ensures
        unclip(r) == ref_width(scope.decls(), scope.rank(), id@, limit, skip_payload),
    decreases limit, 0nat, 0nat,
{
    proof {
        lemma_lookup_from(scope.decls(), id@, 0);
    }
    match scope.get_by(id) {
        Some(decl) => {
            let ghost j = lookup(scope.decls(), id@).unwrap();
            decl.width_below(scope, skip_payload, Ghost(scope.rank()[j] as nat))
        },
        None => None,
    }
}

/// The width of a packet or struct with the parent `parent_id` and the
/// fields `fields`: the sum stops at the first term without a width.
fn layout_width_below<A: Annotation>(
    parent_id: Option<&String>,
    fields: &[Field<A>],
    scope: &Scope<'_, A>,
    skip_payload: bool,
    Ghost(limit): Ghost<nat>,
) -> (r: Option<usize>)
    requires
        scope.wf(),
        parent_id matches Some(id) ==> ref_below(scope.decls(), scope.rank(), limit as int, id@),
        forall|k: int|
            0 <= k < fields@.len() ==> field_below(
                scope.decls(),
                scope.rank(),
                limit as int,
                #[trigger] fields@[k],
            ),
    ensures
        r == clip(
            layout_width(
                scope.decls(),
                scope.rank(),
                match parent_id {
                    Some(id) => Some(id@),
                    None => None,
                },
                fields@,
                limit,
                skip_payload,
            ),
        ),
    decreases limit, 1nat, 0nat,
{
    let ghost decls = scope.decls();
    let ghost rank = scope.rank();
    let ghost all = fields_width(decls, rank, fields@, limit, skip_payload);
    let mut total: usize = match parent_id {
        None => 0,
        Some(id) => match ref_width_below(scope, id, true, Ghost(limit)) {
            Some(w) => w,
            None => {
                return None;
            },
        },
    };
    let ghost prefix = total as nat;
    let mut k: usize = 0;
    assert(fields@.subrange(0, 0) =~= Seq::<Field<A>>::empty());
    while k < fields.len()
        invariant
            0 <= k <= fields@.len(),
            scope.wf(),
            decls == scope.decls(),
            rank == scope.rank(),
            all == fields_width(decls, rank, fields@, limit, skip_payload),
            layout_width(
                decls,
                rank,
                match parent_id {
                    Some(id) => Some(id@),
                    None => None,
                },
                fields@,
                limit,
                skip_payload,
            ) == opt_add(Some(prefix), all),
            forall|k: int|
                0 <= k < fields@.len() ==> field_below(
                    decls,
                    rank,
                    limit as int,
                    #[trigger] fields@[k],
                ),
            opt_add(
                Some(prefix),
                fields_width(decls, rank, fields@.subrange(0, k as int), limit, skip_payload),
            ) == Some(total as nat),
        decreases fields@.len() - k,
    {
        let ghost next = fields@.subrange(0, k + 1);
        proof {
            assert(next.drop_last() =~= fields@.subrange(0, k as int));
            assert(next.last() == fields@[k as int]);
            if all is Some {
                lemma_fields_prefix(decls, rank, fields@, limit, skip_payload, k + 1);
            }
        }
        match fields[k].width_below(scope, skip_payload, Ghost(limit)) {
            None => {
                return None;
            },
            Some(w) => match total.checked_add(w) {
                None => {
                    return None;
                },
                Some(sum) => {
                    total = sum;
                },
            },
        }
        k += 1;
    }
    assert(fields@.subrange(0, k as int) =~= fields@);
    Some(total)
}

impl<A: Annotation> Field<A> {
    /// The width of a field whose reference ranks below `limit`.
    fn width_below(&self, scope: &Scope<'_, A>, skip_payload: bool, Ghost(limit): Ghost<nat>) -> (r:
        Option<usize>)
        requires
            scope.wf(),
            field_below(scope.decls(), scope.rank(), limit as int, *self),
        ensures
            r == clip(field_width(scope.decls(), scope.rank(), self.desc, limit, skip_payload)),
        decreases limit, 0nat, 1nat,
    {
        match &self.desc {
            FieldDesc::Scalar { width, .. } => Some(*width),
            FieldDesc::Size { width, .. } => Some(*width),
            FieldDesc::Count { width, .. } => Some(*width),
            FieldDesc::ElementSize { width, .. } => Some(*width),
            FieldDesc::Reserved { width } => Some(*width),
            FieldDesc::FixedScalar { width, .. } => Some(*width),
            FieldDesc::FixedEnum { enum_id, .. } => ref_width_below(
                scope,
                enum_id,
                false,
                Ghost(limit),
            ),
            FieldDesc::Typedef { type_id, .. } => ref_width_below(
                scope,
                type_id,
                false,
                Ghost(limit),
            ),
            FieldDesc::Array { size: Some(count), width, type_id, .. } => {
                let element = match width {
                    Some(w) => Some(*w),
                    None => match type_id {
                        Some(t) => ref_width_below(scope, t, false, Ghost(limit)),
                        None => None,
                    },
                };
                match element {
                    Some(w) => w.checked_mul(*count),
                    None => None,
                }
            },
            FieldDesc::Array { size: None, .. } => if skip_payload {
                Some(0)
            } else {
                None
            },
            FieldDesc::Payload { .. } => if skip_payload {
                Some(0)
            } else {
                None
            },
            FieldDesc::Body => if skip_payload {
                Some(0)
            } else {
                None
            },
            FieldDesc::Checksum { .. } => Some(0),
            FieldDesc::Padding { .. } => None,
            FieldDesc::Group { .. } => None,
        }
    }

    /// The width of the field in bits, where it is statically known and
    /// fits a machine word. With `skip_payload` set, payload, body and
    /// arrays of unknown count count as empty.
    pub fn width(&self, scope: &Scope<'_, A>, skip_payload: bool) -> (r: Option<usize>)
        ensures
            r == clip(
                field_width(
                    scope.decls(),
                    scope.rank(),
                    self.desc,
                    scope.decls().len(),
                    skip_payload,
                ),
            ),
    {
        proof {
            use_type_invariant(scope);
            match self.desc.spec_reference() {
                Some(id) => lemma_ref_below_len(scope.decls(), scope.rank(), id),
                None => {},
            }
        }
        self.width_below(scope, skip_payload, Ghost(scope.decls().len()))
    }

    /// The declaration that gives the field its type: the enum of a fixed
    /// enum field, the element type of an array that names one, the type
    /// of a typedef field.
    pub fn declaration<'a>(&self, scope: &Scope<'a, A>) -> (r: Option<&'a Decl<A>>)
        ensures
            match declaration_of(scope.decls(), self.desc) {
                Some(j) => 0 <= j < scope.decls().len() && r == Some(&scope.decls()[j]),
                None => r is None,
            },
    {
        match self.desc.type_id() {
            Some(id) => scope.get_by(id),
            None => None,
        }
    }

    /// Whether the field takes part in the packing of adjacent bits.
    pub fn is_bitfield(&self, scope: &Scope<'_, A>) -> (r: bool)
        ensures
            r == bitfield(scope.decls(), self.desc),
    {
        match &self.desc {
            FieldDesc::Size { .. } => true,
            FieldDesc::Count { .. } => true,
            FieldDesc::ElementSize { .. } => true,
            FieldDesc::FixedScalar { .. } => true,
            FieldDesc::FixedEnum { .. } => true,
            FieldDesc::Reserved { .. } => true,
            FieldDesc::Scalar { .. } => true,
            FieldDesc::Typedef { type_id, .. } => match scope.get_by(type_id) {
                Some(decl) => match &decl.desc {
                    DeclDesc::Enum { .. } => true,
                    _ => false,
                },
                None => false,
            },
            _ => false,
        }
    }
}

impl<A: Annotation> Decl<A> {
    /// The width of a declaration whose references rank below `limit`.
    fn width_below(&self, scope: &Scope<'_, A>, skip_payload: bool, Ghost(limit): Ghost<nat>) -> (r:
        Option<usize>)
        requires
            scope.wf(),
            decl_below(scope.decls(), scope.rank(), limit as int, *self),
        ensures
            r == clip(decl_width(scope.decls(), scope.rank(), *self, limit, skip_payload)),
        decreases limit, 2nat, 0nat,
    {
        match &self.desc {
            DeclDesc::Enum { width, .. } => Some(*width),
            DeclDesc::Checksum { width, .. } => Some(*width),
            DeclDesc::CustomField { width, .. } => *width,
            DeclDesc::Packet { .. } => layout_width_below(
                self.parent_id_string(),
                self.fields(),
                scope,
                skip_payload,
                Ghost(limit),
            ),
            DeclDesc::Struct { .. } => layout_width_below(
                self.parent_id_string(),
                self.fields(),
                scope,
                skip_payload,
                Ghost(limit),
            ),
            DeclDesc::Group { .. } => None,
            DeclDesc::Test { .. } => None,
        }
    }

    /// The width of the declaration in bits, where it is statically known
    /// and fits a machine word. With `skip_payload` set, payload, body and
    /// arrays of unknown count count as empty.
    pub fn width(&self, scope: &Scope<'_, A>, skip_payload: bool) -> (r: Option<usize>)
        ensures
            r == clip(
                decl_width(scope.decls(), scope.rank(), *self, scope.decls().len(), skip_payload),
            ),
    {
        proof {
            use_type_invariant(scope);
            match self.spec_parent_id() {
                Some(id) => lemma_ref_below_len(scope.decls(), scope.rank(), id),
                None => {},
            }
            assert forall|k: int| 0 <= k < self.spec_fields().len() implies field_below(
                scope.decls(),
                scope.rank(),
                scope.decls().len() as int,
                #[trigger] self.spec_fields()[k],
            ) by {
                match self.spec_fields()[k].desc.spec_reference() {
                    Some(id) => lemma_ref_below_len(scope.decls(), scope.rank(), id),
                    None => {},
                }
            }
        }
        self.width_below(scope, skip_payload, Ghost(scope.decls().len()))
    }
}

} // verus!
