//! What holds of width resolution whatever the declarations are.

use crate::ast::{Annotation, Decl, DeclDesc, Field, FieldDesc};
use crate::scope::{lookup, ranked};
use crate::width::{
    clip, decl_width, field_width, fields_width, layout_width, opt_add, ref_width, unclip,
};
use vstd::prelude::*;

verus! {

/// In a ranked scope a reference has the width of the declaration that it
/// resolves to, as a machine word, whatever limit at or above the number
/// of declarations it is asked with.
pub proof fn lemma_ref_width_resolved<A: Annotation>(
    decls: Seq<Decl<A>>,
    rank: Seq<usize>,
    id: Seq<char>,
    limit: nat,
    skip_payload: bool,
)
    requires
        ranked(decls, rank),
        limit >= decls.len(),
    ensures
        ref_width(decls, rank, id, limit, skip_payload) == match lookup(decls, id) {
            Some(j) => unclip(clip(decl_width(decls, rank, decls[j], rank[j] as nat, skip_payload))),
            None => None,
        },
{
    crate::scope::lemma_lookup_from(decls, id, 0);
}

/// A field whose width rests on a declaration that is not declared has no
/// width: a fixed enum field, a typedef field, and an array of known count
/// that declares no element width.
pub proof fn lemma_unresolved_field_has_no_width<A: Annotation>(
    decls: Seq<Decl<A>>,
    rank: Seq<usize>,
    desc: FieldDesc,
    limit: nat,
    skip_payload: bool,
)
    requires
        desc.spec_type_id() matches Some(id) && lookup(decls, id) is None,
        desc is FixedEnum || desc is Typedef || (desc matches FieldDesc::Array {
            size: Some(_),
            width: None,
            ..
        }),
    ensures
        field_width(decls, rank, desc, limit, skip_payload) is None,
{
}

/// A packet or struct whose parent is not declared has no width.
pub proof fn lemma_unresolved_parent_has_no_width<A: Annotation>(
    decls: Seq<Decl<A>>,
    rank: Seq<usize>,
    decl: Decl<A>,
    limit: nat,
    skip_payload: bool,
)
    requires
        decl.spec_parent_id() matches Some(id) && lookup(decls, id) is None,
    ensures
        decl_width(decls, rank, decl, limit, skip_payload) is None,
{
}

/// A field with a width has the same width when payloads are skipped.
pub proof fn lemma_field_width_skipping<A: Annotation>(
    decls: Seq<Decl<A>>,
    rank: Seq<usize>,
    desc: FieldDesc,
    limit: nat,
)
    ensures
        field_width(decls, rank, desc, limit, false) matches Some(w) ==> field_width(
            decls,
            rank,
            desc,
            limit,
            true,
        ) == Some(w),
{
}

/// Fields whose widths sum up have the same sum when payloads are skipped.
pub proof fn lemma_fields_width_skipping<A: Annotation>(
    decls: Seq<Decl<A>>,
    rank: Seq<usize>,
    fields: Seq<Field<A>>,
    limit: nat,
)
    ensures
        fields_width(decls, rank, fields, limit, false) matches Some(w) ==> fields_width(
            decls,
            rank,
            fields,
            limit,
            true,
        ) == Some(w),
    decreases fields.len(),
{
    if fields.len() > 0 {
        lemma_fields_width_skipping(decls, rank, fields.drop_last(), limit);
        lemma_field_width_skipping(decls, rank, fields.last().desc, limit);
    }
}

/// A declaration with a width has the same width when payloads are
/// skipped: skipping only gives a width to what had none.
pub proof fn lemma_decl_width_skipping<A: Annotation>(
    decls: Seq<Decl<A>>,
    rank: Seq<usize>,
    decl: Decl<A>,
    limit: nat,
)
    ensures
        decl_width(decls, rank, decl, limit, false) matches Some(w) ==> decl_width(
            decls,
            rank,
            decl,
            limit,
            true,
        ) == Some(w),
{
    lemma_fields_width_skipping(decls, rank, decl.spec_fields(), limit);
}

/// Appending a field adds its width to the sum. A payload, a body or an
/// array of unknown count that is appended leaves the sum without a
/// width, and unchanged when payloads are skipped.
pub proof fn lemma_fields_width_push<A: Annotation>(
    decls: Seq<Decl<A>>,
    rank: Seq<usize>,
    fields: Seq<Field<A>>,
    field: Field<A>,
    limit: nat,
    skip_payload: bool,
)
    ensures
        fields_width(decls, rank, fields.push(field), limit, skip_payload) == opt_add(
            fields_width(decls, rank, fields, limit, skip_payload),
            field_width(decls, rank, field.desc, limit, skip_payload),
        ),
        (field.desc is Payload || field.desc is Body || (field.desc matches FieldDesc::Array {
            size: None,
            ..
        })) ==> fields_width(decls, rank, fields.push(field), limit, false) is None
            && fields_width(decls, rank, fields.push(field), limit, true) == fields_width(
            decls,
            rank,
            fields,
            limit,
            true,
        ),
{
    let pushed = fields.push(field);
    assert(pushed.drop_last() =~= fields);
    assert(pushed.last() == field);
    assert(fields_width(decls, rank, pushed, limit, false) == opt_add(
        fields_width(decls, rank, fields, limit, false),
        field_width(decls, rank, field.desc, limit, false),
    ));
    assert(fields_width(decls, rank, pushed, limit, true) == opt_add(
        fields_width(decls, rank, fields, limit, true),
        field_width(decls, rank, field.desc, limit, true),
    ));
}

/// A packet or struct without a parent is as wide as its fields; one with
/// a parent adds the parent's width with payloads skipped.
pub proof fn lemma_layout_width<A: Annotation>(
    decls: Seq<Decl<A>>,
    rank: Seq<usize>,
    decl: Decl<A>,
    limit: nat,
    skip_payload: bool,
)
    requires
        decl.desc is Packet || decl.desc is Struct,
    ensures
        decl.spec_parent_id() is None ==> decl_width(decls, rank, decl, limit, skip_payload)
            == fields_width(decls, rank, decl.spec_fields(), limit, skip_payload),
        decl.spec_parent_id() matches Some(id) ==> decl_width(
            decls,
            rank,
            decl,
            limit,
            skip_payload,
        ) == opt_add(
            ref_width(decls, rank, id, limit, true),
            fields_width(decls, rank, decl.spec_fields(), limit, skip_payload),
        ),
{
    let fields = fields_width(decls, rank, decl.spec_fields(), limit, skip_payload);
    assert(layout_width(decls, rank, decl.spec_parent_id(), decl.spec_fields(), limit, skip_payload)
        == opt_add(
        match decl.spec_parent_id() {
            Some(id) => ref_width(decls, rank, id, limit, true),
            None => Some(0nat),
        },
        fields,
    ));
}

/// Fields that say the same have the same width: rebuilding a field for
/// another phase does not change what it measures.
pub proof fn lemma_same_field_same_width<A: Annotation>(
    decls: Seq<Decl<A>>,
    rank: Seq<usize>,
    desc: FieldDesc,
    other: FieldDesc,
    limit: nat,
    skip_payload: bool,
)
    requires
        desc.same_as(other),
    ensures
        field_width(decls, rank, desc, limit, skip_payload) == field_width(
            decls,
            rank,
            other,
            limit,
            skip_payload,
        ),
{
}

/// An array of known count with a declared element width is as wide as
/// count times that width, whatever type it names.
pub proof fn lemma_array_width<A: Annotation>(
    decls: Seq<Decl<A>>,
    rank: Seq<usize>,
    desc: FieldDesc,
    limit: nat,
    skip_payload: bool,
)
    requires
        desc matches FieldDesc::Array { size: Some(_), width: Some(_), .. },
    ensures
        desc matches FieldDesc::Array { size: Some(count), width: Some(w), .. } && field_width(
            decls,
            rank,
            desc,
            limit,
            skip_payload,
        ) == Some((w * count) as nat),
{
}

} // verus!
