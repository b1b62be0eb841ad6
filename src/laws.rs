//! Properties that hold across the parser, the collector and the builder.

use vstd::prelude::*;
use crate::document::{members_text, object_text, raw_members, raw_text, segments};
use crate::error::PayloadError;
use crate::fields::{collected, field_descriptors, is_field_annotation, Annotation, FieldDef, FieldDescriptor};
use crate::grammar::{
    conforms, endpoint_from, endpoint_slots, first_misfit, fits, misfit_from, EndpointAttr,
    FieldGrammar, Token,
};
use crate::payload::{endpoint_scan, failure, is_endpoint_annotation, TypeDef};

verus! {

/// Any non-empty method and path, written `method = "M", path = "P"`, conform
/// to the endpoint grammar and are read as exactly the endpoint `{M, P}`.
pub proof fn lemma_endpoint_read_back(method_key: String, path_key: String, m: String, p: String)
    requires
        method_key@ == "method"@,
        path_key@ == "path"@,
        m@.len() > 0,
        p@.len() > 0,
    ensures
        ({
            let toks = seq![
                Token::Ident(method_key),
                Token::Punct('='),
                Token::Str(m),
                Token::Punct(','),
                Token::Ident(path_key),
                Token::Punct('='),
                Token::Str(p),
            ];
            conforms(toks, endpoint_slots()) && endpoint_from(toks) == EndpointAttr {
                method: m,
                path: p,
            }
        }),
{
    let toks = seq![
        Token::Ident(method_key),
        Token::Punct('='),
        Token::Str(m),
        Token::Punct(','),
        Token::Ident(path_key),
        Token::Punct('='),
        Token::Str(p),
    ];
    assert forall|i: int| 0 <= i < toks.len() implies fits(
        #[trigger] toks[i],
        endpoint_slots()[i],
    ) by {
        assert(0 <= i < 7);
    }
}

/// `method = "V"` with no path is always rejected; for a non-empty `V`, at the
/// position where the `,` and the path should follow.
pub proof fn lemma_method_alone_rejected(method_key: String, v: String)
    requires
        method_key@ == "method"@,
    ensures
        ({
            let toks = seq![Token::Ident(method_key), Token::Punct('='), Token::Str(v)];
            &&& !conforms(toks, endpoint_slots())
            &&& v@.len() > 0 ==> first_misfit(toks, endpoint_slots()) == 3
        }),
{
    let toks = seq![Token::Ident(method_key), Token::Punct('='), Token::Str(v)];
    let slots = endpoint_slots();
    if v@.len() > 0 {
        assert(fits(toks[0], slots[0]) && fits(toks[1], slots[1]) && fits(toks[2], slots[2]));
        assert(misfit_from(toks, slots, 3) == 3);
        assert(misfit_from(toks, slots, 2) == 3);
        assert(misfit_from(toks, slots, 1) == 3);
    }
}

proof fn lemma_no_field_annotations(g: FieldGrammar, f: FieldDef, index: int, anns: Seq<Annotation>)
    requires
        forall|j: int| 0 <= j < anns.len() ==> !is_field_annotation(#[trigger] anns[j]),
    ensures
        field_descriptors(g, f, index, anns) == Ok::<_, PayloadError>(Seq::<FieldDescriptor>::empty()),
    decreases anns.len(),
{
    if anns.len() > 0 {
        lemma_no_field_annotations(g, f, index, anns.drop_last());
        assert(!is_field_annotation(anns[anns.len() - 1]));
    }
}

proof fn lemma_no_annotated_fields(g: FieldGrammar, fields: Seq<FieldDef>)
    requires
        forall|i: int, j: int|
            0 <= i < fields.len() && 0 <= j < fields[i].annotations@.len()
                ==> !is_field_annotation(#[trigger] fields[i].annotations@[j]),
    ensures
        collected(g, fields) == Ok::<_, PayloadError>(Seq::<FieldDescriptor>::empty()),
    decreases fields.len(),
{
    if fields.len() > 0 {
        lemma_no_annotated_fields(g, fields.drop_last());
        let last = fields.len() - 1;
        assert forall|j: int| 0 <= j < fields[last].annotations@.len() implies !is_field_annotation(
            #[trigger] fields[last].annotations@[j],
        ) by {}
        lemma_no_field_annotations(g, fields.last(), last, fields.last().annotations@);
        assert(Seq::<FieldDescriptor>::empty() + Seq::<FieldDescriptor>::empty() =~= Seq::<
            FieldDescriptor,
        >::empty());
    }
}

/// A type whose fields carry no field annotation has no descriptors, so,
/// given a well-formed endpoint, nothing stands in the way of its document,
/// and the body is the empty object `{}`.
pub proof fn lemma_unannotated_fields_give_empty_body(ty: TypeDef, g: FieldGrammar)
    requires
        forall|i: int, j: int|
            0 <= i < ty.fields@.len() && 0 <= j < ty.fields@[i].annotations@.len()
                ==> !is_field_annotation(#[trigger] ty.fields@[i].annotations@[j]),
    ensures
        collected(g, ty.fields@) == Ok::<_, PayloadError>(Seq::<FieldDescriptor>::empty()),
        endpoint_scan(ty.name, ty.annotations@) is Ok && endpoint_scan(
            ty.name,
            ty.annotations@,
        )->Ok_0 is Some ==> failure(ty, g) is None,
        raw_text(Seq::empty()) == "{}"@,
{
    lemma_no_annotated_fields(g, ty.fields@);
    assert(raw_members(Seq::empty()) =~= Seq::empty());
    assert(members_text(Seq::empty()) == Seq::<char>::empty());
    reveal_strlit("{");
    reveal_strlit("}");
    reveal_strlit("{}");
    assert(object_text(Seq::empty()) =~= "{}"@);
}

proof fn lemma_no_endpoint_annotations(owner: String, anns: Seq<Annotation>)
    requires
        forall|i: int| 0 <= i < anns.len() ==> !is_endpoint_annotation(#[trigger] anns[i]),
    ensures
        endpoint_scan(owner, anns) == Ok::<_, PayloadError>(None::<EndpointAttr>),
    decreases anns.len(),
{
    if anns.len() > 0 {
        lemma_no_endpoint_annotations(owner, anns.drop_last());
        assert(!is_endpoint_annotation(anns[anns.len() - 1]));
    }
}

/// A type with no endpoint annotation always fails with `MissingEndpoint`
/// naming the type, whatever its fields hold.
pub proof fn lemma_missing_endpoint(ty: TypeDef, g: FieldGrammar)
    requires
        forall|i: int|
            0 <= i < ty.annotations@.len() ==> !is_endpoint_annotation(
                #[trigger] ty.annotations@[i],
            ),
    ensures
        failure(ty, g) == Some(PayloadError::MissingEndpoint { owner: ty.name }),
{
    lemma_no_endpoint_annotations(ty.name, ty.annotations@);
}

/// The segments joined back with `/` between them.
pub open spec fn joined(segs: Seq<Seq<char>>) -> Seq<char>
    decreases segs.len(),
{
    if segs.len() <= 1 {
        if segs.len() == 1 {
            segs[0]
        } else {
            Seq::empty()
        }
    } else {
        joined(segs.drop_last()) + seq!['/'] + segs.last()
    }
}

/// Splitting a path loses nothing and adds nothing: there is at least one
/// segment, no segment holds a `/`, and joining the segments with `/` gives
/// the path back.
pub proof fn lemma_segments_rejoin(path: Seq<char>)
    ensures
        segments(path).len() >= 1,
        joined(segments(path)) == path,
        forall|i: int, j: int|
            0 <= i < segments(path).len() && 0 <= j < segments(path)[i].len()
                ==> #[trigger] segments(path)[i][j] != '/',
    decreases path.len(),
{
    if path.len() > 0 {
        let prev = segments(path.drop_last());
        lemma_segments_rejoin(path.drop_last());
        let segs = segments(path);
        if path.last() == '/' {
            assert(segs.drop_last() =~= prev);
            if prev.len() == 1 {
                assert(joined(segs) =~= prev[0] + seq!['/']);
            } else {
                assert(joined(segs) =~= joined(prev) + seq!['/']);
            }
            assert(path.drop_last() + seq!['/'] =~= path);
            assert forall|i: int, j: int|
                0 <= i < segs.len() && 0 <= j < segs[i].len() implies #[trigger] segs[i][j] != '/' by {
                if i < prev.len() {
                    assert(segs[i] == prev[i]);
                }
            }
        } else {
            let k = prev.len() - 1;
            assert(segs.drop_last() =~= prev.drop_last());
            if prev.len() == 1 {
                assert(joined(segs) == segs[0]);
                assert(joined(prev) == prev[0]);
            } else {
                assert(joined(segs) == joined(prev.drop_last()) + seq!['/'] + prev[k].push(path.last()));
                assert(joined(prev) == joined(prev.drop_last()) + seq!['/'] + prev[k]);
            }
            assert(joined(segs) =~= joined(prev).push(path.last()));
            assert(path.drop_last().push(path.last()) =~= path);
            assert forall|i: int, j: int|
                0 <= i < segs.len() && 0 <= j < segs[i].len() implies #[trigger] segs[i][j] != '/' by {
                if i < k {
                    assert(segs[i] == prev[i]);
                } else {
                    assert(segs[i] == prev[k].push(path.last()));
                    if j < prev[k].len() {
                        assert(segs[i][j] == prev[k][j]);
                    }
                }
            }
        }
    }
}

} // verus!
