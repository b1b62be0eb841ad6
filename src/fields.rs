//! Collecting the field annotations of one type, in declaration order.

use vstd::prelude::*;
use crate::error::{AnnotationKind, PayloadError};
use crate::grammar::{field_from, field_slots, first_misfit, conforms, FieldAttr, FieldGrammar, Token};

verus! {

/// An annotation as written on a type or a field: its name and the tokens
/// of its argument list.
#[derive(Debug, Clone, PartialEq, Eq)]
pub struct Annotation {
    pub name: String,
    pub tokens: Vec<Token>,
}

/// A field of a type definition. `name` is `None` for a positional field.
#[derive(Debug, Clone, PartialEq, Eq)]
pub struct FieldDef {
    pub name: Option<String>,
    pub annotations: Vec<Annotation>,
}

/// What one field annotation says about its field.
#[derive(Debug, Clone, PartialEq, Eq)]
pub struct FieldDescriptor {
    pub name: String,
    pub description: Option<String>,
    pub example: String,
}

pub open spec fn is_field_annotation(a: Annotation) -> bool {
    a.name@ == "field"@
}

/// The descriptor, or the error, that the annotations `anns` of field `f`
/// (at position `index`) give, scanned in order: at most one descriptor, since
/// a later field annotation on the same field replaces an earlier one.
pub open spec fn field_descriptors(
    g: FieldGrammar,
    f: FieldDef,
    index: int,
    anns: Seq<Annotation>,
) -> Result<Seq<FieldDescriptor>, PayloadError>
    decreases anns.len(),
{
    if anns.len() == 0 {
        Ok(Seq::empty())
    } else {
        match field_descriptors(g, f, index, anns.drop_last()) {
            Err(e) => Err(e),
            Ok(ds) => {
                let a = anns.last();
                if !is_field_annotation(a) {
                    Ok(ds)
                } else {
                    match f.name {
                        None => Err(PayloadError::MissingFieldName { index: index as usize }),
                        Some(n) => if conforms(a.tokens@, field_slots(g)) {
                            let v = field_from(g, a.tokens@);
                            Ok(
                                seq![
                                    FieldDescriptor {
                                        name: n,
                                        description: v.description,
                                        example: v.example,
                                    },
                                ],
                            )
                        } else {
                            Err(
                                PayloadError::MalformedAttribute {
                                    owner: n,
                                    kind: AnnotationKind::Field,
                                    at: first_misfit(a.tokens@, field_slots(g)) as usize,
                                },
                            )
                        },
                    }
                }
            },
        }
    }
}

/// The descriptors of all the fields, one for each field that carries a field
/// annotation, in declaration order, or the first error met.
pub open spec fn collected(g: FieldGrammar, fields: Seq<FieldDef>) -> Result<
    Seq<FieldDescriptor>,
    PayloadError,
>
    decreases fields.len(),
{
    if fields.len() == 0 {
        Ok(Seq::empty())
    } else {
        match collected(g, fields.drop_last()) {
            Err(e) => Err(e),
            Ok(ds) => match field_descriptors(
                g,
                fields.last(),
                fields.len() - 1,
                fields.last().annotations@,
            ) {
                Err(e) => Err(e),
                Ok(more) => Ok(ds + more),
            },
        }
    }
}

/// Once a prefix of a field's annotations fails, the whole list fails the same way.
proof fn lemma_field_error_persists(
    g: FieldGrammar,
    f: FieldDef,
    index: int,
    anns: Seq<Annotation>,
    k: int,
)
    requires
        0 <= k <= anns.len(),
        field_descriptors(g, f, index, anns.take(k)) is Err,
    ensures
        field_descriptors(g, f, index, anns) == field_descriptors(g, f, index, anns.take(k)),
    decreases anns.len(),
{
    if k < anns.len() {
        assert(anns.drop_last().take(k) =~= anns.take(k));
        lemma_field_error_persists(g, f, index, anns.drop_last(), k);
    } else {
        assert(anns.take(k) =~= anns);
    }
}

/// An error at annotation `j` of field `i`, after clean prefixes, is the
/// error of the whole collection.
proof fn self_fail_at(g: FieldGrammar, fields: Seq<FieldDef>, i: int, j: int)
    requires
        0 <= i < fields.len(),
        0 <= j < fields[i].annotations@.len(),
        collected(g, fields.take(i)) is Ok,
        field_descriptors(g, fields[i], i, fields[i].annotations@.take(j)) is Ok,
        field_descriptors(g, fields[i], i, fields[i].annotations@.take(j + 1)) is Err,
    ensures
        collected(g, fields) == field_descriptors(
            g,
            fields[i],
            i,
            fields[i].annotations@.take(j + 1),
        ),
{
    let anns = fields[i].annotations@;
    lemma_field_error_persists(g, fields[i], i, anns, j + 1);
    assert(fields.take(i + 1).drop_last() =~= fields.take(i));
    assert(fields.take(i + 1).last() == fields[i]);
    lemma_collect_error_persists(g, fields, i + 1);
}

/// Once a prefix of the fields fails, all the fields fail the same way.
proof fn lemma_collect_error_persists(g: FieldGrammar, fields: Seq<FieldDef>, k: int)
    requires
        0 <= k <= fields.len(),
        collected(g, fields.take(k)) is Err,
    ensures
        collected(g, fields) == collected(g, fields.take(k)),
    decreases fields.len(),
{
    if k < fields.len() {
        assert(fields.drop_last().take(k) =~= fields.take(k));
        lemma_collect_error_persists(g, fields.drop_last(), k);
    } else {
        assert(fields.take(k) =~= fields);
    }
}

fn is_field(a: &Annotation) -> (r: bool)
    ensures
        r == is_field_annotation(*a),
{
    a.name == "field".to_string()
}

pub open spec fn as_seq(d: Option<FieldDescriptor>) -> Seq<FieldDescriptor> {
    match d {
        Some(d) => seq![d],
        None => Seq::empty(),
    }
}

/// Collects the descriptors of the annotated fields; a field without a
/// field annotation contributes nothing, and of several field annotations on
/// one field the last one counts.
pub fn collect_fields(fields: &Vec<FieldDef>, g: FieldGrammar) -> (r: Result<
    Vec<FieldDescriptor>,
    PayloadError,
>)
    ensures
        r matches Ok(ds) ==> collected(g, fields@) == Ok::<_, PayloadError>(ds@),
        r matches Err(e) ==> collected(g, fields@) == Err::<Seq<FieldDescriptor>, _>(e),
{
    let mut out: Vec<FieldDescriptor> = Vec::new();
    let mut i: usize = 0;
    while i < fields.len()
        invariant
            0 <= i <= fields@.len(),
            collected(g, fields@.take(i as int)) == Ok::<_, PayloadError>(out@),
        decreases fields@.len() - i,
    {
        let f = &fields[i];
        let mut current: Option<FieldDescriptor> = None;
        let mut j: usize = 0;
        assert(f.annotations@.take(0) =~= Seq::<Annotation>::empty());
        while j < f.annotations.len()
            invariant
                0 <= i < fields@.len(),
                *f == fields@[i as int],
                0 <= j <= f.annotations@.len(),
                field_descriptors(g, *f, i as int, f.annotations@.take(j as int)) == Ok::<
                    _,
                    PayloadError,
                >(as_seq(current)),
                collected(g, fields@.take(i as int)) == Ok::<_, PayloadError>(out@),
            decreases f.annotations@.len() - j,
        {
            let a = &f.annotations[j];
            assert(f.annotations@.take(j + 1).drop_last() == f.annotations@.take(j as int));
            assert(f.annotations@.take(j + 1).last() == f.annotations@[j as int]);
            if is_field(a) {
                match &f.name {
                    None => {
                        proof {
                            self_fail_at(g, fields@, i as int, j as int);
                        }
                        return Err(PayloadError::MissingFieldName { index: i });
                    },
                    Some(n) => match FieldAttr::parse(&a.tokens, g) {
                        Ok(v) => {
                            current = Some(
                                FieldDescriptor {
                                    name: n.clone(),
                                    description: v.description,
                                    example: v.example,
                                },
                            );
                        },
                        Err(m) => {
                            proof {
                                self_fail_at(g, fields@, i as int, j as int);
                            }
                            return Err(
                                PayloadError::MalformedAttribute {
                                    owner: n.clone(),
                                    kind: AnnotationKind::Field,
                                    at: m.at,
                                },
                            );
                        },
                    },
                }
            }
            j = j + 1;
        }
        assert(f.annotations@.take(j as int) == f.annotations@);
        assert(fields@.take(i + 1).drop_last() == fields@.take(i as int));
        let ghost before = out@;
        match current {
            Some(d) => {
                out.push(d);
                assert(out@ =~= before + as_seq(current));
            },
            None => {
                assert(out@ =~= before + as_seq(current));
            },
        }
        i = i + 1;
    }
    assert(fields@.take(i as int) == fields@);
    Ok(out)
}

} // verus!
