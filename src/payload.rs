//! From one annotated type definition to its collection document.

use vstd::prelude::*;
use crate::document::{build_collection, describes, raw_text, render_raw};
use crate::error::{AnnotationKind, PayloadError};
use crate::fields::{collect_fields, collected, Annotation, FieldDef};
use crate::grammar::{conforms, endpoint_from, endpoint_slots, first_misfit, EndpointAttr, FieldGrammar};
use crate::postman::Collection;

verus! {

/// A type definition as the host language's introspection hands it over:
/// its name, its own annotations, and its fields in declaration order.
#[derive(Debug, Clone, PartialEq, Eq)]
pub struct TypeDef {
    pub name: String,
    pub annotations: Vec<Annotation>,
    pub fields: Vec<FieldDef>,
}

pub open spec fn is_endpoint_annotation(a: Annotation) -> bool {
    a.name@ == "endpoint"@
}

/// The endpoint that the annotations `anns` of type `owner` declare, scanned
/// in order: a later endpoint annotation replaces an earlier one, and the
/// first malformed one is an error.
pub open spec fn endpoint_scan(owner: String, anns: Seq<Annotation>) -> Result<
    Option<EndpointAttr>,
    PayloadError,
>
    decreases anns.len(),
{
    if anns.len() == 0 {
        Ok(None)
    } else {
        match endpoint_scan(owner, anns.drop_last()) {
            Err(e) => Err(e),
            Ok(found) => {
                let a = anns.last();
                if !is_endpoint_annotation(a) {
                    Ok(found)
                } else if conforms(a.tokens@, endpoint_slots()) {
                    Ok(Some(endpoint_from(a.tokens@)))
                } else {
                    Err(
                        PayloadError::MalformedAttribute {
                            owner,
                            kind: AnnotationKind::Endpoint,
                            at: first_misfit(a.tokens@, endpoint_slots()) as usize,
                        },
                    )
                }
            },
        }
    }
}

/// The error that the annotations of `ty` call for, if any: first the
/// endpoint (malformed, then missing), then the fields.
pub open spec fn failure(ty: TypeDef, g: FieldGrammar) -> Option<PayloadError> {
    match endpoint_scan(ty.name, ty.annotations@) {
        Err(e) => Some(e),
        Ok(None) => Some(PayloadError::MissingEndpoint { owner: ty.name }),
        Ok(Some(_)) => match collected(g, ty.fields@) {
            Err(e) => Some(e),
            Ok(_) => None,
        },
    }
}

proof fn lemma_scan_error_persists(owner: String, anns: Seq<Annotation>, k: int)
    requires
        0 <= k <= anns.len(),
        endpoint_scan(owner, anns.take(k)) is Err,
    ensures
        endpoint_scan(owner, anns) == endpoint_scan(owner, anns.take(k)),
    decreases anns.len(),
{
    if k < anns.len() {
        assert(anns.drop_last().take(k) =~= anns.take(k));
        lemma_scan_error_persists(owner, anns.drop_last(), k);
    } else {
        assert(anns.take(k) =~= anns);
    }
}

fn is_endpoint(a: &Annotation) -> (r: bool)
    ensures
        r == is_endpoint_annotation(*a),
{
    a.name == "endpoint".to_string()
}

/// Reads the endpoint annotations of `ty`.
pub fn find_endpoint(ty: &TypeDef) -> (r: Result<Option<EndpointAttr>, PayloadError>)
    ensures
        r == endpoint_scan(ty.name, ty.annotations@),
{
    let anns = &ty.annotations;
    let mut found: Option<EndpointAttr> = None;
    let mut i: usize = 0;
    while i < anns.len()
        invariant
            *anns == ty.annotations,
            0 <= i <= anns@.len(),
            endpoint_scan(ty.name, anns@.take(i as int)) == Ok::<_, PayloadError>(found),
        decreases anns@.len() - i,
    {
        let a = &anns[i];
        assert(anns@.take(i + 1).drop_last() =~= anns@.take(i as int));
        assert(anns@.take(i + 1).last() == anns@[i as int]);
        if is_endpoint(a) {
            match EndpointAttr::parse(&a.tokens) {
                Ok(e) => {
                    found = Some(e);
                },
                Err(m) => {
                    proof {
                        lemma_scan_error_persists(ty.name, anns@, i + 1);
                    }
                    return Err(
                        PayloadError::MalformedAttribute {
                            owner: ty.name.clone(),
                            kind: AnnotationKind::Endpoint,
                            at: m.at,
                        },
                    );
                },
            }
        }
        i = i + 1;
    }
    assert(anns@.take(i as int) =~= anns@);
    Ok(found)
}

/// Builds the collection document for `ty`, reading field annotations in the
/// shape that `g` selects. The body maps each annotated field's name to its
/// example, in declaration order.
pub fn derive_payload(ty: &TypeDef, g: FieldGrammar) -> (r: Result<Collection, PayloadError>)
    ensures
        failure(*ty, g) matches Some(e) ==> r == Err::<Collection, _>(e),
        failure(*ty, g) is None ==> {
            let ep = endpoint_scan(ty.name, ty.annotations@)->Ok_0->Some_0;
            let ds = collected(g, ty.fields@)->Ok_0;
            &&& r is Ok
            &&& r matches Ok(c) ==> describes(c, ep, raw_text(ds))
        },
{
    let endpoint = match find_endpoint(ty) {
        Err(e) => {
            return Err(e);
        },
        Ok(None) => {
            return Err(PayloadError::MissingEndpoint { owner: ty.name.clone() });
        },
        Ok(Some(e)) => e,
    };
    let ds = match collect_fields(&ty.fields, g) {
        Err(e) => {
            return Err(e);
        },
        Ok(ds) => ds,
    };
    let raw = match render_raw(&ds) {
        Err(e) => {
            return Err(e);
        },
        Ok(raw) => raw,
    };
    Ok(build_collection(&endpoint, raw))
}

} // verus!
