//! Building the collection document from an endpoint and its field descriptors.

use vstd::prelude::*;
use crate::error::PayloadError;
use crate::fields::FieldDescriptor;
use crate::grammar::EndpointAttr;
use crate::json::{is_json, json_string_literal, parses_as_json, quote_json};
use crate::postman::{Body, BodyOptions, Collection, Header, Info, Item, RawOptions, Request, Url};

verus! {

pub open spec fn views(v: Seq<String>) -> Seq<Seq<char>> {
    v.map_values(|x: String| x@)
}

/// The segments of `s` between slashes, empty ones kept: a text with `k`
/// slashes has `k + 1` segments.
pub open spec fn segments(s: Seq<char>) -> Seq<Seq<char>>
    decreases s.len(),
{
    if s.len() == 0 {
        seq![Seq::empty()]
    } else {
        let prev = segments(s.drop_last());
        if s.last() == '/' {
            prev.push(Seq::empty())
        } else {
            prev.update(prev.len() - 1, prev.last().push(s.last()))
        }
    }
}

/// Splits a path on every `/`, with no trimming: `"/a/b"` gives `["", "a", "b"]`.
pub fn split_path(path: &str) -> (r: Vec<String>)
    ensures
        views(r@) == segments(path@),
{
    let n = path.unicode_len();
    let mut segs: Vec<String> = Vec::new();
    let mut start: usize = 0;
    let mut i: usize = 0;
    assert(path@.take(0) =~= Seq::<char>::empty());
    assert(views(segs@).push(path@.subrange(0, 0)) =~= segments(path@.take(0)));
    while i < n
        invariant
            n == path@.len(),
            0 <= start <= i <= n,
            views(segs@).push(path@.subrange(start as int, i as int)) == segments(
                path@.take(i as int),
            ),
        decreases n - i,
    {
        let c = path.get_char(i);
        let ghost before = views(segs@);
        assert(path@.take(i + 1).drop_last() =~= path@.take(i as int));
        assert(path@.take(i + 1).last() == c);
        if c == '/' {
            assert(segments(path@.take(i + 1)) == segments(path@.take(i as int)).push(
                Seq::empty(),
            ));
            let seg = path.substring_char(start, i).to_owned();
            segs.push(seg);
            assert(views(segs@) =~= before.push(path@.subrange(start as int, i as int)));
            start = i + 1;
            assert(path@.subrange(start as int, i + 1) =~= Seq::<char>::empty());
            assert(views(segs@).push(path@.subrange(start as int, i + 1)) =~= segments(
                path@.take(i + 1),
            ));
        } else {
            assert(path@.subrange(start as int, i + 1) =~= path@.subrange(
                start as int,
                i as int,
            ).push(c));
            assert(views(segs@).push(path@.subrange(start as int, i + 1)) =~= segments(
                path@.take(i + 1),
            ));
        }
        i = i + 1;
    }
    let last = path.substring_char(start, n).to_owned();
    segs.push(last);
    assert(path@.take(n as int) =~= path@);
    assert(views(segs@) =~= segments(path@));
    segs
}

/// The members of a JSON object, `key:value` joined by commas.
pub open spec fn members_text(ms: Seq<(Seq<char>, Seq<char>)>) -> Seq<char>
    decreases ms.len(),
{
    if ms.len() == 0 {
        Seq::empty()
    } else if ms.len() == 1 {
        ms[0].0 + ":"@ + ms[0].1
    } else {
        members_text(ms.drop_last()) + ","@ + ms.last().0 + ":"@ + ms.last().1
    }
}

pub open spec fn object_text(ms: Seq<(Seq<char>, Seq<char>)>) -> Seq<char> {
    "{"@ + members_text(ms) + "}"@
}

pub open spec fn member_views(ms: Seq<(String, String)>) -> Seq<(Seq<char>, Seq<char>)> {
    ms.map_values(|m: (String, String)| (m.0@, m.1@))
}

/// Frames already-encoded keys and values as one JSON object, in the given order.
pub fn frame_object(members: &Vec<(String, String)>) -> (r: String)
    ensures
        r@ == object_text(member_views(members@)),
{
    let mut out = "{".to_string();
    let mut i: usize = 0;
    while i < members.len()
        invariant
            0 <= i <= members@.len(),
            out@ == "{"@ + members_text(member_views(members@.take(i as int))),
        decreases members@.len() - i,
    {
        let ghost prev = member_views(members@.take(i as int));
        let ghost next = member_views(members@.take(i + 1));
        assert(next.drop_last() =~= prev);
        assert(next.last() == (members@[i as int].0@, members@[i as int].1@));
        if i > 0 {
            out.append(",");
        }
        out.append(members[i].0.as_str());
        out.append(":");
        out.append(members[i].1.as_str());
        proof {
            if i == 0 {
                assert(prev =~= Seq::empty());
            }
        }
        assert(out@ =~= "{"@ + members_text(next));
        i = i + 1;
    }
    out.append("}");
    assert(members@.take(i as int) =~= members@);
    out
}

/// How an example goes into the body: as it stands when it is JSON, else as
/// a JSON string.
pub open spec fn example_text(example: Seq<char>) -> Seq<char> {
    if parses_as_json(example) {
        example
    } else {
        json_string_literal(example)
    }
}

pub open spec fn raw_members(ds: Seq<FieldDescriptor>) -> Seq<(Seq<char>, Seq<char>)> {
    ds.map_values(|d: FieldDescriptor| (json_string_literal(d.name@), example_text(d.example@)))
}

/// The raw body: one object mapping each field's name to its example, in
/// declaration order.
pub open spec fn raw_text(ds: Seq<FieldDescriptor>) -> Seq<char> {
    object_text(raw_members(ds))
}

/// Writes the raw body for the descriptors.
pub fn render_raw(ds: &Vec<FieldDescriptor>) -> (r: Result<String, PayloadError>)
    ensures
        r is Ok,
        r matches Ok(t) ==> t@ == raw_text(ds@),
{
    let mut members: Vec<(String, String)> = Vec::new();
    let mut i: usize = 0;
    while i < ds.len()
        invariant
            0 <= i <= ds@.len(),
            member_views(members@) == raw_members(ds@.take(i as int)),
        decreases ds@.len() - i,
    {
        let d = &ds[i];
        let key = match quote_json(d.name.as_str()) {
            Ok(q) => q,
            Err(_) => {
                return Err(PayloadError::SerializationFailure { field: d.name.clone() });
            },
        };
        let value = if is_json(d.example.as_str()) {
            d.example.clone()
        } else {
            match quote_json(d.example.as_str()) {
                Ok(q) => q,
                Err(_) => {
                    return Err(PayloadError::SerializationFailure { field: d.name.clone() });
                },
            }
        };
        members.push((key, value));
        assert(raw_members(ds@.take(i + 1)) =~= raw_members(ds@.take(i as int)).push(
            (json_string_literal(d.name@), example_text(d.example@)),
        ));
        assert(member_views(members@) =~= raw_members(ds@.take(i + 1)));
        i = i + 1;
    }
    assert(ds@.take(i as int) =~= ds@);
    Ok(frame_object(&members))
}

/// `c` is the one-request collection for endpoint `e` with raw body `raw`.
pub open spec fn describes(c: Collection, e: EndpointAttr, raw: Seq<char>) -> bool {
    &&& c.info.description@ == "API postman Collection"@
    &&& c.info.name@ == "Example API created from postman"@
    &&& c.info.schema@ == "https://schema.getpostman.com/json/collection/v2.1.0/collection.json"@
    &&& c.item@.len() == 1
    &&& c.item@[0].name@ == "Example Endpoint"@
    &&& requests(c.item@[0].request, e, raw)
}

/// `r` requests endpoint `e` on the placeholder host, sending `raw` as JSON.
pub open spec fn requests(r: Request, e: EndpointAttr, raw: Seq<char>) -> bool {
    &&& r.method@ == e.method@
    &&& r.description@ == Seq::<char>::empty()
    &&& views(r.url.host@) == seq!["api"@, "example"@, "com"@]
    &&& views(r.url.path@) == segments(e.path@)
    &&& r.url.protocol@ == "https"@
    &&& r.header@.len() == 1
    &&& r.header@[0].key@ == "Content-Type"@
    &&& r.header@[0].value@ == "application/json"@
    &&& r.header@[0].description@ == "Content type"@
    &&& r.header@[0].header_type is None
    &&& r.header@[0].enabled
    &&& r.body.mode@ == "raw"@
    &&& r.body.raw@ == raw
    &&& r.body.options.raw.language@ == "json"@
}

/// Assembles the document for one endpoint and its raw body.
pub fn build_collection(e: &EndpointAttr, raw: String) -> (c: Collection)
    ensures
        describes(c, *e, raw@),
{
    let info = Info {
        description: "API postman Collection".to_string(),
        name: "Example API created from postman".to_string(),
        schema: "https://schema.getpostman.com/json/collection/v2.1.0/collection.json".to_string(),
    };
    let host = vec!["api".to_string(), "example".to_string(), "com".to_string()];
    assert(views(host@) =~= seq!["api"@, "example"@, "com"@]);
    let url = Url { host, path: split_path(e.path.as_str()), protocol: "https".to_string() };
    let header = vec![
        Header {
            key: "Content-Type".to_string(),
            value: "application/json".to_string(),
            description: "Content type".to_string(),
            header_type: None,
            enabled: true,
        },
    ];
    let body = Body {
        mode: "raw".to_string(),
        raw,
        options: BodyOptions { raw: RawOptions { language: "json".to_string() } },
    };
    let request = Request {
        method: e.method.clone(),
        header,
        body,
        url,
        description: String::new(),
    };
    let item = Item { name: "Example Endpoint".to_string(), request };
    Collection { info, item: vec![item] }
}

} // verus!
