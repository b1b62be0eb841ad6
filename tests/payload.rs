use payload_collection::document::{build_collection, frame_object, render_raw, split_path};
use payload_collection::error::{AnnotationKind, PayloadError};
use payload_collection::fields::{collect_fields, Annotation, FieldDef, FieldDescriptor};
use payload_collection::grammar::{match_slots, EndpointAttr, FieldAttr, FieldGrammar, Malformed, Slot, Token};
use payload_collection::payload::{derive_payload, find_endpoint, TypeDef};

fn ident(s: &str) -> Token {
    Token::Ident(s.to_string())
}

fn lit(s: &str) -> Token {
    Token::Str(s.to_string())
}

fn eq() -> Token {
    Token::Punct('=')
}

fn comma() -> Token {
    Token::Punct(',')
}

fn endpoint_tokens(method: &str, path: &str) -> Vec<Token> {
    vec![ident("method"), eq(), lit(method), comma(), ident("path"), eq(), lit(path)]
}

fn described(description: &str, example: &str) -> Vec<Token> {
    vec![ident("description"), eq(), lit(description), comma(), ident("example"), eq(), lit(example)]
}

fn annotation(name: &str, tokens: Vec<Token>) -> Annotation {
    Annotation { name: name.to_string(), tokens }
}

fn field(name: &str, annotations: Vec<Annotation>) -> FieldDef {
    FieldDef { name: Some(name.to_string()), annotations }
}

fn strings(v: &[&str]) -> Vec<String> {
    v.iter().map(|s| s.to_string()).collect()
}

fn parse_json(text: &str) -> serde_json::Value {
    serde_json::from_str(text).expect("raw body is JSON")
}

#[test]
fn endpoint_reads_method_and_path() {
    let r = EndpointAttr::parse(&endpoint_tokens("GET", "/users/:id"));
    assert_eq!(r, Ok(EndpointAttr { method: "GET".to_string(), path: "/users/:id".to_string() }));
}

#[test]
fn endpoint_method_alone_is_malformed() {
    let r = EndpointAttr::parse(&vec![ident("method"), eq(), lit("GET")]);
    assert_eq!(r, Err(Malformed { at: 3 }));
}

#[test]
fn endpoint_keys_in_wrong_order_are_malformed() {
    let toks = vec![ident("path"), eq(), lit("/a"), comma(), ident("method"), eq(), lit("GET")];
    assert_eq!(EndpointAttr::parse(&toks), Err(Malformed { at: 0 }));
}

#[test]
fn endpoint_wrong_second_key_is_malformed() {
    let toks = vec![ident("method"), eq(), lit("GET"), comma(), ident("route"), eq(), lit("/a")];
    assert_eq!(EndpointAttr::parse(&toks), Err(Malformed { at: 4 }));
}

#[test]
fn endpoint_trailing_pair_is_malformed() {
    let mut toks = endpoint_tokens("GET", "/a");
    toks.push(comma());
    assert_eq!(EndpointAttr::parse(&toks), Err(Malformed { at: 7 }));
}

#[test]
fn endpoint_value_must_be_string_literal() {
    let toks = vec![ident("method"), eq(), Token::Other("5".to_string()), comma(), ident("path"), eq(), lit("/a")];
    assert_eq!(EndpointAttr::parse(&toks), Err(Malformed { at: 2 }));
}

#[test]
fn endpoint_missing_separator_is_malformed() {
    let toks = vec![ident("method"), eq(), lit("GET"), ident("path"), eq(), lit("/a")];
    assert_eq!(EndpointAttr::parse(&toks), Err(Malformed { at: 3 }));
}

#[test]
fn endpoint_empty_method_is_malformed() {
    assert_eq!(EndpointAttr::parse(&endpoint_tokens("", "/a")), Err(Malformed { at: 2 }));
    assert_eq!(EndpointAttr::parse(&endpoint_tokens("GET", "")), Err(Malformed { at: 6 }));
}

#[test]
fn field_example_only_grammar() {
    let toks = vec![ident("example"), eq(), lit("42")];
    let r = FieldAttr::parse(&toks, FieldGrammar::ExampleOnly);
    assert_eq!(r, Ok(FieldAttr { description: None, example: "42".to_string() }));
    assert_eq!(FieldAttr::parse(&toks, FieldGrammar::DescriptionAndExample), Err(Malformed { at: 0 }));
}

#[test]
fn field_described_grammar() {
    let r = FieldAttr::parse(&described("d1", "1"), FieldGrammar::DescriptionAndExample);
    assert_eq!(r, Ok(FieldAttr { description: Some("d1".to_string()), example: "1".to_string() }));
    assert_eq!(FieldAttr::parse(&described("d1", "1"), FieldGrammar::ExampleOnly), Err(Malformed { at: 0 }));
}

#[test]
fn match_slots_reports_first_misfit() {
    let slots = vec![Slot::Equals, Slot::Comma, Slot::Text];
    assert_eq!(match_slots(&vec![eq(), comma(), lit("")], &slots), Ok(()));
    assert_eq!(match_slots(&vec![eq(), eq(), lit("")], &slots), Err(Malformed { at: 1 }));
    assert_eq!(match_slots(&vec![eq()], &slots), Err(Malformed { at: 1 }));
    assert_eq!(match_slots(&vec![], &slots), Err(Malformed { at: 0 }));
}

#[test]
fn split_leading_slash() {
    assert_eq!(split_path("/a/b"), strings(&["", "a", "b"]));
}

#[test]
fn split_relative_path() {
    assert_eq!(split_path("a/b"), strings(&["a", "b"]));
}

#[test]
fn split_empty_path() {
    assert_eq!(split_path(""), strings(&[""]));
}

#[test]
fn split_keeps_parameters_and_trailing_slash() {
    assert_eq!(split_path("/users/:id"), strings(&["", "users", ":id"]));
    assert_eq!(split_path("a//b/"), strings(&["a", "", "b", ""]));
}

#[test]
fn collector_skips_unannotated_fields() {
    let fields = vec![
        field("x", vec![annotation("field", described("d1", "1"))]),
        field("y", vec![]),
        field("z", vec![annotation("field", described("d2", "2"))]),
    ];
    let r = collect_fields(&fields, FieldGrammar::DescriptionAndExample).unwrap();
    assert_eq!(
        r,
        vec![
            FieldDescriptor { name: "x".to_string(), description: Some("d1".to_string()), example: "1".to_string() },
            FieldDescriptor { name: "z".to_string(), description: Some("d2".to_string()), example: "2".to_string() },
        ]
    );
}

#[test]
fn collector_ignores_other_annotations() {
    let fields = vec![field("x", vec![annotation("serde", vec![ident("skip")])])];
    assert_eq!(collect_fields(&fields, FieldGrammar::ExampleOnly), Ok(vec![]));
}

#[test]
fn collector_fails_on_malformed_field() {
    let fields = vec![
        field("ok", vec![annotation("field", vec![ident("example"), eq(), lit("1")])]),
        field("bad", vec![annotation("field", vec![ident("sample"), eq(), lit("1")])]),
    ];
    let r = collect_fields(&fields, FieldGrammar::ExampleOnly);
    assert_eq!(
        r,
        Err(PayloadError::MalformedAttribute { owner: "bad".to_string(), kind: AnnotationKind::Field, at: 0 })
    );
}

#[test]
fn collector_fails_on_unnamed_annotated_field() {
    let fields = vec![
        FieldDef { name: None, annotations: vec![] },
        FieldDef { name: None, annotations: vec![annotation("field", vec![ident("example"), eq(), lit("1")])] },
    ];
    assert_eq!(collect_fields(&fields, FieldGrammar::ExampleOnly), Err(PayloadError::MissingFieldName { index: 1 }));
}

#[test]
fn frame_object_joins_members() {
    assert_eq!(frame_object(&vec![]), "{}");
    let members = vec![
        ("\"a\"".to_string(), "1".to_string()),
        ("\"b\"".to_string(), "\"x\"".to_string()),
    ];
    assert_eq!(frame_object(&members), "{\"a\":1,\"b\":\"x\"}");
}

#[test]
fn raw_body_quotes_names_and_plain_examples() {
    let ds = vec![
        FieldDescriptor { name: "n".to_string(), description: None, example: "1".to_string() },
        FieldDescriptor { name: "s".to_string(), description: None, example: "plain \"text\"".to_string() },
        FieldDescriptor { name: "o".to_string(), description: None, example: "{\"k\": [1, 2]}".to_string() },
    ];
    let raw = render_raw(&ds).unwrap();
    assert_eq!(raw, "{\"n\":1,\"s\":\"plain \\\"text\\\"\",\"o\":{\"k\": [1, 2]}}");
    let v = parse_json(&raw);
    assert_eq!(v["n"], serde_json::Value::from(1));
    assert_eq!(v["s"], serde_json::Value::from("plain \"text\""));
    assert_eq!(v["o"]["k"][1], serde_json::Value::from(2));
}

#[test]
fn raw_body_of_no_fields_is_empty_object() {
    assert_eq!(render_raw(&vec![]), Ok("{}".to_string()));
}

fn create_user() -> TypeDef {
    TypeDef {
        name: "CreateUser".to_string(),
        annotations: vec![annotation("endpoint", endpoint_tokens("POST", "/users"))],
        fields: vec![field("name", vec![annotation("field", described("Full name", "\"Jane\""))])],
    }
}

#[test]
fn create_user_document() {
    let c = derive_payload(&create_user(), FieldGrammar::DescriptionAndExample).unwrap();
    assert_eq!(c.item.len(), 1);
    let request = &c.item[0].request;
    assert_eq!(request.method, "POST");
    assert_eq!(request.url.path, strings(&["", "users"]));
    assert_eq!(request.url.host, strings(&["api", "example", "com"]));
    let raw = parse_json(&request.body.raw);
    let object = raw.as_object().unwrap();
    assert_eq!(object.len(), 1);
    assert_eq!(object["name"], serde_json::Value::from("Jane"));
}

#[test]
fn document_fixed_parts() {
    let e = EndpointAttr { method: "PUT".to_string(), path: "/a".to_string() };
    let c = build_collection(&e, "{}".to_string());
    assert_eq!(c.info.description, "API postman Collection");
    assert_eq!(c.info.name, "Example API created from postman");
    assert_eq!(c.info.schema, "https://schema.getpostman.com/json/collection/v2.1.0/collection.json");
    assert_eq!(c.item[0].name, "Example Endpoint");
    let r = &c.item[0].request;
    assert_eq!(r.method, "PUT");
    assert_eq!(r.description, "");
    assert_eq!(r.url.protocol, "https");
    assert_eq!(r.header.len(), 1);
    assert_eq!(r.header[0].key, "Content-Type");
    assert_eq!(r.header[0].value, "application/json");
    assert_eq!(r.header[0].description, "Content type");
    assert_eq!(r.header[0].header_type, None);
    assert!(r.header[0].enabled);
    assert_eq!(r.body.mode, "raw");
    assert_eq!(r.body.raw, "{}");
    assert_eq!(r.body.options.raw.language, "json");
}

#[test]
fn unannotated_type_has_empty_body() {
    let ty = TypeDef {
        name: "Ping".to_string(),
        annotations: vec![annotation("endpoint", endpoint_tokens("GET", "/ping"))],
        fields: vec![field("a", vec![]), field("b", vec![annotation("doc", vec![])])],
    };
    let c = derive_payload(&ty, FieldGrammar::ExampleOnly).unwrap();
    assert_eq!(c.item[0].request.body.raw, "{}");
}

#[test]
fn missing_endpoint_names_type() {
    let mut ty = create_user();
    ty.annotations = vec![annotation("derive", vec![ident("Debug")])];
    assert_eq!(
        derive_payload(&ty, FieldGrammar::DescriptionAndExample),
        Err(PayloadError::MissingEndpoint { owner: "CreateUser".to_string() })
    );
}

#[test]
fn missing_endpoint_comes_before_field_errors() {
    let ty = TypeDef {
        name: "T".to_string(),
        annotations: vec![],
        fields: vec![field("x", vec![annotation("field", vec![])])],
    };
    assert_eq!(
        derive_payload(&ty, FieldGrammar::ExampleOnly),
        Err(PayloadError::MissingEndpoint { owner: "T".to_string() })
    );
}

#[test]
fn malformed_endpoint_names_type() {
    let mut ty = create_user();
    ty.annotations = vec![annotation("endpoint", vec![ident("method"), eq(), lit("GET")])];
    assert_eq!(
        derive_payload(&ty, FieldGrammar::DescriptionAndExample),
        Err(PayloadError::MalformedAttribute { owner: "CreateUser".to_string(), kind: AnnotationKind::Endpoint, at: 3 })
    );
}

#[test]
fn malformed_field_aborts_document() {
    let ty = create_user();
    assert_eq!(
        derive_payload(&ty, FieldGrammar::ExampleOnly),
        Err(PayloadError::MalformedAttribute { owner: "name".to_string(), kind: AnnotationKind::Field, at: 0 })
    );
}

#[test]
fn later_endpoint_annotation_wins() {
    let ty = TypeDef {
        name: "T".to_string(),
        annotations: vec![
            annotation("endpoint", endpoint_tokens("GET", "/a")),
            annotation("endpoint", endpoint_tokens("DELETE", "/b")),
        ],
        fields: vec![],
    };
    assert_eq!(
        find_endpoint(&ty),
        Ok(Some(EndpointAttr { method: "DELETE".to_string(), path: "/b".to_string() }))
    );
}

#[test]
fn fields_keep_declaration_order_in_body() {
    let ty = TypeDef {
        name: "T".to_string(),
        annotations: vec![annotation("endpoint", endpoint_tokens("POST", "/t"))],
        fields: vec![
            field("zeta", vec![annotation("field", vec![ident("example"), eq(), lit("true")])]),
            field("alpha", vec![annotation("field", vec![ident("example"), eq(), lit("abc")])]),
        ],
    };
    let c = derive_payload(&ty, FieldGrammar::ExampleOnly).unwrap();
    assert_eq!(c.item[0].request.body.raw, "{\"zeta\":true,\"alpha\":\"abc\"}");
}

#[test]
fn raw_body_escapes_control_characters() {
    let ds = vec![FieldDescriptor {
        name: "a\u{1}b".to_string(),
        description: None,
        example: "tab\there\nback\\slash".to_string(),
    }];
    let raw = render_raw(&ds).unwrap();
    assert_eq!(raw, "{\"a\\u0001b\":\"tab\\there\\nback\\\\slash\"}");
    let v = parse_json(&raw);
    assert_eq!(v["a\u{1}b"], serde_json::Value::from("tab\there\nback\\slash"));
}

#[test]
fn later_field_annotation_on_same_field_wins() {
    let fields = vec![field(
        "x",
        vec![
            annotation("field", vec![ident("example"), eq(), lit("1")]),
            annotation("field", vec![ident("example"), eq(), lit("2")]),
        ],
    )];
    let r = collect_fields(&fields, FieldGrammar::ExampleOnly).unwrap();
    assert_eq!(
        r,
        vec![FieldDescriptor { name: "x".to_string(), description: None, example: "2".to_string() }]
    );
}

#[test]
fn well_formed_type_with_fields_gives_document() {
    let ty = TypeDef {
        name: "T".to_string(),
        annotations: vec![annotation("endpoint", endpoint_tokens("GET", "/p"))],
        fields: vec![
            field("x", vec![annotation("field", described("d1", "1"))]),
            field("y", vec![]),
            field("z", vec![annotation("field", described("d2", "2"))]),
        ],
    };
    let c = derive_payload(&ty, FieldGrammar::DescriptionAndExample).unwrap();
    assert_eq!(c.item[0].request.body.raw, "{\"x\":1,\"z\":2}");
}
