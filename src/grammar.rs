//! The annotation grammar: `key = "value"` pairs separated by commas, matched
//! token by token against a fixed sequence of slots.

use vstd::prelude::*;

verus! {

/// One token of an annotation's argument list, as the host language's lexer
/// delivers it.
#[derive(Debug, Clone, PartialEq, Eq)]
pub enum Token {
    /// An identifier, such as a key name.
    Ident(String),
    /// A single punctuation character, such as `=` or `,`.
    Punct(char),
    /// A string literal, holding its value with escapes resolved.
    Str(String),
    /// Any other token (a number, a group, a keyword), by its text.
    Other(String),
}

/// The key names that the grammar knows.
#[derive(Debug, Clone, Copy, PartialEq, Eq)]
pub enum Key {
    Method,
    Path,
    Description,
    Example,
}

/// What one position of an annotation must hold.
#[derive(Debug, Clone, Copy, PartialEq, Eq)]
pub enum Slot {
    /// An identifier spelling the given key.
    Name(Key),
    /// The punctuation `=`.
    Equals,
    /// The punctuation `,`.
    Comma,
    /// Any string literal.
    Text,
    /// A string literal that is not empty.
    NonEmptyText,
}

/// Which shape field annotations take in a given build.
#[derive(Debug, Clone, Copy, PartialEq, Eq)]
pub enum FieldGrammar {
    /// `example = "..."`
    ExampleOnly,
    /// `description = "...", example = "..."`
    DescriptionAndExample,
}

/// A rejected annotation: `at` is the index of the first token that does not
/// fit, or the token count where the annotation ends too early.
#[derive(Debug, Clone, Copy, PartialEq, Eq)]
pub struct Malformed {
    pub at: usize,
}

/// The method and path that an endpoint annotation declares.
#[derive(Debug, Clone, PartialEq, Eq)]
pub struct EndpointAttr {
    pub method: String,
    pub path: String,
}

/// The values that a field annotation declares.
#[derive(Debug, Clone, PartialEq, Eq)]
pub struct FieldAttr {
    /// Present exactly under `FieldGrammar::DescriptionAndExample`.
    pub description: Option<String>,
    pub example: String,
}

pub open spec fn key_text(k: Key) -> Seq<char> {
    match k {
        Key::Method => "method"@,
        Key::Path => "path"@,
        Key::Description => "description"@,
        Key::Example => "example"@,
    }
}

pub open spec fn fits(t: Token, s: Slot) -> bool {
    match s {
        Slot::Name(k) => t matches Token::Ident(x) && x@ == key_text(k),
        Slot::Equals => t == Token::Punct('='),
        Slot::Comma => t == Token::Punct(','),
        Slot::Text => t is Str,
        Slot::NonEmptyText => t matches Token::Str(x) && x@.len() > 0,
    }
}

/// Every token fits its slot and no slot is left over.
pub open spec fn conforms(toks: Seq<Token>, slots: Seq<Slot>) -> bool {
    &&& toks.len() == slots.len()
    &&& forall|i: int| 0 <= i < toks.len() ==> fits(#[trigger] toks[i], slots[i])
}

/// The first index at or after `i` where the tokens and the slots part ways.
pub open spec fn misfit_from(toks: Seq<Token>, slots: Seq<Slot>, i: int) -> int
    decreases toks.len() - i,
{
    if i < 0 || i >= toks.len() || i >= slots.len() || !fits(toks[i], slots[i]) {
        i
    } else {
        misfit_from(toks, slots, i + 1)
    }
}

pub open spec fn first_misfit(toks: Seq<Token>, slots: Seq<Slot>) -> int {
    misfit_from(toks, slots, 0)
}

pub open spec fn endpoint_slots() -> Seq<Slot> {
    seq![
        Slot::Name(Key::Method),
        Slot::Equals,
        Slot::NonEmptyText,
        Slot::Comma,
        Slot::Name(Key::Path),
        Slot::Equals,
        Slot::NonEmptyText,
    ]
}

pub open spec fn field_slots(g: FieldGrammar) -> Seq<Slot> {
    match g {
        FieldGrammar::ExampleOnly => seq![Slot::Name(Key::Example), Slot::Equals, Slot::Text],
        FieldGrammar::DescriptionAndExample => seq![
            Slot::Name(Key::Description),
            Slot::Equals,
            Slot::Text,
            Slot::Comma,
            Slot::Name(Key::Example),
            Slot::Equals,
            Slot::Text,
        ],
    }
}

/// The string held by a string-literal token.
pub open spec fn text_of(t: Token) -> String {
    t->Str_0
}

/// The endpoint that conforming tokens declare.
pub open spec fn endpoint_from(toks: Seq<Token>) -> EndpointAttr {
    EndpointAttr { method: text_of(toks[2]), path: text_of(toks[6]) }
}

/// The field values that conforming tokens declare.
pub open spec fn field_from(g: FieldGrammar, toks: Seq<Token>) -> FieldAttr {
    match g {
        FieldGrammar::ExampleOnly => FieldAttr { description: None, example: text_of(toks[2]) },
        FieldGrammar::DescriptionAndExample => FieldAttr {
            description: Some(text_of(toks[2])),
            example: text_of(toks[6]),
        },
    }
}

/// The tokens up to the first misfit all fit, and the misfit is a real one.
pub proof fn lemma_misfit_from(toks: Seq<Token>, slots: Seq<Slot>, i: int)
    requires
        0 <= i <= toks.len(),
        i <= slots.len(),
    ensures
        i <= misfit_from(toks, slots, i) <= toks.len(),
        misfit_from(toks, slots, i) <= slots.len(),
        forall|j: int| i <= j < misfit_from(toks, slots, i) ==> fits(#[trigger] toks[j], slots[j]),
        misfit_from(toks, slots, i) < toks.len() && misfit_from(toks, slots, i) < slots.len()
            ==> !fits(toks[misfit_from(toks, slots, i)], slots[misfit_from(toks, slots, i)]),
    decreases toks.len() - i,
{
    if i < toks.len() && i < slots.len() && fits(toks[i], slots[i]) {
        lemma_misfit_from(toks, slots, i + 1);
    }
}

/// Tokens conform exactly when they and the slots run out together, with no misfit.
pub proof fn lemma_conforms_iff_no_misfit(toks: Seq<Token>, slots: Seq<Slot>)
    ensures
        conforms(toks, slots) <==> (toks.len() == slots.len() && first_misfit(toks, slots)
            == toks.len()),
        0 <= first_misfit(toks, slots) <= toks.len(),
{
    lemma_misfit_from(toks, slots, 0);
    if toks.len() == slots.len() && !conforms(toks, slots) {
        let k = choose|k: int| 0 <= k < toks.len() && !fits(#[trigger] toks[k], slots[k]);
        assert(first_misfit(toks, slots) <= k);
    }
}

fn key_matches(name: &String, k: Key) -> (r: bool)
    ensures
        r == (name@ == key_text(k)),
{
    let text = match k {
        Key::Method => "method".to_string(),
        Key::Path => "path".to_string(),
        Key::Description => "description".to_string(),
        Key::Example => "example".to_string(),
    };
    *name == text
}

fn token_fits(t: &Token, s: Slot) -> (r: bool)
    ensures
        r == fits(*t, s),
{
    match s {
        Slot::Name(k) => match t {
            Token::Ident(x) => key_matches(x, k),
            _ => false,
        },
        Slot::Equals => match t {
            Token::Punct(c) => *c == '=',
            _ => false,
        },
        Slot::Comma => match t {
            Token::Punct(c) => *c == ',',
            _ => false,
        },
        Slot::Text => match t {
            Token::Str(_) => true,
            _ => false,
        },
        Slot::NonEmptyText => match t {
            Token::Str(x) => !x.as_str().is_empty(),
            _ => false,
        },
    }
}

fn endpoint_grammar() -> (r: Vec<Slot>)
    ensures
        r@ == endpoint_slots(),
{
    let r = vec![
        Slot::Name(Key::Method),
        Slot::Equals,
        Slot::NonEmptyText,
        Slot::Comma,
        Slot::Name(Key::Path),
        Slot::Equals,
        Slot::NonEmptyText,
    ];
    assert(r@ =~= endpoint_slots());
    r
}

fn field_grammar(g: FieldGrammar) -> (r: Vec<Slot>)
    ensures
        r@ == field_slots(g),
{
    let r = match g {
        FieldGrammar::ExampleOnly => vec![Slot::Name(Key::Example), Slot::Equals, Slot::Text],
        FieldGrammar::DescriptionAndExample => vec![
            Slot::Name(Key::Description),
            Slot::Equals,
            Slot::Text,
            Slot::Comma,
            Slot::Name(Key::Example),
            Slot::Equals,
            Slot::Text,
        ],
    };
    assert(r@ =~= field_slots(g));
    r
}

/// Matches the tokens against the slots, one for one.
pub fn match_slots(toks: &Vec<Token>, slots: &Vec<Slot>) -> (r: Result<(), Malformed>)
    ensures
        r is Ok <==> conforms(toks@, slots@),
        r matches Err(m) ==> m.at == first_misfit(toks@, slots@),
{
    let mut i: usize = 0;
    while i < toks.len() && i < slots.len() && token_fits(&toks[i], slots[i])
        invariant
            0 <= i <= toks@.len(),
            i <= slots@.len(),
            misfit_from(toks@, slots@, i as int) == first_misfit(toks@, slots@),
        decreases toks@.len() - i,
    {
        i = i + 1;
    }
    proof {
        lemma_conforms_iff_no_misfit(toks@, slots@);
    }
    if i == toks.len() && i == slots.len() {
        Ok(())
    } else {
        Err(Malformed { at: i })
    }
}

/// The string of the literal at `i`.
fn text_at(toks: &Vec<Token>, i: usize) -> (r: String)
    requires
        i < toks@.len(),
        toks@[i as int] is Str,
    ensures
        r == text_of(toks@[i as int]),
{
    match &toks[i] {
        Token::Str(x) => x.clone(),
        _ => String::new(),
    }
}

impl EndpointAttr {
    /// Reads `method = "M", path = "P"`, both values non-empty, in this order
    /// and with nothing after.
    pub fn parse(toks: &Vec<Token>) -> (r: Result<EndpointAttr, Malformed>)
        ensures
            r matches Ok(e) ==> conforms(toks@, endpoint_slots()) && e == endpoint_from(toks@),
            r matches Err(m) ==> !conforms(toks@, endpoint_slots()) && m.at == first_misfit(
                toks@,
                endpoint_slots(),
            ),
            r is Ok <==> conforms(toks@, endpoint_slots()),
    {
        let slots = endpoint_grammar();
        match match_slots(toks, &slots) {
            Ok(()) => {
                assert(fits(toks@[2], slots@[2]) && fits(toks@[6], slots@[6]));
                Ok(EndpointAttr { method: text_at(toks, 2), path: text_at(toks, 6) })
            },
            Err(m) => Err(m),
        }
    }
}

impl FieldAttr {
    /// Reads a field annotation in the shape that `g` selects.
    pub fn parse(toks: &Vec<Token>, g: FieldGrammar) -> (r: Result<FieldAttr, Malformed>)
        ensures
            r matches Ok(f) ==> conforms(toks@, field_slots(g)) && f == field_from(g, toks@),
            r matches Err(m) ==> !conforms(toks@, field_slots(g)) && m.at == first_misfit(
                toks@,
                field_slots(g),
            ),
            r is Ok <==> conforms(toks@, field_slots(g)),
    {
        let slots = field_grammar(g);
        match match_slots(toks, &slots) {
            Ok(()) => {
                assert(fits(toks@[2], slots@[2]));
                match g {
                    FieldGrammar::ExampleOnly => Ok(
                        FieldAttr { description: None, example: text_at(toks, 2) },
                    ),
                    FieldGrammar::DescriptionAndExample => {
                        assert(fits(toks@[6], slots@[6]));
                        Ok(
                            FieldAttr {
                                description: Some(text_at(toks, 2)),
                                example: text_at(toks, 6),
                            },
                        )
                    },
                }
            },
            Err(m) => Err(m),
        }
    }
}

} // verus!
