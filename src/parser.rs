use vstd::prelude::*;
use crate::error::{fresh, traced, Error, ErrorKind, SpecError, SpecErrorKind};
use crate::lexer::{lex, prepend, tokenize, Element, SpecElement, elements_view};
use crate::source::IncludeSource;
use crate::template::{nodes_view, partial_label, partial_label_text, Include, Node, SpecNode, Template};
use crate::token::{tokens_view, SpecToken, Token};

verus! {

/// What every compilation step shares: where partials come from, and how
/// deeply partials may nest (a partial that includes itself, directly or not,
/// stops there with an error).
pub struct Options<S> {
    pub source: S,
    pub max_depth: usize,
}

/// The name a directive's arguments give: its first token, a string literal
/// or a bare identifier.
pub open spec fn partial_name(args: Seq<SpecToken>) -> Option<Seq<char>> {
    if args.len() == 0 {
        None
    } else {
        match args[0] {
            SpecToken::Str(s) => Some(s),
            SpecToken::Ident(s) => Some(s),
            SpecToken::Other(_) => None,
        }
    }
}

pub open spec fn first_token(args: Seq<SpecToken>) -> Option<SpecToken> {
    if args.len() == 0 {
        None
    } else {
        Some(args[0])
    }
}

/// The error for a directive whose first argument names no partial.
pub open spec fn missing_name(args: Seq<SpecToken>) -> SpecError {
    fresh(SpecErrorKind::UnexpectedToken { expected: "string"@, found: first_token(args) })
}

/// The token that keeps an output from being a single variable name.
pub open spec fn output_culprit(toks: Seq<SpecToken>) -> Option<SpecToken> {
    if toks.len() == 0 {
        None
    } else if toks[0] is Ident {
        if toks.len() > 1 { Some(toks[1]) } else { None }
    } else {
        Some(toks[0])
    }
}

/// `name = 'value'`.
pub open spec fn assign_spec(args: Seq<SpecToken>) -> Result<SpecNode, SpecError> {
    if args.len() == 3 && args[0] is Ident && args[1] == SpecToken::Other(seq!['='])
        && args[2] is Str {
        Ok(SpecNode::Assign(args[0]->Ident_0, args[2]->Str_0))
    } else {
        Err(fresh(SpecErrorKind::UnexpectedToken { expected: "name = 'value'"@, found: first_token(args) }))
    }
}

/// Compiles template text with `depth` levels of partials still allowed.
pub open spec fn compile_spec<S: IncludeSource>(src: S, text: Seq<char>, depth: nat) -> Result<Seq<SpecNode>, SpecError>
    decreases depth, 4int, 0int,
{
    match lex(text) {
        Ok(els) => parse_from(src, els, 0, depth),
        Err(e) => Err(e),
    }
}

pub open spec fn parse_from<S: IncludeSource>(src: S, els: Seq<SpecElement>, i: int, depth: nat) -> Result<Seq<SpecNode>, SpecError>
    decreases depth, 3int, els.len() - i,
{
    if i < 0 || i >= els.len() {
        Ok(Seq::empty())
    } else {
        match element_spec(src, els[i], depth) {
            Ok(n) => prepend(seq![n], parse_from(src, els, i + 1, depth)),
            Err(e) => Err(e),
        }
    }
}

pub open spec fn element_spec<S: IncludeSource>(src: S, el: SpecElement, depth: nat) -> Result<SpecNode, SpecError>
    decreases depth, 2int, 0int,
{
    match el {
        SpecElement::Raw(t) => Ok(SpecNode::Text(t)),
        SpecElement::Output(toks) => if toks.len() == 1 && toks[0] is Ident {
            Ok(SpecNode::Variable(toks[0]->Ident_0))
        } else {
            Err(fresh(SpecErrorKind::UnexpectedToken { expected: "variable name"@, found: output_culprit(toks) }))
        },
        SpecElement::Tag(toks) => if toks.len() == 0 {
            Err(fresh(SpecErrorKind::UnexpectedToken { expected: "tag name"@, found: None }))
        } else {
            match toks[0] {
                SpecToken::Ident(n) => if n == "include"@ {
                    include_spec(src, toks.drop_first(), depth)
                } else if n == "assign"@ {
                    assign_spec(toks.drop_first())
                } else {
                    Err(fresh(SpecErrorKind::UnknownTag { name: n }))
                },
                t => Err(fresh(SpecErrorKind::UnexpectedToken { expected: "tag name"@, found: Some(t) })),
            }
        },
    }
}

/// The node an include directive with arguments `args` compiles to.
pub open spec fn include_spec<S: IncludeSource>(src: S, args: Seq<SpecToken>, depth: nat) -> Result<SpecNode, SpecError>
    decreases depth, 1int, 0int,
{
    match partial_name(args) {
        None => Err(missing_name(args)),
        Some(name) => if depth == 0 {
            Err(traced(fresh(SpecErrorKind::DepthExceeded { name }), partial_label(name)))
        } else {
            match partial_spec(src, name, (depth - 1) as nat) {
                Ok(ns) => Ok(SpecNode::Partial(name, ns)),
                Err(e) => Err(traced(e, partial_label(name))),
            }
        },
    }
}

/// Looks a partial up and compiles its text.
pub open spec fn partial_spec<S: IncludeSource>(src: S, name: Seq<char>, depth: nat) -> Result<Seq<SpecNode>, SpecError>
    decreases depth, 5int, 0int,
{
    match src.contents(name) {
        None => Err(fresh(SpecErrorKind::NotFound { name })),
        Some(t) => compile_spec(src, t, depth),
    }
}

pub open spec fn result_matches(r: Result<Template, Error>, spec: Result<Seq<SpecNode>, SpecError>) -> bool {
    match r {
        Ok(t) => spec == Ok::<Seq<SpecNode>, SpecError>(t@),
        Err(e) => spec == Err::<Seq<SpecNode>, SpecError>(e@),
    }
}

pub open spec fn node_matches<T: View<V = SpecNode>>(r: Result<T, Error>, spec: Result<SpecNode, SpecError>) -> bool {
    match r {
        Ok(n) => spec == Ok::<SpecNode, SpecError>(n@),
        Err(e) => spec == Err::<SpecNode, SpecError>(e@),
    }
}

fn token_error(expected: &str, found: Option<&Token>) -> (r: Error)
    ensures
        r@ == fresh(SpecErrorKind::UnexpectedToken {
            expected: expected@,
            found: match found {
                Some(t) => Some(t@),
                None => None,
            },
        }),
{
    let found = match found {
        Some(t) => Some(t.clone()),
        None => None,
    };
    Error::new(ErrorKind::UnexpectedToken { expected: String::from_str(expected), found })
}

/// Compiles template text with the configured nesting limit.
pub fn compile<S: IncludeSource>(text: &str, options: &Options<S>) -> (r: Result<Template, Error>)
    ensures
        result_matches(r, compile_spec(options.source, text@, options.max_depth as nat)),
{
    compile_at(text, options, options.max_depth)
}

/// Compiles template text with `depth` levels of partials still allowed.
pub fn compile_at<S: IncludeSource>(text: &str, options: &Options<S>, depth: usize) -> (r: Result<Template, Error>)
    ensures
        result_matches(r, compile_spec(options.source, text@, depth as nat)),
    decreases depth, 4int, 0int,
{
    match tokenize(text) {
        Ok(els) => parse(&els, options, depth),
        Err(e) => Err(e),
    }
}

/// Compiles a sequence of elements, stopping at the first error.
pub fn parse<S: IncludeSource>(elements: &Vec<Element>, options: &Options<S>, depth: usize) -> (r: Result<Template, Error>)
    ensures
        result_matches(r, parse_from(options.source, elements_view(elements@), 0, depth as nat)),
    decreases depth, 3int, elements@.len(),
{
    let ghost els = elements_view(elements@);
    let mut nodes: Vec<Node> = Vec::new();
    let mut i: usize = 0;
    while i < elements.len()
        invariant
            i <= elements@.len(),
            els == elements_view(elements@),
            parse_from(options.source, els, 0, depth as nat) == prepend(
                nodes_view(nodes@),
                parse_from(options.source, els, i as int, depth as nat),
            ),
        decreases elements@.len() - i,
    {
        let ghost before = nodes_view(nodes@);
        match parse_element(&elements[i], options, depth) {
            Ok(n) => {
                let ghost sn = n@;
                nodes.push(n);
                assert(nodes_view(nodes@) =~= before.push(sn));
                proof {
                    match parse_from(options.source, els, i + 1, depth as nat) {
                        Ok(x) => {
                            assert(before + (seq![sn] + x) =~= before.push(sn) + x);
                        },
                        Err(e) => {},
                    }
                }
            },
            Err(e) => {
                return Err(e);
            },
        }
        i = i + 1;
    }
    assert(nodes_view(nodes@) + Seq::<SpecNode>::empty() =~= nodes_view(nodes@));
    Ok(Template::new(nodes))
}

fn is_word(s: &String, w: &str) -> (r: bool)
    ensures
        r == (s@ == w@),
{
    let k = String::from_str(w);
    *s == k
}

/// Compiles one element.
pub fn parse_element<S: IncludeSource>(el: &Element, options: &Options<S>, depth: usize) -> (r: Result<Node, Error>)
    ensures
        node_matches(r, element_spec(options.source, el@, depth as nat)),
    decreases depth, 2int, 0int,
{
    match el {
        Element::Raw(t) => Ok(Node::text(t.clone())),
        Element::Output(toks) => {
            if toks.len() == 1 {
                if let Token::Identifier(name) = &toks[0] {
                    return Ok(Node::variable(name.clone()));
                }
            }
            let found = if toks.len() == 0 {
                None
            } else if let Token::Identifier(_) = &toks[0] {
                if toks.len() > 1 { Some(&toks[1]) } else { None }
            } else {
                Some(&toks[0])
            };
            Err(token_error("variable name", found))
        },
        Element::Tag(toks) => {
            if toks.len() == 0 {
                return Err(token_error("tag name", None));
            }
            let args = vstd::slice::slice_subrange(toks.as_slice(), 1, toks.len());
            assert(tokens_view(args@) =~= tokens_view(toks@).drop_first());
            match &toks[0] {
                Token::Identifier(n) => {
                    if is_word(n, "include") {
                        match include_tag(n.as_str(), args, options, depth) {
                            Ok(inc) => Ok(Node::partial(inc)),
                            Err(e) => Err(e),
                        }
                    } else if is_word(n, "assign") {
                        assign_tag(args)
                    } else {
                        Err(Error::new(ErrorKind::UnknownTag { name: n.clone() }))
                    }
                },
                t => Err(token_error("tag name", Some(t))),
            }
        },
    }
}

/// Compiles the arguments of an assignment, `name = 'value'`.
pub fn assign_tag(arguments: &[Token]) -> (r: Result<Node, Error>)
    ensures
        node_matches(r, assign_spec(tokens_view(arguments@))),
{
    if arguments.len() == 3 {
        if let Token::Identifier(k) = &arguments[0] {
            if let Token::Other(eq) = &arguments[1] {
                if let Token::StringLiteral(v) = &arguments[2] {
                    if eq.as_str().unicode_len() == 1 && eq.as_str().get_char(0) == '=' {
                        assert(eq@ =~= seq!['=']);
                        return Ok(Node::assign(k.clone(), v.clone()));
                    }
                }
            }
        }
    }
    let found = if arguments.len() == 0 { None } else { Some(&arguments[0]) };
    Err(token_error("name = 'value'", found))
}

/// Compiles an include directive: takes the partial's name from the first
/// argument, then looks the partial up and compiles it with one level of
/// nesting less. A failure from the partial comes back annotated with this
/// directive.
pub fn include_tag<S: IncludeSource>(_tag_name: &str, arguments: &[Token], options: &Options<S>, depth: usize) -> (r: Result<Include, Error>)
    ensures
        node_matches(r, include_spec(options.source, tokens_view(arguments@), depth as nat)),
    decreases depth, 1int, 0int,
{
    let name = if arguments.len() == 0 {
        return Err(token_error("string", None));
    } else {
        match &arguments[0] {
            Token::StringLiteral(s) => s,
            Token::Identifier(s) => s,
            t => {
                return Err(token_error("string", Some(t)));
            },
        }
    };
    if depth == 0 {
        let e = Error::new(ErrorKind::DepthExceeded { name: name.clone() });
        return Err(e.trace_with(partial_label_text(name)));
    }
    match parse_partial(name.as_str(), options, depth - 1) {
        Ok(partial) => Ok(Include::new(name.clone(), partial)),
        Err(e) => Err(e.trace_with(partial_label_text(name))),
    }
}

/// Looks the partial up in the options' source and compiles its text.
pub fn parse_partial<S: IncludeSource>(name: &str, options: &Options<S>, depth: usize) -> (r: Result<Template, Error>)
    ensures
        result_matches(r, partial_spec(options.source, name@, depth as nat)),
    decreases depth, 5int, 0int,
{
    match options.source.lookup(name) {
        None => Err(Error::new(ErrorKind::NotFound { name: String::from_str(name) })),
        Some(text) => compile_at(text.as_str(), options, depth),
    }
}

} // verus!
