use vstd::prelude::*;
use crate::token::{SpecToken, Token};

verus! {

/// What went wrong, without the trace of enclosing partials.
#[derive(Debug)]
pub enum ErrorKind {
    /// A tag or an output held a token of the wrong kind, or none.
    UnexpectedToken { expected: String, found: Option<Token> },
    /// A `{{` or `{%` was never closed; `position` is its character offset.
    Unterminated { position: usize },
    /// A tag whose name no handler is registered for.
    UnknownTag { name: String },
    /// The source of partials holds no text under this name.
    NotFound { name: String },
    /// Partials were nested deeper than the configured limit allows.
    DepthExceeded { name: String },
    /// Rendering read a variable that the context does not bind.
    UnknownVariable { name: String },
}

pub enum SpecErrorKind {
    UnexpectedToken { expected: Seq<char>, found: Option<SpecToken> },
    Unterminated { position: nat },
    UnknownTag { name: Seq<char> },
    NotFound { name: Seq<char> },
    DepthExceeded { name: Seq<char> },
    UnknownVariable { name: Seq<char> },
}

/// An error, with the annotations added while it travelled outward:
/// `trace[0]` is the innermost.
#[derive(Debug)]
pub struct Error {
    pub kind: ErrorKind,
    pub trace: Vec<String>,
}

pub struct SpecError {
    pub kind: SpecErrorKind,
    pub trace: Seq<Seq<char>>,
}

impl View for ErrorKind {
    type V = SpecErrorKind;

    open spec fn view(&self) -> SpecErrorKind {
        match self {
            ErrorKind::UnexpectedToken { expected, found } => SpecErrorKind::UnexpectedToken {
                expected: expected@,
                found: match found {
                    Some(t) => Some(t@),
                    None => None,
                },
            },
            ErrorKind::Unterminated { position } => SpecErrorKind::Unterminated {
                position: *position as nat,
            },
            ErrorKind::UnknownTag { name } => SpecErrorKind::UnknownTag { name: name@ },
            ErrorKind::NotFound { name } => SpecErrorKind::NotFound { name: name@ },
            ErrorKind::DepthExceeded { name } => SpecErrorKind::DepthExceeded { name: name@ },
            ErrorKind::UnknownVariable { name } => SpecErrorKind::UnknownVariable { name: name@ },
        }
    }
}

pub open spec fn strings_view(v: Seq<String>) -> Seq<Seq<char>> {
    v.map_values(|s: String| s@)
}

impl View for Error {
    type V = SpecError;

    open spec fn view(&self) -> SpecError {
        SpecError { kind: self.kind@, trace: strings_view(self.trace@) }
    }
}

/// An error of the given kind that has not travelled yet.
pub open spec fn fresh(kind: SpecErrorKind) -> SpecError {
    SpecError { kind, trace: Seq::empty() }
}

/// The error with one more annotation, outside those it had.
pub open spec fn traced(e: SpecError, context: Seq<char>) -> SpecError {
    SpecError { kind: e.kind, trace: e.trace.push(context) }
}

pub open spec fn token_text(t: SpecToken) -> Seq<char> {
    match t {
        SpecToken::Str(s) => "'"@ + s + "'"@,
        SpecToken::Ident(s) => s,
        SpecToken::Other(s) => s,
    }
}

pub open spec fn kind_text(k: SpecErrorKind) -> Seq<char> {
    match k {
        SpecErrorKind::UnexpectedToken { expected, found } => "expected "@ + expected + ", found "@
            + match found {
            Some(t) => token_text(t),
            None => "nothing"@,
        },
        SpecErrorKind::Unterminated { position } => "unterminated tag or output"@,
        SpecErrorKind::UnknownTag { name } => "unknown tag: "@ + name,
        SpecErrorKind::NotFound { name } => "Snippet does not exist: "@ + name,
        SpecErrorKind::DepthExceeded { name } => "partials nested too deeply at: "@ + name,
        SpecErrorKind::UnknownVariable { name } => "unknown variable: "@ + name,
    }
}

/// The trace as text, one line per annotation, innermost first.
pub open spec fn trace_text(t: Seq<Seq<char>>) -> Seq<char>
    decreases t.len(),
{
    if t.len() == 0 {
        Seq::empty()
    } else {
        trace_text(t.drop_last()) + "\n  from "@ + t.last()
    }
}

pub open spec fn message_spec(e: SpecError) -> Seq<char> {
    kind_text(e.kind) + trace_text(e.trace)
}

impl Error {
    pub fn new(kind: ErrorKind) -> (r: Error)
        ensures
            r@ == fresh(kind@),
    {
        let r = Error { kind, trace: Vec::new() };
        assert(strings_view(r.trace@) =~= Seq::empty());
        r
    }

    /// Adds an annotation naming the site the error passed through.
    pub fn trace_with(self, context: String) -> (r: Error)
        ensures
            r@ == traced(self@, context@),
    {
        let mut e = self;
        let ghost before = e.trace@;
        e.trace.push(context);
        assert(strings_view(e.trace@) =~= strings_view(before).push(context@));
        e
    }

    /// A human-readable description: what went wrong, then the trace.
    pub fn message(&self) -> (r: String)
        ensures
            r@ == message_spec(self@),
    {
        let mut r = String::new();
        match &self.kind {
            ErrorKind::UnexpectedToken { expected, found } => {
                r.append("expected ");
                r.append(expected.as_str());
                r.append(", found ");
                match found {
                    Some(Token::StringLiteral(s)) => {
                        r.append("'");
                        r.append(s.as_str());
                        r.append("'");
                    },
                    Some(Token::Identifier(s)) => r.append(s.as_str()),
                    Some(Token::Other(s)) => r.append(s.as_str()),
                    None => r.append("nothing"),
                }
            },
            ErrorKind::Unterminated { .. } => r.append("unterminated tag or output"),
            ErrorKind::UnknownTag { name } => {
                r.append("unknown tag: ");
                r.append(name.as_str());
            },
            ErrorKind::NotFound { name } => {
                r.append("Snippet does not exist: ");
                r.append(name.as_str());
            },
            ErrorKind::DepthExceeded { name } => {
                r.append("partials nested too deeply at: ");
                r.append(name.as_str());
            },
            ErrorKind::UnknownVariable { name } => {
                r.append("unknown variable: ");
                r.append(name.as_str());
            },
        }
        assert(r@ =~= kind_text(self.kind@));
        let mut i: usize = 0;
        while i < self.trace.len()
            invariant
                i <= self.trace@.len(),
                r@ =~= kind_text(self.kind@) + trace_text(strings_view(self.trace@).subrange(0, i as int)),
            decreases self.trace@.len() - i,
        {
            let ghost t = strings_view(self.trace@);
            assert(t.subrange(0, i + 1).drop_last() =~= t.subrange(0, i as int));
            r.append("\n  from ");
            r.append(self.trace[i].as_str());
            i = i + 1;
        }
        assert(strings_view(self.trace@).subrange(0, i as int) =~= strings_view(self.trace@));
        r
    }
}

} // verus!
