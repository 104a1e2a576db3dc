use vstd::prelude::*;

verus! {

/// One word of a tag or an output, as the lexer classifies it.
#[derive(Debug)]
pub enum Token {
    StringLiteral(String),
    Identifier(String),
    Other(String),
}

pub enum SpecToken {
    Str(Seq<char>),
    Ident(Seq<char>),
    Other(Seq<char>),
}

impl View for Token {
    type V = SpecToken;

    open spec fn view(&self) -> SpecToken {
        match self {
            Token::StringLiteral(s) => SpecToken::Str(s@),
            Token::Identifier(s) => SpecToken::Ident(s@),
            Token::Other(s) => SpecToken::Other(s@),
        }
    }
}

pub open spec fn tokens_view(v: Seq<Token>) -> Seq<SpecToken> {
    v.map_values(|t: Token| t@)
}

pub open spec fn is_ident_start(c: char) -> bool {
    ('a' <= c && c <= 'z') || ('A' <= c && c <= 'Z') || c == '_'
}

pub open spec fn is_ident_char(c: char) -> bool {
    is_ident_start(c) || ('0' <= c && c <= '9') || c == '-' || c == '.'
}

pub open spec fn is_quote(c: char) -> bool {
    c == '\'' || c == '"'
}

/// A word is a string literal when a quote opens and the same quote closes it,
/// an identifier when it starts with a letter or `_` and holds only letters,
/// digits, `_`, `-` and `.`, and otherwise some other token.
pub open spec fn classify_spec(w: Seq<char>) -> SpecToken {
    if w.len() >= 2 && is_quote(w[0]) && w[w.len() - 1] == w[0] {
        SpecToken::Str(w.subrange(1, w.len() - 1))
    } else if w.len() >= 1 && is_ident_start(w[0]) && forall|k: int|
        0 <= k < w.len() ==> #[trigger] is_ident_char(w[k]) {
        SpecToken::Ident(w)
    } else {
        SpecToken::Other(w)
    }
}

impl Clone for Token {
    fn clone(&self) -> (r: Token)
        ensures
            r@ == self@,
    {
        match self {
            Token::StringLiteral(s) => Token::StringLiteral(s.clone()),
            Token::Identifier(s) => Token::Identifier(s.clone()),
            Token::Other(s) => Token::Other(s.clone()),
        }
    }
}

fn is_ident_start_exec(c: char) -> (r: bool)
    ensures
        r == is_ident_start(c),
{
    ('a' <= c && c <= 'z') || ('A' <= c && c <= 'Z') || c == '_'
}

fn is_ident_char_exec(c: char) -> (r: bool)
    ensures
        r == is_ident_char(c),
{
    is_ident_start_exec(c) || ('0' <= c && c <= '9') || c == '-' || c == '.'
}

/// Classifies one whitespace-free word.
pub fn classify(w: &str) -> (r: Token)
    ensures
        r@ == classify_spec(w@),
{
    let n = w.unicode_len();
    if n >= 2 {
        let first = w.get_char(0);
        if (first == '\'' || first == '"') && w.get_char(n - 1) == first {
            return Token::StringLiteral(String::from_str(w.substring_char(1, n - 1)));
        }
    }
    if n >= 1 && is_ident_start_exec(w.get_char(0)) {
        let mut k: usize = 0;
        while k < n
            invariant
                n == w@.len(),
                k <= n,
                n >= 1,
                is_ident_start(w@[0]),
                forall|j: int| 0 <= j < k ==> #[trigger] is_ident_char(w@[j]),
            decreases n - k,
        {
            if !is_ident_char_exec(w.get_char(k)) {
                assert(!is_ident_char(w@[k as int]));
                return Token::Other(String::from_str(w));
            }
            k = k + 1;
        }
        return Token::Identifier(String::from_str(w));
    }
    Token::Other(String::from_str(w))
}

} // verus!
