use vstd::prelude::*;
use crate::error::{fresh, Error, ErrorKind, SpecError, SpecErrorKind};
use crate::token::{classify, classify_spec, tokens_view, SpecToken, Token};

verus! {

/// A piece of template text: literal text, an output `{{ ... }}` or a tag
/// `{% ... %}`, the latter two split into words.
#[derive(Debug)]
pub enum Element {
    Raw(String),
    Output(Vec<Token>),
    Tag(Vec<Token>),
}

pub enum SpecElement {
    Raw(Seq<char>),
    Output(Seq<SpecToken>),
    Tag(Seq<SpecToken>),
}

impl View for Element {
    type V = SpecElement;

    open spec fn view(&self) -> SpecElement {
        match self {
            Element::Raw(s) => SpecElement::Raw(s@),
            Element::Output(v) => SpecElement::Output(tokens_view(v@)),
            Element::Tag(v) => SpecElement::Tag(tokens_view(v@)),
        }
    }
}

pub open spec fn elements_view(v: Seq<Element>) -> Seq<SpecElement> {
    v.map_values(|e: Element| e@)
}

pub open spec fn is_space(c: char) -> bool {
    c == ' ' || c == '\t' || c == '\n' || c == '\r'
}

/// `{{` or `{%` starts at `i`.
pub open spec fn opens_at(s: Seq<char>, i: int) -> bool {
    0 <= i && i + 1 < s.len() && s[i] == '{' && (s[i + 1] == '{' || s[i + 1] == '%')
}

/// `c` followed by `}` stands at `i`.
pub open spec fn closes_at(s: Seq<char>, i: int, c: char) -> bool {
    0 <= i && i + 1 < s.len() && s[i] == c && s[i + 1] == '}'
}

/// The first opening at or after `i`, or the length of `s`.
pub open spec fn next_open(s: Seq<char>, i: int) -> int
    decreases s.len() - i,
{
    if i < 0 || i + 1 >= s.len() {
        s.len() as int
    } else if opens_at(s, i) {
        i
    } else {
        next_open(s, i + 1)
    }
}

/// The first closing by `c` at or after `i`, or the length of `s`.
pub open spec fn next_close(s: Seq<char>, i: int, c: char) -> int
    decreases s.len() - i,
{
    if i < 0 || i + 1 >= s.len() {
        s.len() as int
    } else if closes_at(s, i, c) {
        i
    } else {
        next_close(s, i + 1, c)
    }
}

/// The first whitespace character at or after `i`, or the length of `s`.
pub open spec fn word_end(s: Seq<char>, i: int) -> int
    decreases s.len() - i,
{
    if i < 0 || i >= s.len() {
        s.len() as int
    } else if is_space(s[i]) {
        i
    } else {
        word_end(s, i + 1)
    }
}

/// The whitespace-separated words of `s` from `i` on.
pub open spec fn words_from(s: Seq<char>, i: int) -> Seq<Seq<char>>
    decreases s.len() - i,
    via words_from_decreases
{
    if i < 0 || i >= s.len() {
        Seq::empty()
    } else if is_space(s[i]) {
        words_from(s, i + 1)
    } else {
        let b = word_end(s, i);
        seq![s.subrange(i, b)] + words_from(s, b)
    }
}

pub proof fn lemma_word_end(s: Seq<char>, i: int)
    requires
        0 <= i < s.len(),
        !is_space(s[i]),
    ensures
        i < word_end(s, i) <= s.len(),
    decreases s.len() - i,
{
    if i + 1 < s.len() && !is_space(s[i + 1]) {
        lemma_word_end(s, i + 1);
    } else {
        assert(word_end(s, i) == word_end(s, i + 1));
    }
}

#[via_fn]
proof fn words_from_decreases(s: Seq<char>, i: int) {
    if 0 <= i < s.len() && !is_space(s[i]) {
        lemma_word_end(s, i);
    }
}

pub proof fn lemma_next_open(s: Seq<char>, i: int)
    requires
        0 <= i <= s.len(),
    ensures
        next_open(s, i) <= s.len(),
        next_open(s, i) < s.len() ==> opens_at(s, next_open(s, i)),
        next_open(s, i) >= i,
    decreases s.len() - i,
{
    if i + 1 < s.len() && !opens_at(s, i) {
        lemma_next_open(s, i + 1);
    }
}

pub proof fn lemma_next_close(s: Seq<char>, i: int, c: char)
    requires
        0 <= i <= s.len(),
    ensures
        next_close(s, i, c) >= i,
        next_close(s, i, c) <= s.len(),
        next_close(s, i, c) < s.len() ==> closes_at(s, next_close(s, i, c), c),
    decreases s.len() - i,
{
    if i + 1 < s.len() && !closes_at(s, i, c) {
        lemma_next_close(s, i + 1, c);
    }
}

/// The character that closes what opens at `j`: `}` for an output, `%` for a tag.
pub open spec fn closer(s: Seq<char>, j: int) -> char {
    if s[j + 1] == '{' { '}' } else { '%' }
}

/// Prefixes the elements of a successful result.
pub open spec fn prepend<T>(a: Seq<T>, r: Result<Seq<T>, SpecError>) -> Result<Seq<T>, SpecError> {
    match r {
        Ok(x) => Ok(a + x),
        Err(e) => Err(e),
    }
}

/// The elements of `s` from `i` on, or the error for an opening that is never closed.
pub open spec fn lex_from(s: Seq<char>, i: int) -> Result<Seq<SpecElement>, SpecError>
    decreases s.len() - i,
    via lex_from_decreases
{
    if i < 0 || i >= s.len() {
        Ok(Seq::empty())
    } else {
        let j = next_open(s, i);
        let raw = if j > i { seq![SpecElement::Raw(s.subrange(i, j))] } else { Seq::empty() };
        if j >= s.len() {
            Ok(raw)
        } else {
            let c = closer(s, j);
            let k = next_close(s, j + 2, c);
            if k >= s.len() {
                Err(fresh(SpecErrorKind::Unterminated { position: j as nat }))
            } else {
                let words = words_from(s.subrange(j + 2, k), 0).map_values(
                    |w: Seq<char>| classify_spec(w),
                );
                let el = if c == '}' { SpecElement::Output(words) } else { SpecElement::Tag(words) };
                prepend(raw.push(el), lex_from(s, k + 2))
            }
        }
    }
}

#[via_fn]
proof fn lex_from_decreases(s: Seq<char>, i: int) {
    if 0 <= i < s.len() {
        lemma_next_open(s, i);
        let j = next_open(s, i);
        if j < s.len() {
            lemma_next_close(s, j + 2, closer(s, j));
        }
    }
}

/// Splits template text into elements.
pub open spec fn lex(s: Seq<char>) -> Result<Seq<SpecElement>, SpecError> {
    lex_from(s, 0)
}

fn next_open_exec(s: &str, n: usize, i: usize) -> (r: usize)
    requires
        n == s@.len(),
        i <= n,
    ensures
        r as int == next_open(s@, i as int),
{
    let mut j = i;
    while n > 0 && j < n - 1
        invariant
            n == s@.len(),
            i <= j <= n,
            next_open(s@, i as int) == next_open(s@, j as int),
        decreases n - j,
    {
        if s.get_char(j) == '{' {
            let c = s.get_char(j + 1);
            if c == '{' || c == '%' {
                return j;
            }
        }
        j = j + 1;
    }
    n
}

fn next_close_exec(s: &str, n: usize, i: usize, c: char) -> (r: usize)
    requires
        n == s@.len(),
        i <= n,
    ensures
        r as int == next_close(s@, i as int, c),
{
    let mut j = i;
    while n > 0 && j < n - 1
        invariant
            n == s@.len(),
            i <= j <= n,
            next_close(s@, i as int, c) == next_close(s@, j as int, c),
        decreases n - j,
    {
        if s.get_char(j) == c && s.get_char(j + 1) == '}' {
            return j;
        }
        j = j + 1;
    }
    n
}

fn is_space_exec(c: char) -> (r: bool)
    ensures
        r == is_space(c),
{
    c == ' ' || c == '\t' || c == '\n' || c == '\r'
}

/// Splits the inside of a tag or an output into classified words.
pub fn split_words(s: &str) -> (r: Vec<Token>)
    ensures
        tokens_view(r@) == words_from(s@, 0).map_values(|w: Seq<char>| classify_spec(w)),
{
    let n = s.unicode_len();
    let mut out: Vec<Token> = Vec::new();
    let mut i: usize = 0;
    while i < n
        invariant
            n == s@.len(),
            i <= n,
            words_from(s@, 0).map_values(|w: Seq<char>| classify_spec(w)) == tokens_view(out@)
                + words_from(s@, i as int).map_values(|w: Seq<char>| classify_spec(w)),
        decreases n - i,
    {
        let ghost old_out = tokens_view(out@);
        if is_space_exec(s.get_char(i)) {
            i = i + 1;
        } else {
            let mut b = i + 1;
            proof {
                lemma_word_end(s@, i as int);
            }
            while b < n && !is_space_exec(s.get_char(b))
                invariant
                    n == s@.len(),
                    i < b <= n,
                    word_end(s@, i as int) == word_end(s@, b as int),
                decreases n - b,
            {
                b = b + 1;
            }
            let ghost w = s@.subrange(i as int, b as int);
            assert(words_from(s@, i as int) == seq![w] + words_from(s@, b as int));
            assert(seq![w].map_values(|w: Seq<char>| classify_spec(w)) =~= seq![classify_spec(w)]);
            assert((seq![w] + words_from(s@, b as int)).map_values(|w: Seq<char>| classify_spec(w))
                =~= seq![w].map_values(|w: Seq<char>| classify_spec(w)) + words_from(s@, b as int).map_values(|w: Seq<char>| classify_spec(w)));
            out.push(classify(s.substring_char(i, b)));
            assert(tokens_view(out@) =~= old_out.push(classify_spec(w)));
            i = b;
        }
    }
    assert(words_from(s@, n as int).map_values(|w: Seq<char>| classify_spec(w)) =~= Seq::empty());
    assert(tokens_view(out@) =~= tokens_view(out@) + Seq::<SpecToken>::empty());
    out
}

} // verus!

verus! {

/// Splits template text into elements; fails on an opening that is never closed.
pub fn tokenize(text: &str) -> (r: Result<Vec<Element>, Error>)
    ensures
        match r {
            Ok(v) => lex(text@) == Ok::<Seq<SpecElement>, SpecError>(elements_view(v@)),
            Err(e) => lex(text@) == Err::<Seq<SpecElement>, SpecError>(e@),
        },
{
    let n = text.unicode_len();
    let ghost s = text@;
    let mut out: Vec<Element> = Vec::new();
    let mut i: usize = 0;
    while i < n
        invariant
            n == s.len(),
            s == text@,
            i <= n,
            lex(s) == prepend(elements_view(out@), lex_from(s, i as int)),
        decreases n - i,
    {
        let ghost before = elements_view(out@);
        let j = next_open_exec(text, n, i);
        proof {
            lemma_next_open(s, i as int);
        }
        let ghost raw = if j > i { seq![SpecElement::Raw(s.subrange(i as int, j as int))] } else { Seq::empty() };
        if j > i {
            out.push(Element::Raw(String::from_str(text.substring_char(i, j))));
        }
        assert(elements_view(out@) =~= before + raw);
        if j >= n {
            assert(lex_from(s, i as int) == Ok::<Seq<SpecElement>, SpecError>(raw));
            assert(elements_view(out@) =~= before + raw);
            return Ok(out);
        }
        let c = if text.get_char(j + 1) == '{' { '}' } else { '%' };
        let k = next_close_exec(text, n, j + 2, c);
        proof {
            lemma_next_close(s, j + 2, c);
        }
        if k >= n {
            return Err(Error::new(ErrorKind::Unterminated { position: j }));
        }
        let words = split_words(text.substring_char(j + 2, k));
        let ghost el = if c == '}' { SpecElement::Output(tokens_view(words@)) } else { SpecElement::Tag(tokens_view(words@)) };
        if c == '}' {
            out.push(Element::Output(words));
        } else {
            out.push(Element::Tag(words));
        }
        assert(elements_view(out@) =~= before + raw.push(el));
        assert(lex_from(s, i as int) == prepend(raw.push(el), lex_from(s, k + 2)));
        proof {
            match lex_from(s, k + 2) {
                Ok(x) => {
                    assert(before + (raw.push(el) + x) =~= (before + raw.push(el)) + x);
                },
                Err(e) => {},
            }
        }
        i = k + 2;
    }
    assert(elements_view(out@) + Seq::<SpecElement>::empty() =~= elements_view(out@));
    Ok(out)
}

} // verus!
