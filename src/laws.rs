use vstd::prelude::*;
use crate::error::{message_spec, trace_text, traced, SpecError, SpecErrorKind};
use crate::lexer::{closes_at, is_space, lex, lex_from, next_close, next_open, opens_at, word_end, words_from, SpecElement};
use crate::parser::{
    compile_spec, element_spec, include_spec, missing_name, parse_from, partial_name, partial_spec,
};
use crate::source::IncludeSource;
use crate::template::{partial_label, render_from, render_node, render_spec, Rendered, SpecNode};
use crate::token::{classify_spec, is_ident_char, is_ident_start, SpecToken};

verus! {

/// A directive naming a partial compiles exactly when the partial's text,
/// compiled on its own with the same source and one level of nesting less,
/// compiles; the node then holds that compilation.
pub proof fn lemma_directive_compiles_iff_partial<S: IncludeSource>(
    src: S,
    args: Seq<SpecToken>,
    text: Seq<char>,
    depth: nat,
)
    requires
        partial_name(args) is Some,
        src.contents(partial_name(args)->0) == Some(text),
    ensures
        include_spec(src, args, depth + 1) is Ok <==> compile_spec(src, text, depth) is Ok,
        compile_spec(src, text, depth) is Ok ==> include_spec(src, args, depth + 1) == Ok::<
            SpecNode,
            SpecError,
        >(SpecNode::Partial(partial_name(args)->0, compile_spec(src, text, depth)->Ok_0)),
{
}

/// Naming a partial by a string literal or by a bare identifier of the same
/// text compiles to the same result.
pub proof fn lemma_argument_forms_agree<S: IncludeSource>(
    src: S,
    args: Seq<SpecToken>,
    name: Seq<char>,
    depth: nat,
)
    requires
        args.len() > 0,
        args[0] == SpecToken::Str(name),
    ensures
        include_spec(src, args, depth) == include_spec(src, args.update(0, SpecToken::Ident(name)), depth),
{
}

/// A directive whose first argument is neither a string literal nor an
/// identifier, or that has no argument, fails with an unexpected-token error
/// that expects a string and names the token found.
pub proof fn lemma_missing_name<S: IncludeSource>(src: S, args: Seq<SpecToken>, depth: nat)
    requires
        args.len() == 0 || args[0] is Other,
    ensures
        include_spec(src, args, depth) == Err::<SpecNode, SpecError>(missing_name(args)),
        missing_name(args).kind == (SpecErrorKind::UnexpectedToken {
            expected: "string"@,
            found: if args.len() == 0 { None } else { Some(args[0]) },
        }),
{
}

/// Naming a partial that the source does not hold fails with a not-found
/// error whose message says that the snippet does not exist.
pub proof fn lemma_not_found<S: IncludeSource>(src: S, args: Seq<SpecToken>, depth: nat)
    requires
        partial_name(args) is Some,
        src.contents(partial_name(args)->0) is None,
        depth > 0,
    ensures
        include_spec(src, args, depth) is Err,
        include_spec(src, args, depth)->Err_0.kind == (SpecErrorKind::NotFound { name: partial_name(args)->0 }),
        message_spec(include_spec(src, args, depth)->Err_0) == "Snippet does not exist: "@
            + partial_name(args)->0 + trace_text(include_spec(src, args, depth)->Err_0.trace),
{
}

/// A partial renders with its includer's own variables: rendering the node
/// produces what rendering its content in place would, variables included,
/// and an error from the content comes out with the partial's label added.
pub proof fn lemma_partial_shares_context(
    name: Seq<char>,
    sub: Seq<SpecNode>,
    out: Seq<char>,
    vars: Seq<(Seq<char>, Seq<char>)>,
)
    ensures
        render_node(SpecNode::Partial(name, sub), out, vars).out == render_spec(sub, out, vars).out,
        render_node(SpecNode::Partial(name, sub), out, vars).vars == render_spec(sub, out, vars).vars,
        render_spec(sub, out, vars).error is None ==> render_node(SpecNode::Partial(name, sub), out, vars).error is None,
        render_spec(sub, out, vars).error is Some ==> render_node(SpecNode::Partial(name, sub), out, vars).error
            == Some(traced(render_spec(sub, out, vars).error->Some_0, partial_label(name))),
{
}

/// Nodes placed after a partial see the variables as the partial left them.
pub proof fn lemma_partial_in_sequence(
    ns: Seq<SpecNode>,
    i: int,
    out: Seq<char>,
    vars: Seq<(Seq<char>, Seq<char>)>,
)
    requires
        0 <= i < ns.len(),
        ns[i] is Partial,
        render_spec(ns[i]->Partial_1, out, vars).error is None,
    ensures
        render_from(ns, i, out, vars) == render_from(
            ns,
            i + 1,
            render_spec(ns[i]->Partial_1, out, vars).out,
            render_spec(ns[i]->Partial_1, out, vars).vars,
        ),
{
    let r = render_node(ns[i], out, vars);
    assert(r == Rendered {
        out: render_spec(ns[i]->Partial_1, out, vars).out,
        vars: render_spec(ns[i]->Partial_1, out, vars).vars,
        error: None,
    });
}

/// An error from compiling a partial comes out of the directive with the
/// directive's label added after those it already had.
pub proof fn lemma_trace_grows<S: IncludeSource>(src: S, args: Seq<SpecToken>, depth: nat)
    requires
        partial_name(args) is Some,
        partial_spec(src, partial_name(args)->0, depth) is Err,
    ensures
        include_spec(src, args, depth + 1) == Err::<SpecNode, SpecError>(
            traced(partial_spec(src, partial_name(args)->0, depth)->Err_0, partial_label(partial_name(args)->0)),
        ),
{
}

/// When the partial named by `args` fails because a partial it includes,
/// `inner`, failed with `e`, the surfaced error carries `inner`'s label and
/// then the outer one: innermost first.
pub proof fn lemma_trace_two_levels<S: IncludeSource>(
    src: S,
    args: Seq<SpecToken>,
    inner: Seq<char>,
    e: SpecError,
    depth: nat,
)
    requires
        partial_name(args) is Some,
        partial_spec(src, partial_name(args)->0, depth) == Err::<Seq<SpecNode>, SpecError>(
            traced(e, partial_label(inner)),
        ),
    ensures
        include_spec(src, args, depth + 1) is Err,
        include_spec(src, args, depth + 1)->Err_0.trace == e.trace.push(partial_label(inner)).push(
            partial_label(partial_name(args)->0),
        ),
{
}

/// Two directives naming the same partial each look it up and compile it:
/// each node holds a compilation of its own.
pub proof fn lemma_each_directive_compiles<S: IncludeSource>(src: S, name: Seq<char>, depth: nat)
    requires
        partial_spec(src, name, depth) is Ok,
    ensures
        ({
            let tag = SpecElement::Tag(seq![SpecToken::Ident("include"@), SpecToken::Str(name)]);
            let node = SpecNode::Partial(name, partial_spec(src, name, depth)->Ok_0);
            parse_from(src, seq![tag, tag], 0, depth + 1) == Ok::<Seq<SpecNode>, SpecError>(seq![node, node])
        }),
{
    let tag = SpecElement::Tag(seq![SpecToken::Ident("include"@), SpecToken::Str(name)]);
    let node = SpecNode::Partial(name, partial_spec(src, name, depth)->Ok_0);
    let els = seq![tag, tag];
    assert(seq![SpecToken::Ident("include"@), SpecToken::Str(name)].drop_first() =~= seq![SpecToken::Str(name)]);
    assert(element_spec(src, tag, depth + 1) == Ok::<SpecNode, SpecError>(node));
    assert(parse_from(src, els, 2, depth + 1) == Ok::<Seq<SpecNode>, SpecError>(Seq::empty()));
    assert(seq![node] + Seq::<SpecNode>::empty() =~= seq![node]);
    assert(parse_from(src, els, 1, depth + 1) == Ok::<Seq<SpecNode>, SpecError>(seq![node]));
    assert(seq![node] + seq![node] =~= seq![node, node]);
}

/// The text of an include directive whose argument is written `arg`.
pub open spec fn directive_text(arg: Seq<char>) -> Seq<char> {
    "{% include "@ + arg + " %}"@
}

/// `name` between single quotes.
pub open spec fn quoted(name: Seq<char>) -> Seq<char> {
    "'"@ + name + "'"@
}

/// A word that the lexer keeps whole inside a tag: not empty, no whitespace,
/// and no `%}` that would close the tag early.
pub open spec fn plain_word(w: Seq<char>) -> bool {
    &&& w.len() > 0
    &&& forall|j: int| 0 <= j < w.len() ==> !is_space(#[trigger] w[j])
    &&& forall|j: int| 0 <= j < w.len() ==> !#[trigger] closes_at(w, j, '%')
}

/// A name that can stand bare: it lexes as an identifier.
pub open spec fn identifier_name(w: Seq<char>) -> bool {
    &&& w.len() > 0
    &&& is_ident_start(w[0])
    &&& forall|j: int| 0 <= j < w.len() ==> is_ident_char(#[trigger] w[j])
}

proof fn lemma_next_close_is(s: Seq<char>, i: int, k: int, c: char)
    requires
        0 <= i <= k,
        closes_at(s, k, c),
        forall|j: int| i <= j < k ==> !#[trigger] closes_at(s, j, c),
    ensures
        next_close(s, i, c) == k,
    decreases k - i,
{
    if i < k {
        lemma_next_close_is(s, i + 1, k, c);
    }
}

proof fn lemma_word_end_is(s: Seq<char>, i: int, k: int)
    requires
        0 <= i <= k <= s.len(),
        forall|j: int| i <= j < k ==> !is_space(#[trigger] s[j]),
        k == s.len() || is_space(s[k]),
    ensures
        word_end(s, i) == k,
    decreases k - i,
{
    if i < k {
        lemma_word_end_is(s, i + 1, k);
    }
}

/// A directive written with a plain argument lexes as one tag of two words.
pub proof fn lemma_lex_directive(arg: Seq<char>)
    requires
        plain_word(arg),
    ensures
        lex(directive_text(arg)) == Ok::<Seq<SpecElement>, SpecError>(
            seq![SpecElement::Tag(seq![SpecToken::Ident("include"@), classify_spec(arg)])],
        ),
{
    reveal_strlit("{% include ");
    reveal_strlit(" %}");
    reveal_strlit("include");
    let s = directive_text(arg);
    let a = arg.len() as int;
    let kw = "include"@;
    assert(s.len() == 14 + a);
    assert forall|j: int| 0 <= j < 11 implies s[j] == "{% include "@[j] by {}
    assert forall|j: int| 0 <= j < a implies s[11 + j] == arg[j] by {}
    assert(s[11 + a] == ' ' && s[12 + a] == '%' && s[13 + a] == '}');
    assert(opens_at(s, 0));
    assert(next_open(s, 0) == 0);
    let k = 12 + a;
    assert forall|j: int| 2 <= j < k implies !#[trigger] closes_at(s, j, '%') by {
        if 11 <= j < 11 + a && closes_at(s, j, '%') {
            if j + 1 < 11 + a {
                assert(closes_at(arg, j - 11, '%'));
            }
        }
    }
    lemma_next_close_is(s, 2, k, '%');
    let inner = s.subrange(2, k);
    assert(inner.len() == 10 + a);
    assert(inner[0] == ' ' && inner[8] == ' ' && inner[9 + a] == ' ');
    assert forall|j: int| 1 <= j < 8 implies !is_space(#[trigger] inner[j]) && inner[j] == kw[j - 1] by {}
    assert forall|j: int| 9 <= j < 9 + a implies !is_space(#[trigger] inner[j]) && inner[j] == arg[j - 9] by {
        assert(inner[j] == s[j + 2]);
        assert(s[11 + (j - 9)] == arg[j - 9]);
    }
    lemma_word_end_is(inner, 1, 8);
    lemma_word_end_is(inner, 9, 9 + a);
    assert(inner.subrange(1, 8) =~= kw);
    assert(inner.subrange(9, 9 + a) =~= arg);
    assert(words_from(inner, 10 + a) =~= Seq::<Seq<char>>::empty());
    assert(words_from(inner, 9 + a) =~= Seq::<Seq<char>>::empty());
    assert(words_from(inner, 9) =~= seq![arg]);
    assert(words_from(inner, 8) =~= seq![arg]);
    assert(words_from(inner, 1) =~= seq![kw, arg]);
    assert(words_from(inner, 0) =~= seq![kw, arg]);
    assert(classify_spec(kw) == SpecToken::Ident(kw)) by {
        assert(forall|j: int| 0 <= j < kw.len() ==> #[trigger] is_ident_char(kw[j]));
    }
    let words = words_from(inner, 0).map_values(|w: Seq<char>| classify_spec(w));
    assert(words =~= seq![SpecToken::Ident(kw), classify_spec(arg)]);
    assert(lex_from(s, k + 2) == Ok::<Seq<SpecElement>, SpecError>(Seq::empty()));
    assert(Seq::<SpecElement>::empty().push(SpecElement::Tag(words)) + Seq::<SpecElement>::empty()
        =~= seq![SpecElement::Tag(words)]);
}

/// A directive written with a plain argument compiles to the single node
/// that its argument token gives.
pub proof fn lemma_compile_directive<S: IncludeSource>(src: S, arg: Seq<char>, depth: nat)
    requires
        plain_word(arg),
    ensures
        compile_spec(src, directive_text(arg), depth) == match include_spec(src, seq![classify_spec(arg)], depth) {
            Ok(n) => Ok::<Seq<SpecNode>, SpecError>(seq![n]),
            Err(e) => Err(e),
        },
{
    reveal_strlit("include");
    lemma_lex_directive(arg);
    let toks = seq![SpecToken::Ident("include"@), classify_spec(arg)];
    let els = seq![SpecElement::Tag(toks)];
    assert(toks.drop_first() =~= seq![classify_spec(arg)]);
    assert(element_spec(src, els[0], depth) == include_spec(src, seq![classify_spec(arg)], depth));
    assert(parse_from(src, els, 1, depth) == Ok::<Seq<SpecNode>, SpecError>(Seq::empty()));
    match include_spec(src, seq![classify_spec(arg)], depth) {
        Ok(n) => {
            assert(seq![n] + Seq::<SpecNode>::empty() =~= seq![n]);
        },
        Err(e) => {},
    }
}

proof fn lemma_quoted_plain(name: Seq<char>)
    requires
        forall|j: int| 0 <= j < name.len() ==> !is_space(#[trigger] name[j]),
        forall|j: int| 0 <= j < name.len() ==> !#[trigger] closes_at(name, j, '%'),
    ensures
        plain_word(quoted(name)),
        classify_spec(quoted(name)) == SpecToken::Str(name),
{
    reveal_strlit("'");
    let q = quoted(name);
    let n = name.len() as int;
    assert(q.len() == n + 2);
    assert forall|j: int| 0 <= j < n implies q[j + 1] == name[j] by {}
    assert forall|j: int| 0 <= j < q.len() implies !is_space(#[trigger] q[j]) by {
        if 1 <= j < n + 1 {
            assert(q[j] == name[j - 1]);
        }
    }
    assert forall|j: int| 0 <= j < q.len() implies !#[trigger] closes_at(q, j, '%') by {
        if 1 <= j < n && closes_at(q, j, '%') {
            assert(q[j] == name[j - 1] && q[j + 1] == name[j]);
            assert(closes_at(name, j - 1, '%'));
        }
    }
    assert(q.subrange(1, q.len() - 1) =~= name);
}

/// For a name free of whitespace and of `%}` that the source holds, the
/// directive `{% include 'name' %}` compiles exactly when the partial's text
/// compiles on its own with the same source and one level of nesting less.
pub proof fn lemma_quoted_directive_compiles_iff_partial<S: IncludeSource>(
    src: S,
    name: Seq<char>,
    text: Seq<char>,
    depth: nat,
)
    requires
        forall|j: int| 0 <= j < name.len() ==> !is_space(#[trigger] name[j]),
        forall|j: int| 0 <= j < name.len() ==> !#[trigger] closes_at(name, j, '%'),
        src.contents(name) == Some(text),
    ensures
        compile_spec(src, directive_text(quoted(name)), depth + 1) is Ok <==> compile_spec(src, text, depth) is Ok,
{
    lemma_quoted_plain(name);
    lemma_compile_directive(src, quoted(name), depth + 1);
    lemma_directive_compiles_iff_partial(src, seq![SpecToken::Str(name)], text, depth);
}

/// For an identifier-shaped name, `{% include 'name' %}` and
/// `{% include name %}` compile to the same result, so they render alike.
pub proof fn lemma_directive_forms_agree<S: IncludeSource>(src: S, name: Seq<char>, depth: nat)
    requires
        identifier_name(name),
    ensures
        compile_spec(src, directive_text(quoted(name)), depth) == compile_spec(src, directive_text(name), depth),
{
    assert forall|j: int| 0 <= j < name.len() implies !is_space(#[trigger] name[j]) by {
        assert(is_ident_char(name[j]));
    }
    assert forall|j: int| 0 <= j < name.len() implies !#[trigger] closes_at(name, j, '%') by {
        assert(is_ident_char(name[j]));
    }
    lemma_quoted_plain(name);
    lemma_compile_directive(src, quoted(name), depth);
    lemma_compile_directive(src, name, depth);
    assert(classify_spec(name) == SpecToken::Ident(name));
}

} // verus!
