use liquid_partials::error::ErrorKind;
use liquid_partials::lexer::{split_words, tokenize, Element};
use liquid_partials::parser::{compile, Options};
use liquid_partials::source::{IncludeSource, MemorySource};
use liquid_partials::template::Context;
use liquid_partials::token::{classify, Token};

fn source(entries: &[(&str, &str)]) -> Options<MemorySource> {
    let mut source = MemorySource::new();
    for (name, text) in entries {
        source.add(name.to_string(), text.to_string());
    }
    Options { source, max_depth: 8 }
}

#[test]
fn partial_reads_includer_variable() {
    let opts = source(&[("p", "{{ num }}")]);
    let template = compile("{% include 'p' %}", &opts).unwrap();
    let mut ctx = Context::new();
    ctx.set_val("num".to_string(), "5".to_string());
    assert_eq!(template.render(&mut ctx).unwrap(), "5");
}

#[test]
fn partial_writes_are_seen_after_it() {
    let opts = source(&[("p", "in:{{ x }}{% assign x = 'inner' %}")]);
    let template =
        compile("{% assign x = 'outer' %}{% include p %} out:{{ x }}", &opts).unwrap();
    let mut ctx = Context::new();
    assert_eq!(template.render(&mut ctx).unwrap(), "in:outer out:inner");
    assert_eq!(ctx.get_val("x"), Some("inner".to_string()));
}

#[test]
fn compile_error_two_levels_deep_lists_both_partials() {
    let opts = source(&[("outer", "a {% include inner %} b"), ("inner", "x {{ y")]);
    let err = compile("{% include 'outer' %}", &opts).unwrap_err();
    assert!(matches!(err.kind, ErrorKind::Unterminated { position: 2 }));
    assert_eq!(
        err.trace,
        vec!["{% include inner %}".to_string(), "{% include outer %}".to_string()]
    );
    let msg = err.message();
    let inner = msg.find("include inner").unwrap();
    let outer = msg.find("include outer").unwrap();
    assert!(inner < outer);
}

#[test]
fn render_error_inside_partial_is_traced() {
    let opts = source(&[("p", "{{ nope }}")]);
    let template = compile("{% include p %}", &opts).unwrap();
    let err = template.render(&mut Context::new()).unwrap_err();
    assert!(matches!(err.kind, ErrorKind::UnknownVariable { .. }));
    assert_eq!(err.trace, vec!["{% include p %}".to_string()]);
}

#[test]
fn same_partial_twice_is_compiled_twice() {
    let opts = source(&[("p", "[{{ n }}]")]);
    let template = compile("{% include p %}-{% include 'p' %}", &opts).unwrap();
    assert_eq!(template.len(), 3);
    let mut ctx = Context::new();
    ctx.set_val("n".to_string(), "1".to_string());
    assert_eq!(template.render(&mut ctx).unwrap(), "[1]-[1]");
}

#[test]
fn self_inclusion_stops_at_depth_limit() {
    let opts = source(&[("loop", "{% include loop %}")]);
    let err = compile("{% include loop %}", &opts).unwrap_err();
    assert!(matches!(err.kind, ErrorKind::DepthExceeded { .. }));
    assert_eq!(err.trace.len(), 9);
}

#[test]
fn depth_zero_allows_no_partial() {
    let mut opts = source(&[("p", "text")]);
    opts.max_depth = 0;
    assert!(compile("plain", &opts).is_ok());
    let err = compile("{% include p %}", &opts).unwrap_err();
    assert!(matches!(err.kind, ErrorKind::DepthExceeded { .. }));
    opts.max_depth = 1;
    let t = compile("{% include p %}", &opts).unwrap();
    assert_eq!(t.render(&mut Context::new()).unwrap(), "text");
}

#[test]
fn partial_compiles_like_its_text() {
    let opts = source(&[("good", "ok {{ v }}"), ("bad", "{% frobnicate %}")]);
    assert!(compile("ok {{ v }}", &opts).is_ok());
    assert!(compile("{% include good %}", &opts).is_ok());
    let standalone = compile("{% frobnicate %}", &opts).unwrap_err();
    let included = compile("{% include bad %}", &opts).unwrap_err();
    assert!(matches!(standalone.kind, ErrorKind::UnknownTag { .. }));
    assert!(matches!(included.kind, ErrorKind::UnknownTag { .. }));
    assert_eq!(included.message(), "unknown tag: frobnicate\n  from {% include bad %}");
}

#[test]
fn tokenize_splits_text_and_tags() {
    let els = tokenize("a{{ b }}c{% t 'x' %}").unwrap();
    assert_eq!(els.len(), 4);
    assert!(matches!(&els[0], Element::Raw(s) if s == "a"));
    assert!(matches!(&els[1], Element::Output(v) if v.len() == 1));
    assert!(matches!(&els[2], Element::Raw(s) if s == "c"));
    match &els[3] {
        Element::Tag(v) => {
            assert!(matches!(&v[0], Token::Identifier(s) if s == "t"));
            assert!(matches!(&v[1], Token::StringLiteral(s) if s == "x"));
        }
        _ => panic!("expected a tag"),
    }
    assert!(tokenize("").unwrap().is_empty());
    assert!(matches!(tokenize("ab{% x").unwrap_err().kind, ErrorKind::Unterminated { position: 2 }));
    assert!(matches!(tokenize("{ not a tag }").unwrap()[0], Element::Raw(_)));
}

#[test]
fn classify_words() {
    assert!(matches!(classify("'a b'"), Token::StringLiteral(s) if s == "a b"));
    assert!(matches!(classify("\"q\""), Token::StringLiteral(s) if s == "q"));
    assert!(matches!(classify("''"), Token::StringLiteral(s) if s.is_empty()));
    assert!(matches!(classify("'"), Token::Other(_)));
    assert!(matches!(classify("'x\""), Token::Other(_)));
    assert!(matches!(classify("file.txt"), Token::Identifier(s) if s == "file.txt"));
    assert!(matches!(classify("9lives"), Token::Other(_)));
    assert!(matches!(classify("a+b"), Token::Other(_)));
    let words = split_words("  one\ttwo \n three ");
    assert_eq!(words.len(), 3);
}

#[test]
fn output_and_assign_errors() {
    let opts = source(&[]);
    let err = compile("{{ }}", &opts).unwrap_err();
    assert_eq!(err.message(), "expected variable name, found nothing");
    let err = compile("{{ a b }}", &opts).unwrap_err();
    assert_eq!(err.message(), "expected variable name, found b");
    let err = compile("{% assign x 'v' %}", &opts).unwrap_err();
    assert_eq!(err.message(), "expected name = 'value', found x");
    let err = compile("{% 'x' %}", &opts).unwrap_err();
    assert_eq!(err.message(), "expected tag name, found 'x'");
    let err = compile("{%  %}", &opts).unwrap_err();
    assert_eq!(err.message(), "expected tag name, found nothing");
}

#[test]
fn memory_source_later_entry_wins() {
    let mut src = MemorySource::new();
    assert_eq!(src.lookup("a"), None);
    src.add("a".to_string(), "1".to_string());
    src.add("b".to_string(), "2".to_string());
    src.add("a".to_string(), "3".to_string());
    assert_eq!(src.lookup("a"), Some("3".to_string()));
    assert_eq!(src.lookup("b"), Some("2".to_string()));
}
