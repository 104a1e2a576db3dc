use liquid_partials::error::ErrorKind;
use liquid_partials::parser::{compile, include_tag, Options};
use liquid_partials::source::MemorySource;
use liquid_partials::template::Context;
use liquid_partials::token::Token;

fn options() -> Options<MemorySource> {
    let mut source = MemorySource::new();
    source.add("example.txt".to_string(), "{{ num }} wat wot\n".to_string());
    Options { source, max_depth: 16 }
}

fn context() -> Context {
    let mut context = Context::new();
    context.set_val("num".to_string(), "5".to_string());
    context.set_val("numTwo".to_string(), "10".to_string());
    context
}

#[test]
fn include_tag_quotes() {
    let text = "{% include 'example.txt' %}";
    let template = compile(text, &options()).unwrap();
    let output = template.render(&mut context()).unwrap();
    assert_eq!(output, "5 wat wot\n");
}

#[test]
fn include_non_string() {
    let text = "{% include example.txt %}";
    let template = compile(text, &options()).unwrap();
    let output = template.render(&mut context()).unwrap();
    assert_eq!(output, "5 wat wot\n");
}

#[test]
fn no_file() {
    let text = "{% include 'file_does_not_exist.liquid' %}";
    let template = compile(text, &options());

    assert!(template.is_err());
    if let Err(val) = template {
        let val = val.message();
        println!("val={}", val);
        assert!(val.contains("Snippet does not exist"));
    }
}

#[test]
fn both_argument_forms_render_alike() {
    for name in ["example.txt", "p_1", "a-b.c"] {
        let mut opts = options();
        opts.source.add(name.to_string(), "[{{ num }}]".to_string());
        let quoted = compile(&format!("{{% include '{}' %}}", name), &opts).unwrap();
        let bare = compile(&format!("{{% include {} %}}", name), &opts).unwrap();
        let a = quoted.render(&mut context()).unwrap();
        let b = bare.render(&mut context()).unwrap();
        assert_eq!(a, "[5]");
        assert_eq!(a, b);
    }
}

#[test]
fn argument_that_is_no_name_is_rejected() {
    for text in ["{% include %}", "{% include 42 %}", "{% include = %}"] {
        let err = compile(text, &options()).unwrap_err();
        match &err.kind {
            ErrorKind::UnexpectedToken { expected, .. } => assert_eq!(expected, "string"),
            other => panic!("unexpected error {:?}", other),
        }
        assert!(err.trace.is_empty());
    }
    let err = compile("{% include %}", &options()).unwrap_err();
    assert_eq!(err.message(), "expected string, found nothing");
    let err = compile("{% include 42 %}", &options()).unwrap_err();
    assert_eq!(err.message(), "expected string, found 42");
}

#[test]
fn include_tag_direct_call() {
    let opts = options();
    let args = vec![Token::StringLiteral("example.txt".to_string())];
    let node = include_tag("include", &args, &opts, 1).unwrap();
    assert_eq!(node.name(), "example.txt");
    let mut out = String::from(">");
    node.render_to(&mut out, &mut context()).unwrap();
    assert_eq!(out, ">5 wat wot\n");

    let args = vec![Token::Other("=".to_string())];
    assert!(include_tag("include", &args, &opts, 1).is_err());
    let err = include_tag("include", &[], &opts, 1).unwrap_err();
    assert!(matches!(err.kind, ErrorKind::UnexpectedToken { found: None, .. }));
}

#[test]
fn not_found_names_the_partial() {
    let err = compile("{% include missing %}", &options()).unwrap_err();
    match &err.kind {
        ErrorKind::NotFound { name } => assert_eq!(name, "missing"),
        other => panic!("unexpected error {:?}", other),
    }
    assert_eq!(err.trace, vec!["{% include missing %}".to_string()]);
    assert_eq!(
        err.message(),
        "Snippet does not exist: missing\n  from {% include missing %}"
    );
}
