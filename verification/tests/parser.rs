use ssc_css_parser::ast::{BlockChild, Rule};
use ssc_css_parser::span::Span;
use ssc_css_parser::{Parser, ParserImpl, ParserReturn, MAX_LEN};

fn parse(source: &str) -> ParserReturn {
    Parser::new(source.as_bytes()).parse()
}

#[test]
fn smoke_test() {
    let source = "";
    let ret = parse(source);
    assert!(ret.stylesheet.children.is_empty());
    assert!(ret.errors.is_empty());
}

#[test]
fn comments() {
    let sources = [
        "/* line comment */",
        "p {
                color: /* informational comment */ blue;
            }",
    ];
    for source in sources {
        let ret = parse(source);
        let comments = ret.trivias.comments();
        assert_eq!(comments.len(), 1, "{source}");
    }
}

#[test]
fn comment_span_is_exact() {
    let ret = parse("/* x */");
    assert_eq!(ret.trivias.comments().len(), 1);
    assert_eq!(ret.trivias.comments()[0], Span { start: 0, end: 7 });
    assert!(ret.errors.is_empty());
    assert!(ret.stylesheet.children.is_empty());
    assert!(!ret.panicked);
}

#[test]
fn max_len_matches_span_width() {
    assert_eq!(MAX_LEN, u32::MAX as usize);
}

#[test]
fn single_style_rule() {
    let ret = parse("p { color: red }");
    assert!(!ret.panicked);
    assert!(ret.errors.is_empty(), "{:?}", ret.errors);
    assert_eq!(ret.stylesheet.children.len(), 1);
    match &ret.stylesheet.children[0] {
        Rule::Style(rule) => {
            assert_eq!(rule.selectors.len(), 1);
            assert_eq!(rule.selectors[0].text.as_bytes(), &b"p".to_vec());
            assert_eq!(rule.block.children.len(), 1);
            match &rule.block.children[0] {
                BlockChild::Declaration(d) => {
                    assert_eq!(d.property.as_bytes(), &b"color".to_vec());
                    assert_eq!(d.value.as_bytes(), &b"red".to_vec());
                }
                other => panic!("expected a declaration, got {other:?}"),
            }
            assert_eq!(rule.span, Span { start: 0, end: 16 });
        }
        other => panic!("expected a style rule, got {other:?}"),
    }
    assert_eq!(ret.stylesheet.span, Span { start: 0, end: 16 });
    assert_eq!(ret.stylesheet.source_text.as_bytes(), &b"p { color: red }".to_vec());
}

#[test]
fn selector_list_and_two_declarations() {
    let ret = parse("h1, h2 { margin: 0; padding: 1px }");
    assert!(ret.errors.is_empty());
    assert_eq!(ret.stylesheet.children.len(), 1);
    match &ret.stylesheet.children[0] {
        Rule::Style(rule) => {
            assert_eq!(rule.selectors.len(), 2);
            assert_eq!(rule.selectors[0].text.as_bytes(), &b"h1".to_vec());
            assert_eq!(rule.selectors[1].text.as_bytes(), &b"h2".to_vec());
            assert_eq!(rule.block.children.len(), 2);
        }
        other => panic!("expected a style rule, got {other:?}"),
    }
}

#[test]
fn at_rule_without_block() {
    let ret = parse("@import prelude-tokens here;");
    assert!(ret.errors.is_empty());
    assert_eq!(ret.stylesheet.children.len(), 1);
    match &ret.stylesheet.children[0] {
        Rule::At(rule) => {
            assert_eq!(rule.name.as_bytes(), &b"import".to_vec());
            assert_eq!(rule.prelude.as_bytes(), &b"prelude-tokens here".to_vec());
            assert!(rule.block.is_none());
        }
        other => panic!("expected an at-rule, got {other:?}"),
    }
}

#[test]
fn at_rule_with_nested_rule() {
    let ret = parse("@media screen { p { color: red } }");
    assert!(ret.errors.is_empty(), "{:?}", ret.errors);
    assert_eq!(ret.stylesheet.children.len(), 1);
    match &ret.stylesheet.children[0] {
        Rule::At(rule) => {
            assert_eq!(rule.name.as_bytes(), &b"media".to_vec());
            assert_eq!(rule.prelude.as_bytes(), &b"screen".to_vec());
            let block = rule.block.as_ref().expect("at-rule block");
            assert_eq!(block.children.len(), 1);
            assert!(matches!(block.children[0], BlockChild::Rule(Rule::Style(_))));
        }
        other => panic!("expected an at-rule, got {other:?}"),
    }
}

#[test]
fn recovery_keeps_sibling_rules() {
    let source = "a { color: red } b { oops !! ; color: blue } c { color: green }";
    let ret = parse(source);
    assert!(!ret.panicked);
    assert_eq!(ret.stylesheet.children.len(), 3);
    assert_eq!(ret.errors.len(), 1);
    let b_span = match &ret.stylesheet.children[1] {
        Rule::Style(rule) => {
            assert_eq!(rule.selectors[0].text.as_bytes(), &b"b".to_vec());
            assert_eq!(rule.block.children.len(), 1);
            match &rule.block.children[0] {
                BlockChild::Declaration(d) => {
                    assert_eq!(d.property.as_bytes(), &b"color".to_vec());
                    assert_eq!(d.value.as_bytes(), &b"blue".to_vec());
                }
                other => panic!("expected a declaration, got {other:?}"),
            }
            rule.span
        }
        other => panic!("expected a style rule, got {other:?}"),
    };
    let err_span = ret.errors[0].span();
    assert!(b_span.start < err_span.start);
    assert!(err_span.end < b_span.end);
}

#[test]
fn malformed_prelude_is_reported_and_skipped() {
    let ret = parse("p ;");
    assert!(!ret.panicked);
    assert!(ret.stylesheet.children.is_empty());
    assert_eq!(ret.errors.len(), 1);
    assert_eq!(ret.errors[0].message_text().as_str(), "Unexpected token");
    assert_eq!(ret.errors[0].span(), Span { start: 2, end: 3 });
}

#[test]
fn empty_selector_is_reported_but_block_parses() {
    let ret = parse("{ color: red }");
    assert_eq!(ret.errors.len(), 1);
    assert_eq!(ret.errors[0].message_text().as_str(), "Unexpected token");
    assert_eq!(ret.stylesheet.children.len(), 1);
    match &ret.stylesheet.children[0] {
        Rule::Style(rule) => {
            assert!(rule.selectors.is_empty());
            assert_eq!(rule.block.children.len(), 1);
        }
        other => panic!("expected a style rule, got {other:?}"),
    }
}

#[test]
fn unterminated_string_reports_lexer_diagnostic_only() {
    let ret = parse("p { content: 'abc }");
    let messages: Vec<&str> = ret.errors.iter().map(|d| d.message_text().as_str()).collect();
    assert_eq!(messages.len(), 2, "{messages:?}");
    assert_eq!(messages[0], "Unterminated string");
    assert_eq!(messages[1], "Unexpected end of file");
    assert_eq!(ret.stylesheet.children.len(), 1);
}

#[test]
fn unterminated_comment_is_reported() {
    let ret = parse("/* abc");
    assert_eq!(ret.trivias.comments().len(), 0);
    assert_eq!(ret.errors.len(), 1);
    assert_eq!(ret.errors[0].message_text().as_str(), "Unterminated comment");
    assert_eq!(ret.errors[0].span(), Span { start: 0, end: 6 });
    assert!(ret.stylesheet.children.is_empty());
}

#[test]
fn unterminated_block_is_reported() {
    let ret = parse("p { color: red");
    assert_eq!(ret.errors.len(), 1);
    assert_eq!(ret.errors[0].message_text().as_str(), "Unexpected end of file");
    assert_eq!(ret.stylesheet.children.len(), 1);
}

#[test]
fn reparse_is_identical() {
    let source = "a { x: 'bad } /* one */ b { color: blue }";
    let r1 = parse(source);
    let r2 = parse(source);
    assert_eq!(r1.trivias.comments(), r2.trivias.comments());
    assert_eq!(r1.errors.len(), r2.errors.len());
    for (a, b) in r1.errors.iter().zip(r2.errors.iter()) {
        assert_eq!(a.message_text(), b.message_text());
        assert_eq!(a.span(), b.span());
    }
    assert_eq!(r1.panicked, r2.panicked);
}

#[test]
fn backdoor_builds_an_isolated_parser() {
    let source = b"p { color: red }";
    let ret = ParserImpl::new_for_tests(source).parse();
    assert!(!ret.panicked);
    assert!(ret.errors.is_empty());
    assert_eq!(ret.stylesheet.children.len(), 1);
}

#[test]
fn numbers_and_strings_in_values() {
    let ret = parse("p { width: 10.5em; content: \"a b\" }");
    assert!(ret.errors.is_empty(), "{:?}", ret.errors);
    match &ret.stylesheet.children[0] {
        Rule::Style(rule) => {
            assert_eq!(rule.block.children.len(), 2);
            match &rule.block.children[0] {
                BlockChild::Declaration(d) => {
                    assert_eq!(d.value.as_bytes(), &b"10.5em".to_vec());
                }
                other => panic!("expected a declaration, got {other:?}"),
            }
            match &rule.block.children[1] {
                BlockChild::Declaration(d) => {
                    assert_eq!(d.value.as_bytes(), &b"\"a b\"".to_vec());
                }
                other => panic!("expected a declaration, got {other:?}"),
            }
        }
        other => panic!("expected a style rule, got {other:?}"),
    }
}

#[test]
fn at_rule_cut_off_at_end_of_input() {
    let ret = parse("@media screen");
    assert_eq!(ret.errors.len(), 1);
    assert_eq!(ret.errors[0].message_text().as_str(), "Unexpected end of file");
    assert_eq!(ret.stylesheet.children.len(), 1);
    match &ret.stylesheet.children[0] {
        Rule::At(rule) => {
            assert_eq!(rule.name.as_bytes(), &b"media".to_vec());
            assert!(rule.block.is_none());
        }
        other => panic!("expected an at-rule, got {other:?}"),
    }
}

#[test]
fn nested_style_rule_inside_block() {
    let ret = parse("a { b:hover { color: red } }");
    assert!(ret.errors.is_empty(), "{:?}", ret.errors);
    assert_eq!(ret.stylesheet.children.len(), 1);
    match &ret.stylesheet.children[0] {
        Rule::Style(outer) => {
            assert_eq!(outer.block.children.len(), 1);
            match &outer.block.children[0] {
                BlockChild::Rule(Rule::Style(inner)) => {
                    assert_eq!(inner.selectors[0].text.as_bytes(), &b"b:hover".to_vec());
                }
                other => panic!("expected a nested style rule, got {other:?}"),
            }
        }
        other => panic!("expected a style rule, got {other:?}"),
    }
}

#[test]
fn empty_value_declaration_is_kept() {
    let ret = parse("p { color: ; }");
    assert!(ret.errors.is_empty(), "{:?}", ret.errors);
    match &ret.stylesheet.children[0] {
        Rule::Style(rule) => {
            assert_eq!(rule.block.children.len(), 1);
            match &rule.block.children[0] {
                BlockChild::Declaration(d) => {
                    assert_eq!(d.property.as_bytes(), &b"color".to_vec());
                    assert!(d.value.as_bytes().is_empty());
                }
                other => panic!("expected a declaration, got {other:?}"),
            }
        }
        other => panic!("expected a style rule, got {other:?}"),
    }
}

#[test]
fn dashed_identifiers_lex_as_one_name() {
    let ret = parse("p { -webkit-mask: none }");
    assert!(ret.errors.is_empty(), "{:?}", ret.errors);
    match &ret.stylesheet.children[0] {
        Rule::Style(rule) => match &rule.block.children[0] {
            BlockChild::Declaration(d) => {
                assert_eq!(d.property.as_bytes(), &b"-webkit-mask".to_vec());
            }
            other => panic!("expected a declaration, got {other:?}"),
        },
        other => panic!("expected a style rule, got {other:?}"),
    }
}
