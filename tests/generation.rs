use libtor_derive::assemble::{emit_test, generate};
use libtor_derive::classify::{collect_directives, select_rule, BrokenTestDirective, Diagnostic, Rule};
use libtor_derive::directive::{is_ignored, parse_annotation, Directive, Keyword, Parsed, TestArgs, TestSpec};
use libtor_derive::emit::{emit_arm, spaced_template_text};
use libtor_derive::model::{Annotation, Delim, Field, Shape, Tok, UnionDef, Variant};
use libtor_derive::text::{is_identifier, push_decimal, push_quoted};

fn ident(s: &str) -> Tok {
    Tok::Ident(s.to_string())
}

fn eq() -> Tok {
    Tok::Punct('=', false)
}

fn arrow() -> Vec<Tok> {
    vec![Tok::Punct('=', true), Tok::Punct('>', false)]
}

fn string(s: &str) -> Tok {
    Tok::Str(s.to_string())
}

fn expand_to(args: Vec<Tok>) -> Annotation {
    Annotation { path: "expand_to".to_string(), args: Some(args) }
}

fn template(t: &str) -> Annotation {
    expand_to(vec![string(t)])
}

fn rename(n: &str) -> Annotation {
    expand_to(vec![ident("rename"), eq(), string(n)])
}

fn with(f: &str) -> Annotation {
    expand_to(vec![ident("with"), eq(), string(f)])
}

fn test_directive(group: Option<Tok>, expected: &str) -> Annotation {
    let mut t = vec![ident("test"), eq()];
    if let Some(g) = group {
        t.push(g);
    }
    t.extend(arrow());
    t.push(string(expected));
    expand_to(t)
}

fn field(name: &str) -> Field {
    Field { name: name.to_string(), annotations: vec![] }
}

fn ignored_field(name: &str) -> Field {
    Field { name: name.to_string(), annotations: vec![expand_to(vec![ident("ignore")])] }
}

fn variant(name: &str, shape: Shape, annotations: Vec<Annotation>) -> Variant {
    Variant { name: name.to_string(), shape, annotations }
}

fn arm_of(v: &Variant) -> String {
    let ds = match collect_directives(v) {
        Ok(ds) => ds,
        Err(_) => panic!("broken test directive"),
    };
    let r = select_rule(v, &ds);
    emit_arm("Cmd", v, &ds, &r)
}

fn rule_of(v: &Variant) -> Result<Rule, Diagnostic> {
    let ds = match collect_directives(v) {
        Ok(ds) => ds,
        Err(_) => panic!("broken test directive"),
    };
    select_rule(v, &ds)
}

#[test]
fn unit_variant_renders_its_name() {
    let v = variant("Ping", Shape::Unit, vec![]);
    assert_eq!(rule_of(&v), Ok(Rule::Name("Ping".to_string())));
    assert_eq!(arm_of(&v), "            Cmd::Ping => \"Ping\".to_string(),\n");
}

#[test]
fn unit_variant_renamed() {
    let v = variant("Ping", Shape::Unit, vec![rename("PING")]);
    assert_eq!(rule_of(&v), Ok(Rule::Name("PING".to_string())));
    assert_eq!(arm_of(&v), "            Cmd::Ping => \"PING\".to_string(),\n");
}

#[test]
fn positional_default_quotes_the_values() {
    let v = variant("Move", Shape::Positional(vec![field(""), field("")]), vec![]);
    assert_eq!(rule_of(&v), Ok(Rule::Spaced { name: "Move".to_string(), shown: vec![0, 1] }));
    assert_eq!(
        arm_of(&v),
        "            Cmd::Move(p_0, p_1, ) => format!(\"{} \\\"{} {}\\\"\", \"Move\", p_0, p_1, ),\n"
    );
    assert_eq!(format!("{} \"{} {}\"", "Move", 1, 2), "Move \"1 2\"");
}

#[test]
fn positional_default_skips_ignored_fields_in_template_and_values() {
    let v = variant(
        "Move",
        Shape::Positional(vec![field(""), ignored_field(""), field("")]),
        vec![],
    );
    assert_eq!(rule_of(&v), Ok(Rule::Spaced { name: "Move".to_string(), shown: vec![0, 2] }));
    assert_eq!(
        arm_of(&v),
        "            Cmd::Move(p_0, p_1, p_2, ) => format!(\"{} \\\"{} {}\\\"\", \"Move\", p_0, p_2, ),\n"
    );
}

#[test]
fn positional_template() {
    let v = variant(
        "Log",
        Shape::Positional(vec![field(""), field("")]),
        vec![template("[{}] {}"), test_directive(Some(Tok::Group(Delim::Paren, "3 , \"hi\"".to_string())), "[3] hi")],
    );
    assert_eq!(
        arm_of(&v),
        "            Cmd::Log(p_0, p_1, ) => format!(\"[{}] {}\", p_0, p_1, ),\n"
    );
    assert_eq!(format!("[{}] {}", 3, "hi"), "[3] hi");
}

#[test]
fn named_template() {
    let v = variant(
        "Put",
        Shape::Named(vec![field("key"), field("value")]),
        vec![template("PUT {key} {value}")],
    );
    assert_eq!(
        rule_of(&v),
        Ok(Rule::Named {
            template: "PUT {key} {value}".to_string(),
            shown: vec!["key".to_string(), "value".to_string()],
        })
    );
    assert_eq!(
        arm_of(&v),
        "            Cmd::Put{key, value, } => format!(\"PUT {key} {value}\", key = key, value = value, ),\n"
    );
    let (key, value) = ("a", "b");
    assert_eq!(format!("PUT {key} {value}", key = key, value = value), "PUT a b");
}

#[test]
fn named_template_ignored_field_still_bound() {
    let v = variant(
        "Put",
        Shape::Named(vec![field("key"), ignored_field("secret")]),
        vec![template("PUT {key}")],
    );
    assert_eq!(
        arm_of(&v),
        "            Cmd::Put{key, secret, } => format!(\"PUT {key}\", key = key, ),\n"
    );
}

#[test]
fn delegate_ignores_rename() {
    let v = variant("Noop", Shape::Unit, vec![rename("NOOP"), with("render_noop")]);
    assert_eq!(rule_of(&v), Ok(Rule::Delegate("render_noop".to_string())));
    assert_eq!(
        arm_of(&v),
        "            Cmd::Noop => format!(\"{}\", render_noop(self)),\n"
    );
}

#[test]
fn delegate_on_fields_matches_without_binding() {
    let v = variant("Go", Shape::Named(vec![field("to")]), vec![with("render_go")]);
    assert_eq!(arm_of(&v), "            Cmd::Go{..} => format!(\"{}\", render_go(self)),\n");
    let w = variant("Run", Shape::Positional(vec![field("")]), vec![with("render_run")]);
    assert_eq!(arm_of(&w), "            Cmd::Run(..) => format!(\"{}\", render_run(self)),\n");
}

#[test]
fn template_ignores_rename() {
    let v = variant("Ping", Shape::Unit, vec![rename("PING"), template("ping!")]);
    assert_eq!(rule_of(&v), Ok(Rule::Verbatim("ping!".to_string())));
    assert_eq!(arm_of(&v), "            Cmd::Ping => \"ping!\".to_string(),\n");
}

#[test]
fn named_without_template_is_a_diagnostic() {
    let v = variant("Put", Shape::Named(vec![field("key")]), vec![rename("PUT")]);
    assert_eq!(rule_of(&v), Err(Diagnostic::MissingTemplate));
    assert_eq!(
        arm_of(&v),
        "            Cmd::Put{..} => compile_error!(\"Named fields require an explicit expansion attribute\"),\n"
    );
}

#[test]
fn bad_rename_value_is_a_diagnostic() {
    let v = variant("Ping", Shape::Unit, vec![expand_to(vec![ident("rename"), eq(), Tok::Lit("5".to_string())])]);
    assert_eq!(rule_of(&v), Err(Diagnostic::BadRename));
    assert!(arm_of(&v).starts_with("            Cmd::Ping => compile_error!(\"`rename` must be followed"));
}

#[test]
fn bad_with_value_is_a_diagnostic() {
    let v = variant("Ping", Shape::Unit, vec![expand_to(vec![ident("with"), eq(), Tok::Lit("5".to_string())])]);
    assert_eq!(rule_of(&v), Err(Diagnostic::BadWith));
    let w = variant("Ping", Shape::Unit, vec![with("not a name")]);
    assert_eq!(rule_of(&w), Err(Diagnostic::BadWith));
}

#[test]
fn two_templates_conflict() {
    let v = variant("Ping", Shape::Unit, vec![template("a"), with("f")]);
    assert_eq!(rule_of(&v), Err(Diagnostic::Conflict));
    let w = variant("Ping", Shape::Unit, vec![rename("a"), rename("b")]);
    assert_eq!(rule_of(&w), Err(Diagnostic::Conflict));
}

#[test]
fn parse_recognizes_each_directive() {
    assert_eq!(parse_annotation(&template("x")), Parsed::Directive(Directive::Template("x".to_string())));
    assert_eq!(parse_annotation(&rename("y")), Parsed::Directive(Directive::Rename("y".to_string())));
    assert_eq!(parse_annotation(&with("f")), Parsed::Directive(Directive::With("f".to_string())));
    assert_eq!(
        parse_annotation(&expand_to(vec![ident("rename"), eq(), Tok::Lit("true".to_string())])),
        Parsed::Directive(Directive::BadValue(Keyword::Rename))
    );
    assert_eq!(
        parse_annotation(&expand_to(vec![ident("rename"), eq(), ident("foo")])),
        Parsed::Directive(Directive::BadValue(Keyword::Rename))
    );
    assert_eq!(
        parse_annotation(&expand_to(vec![ident("with"), eq(), string("f"), string("g")])),
        Parsed::Directive(Directive::BadValue(Keyword::With))
    );
    assert_eq!(
        parse_annotation(&test_directive(None, "Ping")),
        Parsed::Directive(Directive::Test(TestSpec { args: None, expected: "Ping".to_string() }))
    );
    assert_eq!(
        parse_annotation(&test_directive(Some(Tok::Group(Delim::Brace, "key : \"a\"".to_string())), "PUT a")),
        Parsed::Directive(Directive::Test(TestSpec {
            args: Some(TestArgs { delim: Delim::Brace, text: "key : \"a\"".to_string() }),
            expected: "PUT a".to_string(),
        }))
    );
}

#[test]
fn parse_ignores_unrelated_annotations() {
    assert_eq!(parse_annotation(&Annotation { path: "doc".to_string(), args: Some(vec![string("x")]) }), Parsed::Ignored);
    assert_eq!(parse_annotation(&Annotation { path: "expand_to".to_string(), args: None }), Parsed::Ignored);
    assert_eq!(parse_annotation(&expand_to(vec![ident("colour"), eq(), string("red")])), Parsed::Ignored);
    assert_eq!(parse_annotation(&expand_to(vec![Tok::Lit("5".to_string())])), Parsed::Ignored);
}

#[test]
fn parse_broken_test_directives() {
    assert_eq!(parse_annotation(&expand_to(vec![ident("test"), eq(), string("x")])), Parsed::BrokenTest);
    let mut no_string = vec![ident("test"), eq()];
    no_string.extend(arrow());
    no_string.push(Tok::Lit("5".to_string()));
    assert_eq!(parse_annotation(&expand_to(no_string)), Parsed::BrokenTest);
    let mut square = vec![ident("test"), eq(), Tok::Group(Delim::Bracket, "1".to_string())];
    square.extend(arrow());
    square.push(string("x"));
    assert_eq!(parse_annotation(&expand_to(square)), Parsed::BrokenTest);
}

#[test]
fn ignore_flag_on_fields() {
    assert!(is_ignored(&ignored_field("a")));
    assert!(!is_ignored(&field("a")));
    let other = Field { name: "a".to_string(), annotations: vec![Annotation { path: "serde".to_string(), args: Some(vec![ident("ignore")]) }] };
    assert!(!is_ignored(&other));
}

#[test]
fn example_test_text() {
    let t = TestSpec {
        args: Some(TestArgs { delim: Delim::Paren, text: "1 , 2".to_string() }),
        expected: "Move \"1 2\"".to_string(),
    };
    assert_eq!(
        emit_test("Cmd", "Move", 12, &t),
        "    #[test]\n    fn Move_12() {\n        let v = Cmd::Move(1 , 2);\n        assert_eq!(Expand::expand(&v), \"Move \\\"1 2\\\"\");\n    }\n"
    );
}

#[test]
fn whole_union() {
    let def = UnionDef {
        name: "Cmd".to_string(),
        variants: vec![
            variant("Ping", Shape::Unit, vec![test_directive(None, "Ping"), test_directive(None, "Ping")]),
            variant("Put", Shape::Named(vec![field("key")]), vec![]),
        ],
    };
    let out = generate(&def).unwrap();
    assert!(out.starts_with("impl Expand for Cmd {\n"));
    assert!(out.contains("            Cmd::Ping => \"Ping\".to_string(),\n            Cmd::Put{..} => compile_error!("));
    assert!(out.contains("fn Ping_0()"));
    assert!(out.contains("fn Ping_1()"));
    assert!(out.contains("mod _GENERATED_TESTS_FOR_Cmd {"));
}

#[test]
fn broken_test_directive_aborts() {
    let def = UnionDef {
        name: "Cmd".to_string(),
        variants: vec![
            variant("Ping", Shape::Unit, vec![]),
            variant("Pong", Shape::Unit, vec![expand_to(vec![ident("test"), eq(), string("x")])]),
            variant("Pang", Shape::Unit, vec![expand_to(vec![ident("test")])]),
        ],
    };
    assert_eq!(generate(&def), Err(BrokenTestDirective { variant: "Pong".to_string() }));
}

#[test]
fn text_helpers() {
    let mut s = String::new();
    push_decimal(&mut s, 0);
    push_decimal(&mut s, 907);
    assert_eq!(s, "0907");
    let mut q = String::new();
    push_quoted(&mut q, "a\"b\\c\nd");
    assert_eq!(q, "\"a\\\"b\\\\c\\nd\"");
    assert!(is_identifier("render_noop"));
    assert!(!is_identifier("_"));
    assert!(!is_identifier("9lives"));
    assert!(!is_identifier(""));
    assert_eq!(spaced_template_text(0), "{} \"\"");
    assert_eq!(spaced_template_text(3), "{} \"{} {} {}\"");
}

#[test]
fn recorded_examples_become_tests() {
    let def = UnionDef {
        name: "Cmd".to_string(),
        variants: vec![
            variant(
                "Log",
                Shape::Positional(vec![field(""), field("")]),
                vec![
                    template("[{}] {}"),
                    test_directive(Some(Tok::Group(Delim::Paren, "3 , \"hi\"".to_string())), "[3] hi"),
                ],
            ),
            variant(
                "Put",
                Shape::Named(vec![field("key"), field("value")]),
                vec![
                    template("PUT {key} {value}"),
                    test_directive(
                        Some(Tok::Group(Delim::Brace, "key : \"a\" , value : \"b\"".to_string())),
                        "PUT a b",
                    ),
                ],
            ),
        ],
    };
    let out = generate(&def).unwrap();
    assert!(out.contains(
        "    #[test]\n    fn Log_0() {\n        let v = Cmd::Log(3 , \"hi\");\n        assert_eq!(Expand::expand(&v), \"[3] hi\");\n    }\n"
    ));
    assert!(out.contains(
        "    #[test]\n    fn Put_0() {\n        let v = Cmd::Put{key : \"a\" , value : \"b\"};\n        assert_eq!(Expand::expand(&v), \"PUT a b\");\n    }\n"
    ));
}

#[test]
fn tests_are_kept_when_the_arm_is_a_diagnostic() {
    let def = UnionDef {
        name: "Cmd".to_string(),
        variants: vec![variant(
            "Put",
            Shape::Named(vec![field("key")]),
            vec![test_directive(Some(Tok::Group(Delim::Brace, "key : 1".to_string())), "x")],
        )],
    };
    let out = generate(&def).unwrap();
    assert!(out.contains("Cmd::Put{..} => compile_error!("));
    assert!(out.contains("fn Put_0()"));
}

#[test]
fn rename_is_ignored_on_positional_default() {
    let plain = variant("Move", Shape::Positional(vec![field(""), field("")]), vec![]);
    let renamed = variant("Move", Shape::Positional(vec![field(""), field("")]), vec![rename("MOVE")]);
    assert_eq!(rule_of(&renamed), Ok(Rule::Spaced { name: "Move".to_string(), shown: vec![0, 1] }));
    assert_eq!(arm_of(&renamed), arm_of(&plain));
    assert_eq!(
        arm_of(&renamed),
        "            Cmd::Move(p_0, p_1, ) => format!(\"{} \\\"{} {}\\\"\", \"Move\", p_0, p_1, ),\n"
    );
}
