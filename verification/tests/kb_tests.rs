use polar_core::error::{Diagnostic, ErrorKind, PolarError, RuntimeError, ValidationError};
use polar_core::kb::KnowledgeBase;
use polar_core::rules::{Parameter, Rule};
use polar_core::sources::Source;
use polar_core::terms::{
    Dictionary, ExternalInstance, InstanceLiteral, Numeric, Operation, Operator, Pattern, Symbol,
    Term, Value,
};

fn sym(name: &str) -> Symbol {
    Symbol::new(name)
}

fn term(value: Value) -> Term {
    Term::new(value)
}

fn var(name: &str) -> Term {
    term(Value::Variable(sym(name)))
}

fn integer(i: i64) -> Term {
    term(Value::Number(Numeric::Integer(i)))
}

fn float(f: f64) -> Term {
    term(Value::Number(Numeric::Float(f.to_bits())))
}

fn string(s: &str) -> Term {
    term(Value::String(s.to_owned()))
}

fn boolean(b: bool) -> Term {
    term(Value::Boolean(b))
}

fn list(items: Vec<Term>) -> Term {
    term(Value::List(items))
}

fn dict(pairs: Vec<(&str, Term)>) -> Dictionary {
    let mut d = Dictionary::new();
    for (k, v) in pairs {
        d.insert(sym(k), v);
    }
    d
}

fn dict_term(pairs: Vec<(&str, Term)>) -> Term {
    term(Value::Dictionary(dict(pairs)))
}

fn instance(tag: &str) -> Term {
    term(Value::Pattern(Pattern::Instance(InstanceLiteral {
        tag: sym(tag),
        fields: Dictionary::new(),
    })))
}

fn instance_with(tag: &str, fields: Vec<(&str, Term)>) -> Term {
    term(Value::Pattern(Pattern::Instance(InstanceLiteral {
        tag: sym(tag),
        fields: dict(fields),
    })))
}

fn dict_pattern(pairs: Vec<(&str, Term)>) -> Term {
    term(Value::Pattern(Pattern::Dictionary(dict(pairs))))
}

fn spec_param(name: &str, specializer: Term) -> Parameter {
    Parameter::new(var(name), Some(specializer))
}

fn plain_param(parameter: Term) -> Parameter {
    Parameter::new(parameter, None)
}

fn empty_body() -> Term {
    term(Value::Expression(Operation {
        operator: Operator::And,
        args: Vec::new(),
    }))
}

fn rule(name: &str, params: Vec<Parameter>) -> Rule {
    Rule::new(sym(name), params, empty_body())
}

fn external(instance_id: u64) -> Term {
    term(Value::ExternalInstance(ExternalInstance {
        instance_id,
        repr: None,
    }))
}

#[test]
fn test_add_source_file_validation() {
    let mut kb = KnowledgeBase::new();
    let src = "f();";
    let filename1 = "f";
    let source1 = Source::new(src.to_owned(), Some(filename1.to_owned()));

    // Load source1.
    kb.add_source(source1.clone()).unwrap();

    // Cannot load source1 a second time.
    let msg = match kb.add_source(source1).unwrap_err() {
        PolarError {
            kind: ErrorKind::Runtime(RuntimeError::FileLoading { msg }),
            ..
        } => msg,
        e => panic!("{}", e.message()),
    };
    assert_eq!(msg, format!("File {} has already been loaded.", filename1));

    // Cannot load source2 with the same name as source1 but different contents.
    let source2 = Source::new("g();".to_owned(), Some(filename1.to_owned()));
    let msg = match kb.add_source(source2).unwrap_err() {
        PolarError {
            kind: ErrorKind::Runtime(RuntimeError::FileLoading { msg }),
            ..
        } => msg,
        e => panic!("{}", e.message()),
    };
    assert_eq!(
        msg,
        format!(
            "A file with the name {}, but different contents has already been loaded.",
            filename1
        ),
    );

    // Cannot load source3 with the same contents as source1 but a different name.
    let filename2 = "g";
    let source3 = Source::new(src.to_owned(), Some(filename2.to_owned()));
    let msg = match kb.add_source(source3).unwrap_err() {
        PolarError {
            kind: ErrorKind::Runtime(RuntimeError::FileLoading { msg }),
            ..
        } => msg,
        e => panic!("{}", e.message()),
    };
    assert_eq!(
        msg,
        format!(
            "A file with the same contents as {} named {} has already been loaded.",
            filename2, filename1
        ),
    );
}

#[test]
fn test_rule_params_match() {
    let mut kb = KnowledgeBase::new();

    let constant = |kb: &mut KnowledgeBase, name: &str, instance_id: u64| {
        kb.register_constant(sym(name), external(instance_id))
            .unwrap();
    };

    constant(&mut kb, "Fruit", 1);
    constant(&mut kb, "Citrus", 2);
    constant(&mut kb, "Orange", 3);
    // Foo only appears as a rule type specializer, so it needs no MRO.
    constant(&mut kb, "Foo", 4);

    // Registered here because these tests bypass the normal load process,
    // where the host library registers the built-in classes.
    constant(&mut kb, "Integer", 5);
    constant(&mut kb, "Float", 6);
    constant(&mut kb, "String", 7);
    constant(&mut kb, "Boolean", 8);
    constant(&mut kb, "List", 9);
    constant(&mut kb, "Dictionary", 10);

    kb.add_mro(sym("Fruit"), vec![1]).unwrap();
    // Citrus is a subclass of Fruit.
    kb.add_mro(sym("Citrus"), vec![2, 1]).unwrap();
    // Orange is a subclass of Citrus.
    kb.add_mro(sym("Orange"), vec![3, 2, 1]).unwrap();

    kb.add_mro(sym("Integer"), vec![]).unwrap();
    kb.add_mro(sym("Float"), vec![]).unwrap();
    kb.add_mro(sym("String"), vec![]).unwrap();
    kb.add_mro(sym("Boolean"), vec![]).unwrap();
    kb.add_mro(sym("List"), vec![]).unwrap();
    kb.add_mro(sym("Dictionary"), vec![]).unwrap();

    // BOTH PATTERN SPEC
    // rule: f(x: Fruit), rule_type: f(x: Fruit) => PASS
    assert!(kb
        .rule_params_match(
            &rule("f", vec![spec_param("x", instance("Fruit"))]),
            &rule("f", vec![spec_param("x", instance("Fruit"))]),
        )
        .unwrap()
        .is_true());

    // rule: f(x: Fruit), rule_type: f(x: Citrus) => FAIL (not a subclass)
    assert!(!kb
        .rule_params_match(
            &rule("f", vec![spec_param("x", instance("Fruit"))]),
            &rule("f", vec![spec_param("x", instance("Citrus"))]),
        )
        .unwrap()
        .is_true());

    // rule: f(x: Citrus), rule_type: f(x: Fruit) => PASS (subclass)
    assert!(kb
        .rule_params_match(
            &rule("f", vec![spec_param("x", instance("Citrus"))]),
            &rule("f", vec![spec_param("x", instance("Fruit"))]),
        )
        .unwrap()
        .is_true());
    assert!(kb
        .rule_params_match(
            &rule("f", vec![spec_param("x", instance("Orange"))]),
            &rule("f", vec![spec_param("x", instance("Fruit"))]),
        )
        .unwrap()
        .is_true());

    // rule: f(x: Foo), rule_type: f(x: {id: 1}) => FAIL
    assert!(!kb
        .rule_params_match(
            &rule("f", vec![spec_param("x", instance("Foo"))]),
            &rule("f", vec![spec_param("x", dict_pattern(vec![("id", integer(1))]))]),
        )
        .unwrap()
        .is_true());
    // rule: f(x: Foo{id: 1}), rule_type: f(x: {id: 1}) => PASS
    assert!(kb
        .rule_params_match(
            &rule(
                "f",
                vec![spec_param("x", instance_with("Foo", vec![("id", integer(1))]))],
            ),
            &rule("f", vec![spec_param("x", dict_pattern(vec![("id", integer(1))]))]),
        )
        .unwrap()
        .is_true());
    // rule: f(x: {id: 1}), rule_type: f(x: Foo{id: 1}) => FAIL
    assert!(!kb
        .rule_params_match(
            &rule("f", vec![spec_param("x", dict_pattern(vec![("id", integer(1))]))]),
            &rule(
                "f",
                vec![spec_param("x", instance_with("Foo", vec![("id", integer(1))]))],
            ),
        )
        .unwrap()
        .is_true());
    // rule: f(x: {id: 1}), rule_type: f(x: {id: 1}) => PASS
    assert!(kb
        .rule_params_match(
            &rule("f", vec![spec_param("x", dict_pattern(vec![("id", integer(1))]))]),
            &rule("f", vec![spec_param("x", dict_pattern(vec![("id", integer(1))]))]),
        )
        .unwrap()
        .is_true());

    // RULE VALUE SPEC, TEMPLATE PATTERN SPEC
    // rule: f(x: 6), rule_type: f(x: Integer) => PASS
    assert!(kb
        .rule_params_match(
            &rule("f", vec![spec_param("x", integer(6))]),
            &rule("f", vec![spec_param("x", instance("Integer"))]),
        )
        .unwrap()
        .is_true());

    // rule: f(x: 6), rule_type: f(x: Foo) => FAIL
    assert!(!kb
        .rule_params_match(
            &rule("f", vec![spec_param("x", integer(6))]),
            &rule("f", vec![spec_param("x", instance("Foo"))]),
        )
        .unwrap()
        .is_true());
    // rule: f(x: "string"), rule_type: f(x: Integer) => FAIL
    assert!(!kb
        .rule_params_match(
            &rule("f", vec![spec_param("x", string("string"))]),
            &rule("f", vec![spec_param("x", instance("Integer"))]),
        )
        .unwrap()
        .is_true());
    // rule: f(x: 6.0), rule_type: f(x: Float) => PASS
    assert!(kb
        .rule_params_match(
            &rule("f", vec![spec_param("x", float(6.0))]),
            &rule("f", vec![spec_param("x", instance("Float"))]),
        )
        .unwrap()
        .is_true());
    // rule: f(x: 6.0), rule_type: f(x: Foo) => FAIL
    assert!(!kb
        .rule_params_match(
            &rule("f", vec![spec_param("x", float(6.0))]),
            &rule("f", vec![spec_param("x", instance("Foo"))]),
        )
        .unwrap()
        .is_true());
    // rule: f(x: 6), rule_type: f(x: Float) => FAIL
    assert!(!kb
        .rule_params_match(
            &rule("f", vec![spec_param("x", integer(6))]),
            &rule("f", vec![spec_param("x", instance("Float"))]),
        )
        .unwrap()
        .is_true());
    // rule: f(x: "hi"), rule_type: f(x: String) => PASS
    assert!(kb
        .rule_params_match(
            &rule("f", vec![spec_param("x", string("hi"))]),
            &rule("f", vec![spec_param("x", instance("String"))]),
        )
        .unwrap()
        .is_true());
    // rule: f(x: "hi"), rule_type: f(x: Foo) => FAIL
    assert!(!kb
        .rule_params_match(
            &rule("f", vec![spec_param("x", string("hi"))]),
            &rule("f", vec![spec_param("x", instance("Foo"))]),
        )
        .unwrap()
        .is_true());
    // rule: f(x: 6), rule_type: f(x: String) => FAIL
    assert!(!kb
        .rule_params_match(
            &rule("f", vec![spec_param("x", integer(6))]),
            &rule("f", vec![spec_param("x", instance("String"))]),
        )
        .unwrap()
        .is_true());
    // Primitive types cannot have fields.
    // rule: f(x: "hello"), rule_type: f(x: String{id: 1}) => FAIL
    assert!(!kb
        .rule_params_match(
            &rule("f", vec![spec_param("x", string("hello"))]),
            &rule(
                "f",
                vec![spec_param("x", instance_with("String", vec![("id", integer(1))]))],
            ),
        )
        .unwrap()
        .is_true());
    // rule: f(x: true), rule_type: f(x: Boolean) => PASS
    assert!(kb
        .rule_params_match(
            &rule("f", vec![spec_param("x", boolean(true))]),
            &rule("f", vec![spec_param("x", instance("Boolean"))]),
        )
        .unwrap()
        .is_true());
    // rule: f(x: true), rule_type: f(x: Foo) => FAIL
    assert!(!kb
        .rule_params_match(
            &rule("f", vec![spec_param("x", boolean(true))]),
            &rule("f", vec![spec_param("x", instance("Foo"))]),
        )
        .unwrap()
        .is_true());
    // rule: f(x: 6), rule_type: f(x: Boolean) => FAIL
    assert!(!kb
        .rule_params_match(
            &rule("f", vec![spec_param("x", integer(6))]),
            &rule("f", vec![spec_param("x", instance("Boolean"))]),
        )
        .unwrap()
        .is_true());
    // rule: f(x: [1, 2]), rule_type: f(x: List) => PASS
    assert!(kb
        .rule_params_match(
            &rule("f", vec![spec_param("x", list(vec![integer(1), integer(2)]))]),
            &rule("f", vec![spec_param("x", instance("List"))]),
        )
        .unwrap()
        .is_true());
    // rule: f(x: [1, 2]), rule_type: f(x: Foo) => FAIL
    assert!(!kb
        .rule_params_match(
            &rule("f", vec![spec_param("x", list(vec![integer(1), integer(2)]))]),
            &rule("f", vec![spec_param("x", instance("Foo"))]),
        )
        .unwrap()
        .is_true());
    // rule: f(x: 6), rule_type: f(x: List) => FAIL
    assert!(!kb
        .rule_params_match(
            &rule("f", vec![spec_param("x", integer(6))]),
            &rule("f", vec![spec_param("x", instance("List"))]),
        )
        .unwrap()
        .is_true());
    // rule: f(x: {id: 1}), rule_type: f(x: Dictionary) => PASS
    assert!(kb
        .rule_params_match(
            &rule("f", vec![spec_param("x", dict_term(vec![("id", integer(1))]))]),
            &rule("f", vec![spec_param("x", instance("Dictionary"))]),
        )
        .unwrap()
        .is_true());
    // rule: f(x: {id: 1}), rule_type: f(x: Foo) => FAIL
    assert!(!kb
        .rule_params_match(
            &rule("f", vec![spec_param("x", dict_term(vec![("id", integer(1))]))]),
            &rule("f", vec![spec_param("x", instance("Foo"))]),
        )
        .unwrap()
        .is_true());
    // rule: f({id: 1}), rule_type: f(x: Foo) => FAIL
    assert!(!kb
        .rule_params_match(
            &rule("f", vec![plain_param(dict_term(vec![("id", integer(1))]))]),
            &rule("f", vec![spec_param("x", instance("Foo"))]),
        )
        .unwrap()
        .is_true());
    // rule: f(x: 6), rule_type: f(x: Dictionary) => FAIL
    assert!(!kb
        .rule_params_match(
            &rule("f", vec![spec_param("x", integer(6))]),
            &rule("f", vec![spec_param("x", instance("Dictionary"))]),
        )
        .unwrap()
        .is_true());
    // rule: f(x: {id: 1}), rule_type: f(x: Dictionary{id: 1}) => PASS
    assert!(kb
        .rule_params_match(
            &rule("f", vec![spec_param("x", dict_term(vec![("id", integer(1))]))]),
            &rule(
                "f",
                vec![spec_param(
                    "x",
                    instance_with("Dictionary", vec![("id", integer(1))]),
                )],
            ),
        )
        .unwrap()
        .is_true());

    // RULE PATTERN SPEC, TEMPLATE VALUE SPEC: always => FAIL
    assert!(!kb
        .rule_params_match(
            &rule("f", vec![spec_param("x", dict_pattern(vec![("1", integer(1))]))]),
            &rule("f", vec![spec_param("x", integer(1))]),
        )
        .unwrap()
        .is_true());

    // BOTH VALUE SPEC
    // Integer, String, Boolean: must be equal.
    assert!(kb
        .rule_params_match(
            &rule("f", vec![spec_param("x", integer(1))]),
            &rule("f", vec![spec_param("x", integer(1))]),
        )
        .unwrap()
        .is_true());
    assert!(!kb
        .rule_params_match(
            &rule("f", vec![spec_param("x", integer(1))]),
            &rule("f", vec![spec_param("x", integer(2))]),
        )
        .unwrap()
        .is_true());
    assert!(kb
        .rule_params_match(
            &rule("f", vec![spec_param("x", float(1.0))]),
            &rule("f", vec![spec_param("x", float(1.0))]),
        )
        .unwrap()
        .is_true());
    assert!(!kb
        .rule_params_match(
            &rule("f", vec![spec_param("x", float(1.0))]),
            &rule("f", vec![spec_param("x", float(2.0))]),
        )
        .unwrap()
        .is_true());
    assert!(kb
        .rule_params_match(
            &rule("f", vec![spec_param("x", string("hi"))]),
            &rule("f", vec![spec_param("x", string("hi"))]),
        )
        .unwrap()
        .is_true());
    assert!(!kb
        .rule_params_match(
            &rule("f", vec![spec_param("x", string("hi"))]),
            &rule("f", vec![spec_param("x", string("hello"))]),
        )
        .unwrap()
        .is_true());
    assert!(kb
        .rule_params_match(
            &rule("f", vec![spec_param("x", boolean(true))]),
            &rule("f", vec![spec_param("x", boolean(true))]),
        )
        .unwrap()
        .is_true());
    assert!(!kb
        .rule_params_match(
            &rule("f", vec![spec_param("x", boolean(true))]),
            &rule("f", vec![spec_param("x", boolean(false))]),
        )
        .unwrap()
        .is_true());
    // List: the rule list must be a superset of the rule type list.
    // rule: f(x: [1,2,3]), rule_type: f(x: [1,2]) => PASS
    assert!(kb
        .rule_params_match(
            &rule(
                "f",
                vec![spec_param("x", list(vec![integer(1), integer(2), integer(3)]))],
            ),
            &rule("f", vec![spec_param("x", list(vec![integer(1), integer(2)]))]),
        )
        .unwrap()
        .is_true());
    // rule: f(x: [1,2]), rule_type: f(x: [1,2,3]) => FAIL
    assert!(!kb
        .rule_params_match(
            &rule("f", vec![spec_param("x", list(vec![integer(1), integer(2)]))]),
            &rule(
                "f",
                vec![spec_param("x", list(vec![integer(1), integer(2), integer(3)]))],
            ),
        )
        .unwrap()
        .is_true());
    // A rest variable in a rule type list is an error.
    assert!(kb
        .rule_params_match(
            &rule("f", vec![spec_param("x", list(vec![integer(1), integer(2)]))]),
            &rule(
                "f",
                vec![spec_param(
                    "x",
                    list(vec![
                        integer(1),
                        integer(2),
                        term(Value::RestVariable(sym("*_rest"))),
                    ]),
                )],
            ),
        )
        .is_err());
    // Dict: the rule dict must be a superset of the rule type dict.
    assert!(kb
        .rule_params_match(
            &rule(
                "f",
                vec![spec_param(
                    "x",
                    dict_term(vec![("id", integer(1)), ("name", var("Dave"))]),
                )],
            ),
            &rule("f", vec![spec_param("x", dict_term(vec![("id", integer(1))]))]),
        )
        .unwrap()
        .is_true());
    assert!(!kb
        .rule_params_match(
            &rule("f", vec![spec_param("x", dict_term(vec![("id", integer(1))]))]),
            &rule(
                "f",
                vec![spec_param(
                    "x",
                    dict_term(vec![("id", integer(1)), ("name", var("Dave"))]),
                )],
            ),
        )
        .unwrap()
        .is_true());

    // RULE None SPEC, TEMPLATE Some SPEC: always => FAIL
    assert!(!kb
        .rule_params_match(
            &rule("f", vec![plain_param(var("x"))]),
            &rule("f", vec![spec_param("x", instance("Foo"))]),
        )
        .unwrap()
        .is_true());

    // RULE Some SPEC, TEMPLATE None SPEC: always => PASS
    assert!(kb
        .rule_params_match(
            &rule("f", vec![spec_param("x", instance("Foo"))]),
            &rule("f", vec![plain_param(var("x"))]),
        )
        .unwrap()
        .is_true());
}

#[test]
fn test_validate_rules() {
    let mut kb = KnowledgeBase::new();
    kb.register_constant(sym("Fruit"), external(1)).unwrap();
    kb.register_constant(sym("Citrus"), external(2)).unwrap();
    kb.register_constant(sym("Orange"), external(3)).unwrap();
    kb.add_mro(sym("Fruit"), vec![1]).unwrap();
    // Citrus is a subclass of Fruit.
    kb.add_mro(sym("Citrus"), vec![2, 1]).unwrap();
    // Orange is a subclass of Citrus.
    kb.add_mro(sym("Orange"), vec![3, 2, 1]).unwrap();

    // A rule type applies when it has the same name as a rule.
    kb.add_rule_type(rule("f", vec![spec_param("x", instance("Orange"))]));
    kb.add_rule(rule("f", vec![spec_param("x", instance("Orange"))]));
    kb.add_rule(rule("f", vec![spec_param("x", instance("Fruit"))]));

    let diagnostics = kb.validate_rules();
    assert_eq!(diagnostics.len(), 1);
    assert!(matches!(
        diagnostics.first().unwrap(),
        Diagnostic::Error(PolarError {
            kind: ErrorKind::Validation(ValidationError::InvalidRule { .. }),
            ..
        })
    ));

    // A rule type does not apply to rules of another name.
    kb.clear_rules();
    kb.add_rule_type(rule("f", vec![spec_param("x", instance("Orange"))]));
    kb.add_rule(rule("f", vec![spec_param("x", instance("Orange"))]));
    kb.add_rule(rule("g", vec![spec_param("x", instance("Fruit"))]));
    assert!(kb.validate_rules().is_empty());

    // A rule type of the same name applies even at a different arity.
    kb.clear_rules();
    kb.add_rule_type(rule(
        "f",
        vec![spec_param("x", instance("Orange")), plain_param(integer(1))],
    ));
    kb.add_rule(rule("f", vec![spec_param("x", instance("Orange"))]));

    assert!(matches!(
        kb.validate_rules().first().unwrap(),
        Diagnostic::Error(PolarError {
            kind: ErrorKind::Validation(ValidationError::InvalidRule { .. }),
            ..
        })
    ));

    // Multiple templates can exist for one name; one match suffices.
    kb.clear_rules();
    kb.add_rule_type(rule("f", vec![spec_param("x", instance("Orange"))]));
    kb.add_rule_type(rule(
        "f",
        vec![spec_param("x", instance("Orange")), plain_param(integer(1))],
    ));
    kb.add_rule_type(rule("f", vec![spec_param("x", instance("Fruit"))]));
    kb.add_rule(rule("f", vec![spec_param("x", instance("Fruit"))]));
    assert!(kb.validate_rules().is_empty());
}

#[test]
fn test_rule_type_validation_errors_for_non_class_specializers() {
    let mut kb = KnowledgeBase::new();

    kb.register_constant(sym("String1"), string("not an external instance"))
        .unwrap();
    kb.register_constant(sym("String2"), string("also not an external instance"))
        .unwrap();
    kb.register_constant(sym("ExternalInstanceWithoutMRO1"), external(1))
        .unwrap();
    kb.register_constant(sym("ExternalInstanceWithoutMRO2"), external(2))
        .unwrap();
    kb.register_constant(sym("Class1"), external(3)).unwrap();
    kb.add_mro(sym("Class1"), vec![3]).unwrap();
    kb.register_constant(sym("Class2"), external(4)).unwrap();
    kb.add_mro(sym("Class2"), vec![4]).unwrap();

    // Same unregistered specializer.
    kb.add_rule_type(rule("f", vec![spec_param("_", instance("Unregistered"))]));
    kb.add_rule(rule("f", vec![spec_param("_", instance("Unregistered"))]));
    assert!(kb.validate_rules().is_empty());

    // Different unregistered specializers.
    kb.clear_rules();
    kb.add_rule_type(rule("f", vec![spec_param("_", instance("Unregistered1"))]));
    kb.add_rule(rule("f", vec![spec_param("_", instance("Unregistered2"))]));
    let diagnostics = kb.validate_rules();
    assert_eq!(diagnostics.len(), 1);
    let diagnostic = diagnostics.first().unwrap().message();
    assert_eq!(diagnostic, "Unregistered class: Unregistered1");

    // Same specializer registered as a non-instance constant.
    kb.clear_rules();
    kb.add_rule_type(rule("f", vec![spec_param("_", instance("String1"))]));
    kb.add_rule(rule("f", vec![spec_param("_", instance("String1"))]));
    assert!(kb.validate_rules().is_empty());

    // Different specializers registered as non-instance constants.
    kb.clear_rules();
    kb.add_rule_type(rule("f", vec![spec_param("_", instance("String1"))]));
    kb.add_rule(rule("f", vec![spec_param("_", instance("String2"))]));
    let diagnostics = kb.validate_rules();
    assert_eq!(diagnostics.len(), 1);
    let diagnostic = diagnostics.first().unwrap().message();
    let expected = "Rule type specializer String1 on parameter 1 should be a registered class, but instead it's registered as a constant with value: \"not an external instance\"";
    assert!(diagnostic.contains(expected), "{}", diagnostic);

    // Same specializer registered as an external instance without an MRO.
    kb.clear_rules();
    kb.add_rule_type(rule(
        "f",
        vec![spec_param("_", instance("ExternalInstanceWithoutMRO1"))],
    ));
    kb.add_rule(rule(
        "f",
        vec![spec_param("_", instance("ExternalInstanceWithoutMRO1"))],
    ));
    assert!(kb.validate_rules().is_empty());

    // Different specializers registered as external instances without MROs.
    kb.clear_rules();
    kb.add_rule_type(rule(
        "f",
        vec![spec_param("_", instance("ExternalInstanceWithoutMRO1"))],
    ));
    kb.add_rule(rule(
        "f",
        vec![spec_param("_", instance("ExternalInstanceWithoutMRO2"))],
    ));
    let diagnostics = kb.validate_rules();
    assert_eq!(diagnostics.len(), 1);
    let diagnostic = diagnostics.first().unwrap().message();
    let expected =
        "Rule specializer ExternalInstanceWithoutMRO2 on parameter 1 is not registered as a class.";
    assert!(diagnostic.contains(expected), "{}", diagnostic);

    // Same specializer registered as a class.
    kb.clear_rules();
    kb.add_rule_type(rule("f", vec![spec_param("_", instance("Class1"))]));
    kb.add_rule(rule("f", vec![spec_param("_", instance("Class1"))]));
    assert!(kb.validate_rules().is_empty());

    // Different specializers registered as classes.
    kb.clear_rules();
    kb.add_rule_type(rule("f", vec![spec_param("_", instance("Class1"))]));
    kb.add_rule(rule("f", vec![spec_param("_", instance("Class2"))]));
    let diagnostics = kb.validate_rules();
    assert_eq!(diagnostics.len(), 1);
    let diagnostic = diagnostics.first().unwrap().message();
    let expected = "Rule specializer Class2 on parameter 1 must match rule type specializer Class1";
    assert!(diagnostic.contains(expected), "{}", diagnostic);

    // Rule type specializer: unregistered; rule specializer: non-instance constant.
    kb.clear_rules();
    kb.add_rule_type(rule("f", vec![spec_param("_", instance("Unregistered"))]));
    kb.add_rule(rule("f", vec![spec_param("_", instance("String1"))]));
    let diagnostics = kb.validate_rules();
    assert_eq!(diagnostics.len(), 1);
    let diagnostic = diagnostics.first().unwrap().message();
    assert_eq!(diagnostic, "Unregistered class: Unregistered");

    // Rule type specializer: non-instance constant; rule specializer: unregistered.
    kb.clear_rules();
    kb.add_rule_type(rule("f", vec![spec_param("_", instance("String1"))]));
    kb.add_rule(rule("f", vec![spec_param("_", instance("Unregistered"))]));
    let diagnostics = kb.validate_rules();
    assert_eq!(diagnostics.len(), 1);
    let diagnostic = diagnostics.first().unwrap().message();
    let expected = "Rule type specializer String1 on parameter 1 should be a registered class, but instead it's registered as a constant with value: \"not an external instance\"";
    assert!(diagnostic.contains(expected), "{}", diagnostic);

    // Rule type specializer: external instance without MRO; rule specializer: unregistered.
    kb.clear_rules();
    kb.add_rule_type(rule(
        "f",
        vec![spec_param("_", instance("ExternalInstanceWithoutMRO1"))],
    ));
    kb.add_rule(rule("f", vec![spec_param("_", instance("Unregistered"))]));
    let diagnostics = kb.validate_rules();
    assert_eq!(diagnostics.len(), 1);
    let diagnostic = diagnostics.first().unwrap().message();
    let expected = "Rule specializer Unregistered on parameter 1 is not registered as a class.";
    assert!(diagnostic.contains(expected), "{}", diagnostic);

    // Rule type specializer: external instance without MRO; rule specializer: class.
    kb.clear_rules();
    kb.add_rule_type(rule(
        "f",
        vec![spec_param("_", instance("ExternalInstanceWithoutMRO1"))],
    ));
    kb.add_rule(rule("f", vec![spec_param("_", instance("Class1"))]));
    let diagnostics = kb.validate_rules();
    assert_eq!(diagnostics.len(), 1);
    let diagnostic = diagnostics.first().unwrap().message();
    let expected = "Rule specializer Class1 on parameter 1 must match rule type specializer ExternalInstanceWithoutMRO1";
    assert!(diagnostic.contains(expected), "{}", diagnostic);
}
