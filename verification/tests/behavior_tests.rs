use polar_core::error::{Diagnostic, ErrorKind, PolarError, RuntimeError, ValidationError};
use polar_core::fmt::{i64_to_string, u64_to_string};
use polar_core::kb::KnowledgeBase;
use polar_core::resource_block::{Declaration, ShorthandRule};
use polar_core::rules::{Parameter, Rule};
use polar_core::sources::Source;
use polar_core::terms::{
    Dictionary, ExternalInstance, InstanceLiteral, Numeric, Operation, Operator, Pattern, Symbol,
    Term, Value,
};

fn sym(name: &str) -> Symbol {
    Symbol::new(name)
}

fn term(value: Value) -> Term {
    Term::new(value)
}

fn var(name: &str) -> Term {
    term(Value::Variable(sym(name)))
}

fn integer(i: i64) -> Term {
    term(Value::Number(Numeric::Integer(i)))
}

fn string(s: &str) -> Term {
    term(Value::String(s.to_owned()))
}

fn instance(tag: &str) -> Term {
    term(Value::Pattern(Pattern::Instance(InstanceLiteral {
        tag: sym(tag),
        fields: Dictionary::new(),
    })))
}

fn spec_param(name: &str, specializer: Term) -> Parameter {
    Parameter::new(var(name), Some(specializer))
}

fn empty_body() -> Term {
    term(Value::Expression(Operation {
        operator: Operator::And,
        args: Vec::new(),
    }))
}

fn rule(name: &str, params: Vec<Parameter>) -> Rule {
    Rule::new(sym(name), params, empty_body())
}

fn external(instance_id: u64) -> Term {
    term(Value::ExternalInstance(ExternalInstance {
        instance_id,
        repr: None,
    }))
}

#[test]
fn test_new_ids_strictly_monotonic() {
    let mut kb = KnowledgeBase::new();
    let first = kb.new_id();
    let second = kb.new_id();
    let third = kb.new_id();
    assert_eq!(first, 1);
    assert_eq!(second, 2);
    assert_eq!(third, 3);
    assert!(first < second && second < third);
    assert!(third < (1u64 << 52));
}

#[test]
fn test_gensym_prefixes_and_increasing_suffixes() {
    let mut kb = KnowledgeBase::new();
    let underscore = kb.gensym("_");
    let named = kb.gensym("x");
    let again = kb.gensym("x");
    assert_eq!(underscore.0, "_1");
    assert_eq!(named.0, "_x_2");
    assert_eq!(again.0, "_x_3");
}

#[test]
fn test_temp_prefix_transform() {
    assert_eq!(KnowledgeBase::temp_prefix("_"), "_");
    assert_eq!(KnowledgeBase::temp_prefix("x"), "_x_");
    assert_eq!(KnowledgeBase::temp_prefix("value"), "_value_");
}

#[test]
fn test_register_constant_refuses_union_tags() {
    let mut kb = KnowledgeBase::new();
    let err = kb.register_constant(sym("Actor"), external(1)).unwrap_err();
    match err.kind {
        ErrorKind::Runtime(RuntimeError::InvalidRegistration { msg, sym: name }) => {
            assert_eq!(msg, "'Actor' is a built-in specializer.");
            assert_eq!(name.0, "Actor");
        }
        _ => panic!("expected an invalid-registration error"),
    }
    let err = kb
        .register_constant(sym("Resource"), external(2))
        .unwrap_err();
    match err.kind {
        ErrorKind::Runtime(RuntimeError::InvalidRegistration { msg, .. }) => {
            assert_eq!(msg, "'Resource' is a built-in specializer.");
        }
        _ => panic!("expected an invalid-registration error"),
    }
    assert!(kb.register_constant(sym("Actress"), external(3)).is_ok());
    assert!(kb.is_constant(&sym("Actress")));
    assert!(!kb.is_constant(&sym("Actor")));
}

#[test]
fn test_add_mro_requires_registered_class() {
    let mut kb = KnowledgeBase::new();
    let err = kb.add_mro(sym("Ghostly"), vec![1]).unwrap_err();
    match err.kind {
        ErrorKind::Runtime(RuntimeError::InvalidState { msg }) => {
            assert_eq!(msg, "Cannot add MRO for unregistered class Ghostly");
        }
        _ => panic!("expected an invalid-state error"),
    }
    kb.register_constant(sym("Solid"), external(1)).unwrap();
    assert!(kb.add_mro(sym("Solid"), vec![1]).is_ok());
}

#[test]
fn test_clear_rules_preserves_constants_mros_and_counters() {
    let mut kb = KnowledgeBase::new();
    kb.register_constant(sym("Fruit"), external(1)).unwrap();
    kb.add_mro(sym("Fruit"), vec![1]).unwrap();
    let id_before = kb.new_id();
    kb.add_rule(rule("f", vec![spec_param("x", instance("Fruit"))]));
    kb.add_rule_type(rule("f", vec![spec_param("x", instance("Fruit"))]));
    kb.add_source(Source::new("f();".to_owned(), Some("f".to_owned())))
        .unwrap();
    assert!(kb.has_rules());

    kb.clear_rules();

    assert!(!kb.has_rules());
    assert!(kb.get_generic_rule(&sym("f")).is_none());
    assert!(kb.get_rule_types(&sym("f")).is_none());
    assert!(kb.is_constant(&sym("Fruit")));
    // The same file can be loaded again after the sources are cleared.
    assert!(kb
        .add_source(Source::new("f();".to_owned(), Some("f".to_owned())))
        .is_ok());
    // Counters survive: IDs keep increasing past the ones dispensed before.
    let id_after = kb.new_id();
    assert!(id_after > id_before);
}

#[test]
fn test_add_source_without_filename_always_admitted() {
    let mut kb = KnowledgeBase::new();
    let first = kb.add_source(Source::new("f();".to_owned(), None)).unwrap();
    let second = kb.add_source(Source::new("f();".to_owned(), None)).unwrap();
    assert!(first < second);
}

#[test]
fn test_union_membership_and_members() {
    let mut kb = KnowledgeBase::new();
    assert!(kb.is_union(&var("Actor")));
    assert!(kb.is_union(&var("Resource")));
    assert!(!kb.is_union(&var("Repo")));
    assert!(!kb.is_union(&string("Actor")));

    kb.resource_blocks.add_actor(var("User"));
    kb.resource_blocks.add_resource(var("Repo"));
    kb.resource_blocks.add_resource(var("Repo"));
    assert_eq!(kb.get_union_members(&var("Actor")).len(), 1);
    assert_eq!(kb.get_union_members(&var("Resource")).len(), 1);
}

#[test]
fn test_rule_matching_against_resource_union() {
    let mut kb = KnowledgeBase::new();
    // Repo is a resource; Issue's MRO inherits from Repo.
    kb.register_constant(sym("Repo"), external(1)).unwrap();
    kb.register_constant(sym("Issue"), external(2)).unwrap();
    kb.add_mro(sym("Repo"), vec![1]).unwrap();
    kb.add_mro(sym("Issue"), vec![2, 1]).unwrap();
    kb.resource_blocks.add_resource(var("Repo"));

    // A direct member matches the Resource union.
    assert!(kb
        .rule_params_match(
            &rule("f", vec![spec_param("x", instance("Repo"))]),
            &rule("f", vec![spec_param("x", instance("Resource"))]),
        )
        .unwrap()
        .is_true());
    // A subclass of a member matches the Resource union too.
    assert!(kb
        .rule_params_match(
            &rule("f", vec![spec_param("x", instance("Issue"))]),
            &rule("f", vec![spec_param("x", instance("Resource"))]),
        )
        .unwrap()
        .is_true());
    // An unrelated class does not, and the message suggests a block.
    kb.register_constant(sym("Statue"), external(3)).unwrap();
    kb.add_mro(sym("Statue"), vec![3]).unwrap();
    match kb
        .rule_params_match(
            &rule("f", vec![spec_param("x", instance("Statue"))]),
            &rule("f", vec![spec_param("x", instance("Resource"))]),
        )
        .unwrap()
    {
        polar_core::kb::RuleParamMatch::False(msg) => {
            assert!(msg.contains(
                "Rule specializer Statue on parameter 1 must be a member of rule type specializer Resource"
            ));
            assert!(msg.contains("resource Statue { .. }"));
        }
        _ => panic!("expected the union membership to fail"),
    }
}

#[test]
fn test_rule_matches_itself_as_its_own_type() {
    let mut kb = KnowledgeBase::new();
    kb.register_constant(sym("Fruit"), external(1)).unwrap();
    kb.add_mro(sym("Fruit"), vec![1]).unwrap();
    let make = || {
        rule(
            "f",
            vec![
                spec_param("x", instance("Fruit")),
                Parameter::new(var("y"), None),
                Parameter::new(integer(3), None),
            ],
        )
    };
    kb.add_rule_type(make());
    kb.add_rule(make());
    assert!(kb.validate_rules().is_empty());
    assert!(kb.rule_params_match(&make(), &make()).unwrap().is_true());
}

#[test]
fn test_missing_required_rule_reported() {
    let mut kb = KnowledgeBase::new();
    let mut required = rule("has_role", vec![Parameter::new(var("actor"), None)]);
    required.required = true;
    kb.add_rule_type(required);
    let diagnostics = kb.validate_rules();
    assert_eq!(diagnostics.len(), 1);
    let message = diagnostics.first().unwrap().message();
    assert!(
        message.contains("Missing implementation for required rule type has_role(actor);"),
        "{}",
        message
    );
    // Adding a conforming rule satisfies the obligation.
    kb.add_rule(rule("has_role", vec![Parameter::new(var("a"), None)]));
    assert!(kb.validate_rules().is_empty());
}

#[test]
fn test_rest_variable_in_rule_type_list_is_invalid() {
    let mut kb = KnowledgeBase::new();
    kb.add_rule_type(rule(
        "f",
        vec![spec_param(
            "x",
            term(Value::List(vec![
                integer(1),
                term(Value::RestVariable(sym("*_rest"))),
            ])),
        )],
    ));
    kb.add_rule(rule(
        "f",
        vec![spec_param("x", term(Value::List(vec![integer(1)])))],
    ));
    let diagnostics = kb.validate_rules();
    assert_eq!(diagnostics.len(), 1);
    match diagnostics.first().unwrap() {
        Diagnostic::Error(PolarError {
            kind: ErrorKind::Validation(ValidationError::InvalidRuleType { msg, .. }),
            ..
        }) => {
            assert_eq!(msg, "Rule types cannot contain *rest variables.");
        }
        _ => panic!("expected an invalid-rule-type error"),
    }
}

#[test]
fn test_arity_mismatch_message() {
    let mut kb = KnowledgeBase::new();
    kb.add_rule_type(rule(
        "f",
        vec![Parameter::new(var("x"), None), Parameter::new(integer(1), None)],
    ));
    kb.add_rule(rule("f", vec![Parameter::new(var("x"), None)]));
    let diagnostics = kb.validate_rules();
    assert_eq!(diagnostics.len(), 1);
    let message = diagnostics.first().unwrap().message();
    assert!(message.contains("Must match one of the following rule types:"));
    assert!(message
        .contains("Different number of parameters. Rule has 1 parameter(s) but rule type has 2."));
}

#[test]
fn test_decimal_rendering() {
    assert_eq!(u64_to_string(0), "0");
    assert_eq!(u64_to_string(7), "7");
    assert_eq!(u64_to_string(1234), "1234");
    assert_eq!(i64_to_string(-56), "-56");
    assert_eq!(i64_to_string(90), "90");
}

#[test]
fn test_create_resource_specific_rule_types() {
    let mut kb = KnowledgeBase::new();
    kb.register_constant(sym("Org"), external(1)).unwrap();
    kb.register_constant(sym("Repo"), external(2)).unwrap();

    // resource Repo { roles = ["writer"]; relations = { parent: Org };
    //                 "writer" if "admin" on "parent"; }
    kb.resource_blocks.add_resource(var("Repo"));
    kb.resource_blocks
        .declare(sym("Repo"), string("writer"), Declaration::Role);
    kb.resource_blocks
        .declare(sym("Repo"), string("parent"), Declaration::Relation(var("Org")));
    // resource Org { roles = ["admin"]; }
    kb.resource_blocks.add_resource(var("Org"));
    kb.resource_blocks
        .declare(sym("Org"), string("admin"), Declaration::Role);
    kb.resource_blocks.add_shorthand_rule(
        sym("Repo"),
        ShorthandRule {
            head: string("writer"),
            body: (string("admin"), Some((string("on"), string("parent")))),
        },
    );

    kb.create_resource_specific_rule_types();

    // One has_relation rule type, marked required by the shorthand rule.
    let relation_types = kb.get_rule_types(&sym("has_relation")).unwrap();
    assert_eq!(relation_types.len(), 1);
    assert!(relation_types[0].required);
    assert_eq!(relation_types[0].params.len(), 3);
    // Roles are declared, so the has_role rule type is added and required.
    let role_types = kb.get_rule_types(&sym("has_role")).unwrap();
    assert_eq!(role_types.len(), 1);
    assert!(role_types[0].required);
}

#[test]
fn test_rewrite_shorthand_rules() {
    let mut kb = KnowledgeBase::new();
    kb.register_constant(sym("Org"), external(1)).unwrap();

    kb.resource_blocks.add_resource(var("Repo"));
    kb.resource_blocks
        .declare(sym("Repo"), string("writer"), Declaration::Role);
    kb.resource_blocks
        .declare(sym("Repo"), string("reader"), Declaration::Role);
    kb.resource_blocks.add_shorthand_rule(
        sym("Repo"),
        ShorthandRule {
            head: string("reader"),
            body: (string("writer"), None),
        },
    );

    let errors = kb.rewrite_shorthand_rules();
    assert!(errors.is_empty());
    // The shorthand rule became a has_role rule.
    let generic = kb.get_generic_rule(&sym("has_role")).unwrap();
    assert_eq!(generic.rules.len(), 1);
    assert_eq!(generic.rules[0].params.len(), 3);
}

#[test]
fn test_rewrite_shorthand_rules_reports_unregistered_relations() {
    let mut kb = KnowledgeBase::new();
    // The relation points at Org, which is not registered as a constant.
    kb.resource_blocks.add_resource(var("Repo"));
    kb.resource_blocks
        .declare(sym("Repo"), string("parent"), Declaration::Relation(var("Org")));

    let errors = kb.rewrite_shorthand_rules();
    assert_eq!(errors.len(), 1);
    match &errors[0] {
        ValidationError::UnregisteredClass { term } => match &term.value {
            Value::Variable(name) => assert_eq!(name.0, "Org"),
            _ => panic!("expected the unregistered class to be named"),
        },
        _ => panic!("expected an unregistered-class error"),
    }
    assert!(!kb.has_rules());
}

#[test]
fn test_get_term_source() {
    let mut kb = KnowledgeBase::new();
    let id = kb
        .add_source(Source::new("f();".to_owned(), Some("f".to_owned())))
        .unwrap();
    let parsed = Term::parsed(id, 0, 4, Value::Variable(sym("f")));
    let source = kb.get_term_source(&parsed).unwrap();
    assert_eq!(source.src, "f();");
    assert_eq!(source.filename.as_deref(), Some("f"));
    assert!(kb.get_term_source(&var("f")).is_none());
}
