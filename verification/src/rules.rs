//! Rules, rule types and their stores.
//!
//! A [`Rule`] is a named head of [`Parameter`]s with a body term. Rule
//! types are rules used as templates: a rule type marked `required`
//! obliges the knowledge base to hold at least one conforming rule. A
//! [`GenericRule`] collects all rules sharing a name; [`RuleTypes`]
//! collects the rule-type templates per name and keeps the required ones
//! in admission order.

use vstd::prelude::*;
use vstd::assert_seqs_equal;

use crate::alist::{lemma_skey_find_at, lemma_skey_find_none, lemma_skey_find_push, lemma_skey_find_update, skey_find, skey_get};
use crate::fmt::{render_term, term_to_polar};
use crate::terms::{
    Operator, Span, Symbol, Term, TermV, ValV, Value, term_clone, view_term,
};

verus! {

/// One parameter of a rule head: the parameter term (a variable or a
/// literal value) and an optional specializer (a pattern or a value).
#[derive(Debug)]
pub struct Parameter {
    pub parameter: Term,
    pub specializer: Option<Term>,
}

/// View of a parameter.
pub struct ParameterV {
    pub parameter: TermV,
    pub specializer: Option<TermV>,
}

impl View for Parameter {
    type V = ParameterV;

    open spec fn view(&self) -> ParameterV {
        ParameterV {
            parameter: view_term(self.parameter),
            specializer: match self.specializer {
                Some(s) => Some(view_term(s)),
                None => None,
            },
        }
    }
}

impl Parameter {
    pub fn new(parameter: Term, specializer: Option<Term>) -> (p: Parameter)
        ensures
            p.parameter == parameter,
            p.specializer == specializer,
    {
        Parameter { parameter, specializer }
    }
}

impl Clone for Parameter {
    fn clone(&self) -> (r: Parameter)
        ensures
            r@ == self@,
    {
        Parameter {
            parameter: term_clone(&self.parameter),
            specializer: match &self.specializer {
                Some(s) => Some(term_clone(s)),
                None => None,
            },
        }
    }
}

/// A rule: name, parameters, body, the span it was parsed from, and
/// whether it is a required rule type.
#[derive(Debug)]
pub struct Rule {
    pub name: Symbol,
    pub params: Vec<Parameter>,
    pub body: Term,
    pub span: Option<Span>,
    pub required: bool,
}

/// View of a rule.
pub struct RuleV {
    pub name: Seq<char>,
    pub params: Seq<ParameterV>,
    pub body: TermV,
    pub span: Option<Span>,
    pub required: bool,
}

/// The views of a parameter vector, element for element.
pub open spec fn view_params(ps: Seq<Parameter>) -> Seq<ParameterV>
    decreases ps.len(),
{
    if ps.len() == 0 {
        Seq::empty()
    } else {
        view_params(ps.drop_last()).push(ps.last()@)
    }
}

/// The view of a parameter sequence is the sequence of parameter views.
pub proof fn lemma_view_params(ps: Seq<Parameter>)
    ensures
        view_params(ps).len() == ps.len(),
        forall|i: int| 0 <= i < ps.len() ==> view_params(ps)[i] == ps[i]@,
    decreases ps.len(),
{
    if ps.len() > 0 {
        lemma_view_params(ps.drop_last());
    }
}

impl View for Rule {
    type V = RuleV;

    open spec fn view(&self) -> RuleV {
        RuleV {
            name: self.name@,
            params: view_params(self.params@),
            body: view_term(self.body),
            span: self.span,
            required: self.required,
        }
    }
}

/// Copy a parameter vector, reproducing its views exactly.
pub fn params_clone(ps: &Vec<Parameter>) -> (r: Vec<Parameter>)
    ensures
        view_params(r@) == view_params(ps@),
        r@.len() == ps@.len(),
{
    proof {
        lemma_view_params(ps@);
    }
    let n = ps.len();
    let mut out: Vec<Parameter> = Vec::new();
    let mut i: usize = 0;
    #[verifier::loop_isolation(false)]
    while i < n
        invariant
            n == ps.len(),
            i == out.len() <= n,
            forall|j: int| 0 <= j < i ==> view_params(out@)[j] == view_params(ps@)[j],
        decreases n - i,
    {
        let ghost prev = out@;
        out.push(ps[i].clone());
        i = i + 1;
        proof {
            lemma_view_params(ps@);
            lemma_view_params(prev);
            lemma_view_params(out@);
        }
    }
    proof {
        lemma_view_params(ps@);
        lemma_view_params(out@);
    }
    assert(view_params(out@) =~= view_params(ps@));
    out
}

impl Rule {
    /// A rule with no source span, not required.
    pub fn new(name: Symbol, params: Vec<Parameter>, body: Term) -> (r: Rule)
        ensures
            r@ == (RuleV {
                name: name@,
                params: view_params(params@),
                body: view_term(body),
                span: None,
                required: false,
            }),
    {
        Rule { name, params, body, span: None, required: false }
    }

    /// A rule carrying the span it was parsed from, not required.
    pub fn new_from_parser(
        src_id: u64,
        left: u64,
        right: u64,
        name: Symbol,
        params: Vec<Parameter>,
        body: Term,
    ) -> (r: Rule)
        ensures
            r@ == (RuleV {
                name: name@,
                params: view_params(params@),
                body: view_term(body),
                span: Some(Span { src_id, left, right }),
                required: false,
            }),
    {
        Rule { name, params, body, span: Some(Span { src_id, left, right }), required: false }
    }

    /// The ID of the source this rule was parsed from, if any.
    pub fn get_source_id(&self) -> (r: Option<u64>)
        ensures
            r == match self.span {
                Some(s) => Some(s.src_id),
                None => None::<u64>,
            },
    {
        match &self.span {
            Some(s) => Some(s.src_id),
            None => None,
        }
    }
}

impl Clone for Rule {
    fn clone(&self) -> (r: Rule)
        ensures
            r@ == self@,
    {
        Rule {
            name: self.name.clone(),
            params: params_clone(&self.params),
            body: term_clone(&self.body),
            span: self.span,
            required: self.required,
        }
    }
}

// ---------------------------------------------------------------------
// Rendering of rules
// ---------------------------------------------------------------------

/// The rendering of one parameter: `term` or `term: specializer`.
pub open spec fn render_param(p: ParameterV) -> Seq<char> {
    match p.specializer {
        Some(s) => render_term(p.parameter) + ": "@ + render_term(s),
        None => render_term(p.parameter),
    }
}

/// Comma-separated rendering of parameters.
pub open spec fn render_params(ps: Seq<ParameterV>) -> Seq<char>
    decreases ps.len(),
{
    if ps.len() == 0 {
        Seq::empty()
    } else if ps.len() == 1 {
        render_param(ps[0])
    } else {
        render_params(ps.drop_last()) + ", "@ + render_param(ps.last())
    }
}

/// A rule body that asserts nothing: an empty conjunction.
pub open spec fn body_is_trivial(b: TermV) -> bool {
    b.val matches ValV::Expression(Operator::And, args) && args.len() == 0
}

/// The rendering of a rule: `name(params);`, with ` if body` before the
/// semicolon when the body is not the empty conjunction.
pub open spec fn render_rule(r: RuleV) -> Seq<char> {
    if body_is_trivial(r.body) {
        r.name + "("@ + render_params(r.params) + ");"@
    } else {
        r.name + "("@ + render_params(r.params) + ") if "@ + render_term(r.body) + ";"@
    }
}

/// Render one parameter into policy text.
pub fn param_to_polar(p: &Parameter) -> (r: String)
    ensures
        r@ == render_param(p@),
{
    let head = term_to_polar(&p.parameter);
    match &p.specializer {
        Some(s) => {
            let spec_text = term_to_polar(s);
            let out = head.concat(": ").concat(spec_text.as_str());
            assert(out@ =~= render_term(p@.parameter) + ": "@ + render_term(s@));
            out
        },
        None => head,
    }
}

/// Render the parameter list into policy text, comma separated.
pub fn params_to_polar(ps: &Vec<Parameter>) -> (r: String)
    ensures
        r@ == render_params(view_params(ps@)),
{
    proof {
        lemma_view_params(ps@);
    }
    let n = ps.len();
    let mut out = String::new();
    let mut i: usize = 0;
    #[verifier::loop_isolation(false)]
    while i < n
        invariant
            n == ps.len(),
            i <= n,
            out@ == render_params(view_params(ps@).subrange(0, i as int)),
        decreases n - i,
    {
        let piece = param_to_polar(&ps[i]);
        if i > 0 {
            out = out.concat(", ");
        }
        out = out.concat(piece.as_str());
        i = i + 1;
        proof {
            let vps = view_params(ps@);
            let prefix = vps.subrange(0, i as int);
            assert(prefix.drop_last() =~= vps.subrange(0, i - 1 as int));
            assert(prefix.last() == vps[i - 1 as int]);
        }
    }
    proof {
        assert(view_params(ps@).subrange(0, n as int) =~= view_params(ps@));
    }
    out
}

/// Render a rule into policy text.
pub fn rule_to_polar(r: &Rule) -> (out: String)
    ensures
        out@ == render_rule(r@),
{
    let params = params_to_polar(&r.params);
    let trivial = match &r.body.value {
        Value::Expression(op) => matches!(op.operator, Operator::And) && op.args.len() == 0,
        _ => false,
    };
    proof {
        if r.body.value is Expression {
            crate::terms::lemma_view_terms(r.body.value->Expression_0.args@);
        }
    }
    if trivial {
        let out = r.name.0.clone().concat("(").concat(params.as_str()).concat(");");
        assert(out@ =~= r@.name + "("@ + render_params(r@.params) + ");"@);
        out
    } else {
        let body = term_to_polar(&r.body);
        let out = r.name.0.clone().concat("(").concat(params.as_str()).concat(") if ").concat(
            body.as_str(),
        ).concat(";");
        assert(out@ =~= r@.name + "("@ + render_params(r@.params) + ") if "@ + render_term(r@.body)
            + ";"@);
        out
    }
}

// ---------------------------------------------------------------------
// Stores
// ---------------------------------------------------------------------

/// All rules sharing one name, in admission order.
#[derive(Debug)]
pub struct GenericRule {
    pub name: Symbol,
    pub rules: Vec<Rule>,
}

/// The views of a rule vector, element for element.
pub open spec fn view_rules(rs: Seq<Rule>) -> Seq<RuleV>
    decreases rs.len(),
{
    if rs.len() == 0 {
        Seq::empty()
    } else {
        view_rules(rs.drop_last()).push(rs.last()@)
    }
}

/// The view of a rule sequence is the sequence of rule views.
pub proof fn lemma_view_rules(rs: Seq<Rule>)
    ensures
        view_rules(rs).len() == rs.len(),
        forall|i: int| 0 <= i < rs.len() ==> view_rules(rs)[i] == rs[i]@,
    decreases rs.len(),
{
    if rs.len() > 0 {
        lemma_view_rules(rs.drop_last());
    }
}

impl GenericRule {
    /// A generic rule holding the given definitions.
    pub fn new(name: Symbol, rules: Vec<Rule>) -> (g: GenericRule)
        ensures
            g.name == name,
            g.rules == rules,
    {
        GenericRule { name, rules }
    }

    /// Append one definition. Its position is its internal ID.
    pub fn add_rule(&mut self, rule: Rule)
        ensures
            final(self).rules@ == old(self).rules@.push(rule),
            final(self).name == old(self).name,
    {
        self.rules.push(rule);
    }
}

/// The rule-type store: templates per rule name, and the required
/// templates in admission order.
#[derive(Debug)]
pub struct RuleTypes {
    pub types: Vec<(Symbol, Vec<Rule>)>,
    pub required: Vec<Rule>,
}

/// The rule-type templates stored under `name`, as views; empty when the
/// name has no templates.
pub open spec fn spec_types_of(types: Seq<(Symbol, Vec<Rule>)>, name: Seq<char>) -> Seq<RuleV> {
    match skey_find(types, name) {
        Some(list) => view_rules(list@),
        None => Seq::empty(),
    }
}

impl RuleTypes {
    /// An empty store.
    pub fn new() -> (rt: RuleTypes)
        ensures
            rt.types@.len() == 0,
            rt.required@.len() == 0,
    {
        RuleTypes { types: Vec::new(), required: Vec::new() }
    }

    /// The templates stored under `name`, if any.
    pub fn get<'a>(&'a self, name: &Symbol) -> (r: Option<&'a Vec<Rule>>)
        ensures
            match r {
                Some(list) => skey_find(self.types@, name@) == Some(*list),
                None => skey_find(self.types@, name@) is None,
            },
    {
        skey_get(&self.types, name)
    }

    /// The required templates, in admission order.
    pub fn required_rule_types<'a>(&'a self) -> (r: &'a Vec<Rule>)
        ensures
            r == &self.required,
    {
        &self.required
    }

    /// Append a template under its name; a required template is also
    /// recorded in the required list.
    pub fn add(&mut self, rule_type: Rule)
        ensures
            forall|n2: Seq<char>| #![auto]
                spec_types_of(final(self).types@, n2) == if n2 == rule_type.name@ {
                    spec_types_of(old(self).types@, n2).push(rule_type@)
                } else {
                    spec_types_of(old(self).types@, n2)
                },
            view_rules(final(self).required@) == if rule_type.required {
                view_rules(old(self).required@).push(rule_type@)
            } else {
                view_rules(old(self).required@)
            },
    {
        if rule_type.required {
            let ghost prev = self.required@;
            self.required.push(rule_type.clone());
            proof {
                lemma_view_rules(prev);
                lemma_view_rules(self.required@);
                assert(view_rules(self.required@) =~= view_rules(prev).push(rule_type@));
            }
        }
        let ghost required_now = self.required@;
        let n = self.types.len();
        let mut i: usize = 0;
        #[verifier::loop_isolation(false)]
        while i < n
            invariant
                n == self.types.len(),
                i <= n,
                self.types@ == old(self).types@,
                self.required@ == required_now,
                forall|j: int| 0 <= j < i ==> self.types@[j].0@ != rule_type.name@,
            decreases n - i,
        {
            if self.types[i].0.eq_name(&rule_type.name) {
                let ghost old_types = self.types@;
                let ghost rtv = rule_type@;
                let ghost name_v = rule_type.name@;
                let mut entry = self.types.remove(i);
                let ghost old_list = entry.1@;
                entry.1.push(rule_type);
                let ghost new_list = entry.1@;
                self.types.insert(i, entry);
                proof {
                    assert(old_list == old_types[i as int].1@);
                    assert(new_list == old_list.push(rule_type));
                    assert(self.types@[i as int].1@ == new_list);
                    assert(self.types@ =~= old_types.update(i as int, self.types@[i as int]));
                    lemma_view_rules(old_list);
                    lemma_view_rules(new_list);
                    assert_seqs_equal!(view_rules(new_list) == view_rules(old_list).push(rtv), k => {
                        if k < old_list.len() {
                            assert(new_list[k] == old_list[k]);
                        } else {
                            assert(new_list[k]@ == rtv);
                        }
                    });
                    assert forall|n2: Seq<char>| true implies #[trigger] spec_types_of(
                        self.types@,
                        n2,
                    ) == if n2 == name_v {
                        spec_types_of(old_types, n2).push(rtv)
                    } else {
                        spec_types_of(old_types, n2)
                    } by {
                        lemma_skey_find_at(old_types, name_v, i as int);
                        lemma_skey_find_update(
                            old_types,
                            i as int,
                            self.types@[i as int],
                            n2,
                        );
                    }
                }
                return ;
            }
            i = i + 1;
        }
        let ghost old_types = self.types@;
        let ghost rtv = rule_type@;
        let ghost name_v = rule_type.name@;
        let name_copy = rule_type.name.clone();
        let mut list: Vec<Rule> = Vec::new();
        list.push(rule_type);
        self.types.push((name_copy, list));
        proof {
            lemma_view_rules(self.types@.last().1@);
            lemma_view_rules(self.types@.last().1@.drop_last());
            assert(view_rules(self.types@.last().1@) =~= Seq::<RuleV>::empty().push(rtv));
            assert forall|n2: Seq<char>| true implies #[trigger] spec_types_of(self.types@, n2)
                == if n2 == name_v {
                spec_types_of(old_types, n2).push(rtv)
            } else {
                spec_types_of(old_types, n2)
            } by {
                lemma_skey_find_push(old_types, self.types@.last(), n2);
                if n2 == name_v {
                    lemma_skey_find_none(old_types, name_v);
                }
            }
        }
    }

    /// Forget every template.
    pub fn reset(&mut self)
        ensures
            final(self).types@.len() == 0,
            final(self).required@.len() == 0,
    {
        self.types = Vec::new();
        self.required = Vec::new();
    }
}

} // verus!
