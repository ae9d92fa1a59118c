//! The knowledge base: the in-memory repository of a loaded policy.
//!
//! It aggregates registered constants and their method resolution
//! orders, admitted sources, rules, rule types, inline queries and
//! resource-block bookkeeping, and validates that the loaded rules
//! conform to the rule types before the policy is queried.

use vstd::prelude::*;

use crate::alist::{
    idkey_find, skey_contains, skey_find, skey_get, skey_set, strkey_contains, strkey_find,
    strkey_get, strkey_set,
};
use crate::counter::Counter;
use crate::error::{
    Diagnostic, ErrorKind, ErrorKindV, PolarError, RuntimeError, RuntimeErrorV, ValidationError,
    ValidationErrorV,
};
use crate::fmt::{dec_nat, render_fields, render_pattern, render_term, render_terms, render_val};
use crate::resource_block::ResourceBlocks;
use crate::rules::{GenericRule, Parameter, ParameterV, Rule, RuleTypes, RuleV, render_rule, view_params, view_rules, lemma_view_rules};
use crate::sources::{Source, Sources, SourceV};
use crate::terms::{
    str_eq, teq, veq, fields_get, view_term, Dictionary, FieldV, InstanceLiteral,
    InstanceLiteralV, Numeric, Operator, Pattern, PatternV, Span, Symbol, Term, TermV, ValV,
    Value,
};

verus! {

/// The map of registered constants: name to value.
pub type Bindings = Vec<(Symbol, Term)>;

/// The built-in actor union tag.
pub open spec fn actor_union_name() -> Seq<char> {
    "Actor"@
}

/// The built-in resource union tag.
pub open spec fn resource_union_name() -> Seq<char> {
    "Resource"@
}

/// The aggregate root of a loaded policy.
#[derive(Debug)]
pub struct KnowledgeBase {
    /// Host-registered constants: name to value.
    pub constants: Bindings,
    /// Method resolution order per registered class: the class's own
    /// instance ID first, its ancestors' after.
    pub mro: Vec<(Symbol, Vec<u64>)>,
    /// Filename to source ID, for files loaded into the KB.
    pub loaded_files: Vec<(String, u64)>,
    /// File contents to filename, for files loaded into the KB.
    pub loaded_content: Vec<(String, String)>,
    /// All loaded rules, grouped by name.
    pub rules: Vec<(Symbol, GenericRule)>,
    /// All rule types, grouped by name.
    pub rule_types: RuleTypes,
    /// Admitted sources by ID.
    pub sources: Sources,
    /// Dispenses suffixes for generated symbols.
    pub gensym_counter: Counter,
    /// Dispenses source, call and instance IDs.
    pub id_counter: Counter,
    /// Queries written inline in loaded policies.
    pub inline_queries: Vec<Term>,
    /// Resource-block bookkeeping.
    pub resource_blocks: ResourceBlocks,
}

impl KnowledgeBase {
    /// Both counters are in range.
    pub open spec fn wf(&self) -> bool {
        self.id_counter.wf() && self.gensym_counter.wf()
    }

    /// The registered constant named `name`, if any.
    pub open spec fn spec_constant(&self, name: Seq<char>) -> Option<Term> {
        skey_find(self.constants@, name)
    }

    /// The view of the registered constant named `name`, if any.
    pub open spec fn spec_constant_view(&self, name: Seq<char>) -> Option<TermV> {
        match skey_find(self.constants@, name) {
            Some(t) => Some(t@),
            None => None,
        }
    }

    /// The MRO list registered for `name`, if any.
    pub open spec fn spec_mro(&self, name: Seq<char>) -> Option<Seq<u64>> {
        match skey_find(self.mro@, name) {
            Some(v) => Some(v@),
            None => None,
        }
    }

    /// The views of all rules loaded under `name`, in admission order.
    pub open spec fn spec_rules_of(&self, name: Seq<char>) -> Seq<RuleV> {
        match skey_find(self.rules@, name) {
            Some(g) => view_rules(g.rules@),
            None => Seq::empty(),
        }
    }

    /// The filename recorded for loaded contents `src`, if any.
    pub open spec fn spec_loaded_content(&self, src: Seq<char>) -> Option<Seq<char>> {
        match strkey_find(self.loaded_content@, src) {
            Some(f) => Some(f@),
            None => None,
        }
    }

    /// The source ID recorded for `filename`, if any.
    pub open spec fn spec_loaded_file(&self, filename: Seq<char>) -> Option<u64> {
        strkey_find(self.loaded_files@, filename)
    }

    /// The source admitted under `id`, if any.
    pub open spec fn spec_source_of_span(&self, span: Option<Span>) -> Option<SourceV> {
        match span {
            None => None,
            Some(sp) => match idkey_find(self.sources.sources@, sp.src_id) {
                Some(s) => Some(s@),
                None => None,
            },
        }
    }

    /// A fresh knowledge base: nothing registered, nothing loaded, both
    /// counters at 1.
    pub fn new() -> (kb: KnowledgeBase)
        ensures
            kb.wf(),
            kb.constants@.len() == 0,
            kb.mro@.len() == 0,
            kb.loaded_files@.len() == 0,
            kb.loaded_content@.len() == 0,
            kb.rules@.len() == 0,
            kb.rule_types.types@.len() == 0,
            kb.rule_types.required@.len() == 0,
            kb.sources.sources@.len() == 0,
            kb.inline_queries@.len() == 0,
            kb.resource_blocks.actors@.len() == 0,
            kb.resource_blocks.resources@.len() == 0,
            kb.resource_blocks.declarations@.len() == 0,
            kb.resource_blocks.shorthand_rules@.len() == 0,
            kb.gensym_counter.spec_next() == 1,
            kb.id_counter.spec_next() == 1,
    {
        KnowledgeBase {
            constants: Vec::new(),
            mro: Vec::new(),
            loaded_files: Vec::new(),
            loaded_content: Vec::new(),
            rules: Vec::new(),
            rule_types: RuleTypes::new(),
            sources: Sources::new(),
            gensym_counter: Counter::new(),
            id_counter: Counter::new(),
            inline_queries: Vec::new(),
            resource_blocks: ResourceBlocks::new(),
        }
    }

    /// Return a monotonically increasing integer ID.
    ///
    /// IDs stay below 2^52 so that a host can coerce them losslessly to
    /// an IEEE-754 double-precision float.
    pub fn new_id(&mut self) -> (id: u64)
        requires
            old(self).wf(),
        ensures
            final(self).wf(),
            id == old(self).id_counter.spec_next(),
            1 <= id < 0x10_0000_0000_0000,
            final(self).id_counter.spec_next() == if id == crate::counter::MAX_ID {
                1u64
            } else {
                (id + 1) as u64
            },
            same_except_id_counter(final(self), old(self)),
    {
        self.id_counter.next()
    }

    /// A snapshot of the ID counter, positioned at the next ID this
    /// knowledge base will dispense.
    pub fn id_counter(&self) -> (c: Counter)
        ensures
            c == self.id_counter,
    {
        self.id_counter
    }

    /// Generate a temporary variable prefix from a variable name:
    /// `_` stays `_`; any other name `x` becomes `_x_`.
    pub fn temp_prefix(name: &str) -> (r: String)
        ensures
            r@ == spec_temp_prefix(name@),
    {
        if str_eq(name, "_") {
            name.to_owned()
        } else {
            let out = String::new().concat("_").concat(name).concat("_");
            assert(out@ =~= "_"@ + name@ + "_"@);
            out
        }
    }

    /// Generate a fresh symbol: the transformed prefix followed by the
    /// next value of the gensym counter.
    pub fn gensym(&mut self, prefix: &str) -> (r: Symbol)
        requires
            old(self).wf(),
        ensures
            final(self).wf(),
            r@ == spec_temp_prefix(prefix@) + dec_nat(
                old(self).gensym_counter.spec_next() as nat,
            ),
            final(self).gensym_counter.spec_next() == if old(self).gensym_counter.spec_next()
                == crate::counter::MAX_ID {
                1u64
            } else {
                (old(self).gensym_counter.spec_next() + 1) as u64
            },
            same_except_gensym_counter(final(self), old(self)),
    {
        let next = self.gensym_counter.next();
        let digits = crate::fmt::u64_to_string(next);
        let out = Self::temp_prefix(prefix).concat(digits.as_str());
        Symbol(out)
    }

    /// Whether a constant with the given name has been registered.
    pub fn is_constant(&self, name: &Symbol) -> (r: bool)
        ensures
            r == (self.spec_constant(name@) is Some),
    {
        skey_contains(&self.constants, name)
    }

    /// The registered constants, without exposing them for mutation.
    pub fn get_registered_constants(&self) -> (r: &Bindings)
        ensures
            r == &self.constants,
    {
        &self.constants
    }

    /// Define a constant.
    ///
    /// The union tags `Actor` and `Resource` have special meaning in
    /// policies that use resource blocks and cannot be registered;
    /// any other name is bound, overwriting an earlier binding.
    pub fn register_constant(&mut self, name: Symbol, value: Term) -> (r: Result<
        (),
        PolarError,
    >)
        ensures
            final(self).wf() == old(self).wf(),
            match r {
                Ok(()) => {
                    &&& name@ != actor_union_name() && name@ != resource_union_name()
                    &&& final(self).spec_constant(name@) == Some(value)
                    &&& forall|n2: Seq<char>|
                        n2 != name@ ==> final(self).spec_constant(n2) == old(self).spec_constant(
                            n2,
                        )
                    &&& same_except_constants(final(self), old(self))
                },
                Err(e) => {
                    &&& name@ == actor_union_name() || name@ == resource_union_name()
                    &&& *final(self) == *old(self)
                    &&& e@.kind == ErrorKindV::Runtime(
                        RuntimeErrorV::InvalidRegistration {
                            msg: msg_invalid_registration(name@),
                            sym: name@,
                        },
                    )
                    &&& e@.context is None
                },
            },
    {
        if str_eq(name.0.as_str(), "Actor") || str_eq(name.0.as_str(), "Resource") {
            let msg = String::new().concat("'").concat(name.0.as_str()).concat(
                "' is a built-in specializer.",
            );
            assert(msg@ =~= msg_invalid_registration(name@));
            return Err(
                PolarError::new(
                    ErrorKind::Runtime(RuntimeError::InvalidRegistration { msg, sym: name }),
                ),
            );
        }
        skey_set(&mut self.constants, name, value);
        Ok(())
    }

    /// The registered constant for a class term.
    ///
    /// The term names the class: its value must be a symbol. Returns the
    /// constant's term, or an `UnregisteredClass` error naming the term.
    pub fn get_registered_class<'a>(&'a self, class: &Term) -> (r: Result<
        &'a Term,
        ValidationError,
    >)
        requires
            class.value is Variable,
        ensures
            match r {
                Ok(t) => self.spec_constant(class@.val->Variable_0) == Some(*t),
                Err(e) => {
                    &&& self.spec_constant(class@.val->Variable_0) is None
                    &&& e@ == ValidationErrorV::UnregisteredClass { term: class@ }
                },
            },
    {
        match &class.value {
            Value::Variable(s) => match skey_get(&self.constants, s) {
                Some(t) => Ok(t),
                None => Err(
                    ValidationError::UnregisteredClass { term: crate::terms::term_clone(class) },
                ),
            },
            _ => vstd::pervasive::unreached(),
        }
    }

    /// Register the method resolution order for a class.
    ///
    /// The list holds the instance IDs of the class and its ancestors,
    /// the class itself first. Fails when `name` is not a registered
    /// constant.
    pub fn add_mro(&mut self, name: Symbol, mro: Vec<u64>) -> (r: Result<(), PolarError>)
        ensures
            final(self).wf() == old(self).wf(),
            match r {
                Ok(()) => {
                    &&& old(self).spec_constant(name@) is Some
                    &&& final(self).spec_mro(name@) == Some(mro@)
                    &&& forall|n2: Seq<char>|
                        n2 != name@ ==> final(self).spec_mro(n2) == old(self).spec_mro(n2)
                    &&& same_except_mro(final(self), old(self))
                },
                Err(e) => {
                    &&& old(self).spec_constant(name@) is None
                    &&& *final(self) == *old(self)
                    &&& e@.kind == ErrorKindV::Runtime(
                        RuntimeErrorV::InvalidState { msg: msg_cannot_add_mro(name@) },
                    )
                    &&& e@.context is None
                },
            },
    {
        if !self.is_constant(&name) {
            let msg = String::new().concat("Cannot add MRO for unregistered class ").concat(
                name.0.as_str(),
            );
            assert(msg@ =~= msg_cannot_add_mro(name@));
            return Err(
                PolarError::new(ErrorKind::Runtime(RuntimeError::InvalidState { msg })),
            );
        }
        let ghost mro_v = mro@;
        skey_set(&mut self.mro, name, mro);
        proof {
            assert forall|n2: Seq<char>| n2 != name@ implies self.spec_mro(n2) == old(
                self,
            ).spec_mro(n2) by {}
        }
        Ok(())
    }

    /// Whether any rules are loaded.
    pub fn has_rules(&self) -> (r: bool)
        ensures
            r == (self.rules@.len() != 0),
    {
        self.rules.len() != 0
    }

    /// All loaded rules, grouped by name.
    pub fn get_rules(&self) -> (r: &Vec<(Symbol, GenericRule)>)
        ensures
            r == &self.rules,
    {
        &self.rules
    }

    /// The rules loaded under `name`, if any.
    pub fn get_generic_rule<'a>(&'a self, name: &Symbol) -> (r: Option<&'a GenericRule>)
        ensures
            match r {
                Some(g) => skey_find(self.rules@, name@) == Some(*g),
                None => skey_find(self.rules@, name@) is None,
            },
    {
        skey_get(&self.rules, name)
    }

    /// The rule types stored under `name`, if any.
    pub fn get_rule_types<'a>(&'a self, name: &Symbol) -> (r: Option<&'a Vec<Rule>>)
        ensures
            match r {
                Some(list) => skey_find(self.rule_types.types@, name@) == Some(*list),
                None => skey_find(self.rule_types.types@, name@) is None,
            },
    {
        self.rule_types.get(name)
    }

    /// Store a rule type under its name; a required rule type is also
    /// recorded for the required-coverage check.
    pub fn add_rule_type(&mut self, rule_type: Rule)
        ensures
            forall|n2: Seq<char>| #![auto]
                crate::rules::spec_types_of(final(self).rule_types.types@, n2) == if n2
                    == rule_type.name@ {
                    crate::rules::spec_types_of(old(self).rule_types.types@, n2).push(rule_type@)
                } else {
                    crate::rules::spec_types_of(old(self).rule_types.types@, n2)
                },
            view_rules(final(self).rule_types.required@) == if rule_type.required {
                view_rules(old(self).rule_types.required@).push(rule_type@)
            } else {
                view_rules(old(self).rule_types.required@)
            },
            same_except_rule_types(final(self), old(self)),
    {
        self.rule_types.add(rule_type);
    }

    /// Store a generic rule under its name, replacing the rules loaded
    /// under that name.
    pub fn add_generic_rule(&mut self, rule: GenericRule)
        ensures
            final(self).spec_rules_of(rule.name@) == view_rules(rule.rules@),
            forall|n2: Seq<char>|
                n2 != rule.name@ ==> final(self).spec_rules_of(n2) == old(self).spec_rules_of(n2),
            same_except_rules(final(self), old(self)),
    {
        let name = rule.name.clone();
        skey_set(&mut self.rules, name, rule);
    }

    /// Load a rule: append it to the rules sharing its name.
    pub fn add_rule(&mut self, rule: Rule)
        ensures
            final(self).spec_rules_of(rule.name@) == old(self).spec_rules_of(rule.name@).push(
                rule@,
            ),
            forall|n2: Seq<char>|
                n2 != rule.name@ ==> final(self).spec_rules_of(n2) == old(self).spec_rules_of(n2),
            same_except_rules(final(self), old(self)),
    {
        let ghost old_rules = self.rules@;
        let ghost rv = rule@;
        let ghost name_v = rule.name@;
        let n = self.rules.len();
        let mut i: usize = 0;
        #[verifier::loop_isolation(false)]
        while i < n
            invariant
                n == self.rules.len(),
                i <= n,
                self.rules@ == old_rules,
                same_except_rules(self, old(self)),
                forall|j: int| 0 <= j < i ==> self.rules@[j].0@ != name_v,
            decreases n - i,
        {
            if self.rules[i].0.eq_name(&rule.name) {
                let mut entry = self.rules.remove(i);
                let ghost old_list = entry.1.rules@;
                entry.1.rules.push(rule);
                let ghost new_list = entry.1.rules@;
                self.rules.insert(i, entry);
                proof {
                    assert(self.rules@ =~= old_rules.update(i as int, self.rules@[i as int]));
                    lemma_view_rules(old_list);
                    lemma_view_rules(new_list);
                    vstd::assert_seqs_equal!(view_rules(new_list) == view_rules(old_list).push(rv), k => {
                        if k < old_list.len() {
                            assert(new_list[k] == old_list[k]);
                        } else {
                            assert(new_list[k]@ == rv);
                        }
                    });
                    assert forall|n2: Seq<char>| true implies #[trigger] skey_find(
                        self.rules@,
                        n2,
                    ) == if n2 == name_v {
                        Some(self.rules@[i as int].1)
                    } else {
                        skey_find(old_rules, n2)
                    } by {
                        crate::alist::lemma_skey_find_update(
                            old_rules,
                            i as int,
                            self.rules@[i as int],
                            n2,
                        );
                    }
                    crate::alist::lemma_skey_find_at(old_rules, name_v, i as int);
                }
                return ;
            }
            i = i + 1;
        }
        let name_copy = rule.name.clone();
        let mut list: Vec<Rule> = Vec::new();
        list.push(rule);
        let gr = GenericRule::new(name_copy, list);
        self.rules.push((gr.name.clone(), gr));
        proof {
            lemma_view_rules(self.rules@.last().1.rules@);
            lemma_view_rules(self.rules@.last().1.rules@.drop_last());
            assert(view_rules(self.rules@.last().1.rules@) =~= Seq::<RuleV>::empty().push(rv));
            assert forall|n2: Seq<char>| true implies #[trigger] skey_find(self.rules@, n2) == if n2
                == name_v {
                Some(self.rules@.last().1)
            } else {
                skey_find(old_rules, n2)
            } by {
                crate::alist::lemma_skey_find_push(old_rules, self.rules@.last(), n2);
            }
            crate::alist::lemma_skey_find_none(old_rules, name_v);
        }
    }

    /// Whether a term names one of the built-in unions, `Actor` or
    /// `Resource`.
    pub fn is_union(&self, maybe_union: &Term) -> (r: bool)
        ensures
            r == spec_is_union(maybe_union@),
    {
        match &maybe_union.value {
            Value::Variable(s) => {
                str_eq(s.0.as_str(), "Actor") || str_eq(s.0.as_str(), "Resource")
            },
            _ => false,
        }
    }

    /// The members of a union: the declared actor classes for `Actor`,
    /// the declared resource classes for `Resource`.
    pub fn get_union_members<'a>(&'a self, union: &Term) -> (r: &'a Vec<Term>)
        requires
            spec_is_union(union@),
        ensures
            union@.val->Variable_0 == actor_union_name() ==> r == &self.resource_blocks.actors,
            union@.val->Variable_0 != actor_union_name() ==> r == &self.resource_blocks.resources,
    {
        let is_actor = match &union.value {
            Value::Variable(s) => str_eq(s.0.as_str(), "Actor"),
            _ => false,
        };
        if is_actor {
            &self.resource_blocks.actors
        } else {
            &self.resource_blocks.resources
        }
    }

    /// The source a term was parsed from, if it is recorded.
    pub fn get_term_source(&self, t: &Term) -> (r: Option<Source>)
        ensures
            match r {
                Some(s) => self.spec_source_of_span(t.span) == Some(s@),
                None => self.spec_source_of_span(t.span) is None,
            },
    {
        match t.get_source_id() {
            Some(id) => self.sources.get_source(id),
            None => None,
        }
    }

    /// The source a rule was parsed from, if it is recorded.
    pub fn get_rule_source(&self, r: &Rule) -> (res: Option<Source>)
        ensures
            match res {
                Some(s) => self.spec_source_of_span(r.span) == Some(s@),
                None => self.spec_source_of_span(r.span) is None,
            },
    {
        match r.get_source_id() {
            Some(id) => self.sources.get_source(id),
            None => None,
        }
    }

    /// Forget everything a load brought in: rules, rule types, sources,
    /// inline queries, the loaded-file records and the resource blocks.
    /// Registered constants, MROs and both counters survive.
    pub fn clear_rules(&mut self)
        ensures
            final(self).rules@.len() == 0,
            final(self).rule_types.types@.len() == 0,
            final(self).rule_types.required@.len() == 0,
            final(self).sources.sources@.len() == 0,
            final(self).inline_queries@.len() == 0,
            final(self).loaded_files@.len() == 0,
            final(self).loaded_content@.len() == 0,
            final(self).resource_blocks.actors@.len() == 0,
            final(self).resource_blocks.resources@.len() == 0,
            final(self).resource_blocks.declarations@.len() == 0,
            final(self).resource_blocks.shorthand_rules@.len() == 0,
            final(self).constants == old(self).constants,
            final(self).mro == old(self).mro,
            final(self).gensym_counter == old(self).gensym_counter,
            final(self).id_counter == old(self).id_counter,
    {
        self.rules = Vec::new();
        self.rule_types.reset();
        self.sources = Sources::new();
        self.inline_queries = Vec::new();
        self.loaded_content = Vec::new();
        self.loaded_files = Vec::new();
        self.resource_blocks.clear();
    }

    /// Check whether a source file may be admitted: its name and its
    /// contents must not collide with an already-loaded file.
    fn check_file(&self, src: &str, filename: &str) -> (r: Result<(), RuntimeError>)
        ensures
            match r {
                Ok(()) => self.spec_check_file(src@, filename@) is None,
                Err(e) => {
                    &&& self.spec_check_file(src@, filename@) matches Some(m) && e@
                        == RuntimeErrorV::FileLoading { msg: m }
                },
            },
    {
        let content_hit = strkey_get(&self.loaded_content, src);
        let file_hit = strkey_contains(&self.loaded_files, filename);
        match (content_hit, file_hit) {
            (Some(other_file), true) => {
                if str_eq(other_file.as_str(), filename) {
                    let msg = String::new().concat("File ").concat(filename).concat(
                        " has already been loaded.",
                    );
                    assert(msg@ =~= msg_file_already_loaded(filename@));
                    Err(RuntimeError::FileLoading { msg })
                } else {
                    let msg = String::new().concat("A file with the name ").concat(
                        filename,
                    ).concat(", but different contents has already been loaded.");
                    assert(msg@ =~= msg_file_name_conflict(filename@));
                    Err(RuntimeError::FileLoading { msg })
                }
            },
            (_, true) => {
                let msg = String::new().concat("A file with the name ").concat(filename).concat(
                    ", but different contents has already been loaded.",
                );
                assert(msg@ =~= msg_file_name_conflict(filename@));
                Err(RuntimeError::FileLoading { msg })
            },
            (Some(other_file), false) => {
                let msg = String::new().concat("A file with the same contents as ").concat(
                    filename,
                ).concat(" named ").concat(other_file.as_str()).concat(
                    " has already been loaded.",
                );
                assert(msg@ =~= msg_file_content_conflict(filename@, other_file@));
                Err(RuntimeError::FileLoading { msg })
            },
            (None, false) => Ok(()),
        }
    }

    /// The admission error for loading `src` under `filename`, if any:
    /// the same file again, the same name with different contents, or
    /// the same contents under a different name.
    pub open spec fn spec_check_file(&self, src: Seq<char>, filename: Seq<char>) -> Option<
        Seq<char>,
    > {
        match (self.spec_loaded_content(src), self.spec_loaded_file(filename) is Some) {
            (Some(other), true) => if other == filename {
                Some(msg_file_already_loaded(filename))
            } else {
                Some(msg_file_name_conflict(filename))
            },
            (None, true) => Some(msg_file_name_conflict(filename)),
            (Some(other), false) => Some(msg_file_content_conflict(filename, other)),
            (None, false) => None,
        }
    }

    /// Admit a source: assign it a fresh ID and record it.
    ///
    /// A source with a filename is first checked against the loaded
    /// files (same file, same name with different contents, same
    /// contents under another name are all rejected); on admission both
    /// records and the source store are updated together. A source
    /// without a filename is always admitted. The ID is consumed either
    /// way.
    pub fn add_source(&mut self, source: Source) -> (r: Result<u64, PolarError>)
        requires
            old(self).wf(),
        ensures
            final(self).wf(),
            final(self).id_counter.spec_next() == if old(self).id_counter.spec_next()
                == crate::counter::MAX_ID {
                1u64
            } else {
                (old(self).id_counter.spec_next() + 1) as u64
            },
            match r {
                Ok(id) => {
                    &&& id == old(self).id_counter.spec_next()
                    &&& match source@.filename {
                        Some(f) => {
                            &&& old(self).spec_check_file(source@.src, f) is None
                            &&& final(self).spec_loaded_content(source@.src) == Some(f)
                            &&& forall|s2: Seq<char>|
                                s2 != source@.src ==> final(self).spec_loaded_content(s2) == old(
                                    self,
                                ).spec_loaded_content(s2)
                            &&& final(self).spec_loaded_file(f) == Some(id)
                            &&& forall|f2: Seq<char>|
                                f2 != f ==> final(self).spec_loaded_file(f2) == old(
                                    self,
                                ).spec_loaded_file(f2)
                        },
                        None => {
                            &&& final(self).loaded_content == old(self).loaded_content
                            &&& final(self).loaded_files == old(self).loaded_files
                        },
                    }
                    &&& final(self).sources.sources@ == old(self).sources.sources@.push(
                        (id, source),
                    )
                    &&& final(self).constants == old(self).constants
                    &&& final(self).mro == old(self).mro
                    &&& final(self).rules == old(self).rules
                    &&& final(self).rule_types == old(self).rule_types
                    &&& final(self).inline_queries == old(self).inline_queries
                    &&& final(self).resource_blocks == old(self).resource_blocks
                    &&& final(self).gensym_counter == old(self).gensym_counter
                },
                Err(e) => {
                    &&& source@.filename matches Some(f) && (old(self).spec_check_file(
                        source@.src,
                        f,
                    ) matches Some(m) && e@.kind == ErrorKindV::Runtime(
                        RuntimeErrorV::FileLoading { msg: m },
                    ))
                    &&& e@.context is None
                    &&& same_except_id_counter(final(self), old(self))
                },
            },
    {
        let src_id = self.new_id();
        match &source.filename {
            Some(filename) => {
                match self.check_file(source.src.as_str(), filename.as_str()) {
                    Ok(()) => {},
                    Err(e) => {
                        return Err(PolarError::new(ErrorKind::Runtime(e)));
                    },
                }
                let filename_for_content = filename.clone();
                let src_copy = source.src.clone();
                strkey_set(&mut self.loaded_content, src_copy, filename_for_content);
                let filename_key = filename.clone();
                strkey_set(&mut self.loaded_files, filename_key, src_id);
            },
            None => {},
        }
        self.sources.add_source(source, src_id);
        Ok(src_id)
    }
}

// ---------------------------------------------------------------------
// Frame conditions: equality of all fields but one
// ---------------------------------------------------------------------

pub open spec fn same_except_id_counter(a: &KnowledgeBase, b: &KnowledgeBase) -> bool {
    a.constants == b.constants && a.mro == b.mro && a.loaded_files == b.loaded_files
        && a.loaded_content == b.loaded_content && a.rules == b.rules && a.rule_types
        == b.rule_types && a.sources == b.sources && a.gensym_counter == b.gensym_counter
        && a.inline_queries == b.inline_queries && a.resource_blocks == b.resource_blocks
}

pub open spec fn same_except_gensym_counter(a: &KnowledgeBase, b: &KnowledgeBase) -> bool {
    a.constants == b.constants && a.mro == b.mro && a.loaded_files == b.loaded_files
        && a.loaded_content == b.loaded_content && a.rules == b.rules && a.rule_types
        == b.rule_types && a.sources == b.sources && a.id_counter == b.id_counter
        && a.inline_queries == b.inline_queries && a.resource_blocks == b.resource_blocks
}

pub open spec fn same_except_constants(a: &KnowledgeBase, b: &KnowledgeBase) -> bool {
    a.mro == b.mro && a.loaded_files == b.loaded_files && a.loaded_content == b.loaded_content
        && a.rules == b.rules && a.rule_types == b.rule_types && a.sources == b.sources
        && a.gensym_counter == b.gensym_counter && a.id_counter == b.id_counter
        && a.inline_queries == b.inline_queries && a.resource_blocks == b.resource_blocks
}

pub open spec fn same_except_mro(a: &KnowledgeBase, b: &KnowledgeBase) -> bool {
    a.constants == b.constants && a.loaded_files == b.loaded_files && a.loaded_content
        == b.loaded_content && a.rules == b.rules && a.rule_types == b.rule_types && a.sources
        == b.sources && a.gensym_counter == b.gensym_counter && a.id_counter == b.id_counter
        && a.inline_queries == b.inline_queries && a.resource_blocks == b.resource_blocks
}

pub open spec fn same_except_rules(a: &KnowledgeBase, b: &KnowledgeBase) -> bool {
    a.constants == b.constants && a.mro == b.mro && a.loaded_files == b.loaded_files
        && a.loaded_content == b.loaded_content && a.rule_types == b.rule_types && a.sources
        == b.sources && a.gensym_counter == b.gensym_counter && a.id_counter == b.id_counter
        && a.inline_queries == b.inline_queries && a.resource_blocks == b.resource_blocks
}

pub open spec fn same_except_rule_types(a: &KnowledgeBase, b: &KnowledgeBase) -> bool {
    a.constants == b.constants && a.mro == b.mro && a.loaded_files == b.loaded_files
        && a.loaded_content == b.loaded_content && a.rules == b.rules && a.sources == b.sources
        && a.gensym_counter == b.gensym_counter && a.id_counter == b.id_counter
        && a.inline_queries == b.inline_queries && a.resource_blocks == b.resource_blocks
}

/// The prefix transform of `gensym`: `_` stays, `x` becomes `_x_`.
pub open spec fn spec_temp_prefix(name: Seq<char>) -> Seq<char> {
    if name == "_"@ {
        name
    } else {
        "_"@ + name + "_"@
    }
}

/// Whether a term's value names a built-in union tag.
pub open spec fn spec_is_union(t: TermV) -> bool {
    t.val matches ValV::Variable(n) && (n == actor_union_name() || n == resource_union_name())
}

// ---------------------------------------------------------------------
// Message texts of the mutating operations
// ---------------------------------------------------------------------

pub open spec fn msg_invalid_registration(name: Seq<char>) -> Seq<char> {
    "'"@ + name + "' is a built-in specializer."@
}

pub open spec fn msg_cannot_add_mro(name: Seq<char>) -> Seq<char> {
    "Cannot add MRO for unregistered class "@ + name
}

pub open spec fn msg_file_already_loaded(filename: Seq<char>) -> Seq<char> {
    "File "@ + filename + " has already been loaded."@
}

pub open spec fn msg_file_name_conflict(filename: Seq<char>) -> Seq<char> {
    "A file with the name "@ + filename + ", but different contents has already been loaded."@
}

pub open spec fn msg_file_content_conflict(filename: Seq<char>, other: Seq<char>) -> Seq<char> {
    "A file with the same contents as "@ + filename + " named "@ + other
        + " has already been loaded."@
}

// ---------------------------------------------------------------------
// The parameter matcher: specification
// ---------------------------------------------------------------------

/// Outcome of one conformance check: the rule side matches the rule-type
/// side, fails with a message, or the check itself is invalid.
pub enum CheckV {
    Matched,
    Unmatched(Seq<char>),
    Invalid(ValidationErrorV),
}

/// Outcome of scanning a list for one match: an error aborts the scan,
/// otherwise the scan reports whether a match was found.
pub enum ScanV {
    Error(ValidationErrorV),
    Found(bool),
}

/// Result of one executable parameter check.
#[derive(Debug)]
pub enum RuleParamMatch {
    True,
    False(String),
}

impl RuleParamMatch {
    /// Whether the check succeeded.
    pub fn is_true(&self) -> (r: bool)
        ensures
            r == (self matches RuleParamMatch::True),
    {
        matches!(self, RuleParamMatch::True)
    }
}

/// The outcome a check result stands for.
pub open spec fn check_view(r: Result<RuleParamMatch, ValidationError>) -> CheckV {
    match r {
        Ok(RuleParamMatch::True) => CheckV::Matched,
        Ok(RuleParamMatch::False(m)) => CheckV::Unmatched(m@),
        Err(e) => CheckV::Invalid(e@),
    }
}

/// Rule fields conform to type fields when every type field is present
/// in the rule fields with an equal value.
pub open spec fn spec_param_fields_match(tf: Seq<FieldV>, rf: Seq<FieldV>) -> bool {
    forall|i: int|
        0 <= i < tf.len() ==> match fields_get(rf, (#[trigger] tf[i]).key) {
            Some(v) => teq(v, tf[i].value),
            None => false,
        }
}

/// Whether the list holds an element equal (spans aside) to `t`.
pub open spec fn spec_list_has(rl: Seq<TermV>, t: TermV) -> bool {
    exists|j: int| 0 <= j < rl.len() && #[trigger] teq(rl[j], t)
}

/// Every element of the type list appears (spans aside) in the rule list.
pub open spec fn spec_list_subsumes(tl: Seq<TermV>, rl: Seq<TermV>) -> bool {
    forall|i: int| #![trigger tl[i]] 0 <= i < tl.len() ==> spec_list_has(rl, tl[i])
}

/// The instance-literal pattern the matcher synthesizes for a literal
/// value used as a specializer: the built-in tag for its type, or `None`
/// for values that cannot be specializers.
pub open spec fn spec_value_tag(v: ValV) -> Option<Seq<char>> {
    match v {
        ValV::String(_) => Some("String"@),
        ValV::Number(Numeric::Integer(_)) => Some("Integer"@),
        ValV::Number(Numeric::Float(_)) => Some("Float"@),
        ValV::Boolean(_) => Some("Boolean"@),
        ValV::List(_) => Some("List"@),
        ValV::Dictionary(_) => Some("Dictionary"@),
        _ => None,
    }
}

/// The fields of the synthesized instance literal: a dictionary value
/// contributes its own fields, every other value contributes none.
pub open spec fn spec_value_fields(v: ValV) -> Seq<FieldV> {
    match v {
        ValV::Dictionary(fs) => fs,
        _ => Seq::empty(),
    }
}

/// Conformance of one instance literal to another through the MRO:
/// the type tag must be registered as a class (an external instance),
/// the rule tag must carry an MRO containing the class's instance ID,
/// and the fields must conform.
pub open spec fn spec_subclass_check(
    kb: &KnowledgeBase,
    rule_inst: InstanceLiteralV,
    type_inst: InstanceLiteralV,
    index: nat,
) -> CheckV {
    match kb.spec_constant_view(type_inst.tag) {
        None => CheckV::Invalid(
            ValidationErrorV::UnregisteredClass {
                term: TermV { span: None, val: ValV::Variable(type_inst.tag) },
            },
        ),
        Some(tv) => match tv.val {
            ValV::ExternalInstance(e) => match kb.spec_mro(rule_inst.tag) {
                None => CheckV::Unmatched(msg_not_registered_class(rule_inst.tag, index)),
                Some(mro) => if !mro.contains(e.instance_id) {
                    CheckV::Unmatched(msg_must_match(rule_inst.tag, index, type_inst.tag))
                } else if !spec_param_fields_match(type_inst.fields, rule_inst.fields) {
                    CheckV::Unmatched(msg_fields_mismatch(rule_inst, index, type_inst))
                } else {
                    CheckV::Matched
                },
            },
            _ => CheckV::Unmatched(msg_not_a_class(type_inst.tag, index, render_term(tv))),
        },
    }
}

/// Scan the members of a union for one whose class subsumes the rule
/// instance: each member (a symbol term) is tried as an instance literal
/// carrying the type fields; an invalid subclass check aborts the scan,
/// which otherwise reports whether any member matched. Members that are
/// not symbol terms are passed over.
pub open spec fn spec_member_scan(
    kb: &KnowledgeBase,
    members: Seq<Term>,
    rule_inst: InstanceLiteralV,
    type_fields: Seq<FieldV>,
    index: nat,
    i: nat,
) -> ScanV
    decreases members.len() - i,
{
    if i >= members.len() {
        ScanV::Found(false)
    } else {
        match members[i as int]@.val {
            ValV::Variable(tag) => {
                let c = spec_subclass_check(
                    kb,
                    rule_inst,
                    InstanceLiteralV { tag, fields: type_fields },
                    index,
                );
                match c {
                    CheckV::Invalid(e) => ScanV::Error(e),
                    _ => match spec_member_scan(
                        kb,
                        members,
                        rule_inst,
                        type_fields,
                        index,
                        (i + 1) as nat,
                    ) {
                        ScanV::Error(e) => ScanV::Error(e),
                        ScanV::Found(b) => ScanV::Found(b || c is Matched),
                    },
                }
            },
            _ => spec_member_scan(kb, members, rule_inst, type_fields, index, (i + 1) as nat),
        }
    }
}

/// The member terms of the union named `tag`.
pub open spec fn spec_union_members(kb: &KnowledgeBase, tag: Seq<char>) -> Seq<Term> {
    if tag == actor_union_name() {
        kb.resource_blocks.actors@
    } else {
        kb.resource_blocks.resources@
    }
}

/// Conformance of a rule pattern specializer to a rule-type pattern
/// specializer: equal tags compare fields; a union type tag admits its
/// members and their subclasses; distinct class tags go through the MRO;
/// dictionary patterns compare fields.
pub open spec fn spec_check_pattern_param(
    kb: &KnowledgeBase,
    index: nat,
    rule_pat: PatternV,
    type_pat: PatternV,
) -> CheckV {
    match (type_pat, rule_pat) {
        (PatternV::Instance(ti), PatternV::Instance(ri)) => {
            if ti.tag == ri.tag {
                if spec_param_fields_match(ti.fields, ri.fields) {
                    CheckV::Matched
                } else {
                    CheckV::Unmatched(msg_fields_mismatch(ri, index, ti))
                }
            } else if ti.tag == actor_union_name() || ti.tag == resource_union_name() {
                if ri.tag == actor_union_name() || ri.tag == resource_union_name() {
                    CheckV::Unmatched(msg_union_no_match(ri.tag, index, ti.tag))
                } else {
                    let members = spec_union_members(kb, ti.tag);
                    if !crate::resource_block::spec_member_contains(members, ri.tag) {
                        match spec_member_scan(kb, members, ri, ti.fields, index, 0) {
                            ScanV::Error(e) => CheckV::Invalid(e),
                            ScanV::Found(false) => CheckV::Unmatched(
                                msg_union_member(ri.tag, index, ti.tag),
                            ),
                            ScanV::Found(true) => if spec_param_fields_match(
                                ti.fields,
                                ri.fields,
                            ) {
                                CheckV::Matched
                            } else {
                                CheckV::Unmatched(msg_fields_mismatch(ri, index, ti))
                            },
                        }
                    } else {
                        if spec_param_fields_match(ti.fields, ri.fields) {
                            CheckV::Matched
                        } else {
                            CheckV::Unmatched(msg_fields_mismatch(ri, index, ti))
                        }
                    }
                }
            } else {
                spec_subclass_check(kb, ri, ti, index)
            }
        },
        (PatternV::Dictionary(tf), PatternV::Dictionary(rf)) => {
            if spec_param_fields_match(tf, rf) {
                CheckV::Matched
            } else {
                CheckV::Unmatched(msg_dict_fields_mismatch(index, rf, tf))
            }
        },
        (PatternV::Dictionary(tf), PatternV::Instance(ri)) => {
            if spec_param_fields_match(tf, ri.fields) {
                CheckV::Matched
            } else {
                CheckV::Unmatched(msg_dict_fields_mismatch(index, ri.fields, tf))
            }
        },
        (PatternV::Instance(ti), PatternV::Dictionary(rf)) => {
            if ti.tag == "Dictionary"@ {
                if spec_param_fields_match(ti.fields, rf) {
                    CheckV::Matched
                } else {
                    CheckV::Unmatched(msg_dict_fields_mismatch(index, rf, ti.fields))
                }
            } else {
                CheckV::Unmatched(msg_pattern_mismatch(index, rule_pat, type_pat))
            }
        },
    }
}

/// Conformance of a literal rule value to a literal rule-type value:
/// a type list must be rest-free and contained in the rule list, type
/// dictionary fields must conform, and any other pair must be equal.
pub open spec fn spec_check_value_param(
    index: nat,
    rule_val: ValV,
    type_val: ValV,
    rule_type: RuleV,
) -> CheckV {
    match (type_val, rule_val) {
        (ValV::List(tl), ValV::List(rl)) => {
            if crate::terms::spec_has_rest_var(tl) {
                CheckV::Invalid(
                    ValidationErrorV::InvalidRuleType {
                        rule_type,
                        msg: "Rule types cannot contain *rest variables."@,
                    },
                )
            } else if spec_list_subsumes(tl, rl) {
                CheckV::Matched
            } else {
                CheckV::Unmatched(msg_list_mismatch(index, tl, rl))
            }
        },
        (ValV::Dictionary(tf), ValV::Dictionary(rf)) => {
            if spec_param_fields_match(tf, rf) {
                CheckV::Matched
            } else {
                CheckV::Unmatched(msg_value_dict_mismatch(index, tf, rf))
            }
        },
        _ => {
            if veq(type_val, rule_val) {
                CheckV::Matched
            } else {
                CheckV::Unmatched(msg_value_mismatch(index, rule_val, type_val))
            }
        },
    }
}

/// Conformance of a literal value (a value specializer, or a literal in
/// parameter position) to a rule-type pattern specializer: the value's
/// type is turned into a synthesized instance literal and checked, or
/// compared field-wise against a dictionary pattern.
pub open spec fn spec_synthesized_check(
    kb: &KnowledgeBase,
    index: nat,
    rule_val: ValV,
    rule: RuleV,
    type_spec_pat: PatternV,
) -> CheckV {
    match type_spec_pat {
        PatternV::Instance(_) => match spec_value_tag(rule_val) {
            Some(tag) => spec_check_pattern_param(
                kb,
                index,
                PatternV::Instance(
                    InstanceLiteralV { tag, fields: spec_value_fields(rule_val) },
                ),
                type_spec_pat,
            ),
            None => CheckV::Invalid(
                ValidationErrorV::InvalidRule {
                    rule,
                    msg: msg_value_variant(render_val(rule_val)),
                },
            ),
        },
        PatternV::Dictionary(tf) => match rule_val {
            ValV::Dictionary(rf) => {
                if spec_param_fields_match(tf, rf) {
                    CheckV::Matched
                } else {
                    CheckV::Unmatched(msg_expected_dict_fields(index, tf, rf))
                }
            },
            _ => CheckV::Unmatched(msg_expected_dict(index, render_val(rule_val))),
        },
    }
}

/// Conformance of one rule parameter to one rule-type parameter:
/// the decision table of the matcher. Parameter indexes are 1-based in
/// messages.
pub open spec fn spec_check_param(
    kb: &KnowledgeBase,
    index: nat,
    rule_param: ParameterV,
    rule: RuleV,
    type_param: ParameterV,
    rule_type: RuleV,
) -> CheckV {
    if type_param.parameter.val is Variable {
        match type_param.specializer {
            Some(ts) => {
                if ts.val is Pattern {
                    let tpat = ts.val->Pattern_0;
                    match rule_param.specializer {
                        Some(rs) => {
                            if rule_param.parameter.val is Variable {
                                if rs.val is Pattern {
                                    spec_check_pattern_param(kb, index, rs.val->Pattern_0, tpat)
                                } else {
                                    spec_synthesized_check(kb, index, rs.val, rule, tpat)
                                }
                            } else {
                                CheckV::Unmatched(
                                    msg_param_mismatch(index, rule_param, type_param),
                                )
                            }
                        },
                        None => {
                            if rule_param.parameter.val is Variable {
                                match tpat {
                                    PatternV::Instance(ti) => CheckV::Unmatched(
                                        msg_expects_constraint(
                                            rule_param.parameter.val->Variable_0,
                                            ti.tag,
                                        ),
                                    ),
                                    PatternV::Dictionary(_) => CheckV::Unmatched(
                                        msg_expected_spec(index, render_term(ts)),
                                    ),
                                }
                            } else {
                                spec_synthesized_check(
                                    kb,
                                    index,
                                    rule_param.parameter.val,
                                    rule,
                                    tpat,
                                )
                            }
                        },
                    }
                } else {
                    match rule_param.specializer {
                        Some(rs) => {
                            if rule_param.parameter.val is Variable {
                                spec_check_value_param(index, rs.val, ts.val, rule_type)
                            } else {
                                CheckV::Unmatched(
                                    msg_param_mismatch(index, rule_param, type_param),
                                )
                            }
                        },
                        None => {
                            if rule_param.parameter.val is Variable {
                                CheckV::Unmatched(msg_expected_spec(index, render_term(ts)))
                            } else {
                                spec_check_value_param(
                                    index,
                                    rule_param.parameter.val,
                                    ts.val,
                                    rule_type,
                                )
                            }
                        },
                    }
                }
            },
            None => CheckV::Matched,
        }
    } else {
        match (type_param.specializer, rule_param.specializer) {
            (None, None) => spec_check_value_param(
                index,
                rule_param.parameter.val,
                type_param.parameter.val,
                rule_type,
            ),
            _ => CheckV::Unmatched(msg_param_mismatch(index, rule_param, type_param)),
        }
    }
}

/// The first parameter index (from `i` on) whose check is invalid.
pub open spec fn spec_first_param_error(
    kb: &KnowledgeBase,
    rule: RuleV,
    rule_type: RuleV,
    i: nat,
) -> Option<ValidationErrorV>
    decreases rule.params.len() - i,
{
    if i >= rule.params.len() {
        None
    } else {
        match spec_check_param(
            kb,
            (i + 1) as nat,
            rule.params[i as int],
            rule,
            rule_type.params[i as int],
            rule_type,
        ) {
            CheckV::Invalid(e) => Some(e),
            _ => spec_first_param_error(kb, rule, rule_type, (i + 1) as nat),
        }
    }
}

/// The message of the first parameter (from `i` on) that fails to match.
pub open spec fn spec_first_param_failure(
    kb: &KnowledgeBase,
    rule: RuleV,
    rule_type: RuleV,
    i: nat,
) -> Option<Seq<char>>
    decreases rule.params.len() - i,
{
    if i >= rule.params.len() {
        None
    } else {
        match spec_check_param(
            kb,
            (i + 1) as nat,
            rule.params[i as int],
            rule,
            rule_type.params[i as int],
            rule_type,
        ) {
            CheckV::Unmatched(m) => Some(m),
            _ => spec_first_param_failure(kb, rule, rule_type, (i + 1) as nat),
        }
    }
}

/// Whether a rule conforms to a rule type: the arities must agree and
/// every parameter must conform. An invalid check on any parameter
/// aborts; otherwise the first failing parameter's message is reported.
pub open spec fn spec_rule_params_match(
    kb: &KnowledgeBase,
    rule: RuleV,
    rule_type: RuleV,
) -> CheckV {
    if rule.params.len() != rule_type.params.len() {
        CheckV::Unmatched(msg_arity(rule.params.len(), rule_type.params.len()))
    } else {
        match spec_first_param_error(kb, rule, rule_type, 0) {
            Some(e) => CheckV::Invalid(e),
            None => match spec_first_param_failure(kb, rule, rule_type, 0) {
                Some(m) => CheckV::Unmatched(m),
                None => CheckV::Matched,
            },
        }
    }
}

// ---------------------------------------------------------------------
// The matcher's message texts
// ---------------------------------------------------------------------

pub open spec fn msg_not_registered_class(rtag: Seq<char>, index: nat) -> Seq<char> {
    "Rule specializer "@ + rtag + " on parameter "@ + dec_nat(index)
        + " is not registered as a class."@
}

pub open spec fn msg_must_match(rtag: Seq<char>, index: nat, ttag: Seq<char>) -> Seq<char> {
    "Rule specializer "@ + rtag + " on parameter "@ + dec_nat(index)
        + " must match rule type specializer "@ + ttag
}

pub open spec fn msg_fields_mismatch(
    ri: InstanceLiteralV,
    index: nat,
    ti: InstanceLiteralV,
) -> Seq<char> {
    "Rule specializer "@ + render_pattern(PatternV::Instance(ri)) + " on parameter "@ + dec_nat(
        index,
    ) + " did not match rule type specializer "@ + render_pattern(PatternV::Instance(ti))
        + " because the specializer fields did not match."@
}

pub open spec fn msg_not_a_class(ttag: Seq<char>, index: nat, value: Seq<char>) -> Seq<char> {
    "Rule type specializer "@ + ttag + " on parameter "@ + dec_nat(index)
        + " should be a registered class, but instead it's registered as a constant with value: "@
        + value
}

pub open spec fn msg_union_no_match(rtag: Seq<char>, index: nat, ttag: Seq<char>) -> Seq<char> {
    "Rule specializer "@ + rtag + " on parameter "@ + dec_nat(index)
        + " does not match rule type specializer "@ + ttag
}

pub open spec fn msg_union_member(rtag: Seq<char>, index: nat, ttag: Seq<char>) -> Seq<char> {
    if ttag == actor_union_name() {
        "Rule specializer "@ + rtag + " on parameter "@ + dec_nat(index)
            + " must be a member of rule type specializer "@ + ttag
            + "\n\n\tPerhaps you meant to add an actor block to the top of your policy, like this:\n\n\t  actor "@
            + rtag + " {}"@
    } else if ttag == resource_union_name() {
        "Rule specializer "@ + rtag + " on parameter "@ + dec_nat(index)
            + " must be a member of rule type specializer "@ + ttag
            + "\n\n\tPerhaps you meant to add a resource block to your policy, like this:\n\n\t  resource "@
            + rtag + " { .. }"@
    } else {
        "Rule specializer "@ + rtag + " on parameter "@ + dec_nat(index)
            + " must be a member of rule type specializer "@ + ttag
    }
}

pub open spec fn msg_dict_fields_mismatch(
    index: nat,
    rf: Seq<FieldV>,
    tf: Seq<FieldV>,
) -> Seq<char> {
    "Specializer mismatch on parameter "@ + dec_nat(index) + ". Rule specializer fields {"@
        + render_fields(rf) + "} do not match rule type specializer fields {"@ + render_fields(tf)
        + "}."@
}

pub open spec fn msg_pattern_mismatch(
    index: nat,
    rule_pat: PatternV,
    type_pat: PatternV,
) -> Seq<char> {
    "Mismatch on parameter "@ + dec_nat(index) + ". Rule parameter "@ + render_pattern(rule_pat)
        + " does not match rule type parameter "@ + render_pattern(type_pat) + "."@
}

pub open spec fn msg_list_mismatch(index: nat, tl: Seq<TermV>, rl: Seq<TermV>) -> Seq<char> {
    "Invalid parameter "@ + dec_nat(index) + ". Rule type expected list ["@ + render_terms(tl)
        + "], got list ["@ + render_terms(rl) + "]."@
}

pub open spec fn msg_value_dict_mismatch(index: nat, tf: Seq<FieldV>, rf: Seq<FieldV>) -> Seq<
    char,
> {
    "Invalid parameter "@ + dec_nat(index) + ". Rule type expected Dictionary with fields {"@
        + render_fields(tf) + "}, got Dictionary with fields {"@ + render_fields(rf) + "}"@
}

pub open spec fn msg_value_mismatch(index: nat, rv: ValV, tv: ValV) -> Seq<char> {
    "Invalid parameter "@ + dec_nat(index) + ". Rule value "@ + render_val(rv)
        + " != rule type value "@ + render_val(tv)
}

pub open spec fn msg_expects_constraint(pname: Seq<char>, tag: Seq<char>) -> Seq<char> {
    "Parameter `"@ + pname + "` expects a "@ + tag + " type constraint.\n\n\t"@ + pname + ": "@
        + tag
}

pub open spec fn msg_expected_spec(index: nat, spec_text: Seq<char>) -> Seq<char> {
    "Invalid rule parameter "@ + dec_nat(index) + ". Rule type expected "@ + spec_text
}

pub open spec fn msg_value_variant(value: Seq<char>) -> Seq<char> {
    "Value variant "@ + value + " cannot be a specializer"@
}

pub open spec fn msg_expected_dict_fields(index: nat, tf: Seq<FieldV>, rf: Seq<FieldV>) -> Seq<
    char,
> {
    "Invalid parameter "@ + dec_nat(index) + ". Rule type expected Dictionary with fields {"@
        + render_fields(tf) + "}, got dictionary with fields {"@ + render_fields(rf) + "}."@
}

pub open spec fn msg_expected_dict(index: nat, value: Seq<char>) -> Seq<char> {
    "Invalid parameter "@ + dec_nat(index) + ". Rule type expected Dictionary, got "@ + value
        + "."@
}

pub open spec fn msg_param_mismatch(index: nat, rp: ParameterV, tp: ParameterV) -> Seq<char> {
    "Invalid parameter "@ + dec_nat(index) + ". Rule parameter "@ + crate::rules::render_param(rp)
        + " does not match rule type parameter "@ + crate::rules::render_param(tp)
}

pub open spec fn msg_arity(rn: nat, tn: nat) -> Seq<char> {
    "Different number of parameters. Rule has "@ + dec_nat(rn) + " parameter(s) but rule type has "@
        + dec_nat(tn) + "."@
}

// ---------------------------------------------------------------------
// The parameter matcher: executable checks
// ---------------------------------------------------------------------

/// Whether a list of IDs contains `x`.
fn u64_vec_contains(v: &Vec<u64>, x: u64) -> (r: bool)
    ensures
        r == v@.contains(x),
{
    let n = v.len();
    let mut i: usize = 0;
    #[verifier::loop_isolation(false)]
    while i < n
        invariant
            n == v.len(),
            i <= n,
            forall|j: int| 0 <= j < i ==> v@[j] != x,
        decreases n - i,
    {
        if v[i] == x {
            return true;
        }
        i = i + 1;
    }
    false
}

impl KnowledgeBase {
    /// Decide whether rule specializer fields conform to rule-type
    /// specializer fields: every type field must be present in the rule
    /// fields with an equal value.
    pub fn param_fields_match(&self, type_fields: &Dictionary, rule_fields: &Dictionary) -> (r:
        bool)
        ensures
            r == spec_param_fields_match(type_fields@, rule_fields@),
    {
        proof {
            crate::terms::lemma_view_fields(type_fields.fields@);
        }
        let n = type_fields.fields.len();
        let mut i: usize = 0;
        #[verifier::loop_isolation(false)]
        while i < n
            invariant
                n == type_fields.fields.len(),
                i <= n,
                forall|j: int|
                    0 <= j < i ==> match fields_get(
                        rule_fields@,
                        (#[trigger] type_fields@[j]).key,
                    ) {
                        Some(v) => teq(v, type_fields@[j].value),
                        None => false,
                    },
            decreases n - i,
        {
            let key = &type_fields.fields[i].0;
            let type_value = &type_fields.fields[i].1;
            match rule_fields.get(key) {
                Some(rule_value) => {
                    if !crate::terms::term_eq(rule_value, type_value) {
                        proof {
                            assert(type_fields@[i as int].key == key@);
                            assert(fields_get(rule_fields@, type_fields@[i as int].key) == Some(
                                rule_value@,
                            ));
                            assert(!teq(rule_value@, type_fields@[i as int].value));
                        }
                        return false;
                    }
                },
                None => {
                    proof {
                        assert(type_fields@[i as int].key == key@);
                        assert(fields_get(rule_fields@, type_fields@[i as int].key) is None);
                    }
                    return false;
                },
            }
            i = i + 1;
        }
        true
    }

    /// Decide, through the MRO lists the host registered, whether the
    /// rule's instance-literal specializer names a subclass of the rule
    /// type's.
    pub fn check_rule_instance_is_subclass_of_rule_type_instance(
        &self,
        rule_instance: &InstanceLiteral,
        rule_type_instance: &InstanceLiteral,
        index: usize,
    ) -> (r: Result<RuleParamMatch, ValidationError>)
        ensures
            check_view(r) == spec_subclass_check(
                self,
                rule_instance@,
                rule_type_instance@,
                index as nat,
            ),
    {
        let probe = Term::new(Value::Variable(rule_type_instance.tag.clone()));
        let constant = match self.get_registered_class(&probe) {
            Ok(t) => t,
            Err(e) => {
                return Err(e);
            },
        };
        match &constant.value {
            Value::ExternalInstance(instance) => {
                match skey_get(&self.mro, &rule_instance.tag) {
                    Some(rule_mro) => {
                        if !u64_vec_contains(rule_mro, instance.instance_id) {
                            let msg = String::new().concat("Rule specializer ").concat(
                                rule_instance.tag.0.as_str(),
                            ).concat(" on parameter ").concat(
                                crate::fmt::usize_to_string(index).as_str(),
                            ).concat(" must match rule type specializer ").concat(
                                rule_type_instance.tag.0.as_str(),
                            );
                            assert(msg@ =~= msg_must_match(
                                rule_instance@.tag,
                                index as nat,
                                rule_type_instance@.tag,
                            ));
                            Ok(RuleParamMatch::False(msg))
                        } else if !self.param_fields_match(
                            &rule_type_instance.fields,
                            &rule_instance.fields,
                        ) {
                            Ok(
                                RuleParamMatch::False(
                                    self.fields_mismatch_message(
                                        rule_instance,
                                        index,
                                        rule_type_instance,
                                    ),
                                ),
                            )
                        } else {
                            Ok(RuleParamMatch::True)
                        }
                    },
                    None => {
                        let msg = String::new().concat("Rule specializer ").concat(
                            rule_instance.tag.0.as_str(),
                        ).concat(" on parameter ").concat(
                            crate::fmt::usize_to_string(index).as_str(),
                        ).concat(" is not registered as a class.");
                        assert(msg@ =~= msg_not_registered_class(rule_instance@.tag, index as nat));
                        Ok(RuleParamMatch::False(msg))
                    },
                }
            },
            _ => {
                let rendered = crate::fmt::term_to_polar(constant);
                let msg = String::new().concat("Rule type specializer ").concat(
                    rule_type_instance.tag.0.as_str(),
                ).concat(" on parameter ").concat(
                    crate::fmt::usize_to_string(index).as_str(),
                ).concat(
                    " should be a registered class, but instead it's registered as a constant with value: ",
                ).concat(rendered.as_str());
                assert(msg@ =~= msg_not_a_class(
                    rule_type_instance@.tag,
                    index as nat,
                    render_term(constant@),
                ));
                Ok(RuleParamMatch::False(msg))
            },
        }
    }

    /// The fields-did-not-match failure message.
    fn fields_mismatch_message(
        &self,
        rule_instance: &InstanceLiteral,
        index: usize,
        rule_type_instance: &InstanceLiteral,
    ) -> (r: String)
        ensures
            r@ == msg_fields_mismatch(rule_instance@, index as nat, rule_type_instance@),
    {
        let rule_rendered = crate::fmt::instance_to_polar(rule_instance);
        let type_rendered = crate::fmt::instance_to_polar(rule_type_instance);
        let msg = String::new().concat("Rule specializer ").concat(rule_rendered.as_str()).concat(
            " on parameter ",
        ).concat(crate::fmt::usize_to_string(index).as_str()).concat(
            " did not match rule type specializer ",
        ).concat(type_rendered.as_str()).concat(
            " because the specializer fields did not match.",
        );
        assert(msg@ =~= msg_fields_mismatch(rule_instance@, index as nat, rule_type_instance@));
        msg
    }

    /// Decide whether a rule value conforms to a rule-type value.
    pub fn check_value_param(
        &self,
        index: usize,
        rule_value: &Value,
        rule_type_value: &Value,
        rule_type: &Rule,
    ) -> (r: Result<RuleParamMatch, ValidationError>)
        ensures
            check_view(r) == spec_check_value_param(
                index as nat,
                rule_value@,
                rule_type_value@,
                rule_type@,
            ),
    {
        proof {
            crate::terms::lemma_view_variant(*rule_value);
            crate::terms::lemma_view_variant(*rule_type_value);
        }
        match (rule_type_value, rule_value) {
            (Value::List(type_list), Value::List(rule_list)) => {
                if crate::terms::has_rest_var(type_list) {
                    return Err(
                        ValidationError::InvalidRuleType {
                            rule_type: rule_type.clone(),
                            msg: "Rule types cannot contain *rest variables.".to_owned(),
                        },
                    );
                }
                if Self::list_subsumes(type_list, rule_list) {
                    Ok(RuleParamMatch::True)
                } else {
                    let tl_rendered = crate::fmt::terms_to_polar(type_list);
                    let rl_rendered = crate::fmt::terms_to_polar(rule_list);
                    let msg = String::new().concat("Invalid parameter ").concat(
                        crate::fmt::usize_to_string(index).as_str(),
                    ).concat(". Rule type expected list [").concat(tl_rendered.as_str()).concat(
                        "], got list [",
                    ).concat(rl_rendered.as_str()).concat("].");
                    assert(msg@ =~= msg_list_mismatch(
                        index as nat,
                        crate::terms::view_terms(type_list@),
                        crate::terms::view_terms(rule_list@),
                    ));
                    Ok(RuleParamMatch::False(msg))
                }
            },
            (Value::Dictionary(type_fields), Value::Dictionary(rule_fields)) => {
                if self.param_fields_match(type_fields, rule_fields) {
                    Ok(RuleParamMatch::True)
                } else {
                    let tf_rendered = crate::fmt::fields_to_polar(&type_fields.fields);
                    let rf_rendered = crate::fmt::fields_to_polar(&rule_fields.fields);
                    let msg = String::new().concat("Invalid parameter ").concat(
                        crate::fmt::usize_to_string(index).as_str(),
                    ).concat(". Rule type expected Dictionary with fields {").concat(
                        tf_rendered.as_str(),
                    ).concat("}, got Dictionary with fields {").concat(
                        rf_rendered.as_str(),
                    ).concat("}");
                    assert(msg@ =~= msg_value_dict_mismatch(
                        index as nat,
                        type_fields@,
                        rule_fields@,
                    ));
                    Ok(RuleParamMatch::False(msg))
                }
            },
            _ => {
                if crate::terms::value_eq(rule_type_value, rule_value) {
                    Ok(RuleParamMatch::True)
                } else {
                    let rv_rendered = crate::fmt::value_to_polar(rule_value);
                    let tv_rendered = crate::fmt::value_to_polar(rule_type_value);
                    let msg = String::new().concat("Invalid parameter ").concat(
                        crate::fmt::usize_to_string(index).as_str(),
                    ).concat(". Rule value ").concat(rv_rendered.as_str()).concat(
                        " != rule type value ",
                    ).concat(tv_rendered.as_str());
                    assert(msg@ =~= msg_value_mismatch(
                        index as nat,
                        rule_value@,
                        rule_type_value@,
                    ));
                    Ok(RuleParamMatch::False(msg))
                }
            },
        }
    }

    /// Decide whether every element of the type list appears in the
    /// rule list.
    fn list_subsumes(type_list: &Vec<Term>, rule_list: &Vec<Term>) -> (r: bool)
        ensures
            r == spec_list_subsumes(
                crate::terms::view_terms(type_list@),
                crate::terms::view_terms(rule_list@),
            ),
    {
        proof {
            crate::terms::lemma_view_terms(type_list@);
            crate::terms::lemma_view_terms(rule_list@);
        }
        let ghost vtl = crate::terms::view_terms(type_list@);
        let ghost vrl = crate::terms::view_terms(rule_list@);
        let n = type_list.len();
        let mut i: usize = 0;
        #[verifier::loop_isolation(false)]
        while i < n
            invariant
                n == type_list.len(),
                i <= n,
                forall|k: int| #![trigger vtl[k]] 0 <= k < i ==> spec_list_has(vrl, vtl[k]),
            decreases n - i,
        {
            if !crate::resource_block::contains_term(rule_list, &type_list[i]) {
                proof {
                    assert forall|j: int| 0 <= j < vrl.len() implies !teq(
                        vrl[j],
                        vtl[i as int],
                    ) by {
                        assert(!teq(rule_list@[j]@, type_list@[i as int]@));
                    }
                    assert(vtl.len() == type_list@.len());
                    assert(!spec_list_has(vrl, vtl[i as int]));
                }
                return false;
            }
            proof {
                let j = choose|j: int|
                    0 <= j < rule_list@.len() && teq(rule_list@[j]@, type_list@[i as int]@);
                assert(teq(vrl[j], vtl[i as int]));
                assert(spec_list_has(vrl, vtl[i as int]));
            }
            i = i + 1;
        }
        proof {
            assert(vtl.len() == type_list@.len());
        }
        true
    }
}

impl KnowledgeBase {
    /// Decide whether a rule pattern specializer conforms to a rule-type
    /// pattern specializer.
    pub fn check_pattern_param(
        &self,
        index: usize,
        rule_pattern: &Pattern,
        rule_type_pattern: &Pattern,
    ) -> (r: Result<RuleParamMatch, ValidationError>)
        ensures
            check_view(r) == spec_check_pattern_param(
                self,
                index as nat,
                rule_pattern@,
                rule_type_pattern@,
            ),
    {
        proof {
            crate::terms::lemma_view_pattern_variant(*rule_pattern);
            crate::terms::lemma_view_pattern_variant(*rule_type_pattern);
        }
        match (rule_type_pattern, rule_pattern) {
            (Pattern::Instance(type_inst), Pattern::Instance(rule_inst)) => {
                if type_inst.tag.eq_name(&rule_inst.tag) {
                    if self.param_fields_match(&type_inst.fields, &rule_inst.fields) {
                        Ok(RuleParamMatch::True)
                    } else {
                        Ok(
                            RuleParamMatch::False(
                                self.fields_mismatch_message(rule_inst, index, type_inst),
                            ),
                        )
                    }
                } else if str_eq(type_inst.tag.0.as_str(), "Actor") || str_eq(
                    type_inst.tag.0.as_str(),
                    "Resource",
                ) {
                    if str_eq(rule_inst.tag.0.as_str(), "Actor") || str_eq(
                        rule_inst.tag.0.as_str(),
                        "Resource",
                    ) {
                        let msg = String::new().concat("Rule specializer ").concat(
                            rule_inst.tag.0.as_str(),
                        ).concat(" on parameter ").concat(
                            crate::fmt::usize_to_string(index).as_str(),
                        ).concat(" does not match rule type specializer ").concat(
                            type_inst.tag.0.as_str(),
                        );
                        assert(msg@ =~= msg_union_no_match(
                            rule_inst@.tag,
                            index as nat,
                            type_inst@.tag,
                        ));
                        return Ok(RuleParamMatch::False(msg));
                    }
                    let is_actor = str_eq(type_inst.tag.0.as_str(), "Actor");
                    let members: &Vec<Term> = if is_actor {
                        &self.resource_blocks.actors
                    } else {
                        &self.resource_blocks.resources
                    };
                    proof {
                        assert(members@ == spec_union_members(self, type_inst@.tag));
                    }
                    if !crate::resource_block::member_contains(members, &rule_inst.tag) {
                        let mut success = false;
                        let n = members.len();
                        let mut i: usize = 0;
                        let ghost ri_v = rule_inst@;
                        let ghost tf_v = type_inst@.fields;
                        #[verifier::loop_isolation(false)]
                        while i < n
                            invariant
                                n == members.len(),
                                i <= n,
                                spec_member_scan(self, members@, ri_v, tf_v, index as nat, 0)
                                    == match spec_member_scan(
                                    self,
                                    members@,
                                    ri_v,
                                    tf_v,
                                    index as nat,
                                    i as nat,
                                ) {
                                    ScanV::Error(e) => ScanV::Error(e),
                                    ScanV::Found(b) => ScanV::Found(b || success),
                                },
                            decreases n - i,
                        {
                            match &members[i].value {
                                Value::Variable(member_name) => {
                                    let synthesized = InstanceLiteral {
                                        tag: member_name.clone(),
                                        fields: type_inst.fields.clone(),
                                    };
                                    proof {
                                        crate::terms::lemma_view_variant(
                                            members@[i as int].value,
                                        );
                                        assert(members@[i as int]@.val->Variable_0
                                            == member_name@);
                                        assert(synthesized@ == (InstanceLiteralV {
                                            tag: members@[i as int]@.val->Variable_0,
                                            fields: tf_v,
                                        }));
                                    }
                                    match self.check_rule_instance_is_subclass_of_rule_type_instance(
                                        rule_inst,
                                        &synthesized,
                                        index,
                                    ) {
                                        Err(e) => {
                                            return Err(e);
                                        },
                                        Ok(RuleParamMatch::True) => {
                                            if !success {
                                                success = true;
                                            }
                                        },
                                        Ok(_) => {},
                                    }
                                },
                                _ => {
                                    proof {
                                        crate::terms::lemma_view_variant(
                                            members@[i as int].value,
                                        );
                                    }
                                },
                            }
                            i = i + 1;
                        }
                        if !success {
                            let mut msg = String::new().concat("Rule specializer ").concat(
                                rule_inst.tag.0.as_str(),
                            ).concat(" on parameter ").concat(
                                crate::fmt::usize_to_string(index).as_str(),
                            ).concat(" must be a member of rule type specializer ").concat(
                                type_inst.tag.0.as_str(),
                            );
                            if is_actor {
                                msg = msg.concat(
                                    "\n\n\tPerhaps you meant to add an actor block to the top of your policy, like this:\n\n\t  actor ",
                                ).concat(rule_inst.tag.0.as_str()).concat(" {}");
                            } else {
                                msg = msg.concat(
                                    "\n\n\tPerhaps you meant to add a resource block to your policy, like this:\n\n\t  resource ",
                                ).concat(rule_inst.tag.0.as_str()).concat(" { .. }");
                            }
                            assert(msg@ =~= msg_union_member(
                                rule_inst@.tag,
                                index as nat,
                                type_inst@.tag,
                            ));
                            return Ok(RuleParamMatch::False(msg));
                        }
                        if !self.param_fields_match(&type_inst.fields, &rule_inst.fields) {
                            return Ok(
                                RuleParamMatch::False(
                                    self.fields_mismatch_message(rule_inst, index, type_inst),
                                ),
                            );
                        }
                        Ok(RuleParamMatch::True)
                    } else {
                        if self.param_fields_match(&type_inst.fields, &rule_inst.fields) {
                            Ok(RuleParamMatch::True)
                        } else {
                            Ok(
                                RuleParamMatch::False(
                                    self.fields_mismatch_message(rule_inst, index, type_inst),
                                ),
                            )
                        }
                    }
                } else {
                    self.check_rule_instance_is_subclass_of_rule_type_instance(
                        rule_inst,
                        type_inst,
                        index,
                    )
                }
            },
            (Pattern::Dictionary(type_fields), Pattern::Dictionary(rule_fields)) => {
                if self.param_fields_match(type_fields, rule_fields) {
                    Ok(RuleParamMatch::True)
                } else {
                    Ok(
                        RuleParamMatch::False(
                            self.dict_mismatch_message(index, rule_fields, type_fields),
                        ),
                    )
                }
            },
            (Pattern::Dictionary(type_fields), Pattern::Instance(rule_inst)) => {
                if self.param_fields_match(type_fields, &rule_inst.fields) {
                    Ok(RuleParamMatch::True)
                } else {
                    Ok(
                        RuleParamMatch::False(
                            self.dict_mismatch_message(index, &rule_inst.fields, type_fields),
                        ),
                    )
                }
            },
            (Pattern::Instance(type_inst), Pattern::Dictionary(rule_fields)) => {
                if str_eq(type_inst.tag.0.as_str(), "Dictionary") {
                    if self.param_fields_match(&type_inst.fields, rule_fields) {
                        Ok(RuleParamMatch::True)
                    } else {
                        Ok(
                            RuleParamMatch::False(
                                self.dict_mismatch_message(
                                    index,
                                    rule_fields,
                                    &type_inst.fields,
                                ),
                            ),
                        )
                    }
                } else {
                    let rule_rendered = crate::fmt::pattern_to_polar(rule_pattern);
                    let type_rendered = crate::fmt::pattern_to_polar(rule_type_pattern);
                    let msg = String::new().concat("Mismatch on parameter ").concat(
                        crate::fmt::usize_to_string(index).as_str(),
                    ).concat(". Rule parameter ").concat(rule_rendered.as_str()).concat(
                        " does not match rule type parameter ",
                    ).concat(type_rendered.as_str()).concat(".");
                    assert(msg@ =~= msg_pattern_mismatch(
                        index as nat,
                        rule_pattern@,
                        rule_type_pattern@,
                    ));
                    Ok(RuleParamMatch::False(msg))
                }
            },
        }
    }

    /// The dictionary-fields failure message.
    fn dict_mismatch_message(
        &self,
        index: usize,
        rule_fields: &Dictionary,
        type_fields: &Dictionary,
    ) -> (r: String)
        ensures
            r@ == msg_dict_fields_mismatch(index as nat, rule_fields@, type_fields@),
    {
        let rf_rendered = crate::fmt::fields_to_polar(&rule_fields.fields);
        let tf_rendered = crate::fmt::fields_to_polar(&type_fields.fields);
        let msg = String::new().concat("Specializer mismatch on parameter ").concat(
            crate::fmt::usize_to_string(index).as_str(),
        ).concat(". Rule specializer fields {").concat(rf_rendered.as_str()).concat(
            "} do not match rule type specializer fields {",
        ).concat(tf_rendered.as_str()).concat("}.");
        assert(msg@ =~= msg_dict_fields_mismatch(index as nat, rule_fields@, type_fields@));
        msg
    }
}

impl KnowledgeBase {
    /// Decide whether one rule parameter conforms to one rule-type
    /// parameter. `index` is the 1-based position used in messages.
    pub fn check_param(
        &self,
        index: usize,
        rule_param: &Parameter,
        rule: &Rule,
        rule_type_param: &Parameter,
        rule_type: &Rule,
    ) -> (r: Result<RuleParamMatch, ValidationError>)
        ensures
            check_view(r) == spec_check_param(
                self,
                index as nat,
                rule_param@,
                rule@,
                rule_type_param@,
                rule_type@,
            ),
    {
        proof {
            crate::terms::lemma_view_variant(rule_type_param.parameter.value);
            crate::terms::lemma_view_variant(rule_param.parameter.value);
        }
        if matches!(&rule_type_param.parameter.value, Value::Variable(_)) {
            match &rule_type_param.specializer {
                Some(type_spec) => {
                    proof {
                        crate::terms::lemma_view_variant(type_spec.value);
                    }
                    match &type_spec.value {
                        Value::Pattern(type_pat) => {
                            match &rule_param.specializer {
                                Some(rule_spec) => {
                                    proof {
                                        crate::terms::lemma_view_variant(rule_spec.value);
                                    }
                                    if !matches!(&rule_param.parameter.value, Value::Variable(_)) {
                                        return Ok(
                                            RuleParamMatch::False(
                                                self.param_mismatch_message(
                                                    index,
                                                    rule_param,
                                                    rule_type_param,
                                                ),
                                            ),
                                        );
                                    }
                                    match &rule_spec.value {
                                        Value::Pattern(rule_pat) => self.check_pattern_param(
                                            index,
                                            rule_pat,
                                            type_pat,
                                        ),
                                        rule_value => self.check_synthesized(
                                            index,
                                            rule_value,
                                            rule,
                                            type_pat,
                                        ),
                                    }
                                },
                                None => {
                                    match (&rule_param.parameter.value, type_pat) {
                                        (Value::Variable(pname), Pattern::Instance(ti)) => {
                                            proof {
                                                crate::terms::lemma_view_pattern_variant(
                                                    *type_pat,
                                                );
                                            }
                                            let msg = String::new().concat("Parameter `").concat(
                                                pname.0.as_str(),
                                            ).concat("` expects a ").concat(
                                                ti.tag.0.as_str(),
                                            ).concat(
                                                " type constraint.\n\n\t",
                                            ).concat(pname.0.as_str()).concat(": ").concat(
                                                ti.tag.0.as_str(),
                                            );
                                            assert(msg@ =~= msg_expects_constraint(
                                                pname@,
                                                ti@.tag,
                                            ));
                                            Ok(RuleParamMatch::False(msg))
                                        },
                                        (Value::Variable(_), Pattern::Dictionary(_)) => {
                                            proof {
                                                crate::terms::lemma_view_pattern_variant(
                                                    *type_pat,
                                                );
                                            }
                                            Ok(
                                                RuleParamMatch::False(
                                                    self.expected_spec_message(index, type_spec),
                                                ),
                                            )
                                        },
                                        (rule_value, _) => self.check_synthesized(
                                            index,
                                            rule_value,
                                            rule,
                                            type_pat,
                                        ),
                                    }
                                },
                            }
                        },
                        _ => {
                            match &rule_param.specializer {
                                Some(rule_spec) => {
                                    if matches!(&rule_param.parameter.value, Value::Variable(_)) {
                                        self.check_value_param(
                                            index,
                                            &rule_spec.value,
                                            &type_spec.value,
                                            rule_type,
                                        )
                                    } else {
                                        Ok(
                                            RuleParamMatch::False(
                                                self.param_mismatch_message(
                                                    index,
                                                    rule_param,
                                                    rule_type_param,
                                                ),
                                            ),
                                        )
                                    }
                                },
                                None => {
                                    if matches!(&rule_param.parameter.value, Value::Variable(_)) {
                                        Ok(
                                            RuleParamMatch::False(
                                                self.expected_spec_message(index, type_spec),
                                            ),
                                        )
                                    } else {
                                        self.check_value_param(
                                            index,
                                            &rule_param.parameter.value,
                                            &type_spec.value,
                                            rule_type,
                                        )
                                    }
                                },
                            }
                        },
                    }
                },
                None => Ok(RuleParamMatch::True),
            }
        } else {
            match (&rule_type_param.specializer, &rule_param.specializer) {
                (None, None) => self.check_value_param(
                    index,
                    &rule_param.parameter.value,
                    &rule_type_param.parameter.value,
                    rule_type,
                ),
                _ => Ok(
                    RuleParamMatch::False(
                        self.param_mismatch_message(index, rule_param, rule_type_param),
                    ),
                ),
            }
        }
    }

    /// Check a literal value against a rule-type pattern specializer by
    /// synthesizing the instance literal for the value's type.
    fn check_synthesized(
        &self,
        index: usize,
        rule_value: &Value,
        rule: &Rule,
        type_pat: &Pattern,
    ) -> (r: Result<RuleParamMatch, ValidationError>)
        ensures
            check_view(r) == spec_synthesized_check(
                self,
                index as nat,
                rule_value@,
                rule@,
                type_pat@,
            ),
    {
        proof {
            crate::terms::lemma_view_pattern_variant(*type_pat);
            crate::terms::lemma_view_variant(*rule_value);
        }
        match type_pat {
            Pattern::Instance(_) => {
                let tag: &'static str = match rule_value {
                    Value::String(_) => "String",
                    Value::Number(Numeric::Integer(_)) => "Integer",
                    Value::Number(Numeric::Float(_)) => "Float",
                    Value::Boolean(_) => "Boolean",
                    Value::List(_) => "List",
                    Value::Dictionary(_) => "Dictionary",
                    _ => {
                        let rendered = crate::fmt::value_to_polar(rule_value);
                        let msg = String::new().concat("Value variant ").concat(
                            rendered.as_str(),
                        ).concat(" cannot be a specializer");
                        assert(msg@ =~= msg_value_variant(render_val(rule_value@)));
                        return Err(
                            ValidationError::InvalidRule { rule: rule.clone(), msg },
                        );
                    },
                };
                let fields = match rule_value {
                    Value::Dictionary(d) => d.clone(),
                    _ => Dictionary::new(),
                };
                let synthesized = Pattern::Instance(
                    InstanceLiteral { tag: Symbol::new(tag), fields },
                );
                proof {
                    assert(synthesized@ == PatternV::Instance(
                        InstanceLiteralV {
                            tag: spec_value_tag(rule_value@)->0,
                            fields: spec_value_fields(rule_value@),
                        },
                    ));
                }
                self.check_pattern_param(index, &synthesized, type_pat)
            },
            Pattern::Dictionary(type_fields) => {
                match rule_value {
                    Value::Dictionary(rule_fields) => {
                        if self.param_fields_match(type_fields, rule_fields) {
                            Ok(RuleParamMatch::True)
                        } else {
                            let tf_rendered = crate::fmt::fields_to_polar(&type_fields.fields);
                            let rf_rendered = crate::fmt::fields_to_polar(&rule_fields.fields);
                            let msg = String::new().concat("Invalid parameter ").concat(
                                crate::fmt::usize_to_string(index).as_str(),
                            ).concat(". Rule type expected Dictionary with fields {").concat(
                                tf_rendered.as_str(),
                            ).concat("}, got dictionary with fields {").concat(
                                rf_rendered.as_str(),
                            ).concat("}.");
                            assert(msg@ =~= msg_expected_dict_fields(
                                index as nat,
                                type_fields@,
                                rule_fields@,
                            ));
                            Ok(RuleParamMatch::False(msg))
                        }
                    },
                    _ => {
                        let rendered = crate::fmt::value_to_polar(rule_value);
                        let msg = String::new().concat("Invalid parameter ").concat(
                            crate::fmt::usize_to_string(index).as_str(),
                        ).concat(". Rule type expected Dictionary, got ").concat(
                            rendered.as_str(),
                        ).concat(".");
                        assert(msg@ =~= msg_expected_dict(
                            index as nat,
                            render_val(rule_value@),
                        ));
                        Ok(RuleParamMatch::False(msg))
                    },
                }
            },
        }
    }

    /// The generic parameter-mismatch message.
    fn param_mismatch_message(
        &self,
        index: usize,
        rule_param: &Parameter,
        rule_type_param: &Parameter,
    ) -> (r: String)
        ensures
            r@ == msg_param_mismatch(index as nat, rule_param@, rule_type_param@),
    {
        let rp_rendered = crate::rules::param_to_polar(rule_param);
        let tp_rendered = crate::rules::param_to_polar(rule_type_param);
        let msg = String::new().concat("Invalid parameter ").concat(
            crate::fmt::usize_to_string(index).as_str(),
        ).concat(". Rule parameter ").concat(rp_rendered.as_str()).concat(
            " does not match rule type parameter ",
        ).concat(tp_rendered.as_str());
        assert(msg@ =~= msg_param_mismatch(index as nat, rule_param@, rule_type_param@));
        msg
    }

    /// The rule-type-expected-a-specializer message.
    fn expected_spec_message(&self, index: usize, type_spec: &Term) -> (r: String)
        ensures
            r@ == msg_expected_spec(index as nat, render_term(type_spec@)),
    {
        let rendered = crate::fmt::term_to_polar(type_spec);
        let msg = String::new().concat("Invalid rule parameter ").concat(
            crate::fmt::usize_to_string(index).as_str(),
        ).concat(". Rule type expected ").concat(rendered.as_str());
        assert(msg@ =~= msg_expected_spec(index as nat, render_term(type_spec@)));
        msg
    }

    /// Decide whether a rule conforms to a rule type: the arities must
    /// agree and every parameter must conform; the first failing
    /// parameter's message is reported.
    pub fn rule_params_match(&self, rule: &Rule, rule_type: &Rule) -> (r: Result<
        RuleParamMatch,
        ValidationError,
    >)
        ensures
            check_view(r) == spec_rule_params_match(self, rule@, rule_type@),
    {
        proof {
            crate::rules::lemma_view_params(rule.params@);
            crate::rules::lemma_view_params(rule_type.params@);
        }
        let n = rule.params.len();
        if n != rule_type.params.len() {
            let rn_rendered = crate::fmt::usize_to_string(n);
            let tn_rendered = crate::fmt::usize_to_string(rule_type.params.len());
            let msg = String::new().concat("Different number of parameters. Rule has ").concat(
                rn_rendered.as_str(),
            ).concat(" parameter(s) but rule type has ").concat(tn_rendered.as_str()).concat(
                ".",
            );
            assert(msg@ =~= msg_arity(rule@.params.len(), rule_type@.params.len()));
            return Ok(RuleParamMatch::False(msg));
        }
        let ghost rv = rule@;
        let ghost rtv = rule_type@;
        let mut failure: Option<String> = None;
        let mut i: usize = 0;
        #[verifier::loop_isolation(false)]
        while i < n
            invariant
                n == rule.params.len() == rule_type.params.len(),
                i <= n,
                rv.params.len() == rtv.params.len() == n,
                spec_first_param_error(self, rv, rtv, 0) == spec_first_param_error(
                    self,
                    rv,
                    rtv,
                    i as nat,
                ),
                match failure {
                    None => spec_first_param_failure(self, rv, rtv, 0)
                        == spec_first_param_failure(self, rv, rtv, i as nat),
                    Some(m) => spec_first_param_failure(self, rv, rtv, 0) == Some(m@),
                },
            decreases n - i,
        {
            let outcome = self.check_param(
                i + 1,
                &rule.params[i],
                rule,
                &rule_type.params[i],
                rule_type,
            );
            proof {
                assert(rule.params@[i as int]@ == rv.params[i as int]);
                assert(rule_type.params@[i as int]@ == rtv.params[i as int]);
            }
            match outcome {
                Err(e) => {
                    return Err(e);
                },
                Ok(RuleParamMatch::True) => {},
                Ok(RuleParamMatch::False(m)) => {
                    if failure.is_none() {
                        failure = Some(m);
                    }
                },
            }
            i = i + 1;
        }
        match failure {
            Some(m) => Ok(RuleParamMatch::False(m)),
            None => Ok(RuleParamMatch::True),
        }
    }
}

// ---------------------------------------------------------------------
// Rule validation: specification
// ---------------------------------------------------------------------

/// The first rule type (from `i` on) whose conformance check against
/// `rule` is invalid.
pub open spec fn spec_type_try_error(
    kb: &KnowledgeBase,
    rule: RuleV,
    types: Seq<RuleV>,
    i: nat,
) -> Option<ValidationErrorV>
    decreases types.len() - i,
{
    if i >= types.len() {
        None
    } else {
        match spec_rule_params_match(kb, rule, types[i as int]) {
            CheckV::Invalid(e) => Some(e),
            _ => spec_type_try_error(kb, rule, types, (i + 1) as nat),
        }
    }
}

/// Whether some rule type admits the rule.
pub open spec fn spec_any_type_matches(kb: &KnowledgeBase, rule: RuleV, types: Seq<RuleV>) -> bool {
    exists|k: int|
        0 <= k < types.len() && #[trigger] spec_rule_params_match(kb, rule, types[k]) is Matched
}

/// The per-type failure lines accumulated for indexes below `i`: one
/// line for every rule type the rule failed to match.
pub open spec fn spec_tried_msg(
    kb: &KnowledgeBase,
    rule: RuleV,
    types: Seq<RuleV>,
    i: nat,
) -> Seq<char>
    decreases i,
{
    if i == 0 {
        Seq::empty()
    } else {
        spec_tried_msg(kb, rule, types, (i - 1) as nat) + match spec_rule_params_match(
            kb,
            rule,
            types[i - 1],
        ) {
            CheckV::Unmatched(m) => "\n"@ + render_rule(types[i - 1])
                + "\n\tFailed to match because: "@ + m + "\n"@,
            _ => Seq::empty(),
        }
    }
}

/// The outcome of checking one rule against the rule types of its name:
/// an invalid check aborts; otherwise the rule must match at least one
/// type, else it is invalid with the accumulated failure lines.
pub open spec fn spec_check_rule(kb: &KnowledgeBase, rule: RuleV, types: Seq<RuleV>) -> Option<
    ValidationErrorV,
> {
    match spec_type_try_error(kb, rule, types, 0) {
        Some(e) => Some(e),
        None => if spec_any_type_matches(kb, rule, types) {
            None
        } else {
            Some(
                ValidationErrorV::InvalidRule {
                    rule,
                    msg: "Must match one of the following rule types:\n"@ + spec_tried_msg(
                        kb,
                        rule,
                        types,
                        types.len(),
                    ),
                },
            )
        },
    }
}

/// The first rule (from `j` on) of one generic rule that fails its
/// rule-type check.
pub open spec fn spec_rules_scan(
    kb: &KnowledgeBase,
    rules: Seq<Rule>,
    types: Seq<RuleV>,
    j: nat,
) -> Option<ValidationErrorV>
    decreases rules.len() - j,
{
    if j >= rules.len() {
        None
    } else {
        match spec_check_rule(kb, rules[j as int]@, types) {
            Some(e) => Some(e),
            None => spec_rules_scan(kb, rules, types, (j + 1) as nat),
        }
    }
}

/// Phase one of validation, from entry `i` on: every rule whose name has
/// rule types must match one of them.
pub open spec fn spec_phase_a(kb: &KnowledgeBase, i: nat) -> Option<ValidationErrorV>
    decreases kb.rules@.len() - i,
{
    if i >= kb.rules@.len() {
        None
    } else {
        let entry = kb.rules@[i as int];
        match skey_find(kb.rule_types.types@, entry.0@) {
            Some(ts) => match spec_rules_scan(kb, entry.1.rules@, view_rules(ts@), 0) {
                Some(e) => Some(e),
                None => spec_phase_a(kb, (i + 1) as nat),
            },
            None => spec_phase_a(kb, (i + 1) as nat),
        }
    }
}

/// Scan the rules of one name for one that satisfies a required rule
/// type: an invalid check aborts; a match ends the scan.
pub open spec fn spec_required_scan(
    kb: &KnowledgeBase,
    rules: Seq<Rule>,
    rt: RuleV,
    j: nat,
) -> ScanV
    decreases rules.len() - j,
{
    if j >= rules.len() {
        ScanV::Found(false)
    } else {
        match spec_rule_params_match(kb, rules[j as int]@, rt) {
            CheckV::Invalid(e) => ScanV::Error(e),
            CheckV::Matched => ScanV::Found(true),
            CheckV::Unmatched(_) => spec_required_scan(kb, rules, rt, (j + 1) as nat),
        }
    }
}

/// Phase two of validation, from required rule type `i` on: every
/// required rule type must be satisfied by at least one rule of its
/// name.
pub open spec fn spec_phase_b(kb: &KnowledgeBase, i: nat) -> Option<ValidationErrorV>
    decreases kb.rule_types.required@.len() - i,
{
    if i >= kb.rule_types.required@.len() {
        None
    } else {
        let rt = kb.rule_types.required@[i as int];
        match skey_find(kb.rules@, rt.name@) {
            None => Some(ValidationErrorV::MissingRequiredRule { rule_type: rt@ }),
            Some(gr) => match spec_required_scan(kb, gr.rules@, rt@, 0) {
                ScanV::Error(e) => Some(e),
                ScanV::Found(true) => spec_phase_b(kb, (i + 1) as nat),
                ScanV::Found(false) => Some(
                    ValidationErrorV::MissingRequiredRule { rule_type: rt@ },
                ),
            },
        }
    }
}

/// The first error rule-type validation reports: phase one in rule
/// order, then required coverage in admission order.
pub open spec fn spec_validate_rule_types(kb: &KnowledgeBase) -> Option<ValidationErrorV> {
    match spec_phase_a(kb, 0) {
        Some(e) => Some(e),
        None => spec_phase_b(kb, 0),
    }
}

/// The source context attached to a validation error: the admitted
/// source the cited rule or term was parsed from, if any.
pub open spec fn spec_error_context(kb: &KnowledgeBase, e: ValidationErrorV) -> Option<
    crate::error::ErrorContextV,
> {
    match crate::error::spec_validation_span(e) {
        Some(sp) => match idkey_find(kb.sources.sources@, sp.src_id) {
            Some(s) => Some(crate::error::ErrorContextV { source: s@, left: sp.left, right: sp.right }),
            None => None,
        },
        None => None,
    }
}

// ---------------------------------------------------------------------
// Rule validation: executable checks
// ---------------------------------------------------------------------

impl KnowledgeBase {
    /// Check every loaded rule against the rule types of its name, and
    /// every required rule type against the loaded rules of its name.
    fn validate_rule_types(&self) -> (r: Result<(), ValidationError>)
        ensures
            match r {
                Ok(()) => spec_validate_rule_types(self) is None,
                Err(e) => spec_validate_rule_types(self) == Some(e@),
            },
    {
        let entry_count = self.rules.len();
        let mut ei: usize = 0;
        #[verifier::loop_isolation(false)]
        while ei < entry_count
            invariant
                entry_count == self.rules.len(),
                ei <= entry_count,
                spec_phase_a(self, 0) == spec_phase_a(self, ei as nat),
            decreases entry_count - ei,
        {
            match self.rule_types.get(&self.rules[ei].0) {
                Some(types) => {
                    proof {
                        lemma_view_rules(types@);
                    }
                    let ghost types_v = view_rules(types@);
                    let rule_count = self.rules[ei].1.rules.len();
                    let mut ri: usize = 0;
                    #[verifier::loop_isolation(false)]
                    while ri < rule_count
                        invariant
                            ei < entry_count == self.rules.len(),
                            rule_count == self.rules[ei as int].1.rules.len(),
                            ri <= rule_count,
                            skey_find(self.rule_types.types@, self.rules@[ei as int].0@)
                                == Some(*types),
                            types_v == view_rules(types@),
                            spec_rules_scan(self, self.rules@[ei as int].1.rules@, types_v, 0)
                                == spec_rules_scan(
                                self,
                                self.rules@[ei as int].1.rules@,
                                types_v,
                                ri as nat,
                            ),
                        decreases rule_count - ri,
                    {
                        let rule = &self.rules[ei].1.rules[ri];
                        match self.check_rule_against_types(rule, types) {
                            Ok(()) => {},
                            Err(e) => {
                                return Err(e);
                            },
                        }
                        ri = ri + 1;
                    }
                },
                None => {},
            }
            ei = ei + 1;
        }
        // Required-rule coverage.
        let required_count = self.rule_types.required.len();
        let mut qi: usize = 0;
        #[verifier::loop_isolation(false)]
        while qi < required_count
            invariant
                required_count == self.rule_types.required.len(),
                qi <= required_count,
                spec_phase_a(self, 0) is None,
                spec_phase_b(self, 0) == spec_phase_b(self, qi as nat),
            decreases required_count - qi,
        {
            let rule_type = &self.rule_types.required[qi];
            match skey_get(&self.rules, &rule_type.name) {
                None => {
                    return Err(
                        ValidationError::MissingRequiredRule { rule_type: rule_type.clone() },
                    );
                },
                Some(generic_rule) => {
                    let rule_count = generic_rule.rules.len();
                    let mut found = false;
                    let mut ri: usize = 0;
                    #[verifier::loop_isolation(false)]
                    while ri < rule_count && !found
                        invariant
                            rule_count == generic_rule.rules.len(),
                            ri <= rule_count,
                            found ==> spec_required_scan(
                                self,
                                generic_rule.rules@,
                                rule_type@,
                                0,
                            ) == ScanV::Found(true),
                            !found ==> spec_required_scan(
                                self,
                                generic_rule.rules@,
                                rule_type@,
                                0,
                            ) == spec_required_scan(
                                self,
                                generic_rule.rules@,
                                rule_type@,
                                ri as nat,
                            ),
                        decreases rule_count - ri,
                    {
                        match self.rule_params_match(&generic_rule.rules[ri], rule_type) {
                            Err(e) => {
                                return Err(e);
                            },
                            Ok(RuleParamMatch::True) => {
                                found = true;
                            },
                            Ok(RuleParamMatch::False(_)) => {},
                        }
                        ri = ri + 1;
                    }
                    if !found {
                        return Err(
                            ValidationError::MissingRequiredRule { rule_type: rule_type.clone() },
                        );
                    }
                },
            }
            qi = qi + 1;
        }
        Ok(())
    }

    /// Check one rule against the rule types of its name: it must match
    /// at least one of them.
    fn check_rule_against_types(&self, rule: &Rule, types: &Vec<Rule>) -> (r: Result<
        (),
        ValidationError,
    >)
        ensures
            match r {
                Ok(()) => spec_check_rule(self, rule@, view_rules(types@)) is None,
                Err(e) => spec_check_rule(self, rule@, view_rules(types@)) == Some(e@),
            },
    {
        proof {
            lemma_view_rules(types@);
        }
        let ghost types_v = view_rules(types@);
        let ghost rule_v = rule@;
        let mut msg = String::new().concat("Must match one of the following rule types:\n");
        let mut found = false;
        let ghost mut witness: int = 0;
        let type_count = types.len();
        let mut ti: usize = 0;
        #[verifier::loop_isolation(false)]
        while ti < type_count
            invariant
                type_count == types.len(),
                ti <= type_count,
                types_v == view_rules(types@),
                types_v.len() == type_count,
                rule_v == rule@,
                spec_type_try_error(self, rule_v, types_v, 0) == spec_type_try_error(
                    self,
                    rule_v,
                    types_v,
                    ti as nat,
                ),
                found ==> 0 <= witness < ti && spec_rule_params_match(
                    self,
                    rule_v,
                    types_v[witness],
                ) is Matched,
                !found ==> forall|k: int|
                    0 <= k < ti ==> !(#[trigger] spec_rule_params_match(
                        self,
                        rule_v,
                        types_v[k],
                    ) is Matched),
                msg@ == "Must match one of the following rule types:\n"@ + spec_tried_msg(
                    self,
                    rule_v,
                    types_v,
                    ti as nat,
                ),
            decreases type_count - ti,
        {
            let rule_type = &types[ti];
            match self.rule_params_match(rule, rule_type) {
                Err(e) => {
                    return Err(e);
                },
                Ok(RuleParamMatch::True) => {
                    if !found {
                        found = true;
                        proof {
                            witness = ti as int;
                        }
                    }
                    proof {
                        assert(spec_tried_msg(self, rule_v, types_v, (ti + 1) as nat)
                            =~= spec_tried_msg(self, rule_v, types_v, ti as nat));
                    }
                },
                Ok(RuleParamMatch::False(failure)) => {
                    let rendered = crate::rules::rule_to_polar(rule_type);
                    msg = msg.concat("\n").concat(rendered.as_str()).concat(
                        "\n\tFailed to match because: ",
                    ).concat(failure.as_str()).concat("\n");
                    proof {
                        assert(msg@ =~= "Must match one of the following rule types:\n"@
                            + spec_tried_msg(self, rule_v, types_v, (ti + 1) as nat));
                    }
                },
            }
            ti = ti + 1;
        }
        if found {
            proof {
                assert(spec_any_type_matches(self, rule_v, types_v));
            }
            Ok(())
        } else {
            proof {
                assert(!spec_any_type_matches(self, rule_v, types_v));
            }
            Err(ValidationError::InvalidRule { rule: rule.clone(), msg })
        }
    }

    /// Diagnostics from the query layer's undefined-rule-call analysis.
    /// That analysis is performed by the evaluator, outside this crate,
    /// so no diagnostics arise here.
    fn validate_rule_calls(&self) -> (r: Vec<Diagnostic>)
        ensures
            r@.len() == 0,
    {
        Vec::new()
    }

    /// Validate the loaded policy: every rule must conform to the rule
    /// types of its name, and every required rule type must be covered
    /// by a conforming rule. The first violation is reported as a
    /// diagnostic carrying the source context of the cited rule or term.
    pub fn validate_rules(&self) -> (r: Vec<Diagnostic>)
        ensures
            match spec_validate_rule_types(self) {
                None => r@.len() == 0,
                Some(e) => r@.len() == 1 && r@[0]@ == crate::error::DiagnosticV::Error(
                    crate::error::PolarErrorV {
                        kind: ErrorKindV::Validation(e),
                        context: spec_error_context(self, e),
                    },
                ),
            },
    {
        let mut diagnostics: Vec<Diagnostic> = Vec::new();
        match self.validate_rule_types() {
            Ok(()) => {},
            Err(e) => {
                let context = match e.span() {
                    Some(sp) => match self.sources.get_source(sp.src_id) {
                        Some(source) => Some(
                            crate::error::ErrorContext {
                                source,
                                left: sp.left,
                                right: sp.right,
                            },
                        ),
                        None => None,
                    },
                    None => None,
                };
                diagnostics.push(
                    Diagnostic::Error(PolarError { kind: ErrorKind::Validation(e), context }),
                );
            },
        }
        let mut call_diagnostics = self.validate_rule_calls();
        diagnostics.append(&mut call_diagnostics);
        diagnostics
    }
}

// ---------------------------------------------------------------------
// Resource-block elaboration: specification
// ---------------------------------------------------------------------

/// The views of a validation-error vector, element for element.
pub open spec fn view_verrs(es: Seq<ValidationError>) -> Seq<ValidationErrorV>
    decreases es.len(),
{
    if es.len() == 0 {
        Seq::empty()
    } else {
        view_verrs(es.drop_last()).push(es.last()@)
    }
}

pub proof fn lemma_view_verrs(es: Seq<ValidationError>)
    ensures
        view_verrs(es).len() == es.len(),
        forall|i: int| 0 <= i < es.len() ==> view_verrs(es)[i] == es[i]@,
    decreases es.len(),
{
    if es.len() > 0 {
        lemma_view_verrs(es.drop_last());
    }
}

/// The unregistered-relation errors of one block's declarations, for
/// the first `j` declarations: one error per relation whose related
/// class is not a registered constant.
pub open spec fn spec_decl_errors(
    kb: &KnowledgeBase,
    ds: Seq<(Term, crate::resource_block::Declaration)>,
    j: nat,
) -> Seq<ValidationErrorV>
    decreases j,
{
    if j == 0 {
        Seq::empty()
    } else {
        spec_decl_errors(kb, ds, (j - 1) as nat) + match ds[j - 1].1 {
            crate::resource_block::Declaration::Relation(subject) => {
                if view_term(subject).val matches ValV::Variable(tag) && kb.spec_constant(tag)
                    is None {
                    seq![ValidationErrorV::UnregisteredClass { term: view_term(subject) }]
                } else {
                    Seq::empty()
                }
            },
            _ => Seq::empty(),
        }
    }
}

/// The unregistered-relation errors of the first `i` blocks.
pub open spec fn spec_relation_errors(kb: &KnowledgeBase, i: nat) -> Seq<ValidationErrorV>
    decreases i,
{
    if i == 0 {
        Seq::empty()
    } else {
        spec_relation_errors(kb, (i - 1) as nat) + spec_decl_errors(
            kb,
            kb.resource_blocks.declarations@[i - 1].1@,
            kb.resource_blocks.declarations@[i - 1].1@.len(),
        )
    }
}

/// The rules the first `j` shorthand rules of one block compile to.
pub open spec fn spec_compiled_srs(
    blocks: &ResourceBlocks,
    resource: Seq<char>,
    srs: Seq<crate::resource_block::ShorthandRule>,
    j: nat,
) -> Seq<RuleV>
    decreases j,
{
    if j == 0 {
        Seq::empty()
    } else {
        spec_compiled_srs(blocks, resource, srs, (j - 1) as nat).push(
            crate::resource_block::spec_as_rule(blocks, resource, srs[j - 1]),
        )
    }
}

/// The rules the shorthand rules of the first `i` blocks compile to.
pub open spec fn spec_compiled(blocks: &ResourceBlocks, i: nat) -> Seq<RuleV>
    decreases i,
{
    if i == 0 {
        Seq::empty()
    } else {
        spec_compiled(blocks, (i - 1) as nat) + spec_compiled_srs(
            blocks,
            blocks.shorthand_rules@[i - 1].0@,
            blocks.shorthand_rules@[i - 1].1@,
            blocks.shorthand_rules@[i - 1].1@.len(),
        )
    }
}

/// The rules of one name among a rule sequence, in order.
pub open spec fn name_filter(rs: Seq<RuleV>, name: Seq<char>) -> Seq<RuleV>
    decreases rs.len(),
{
    if rs.len() == 0 {
        Seq::empty()
    } else if rs.last().name == name {
        name_filter(rs.drop_last(), name).push(rs.last())
    } else {
        name_filter(rs.drop_last(), name)
    }
}

/// The required rules among a rule sequence, in order.
pub open spec fn required_filter(rs: Seq<RuleV>) -> Seq<RuleV>
    decreases rs.len(),
{
    if rs.len() == 0 {
        Seq::empty()
    } else if rs.last().required {
        required_filter(rs.drop_last()).push(rs.last())
    } else {
        required_filter(rs.drop_last())
    }
}

/// One synthesized relation obligation: the related class, the relation
/// name term, the declaring block's name, and whether a shorthand rule
/// traverses the relation (making the obligation required).
pub type TripleV = (TermV, TermV, Seq<char>, bool);

/// The views of a triple vector, element for element.
pub open spec fn view_triples(ts: Seq<(Term, Term, Symbol, bool)>) -> Seq<TripleV>
    decreases ts.len(),
{
    if ts.len() == 0 {
        Seq::empty()
    } else {
        view_triples(ts.drop_last()).push(
            (ts.last().0@, ts.last().1@, ts.last().2@, ts.last().3),
        )
    }
}

pub proof fn lemma_view_triples(ts: Seq<(Term, Term, Symbol, bool)>)
    ensures
        view_triples(ts).len() == ts.len(),
        forall|i: int|
            0 <= i < ts.len() ==> view_triples(ts)[i] == (ts[i].0@, ts[i].1@, ts[i].2@, ts[i].3),
    decreases ts.len(),
{
    if ts.len() > 0 {
        lemma_view_triples(ts.drop_last());
    }
}

/// The relation triples declared by the first `j` declarations of one
/// block, not yet required.
pub open spec fn spec_seed_decls(
    ds: Seq<(Term, crate::resource_block::Declaration)>,
    resource: Seq<char>,
    j: nat,
) -> Seq<TripleV>
    decreases j,
{
    if j == 0 {
        Seq::empty()
    } else {
        spec_seed_decls(ds, resource, (j - 1) as nat) + match ds[j - 1].1 {
            crate::resource_block::Declaration::Relation(subject) => seq![
                (view_term(subject), view_term(ds[j - 1].0), resource, false),
            ],
            _ => Seq::empty(),
        }
    }
}

/// The relation triples declared by the first `i` blocks.
pub open spec fn spec_seed(blocks: &ResourceBlocks, i: nat) -> Seq<TripleV>
    decreases i,
{
    if i == 0 {
        Seq::empty()
    } else {
        spec_seed(blocks, (i - 1) as nat) + spec_seed_decls(
            blocks.declarations@[i - 1].1@,
            blocks.declarations@[i - 1].0@,
            blocks.declarations@[i - 1].1@.len(),
        )
    }
}

/// Mark the triple `(s, n, o)` required: the first matching triple is
/// flagged, or a required triple is appended when none matches.
pub open spec fn spec_mark(tv: Seq<TripleV>, s: TermV, n: TermV, o: Seq<char>) -> Seq<TripleV>
    decreases tv.len(),
{
    if tv.len() == 0 {
        seq![(s, n, o, true)]
    } else if teq(tv[0].0, s) && teq(tv[0].1, n) && tv[0].2 == o {
        tv.update(0, (tv[0].0, tv[0].1, tv[0].2, true))
    } else {
        seq![tv[0]] + spec_mark(tv.drop_first(), s, n, o)
    }
}

/// The requirements one shorthand rule adds: traversing `"head" if
/// "implier" on "relation"` requires the relation (and, when the
/// implier is itself a relation of the related class, that relation
/// too); `"head" if "implier"` requires the implier when it is a
/// relation of the block.
pub open spec fn spec_apply_sr(
    blocks: &ResourceBlocks,
    tv: Seq<TripleV>,
    object: Seq<char>,
    sr: crate::resource_block::ShorthandRule,
) -> Seq<TripleV> {
    match sr.body.1 {
        Some(kr) => match crate::resource_block::spec_relation_type(blocks, object, kr.1@) {
            Some(subject) => {
                let tv1 = spec_mark(tv, subject@, kr.1@, object);
                if subject@.val is Variable {
                    let subject_tag = subject@.val->Variable_0;
                    match crate::resource_block::spec_relation_type(
                        blocks,
                        subject_tag,
                        sr.body.0@,
                    ) {
                        Some(related) => spec_mark(tv1, related@, sr.body.0@, subject_tag),
                        None => tv1,
                    }
                } else {
                    tv1
                }
            },
            None => tv,
        },
        None => match crate::resource_block::spec_relation_type(blocks, object, sr.body.0@) {
            Some(subject) => spec_mark(tv, subject@, sr.body.0@, object),
            None => tv,
        },
    }
}

/// Apply the shorthand rules of one block, from index `j` on.
pub open spec fn spec_apply_srs(
    blocks: &ResourceBlocks,
    tv: Seq<TripleV>,
    object: Seq<char>,
    srs: Seq<crate::resource_block::ShorthandRule>,
    j: nat,
) -> Seq<TripleV>
    decreases srs.len() - j,
{
    if j >= srs.len() {
        tv
    } else {
        spec_apply_srs(
            blocks,
            spec_apply_sr(blocks, tv, object, srs[j as int]),
            object,
            srs,
            (j + 1) as nat,
        )
    }
}

/// Apply every block's shorthand rules, from entry `i` on.
pub open spec fn spec_apply_blocks(blocks: &ResourceBlocks, tv: Seq<TripleV>, i: nat) -> Seq<
    TripleV,
>
    decreases blocks.shorthand_rules@.len() - i,
{
    if i >= blocks.shorthand_rules@.len() {
        tv
    } else {
        spec_apply_blocks(
            blocks,
            spec_apply_srs(
                blocks,
                tv,
                blocks.shorthand_rules@[i as int].0@,
                blocks.shorthand_rules@[i as int].1@,
                0,
            ),
            (i + 1) as nat,
        )
    }
}

/// The relation obligations of the resource blocks: the declared
/// relation triples, with the ones traversed by shorthand rules marked
/// required.
pub open spec fn spec_triples(blocks: &ResourceBlocks) -> Seq<TripleV> {
    spec_apply_blocks(blocks, spec_seed(blocks, blocks.declarations@.len()), 0)
}

/// The `has_relation` rule type one obligation becomes: the related
/// class specializes the subject, the relation name is a literal
/// string, and the declaring block's class specializes the object. The
/// span is copied from the relation name term.
pub open spec fn spec_triple_rule(t: TripleV) -> RuleV {
    RuleV {
        name: "has_relation"@,
        params: seq![
            ParameterV {
                parameter: crate::resource_block::spec_var_term("subject"@),
                specializer: Some(
                    crate::resource_block::spec_instance_term(t.0.val->Variable_0),
                ),
            },
            ParameterV {
                parameter: TermV { span: None, val: ValV::String(t.1.val->String_0) },
                specializer: None,
            },
            ParameterV {
                parameter: crate::resource_block::spec_var_term("object"@),
                specializer: Some(crate::resource_block::spec_instance_term(t.2)),
            },
        ],
        body: TermV { span: None, val: ValV::Expression(Operator::And, Seq::empty()) },
        span: t.1.span,
        required: t.3,
    }
}

/// The rule types of the first `k` obligations.
pub open spec fn spec_triple_rules(tv: Seq<TripleV>, k: nat) -> Seq<RuleV>
    decreases k,
{
    if k == 0 {
        Seq::empty()
    } else {
        spec_triple_rules(tv, (k - 1) as nat).push(spec_triple_rule(tv[k - 1]))
    }
}

/// The `has_role(actor: Actor, role: String, resource: Resource)`
/// required rule type added when any block declares roles.
pub open spec fn spec_has_role_rule() -> RuleV {
    RuleV {
        name: "has_role"@,
        params: seq![
            ParameterV {
                parameter: crate::resource_block::spec_var_term("actor"@),
                specializer: Some(crate::resource_block::spec_instance_term("Actor"@)),
            },
            ParameterV {
                parameter: crate::resource_block::spec_var_term("role"@),
                specializer: Some(crate::resource_block::spec_instance_term("String"@)),
            },
            ParameterV {
                parameter: crate::resource_block::spec_var_term("resource"@),
                specializer: Some(crate::resource_block::spec_instance_term("Resource"@)),
            },
        ],
        body: TermV { span: None, val: ValV::Expression(Operator::And, Seq::empty()) },
        span: None,
        required: true,
    }
}

/// Every rule type the elaborator creates, in creation order.
pub open spec fn spec_created_rule_types(blocks: &ResourceBlocks) -> Seq<RuleV> {
    let tv = spec_triples(blocks);
    spec_triple_rules(tv, tv.len()) + if crate::resource_block::spec_has_roles(blocks) {
        seq![spec_has_role_rule()]
    } else {
        Seq::empty()
    }
}

// ---------------------------------------------------------------------
// Resource-block elaboration: executable checks
// ---------------------------------------------------------------------

/// Flag the first triple equal to `(s, n, o)` as required, or append a
/// required triple when none matches.
fn mark_triple(triples: &mut Vec<(Term, Term, Symbol, bool)>, s: &Term, n: &Term, o: &Symbol)
    ensures
        view_triples(final(triples)@) == spec_mark(view_triples(old(triples)@), s@, n@, o@),
{
    proof {
        lemma_view_triples(triples@);
    }
    let ghost tv = view_triples(triples@);
    let count = triples.len();
    let mut i: usize = 0;
    #[verifier::loop_isolation(false)]
    while i < count
        invariant
            count == triples.len(),
            i <= count,
            triples@ == old(triples)@,
            tv == view_triples(triples@),
            forall|j: int|
                0 <= j < i ==> !(teq(tv[j].0, s@) && teq(tv[j].1, n@) && tv[j].2 == o@),
        decreases count - i,
    {
        if crate::terms::term_eq(&triples[i].0, s) && crate::terms::term_eq(&triples[i].1, n)
            && triples[i].2.eq_name(o) {
            let entry = triples.remove(i);
            let flagged = (entry.0, entry.1, entry.2, true);
            triples.insert(i, flagged);
            proof {
                lemma_view_triples(triples@);
                assert(view_triples(triples@) =~= tv.update(
                    i as int,
                    (tv[i as int].0, tv[i as int].1, tv[i as int].2, true),
                ));
                lemma_mark_at(tv, s@, n@, o@, i as int);
            }
            return ;
        }
        i = i + 1;
    }
    let s_copy = crate::terms::term_clone(s);
    let n_copy = crate::terms::term_clone(n);
    let o_copy = o.clone();
    triples.push((s_copy, n_copy, o_copy, true));
    proof {
        lemma_view_triples(triples@);
        assert(view_triples(triples@) =~= tv.push((s@, n@, o@, true)));
        lemma_mark_absent(tv, s@, n@, o@);
    }
}

/// When the first `i` triples do not match, marking updates triple `i`.
proof fn lemma_mark_at(tv: Seq<TripleV>, s: TermV, n: TermV, o: Seq<char>, i: int)
    requires
        0 <= i < tv.len(),
        forall|j: int| 0 <= j < i ==> !(teq(tv[j].0, s) && teq(tv[j].1, n) && tv[j].2 == o),
        teq(tv[i].0, s) && teq(tv[i].1, n) && tv[i].2 == o,
    ensures
        spec_mark(tv, s, n, o) =~= tv.update(i, (tv[i].0, tv[i].1, tv[i].2, true)),
    decreases i,
{
    if i > 0 {
        lemma_mark_at(tv.drop_first(), s, n, o, i - 1);
        assert(spec_mark(tv, s, n, o) =~= seq![tv[0]] + tv.drop_first().update(
            i - 1,
            (tv[i].0, tv[i].1, tv[i].2, true),
        ));
    }
}

/// When no triple matches, marking appends a required triple.
proof fn lemma_mark_absent(tv: Seq<TripleV>, s: TermV, n: TermV, o: Seq<char>)
    requires
        forall|j: int| 0 <= j < tv.len() ==> !(teq(tv[j].0, s) && teq(tv[j].1, n) && tv[j].2 == o),
    ensures
        spec_mark(tv, s, n, o) =~= tv.push((s, n, o, true)),
    decreases tv.len(),
{
    if tv.len() > 0 {
        lemma_mark_absent(tv.drop_first(), s, n, o);
    }
}

impl KnowledgeBase {
    /// Collect an `UnregisteredClass` error for every relation declared
    /// in any resource block whose related class is not a registered
    /// constant.
    fn check_that_resource_block_relations_are_registered(&self) -> (r: Vec<ValidationError>)
        ensures
            view_verrs(r@) == spec_relation_errors(
                self,
                self.resource_blocks.declarations@.len(),
            ),
    {
        let mut errors: Vec<ValidationError> = Vec::new();
        let entry_count = self.resource_blocks.declarations.len();
        let mut i: usize = 0;
        #[verifier::loop_isolation(false)]
        while i < entry_count
            invariant
                entry_count == self.resource_blocks.declarations@.len(),
                i <= entry_count,
                view_verrs(errors@) == spec_relation_errors(self, i as nat),
            decreases entry_count - i,
        {
            let ds = &self.resource_blocks.declarations[i].1;
            let decl_count = ds.len();
            let mut j: usize = 0;
            #[verifier::loop_isolation(false)]
            while j < decl_count
                invariant
                    i < entry_count == self.resource_blocks.declarations@.len(),
                    decl_count == ds.len(),
                    j <= decl_count,
                    ds == &self.resource_blocks.declarations[i as int].1,
                    view_verrs(errors@) == spec_relation_errors(self, i as nat)
                        + spec_decl_errors(self, ds@, j as nat),
                decreases decl_count - j,
            {
                match &ds[j].1 {
                    crate::resource_block::Declaration::Relation(subject) => {
                        match &subject.value {
                            Value::Variable(tag) => {
                                if !skey_contains(&self.constants, tag) {
                                    let ghost prev = errors@;
                                    errors.push(
                                        ValidationError::UnregisteredClass {
                                            term: crate::terms::term_clone(subject),
                                        },
                                    );
                                    proof {
                                        crate::terms::lemma_view_variant(subject.value);
                                        lemma_view_verrs(prev);
                                        lemma_view_verrs(errors@);
                                        assert(view_verrs(errors@) =~= view_verrs(prev).push(
                                            errors@.last()@,
                                        ));
                                        assert(view_verrs(errors@) =~= spec_relation_errors(
                                            self,
                                            i as nat,
                                        ) + spec_decl_errors(self, ds@, (j + 1) as nat));
                                    }
                                } else {
                                    proof {
                                        crate::terms::lemma_view_variant(subject.value);
                                        assert(view_verrs(errors@) =~= spec_relation_errors(
                                            self,
                                            i as nat,
                                        ) + spec_decl_errors(self, ds@, (j + 1) as nat));
                                    }
                                }
                            },
                            _ => {
                                proof {
                                    crate::terms::lemma_view_variant(subject.value);
                                    assert(view_verrs(errors@) =~= spec_relation_errors(
                                        self,
                                        i as nat,
                                    ) + spec_decl_errors(self, ds@, (j + 1) as nat));
                                }
                            },
                        }
                    },
                    _ => {
                        proof {
                            assert(view_verrs(errors@) =~= spec_relation_errors(self, i as nat)
                                + spec_decl_errors(self, ds@, (j + 1) as nat));
                        }
                    },
                }
                j = j + 1;
            }
            i = i + 1;
            proof {
                assert(view_verrs(errors@) =~= spec_relation_errors(self, i as nat));
            }
        }
        errors
    }

    /// Rewrite every shorthand rule into a concrete rule and load the
    /// results, provided every relation declared in the blocks names a
    /// registered class; otherwise return the errors and load nothing.
    pub fn rewrite_shorthand_rules(&mut self) -> (r: Vec<ValidationError>)
        requires
            crate::resource_block::spec_blocks_wf(&old(self).resource_blocks),
        ensures
            view_verrs(r@) == spec_relation_errors(
                old(self),
                old(self).resource_blocks.declarations@.len(),
            ),
            r@.len() == 0 ==> {
                &&& forall|n2: Seq<char>| #![auto]
                    final(self).spec_rules_of(n2) == old(self).spec_rules_of(n2) + name_filter(
                        spec_compiled(
                            &old(self).resource_blocks,
                            old(self).resource_blocks.shorthand_rules@.len(),
                        ),
                        n2,
                    )
                &&& same_except_rules(final(self), old(self))
            },
            r@.len() != 0 ==> *final(self) == *old(self),
    {
        let errors = self.check_that_resource_block_relations_are_registered();
        let mut compiled: Vec<Rule> = Vec::new();
        let entry_count = self.resource_blocks.shorthand_rules.len();
        let mut i: usize = 0;
        #[verifier::loop_isolation(false)]
        while i < entry_count
            invariant
                entry_count == self.resource_blocks.shorthand_rules@.len(),
                i <= entry_count,
                *self == *old(self),
                crate::resource_block::spec_blocks_wf(&self.resource_blocks),
                view_rules(compiled@) == spec_compiled(&self.resource_blocks, i as nat),
            decreases entry_count - i,
        {
            let entry = &self.resource_blocks.shorthand_rules[i];
            let sr_count = entry.1.len();
            let mut j: usize = 0;
            #[verifier::loop_isolation(false)]
            while j < sr_count
                invariant
                    i < entry_count == self.resource_blocks.shorthand_rules@.len(),
                    sr_count == entry.1.len(),
                    j <= sr_count,
                    *self == *old(self),
                    entry == &self.resource_blocks.shorthand_rules[i as int],
                    crate::resource_block::spec_blocks_wf(&self.resource_blocks),
                    view_rules(compiled@) == spec_compiled(&self.resource_blocks, i as nat)
                        + spec_compiled_srs(
                        &self.resource_blocks,
                        entry.0@,
                        entry.1@,
                        j as nat,
                    ),
                decreases sr_count - j,
            {
                proof {
                    assert(crate::resource_block::spec_shorthand_wf(
                        &self.resource_blocks,
                        self.resource_blocks.shorthand_rules@[i as int].0@,
                        self.resource_blocks.shorthand_rules@[i as int].1@[j as int],
                    ));
                }
                let ghost prev = compiled@;
                compiled.push(entry.1[j].as_rule(&entry.0, &self.resource_blocks));
                proof {
                    lemma_view_rules(prev);
                    lemma_view_rules(compiled@);
                    assert(view_rules(compiled@) =~= view_rules(prev).push(compiled@.last()@));
                }
                j = j + 1;
            }
            i = i + 1;
        }
        if errors.len() == 0 {
            let ghost all_compiled = view_rules(compiled@);
            let compiled_count = compiled.len();
            proof {
                lemma_view_rules(compiled@);
            }
            let mut k: usize = 0;
            #[verifier::loop_isolation(false)]
            while k < compiled_count
                invariant
                    compiled_count == compiled.len(),
                    k <= compiled_count,
                    all_compiled == view_rules(compiled@),
                    all_compiled.len() == compiled_count,
                    same_except_rules(self, old(self)),
                    forall|n2: Seq<char>| #![auto]
                        self.spec_rules_of(n2) == old(self).spec_rules_of(n2) + name_filter(
                            all_compiled.subrange(0, k as int),
                            n2,
                        ),
                decreases compiled_count - k,
            {
                let rule = compiled[k].clone();
                let ghost rule_v = rule@;
                self.add_rule(rule);
                proof {
                    let prefix = all_compiled.subrange(0, k as int);
                    let prefix2 = all_compiled.subrange(0, k + 1 as int);
                    assert(prefix2.drop_last() =~= prefix);
                    assert(prefix2.last() == rule_v);
                    assert forall|n2: Seq<char>| true implies #[trigger] self.spec_rules_of(n2)
                        == old(self).spec_rules_of(n2) + name_filter(prefix2, n2) by {
                        if n2 == rule_v.name {
                            assert(self.spec_rules_of(n2) =~= old(self).spec_rules_of(n2)
                                + name_filter(prefix2, n2));
                        } else {
                            assert(self.spec_rules_of(n2) =~= old(self).spec_rules_of(n2)
                                + name_filter(prefix2, n2));
                        }
                    }
                }
                k = k + 1;
            }
            proof {
                assert(all_compiled.subrange(0, compiled_count as int) =~= all_compiled);
            }
        }
        errors
    }
}

/// Every synthesized obligation names a class symbol and a string
/// relation name.
pub open spec fn triples_wf(tv: Seq<TripleV>) -> bool {
    forall|k: int|
        0 <= k < tv.len() ==> (#[trigger] tv[k]).0.val is Variable && tv[k].1.val is String
}

/// Marking preserves obligation well-formedness when the marked triple
/// is itself well formed.
proof fn lemma_mark_wf(tv: Seq<TripleV>, s: TermV, n: TermV, o: Seq<char>)
    requires
        triples_wf(tv),
        s.val is Variable,
        n.val is String,
    ensures
        triples_wf(spec_mark(tv, s, n, o)),
    decreases tv.len(),
{
    let out = spec_mark(tv, s, n, o);
    if tv.len() == 0 {
    } else if teq(tv[0].0, s) && teq(tv[0].1, n) && tv[0].2 == o {
    } else {
        assert(triples_wf(tv.drop_first()));
        lemma_mark_wf(tv.drop_first(), s, n, o);
        assert forall|k: int|
            0 <= k < out.len() implies (#[trigger] out[k]).0.val is Variable && out[k].1.val
            is String by {
            if k > 0 {
                assert(out[k] == spec_mark(tv.drop_first(), s, n, o)[k - 1]);
            }
        }
    }
}

impl KnowledgeBase {
    /// Synthesize the rule types the resource blocks oblige: one
    /// `has_relation` rule type per declared relation, required when a
    /// shorthand rule traverses it, and a required `has_role` rule type
    /// when any block declares roles.
    pub fn create_resource_specific_rule_types(&mut self)
        requires
            crate::resource_block::spec_blocks_wf(&old(self).resource_blocks),
        ensures
            forall|n2: Seq<char>| #![auto]
                crate::rules::spec_types_of(final(self).rule_types.types@, n2)
                    == crate::rules::spec_types_of(old(self).rule_types.types@, n2) + name_filter(
                    spec_created_rule_types(&old(self).resource_blocks),
                    n2,
                ),
            view_rules(final(self).rule_types.required@) == view_rules(
                old(self).rule_types.required@,
            ) + required_filter(spec_created_rule_types(&old(self).resource_blocks)),
            same_except_rule_types(final(self), old(self)),
    {
        let ghost blocks_g = self.resource_blocks;
        // Seed one non-required obligation per declared relation.
        let mut triples: Vec<(Term, Term, Symbol, bool)> = Vec::new();
        let entry_count = self.resource_blocks.declarations.len();
        let mut i: usize = 0;
        #[verifier::loop_isolation(false)]
        while i < entry_count
            invariant
                entry_count == self.resource_blocks.declarations@.len(),
                i <= entry_count,
                *self == *old(self),
                view_triples(triples@) == spec_seed(&self.resource_blocks, i as nat),
                triples_wf(view_triples(triples@)),
            decreases entry_count - i,
        {
            let ds = &self.resource_blocks.declarations[i].1;
            let decl_count = ds.len();
            let mut j: usize = 0;
            #[verifier::loop_isolation(false)]
            while j < decl_count
                invariant
                    i < entry_count == self.resource_blocks.declarations@.len(),
                    decl_count == ds.len(),
                    j <= decl_count,
                    *self == *old(self),
                    ds == &self.resource_blocks.declarations[i as int].1,
                    view_triples(triples@) == spec_seed(&self.resource_blocks, i as nat)
                        + spec_seed_decls(
                        ds@,
                        self.resource_blocks.declarations@[i as int].0@,
                        j as nat,
                    ),
                    triples_wf(view_triples(triples@)),
                decreases decl_count - j,
            {
                match &ds[j].1 {
                    crate::resource_block::Declaration::Relation(subject) => {
                        let ghost prev_list = triples@;
                        let ghost prev = view_triples(triples@);
                        let subject_copy = crate::terms::term_clone(subject);
                        let name_copy = crate::terms::term_clone(&ds[j].0);
                        let resource_copy = self.resource_blocks.declarations[i].0.clone();
                        triples.push((subject_copy, name_copy, resource_copy, false));
                        proof {
                            lemma_view_triples(prev_list);
                            lemma_view_triples(triples@);
                            assert(view_triples(triples@) =~= prev.push(
                                (
                                    view_term(subject_copy),
                                    view_term(name_copy),
                                    resource_copy@,
                                    false,
                                ),
                            ));
                            assert(view_triples(triples@) =~= spec_seed(
                                &self.resource_blocks,
                                i as nat,
                            ) + spec_seed_decls(
                                ds@,
                                self.resource_blocks.declarations@[i as int].0@,
                                (j + 1) as nat,
                            ));
                        }
                    },
                    _ => {
                        proof {
                            assert(view_triples(triples@) =~= spec_seed(
                                &self.resource_blocks,
                                i as nat,
                            ) + spec_seed_decls(
                                ds@,
                                self.resource_blocks.declarations@[i as int].0@,
                                (j + 1) as nat,
                            ));
                        }
                    },
                }
                j = j + 1;
            }
            i = i + 1;
            proof {
                assert(view_triples(triples@) =~= spec_seed(&self.resource_blocks, i as nat));
            }
        }
        // Mark the obligations shorthand rules traverse as required.
        let sr_entry_count = self.resource_blocks.shorthand_rules.len();
        let mut si: usize = 0;
        #[verifier::loop_isolation(false)]
        while si < sr_entry_count
            invariant
                sr_entry_count == self.resource_blocks.shorthand_rules@.len(),
                si <= sr_entry_count,
                *self == *old(self),
                crate::resource_block::spec_blocks_wf(&self.resource_blocks),
                spec_triples(&self.resource_blocks) == spec_apply_blocks(
                    &self.resource_blocks,
                    view_triples(triples@),
                    si as nat,
                ),
                triples_wf(view_triples(triples@)),
            decreases sr_entry_count - si,
        {
            let entry = &self.resource_blocks.shorthand_rules[si];
            let sr_count = entry.1.len();
            let mut sj: usize = 0;
            #[verifier::loop_isolation(false)]
            while sj < sr_count
                invariant
                    si < sr_entry_count == self.resource_blocks.shorthand_rules@.len(),
                    sr_count == entry.1.len(),
                    sj <= sr_count,
                    *self == *old(self),
                    entry == &self.resource_blocks.shorthand_rules[si as int],
                    crate::resource_block::spec_blocks_wf(&self.resource_blocks),
                    spec_triples(&self.resource_blocks) == spec_apply_blocks(
                        &self.resource_blocks,
                        spec_apply_srs(
                            &self.resource_blocks,
                            view_triples(triples@),
                            entry.0@,
                            entry.1@,
                            sj as nat,
                        ),
                        (si + 1) as nat,
                    ),
                    triples_wf(view_triples(triples@)),
                decreases sr_count - sj,
            {
                let sr = &entry.1[sj];
                proof {
                    assert(crate::resource_block::spec_shorthand_wf(
                        &self.resource_blocks,
                        self.resource_blocks.shorthand_rules@[si as int].0@,
                        self.resource_blocks.shorthand_rules@[si as int].1@[sj as int],
                    ));
                }
                let ghost before = view_triples(triples@);
                match &sr.body.1 {
                    Some(kr) => {
                        match self.resource_blocks.get_relation_type_in_resource_block(
                            &kr.1,
                            &entry.0,
                        ) {
                            Some(subject) => {
                                proof {
                                    crate::resource_block::lemma_relation_type_wf(
                                        &self.resource_blocks,
                                        entry.0@,
                                        kr.1@,
                                    );
                                    lemma_mark_wf(before, subject@, kr.1@, entry.0@);
                                }
                                mark_triple(&mut triples, subject, &kr.1, &entry.0);
                                match &subject.value {
                                    Value::Variable(subject_tag) => {
                                        proof {
                                            crate::terms::lemma_view_variant(subject.value);
                                        }
                                        match self.resource_blocks.get_relation_type_in_resource_block(
                                            &sr.body.0,
                                            subject_tag,
                                        ) {
                                            Some(related) => {
                                                proof {
                                                    crate::resource_block::lemma_relation_type_wf(
                                                        &self.resource_blocks,
                                                        subject_tag@,
                                                        sr.body.0@,
                                                    );
                                                    lemma_mark_wf(
                                                        view_triples(triples@),
                                                        related@,
                                                        sr.body.0@,
                                                        subject_tag@,
                                                    );
                                                }
                                                mark_triple(
                                                    &mut triples,
                                                    related,
                                                    &sr.body.0,
                                                    subject_tag,
                                                );
                                            },
                                            None => {},
                                        }
                                    },
                                    _ => {
                                        proof {
                                            crate::terms::lemma_view_variant(subject.value);
                                        }
                                    },
                                }
                            },
                            None => {},
                        }
                    },
                    None => {
                        match self.resource_blocks.get_relation_type_in_resource_block(
                            &sr.body.0,
                            &entry.0,
                        ) {
                            Some(subject) => {
                                proof {
                                    crate::resource_block::lemma_relation_type_wf(
                                        &self.resource_blocks,
                                        entry.0@,
                                        sr.body.0@,
                                    );
                                    lemma_mark_wf(before, subject@, sr.body.0@, entry.0@);
                                }
                                mark_triple(&mut triples, subject, &sr.body.0, &entry.0);
                            },
                            None => {},
                        }
                    },
                }
                proof {
                    assert(view_triples(triples@) == spec_apply_sr(
                        &self.resource_blocks,
                        before,
                        entry.0@,
                        self.resource_blocks.shorthand_rules@[si as int].1@[sj as int],
                    ));
                }
                sj = sj + 1;
            }
            si = si + 1;
        }
        proof {
            assert(view_triples(triples@) == spec_triples(&self.resource_blocks));
        }
        // Build the rule types.
        let ghost tv = view_triples(triples@);
        let mut created: Vec<Rule> = Vec::new();
        let triple_count = triples.len();
        proof {
            lemma_view_triples(triples@);
        }
        let mut k: usize = 0;
        #[verifier::loop_isolation(false)]
        while k < triple_count
            invariant
                triple_count == triples.len(),
                k <= triple_count,
                tv == view_triples(triples@),
                tv.len() == triple_count,
                triples_wf(tv),
                view_rules(created@) == spec_triple_rules(tv, k as nat),
            decreases triple_count - k,
        {
            let subject_tag = match &triples[k].0.value {
                Value::Variable(s) => s,
                _ => {
                    proof {
                        crate::terms::lemma_view_variant(triples@[k as int].0.value);
                    }
                    vstd::pervasive::unreached()
                },
            };
            let name_string = match &triples[k].1.value {
                Value::String(st) => st,
                _ => {
                    proof {
                        crate::terms::lemma_view_variant(triples@[k as int].1.value);
                    }
                    vstd::pervasive::unreached()
                },
            };
            let mut params: Vec<Parameter> = Vec::new();
            params.push(
                Parameter::new(
                    crate::resource_block::var_term("subject"),
                    Some(crate::resource_block::instance_term(subject_tag.clone())),
                ),
            );
            params.push(
                Parameter::new(
                    Term { span: None, value: Value::String(name_string.clone()) },
                    None,
                ),
            );
            params.push(
                Parameter::new(
                    crate::resource_block::var_term("object"),
                    Some(crate::resource_block::instance_term(triples[k].2.clone())),
                ),
            );
            let body = Term {
                span: None,
                value: Value::Expression(
                    crate::terms::Operation { operator: Operator::And, args: Vec::new() },
                ),
            };
            let rule = Rule {
                name: Symbol::new("has_relation"),
                params,
                body,
                span: triples[k].1.span,
                required: triples[k].3,
            };
            proof {
                crate::terms::lemma_view_variant(triples@[k as int].0.value);
                crate::terms::lemma_view_variant(triples@[k as int].1.value);
                crate::rules::lemma_view_params(rule.params@);
                crate::terms::lemma_view_terms(rule.body.value->Expression_0.args@);
                assert(crate::terms::view_terms(rule.body.value->Expression_0.args@)
                    =~= Seq::<TermV>::empty());
                assert(view_params(rule.params@) =~= spec_triple_rule(tv[k as int]).params);
                assert(rule@ == spec_triple_rule(tv[k as int]));
            }
            let ghost prev = created@;
            created.push(rule);
            proof {
                lemma_view_rules(prev);
                lemma_view_rules(created@);
                assert(view_rules(created@) =~= view_rules(prev).push(created@.last()@));
            }
            k = k + 1;
        }
        if self.resource_blocks.has_roles() {
            let mut params: Vec<Parameter> = Vec::new();
            params.push(
                Parameter::new(
                    crate::resource_block::var_term("actor"),
                    Some(crate::resource_block::instance_term(Symbol::new("Actor"))),
                ),
            );
            params.push(
                Parameter::new(
                    crate::resource_block::var_term("role"),
                    Some(crate::resource_block::instance_term(Symbol::new("String"))),
                ),
            );
            params.push(
                Parameter::new(
                    crate::resource_block::var_term("resource"),
                    Some(crate::resource_block::instance_term(Symbol::new("Resource"))),
                ),
            );
            let body = Term {
                span: None,
                value: Value::Expression(
                    crate::terms::Operation { operator: Operator::And, args: Vec::new() },
                ),
            };
            let rule = Rule {
                name: Symbol::new("has_role"),
                params,
                body,
                span: None,
                required: true,
            };
            proof {
                crate::rules::lemma_view_params(rule.params@);
                crate::terms::lemma_view_terms(rule.body.value->Expression_0.args@);
                assert(crate::terms::view_terms(rule.body.value->Expression_0.args@)
                    =~= Seq::<TermV>::empty());
                assert(view_params(rule.params@) =~= spec_has_role_rule().params);
                assert(rule@ == spec_has_role_rule());
            }
            let ghost prev = created@;
            created.push(rule);
            proof {
                lemma_view_rules(prev);
                lemma_view_rules(created@);
                assert(view_rules(created@) =~= view_rules(prev).push(created@.last()@));
            }
        }
        proof {
            assert(view_rules(created@) =~= spec_created_rule_types(&old(self).resource_blocks));
        }
        // Store them.
        let ghost created_v = view_rules(created@);
        let created_count = created.len();
        proof {
            lemma_view_rules(created@);
        }
        let mut a: usize = 0;
        #[verifier::loop_isolation(false)]
        while a < created_count
            invariant
                created_count == created.len(),
                a <= created_count,
                created_v == view_rules(created@),
                created_v.len() == created_count,
                same_except_rule_types(self, old(self)),
                forall|n2: Seq<char>| #![auto]
                    crate::rules::spec_types_of(self.rule_types.types@, n2)
                        == crate::rules::spec_types_of(old(self).rule_types.types@, n2)
                        + name_filter(created_v.subrange(0, a as int), n2),
                view_rules(self.rule_types.required@) == view_rules(
                    old(self).rule_types.required@,
                ) + required_filter(created_v.subrange(0, a as int)),
            decreases created_count - a,
        {
            let rule = created[a].clone();
            let ghost rule_v = rule@;
            self.add_rule_type(rule);
            proof {
                let prefix = created_v.subrange(0, a as int);
                let prefix2 = created_v.subrange(0, a + 1 as int);
                assert(prefix2.drop_last() =~= prefix);
                assert(prefix2.last() == rule_v);
                assert forall|n2: Seq<char>| true implies #[trigger] crate::rules::spec_types_of(
                    self.rule_types.types@,
                    n2,
                ) == crate::rules::spec_types_of(old(self).rule_types.types@, n2) + name_filter(
                    prefix2,
                    n2,
                ) by {
                    if n2 == rule_v.name {
                        assert(crate::rules::spec_types_of(self.rule_types.types@, n2)
                            =~= crate::rules::spec_types_of(old(self).rule_types.types@, n2)
                            + name_filter(prefix2, n2));
                    } else {
                        assert(crate::rules::spec_types_of(self.rule_types.types@, n2)
                            =~= crate::rules::spec_types_of(old(self).rule_types.types@, n2)
                            + name_filter(prefix2, n2));
                    }
                }
                assert(view_rules(self.rule_types.required@) =~= view_rules(
                    old(self).rule_types.required@,
                ) + required_filter(prefix2));
            }
            a = a + 1;
        }
        proof {
            assert(created_v.subrange(0, created_count as int) =~= created_v);
        }
    }
}

} // verus!
