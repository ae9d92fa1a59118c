//! Laws of the rule-type matcher.
//!
//! Each proof here states a property of the matcher for all knowledge
//! bases and all inputs of the shapes described, proved from the
//! matcher's specification alone.

use vstd::prelude::*;

use crate::kb::{
    actor_union_name, resource_union_name, spec_check_param, spec_check_pattern_param,
    spec_check_value_param, spec_first_param_error, spec_first_param_failure, spec_list_has,
    spec_member_scan, spec_param_fields_match, spec_rule_params_match, CheckV, KnowledgeBase,
    ScanV,
};
use crate::error::ValidationErrorV;
use crate::resource_block::spec_member_contains;
use crate::rules::{ParameterV, RuleV};
use crate::terms::{
    fields_get, peq, spec_has_rest_var, teq, veq, FieldV, InstanceLiteralV, PatternV, TermV, ValV,
};

verus! {

// ---------------------------------------------------------------------
// Reflexivity of term equality
// ---------------------------------------------------------------------

/// Term equality is reflexive.
pub proof fn lemma_teq_refl(t: TermV)
    ensures
        teq(t, t),
    decreases t,
{
    lemma_veq_refl(t.val);
}

/// Value equality is reflexive.
pub proof fn lemma_veq_refl(v: ValV)
    ensures
        veq(v, v),
    decreases v,
{
    match v {
        ValV::List(ts) => {
            assert forall|i: int| 0 <= i < ts.len() implies teq(ts[i], ts[i]) by {
                lemma_veq_refl(ts[i].val);
            }
        },
        ValV::Dictionary(fs) => {
            assert forall|i: int|
                0 <= i < fs.len() implies fs[i].key == fs[i].key && teq(
                fs[i].value,
                fs[i].value,
            ) by {
                lemma_veq_refl(fs[i].value.val);
            }
        },
        ValV::Pattern(p) => {
            lemma_peq_refl(p);
        },
        ValV::Expression(_, ts) => {
            assert forall|i: int| 0 <= i < ts.len() implies teq(ts[i], ts[i]) by {
                lemma_veq_refl(ts[i].val);
            }
        },
        ValV::Call(_, ts) => {
            assert forall|i: int| 0 <= i < ts.len() implies teq(ts[i], ts[i]) by {
                lemma_veq_refl(ts[i].val);
            }
        },
        _ => {},
    }
}

/// Pattern equality is reflexive.
pub proof fn lemma_peq_refl(p: PatternV)
    ensures
        peq(p, p),
    decreases p,
{
    match p {
        PatternV::Dictionary(fs) => {
            assert forall|i: int|
                0 <= i < fs.len() implies fs[i].key == fs[i].key && teq(
                fs[i].value,
                fs[i].value,
            ) by {
                lemma_veq_refl(fs[i].value.val);
            }
        },
        PatternV::Instance(lit) => {
            assert forall|i: int|
                0 <= i < lit.fields.len() implies lit.fields[i].key == lit.fields[i].key && teq(
                lit.fields[i].value,
                lit.fields[i].value,
            ) by {
                lemma_veq_refl(lit.fields[i].value.val);
            }
        },
    }
}

// ---------------------------------------------------------------------
// Reflexivity of the matcher
// ---------------------------------------------------------------------

/// Fields with pairwise-distinct keys.
pub open spec fn fields_unique(fs: Seq<FieldV>) -> bool {
    forall|i: int, j: int| 0 <= i < j < fs.len() ==> fs[i].key != fs[j].key
}

/// Fields with distinct keys conform to themselves.
pub proof fn lemma_fields_match_self(fs: Seq<FieldV>)
    requires
        fields_unique(fs),
    ensures
        spec_param_fields_match(fs, fs),
{
    assert forall|i: int| 0 <= i < fs.len() implies match fields_get(fs, (#[trigger] fs[i]).key) {
        Some(v) => teq(v, fs[i].value),
        None => false,
    } by {
        crate::terms::lemma_fields_get_at(fs, fs[i].key, i);
        lemma_veq_refl(fs[i].value.val);
    }
}

/// A value that matches itself when used as its own type: a pattern
/// whose field dictionaries have distinct keys, a rest-free list, or a
/// dictionary with distinct keys; every scalar qualifies.
pub open spec fn self_matching_val(v: ValV) -> bool {
    match v {
        ValV::Pattern(PatternV::Instance(lit)) => fields_unique(lit.fields),
        ValV::Pattern(PatternV::Dictionary(fs)) => fields_unique(fs),
        ValV::List(ts) => !spec_has_rest_var(ts),
        ValV::Dictionary(fs) => fields_unique(fs),
        _ => true,
    }
}

/// A parameter that matches itself when its rule is used as its own
/// type: an unspecialized value, or a variable whose specializer is
/// self-matching.
pub open spec fn self_matching_param(p: ParameterV) -> bool {
    if p.parameter.val is Variable {
        match p.specializer {
            None => true,
            Some(s) => self_matching_val(s.val),
        }
    } else {
        p.specializer is None && self_matching_val(p.parameter.val)
    }
}

/// A rule every parameter of which is self-matching.
pub open spec fn self_matching_rule(r: RuleV) -> bool {
    forall|i: int| 0 <= i < r.params.len() ==> self_matching_param(#[trigger] r.params[i])
}

/// A self-matching value conforms to itself as a literal value.
proof fn lemma_value_matches_self(index: nat, v: ValV, rule_type: RuleV)
    requires
        self_matching_val(v),
    ensures
        spec_check_value_param(index, v, v, rule_type) is Matched,
{
    match v {
        ValV::List(ts) => {
            assert forall|i: int| #![trigger ts[i]] 0 <= i < ts.len() implies spec_list_has(
                ts,
                ts[i],
            ) by {
                lemma_veq_refl(ts[i].val);
                assert(0 <= i < ts.len() && teq(ts[i], ts[i]));
            }
        },
        ValV::Dictionary(fs) => {
            lemma_fields_match_self(fs);
        },
        _ => {
            lemma_veq_refl(v);
        },
    }
}

/// A self-matching parameter conforms to itself.
proof fn lemma_param_matches_self(
    kb: &KnowledgeBase,
    index: nat,
    p: ParameterV,
    rule: RuleV,
)
    requires
        self_matching_param(p),
    ensures
        spec_check_param(kb, index, p, rule, p, rule) is Matched,
{
    if p.parameter.val is Variable {
        match p.specializer {
            None => {},
            Some(s) => {
                if s.val is Pattern {
                    let pat = s.val->Pattern_0;
                    match pat {
                        PatternV::Instance(lit) => {
                            lemma_fields_match_self(lit.fields);
                        },
                        PatternV::Dictionary(fs) => {
                            lemma_fields_match_self(fs);
                        },
                    }
                } else {
                    lemma_value_matches_self(index, s.val, rule);
                }
            },
        }
    } else {
        lemma_value_matches_self(index, p.parameter.val, rule);
    }
}

/// No parameter check of a self-matching rule against itself is
/// invalid, from index `i` on.
proof fn lemma_self_scan_no_error(kb: &KnowledgeBase, rule: RuleV, i: nat)
    requires
        self_matching_rule(rule),
    ensures
        spec_first_param_error(kb, rule, rule, i) is None,
    decreases rule.params.len() - i,
{
    if i < rule.params.len() {
        lemma_param_matches_self(kb, (i + 1) as nat, rule.params[i as int], rule);
        lemma_self_scan_no_error(kb, rule, (i + 1) as nat);
    }
}

/// No parameter check of a self-matching rule against itself fails,
/// from index `i` on.
proof fn lemma_self_scan_no_failure(kb: &KnowledgeBase, rule: RuleV, i: nat)
    requires
        self_matching_rule(rule),
    ensures
        spec_first_param_failure(kb, rule, rule, i) is None,
    decreases rule.params.len() - i,
{
    if i < rule.params.len() {
        lemma_param_matches_self(kb, (i + 1) as nat, rule.params[i as int], rule);
        lemma_self_scan_no_failure(kb, rule, (i + 1) as nat);
    }
}

/// The matcher is reflexive: a self-matching rule conforms to itself
/// used as its own rule type, in every knowledge base.
pub proof fn lemma_rule_matches_itself(kb: &KnowledgeBase, rule: RuleV)
    requires
        self_matching_rule(rule),
    ensures
        spec_rule_params_match(kb, rule, rule) is Matched,
{
    lemma_self_scan_no_error(kb, rule, 0);
    lemma_self_scan_no_failure(kb, rule, 0);
}

// ---------------------------------------------------------------------
// The matcher respects the MRO
// ---------------------------------------------------------------------

/// For field-free instance specializers with distinct, non-union tags,
/// where the type tag is registered as a class with instance ID `cid`,
/// the rule specializer matches exactly when its MRO contains `cid`.
pub proof fn lemma_matcher_respects_mro(
    kb: &KnowledgeBase,
    index: nat,
    rule_tag: Seq<char>,
    type_tag: Seq<char>,
    cid: u64,
)
    requires
        rule_tag != type_tag,
        type_tag != actor_union_name(),
        type_tag != resource_union_name(),
        ({
            &&& kb.spec_constant_view(type_tag) matches Some(tv)
            &&& tv.val matches ValV::ExternalInstance(e) && e.instance_id == cid
        }),
    ensures
        spec_check_pattern_param(
            kb,
            index,
            PatternV::Instance(InstanceLiteralV { tag: rule_tag, fields: Seq::empty() }),
            PatternV::Instance(InstanceLiteralV { tag: type_tag, fields: Seq::empty() }),
        ) is Matched <==> (kb.spec_mro(rule_tag) matches Some(m) && m.contains(cid)),
{
}

// ---------------------------------------------------------------------
// Union membership is closed under the MRO
// ---------------------------------------------------------------------

/// A member scan over registered members never aborts.
proof fn lemma_member_scan_no_error(
    kb: &KnowledgeBase,
    members: Seq<crate::terms::Term>,
    rule_inst: InstanceLiteralV,
    type_fields: Seq<FieldV>,
    index: nat,
    i: nat,
)
    requires
        forall|j: int|
            0 <= j < members.len() ==> ((#[trigger] members[j]@.val) matches ValV::Variable(tag)
                ==> kb.spec_constant_view(tag) is Some),
    ensures
        spec_member_scan(kb, members, rule_inst, type_fields, index, i) is Found,
    decreases members.len() - i,
{
    if i < members.len() {
        lemma_member_scan_no_error(kb, members, rule_inst, type_fields, index, (i + 1) as nat);
    }
}

/// A member scan finds a member whose class the rule instance inherits.
proof fn lemma_member_scan_finds(
    kb: &KnowledgeBase,
    members: Seq<crate::terms::Term>,
    rule_inst: InstanceLiteralV,
    index: nat,
    i: nat,
    w: int,
    cid: u64,
)
    requires
        forall|j: int|
            0 <= j < members.len() ==> ((#[trigger] members[j]@.val) matches ValV::Variable(tag)
                ==> kb.spec_constant_view(tag) is Some),
        i <= w < members.len(),
        members[w]@.val is Variable,
        ({
            &&& kb.spec_constant_view(members[w]@.val->Variable_0) matches Some(tv)
            &&& tv.val matches ValV::ExternalInstance(e) && e.instance_id == cid
        }),
        kb.spec_mro(rule_inst.tag) matches Some(m) && m.contains(cid),
        spec_param_fields_match(Seq::empty(), rule_inst.fields),
    ensures
        spec_member_scan(kb, members, rule_inst, Seq::empty(), index, i) == ScanV::Found(true),
    decreases members.len() - i,
{
    lemma_member_scan_no_error(kb, members, rule_inst, Seq::empty(), index, i);
    if i < w {
        lemma_member_scan_finds(kb, members, rule_inst, index, (i + 1) as nat, w, cid);
    } else {
        lemma_member_scan_no_error(kb, members, rule_inst, Seq::empty(), index, (i + 1) as nat);
    }
}

/// Union membership is closed under the MRO: a field-free rule
/// specializer whose MRO contains the instance ID of some member of the
/// `Resource` union matches the `Resource` union type specializer,
/// provided every union member names a registered class.
pub proof fn lemma_union_membership_closed(
    kb: &KnowledgeBase,
    index: nat,
    rule_tag: Seq<char>,
    w: int,
    cid: u64,
)
    requires
        rule_tag != actor_union_name(),
        rule_tag != resource_union_name(),
        forall|j: int|
            0 <= j < kb.resource_blocks.resources@.len() ==> ((
            #[trigger] kb.resource_blocks.resources@[j]@.val) matches ValV::Variable(tag)
                ==> kb.spec_constant_view(tag) is Some),
        0 <= w < kb.resource_blocks.resources@.len(),
        kb.resource_blocks.resources@[w]@.val is Variable,
        ({
            &&& kb.spec_constant_view(
                kb.resource_blocks.resources@[w]@.val->Variable_0,
            ) matches Some(tv)
            &&& tv.val matches ValV::ExternalInstance(e) && e.instance_id == cid
        }),
        kb.spec_mro(rule_tag) matches Some(m) && m.contains(cid),
    ensures
        spec_check_pattern_param(
            kb,
            index,
            PatternV::Instance(InstanceLiteralV { tag: rule_tag, fields: Seq::empty() }),
            PatternV::Instance(
                InstanceLiteralV { tag: resource_union_name(), fields: Seq::empty() },
            ),
        ) is Matched,
{
    reveal_strlit("Actor");
    reveal_strlit("Resource");
    assert(actor_union_name() != resource_union_name());
    let ri = InstanceLiteralV { tag: rule_tag, fields: Seq::empty() };
    assert(spec_param_fields_match(Seq::<FieldV>::empty(), ri.fields));
    if !spec_member_contains(kb.resource_blocks.resources@, rule_tag) {
        lemma_member_scan_finds(kb, kb.resource_blocks.resources@, ri, index, 0, w, cid);
    }
}

// ---------------------------------------------------------------------
// Specializer fields compare as rule superset of rule type
// ---------------------------------------------------------------------

/// For instance specializers with the same tag, the rule matches the
/// rule type exactly when every type field is present in the rule
/// fields with an equal value: a rule with more fields matches, a rule
/// missing a type field does not.
pub proof fn lemma_fields_compare_as_superset(
    kb: &KnowledgeBase,
    index: nat,
    tag: Seq<char>,
    type_fields: Seq<FieldV>,
    rule_fields: Seq<FieldV>,
)
    ensures
        spec_check_pattern_param(
            kb,
            index,
            PatternV::Instance(InstanceLiteralV { tag, fields: rule_fields }),
            PatternV::Instance(InstanceLiteralV { tag, fields: type_fields }),
        ) is Matched <==> spec_param_fields_match(type_fields, rule_fields),
{
}

// ---------------------------------------------------------------------
// Rest variables are rejected in rule-type lists
// ---------------------------------------------------------------------

/// A rule-type list containing a rest variable makes the whole rule
/// type invalid whenever it is compared against a rule-side list.
pub proof fn lemma_rest_var_rejected(
    index: nat,
    rule_list: Seq<TermV>,
    type_list: Seq<TermV>,
    rule_type: RuleV,
)
    requires
        spec_has_rest_var(type_list),
    ensures
        spec_check_value_param(index, ValV::List(rule_list), ValV::List(type_list), rule_type)
            == CheckV::Invalid(
            ValidationErrorV::InvalidRuleType {
                rule_type,
                msg: "Rule types cannot contain *rest variables."@,
            },
        ),
{
}

} // verus!
