//! Resource-block bookkeeping.
//!
//! A resource block declares an actor or resource class together with
//! its roles, permissions and relations, and may carry shorthand rules
//! (`"role" if "other";`). The knowledge base keeps the declarations
//! here; the elaborator turns shorthand rules into concrete `has_role` /
//! `has_permission` / `has_relation` rules and synthesizes the rule
//! types those declarations oblige.
//!
//! The two built-in union tags are `Actor` and `Resource`; their members
//! are the declared actor and resource classes.

use vstd::prelude::*;

use crate::alist::{skey_find, skey_get};
use crate::rules::{Parameter, ParameterV, Rule, RuleV, view_params};
use crate::terms::{
    Call, Dictionary, InstanceLiteral, InstanceLiteralV, Operator, Pattern, PatternV, Symbol,
    Term, TermV, ValV, Value, term_clone, term_eq, teq, view_term,
};

verus! {

/// What a name declared inside a resource block stands for: a role, a
/// permission, or a relation to another declared class.
#[derive(Debug)]
pub enum Declaration {
    Role,
    Permission,
    Relation(Term),
}

/// View of a declaration.
pub enum DeclarationV {
    Role,
    Permission,
    Relation(TermV),
}

impl View for Declaration {
    type V = DeclarationV;

    open spec fn view(&self) -> DeclarationV {
        match self {
            Declaration::Role => DeclarationV::Role,
            Declaration::Permission => DeclarationV::Permission,
            Declaration::Relation(t) => DeclarationV::Relation(view_term(*t)),
        }
    }
}

impl Clone for Declaration {
    fn clone(&self) -> (r: Declaration)
        ensures
            r@ == self@,
    {
        match self {
            Declaration::Role => Declaration::Role,
            Declaration::Permission => Declaration::Permission,
            Declaration::Relation(t) => Declaration::Relation(term_clone(t)),
        }
    }
}

/// A shorthand rule inside a resource block: the head names the role or
/// permission implied, the body names the implying role, permission or
/// relation, optionally traversed across a declared relation
/// (`"head" if "implier" on "relation";`).
#[derive(Debug)]
pub struct ShorthandRule {
    pub head: Term,
    pub body: (Term, Option<(Term, Term)>),
}

/// View of a shorthand rule.
pub struct ShorthandRuleV {
    pub head: TermV,
    pub implier: TermV,
    pub relation: Option<(TermV, TermV)>,
}

impl View for ShorthandRule {
    type V = ShorthandRuleV;

    open spec fn view(&self) -> ShorthandRuleV {
        ShorthandRuleV {
            head: view_term(self.head),
            implier: view_term(self.body.0),
            relation: match self.body.1 {
                Some(kr) => Some((view_term(kr.0), view_term(kr.1))),
                None => None,
            },
        }
    }
}

/// The declarations of all resource blocks: per block, the declared
/// names (string terms) and what each stands for; plus the declared
/// actor and resource classes and the shorthand rules per block.
#[derive(Debug)]
pub struct ResourceBlocks {
    pub actors: Vec<Term>,
    pub resources: Vec<Term>,
    pub declarations: Vec<(Symbol, Vec<(Term, Declaration)>)>,
    pub shorthand_rules: Vec<(Symbol, Vec<ShorthandRule>)>,
}

/// First declaration whose name term equals `probe` (spans ignored).
pub open spec fn spec_decl_find(ds: Seq<(Term, Declaration)>, probe: TermV) -> Option<Declaration>
    decreases ds.len(),
{
    if ds.len() == 0 {
        None
    } else if teq(ds[0].0@, probe) {
        Some(ds[0].1)
    } else {
        spec_decl_find(ds.drop_first(), probe)
    }
}

pub proof fn lemma_spec_decl_find_at(ds: Seq<(Term, Declaration)>, probe: TermV, i: int)
    requires
        0 <= i < ds.len(),
        forall|j: int| 0 <= j < i ==> !teq(ds[j].0@, probe),
        teq(ds[i].0@, probe),
    ensures
        spec_decl_find(ds, probe) == Some(ds[i].1),
    decreases i,
{
    if i > 0 {
        lemma_spec_decl_find_at(ds.drop_first(), probe, i - 1);
    }
}

pub proof fn lemma_spec_decl_find_none(ds: Seq<(Term, Declaration)>, probe: TermV)
    requires
        forall|j: int| 0 <= j < ds.len() ==> !teq(ds[j].0@, probe),
    ensures
        spec_decl_find(ds, probe) is None,
    decreases ds.len(),
{
    if ds.len() > 0 {
        lemma_spec_decl_find_none(ds.drop_first(), probe);
    }
}

/// The declaration stored for `probe` on block `resource`, if any.
pub open spec fn spec_declaration(
    blocks: &ResourceBlocks,
    resource: Seq<char>,
    probe: TermV,
) -> Option<Declaration> {
    match skey_find(blocks.declarations@, resource) {
        Some(ds) => spec_decl_find(ds@, probe),
        None => None,
    }
}

/// The related class a relation declared on block `resource` points to.
pub open spec fn spec_relation_type(
    blocks: &ResourceBlocks,
    resource: Seq<char>,
    probe: TermV,
) -> Option<Term> {
    match spec_declaration(blocks, resource, probe) {
        Some(Declaration::Relation(t)) => Some(t),
        _ => None,
    }
}

/// Whether any block declares a role.
pub open spec fn spec_has_roles(blocks: &ResourceBlocks) -> bool {
    exists|i: int, j: int|
        0 <= i < blocks.declarations@.len() && 0 <= j < blocks.declarations@[i].1@.len()
            && (#[trigger] blocks.declarations@[i].1@[j].1) is Role
}

/// Whether `members` (a union's member terms) contains the class `tag`.
pub open spec fn spec_member_contains(members: Seq<Term>, tag: Seq<char>) -> bool {
    exists|i: int|
        0 <= i < members.len() && (#[trigger] members[i]@.val matches ValV::Variable(n) && n
            == tag)
}

/// Whether `ts` holds a term equal (spans ignored) to `probe`.
pub open spec fn spec_contains_term(ts: Seq<Term>, probe: TermV) -> bool {
    exists|i: int| 0 <= i < ts.len() && #[trigger] teq(ts[i]@, probe)
}

impl ResourceBlocks {
    /// Empty bookkeeping: no blocks declared.
    pub fn new() -> (b: ResourceBlocks)
        ensures
            b.actors@.len() == 0,
            b.resources@.len() == 0,
            b.declarations@.len() == 0,
            b.shorthand_rules@.len() == 0,
    {
        ResourceBlocks {
            actors: Vec::new(),
            resources: Vec::new(),
            declarations: Vec::new(),
            shorthand_rules: Vec::new(),
        }
    }

    /// Forget every block.
    pub fn clear(&mut self)
        ensures
            final(self).actors@.len() == 0,
            final(self).resources@.len() == 0,
            final(self).declarations@.len() == 0,
            final(self).shorthand_rules@.len() == 0,
    {
        self.actors = Vec::new();
        self.resources = Vec::new();
        self.declarations = Vec::new();
        self.shorthand_rules = Vec::new();
    }

    /// Record an actor class (a symbol term); already-recorded members
    /// are kept once.
    pub fn add_actor(&mut self, class: Term)
        ensures
            final(self).resources == old(self).resources,
            final(self).declarations == old(self).declarations,
            final(self).shorthand_rules == old(self).shorthand_rules,
            final(self).actors@ == if spec_contains_term(old(self).actors@, class@) {
                old(self).actors@
            } else {
                old(self).actors@.push(class)
            },
    {
        if contains_term(&self.actors, &class) {
            return ;
        }
        self.actors.push(class);
    }

    /// Record a resource class (a symbol term); already-recorded members
    /// are kept once.
    pub fn add_resource(&mut self, class: Term)
        ensures
            final(self).actors == old(self).actors,
            final(self).declarations == old(self).declarations,
            final(self).shorthand_rules == old(self).shorthand_rules,
            final(self).resources@ == if spec_contains_term(old(self).resources@, class@) {
                old(self).resources@
            } else {
                old(self).resources@.push(class)
            },
    {
        if contains_term(&self.resources, &class) {
            return ;
        }
        self.resources.push(class);
    }
}

/// Whether the member list holds the class named `tag`.
pub fn member_contains(members: &Vec<Term>, tag: &Symbol) -> (r: bool)
    ensures
        r == spec_member_contains(members@, tag@),
{
    let n = members.len();
    let mut i: usize = 0;
    #[verifier::loop_isolation(false)]
    while i < n
        invariant
            n == members.len(),
            i <= n,
            forall|j: int|
                0 <= j < i ==> !(#[trigger] members@[j]@.val matches ValV::Variable(nm) && nm
                    == tag@),
        decreases n - i,
    {
        match &members[i].value {
            Value::Variable(s) => {
                if s.eq_name(tag) {
                    proof {
                        crate::terms::lemma_view_variant(members@[i as int].value);
                    }
                    assert(members@[i as int]@.val matches ValV::Variable(nm) && nm == tag@);
                    return true;
                }
            },
            _ => {},
        }
        proof {
            crate::terms::lemma_view_variant(members@[i as int].value);
        }
        i = i + 1;
    }
    false
}

/// Whether the list already holds a term equal to `probe`, spans aside.
pub fn contains_term(ts: &Vec<Term>, probe: &Term) -> (r: bool)
    ensures
        r == spec_contains_term(ts@, probe@),
{
    let n = ts.len();
    let mut i: usize = 0;
    #[verifier::loop_isolation(false)]
    while i < n
        invariant
            n == ts.len(),
            i <= n,
            forall|j: int| 0 <= j < i ==> !teq(ts@[j]@, probe@),
        decreases n - i,
    {
        if term_eq(&ts[i], probe) {
            return true;
        }
        i = i + 1;
    }
    false
}

// ---------------------------------------------------------------------
// Declaring blocks
// ---------------------------------------------------------------------

/// Replace the value of the first declaration whose name term equals
/// `name`, or append a new declaration.
pub open spec fn spec_decl_insert(
    ds: Seq<(Term, Declaration)>,
    name: Term,
    declaration: Declaration,
) -> Seq<(Term, Declaration)>
    decreases ds.len(),
{
    if ds.len() == 0 {
        seq![(name, declaration)]
    } else if teq(ds[0].0@, name@) {
        ds.update(0, (name, declaration))
    } else {
        seq![ds[0]] + spec_decl_insert(ds.drop_first(), name, declaration)
    }
}

impl ResourceBlocks {
    /// Declare `name` on block `resource` as a role, permission or
    /// relation, replacing an earlier declaration of the same name.
    pub fn declare(&mut self, resource: Symbol, name: Term, declaration: Declaration)
        ensures
            final(self).actors == old(self).actors,
            final(self).resources == old(self).resources,
            final(self).shorthand_rules == old(self).shorthand_rules,
            spec_decls_of(final(self), resource@) == spec_decl_insert(
                spec_decls_of(old(self), resource@),
                name,
                declaration,
            ),
            forall|r2: Seq<char>|
                r2 != resource@ ==> spec_decls_of(final(self), r2) == spec_decls_of(
                    old(self),
                    r2,
                ),
    {
        let ghost old_decls = self.declarations@;
        let ghost name_v = name@;
        let ghost resource_v = resource@;
        let n = self.declarations.len();
        let mut i: usize = 0;
        #[verifier::loop_isolation(false)]
        while i < n
            invariant
                n == self.declarations.len(),
                i <= n,
                self.declarations@ == old_decls,
                self.actors == old(self).actors,
                self.resources == old(self).resources,
                self.shorthand_rules == old(self).shorthand_rules,
                forall|j: int| 0 <= j < i ==> self.declarations@[j].0@ != resource_v,
            decreases n - i,
        {
            if self.declarations[i].0.eq_name(&resource) {
                let mut entry = self.declarations.remove(i);
                let ghost old_list = entry.1@;
                Self::decl_list_insert(&mut entry.1, name, declaration);
                let ghost new_list = entry.1@;
                self.declarations.insert(i, entry);
                proof {
                    assert(self.declarations@ =~= old_decls.update(
                        i as int,
                        self.declarations@[i as int],
                    ));
                    crate::alist::lemma_skey_find_at(old_decls, resource_v, i as int);
                    assert forall|r2: Seq<char>| true implies #[trigger] skey_find(
                        self.declarations@,
                        r2,
                    ) == if r2 == resource_v {
                        Some(self.declarations@[i as int].1)
                    } else {
                        skey_find(old_decls, r2)
                    } by {
                        crate::alist::lemma_skey_find_update(
                            old_decls,
                            i as int,
                            self.declarations@[i as int],
                            r2,
                        );
                    }
                }
                return ;
            }
            i = i + 1;
        }
        let mut list: Vec<(Term, Declaration)> = Vec::new();
        list.push((name, declaration));
        self.declarations.push((resource, list));
        proof {
            crate::alist::lemma_skey_find_none(old_decls, resource_v);
            assert forall|r2: Seq<char>| true implies #[trigger] skey_find(
                self.declarations@,
                r2,
            ) == if r2 == resource_v {
                Some(self.declarations@.last().1)
            } else {
                skey_find(old_decls, r2)
            } by {
                crate::alist::lemma_skey_find_push(old_decls, self.declarations@.last(), r2);
            }
            assert(spec_decls_of(self, resource_v) =~= spec_decl_insert(
                Seq::<(Term, Declaration)>::empty(),
                name,
                declaration,
            ));
        }
    }

    /// Insert into one block's declaration list, replacing the first
    /// declaration whose name term is equal.
    fn decl_list_insert(ds: &mut Vec<(Term, Declaration)>, name: Term, declaration: Declaration)
        ensures
            final(ds)@ == spec_decl_insert(old(ds)@, name, declaration),
    {
        let n = ds.len();
        let mut i: usize = 0;
        #[verifier::loop_isolation(false)]
        while i < n
            invariant
                n == ds.len(),
                i <= n,
                ds@ == old(ds)@,
                forall|j: int| 0 <= j < i ==> !teq(ds@[j].0@, name@),
            decreases n - i,
        {
            if term_eq(&ds[i].0, &name) {
                proof {
                    lemma_decl_insert_at(ds@, name, declaration, i as int);
                }
                ds.set(i, (name, declaration));
                proof {
                    assert(ds@ =~= spec_decl_insert(old(ds)@, name, declaration));
                }
                return ;
            }
            i = i + 1;
        }
        proof {
            lemma_decl_insert_absent(ds@, name, declaration);
        }
        ds.push((name, declaration));
        proof {
            assert(ds@ =~= spec_decl_insert(old(ds)@, name, declaration));
        }
    }

    /// Record a shorthand rule on block `resource`, after its roles,
    /// permissions and relations have been declared.
    pub fn add_shorthand_rule(&mut self, resource: Symbol, rule: ShorthandRule)
        ensures
            final(self).actors == old(self).actors,
            final(self).resources == old(self).resources,
            final(self).declarations == old(self).declarations,
            spec_shorthands_of(final(self), resource@) == spec_shorthands_of(
                old(self),
                resource@,
            ).push(rule),
            forall|r2: Seq<char>|
                r2 != resource@ ==> spec_shorthands_of(final(self), r2) == spec_shorthands_of(
                    old(self),
                    r2,
                ),
    {
        let ghost old_srs = self.shorthand_rules@;
        let ghost resource_v = resource@;
        let n = self.shorthand_rules.len();
        let mut i: usize = 0;
        #[verifier::loop_isolation(false)]
        while i < n
            invariant
                n == self.shorthand_rules.len(),
                i <= n,
                self.shorthand_rules@ == old_srs,
                self.actors == old(self).actors,
                self.resources == old(self).resources,
                self.declarations == old(self).declarations,
                forall|j: int| 0 <= j < i ==> self.shorthand_rules@[j].0@ != resource_v,
            decreases n - i,
        {
            if self.shorthand_rules[i].0.eq_name(&resource) {
                let mut entry = self.shorthand_rules.remove(i);
                let ghost old_list = entry.1@;
                entry.1.push(rule);
                let ghost new_list = entry.1@;
                self.shorthand_rules.insert(i, entry);
                proof {
                    assert(self.shorthand_rules@ =~= old_srs.update(
                        i as int,
                        self.shorthand_rules@[i as int],
                    ));
                    assert forall|r2: Seq<char>| true implies #[trigger] spec_shorthands_of(
                        self,
                        r2,
                    ) == if r2 == resource_v {
                        spec_shorthands_of(old(self), r2).push(rule)
                    } else {
                        spec_shorthands_of(old(self), r2)
                    } by {
                        crate::alist::lemma_skey_find_at(old_srs, resource_v, i as int);
                        crate::alist::lemma_skey_find_update(
                            old_srs,
                            i as int,
                            self.shorthand_rules@[i as int],
                            r2,
                        );
                    }
                }
                return ;
            }
            i = i + 1;
        }
        let mut list: Vec<ShorthandRule> = Vec::new();
        list.push(rule);
        self.shorthand_rules.push((resource, list));
        proof {
            assert forall|r2: Seq<char>| true implies #[trigger] spec_shorthands_of(self, r2)
                == if r2 == resource_v {
                spec_shorthands_of(old(self), r2).push(rule)
            } else {
                spec_shorthands_of(old(self), r2)
            } by {
                crate::alist::lemma_skey_find_none(old_srs, resource_v);
                crate::alist::lemma_skey_find_push(old_srs, self.shorthand_rules@.last(), r2);
                if r2 == resource_v {
                    assert(spec_shorthands_of(self, r2) =~= Seq::<ShorthandRule>::empty().push(
                        rule,
                    ));
                }
            }
        }
    }

    /// The related class a relation declared on block `resource` points
    /// to, if `relation` is declared there as a relation.
    pub fn get_relation_type_in_resource_block<'a>(
        &'a self,
        relation: &Term,
        resource: &Symbol,
    ) -> (r: Option<&'a Term>)
        ensures
            match r {
                Some(t) => spec_relation_type(self, resource@, relation@) == Some(*t),
                None => spec_relation_type(self, resource@, relation@) is None,
            },
    {
        match skey_get(&self.declarations, resource) {
            Some(ds) => {
                let n = ds.len();
                let mut i: usize = 0;
                #[verifier::loop_isolation(false)]
                while i < n
                    invariant
                        n == ds.len(),
                        i <= n,
                        forall|j: int| 0 <= j < i ==> !teq(ds@[j].0@, relation@),
                    decreases n - i,
                {
                    if term_eq(&ds[i].0, relation) {
                        proof {
                            lemma_spec_decl_find_at(ds@, relation@, i as int);
                        }
                        match &ds[i].1 {
                            Declaration::Relation(t) => {
                                return Some(t);
                            },
                            _ => {
                                return None;
                            },
                        }
                    }
                    i = i + 1;
                }
                proof {
                    lemma_spec_decl_find_none(ds@, relation@);
                }
                None
            },
            None => None,
        }
    }

    /// Whether any block declares a role.
    pub fn has_roles(&self) -> (r: bool)
        ensures
            r == spec_has_roles(self),
    {
        let n = self.declarations.len();
        let mut i: usize = 0;
        #[verifier::loop_isolation(false)]
        while i < n
            invariant
                n == self.declarations.len(),
                i <= n,
                forall|a: int, b: int|
                    0 <= a < i && 0 <= b < self.declarations@[a].1@.len() ==> !((
                    #[trigger] self.declarations@[a].1@[b].1) is Role),
            decreases n - i,
        {
            let ds = &self.declarations[i].1;
            let m = ds.len();
            let mut j: usize = 0;
            #[verifier::loop_isolation(false)]
            while j < m
                invariant
                    i < n == self.declarations.len(),
                    m == ds.len(),
                    j <= m,
                    ds == &self.declarations[i as int].1,
                    forall|b: int|
                        0 <= b < j ==> !((#[trigger] self.declarations@[i as int].1@[b].1)
                            is Role),
                decreases m - j,
            {
                if matches!(&ds[j].1, Declaration::Role) {
                    assert(self.declarations@[i as int].1@[j as int].1 is Role);
                    return true;
                }
                j = j + 1;
            }
            i = i + 1;
        }
        false
    }
}

/// The declarations recorded for block `resource`, in order; empty when
/// the block has none.
pub open spec fn spec_decls_of(blocks: &ResourceBlocks, resource: Seq<char>) -> Seq<
    (Term, Declaration),
> {
    match skey_find(blocks.declarations@, resource) {
        Some(ds) => ds@,
        None => Seq::empty(),
    }
}

/// The shorthand rules recorded for block `resource`, in order.
pub open spec fn spec_shorthands_of(blocks: &ResourceBlocks, resource: Seq<char>) -> Seq<
    ShorthandRule,
> {
    match skey_find(blocks.shorthand_rules@, resource) {
        Some(srs) => srs@,
        None => Seq::empty(),
    }
}

pub proof fn lemma_decl_insert_at(
    ds: Seq<(Term, Declaration)>,
    name: Term,
    declaration: Declaration,
    i: int,
)
    requires
        0 <= i < ds.len(),
        forall|j: int| 0 <= j < i ==> !teq(ds[j].0@, name@),
        teq(ds[i].0@, name@),
    ensures
        spec_decl_insert(ds, name, declaration) =~= ds.update(i, (name, declaration)),
    decreases i,
{
    if i > 0 {
        lemma_decl_insert_at(ds.drop_first(), name, declaration, i - 1);
        assert(spec_decl_insert(ds, name, declaration) =~= seq![ds[0]]
            + ds.drop_first().update(i - 1, (name, declaration)));
    }
}

pub proof fn lemma_decl_insert_absent(
    ds: Seq<(Term, Declaration)>,
    name: Term,
    declaration: Declaration,
)
    requires
        forall|j: int| 0 <= j < ds.len() ==> !teq(ds[j].0@, name@),
    ensures
        spec_decl_insert(ds, name, declaration) =~= ds.push((name, declaration)),
    decreases ds.len(),
{
    if ds.len() > 0 {
        lemma_decl_insert_absent(ds.drop_first(), name, declaration);
    }
}

// ---------------------------------------------------------------------
// Compiling shorthand rules
// ---------------------------------------------------------------------

/// A variable term without a span.
pub open spec fn spec_var_term(name: Seq<char>) -> TermV {
    TermV { span: None, val: ValV::Variable(name) }
}

/// A field-free instance-pattern term without a span.
pub open spec fn spec_instance_term(tag: Seq<char>) -> TermV {
    TermV {
        span: None,
        val: ValV::Pattern(
            PatternV::Instance(InstanceLiteralV { tag, fields: Seq::empty() }),
        ),
    }
}

/// A call term without a span.
pub open spec fn spec_call_term(name: Seq<char>, args: Seq<TermV>) -> TermV {
    TermV { span: None, val: ValV::Call(name, args) }
}

/// The rule name a declaration kind compiles to.
pub open spec fn spec_kind_name(d: Declaration) -> Seq<char> {
    match d {
        Declaration::Role => "has_role"@,
        Declaration::Permission => "has_permission"@,
        Declaration::Relation(_) => "has_relation"@,
    }
}

/// A shorthand rule the compiler can work with: its head is a string
/// declared as a role or permission on its block, and its body names a
/// declaration it can resolve (on the related block when the rule
/// traverses a relation).
pub open spec fn spec_shorthand_wf(
    blocks: &ResourceBlocks,
    resource: Seq<char>,
    sr: ShorthandRule,
) -> bool {
    &&& sr.head@.val is String
    &&& match spec_declaration(blocks, resource, sr.head@) {
        Some(Declaration::Role) => true,
        Some(Declaration::Permission) => true,
        _ => false,
    }
    &&& sr.body.0@.val is String
    &&& match sr.body.1 {
        None => spec_declaration(blocks, resource, sr.body.0@) is Some,
        Some(kr) => {
            &&& kr.1@.val is String
            &&& match spec_relation_type(blocks, resource, kr.1@) {
                Some(subject) => subject@.val is Variable && spec_declaration(
                    blocks,
                    subject@.val->Variable_0,
                    sr.body.0@,
                ) is Some,
                None => false,
            }
        },
    }
}

/// The rule a shorthand rule compiles to.
///
/// A role or permission head becomes a `has_role` or `has_permission`
/// rule over an actor, the head string and the block's class. The body
/// resolves the implier on the block itself, or, across an `on`
/// relation, on the related class, with a `has_relation` conjunct
/// binding the related object.
pub open spec fn spec_as_rule(
    blocks: &ResourceBlocks,
    resource: Seq<char>,
    sr: ShorthandRule,
) -> RuleV {
    let head_kind = spec_declaration(blocks, resource, sr.head@)->0;
    let name = if head_kind is Role {
        "has_role"@
    } else {
        "has_permission"@
    };
    let params = seq![
        ParameterV {
            parameter: spec_var_term("actor"@),
            specializer: Some(spec_instance_term("Actor"@)),
        },
        ParameterV { parameter: sr.head@, specializer: None },
        ParameterV {
            parameter: spec_var_term("resource"@),
            specializer: Some(spec_instance_term(resource)),
        },
    ];
    let body_args = match sr.body.1 {
        None => {
            let kind = spec_declaration(blocks, resource, sr.body.0@)->0;
            seq![
                spec_call_term(
                    spec_kind_name(kind),
                    seq![spec_var_term("actor"@), sr.body.0@, spec_var_term("resource"@)],
                ),
            ]
        },
        Some(kr) => {
            let subject = spec_relation_type(blocks, resource, kr.1@)->0;
            let subject_tag = subject@.val->Variable_0;
            let kind = spec_declaration(blocks, subject_tag, sr.body.0@)->0;
            seq![
                spec_call_term(
                    spec_kind_name(kind),
                    seq![spec_var_term("actor"@), sr.body.0@, spec_var_term("related"@)],
                ),
                spec_call_term(
                    "has_relation"@,
                    seq![spec_var_term("related"@), kr.1@, spec_var_term("resource"@)],
                ),
            ]
        },
    };
    RuleV {
        name,
        params,
        body: TermV { span: None, val: ValV::Expression(Operator::And, body_args) },
        span: sr.head.span,
        required: false,
    }
}

/// Every declaration name is a string term, every relation points to a
/// class symbol, and every shorthand rule can be compiled.
pub open spec fn spec_blocks_wf(blocks: &ResourceBlocks) -> bool {
    &&& forall|i: int, j: int|
        #![trigger blocks.declarations@[i].1@[j]]
        0 <= i < blocks.declarations@.len() && 0 <= j < blocks.declarations@[i].1@.len() ==> {
            &&& blocks.declarations@[i].1@[j].0@.val is String
            &&& (blocks.declarations@[i].1@[j].1 matches Declaration::Relation(t) ==> view_term(
                t,
            ).val is Variable)
        }
    &&& forall|i: int, j: int|
        #![trigger blocks.shorthand_rules@[i].1@[j]]
        0 <= i < blocks.shorthand_rules@.len() && 0 <= j < blocks.shorthand_rules@[i].1@.len()
            ==> spec_shorthand_wf(
            blocks,
            blocks.shorthand_rules@[i].0@,
            blocks.shorthand_rules@[i].1@[j],
        )
}

/// A found declaration is one of the stored declarations.
pub proof fn lemma_decl_find_member(ds: Seq<(Term, Declaration)>, probe: TermV)
    ensures
        spec_decl_find(ds, probe) matches Some(d) ==> exists|j: int|
            0 <= j < ds.len() && #[trigger] ds[j].1 == d,
    decreases ds.len(),
{
    if ds.len() > 0 {
        if teq(ds[0].0@, probe) {
            assert(ds[0].1 == spec_decl_find(ds, probe)->0);
        } else {
            lemma_decl_find_member(ds.drop_first(), probe);
            if spec_decl_find(ds, probe) is Some {
                let j = choose|j: int|
                    0 <= j < ds.drop_first().len() && #[trigger] ds.drop_first()[j].1
                        == spec_decl_find(ds, probe)->0;
                assert(ds[j + 1].1 == spec_decl_find(ds, probe)->0);
            }
        }
    }
}

/// In well-formed blocks, every resolved relation points to a class
/// symbol.
pub proof fn lemma_relation_type_wf(blocks: &ResourceBlocks, resource: Seq<char>, probe: TermV)
    requires
        spec_blocks_wf(blocks),
    ensures
        spec_relation_type(blocks, resource, probe) matches Some(t) ==> view_term(t).val
            is Variable,
{
    if spec_relation_type(blocks, resource, probe) is Some {
        let ds = skey_find(blocks.declarations@, resource)->0;
        crate::alist::lemma_skey_find_member(blocks.declarations@, resource);
        let i = choose|i: int|
            0 <= i < blocks.declarations@.len() && #[trigger] blocks.declarations@[i].1 == ds;
        lemma_decl_find_member(ds@, probe);
        let d = spec_decl_find(ds@, probe)->0;
        let j = choose|j: int| 0 <= j < ds@.len() && #[trigger] ds@[j].1 == d;
        assert(blocks.declarations@[i].1@[j] == ds@[j]);
    }
}

impl ResourceBlocks {
    /// The declaration stored for `name` on block `resource`, if any.
    pub fn get_declaration<'a>(&'a self, name: &Term, resource: &Symbol) -> (r: Option<
        &'a Declaration,
    >)
        ensures
            match r {
                Some(d) => spec_declaration(self, resource@, name@) == Some(*d),
                None => spec_declaration(self, resource@, name@) is None,
            },
    {
        match skey_get(&self.declarations, resource) {
            Some(ds) => {
                let n = ds.len();
                let mut i: usize = 0;
                #[verifier::loop_isolation(false)]
                while i < n
                    invariant
                        n == ds.len(),
                        i <= n,
                        forall|j: int| 0 <= j < i ==> !teq(ds@[j].0@, name@),
                    decreases n - i,
                {
                    if term_eq(&ds[i].0, name) {
                        proof {
                            lemma_spec_decl_find_at(ds@, name@, i as int);
                        }
                        return Some(&ds[i].1);
                    }
                    i = i + 1;
                }
                proof {
                    lemma_spec_decl_find_none(ds@, name@);
                }
                None
            },
            None => None,
        }
    }
}

impl ShorthandRule {
    /// Compile this shorthand rule, declared on block `resource`, to a
    /// concrete rule.
    pub fn as_rule(&self, resource: &Symbol, blocks: &ResourceBlocks) -> (r: Rule)
        requires
            spec_shorthand_wf(blocks, resource@, *self),
        ensures
            r@ == spec_as_rule(blocks, resource@, *self),
    {
        let head_kind = match blocks.get_declaration(&self.head, resource) {
            Some(d) => d,
            None => vstd::pervasive::unreached(),
        };
        let name = match head_kind {
            Declaration::Role => Symbol::new("has_role"),
            Declaration::Permission => Symbol::new("has_permission"),
            Declaration::Relation(_) => vstd::pervasive::unreached(),
        };
        let mut params: Vec<Parameter> = Vec::new();
        params.push(
            Parameter::new(var_term("actor"), Some(instance_term(Symbol::new("Actor")))),
        );
        params.push(Parameter::new(term_clone(&self.head), None));
        params.push(
            Parameter::new(var_term("resource"), Some(instance_term(resource.clone()))),
        );
        let body_args: Vec<Term> = match &self.body.1 {
            None => {
                let kind = match blocks.get_declaration(&self.body.0, resource) {
                    Some(d) => d,
                    None => vstd::pervasive::unreached(),
                };
                let mut args: Vec<Term> = Vec::new();
                args.push(var_term("actor"));
                args.push(term_clone(&self.body.0));
                args.push(var_term("resource"));
                proof {
                    crate::terms::lemma_view_terms(args@);
                    assert(crate::terms::view_terms(args@) =~= seq![
                        spec_var_term("actor"@),
                        view_term(self.body.0),
                        spec_var_term("resource"@),
                    ]);
                }
                let mut calls: Vec<Term> = Vec::new();
                calls.push(call_term(kind_name(kind), args));
                calls
            },
            Some(kr) => {
                let subject = match blocks.get_relation_type_in_resource_block(&kr.1, resource) {
                    Some(t) => t,
                    None => vstd::pervasive::unreached(),
                };
                let subject_tag = match &subject.value {
                    Value::Variable(s) => s,
                    _ => vstd::pervasive::unreached(),
                };
                let kind = match blocks.get_declaration(&self.body.0, subject_tag) {
                    Some(d) => d,
                    None => vstd::pervasive::unreached(),
                };
                let mut args1: Vec<Term> = Vec::new();
                args1.push(var_term("actor"));
                args1.push(term_clone(&self.body.0));
                args1.push(var_term("related"));
                let mut args2: Vec<Term> = Vec::new();
                args2.push(var_term("related"));
                args2.push(term_clone(&kr.1));
                args2.push(var_term("resource"));
                proof {
                    crate::terms::lemma_view_terms(args1@);
                    crate::terms::lemma_view_terms(args2@);
                    assert(crate::terms::view_terms(args1@) =~= seq![
                        spec_var_term("actor"@),
                        view_term(self.body.0),
                        spec_var_term("related"@),
                    ]);
                    assert(crate::terms::view_terms(args2@) =~= seq![
                        spec_var_term("related"@),
                        view_term(kr.1),
                        spec_var_term("resource"@),
                    ]);
                }
                let mut calls: Vec<Term> = Vec::new();
                calls.push(call_term(kind_name(kind), args1));
                calls.push(call_term(Symbol::new("has_relation"), args2));
                calls
            },
        };
        let body = Term {
            span: None,
            value: Value::Expression(
                crate::terms::Operation { operator: Operator::And, args: body_args },
            ),
        };
        let out = Rule {
            name,
            params,
            body,
            span: self.head.span,
            required: false,
        };
        proof {
            crate::rules::lemma_view_params(out.params@);
            crate::terms::lemma_view_terms(out.body.value->Expression_0.args@);
            let target = spec_as_rule(blocks, resource@, *self);
            assert(view_params(out.params@) =~= target.params);
            let va = crate::terms::view_terms(out.body.value->Expression_0.args@);
            let ta = target.body.val->Expression_1;
            assert(va =~= ta);
            assert(out@ == target);
        }
        out
    }
}

/// The rule name a declaration kind compiles to.
fn kind_name(d: &Declaration) -> (r: Symbol)
    ensures
        r@ == spec_kind_name(*d),
{
    match d {
        Declaration::Role => Symbol::new("has_role"),
        Declaration::Permission => Symbol::new("has_permission"),
        Declaration::Relation(_) => Symbol::new("has_relation"),
    }
}

/// A fresh variable term.
pub(crate) fn var_term(name: &str) -> (r: Term)
    ensures
        r@ == spec_var_term(name@),
{
    Term::new(Value::Variable(Symbol::new(name)))
}

/// A fresh field-free instance-pattern term.
pub(crate) fn instance_term(tag: Symbol) -> (r: Term)
    ensures
        r@ == spec_instance_term(tag@),
{
    let out = Term::new(
        Value::Pattern(
            Pattern::Instance(InstanceLiteral { tag, fields: Dictionary { fields: Vec::new() } }),
        ),
    );
    assert(out@.val->Pattern_0->Instance_0.fields =~= Seq::<crate::terms::FieldV>::empty());
    out
}

/// A fresh call term.
fn call_term(name: Symbol, args: Vec<Term>) -> (r: Term)
    ensures
        r@ == spec_call_term(name@, crate::terms::view_terms(args@)),
{
    Term::new(Value::Call(Call { name, args }))
}

} // verus!
