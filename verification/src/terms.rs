//! The term language of the policy engine.
//!
//! A [`Term`] is an immutable value node optionally carrying the source
//! span it was parsed from. Terms nest through lists, dictionaries,
//! patterns, expressions and calls. Every type here has a mathematical
//! view (`@`): strings become `Seq<char>`, vectors become `Seq`, and the
//! view keeps the spans. Matching and lookup never depend on spans, so a
//! second, span-insensitive equality [`teq`] is the equality the engine
//! compares terms by.
//!
//! Floating-point numbers are carried as their IEEE-754 bit patterns
//! (`u64`): the engine only ever stores, compares and reports them, and
//! comparing bit patterns is exact.

use vstd::prelude::*;

verus! {

/// Where a parsed term came from: a source ID and a byte range.
#[derive(Clone, Copy, PartialEq, Eq, Structural, Debug)]
pub struct Span {
    pub src_id: u64,
    pub left: u64,
    pub right: u64,
}

/// An interned identifier. Equality is by name.
#[derive(Debug)]
pub struct Symbol(pub String);

impl View for Symbol {
    type V = Seq<char>;

    open spec fn view(&self) -> Seq<char> {
        self.0@
    }
}

impl Symbol {
    pub fn new(name: &str) -> (s: Symbol)
        ensures
            s@ == name@,
    {
        Symbol(name.to_owned())
    }

    /// Equality of symbols: their names are the same characters.
    pub fn eq_name(&self, other: &Symbol) -> (r: bool)
        ensures
            r == (self@ == other@),
    {
        self.0 == other.0
    }
}

/// Equality of string slices: the same characters.
pub fn str_eq(a: &str, b: &str) -> (r: bool)
    ensures
        r == (a@ == b@),
{
    let owned_a = a.to_owned();
    let owned_b = b.to_owned();
    owned_a == owned_b
}

impl Clone for Symbol {
    fn clone(&self) -> (s: Symbol)
        ensures
            s@ == self@,
    {
        Symbol(self.0.clone())
    }
}

/// A numeric literal: an integer, or a float carried as its IEEE-754
/// bit pattern. Two numbers are equal only when they are the same
/// variant with the same bits.
#[derive(Clone, Copy, PartialEq, Eq, Structural, Debug)]
pub enum Numeric {
    Integer(i64),
    Float(u64),
}

/// Operators that may appear in rule bodies and inline queries.
#[derive(Clone, Copy, PartialEq, Eq, Structural, Debug)]
pub enum Operator {
    And,
    Or,
    Not,
}

/// An ordered mapping from field name to term. Built through
/// [`Dictionary::insert`], which replaces the value of an existing key,
/// so dictionaries built through the API have pairwise-distinct keys.
#[derive(Debug)]
pub struct Dictionary {
    pub fields: Vec<(Symbol, Term)>,
}

/// A host-language object handle, identified by a numeric instance ID.
/// `repr` is an optional printable description supplied by the host.
#[derive(Debug)]
pub struct ExternalInstance {
    pub instance_id: u64,
    pub repr: Option<String>,
}

/// An operator applied to argument terms.
#[derive(Debug)]
pub struct Operation {
    pub operator: Operator,
    pub args: Vec<Term>,
}

/// A call of a named rule on argument terms.
#[derive(Debug)]
pub struct Call {
    pub name: Symbol,
    pub args: Vec<Term>,
}

/// A class instance literal: a tag and a dictionary of fields.
#[derive(Debug)]
pub struct InstanceLiteral {
    pub tag: Symbol,
    pub fields: Dictionary,
}

/// A specializer pattern: an instance literal or a bare dictionary.
#[derive(Debug)]
pub enum Pattern {
    Dictionary(Dictionary),
    Instance(InstanceLiteral),
}

/// The value part of a term.
#[derive(Debug)]
pub enum Value {
    Variable(Symbol),
    String(String),
    Number(Numeric),
    Boolean(bool),
    List(Vec<Term>),
    Dictionary(Dictionary),
    Pattern(Pattern),
    ExternalInstance(ExternalInstance),
    Expression(Operation),
    Call(Call),
    RestVariable(Symbol),
}

/// A value node, optionally carrying the span it was parsed from.
#[derive(Debug)]
pub struct Term {
    pub span: Option<Span>,
    pub value: Value,
}

// ---------------------------------------------------------------------
// Mathematical views
// ---------------------------------------------------------------------

/// View of a term: the span and the view of the value.
pub struct TermV {
    pub span: Option<Span>,
    pub val: ValV,
}

/// View of one dictionary field.
pub struct FieldV {
    pub key: Seq<char>,
    pub value: TermV,
}

/// View of an external instance.
pub struct ExternalInstanceV {
    pub instance_id: u64,
    pub repr: Option<Seq<char>>,
}

/// View of an instance literal.
pub struct InstanceLiteralV {
    pub tag: Seq<char>,
    pub fields: Seq<FieldV>,
}

/// View of a pattern.
pub enum PatternV {
    Dictionary(Seq<FieldV>),
    Instance(InstanceLiteralV),
}

/// View of a value.
pub enum ValV {
    Variable(Seq<char>),
    String(Seq<char>),
    Number(Numeric),
    Boolean(bool),
    List(Seq<TermV>),
    Dictionary(Seq<FieldV>),
    Pattern(PatternV),
    ExternalInstance(ExternalInstanceV),
    Expression(Operator, Seq<TermV>),
    Call(Seq<char>, Seq<TermV>),
    RestVariable(Seq<char>),
}

pub open spec fn view_term(t: Term) -> TermV
    decreases t,
{
    TermV { span: t.span, val: view_value(t.value) }
}

pub open spec fn view_terms(ts: Seq<Term>) -> Seq<TermV>
    decreases ts,
{
    if ts.len() == 0 {
        Seq::empty()
    } else {
        view_terms(ts.drop_last()).push(view_term(ts.last()))
    }
}

pub open spec fn view_fields(fs: Seq<(Symbol, Term)>) -> Seq<FieldV>
    decreases fs,
{
    if fs.len() == 0 {
        Seq::empty()
    } else {
        view_fields(fs.drop_last()).push(
            FieldV { key: fs.last().0@, value: view_term(fs.last().1) },
        )
    }
}

/// The view of a term sequence is the sequence of the terms' views.
pub broadcast proof fn lemma_view_terms(ts: Seq<Term>)
    ensures
        (#[trigger] view_terms(ts)).len() == ts.len(),
        forall|i: int| 0 <= i < ts.len() ==> view_terms(ts)[i] == view_term(ts[i]),
    decreases ts.len(),
{
    if ts.len() > 0 {
        lemma_view_terms(ts.drop_last());
    }
}

/// The view of a field sequence is the sequence of the fields' views.
pub broadcast proof fn lemma_view_fields(fs: Seq<(Symbol, Term)>)
    ensures
        (#[trigger] view_fields(fs)).len() == fs.len(),
        forall|i: int|
            0 <= i < fs.len() ==> view_fields(fs)[i] == (FieldV {
                key: fs[i].0@,
                value: view_term(fs[i].1),
            }),
    decreases fs.len(),
{
    if fs.len() > 0 {
        lemma_view_fields(fs.drop_last());
    }
}

pub open spec fn view_pattern(p: Pattern) -> PatternV
    decreases p,
{
    match p {
        Pattern::Dictionary(d) => PatternV::Dictionary(view_fields(d.fields@)),
        Pattern::Instance(lit) => PatternV::Instance(
            InstanceLiteralV { tag: lit.tag@, fields: view_fields(lit.fields.fields@) },
        ),
    }
}

pub open spec fn view_value(v: Value) -> ValV
    decreases v,
{
    match v {
        Value::Variable(s) => ValV::Variable(s@),
        Value::String(s) => ValV::String(s@),
        Value::Number(n) => ValV::Number(n),
        Value::Boolean(b) => ValV::Boolean(b),
        Value::List(ts) => ValV::List(view_terms(ts@)),
        Value::Dictionary(d) => ValV::Dictionary(view_fields(d.fields@)),
        Value::Pattern(p) => ValV::Pattern(view_pattern(p)),
        Value::ExternalInstance(e) => ValV::ExternalInstance(
            ExternalInstanceV {
                instance_id: e.instance_id,
                repr: match e.repr {
                    Some(r) => Some(r@),
                    None => None,
                },
            },
        ),
        Value::Expression(op) => ValV::Expression(op.operator, view_terms(op.args@)),
        Value::Call(c) => ValV::Call(c.name@, view_terms(c.args@)),
        Value::RestVariable(s) => ValV::RestVariable(s@),
    }
}

impl View for Term {
    type V = TermV;

    open spec fn view(&self) -> TermV {
        view_term(*self)
    }
}

impl View for Value {
    type V = ValV;

    open spec fn view(&self) -> ValV {
        view_value(*self)
    }
}

impl View for Pattern {
    type V = PatternV;

    open spec fn view(&self) -> PatternV {
        view_pattern(*self)
    }
}

impl View for Dictionary {
    type V = Seq<FieldV>;

    open spec fn view(&self) -> Seq<FieldV> {
        view_fields(self.fields@)
    }
}

impl View for InstanceLiteral {
    type V = InstanceLiteralV;

    open spec fn view(&self) -> InstanceLiteralV {
        InstanceLiteralV { tag: self.tag@, fields: view_fields(self.fields.fields@) }
    }
}

// ---------------------------------------------------------------------
// Span-insensitive equality: the equality terms are compared by
// ---------------------------------------------------------------------

/// Two terms are equal for matching purposes when their values are equal,
/// characters for characters and element for element, ignoring all spans.
pub open spec fn teq(a: TermV, b: TermV) -> bool
    decreases a,
{
    veq(a.val, b.val)
}

/// Elementwise span-insensitive equality of term sequences.
pub open spec fn teq_seq(a: Seq<TermV>, b: Seq<TermV>) -> bool {
    a.len() == b.len() && (forall|i: int| 0 <= i < a.len() ==> teq(a[i], b[i]))
}

/// Elementwise span-insensitive equality of field sequences.
pub open spec fn feq_seq(a: Seq<FieldV>, b: Seq<FieldV>) -> bool {
    a.len() == b.len() && (forall|i: int|
        0 <= i < a.len() ==> a[i].key == b[i].key && teq(a[i].value, b[i].value))
}

/// Span-insensitive equality of values.
pub open spec fn veq(a: ValV, b: ValV) -> bool
    decreases a,
{
    match (a, b) {
        (ValV::Variable(x), ValV::Variable(y)) => x == y,
        (ValV::String(x), ValV::String(y)) => x == y,
        (ValV::Number(x), ValV::Number(y)) => x == y,
        (ValV::Boolean(x), ValV::Boolean(y)) => x == y,
        (ValV::List(x), ValV::List(y)) => x.len() == y.len() && (forall|i: int|
            0 <= i < x.len() ==> teq(x[i], y[i])),
        (ValV::Dictionary(x), ValV::Dictionary(y)) => x.len() == y.len() && (forall|i: int|
            0 <= i < x.len() ==> x[i].key == y[i].key && teq(x[i].value, y[i].value)),
        (ValV::Pattern(x), ValV::Pattern(y)) => peq(x, y),
        (ValV::ExternalInstance(x), ValV::ExternalInstance(y)) => x == y,
        (ValV::Expression(xop, xargs), ValV::Expression(yop, yargs)) => xop == yop
            && xargs.len() == yargs.len() && (forall|i: int|
            0 <= i < xargs.len() ==> teq(xargs[i], yargs[i])),
        (ValV::Call(xn, xargs), ValV::Call(yn, yargs)) => xn == yn && xargs.len() == yargs.len()
            && (forall|i: int| 0 <= i < xargs.len() ==> teq(xargs[i], yargs[i])),
        (ValV::RestVariable(x), ValV::RestVariable(y)) => x == y,
        _ => false,
    }
}

/// Span-insensitive equality of patterns.
pub open spec fn peq(a: PatternV, b: PatternV) -> bool
    decreases a,
{
    match (a, b) {
        (PatternV::Dictionary(x), PatternV::Dictionary(y)) => x.len() == y.len() && (forall|
            i: int,
        |
            0 <= i < x.len() ==> x[i].key == y[i].key && teq(x[i].value, y[i].value)),
        (PatternV::Instance(x), PatternV::Instance(y)) => x.tag == y.tag && x.fields.len()
            == y.fields.len() && (forall|i: int|
            0 <= i < x.fields.len() ==> x.fields[i].key == y.fields[i].key && teq(
                x.fields[i].value,
                y.fields[i].value,
            )),
        _ => false,
    }
}

/// A value and its view always carry the same variant.
pub proof fn lemma_view_variant(v: Value)
    ensures
        (view_value(v) is Variable <==> v is Variable),
        (view_value(v) is String <==> v is String),
        (view_value(v) is Number <==> v is Number),
        (view_value(v) is Boolean <==> v is Boolean),
        (view_value(v) is List <==> v is List),
        (view_value(v) is Dictionary <==> v is Dictionary),
        (view_value(v) is Pattern <==> v is Pattern),
        (view_value(v) is ExternalInstance <==> v is ExternalInstance),
        (view_value(v) is Expression <==> v is Expression),
        (view_value(v) is Call <==> v is Call),
        (view_value(v) is RestVariable <==> v is RestVariable),
{
    match v {
        Value::Variable(_) => {},
        Value::String(_) => {},
        Value::Number(_) => {},
        Value::Boolean(_) => {},
        Value::List(_) => {},
        Value::Dictionary(_) => {},
        Value::Pattern(_) => {},
        Value::ExternalInstance(_) => {},
        Value::Expression(_) => {},
        Value::Call(_) => {},
        Value::RestVariable(_) => {},
    }
}

/// A pattern and its view always carry the same variant.
pub proof fn lemma_view_pattern_variant(p: Pattern)
    ensures
        (view_pattern(p) is Dictionary <==> p is Dictionary),
        (view_pattern(p) is Instance <==> p is Instance),
{
    match p {
        Pattern::Dictionary(_) => {},
        Pattern::Instance(_) => {},
    }
}

// ---------------------------------------------------------------------
// Executable equality
// ---------------------------------------------------------------------

/// Decide span-insensitive equality of two terms.
pub fn term_eq(a: &Term, b: &Term) -> (r: bool)
    ensures
        r == teq(a@, b@),
    decreases *a,
{
    value_eq(&a.value, &b.value)
}

/// Decide span-insensitive equality of two values.
pub fn value_eq(a: &Value, b: &Value) -> (r: bool)
    ensures
        r == veq(a@, b@),
    decreases *a,
{
    proof {
        lemma_view_variant(*a);
        lemma_view_variant(*b);
    }
    match (a, b) {
        (Value::Variable(x), Value::Variable(y)) => x.eq_name(y),
        (Value::String(x), Value::String(y)) => *x == *y,
        (Value::Number(x), Value::Number(y)) => *x == *y,
        (Value::Boolean(x), Value::Boolean(y)) => *x == *y,
        (Value::List(x), Value::List(y)) => terms_eq(x, y),
        (Value::Dictionary(x), Value::Dictionary(y)) => fields_eq(&x.fields, &y.fields),
        (Value::Pattern(x), Value::Pattern(y)) => pattern_eq(x, y),
        (Value::ExternalInstance(x), Value::ExternalInstance(y)) => {
            x.instance_id == y.instance_id && match (&x.repr, &y.repr) {
                (Some(xr), Some(yr)) => *xr == *yr,
                (None, None) => true,
                _ => false,
            }
        },
        (Value::Expression(x), Value::Expression(y)) => {
            x.operator == y.operator && terms_eq(&x.args, &y.args)
        },
        (Value::Call(x), Value::Call(y)) => {
            x.name.eq_name(&y.name) && terms_eq(&x.args, &y.args)
        },
        (Value::RestVariable(x), Value::RestVariable(y)) => x.eq_name(y),
        _ => false,
    }
}

/// Decide elementwise span-insensitive equality of two term vectors.
pub fn terms_eq(a: &Vec<Term>, b: &Vec<Term>) -> (r: bool)
    ensures
        r == teq_seq(view_terms(a@), view_terms(b@)),
    decreases *a,
{
    proof {
        lemma_view_terms(a@);
        lemma_view_terms(b@);
    }
    if a.len() != b.len() {
        return false;
    }
    let n = a.len();
    let mut i: usize = 0;
    #[verifier::loop_isolation(false)]
    while i < n
        invariant
            n == a.len() == b.len(),
            i <= n,
            forall|j: int| 0 <= j < i ==> teq(view_terms(a@)[j], view_terms(b@)[j]),
        decreases n - i,
    {
        if !term_eq(&a[i], &b[i]) {
            assert(!teq(view_terms(a@)[i as int], view_terms(b@)[i as int]));
            return false;
        }
        i = i + 1;
    }
    true
}

/// Decide elementwise span-insensitive equality of two field vectors.
pub fn fields_eq(a: &Vec<(Symbol, Term)>, b: &Vec<(Symbol, Term)>) -> (r: bool)
    ensures
        r == feq_seq(view_fields(a@), view_fields(b@)),
    decreases *a,
{
    proof {
        lemma_view_fields(a@);
        lemma_view_fields(b@);
    }
    if a.len() != b.len() {
        return false;
    }
    let n = a.len();
    let mut i: usize = 0;
    #[verifier::loop_isolation(false)]
    while i < n
        invariant
            n == a.len() == b.len(),
            i <= n,
            forall|j: int|
                0 <= j < i ==> view_fields(a@)[j].key == view_fields(b@)[j].key && teq(
                    view_fields(a@)[j].value,
                    view_fields(b@)[j].value,
                ),
        decreases n - i,
    {
        if !a[i].0.eq_name(&b[i].0) {
            assert(view_fields(a@)[i as int].key != view_fields(b@)[i as int].key);
            return false;
        }
        if !term_eq(&a[i].1, &b[i].1) {
            assert(!teq(view_fields(a@)[i as int].value, view_fields(b@)[i as int].value));
            return false;
        }
        i = i + 1;
    }
    true
}

/// Decide span-insensitive equality of two patterns.
pub fn pattern_eq(a: &Pattern, b: &Pattern) -> (r: bool)
    ensures
        r == peq(a@, b@),
    decreases *a,
{
    proof {
        lemma_view_pattern_variant(*a);
        lemma_view_pattern_variant(*b);
    }
    match (a, b) {
        (Pattern::Dictionary(x), Pattern::Dictionary(y)) => fields_eq(&x.fields, &y.fields),
        (Pattern::Instance(x), Pattern::Instance(y)) => {
            x.tag.eq_name(&y.tag) && fields_eq(&x.fields.fields, &y.fields.fields)
        },
        _ => false,
    }
}

// ---------------------------------------------------------------------
// Cloning (the clone of every type here reproduces the view exactly)
// ---------------------------------------------------------------------

/// Copy a term, reproducing its view (value and spans) exactly.
pub fn term_clone(a: &Term) -> (r: Term)
    ensures
        r@ == a@,
    decreases *a,
{
    Term { span: a.span, value: value_clone(&a.value) }
}

/// Copy a value, reproducing its view exactly.
pub fn value_clone(a: &Value) -> (r: Value)
    ensures
        r@ == a@,
    decreases *a,
{
    match a {
        Value::Variable(x) => Value::Variable(x.clone()),
        Value::String(x) => Value::String(x.clone()),
        Value::Number(x) => Value::Number(*x),
        Value::Boolean(x) => Value::Boolean(*x),
        Value::List(x) => Value::List(terms_clone(x)),
        Value::Dictionary(x) => Value::Dictionary(Dictionary { fields: fields_clone(&x.fields) }),
        Value::Pattern(x) => Value::Pattern(pattern_clone(x)),
        Value::ExternalInstance(x) => Value::ExternalInstance(
            ExternalInstance {
                instance_id: x.instance_id,
                repr: match &x.repr {
                    Some(r) => Some(r.clone()),
                    None => None,
                },
            },
        ),
        Value::Expression(x) => Value::Expression(
            Operation { operator: x.operator, args: terms_clone(&x.args) },
        ),
        Value::Call(x) => Value::Call(Call { name: x.name.clone(), args: terms_clone(&x.args) }),
        Value::RestVariable(x) => Value::RestVariable(x.clone()),
    }
}

/// Copy a term vector, reproducing its view exactly.
pub fn terms_clone(a: &Vec<Term>) -> (r: Vec<Term>)
    ensures
        view_terms(r@) == view_terms(a@),
        r@.len() == a@.len(),
    decreases *a,
{
    let n = a.len();
    let mut out: Vec<Term> = Vec::new();
    let mut i: usize = 0;
    #[verifier::loop_isolation(false)]
    while i < n
        invariant
            n == a.len(),
            i == out.len() <= n,
            forall|j: int| 0 <= j < i ==> view_terms(out@)[j] == view_terms(a@)[j],
        decreases n - i,
    {
        let ghost prev = out@;
        out.push(term_clone(&a[i]));
        i = i + 1;
        proof {
            lemma_view_terms(a@);
            lemma_view_terms(prev);
            lemma_view_terms(out@);
        }
    }
    proof {
        lemma_view_terms(a@);
        lemma_view_terms(out@);
    }
    assert(view_terms(out@) =~= view_terms(a@));
    out
}

/// Copy a field vector, reproducing its view exactly.
pub fn fields_clone(a: &Vec<(Symbol, Term)>) -> (r: Vec<(Symbol, Term)>)
    ensures
        view_fields(r@) == view_fields(a@),
        r@.len() == a@.len(),
    decreases *a,
{
    let n = a.len();
    let mut out: Vec<(Symbol, Term)> = Vec::new();
    let mut i: usize = 0;
    #[verifier::loop_isolation(false)]
    while i < n
        invariant
            n == a.len(),
            i == out.len() <= n,
            forall|j: int| 0 <= j < i ==> view_fields(out@)[j] == view_fields(a@)[j],
        decreases n - i,
    {
        let ghost prev = out@;
        let key = a[i].0.clone();
        let value = term_clone(&a[i].1);
        out.push((key, value));
        i = i + 1;
        proof {
            lemma_view_fields(a@);
            lemma_view_fields(prev);
            lemma_view_fields(out@);
        }
    }
    proof {
        lemma_view_fields(a@);
        lemma_view_fields(out@);
    }
    assert(view_fields(out@) =~= view_fields(a@));
    out
}

/// Copy a pattern, reproducing its view exactly.
pub fn pattern_clone(a: &Pattern) -> (r: Pattern)
    ensures
        r@ == a@,
    decreases *a,
{
    match a {
        Pattern::Dictionary(x) => Pattern::Dictionary(Dictionary { fields: fields_clone(&x.fields) }),
        Pattern::Instance(x) => Pattern::Instance(
            InstanceLiteral {
                tag: x.tag.clone(),
                fields: Dictionary { fields: fields_clone(&x.fields.fields) },
            },
        ),
    }
}

impl Clone for Term {
    fn clone(&self) -> (r: Term)
        ensures
            r@ == self@,
    {
        term_clone(self)
    }
}

impl Clone for Dictionary {
    fn clone(&self) -> (r: Dictionary)
        ensures
            r@ == self@,
    {
        Dictionary { fields: fields_clone(&self.fields) }
    }
}

impl Clone for Pattern {
    fn clone(&self) -> (r: Pattern)
        ensures
            r@ == self@,
    {
        pattern_clone(self)
    }
}

impl Clone for InstanceLiteral {
    fn clone(&self) -> (r: InstanceLiteral)
        ensures
            r@ == self@,
    {
        InstanceLiteral { tag: self.tag.clone(), fields: self.fields.clone() }
    }
}

// ---------------------------------------------------------------------
// Dictionary lookup and insertion
// ---------------------------------------------------------------------

/// The value stored under key `k`: the first field whose key is `k`.
pub open spec fn fields_get(fs: Seq<FieldV>, k: Seq<char>) -> Option<TermV>
    decreases fs.len(),
{
    if fs.len() == 0 {
        None
    } else if fs[0].key == k {
        Some(fs[0].value)
    } else {
        fields_get(fs.drop_first(), k)
    }
}

/// If the first `i` fields have other keys and field `i` has key `k`,
/// the lookup returns field `i`'s value.
pub proof fn lemma_fields_get_at(fs: Seq<FieldV>, k: Seq<char>, i: int)
    requires
        0 <= i < fs.len(),
        forall|j: int| 0 <= j < i ==> fs[j].key != k,
        fs[i].key == k,
    ensures
        fields_get(fs, k) == Some(fs[i].value),
    decreases i,
{
    if i > 0 {
        lemma_fields_get_at(fs.drop_first(), k, i - 1);
    }
}

/// If no field has key `k`, the lookup returns `None`.
pub proof fn lemma_fields_get_none(fs: Seq<FieldV>, k: Seq<char>)
    requires
        forall|j: int| 0 <= j < fs.len() ==> fs[j].key != k,
    ensures
        fields_get(fs, k) is None,
    decreases fs.len(),
{
    if fs.len() > 0 {
        lemma_fields_get_none(fs.drop_first(), k);
    }
}

/// Replace the value of the first field whose key is `k`, or append a new
/// field when no field has that key.
pub open spec fn fields_insert(fs: Seq<FieldV>, k: Seq<char>, v: TermV) -> Seq<FieldV>
    decreases fs.len(),
{
    if fs.len() == 0 {
        seq![FieldV { key: k, value: v }]
    } else if fs[0].key == k {
        fs.update(0, FieldV { key: k, value: v })
    } else {
        seq![fs[0]] + fields_insert(fs.drop_first(), k, v)
    }
}

/// Insertion then lookup: the inserted key maps to the inserted value and
/// every other key maps to what it mapped to before.
pub proof fn lemma_fields_insert_get(fs: Seq<FieldV>, k: Seq<char>, v: TermV, k2: Seq<char>)
    ensures
        fields_get(fields_insert(fs, k, v), k2) == if k2 == k {
            Some(v)
        } else {
            fields_get(fs, k2)
        },
    decreases fs.len(),
{
    reveal_with_fuel(fields_get, 3);
    let out = fields_insert(fs, k, v);
    if fs.len() == 0 {
        assert(out.drop_first() =~= Seq::<FieldV>::empty());
    } else if fs[0].key == k {
        assert(out.drop_first() =~= fs.drop_first());
    } else {
        lemma_fields_insert_get(fs.drop_first(), k, v, k2);
        assert(out.drop_first() =~= fields_insert(fs.drop_first(), k, v));
    }
}

impl Dictionary {
    /// The empty dictionary.
    pub fn new() -> (d: Dictionary)
        ensures
            d@ == Seq::<FieldV>::empty(),
    {
        Dictionary { fields: Vec::new() }
    }

    /// The term stored under `key`, if any.
    pub fn get<'a>(&'a self, key: &Symbol) -> (r: Option<&'a Term>)
        ensures
            match r {
                Some(t) => fields_get(self@, key@) == Some(t@),
                None => fields_get(self@, key@) is None,
            },
    {
        proof {
            lemma_view_fields(self.fields@);
        }
        let n = self.fields.len();
        let mut i: usize = 0;
        #[verifier::loop_isolation(false)]
        while i < n
            invariant
                n == self.fields.len(),
                i <= n,
                forall|j: int| 0 <= j < i ==> view_fields(self.fields@)[j].key != key@,
            decreases n - i,
        {
            if self.fields[i].0.eq_name(key) {
                proof {
                    lemma_fields_get_at(self@, key@, i as int);
                }
                return Some(&self.fields[i].1);
            }
            i = i + 1;
        }
        proof {
            lemma_fields_get_none(self@, key@);
        }
        None
    }

    /// Store `value` under `key`, replacing the value of an existing key.
    pub fn insert(&mut self, key: Symbol, value: Term)
        ensures
            final(self)@ == fields_insert(old(self)@, key@, value@),
    {
        proof {
            lemma_view_fields(self.fields@);
        }
        let n = self.fields.len();
        let mut i: usize = 0;
        #[verifier::loop_isolation(false)]
        while i < n
            invariant
                n == self.fields.len(),
                i <= n,
                self.fields@ == old(self).fields@,
                forall|j: int| 0 <= j < i ==> view_fields(self.fields@)[j].key != key@,
            decreases n - i,
        {
            if self.fields[i].0.eq_name(&key) {
                proof {
                    lemma_view_fields(self.fields@);
                    lemma_fields_insert_at(old(self)@, key@, value@, i as int);
                }
                self.fields.set(i, (key, value));
                proof {
                    lemma_view_fields(self.fields@);
                    assert(view_fields(self.fields@) =~= view_fields(old(self).fields@).update(
                        i as int,
                        FieldV { key: key@, value: value@ },
                    ));
                }
                return ;
            }
            i = i + 1;
        }
        proof {
            lemma_view_fields(self.fields@);
            lemma_fields_insert_absent(old(self)@, key@, value@);
        }
        self.fields.push((key, value));
        proof {
            lemma_view_fields(self.fields@);
            assert(view_fields(self.fields@) =~= view_fields(old(self).fields@).push(
                FieldV { key: key@, value: value@ },
            ));
        }
    }

    /// The number of fields.
    pub fn len(&self) -> (n: usize)
        ensures
            n == self@.len(),
    {
        proof {
            lemma_view_fields(self.fields@);
        }
        self.fields.len()
    }
}

/// When the first `i` keys differ from `k` and key `i` equals `k`,
/// insertion updates position `i` in place.
pub proof fn lemma_fields_insert_at(fs: Seq<FieldV>, k: Seq<char>, v: TermV, i: int)
    requires
        0 <= i < fs.len(),
        forall|j: int| 0 <= j < i ==> fs[j].key != k,
        fs[i].key == k,
    ensures
        fields_insert(fs, k, v) =~= fs.update(i, FieldV { key: k, value: v }),
    decreases i,
{
    if i > 0 {
        lemma_fields_insert_at(fs.drop_first(), k, v, i - 1);
        assert(fields_insert(fs, k, v) =~= seq![fs[0]] + fs.drop_first().update(
            i - 1,
            FieldV { key: k, value: v },
        ));
    }
}

/// When no key equals `k`, insertion appends the new field.
pub proof fn lemma_fields_insert_absent(fs: Seq<FieldV>, k: Seq<char>, v: TermV)
    requires
        forall|j: int| 0 <= j < fs.len() ==> fs[j].key != k,
    ensures
        fields_insert(fs, k, v) =~= fs.push(FieldV { key: k, value: v }),
    decreases fs.len(),
{
    if fs.len() > 0 {
        lemma_fields_insert_absent(fs.drop_first(), k, v);
    }
}

// ---------------------------------------------------------------------
// Term construction and accessors
// ---------------------------------------------------------------------

impl Term {
    /// A term with no source span.
    pub fn new(value: Value) -> (t: Term)
        ensures
            t@ == (TermV { span: None, val: value@ }),
    {
        Term { span: None, value }
    }

    /// A term carrying the span it was parsed from.
    pub fn parsed(src_id: u64, left: u64, right: u64, value: Value) -> (t: Term)
        ensures
            t@ == (TermV { span: Some(Span { src_id, left, right }), val: value@ }),
    {
        Term { span: Some(Span { src_id, left, right }), value }
    }

    /// The ID of the source this term was parsed from, if any.
    pub fn get_source_id(&self) -> (r: Option<u64>)
        ensures
            r == match self.span {
                Some(s) => Some(s.src_id),
                None => None::<u64>,
            },
    {
        match &self.span {
            Some(s) => Some(s.src_id),
            None => None,
        }
    }
}

/// Whether a list of terms contains a rest-variable element.
pub open spec fn spec_has_rest_var(ts: Seq<TermV>) -> bool {
    exists|i: int| 0 <= i < ts.len() && ts[i].val is RestVariable
}

/// Decide whether a term list contains a rest variable.
pub fn has_rest_var(ts: &Vec<Term>) -> (r: bool)
    ensures
        r == spec_has_rest_var(view_terms(ts@)),
{
    proof {
        lemma_view_terms(ts@);
    }
    let n = ts.len();
    let mut i: usize = 0;
    #[verifier::loop_isolation(false)]
    while i < n
        invariant
            n == ts.len(),
            i <= n,
            forall|j: int| 0 <= j < i ==> !(view_terms(ts@)[j].val is RestVariable),
        decreases n - i,
    {
        if matches!(&ts[i].value, Value::RestVariable(_)) {
            assert(view_terms(ts@)[i as int].val is RestVariable);
            return true;
        }
        i = i + 1;
    }
    false
}

} // verus!

