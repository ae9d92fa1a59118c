//! Rendering of terms, patterns and rules into policy text.
//!
//! Diagnostics quote the offending terms and rules, so the engine needs a
//! deterministic textual form for every term. The exact text of each
//! rendering is fixed by the spec functions here: strings are quoted,
//! numbers are decimal, lists are bracketed and comma-separated,
//! dictionaries and instance literals brace their fields, and a float is
//! shown as its IEEE-754 bit pattern.

use vstd::prelude::*;

use crate::terms::{
    FieldV, Numeric, Operator, Pattern, PatternV, Term, TermV, ValV, Value, view_fields,
    view_terms, lemma_view_terms, lemma_view_fields,
};

verus! {

// ---------------------------------------------------------------------
// Decimal rendering of integers
// ---------------------------------------------------------------------

/// The character for one decimal digit.
pub open spec fn dec_digit(d: nat) -> Seq<char> {
    if d == 0 {
        "0"@
    } else if d == 1 {
        "1"@
    } else if d == 2 {
        "2"@
    } else if d == 3 {
        "3"@
    } else if d == 4 {
        "4"@
    } else if d == 5 {
        "5"@
    } else if d == 6 {
        "6"@
    } else if d == 7 {
        "7"@
    } else if d == 8 {
        "8"@
    } else {
        "9"@
    }
}

/// The decimal rendering of a natural number, most significant digit
/// first, with no leading zeros (except for zero itself).
pub open spec fn dec_nat(n: nat) -> Seq<char>
    decreases n,
{
    if n < 10 {
        dec_digit(n)
    } else {
        dec_nat(n / 10) + dec_digit(n % 10)
    }
}

/// The decimal rendering of an integer: a minus sign for negatives.
pub open spec fn dec_int(i: int) -> Seq<char> {
    if i < 0 {
        "-"@ + dec_nat((-i) as nat)
    } else {
        dec_nat(i as nat)
    }
}

fn digit_str(d: u64) -> (r: &'static str)
    requires
        d < 10,
    ensures
        r@ == dec_digit(d as nat),
{
    match d {
        0 => "0",
        1 => "1",
        2 => "2",
        3 => "3",
        4 => "4",
        5 => "5",
        6 => "6",
        7 => "7",
        8 => "8",
        _ => "9",
    }
}

/// Render an unsigned integer in decimal.
pub fn u64_to_string(n: u64) -> (r: String)
    ensures
        r@ == dec_nat(n as nat),
    decreases n,
{
    if n < 10 {
        digit_str(n).to_owned()
    } else {
        let prefix = u64_to_string(n / 10);
        prefix.concat(digit_str(n % 10))
    }
}

/// Render a usize in decimal.
pub fn usize_to_string(n: usize) -> (r: String)
    ensures
        r@ == dec_nat(n as nat),
{
    u64_to_string(n as u64)
}

/// Render a signed integer in decimal.
pub fn i64_to_string(i: i64) -> (r: String)
    ensures
        r@ == dec_int(i as int),
{
    if i >= 0 {
        u64_to_string(i as u64)
    } else {
        let magnitude: u64 = (-(i as i128)) as u64;
        let digits = u64_to_string(magnitude);
        let out = String::new().concat("-").concat(digits.as_str());
        assert(out@ =~= "-"@ + dec_nat(magnitude as nat));
        out
    }
}

// ---------------------------------------------------------------------
// Rendering of terms
// ---------------------------------------------------------------------

/// The policy-text name of an operator.
pub open spec fn render_operator(op: Operator) -> Seq<char> {
    match op {
        Operator::And => "and"@,
        Operator::Or => "or"@,
        Operator::Not => "not"@,
    }
}

/// The policy-text rendering of a term: its value, spans play no part.
pub open spec fn render_term(t: TermV) -> Seq<char>
    decreases t,
{
    render_val(t.val)
}

/// Comma-separated rendering of a term sequence.
pub open spec fn render_terms(ts: Seq<TermV>) -> Seq<char>
    decreases ts,
{
    if ts.len() == 0 {
        Seq::empty()
    } else if ts.len() == 1 {
        render_term(ts[0])
    } else {
        render_terms(ts.drop_last()) + ", "@ + render_term(ts.last())
    }
}

/// Comma-separated rendering of dictionary fields, `key: value` each.
pub open spec fn render_fields(fs: Seq<FieldV>) -> Seq<char>
    decreases fs,
{
    if fs.len() == 0 {
        Seq::empty()
    } else if fs.len() == 1 {
        fs[0].key + ": "@ + render_term(fs[0].value)
    } else {
        render_fields(fs.drop_last()) + ", "@ + fs.last().key + ": "@ + render_term(fs.last().value)
    }
}

/// The rendering of a pattern: a brace-delimited dictionary, or an
/// instance literal `Tag{fields}`.
pub open spec fn render_pattern(p: PatternV) -> Seq<char>
    decreases p,
{
    match p {
        PatternV::Dictionary(fs) => "{"@ + render_fields(fs) + "}"@,
        PatternV::Instance(lit) => lit.tag + "{"@ + render_fields(lit.fields) + "}"@,
    }
}

/// The rendering of a value.
pub open spec fn render_val(v: ValV) -> Seq<char>
    decreases v,
{
    match v {
        ValV::Variable(s) => s,
        ValV::String(s) => "\""@ + s + "\""@,
        ValV::Number(Numeric::Integer(i)) => dec_int(i as int),
        ValV::Number(Numeric::Float(bits)) => "float<"@ + dec_nat(bits as nat) + ">"@,
        ValV::Boolean(b) => if b {
            "true"@
        } else {
            "false"@
        },
        ValV::List(ts) => "["@ + render_terms(ts) + "]"@,
        ValV::Dictionary(fs) => "{"@ + render_fields(fs) + "}"@,
        ValV::Pattern(p) => render_pattern(p),
        ValV::ExternalInstance(e) => match e.repr {
            Some(r) => r,
            None => "^{id: "@ + dec_nat(e.instance_id as nat) + "}"@,
        },
        ValV::Expression(op, args) => render_operator(op) + "("@ + render_terms(args) + ")"@,
        ValV::Call(name, args) => name + "("@ + render_terms(args) + ")"@,
        ValV::RestVariable(s) => "*"@ + s,
    }
}

/// Render a term into policy text.
pub fn term_to_polar(t: &Term) -> (r: String)
    ensures
        r@ == render_term(t@),
    decreases *t,
{
    value_to_polar(&t.value)
}

/// Render a value into policy text.
pub fn value_to_polar(v: &Value) -> (r: String)
    ensures
        r@ == render_val(v@),
    decreases *v,
{
    match v {
        Value::Variable(s) => s.0.clone(),
        Value::String(s) => {
            let out = String::new().concat("\"").concat(s.as_str()).concat("\"");
            assert(out@ =~= "\""@ + s@ + "\""@);
            out
        },
        Value::Number(n) => match n {
            Numeric::Integer(i) => i64_to_string(*i),
            Numeric::Float(bits) => {
                let digits = u64_to_string(*bits);
                let out = String::new().concat("float<").concat(digits.as_str()).concat(">");
                assert(out@ =~= "float<"@ + dec_nat(*bits as nat) + ">"@);
                out
            },
        },
        Value::Boolean(b) => {
            if *b {
                "true".to_owned()
            } else {
                "false".to_owned()
            }
        },
        Value::List(ts) => {
            let inner = terms_to_polar(ts);
            let out = String::new().concat("[").concat(inner.as_str()).concat("]");
            assert(out@ =~= "["@ + render_terms(view_terms(ts@)) + "]"@);
            out
        },
        Value::Dictionary(d) => {
            let inner = fields_to_polar(&d.fields);
            let out = String::new().concat("{").concat(inner.as_str()).concat("}");
            assert(out@ =~= "{"@ + render_fields(view_fields(d.fields@)) + "}"@);
            out
        },
        Value::Pattern(p) => pattern_to_polar(p),
        Value::ExternalInstance(e) => match &e.repr {
            Some(r) => r.clone(),
            None => {
                let digits = u64_to_string(e.instance_id);
                let out = String::new().concat("^{id: ").concat(digits.as_str()).concat("}");
                assert(out@ =~= "^{id: "@ + dec_nat(e.instance_id as nat) + "}"@);
                out
            },
        },
        Value::Expression(op) => {
            let name: &'static str = match op.operator {
                Operator::And => "and",
                Operator::Or => "or",
                Operator::Not => "not",
            };
            let inner = terms_to_polar(&op.args);
            let out = String::new().concat(name).concat("(").concat(inner.as_str()).concat(")");
            assert(out@ =~= render_operator(op.operator) + "("@ + render_terms(view_terms(op.args@))
                + ")"@);
            out
        },
        Value::Call(c) => {
            let inner = terms_to_polar(&c.args);
            let out = c.name.0.clone().concat("(").concat(inner.as_str()).concat(")");
            assert(out@ =~= c.name@ + "("@ + render_terms(view_terms(c.args@)) + ")"@);
            out
        },
        Value::RestVariable(s) => {
            let out = String::new().concat("*").concat(s.0.as_str());
            assert(out@ =~= "*"@ + s@);
            out
        },
    }
}

/// Render a term sequence, comma separated.
pub fn terms_to_polar(ts: &Vec<Term>) -> (r: String)
    ensures
        r@ == render_terms(view_terms(ts@)),
    decreases *ts,
{
    proof {
        lemma_view_terms(ts@);
    }
    let n = ts.len();
    let mut out = String::new();
    let mut i: usize = 0;
    #[verifier::loop_isolation(false)]
    while i < n
        invariant
            n == ts.len(),
            i <= n,
            out@ == render_terms(view_terms(ts@).subrange(0, i as int)),
        decreases n - i,
    {
        let piece = term_to_polar(&ts[i]);
        if i > 0 {
            out = out.concat(", ");
        }
        out = out.concat(piece.as_str());
        i = i + 1;
        proof {
            let vts = view_terms(ts@);
            let prefix = vts.subrange(0, i as int);
            assert(prefix.drop_last() =~= vts.subrange(0, i - 1 as int));
            assert(prefix.last() == vts[i - 1 as int]);
        }
    }
    proof {
        assert(view_terms(ts@).subrange(0, n as int) =~= view_terms(ts@));
    }
    out
}

/// Render dictionary fields, comma separated, `key: value` each.
pub fn fields_to_polar(fs: &Vec<(crate::terms::Symbol, Term)>) -> (r: String)
    ensures
        r@ == render_fields(view_fields(fs@)),
    decreases *fs,
{
    proof {
        lemma_view_fields(fs@);
    }
    let n = fs.len();
    let mut out = String::new();
    let mut i: usize = 0;
    #[verifier::loop_isolation(false)]
    while i < n
        invariant
            n == fs.len(),
            i <= n,
            out@ == render_fields(view_fields(fs@).subrange(0, i as int)),
        decreases n - i,
    {
        let piece = term_to_polar(&fs[i].1);
        if i > 0 {
            out = out.concat(", ");
        }
        out = out.concat(fs[i].0.0.as_str()).concat(": ").concat(piece.as_str());
        i = i + 1;
        proof {
            let vfs = view_fields(fs@);
            let prefix = vfs.subrange(0, i as int);
            assert(prefix.drop_last() =~= vfs.subrange(0, i - 1 as int));
            assert(prefix.last() == vfs[i - 1 as int]);
        }
    }
    proof {
        assert(view_fields(fs@).subrange(0, n as int) =~= view_fields(fs@));
    }
    out
}

/// Render an instance literal into policy text: `Tag{fields}`.
pub fn instance_to_polar(lit: &crate::terms::InstanceLiteral) -> (r: String)
    ensures
        r@ == render_pattern(PatternV::Instance(lit@)),
{
    let inner = fields_to_polar(&lit.fields.fields);
    let out = lit.tag.0.clone().concat("{").concat(inner.as_str()).concat("}");
    assert(out@ =~= lit.tag@ + "{"@ + render_fields(view_fields(lit.fields.fields@)) + "}"@);
    out
}

/// Render a pattern into policy text.
pub fn pattern_to_polar(p: &Pattern) -> (r: String)
    ensures
        r@ == render_pattern(p@),
    decreases *p,
{
    match p {
        Pattern::Dictionary(d) => {
            let inner = fields_to_polar(&d.fields);
            let out = String::new().concat("{").concat(inner.as_str()).concat("}");
            assert(out@ =~= "{"@ + render_fields(view_fields(d.fields@)) + "}"@);
            out
        },
        Pattern::Instance(lit) => {
            let inner = fields_to_polar(&lit.fields.fields);
            let out = lit.tag.0.clone().concat("{").concat(inner.as_str()).concat("}");
            assert(out@ =~= lit.tag@ + "{"@ + render_fields(view_fields(lit.fields.fields@))
                + "}"@);
            out
        },
    }
}

} // verus!
