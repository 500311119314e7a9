//! How the terrain generation editor prints an expression tree: a readable
//! form, and a compact one that fits a single line.
use vstd::prelude::*;
use crate::labels::push_str;

verus! {

/// An expression of the terrain generator, as the editor prints it.  The
/// numbers of its leaves are held as the editor prints them (a literal with
/// three decimals).
#[derive(Debug, PartialEq)]
pub enum Expr {
    Literal(String),
    Noise { complement: bool, seed_offset: String },
    NoiseByName { name: String, complement: bool },
    Variable { name: String },
    Add { left: Box<Expr>, right: Box<Expr> },
    Subtract { left: Box<Expr>, right: Box<Expr> },
    Multiply { left: Box<Expr>, right: Box<Expr> },
    Divide { left: Box<Expr>, right: Box<Expr> },
    MultiplyOpo { value: Box<Expr> },
    Min { values: Vec<Expr> },
    Max { values: Vec<Expr> },
    Average { values: Vec<Expr> },
    Abs { value: Box<Expr> },
    MultiplyNormalized { left: Box<Expr>, right: Box<Expr> },
    MultiplyNormalizedAbs { left: Box<Expr>, right: Box<Expr> },
    IndexMax { values: Vec<Expr> },
    IndexNorm { value: Box<Expr>, multiplier: Box<Expr> },
    Linear { values: Vec<Expr> },
    Clamp { value: Box<Expr>, min: Box<Expr>, max: Box<Expr> },
    Complement { value: Box<Expr> },
    HashPos { seed: String },
    PoissonDisk { min_dist: String, seed: String },
}

/// Two spaces for each level of indentation.
pub open spec fn indent_prefix(indent: nat) -> Seq<char>
    decreases indent,
{
    if indent == 0 {
        Seq::empty()
    } else {
        indent_prefix((indent - 1) as nat) + "  "@
    }
}

/// The mark of a complemented noise.
pub open spec fn complement_mark(complement: bool) -> Seq<char> {
    if complement { "!"@ } else { ""@ }
}

/// `name(a, b)` for the two operands `a` and `b`.
pub open spec fn call2(name: Seq<char>, a: Seq<char>, b: Seq<char>) -> Seq<char> {
    name + "("@ + a + ", "@ + b + ")"@
}

/// `(a op b)` for the two operands `a` and `b`.
pub open spec fn infix(a: Seq<char>, op: Seq<char>, b: Seq<char>) -> Seq<char> {
    "("@ + a + op + b + ")"@
}

/// The readable form of `e`, its noises indented by `indent` levels; the
/// operands of an operation are printed in compact form.
pub open spec fn expr_text(e: Expr, indent: nat) -> Seq<char>
    decreases e, 0nat,
{
    match e {
        Expr::Literal(v) => v@,
        Expr::Noise { complement, seed_offset } =>
            indent_prefix(indent) + "Noise(seed: "@ + seed_offset@ + ")"@ + complement_mark(complement),
        Expr::NoiseByName { name, complement } =>
            indent_prefix(indent) + "NoiseByName("@ + name@ + ")"@ + complement_mark(complement),
        Expr::Variable { name } => "$"@ + name@,
        Expr::Add { left, right } => infix(compact_text(*left), " + "@, compact_text(*right)),
        Expr::Subtract { left, right } => infix(compact_text(*left), " - "@, compact_text(*right)),
        Expr::Multiply { left, right } => infix(compact_text(*left), " * "@, compact_text(*right)),
        Expr::Divide { left, right } => infix(compact_text(*left), " / "@, compact_text(*right)),
        Expr::MultiplyOpo { value } => "*opo("@ + compact_text(*value) + ")"@,
        Expr::Min { values } => "min("@ + list_text(values@) + ")"@,
        Expr::Max { values } => "max("@ + list_text(values@) + ")"@,
        Expr::Average { values } => "avg("@ + list_text(values@) + ")"@,
        Expr::Abs { value } => "abs("@ + compact_text(*value) + ")"@,
        Expr::MultiplyNormalized { left, right } => call2("*nm"@, compact_text(*left), compact_text(*right)),
        Expr::MultiplyNormalizedAbs { left, right } => call2("*nmabs"@, compact_text(*left), compact_text(*right)),
        Expr::IndexMax { values } => "idxmax("@ + list_text(values@) + ")"@,
        Expr::IndexNorm { value, multiplier } => call2("idxnorm"@, compact_text(*value), compact_text(*multiplier)),
        Expr::Linear { values } => "lin("@ + list_text(values@) + ")"@,
        Expr::Clamp { value, min, max } =>
            "clamp("@ + compact_text(*value) + ", "@ + compact_text(*min) + ", "@ + compact_text(*max) + ")"@,
        Expr::Complement { value } => "!"@ + compact_text(*value),
        Expr::HashPos { seed } => "hp"@ + seed@,
        Expr::PoissonDisk { min_dist, seed } => "pd"@ + min_dist@ + "_"@ + seed@,
    }
}

/// The compact form of `e`: noises by their name alone (or "noise"), the
/// list operations and the four arithmetic operations on their compact
/// operands; every other expression as its readable form without
/// indentation.
pub open spec fn compact_text(e: Expr) -> Seq<char>
    decreases e, 1nat,
{
    match e {
        Expr::Literal(v) => v@,
        Expr::Noise { complement, seed_offset } => if complement { "!noise"@ } else { "noise"@ },
        Expr::NoiseByName { name, complement } => complement_mark(complement) + name@,
        Expr::Variable { name } => "$"@ + name@,
        Expr::Add { left, right } => infix(compact_text(*left), " + "@, compact_text(*right)),
        Expr::Subtract { left, right } => infix(compact_text(*left), " - "@, compact_text(*right)),
        Expr::Multiply { left, right } => infix(compact_text(*left), " * "@, compact_text(*right)),
        Expr::Divide { left, right } => infix(compact_text(*left), " / "@, compact_text(*right)),
        Expr::Min { values } => "min("@ + list_text(values@) + ")"@,
        Expr::Max { values } => "max("@ + list_text(values@) + ")"@,
        Expr::IndexMax { values } => "idxmax("@ + list_text(values@) + ")"@,
        Expr::Linear { values } => "lin("@ + list_text(values@) + ")"@,
        _ => expr_text(e, 0),
    }
}

/// The compact forms of `values`, separated by ", ".
pub open spec fn list_text(values: Seq<Expr>) -> Seq<char>
    decreases values, 2nat,
{
    if values.len() == 0 {
        Seq::empty()
    } else if values.len() == 1 {
        compact_text(values[0])
    } else {
        list_text(values.drop_last()) + ", "@ + compact_text(values.last())
    }
}

/// `s` holds no line break.
pub open spec fn one_line(s: Seq<char>) -> bool {
    forall|i: int| 0 <= i < s.len() ==> s[i] != '\n'
}

/// `s` starts with no space.
pub open spec fn unindented(s: Seq<char>) -> bool {
    s.len() == 0 || s[0] != ' '
}

/// A text that can stand on one line of the editor: no line break, no
/// leading space.
pub open spec fn plain_text(s: Seq<char>) -> bool {
    one_line(s) && unindented(s)
}

/// Every text that `e` holds (literals, names, seeds, distances) is plain.
pub open spec fn plain_leaves(e: Expr) -> bool
    decreases e, 0nat,
{
    match e {
        Expr::Literal(v) => plain_text(v@),
        Expr::Noise { seed_offset, .. } => plain_text(seed_offset@),
        Expr::NoiseByName { name, .. } => plain_text(name@),
        Expr::Variable { name } => plain_text(name@),
        Expr::Add { left, right } => plain_leaves(*left) && plain_leaves(*right),
        Expr::Subtract { left, right } => plain_leaves(*left) && plain_leaves(*right),
        Expr::Multiply { left, right } => plain_leaves(*left) && plain_leaves(*right),
        Expr::Divide { left, right } => plain_leaves(*left) && plain_leaves(*right),
        Expr::MultiplyOpo { value } => plain_leaves(*value),
        Expr::Min { values } => plain_list(values@),
        Expr::Max { values } => plain_list(values@),
        Expr::Average { values } => plain_list(values@),
        Expr::Abs { value } => plain_leaves(*value),
        Expr::MultiplyNormalized { left, right } => plain_leaves(*left) && plain_leaves(*right),
        Expr::MultiplyNormalizedAbs { left, right } => plain_leaves(*left) && plain_leaves(*right),
        Expr::IndexMax { values } => plain_list(values@),
        Expr::IndexNorm { value, multiplier } => plain_leaves(*value) && plain_leaves(*multiplier),
        Expr::Linear { values } => plain_list(values@),
        Expr::Clamp { value, min, max } => plain_leaves(*value) && plain_leaves(*min) && plain_leaves(*max),
        Expr::Complement { value } => plain_leaves(*value),
        Expr::HashPos { seed } => plain_text(seed@),
        Expr::PoissonDisk { min_dist, seed } => plain_text(min_dist@) && plain_text(seed@),
    }
}

/// Every expression of `values` holds plain texts only.
pub open spec fn plain_list(values: Seq<Expr>) -> bool
    decreases values, 1nat,
{
    if values.len() == 0 {
        true
    } else {
        plain_list(values.drop_last()) && plain_leaves(values.last())
    }
}

/// Joining texts without line breaks gives a text without line breaks.
pub broadcast proof fn lemma_one_line_add(a: Seq<char>, b: Seq<char>)
    requires
        one_line(a),
        one_line(b),
    ensures
        #[trigger] one_line(a + b),
{
    assert forall|i: int| 0 <= i < (a + b).len() implies (a + b)[i] != '\n' by {
        if i < a.len() {
            assert((a + b)[i] == a[i]);
        } else {
            assert((a + b)[i] == b[i - a.len()]);
        }
    }
}

/// The readable form, without indentation, of an expression whose texts
/// are plain is plain.
proof fn lemma_expr_text_plain(e: Expr)
    requires
        plain_leaves(e),
    ensures
        plain_text(expr_text(e, 0)),
    decreases e, 0nat,
{
    broadcast use lemma_one_line_add;
    reveal_strlit("  ");
    reveal_strlit("!");
    reveal_strlit("");
    reveal_strlit("Noise(seed: ");
    reveal_strlit(")");
    reveal_strlit("NoiseByName(");
    reveal_strlit("$");
    reveal_strlit(" + ");
    reveal_strlit(" - ");
    reveal_strlit(" * ");
    reveal_strlit(" / ");
    reveal_strlit("*opo(");
    reveal_strlit("min(");
    reveal_strlit("max(");
    reveal_strlit("avg(");
    reveal_strlit("abs(");
    reveal_strlit("*nm");
    reveal_strlit("*nmabs");
    reveal_strlit("idxnorm");
    reveal_strlit("idxmax(");
    reveal_strlit("lin(");
    reveal_strlit("clamp(");
    reveal_strlit(", ");
    reveal_strlit("hp");
    reveal_strlit("pd");
    reveal_strlit("_");
    reveal_strlit("(");
    reveal_strlit("!noise");
    reveal_strlit("noise");
    assert(indent_prefix(0) == Seq::<char>::empty());
    match e {
        Expr::Add { left, right } => { lemma_compact_text_plain(*left); lemma_compact_text_plain(*right); },
        Expr::Subtract { left, right } => { lemma_compact_text_plain(*left); lemma_compact_text_plain(*right); },
        Expr::Multiply { left, right } => { lemma_compact_text_plain(*left); lemma_compact_text_plain(*right); },
        Expr::Divide { left, right } => { lemma_compact_text_plain(*left); lemma_compact_text_plain(*right); },
        Expr::MultiplyOpo { value } => { lemma_compact_text_plain(*value); },
        Expr::Min { values } => { lemma_list_text_plain(values@); },
        Expr::Max { values } => { lemma_list_text_plain(values@); },
        Expr::Average { values } => { lemma_list_text_plain(values@); },
        Expr::Abs { value } => { lemma_compact_text_plain(*value); },
        Expr::MultiplyNormalized { left, right } => { lemma_compact_text_plain(*left); lemma_compact_text_plain(*right); },
        Expr::MultiplyNormalizedAbs { left, right } => { lemma_compact_text_plain(*left); lemma_compact_text_plain(*right); },
        Expr::IndexMax { values } => { lemma_list_text_plain(values@); },
        Expr::IndexNorm { value, multiplier } => { lemma_compact_text_plain(*value); lemma_compact_text_plain(*multiplier); },
        Expr::Linear { values } => { lemma_list_text_plain(values@); },
        Expr::Clamp { value, min, max } => {
            lemma_compact_text_plain(*value);
            lemma_compact_text_plain(*min);
            lemma_compact_text_plain(*max);
        },
        Expr::Complement { value } => { lemma_compact_text_plain(*value); },
        _ => {},
    }
}

/// The compact form of an expression whose texts are plain is plain: one
/// line, with no indentation.
pub proof fn lemma_compact_text_plain(e: Expr)
    requires
        plain_leaves(e),
    ensures
        plain_text(compact_text(e)),
    decreases e, 1nat,
{
    broadcast use lemma_one_line_add;
    reveal_strlit("  ");
    reveal_strlit("!");
    reveal_strlit("");
    reveal_strlit("Noise(seed: ");
    reveal_strlit(")");
    reveal_strlit("NoiseByName(");
    reveal_strlit("$");
    reveal_strlit(" + ");
    reveal_strlit(" - ");
    reveal_strlit(" * ");
    reveal_strlit(" / ");
    reveal_strlit("*opo(");
    reveal_strlit("min(");
    reveal_strlit("max(");
    reveal_strlit("avg(");
    reveal_strlit("abs(");
    reveal_strlit("*nm");
    reveal_strlit("*nmabs");
    reveal_strlit("idxnorm");
    reveal_strlit("idxmax(");
    reveal_strlit("lin(");
    reveal_strlit("clamp(");
    reveal_strlit(", ");
    reveal_strlit("hp");
    reveal_strlit("pd");
    reveal_strlit("_");
    reveal_strlit("(");
    reveal_strlit("!noise");
    reveal_strlit("noise");
    match e {
        Expr::Add { left, right } => { lemma_compact_text_plain(*left); lemma_compact_text_plain(*right); },
        Expr::Subtract { left, right } => { lemma_compact_text_plain(*left); lemma_compact_text_plain(*right); },
        Expr::Multiply { left, right } => { lemma_compact_text_plain(*left); lemma_compact_text_plain(*right); },
        Expr::Divide { left, right } => { lemma_compact_text_plain(*left); lemma_compact_text_plain(*right); },
        Expr::Min { values } => { lemma_list_text_plain(values@); },
        Expr::Max { values } => { lemma_list_text_plain(values@); },
        Expr::IndexMax { values } => { lemma_list_text_plain(values@); },
        Expr::Linear { values } => { lemma_list_text_plain(values@); },
        Expr::Literal(_) => {},
        Expr::Noise { .. } => {},
        Expr::NoiseByName { .. } => {},
        Expr::Variable { .. } => {},
        _ => { lemma_expr_text_plain(e); },
    }
}

/// The compact forms of plain expressions, joined by ", ", are plain.
proof fn lemma_list_text_plain(values: Seq<Expr>)
    requires
        plain_list(values),
    ensures
        plain_text(list_text(values)),
    decreases values, 2nat,
{
    broadcast use lemma_one_line_add;
    reveal_strlit(", ");
    if values.len() == 1 {
        assert(values[0] == values.last());
        lemma_compact_text_plain(values[0]);
    } else if values.len() > 1 {
        lemma_list_text_plain(values.drop_last());
        lemma_compact_text_plain(values.last());
    }
}

/// A copy of the text `t`.
fn text(t: &str) -> (res: String)
    ensures
        res@ == t@,
{
    let mut out = String::new();
    push_str(&mut out, t);
    proof {
        assert(Seq::<char>::empty() + t@ =~= t@);
    }
    out
}

/// `open`, then `inner`, then `close`.
fn wrapped(open: &str, inner: &str, close: &str) -> (res: String)
    ensures
        res@ == open@ + inner@ + close@,
{
    let mut out = text(open);
    push_str(&mut out, inner);
    push_str(&mut out, close);
    out
}

/// `open`, then `inner`.
fn prefixed(open: &str, inner: &str) -> (res: String)
    ensures
        res@ == open@ + inner@,
{
    let mut out = text(open);
    push_str(&mut out, inner);
    out
}

/// `(a op b)`.
fn infix_text(a: &str, op: &str, b: &str) -> (res: String)
    ensures
        res@ == infix(a@, op@, b@),
{
    let mut out = text("(");
    push_str(&mut out, a);
    push_str(&mut out, op);
    push_str(&mut out, b);
    push_str(&mut out, ")");
    out
}

/// `name(a, b)`.
fn call2_text(name: &str, a: &str, b: &str) -> (res: String)
    ensures
        res@ == call2(name@, a@, b@),
{
    let mut out = text(name);
    push_str(&mut out, "(");
    push_str(&mut out, a);
    push_str(&mut out, ", ");
    push_str(&mut out, b);
    push_str(&mut out, ")");
    out
}

/// Appends `indent` levels of indentation.
fn push_indent(out: &mut String, indent: usize)
    ensures
        final(out)@ == old(out)@ + indent_prefix(indent as nat),
{
    let mut i: usize = 0;
    proof {
        assert(old(out)@ + indent_prefix(0) =~= old(out)@);
    }
    while i < indent
        invariant
            i <= indent,
            out@ == old(out)@ + indent_prefix(i as nat),
        decreases indent - i,
    {
        push_str(out, "  ");
        proof {
            assert(old(out)@ + indent_prefix((i + 1) as nat) =~= old(out)@ + indent_prefix(i as nat) + "  "@);
        }
        i = i + 1;
    }
}

/// The compact forms of `values`, separated by ", " (see `list_text`).
fn format_list(values: &Vec<Expr>) -> (res: String)
    ensures
        res@ == list_text(values@),
    decreases values@, 2nat,
{
    let mut out = String::new();
    let mut i: usize = 0;
    while i < values.len()
        invariant
            i <= values.len(),
            out@ == list_text(values@.take(i as int)),
        decreases values.len() - i,
    {
        let item = format_expr_compact(&values[i]);
        proof {
            let next = values@.take(i + 1);
            assert(next.drop_last() =~= values@.take(i as int));
            assert(next.last() == values@[i as int]);
            if i == 0 {
                assert(next.len() == 1);
                assert(next[0] == values@[0]);
            }
        }
        if i > 0 {
            push_str(&mut out, ", ");
            push_str(&mut out, item.as_str());
        } else {
            push_str(&mut out, item.as_str());
            proof {
                assert(Seq::<char>::empty() + item@ =~= item@);
            }
        }
        i = i + 1;
    }
    proof {
        assert(values@.take(values.len() as int) =~= values@);
    }
    out
}

/// The readable form of `e`, its noises indented by `indent` levels (see
/// `expr_text`).
pub fn format_expr(e: &Expr, indent: usize) -> (res: String)
    ensures
        res@ == expr_text(*e, indent as nat),
    decreases *e, 0nat,
{
    match e {
        Expr::Literal(v) => text(v.as_str()),
        Expr::Noise { complement, seed_offset } => {
            let mut out = String::new();
            push_indent(&mut out, indent);
            push_str(&mut out, "Noise(seed: ");
            push_str(&mut out, seed_offset.as_str());
            push_str(&mut out, ")");
            push_str(&mut out, if *complement { "!" } else { "" });
            proof {
                assert(Seq::<char>::empty() + indent_prefix(indent as nat) =~= indent_prefix(indent as nat));
            }
            out
        },
        Expr::NoiseByName { name, complement } => {
            let mut out = String::new();
            push_indent(&mut out, indent);
            push_str(&mut out, "NoiseByName(");
            push_str(&mut out, name.as_str());
            push_str(&mut out, ")");
            push_str(&mut out, if *complement { "!" } else { "" });
            proof {
                assert(Seq::<char>::empty() + indent_prefix(indent as nat) =~= indent_prefix(indent as nat));
            }
            out
        },
        Expr::Variable { name } => prefixed("$", name.as_str()),
        Expr::Add { left, right } =>
            infix_text(format_expr_compact(left).as_str(), " + ", format_expr_compact(right).as_str()),
        Expr::Subtract { left, right } =>
            infix_text(format_expr_compact(left).as_str(), " - ", format_expr_compact(right).as_str()),
        Expr::Multiply { left, right } =>
            infix_text(format_expr_compact(left).as_str(), " * ", format_expr_compact(right).as_str()),
        Expr::Divide { left, right } =>
            infix_text(format_expr_compact(left).as_str(), " / ", format_expr_compact(right).as_str()),
        Expr::MultiplyOpo { value } => wrapped("*opo(", format_expr_compact(value).as_str(), ")"),
        Expr::Min { values } => wrapped("min(", format_list(values).as_str(), ")"),
        Expr::Max { values } => wrapped("max(", format_list(values).as_str(), ")"),
        Expr::Average { values } => wrapped("avg(", format_list(values).as_str(), ")"),
        Expr::Abs { value } => wrapped("abs(", format_expr_compact(value).as_str(), ")"),
        Expr::MultiplyNormalized { left, right } =>
            call2_text("*nm", format_expr_compact(left).as_str(), format_expr_compact(right).as_str()),
        Expr::MultiplyNormalizedAbs { left, right } =>
            call2_text("*nmabs", format_expr_compact(left).as_str(), format_expr_compact(right).as_str()),
        Expr::IndexMax { values } => wrapped("idxmax(", format_list(values).as_str(), ")"),
        Expr::IndexNorm { value, multiplier } =>
            call2_text("idxnorm", format_expr_compact(value).as_str(), format_expr_compact(multiplier).as_str()),
        Expr::Linear { values } => wrapped("lin(", format_list(values).as_str(), ")"),
        Expr::Clamp { value, min, max } => {
            let mut out = wrapped("clamp(", format_expr_compact(value).as_str(), ", ");
            push_str(&mut out, format_expr_compact(min).as_str());
            push_str(&mut out, ", ");
            push_str(&mut out, format_expr_compact(max).as_str());
            push_str(&mut out, ")");
            out
        },
        Expr::Complement { value } => prefixed("!", format_expr_compact(value).as_str()),
        Expr::HashPos { seed } => prefixed("hp", seed.as_str()),
        Expr::PoissonDisk { min_dist, seed } => {
            let mut out = wrapped("pd", min_dist.as_str(), "_");
            push_str(&mut out, seed.as_str());
            out
        },
    }
}

/// The compact form of `e` (see `compact_text`).
pub fn format_expr_compact(e: &Expr) -> (res: String)
    ensures
        res@ == compact_text(*e),
    decreases *e, 1nat,
{
    match e {
        Expr::Literal(v) => text(v.as_str()),
        Expr::Noise { complement, .. } => if *complement { text("!noise") } else { text("noise") },
        Expr::NoiseByName { name, complement } => prefixed(if *complement { "!" } else { "" }, name.as_str()),
        Expr::Variable { name } => prefixed("$", name.as_str()),
        Expr::Add { left, right } =>
            infix_text(format_expr_compact(left).as_str(), " + ", format_expr_compact(right).as_str()),
        Expr::Subtract { left, right } =>
            infix_text(format_expr_compact(left).as_str(), " - ", format_expr_compact(right).as_str()),
        Expr::Multiply { left, right } =>
            infix_text(format_expr_compact(left).as_str(), " * ", format_expr_compact(right).as_str()),
        Expr::Divide { left, right } =>
            infix_text(format_expr_compact(left).as_str(), " / ", format_expr_compact(right).as_str()),
        Expr::Min { values } => wrapped("min(", format_list(values).as_str(), ")"),
        Expr::Max { values } => wrapped("max(", format_list(values).as_str(), ")"),
        Expr::IndexMax { values } => wrapped("idxmax(", format_list(values).as_str(), ")"),
        Expr::Linear { values } => wrapped("lin(", format_list(values).as_str(), ")"),
        _ => format_expr(e, 0),
    }
}

} // verus!
