//! Texts built from numbers: the fields of a line of the being navigation
//! log, and the lists of tile positions of the region window.
use vstd::prelude::*;
use crate::labels::{push_char, push_str};
use crate::picking::TilePos;
use crate::grid::{reading_order_of, sort_reading_order};

verus! {

/// The decimal digit `d`.
pub open spec fn digit_char(d: nat) -> char {
    (48 + d) as char
}

/// The decimal digits of `n`, most significant first.
pub open spec fn nat_digits(n: nat) -> Seq<char>
    decreases n,
{
    if n < 10 {
        seq![digit_char(n)]
    } else {
        nat_digits(n / 10).push(digit_char(n % 10))
    }
}

/// `v` written in decimal, with a minus sign when negative.
pub open spec fn int_text(v: int) -> Seq<char> {
    if v < 0 { seq!['-'] + nat_digits((-v) as nat) } else { nat_digits(v as nat) }
}

/// Appends the decimal digits of `n`, most significant first.
fn push_digits(out: &mut String, n: u128)
    ensures
        final(out)@ == old(out)@ + nat_digits(n as nat),
    decreases n,
{
    if n >= 10 {
        push_digits(out, n / 10);
    }
    let d: u8 = (n % 10) as u8;
    let c: char = (48u8 + d) as char;
    proof {
        assert(c == digit_char((n % 10) as nat));
    }
    push_char(out, c);
    proof {
        if n >= 10 {
            assert(old(out)@ + nat_digits(n as nat) =~= old(out)@ + nat_digits((n / 10) as nat) + seq![c]);
        } else {
            assert(n % 10 == n);
            assert(old(out)@ + nat_digits(n as nat) =~= old(out)@.push(c));
        }
    }
}

/// `v` written in decimal, with a minus sign when negative (what the
/// `Display` of integers prints).
pub(crate) fn int_to_text(v: i128) -> (res: String)
    ensures
        res@ == int_text(v as int),
{
    let mut out = String::new();
    if v < 0 {
        push_char(&mut out, '-');
        let magnitude: u128 = if v == i128::MIN { (i128::MAX as u128) + 1 } else { (-v) as u128 };
        push_digits(&mut out, magnitude);
        proof {
            assert(magnitude as int == -(v as int));
            assert(Seq::<char>::empty().push('-') =~= seq!['-']);
        }
    } else {
        push_digits(&mut out, v as u128);
        proof {
            assert(Seq::<char>::empty() + nat_digits(v as nat) =~= nat_digits(v as nat));
        }
    }
    out
}

/// A value of a line of the being navigation log.  Integers, texts and
/// tile positions are printed here; numbers with decimals, entities,
/// chunks and lists come already printed.
pub enum NavValue {
    Bool(bool),
    I32(i32),
    I64(i64),
    U32(u32),
    U64(u64),
    Text(String),
    GPos(TilePos),
    MaybeGPos(Option<TilePos>),
    MaybeI32(Option<i32>),
    MaybeU32(Option<u32>),
    MaybeText(Option<String>),
    Printed(String),
    MaybePrinted(Option<String>),
}

/// A named value of a line of the being navigation log.
pub struct NavField {
    pub key: String,
    pub value: NavValue,
}

/// A tile position in the navigation log: `[x, y]`.
pub open spec fn bracket_pos_text(p: TilePos) -> Seq<char> {
    "["@ + int_text(p.x as int) + ", "@ + int_text(p.y as int) + "]"@
}

/// What the navigation log prints for a missing value.
pub open spec fn missing_text() -> Seq<char> {
    "missing"@
}

/// How the navigation log prints a value.
pub open spec fn nav_value_text(v: NavValue) -> Seq<char> {
    match v {
        NavValue::Bool(b) => if b { "true"@ } else { "false"@ },
        NavValue::I32(x) => int_text(x as int),
        NavValue::I64(x) => int_text(x as int),
        NavValue::U32(x) => int_text(x as int),
        NavValue::U64(x) => int_text(x as int),
        NavValue::Text(s) => s@,
        NavValue::GPos(p) => bracket_pos_text(p),
        NavValue::MaybeGPos(p) => match p { Some(p) => bracket_pos_text(p), None => missing_text() },
        NavValue::MaybeI32(x) => match x { Some(x) => int_text(x as int), None => missing_text() },
        NavValue::MaybeU32(x) => match x { Some(x) => int_text(x as int), None => missing_text() },
        NavValue::MaybeText(s) => match s { Some(s) => s@, None => missing_text() },
        NavValue::Printed(s) => s@,
        NavValue::MaybePrinted(s) => match s { Some(s) => s@, None => missing_text() },
    }
}

/// `key=value`.
pub open spec fn nav_field_text(f: NavField) -> Seq<char> {
    f.key@ + "="@ + nav_value_text(f.value)
}

/// The fields of a navigation log line, separated by " | ".
pub open spec fn nav_fields_text(fields: Seq<NavField>) -> Seq<char>
    decreases fields.len(),
{
    if fields.len() == 0 {
        Seq::empty()
    } else if fields.len() == 1 {
        nav_field_text(fields[0])
    } else {
        nav_fields_text(fields.drop_last()) + " | "@ + nav_field_text(fields.last())
    }
}

/// Appends `v` written in decimal.
fn push_int(out: &mut String, v: i128)
    ensures
        final(out)@ == old(out)@ + int_text(v as int),
{
    let t = int_to_text(v);
    push_str(out, t.as_str());
}

/// Appends `[x, y]` for the position `p`.
fn push_bracket_pos(out: &mut String, p: TilePos)
    ensures
        final(out)@ == old(out)@ + bracket_pos_text(p),
{
    push_str(out, "[");
    push_int(out, p.x as i128);
    push_str(out, ", ");
    push_int(out, p.y as i128);
    push_str(out, "]");
}

/// Appends how the navigation log prints `v` (see `nav_value_text`).
fn push_nav_value(out: &mut String, v: &NavValue)
    ensures
        final(out)@ == old(out)@ + nav_value_text(*v),
{
    match v {
        NavValue::Bool(b) => push_str(out, if *b { "true" } else { "false" }),
        NavValue::I32(x) => push_int(out, *x as i128),
        NavValue::I64(x) => push_int(out, *x as i128),
        NavValue::U32(x) => push_int(out, *x as i128),
        NavValue::U64(x) => push_int(out, *x as i128),
        NavValue::Text(s) => push_str(out, s.as_str()),
        NavValue::GPos(p) => push_bracket_pos(out, *p),
        NavValue::MaybeGPos(p) => match p {
            Some(p) => push_bracket_pos(out, *p),
            None => push_str(out, "missing"),
        },
        NavValue::MaybeI32(x) => match x {
            Some(x) => push_int(out, *x as i128),
            None => push_str(out, "missing"),
        },
        NavValue::MaybeU32(x) => match x {
            Some(x) => push_int(out, *x as i128),
            None => push_str(out, "missing"),
        },
        NavValue::MaybeText(s) => match s {
            Some(s) => push_str(out, s.as_str()),
            None => push_str(out, "missing"),
        },
        NavValue::Printed(s) => push_str(out, s.as_str()),
        NavValue::MaybePrinted(s) => match s {
            Some(s) => push_str(out, s.as_str()),
            None => push_str(out, "missing"),
        },
    }
}

/// How the navigation log prints `v` (see `nav_value_text`).
pub fn format_nav_value(v: &NavValue) -> (res: String)
    ensures
        res@ == nav_value_text(*v),
{
    let mut out = String::new();
    push_nav_value(&mut out, v);
    proof {
        assert(Seq::<char>::empty() + nav_value_text(*v) =~= nav_value_text(*v));
    }
    out
}

/// The fields of a navigation log line, as `key=value` separated by " | "
/// (see `nav_fields_text`).
pub fn format_nav_fields(fields: &Vec<NavField>) -> (res: String)
    ensures
        res@ == nav_fields_text(fields@),
{
    let mut row = String::new();
    let mut i: usize = 0;
    while i < fields.len()
        invariant
            i <= fields.len(),
            row@ == nav_fields_text(fields@.take(i as int)),
        decreases fields.len() - i,
    {
        let ghost before = row@;
        if i > 0 {
            push_str(&mut row, " | ");
        }
        push_str(&mut row, fields[i].key.as_str());
        push_char(&mut row, '=');
        push_nav_value(&mut row, &fields[i].value);
        proof {
            let next = fields@.take(i + 1);
            assert(next.drop_last() =~= fields@.take(i as int));
            assert(next.last() == fields@[i as int]);
            assert(seq!['='] == "="@) by {
                reveal_strlit("=");
            }
            if i == 0 {
                assert(next.len() == 1);
                assert(next[0] == fields@[0]);
                assert(before == Seq::<char>::empty());
                assert(row@ =~= nav_field_text(fields@[0]));
            } else {
                assert(row@ =~= before + " | "@ + nav_field_text(fields@[i as int]));
            }
        }
        i = i + 1;
    }
    proof {
        assert(fields@.take(fields.len() as int) =~= fields@);
    }
    row
}

/// A tile position in the region window: `(x,y)`.
pub open spec fn paren_pos_text(p: TilePos) -> Seq<char> {
    "("@ + int_text(p.x as int) + ","@ + int_text(p.y as int) + ")"@
}

/// The positions of `ps`, each as `(x,y)`, separated by ", ".
pub open spec fn pos_list_text(ps: Seq<TilePos>) -> Seq<char>
    decreases ps.len(),
{
    if ps.len() == 0 {
        Seq::empty()
    } else if ps.len() == 1 {
        paren_pos_text(ps[0])
    } else {
        pos_list_text(ps.drop_last()) + ", "@ + paren_pos_text(ps.last())
    }
}

/// The positions of `ps` as the region window lists them (see
/// `pos_list_text`), in the order given.
fn format_pos_list(ps: &Vec<TilePos>) -> (res: String)
    ensures
        res@ == pos_list_text(ps@),
{
    let mut out = String::new();
    let mut i: usize = 0;
    while i < ps.len()
        invariant
            i <= ps.len(),
            out@ == pos_list_text(ps@.take(i as int)),
        decreases ps.len() - i,
    {
        let ghost before = out@;
        if i > 0 {
            push_str(&mut out, ", ");
        }
        push_str(&mut out, "(");
        push_int(&mut out, ps[i].x as i128);
        push_str(&mut out, ",");
        push_int(&mut out, ps[i].y as i128);
        push_str(&mut out, ")");
        proof {
            let next = ps@.take(i + 1);
            assert(next.drop_last() =~= ps@.take(i as int));
            assert(next.last() == ps@[i as int]);
            if i == 0 {
                assert(next.len() == 1);
                assert(next[0] == ps@[0]);
                assert(before == Seq::<char>::empty());
                assert(out@ =~= paren_pos_text(ps@[0]));
            } else {
                assert(out@ =~= before + ", "@ + paren_pos_text(ps@[i as int]));
            }
        }
        i = i + 1;
    }
    proof {
        assert(ps@.take(ps.len() as int) =~= ps@);
    }
    out
}

/// The summary of a set of tiles (or chunks) in the region window: "none"
/// when there is none, else the positions in reading order (by row, then
/// by column), each as `(x,y)`, separated by ", ".
pub fn summarize_positions(points: &Vec<TilePos>) -> (res: String)
    ensures
        points@.len() == 0 ==> res@ == "none"@,
        points@.len() > 0 ==> res@ == pos_list_text(reading_order_of(points@)),
{
    if points.len() == 0 {
        let mut out = String::new();
        push_str(&mut out, "none");
        proof {
            assert(Seq::<char>::empty() + "none"@ =~= "none"@);
        }
        return out;
    }
    let sorted = sort_reading_order(points);
    let out = format_pos_list(&sorted);
    out
}

/// The summary of a set of positions does not depend on the order in which
/// the positions come.
pub proof fn lemma_summary_ignores_order(a: Seq<TilePos>, b: Seq<TilePos>)
    requires
        a.to_multiset() == b.to_multiset(),
    ensures
        pos_list_text(reading_order_of(a)) == pos_list_text(reading_order_of(b)),
{
}

} // verus!
