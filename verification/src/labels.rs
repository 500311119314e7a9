//! The short texts that the debug windows show for tiles, macrochunks,
//! beings and other entities.
use vstd::prelude::*;
use vstd::string::StrSliceExecFns;
use vstd::string::StringExecFns;
use crate::nav_text::{int_text, int_to_text};

verus! {

/// White space as `char::is_whitespace` (and so `str::trim`) knows it: the
/// characters with the Unicode `White_Space` property.
pub open spec fn is_white_space(c: char) -> bool {
    ('\u{9}' <= c && c <= '\u{d}') || c == ' ' || c == '\u{85}' || c == '\u{a0}' || c == '\u{1680}'
        || ('\u{2000}' <= c && c <= '\u{200a}') || c == '\u{2028}' || c == '\u{2029}' || c == '\u{202f}'
        || c == '\u{205f}' || c == '\u{3000}'
}

/// `s` without its leading white space.
pub open spec fn trim_start_spec(s: Seq<char>) -> Seq<char>
    decreases s.len(),
{
    if s.len() > 0 && is_white_space(s[0]) { trim_start_spec(s.drop_first()) } else { s }
}

/// `s` without its trailing white space.
pub open spec fn trim_end_spec(s: Seq<char>) -> Seq<char>
    decreases s.len(),
{
    if s.len() > 0 && is_white_space(s.last()) { trim_end_spec(s.drop_last()) } else { s }
}

/// What `str::trim` leaves of a text: the text without its leading and
/// trailing white space.
pub open spec fn trimmed(s: Seq<char>) -> Seq<char> {
    trim_end_spec(trim_start_spec(s))
}

/// `String::push`: appends one character.
#[verifier::external_body]
pub(crate) fn push_char(s: &mut String, c: char)
    ensures
        final(s)@ == old(s)@.push(c),
{
    s.push(c)
}

/// Appends a text.
pub(crate) fn push_str(s: &mut String, t: &str)
    ensures
        final(s)@ == old(s)@ + t@,
{
    s.append(t)
}

/// Whether `c` is white space (see `is_white_space`).
fn is_white_space_char(c: char) -> (res: bool)
    ensures
        res == is_white_space(c),
{
    ('\u{9}' <= c && c <= '\u{d}') || c == ' ' || c == '\u{85}' || c == '\u{a0}' || c == '\u{1680}'
        || ('\u{2000}' <= c && c <= '\u{200a}') || c == '\u{2028}' || c == '\u{2029}' || c == '\u{202f}'
        || c == '\u{205f}' || c == '\u{3000}'
}

/// The text `s` without its leading and trailing white space (what
/// `str::trim` gives), copied into a `String`.
fn trim_to_string(s: &str) -> (res: String)
    ensures
        res@ == trimmed(s@),
{
    let n = s.unicode_len();
    let mut i: usize = 0;
    proof {
        assert(s@.skip(0) =~= s@);
    }
    while i < n && is_white_space_char(s.get_char(i))
        invariant
            i <= n,
            n == s@.len(),
            trim_start_spec(s@) == trim_start_spec(s@.skip(i as int)),
        decreases n - i,
    {
        proof {
            assert(s@.skip(i as int).drop_first() =~= s@.skip(i + 1));
        }
        i = i + 1;
    }
    let ghost start = s@.skip(i as int);
    proof {
        assert(trim_start_spec(start) == start) by {
            if start.len() > 0 {
                assert(start[0] == s@[i as int]);
            }
        }
    }
    let mut j: usize = n;
    proof {
        assert(start.take((j - i) as int) =~= start);
    }
    while j > i && is_white_space_char(s.get_char(j - 1))
        invariant
            i <= j <= n,
            n == s@.len(),
            start == s@.skip(i as int),
            trim_end_spec(start) == trim_end_spec(start.take((j - i) as int)),
        decreases j,
    {
        proof {
            let t = start.take((j - i) as int);
            assert(t.last() == s@[j - 1]);
            assert(t.drop_last() =~= start.take((j - 1 - i) as int));
        }
        j = j - 1;
    }
    let ghost kept = start.take((j - i) as int);
    proof {
        assert(trim_end_spec(kept) == kept) by {
            if kept.len() > 0 {
                assert(kept.last() == s@[j - 1]);
            }
        }
        assert(kept =~= s@.subrange(i as int, j as int));
    }
    let mut out = String::new();
    let mut k: usize = i;
    while k < j
        invariant
            i <= k <= j <= n,
            n == s@.len(),
            out@ == s@.subrange(i as int, k as int),
        decreases j - k,
    {
        let c = s.get_char(k);
        push_char(&mut out, c);
        proof {
            assert(s@.subrange(i as int, k + 1) =~= s@.subrange(i as int, k as int).push(c));
        }
        k = k + 1;
    }
    out
}

/// A letter of the English alphabet or a decimal digit.
pub open spec fn is_ascii_alnum(c: char) -> bool {
    ('0' <= c <= '9') || ('A' <= c <= 'Z') || ('a' <= c <= 'z')
}

/// `c` with a lowercase English letter made uppercase.
pub open spec fn ascii_upper(c: char) -> char {
    if 'a' <= c <= 'z' { ((c as u32) - 32) as char } else { c }
}

/// Whether `c` is a letter of the English alphabet or a decimal digit (as
/// `char::is_ascii_alphanumeric` says).
pub fn is_ascii_alphanumeric(c: char) -> (res: bool)
    ensures
        res == is_ascii_alnum(c),
{
    ('0' <= c && c <= '9') || ('A' <= c && c <= 'Z') || ('a' <= c && c <= 'z')
}

/// `c` with a lowercase English letter made uppercase (as
/// `char::to_ascii_uppercase` does).
pub fn to_ascii_uppercase(c: char) -> (res: char)
    ensures
        res == ascii_upper(c),
{
    if 'a' <= c && c <= 'z' {
        let b: u8 = (c as u32 - 32) as u8;
        b as char
    } else {
        c
    }
}

/// The characters of `s` from position `from` on, appended to `out`.
fn push_chars_from(out: &mut String, s: &str, from: usize)
    requires
        from <= s@.len(),
    ensures
        final(out)@ == old(out)@ + s@.skip(from as int),
{
    let n = s.unicode_len();
    let mut i: usize = from;
    while i < n
        invariant
            from <= i <= n,
            n == s@.len(),
            out@ == old(out)@ + s@.subrange(from as int, i as int),
        decreases n - i,
    {
        let c = s.get_char(i);
        push_char(out, c);
        proof {
            assert(s@.subrange(from as int, i + 1) == s@.subrange(from as int, i as int).push(c));
        }
        i = i + 1;
    }
    proof {
        assert(s@.subrange(from as int, n as int) == s@.skip(from as int));
    }
}

/// A copy of `s`.
fn copy_str(s: &str) -> (res: String)
    ensures
        res@ == s@,
{
    let mut out = String::new();
    push_chars_from(&mut out, s, 0);
    proof {
        assert(s@.skip(0) == s@);
    }
    out
}

/// Two dots: the label of something without a name.
pub open spec fn two_dots() -> Seq<char> {
    seq!['.', '.']
}

/// The label of a tile in the chunk grids: the first and the last character
/// of its string id.
pub open spec fn short_tile_label_spec(str_id: Seq<char>) -> Seq<char> {
    if str_id.len() == 0 { two_dots() } else { seq![str_id[0], str_id.last()] }
}

/// The label of a tile in the chunk grids (see `short_tile_label_spec`).
pub fn short_tile_label(str_id: &str) -> (res: String)
    ensures
        res@ == short_tile_label_spec(str_id@),
{
    let n = str_id.unicode_len();
    let mut out = String::new();
    if n == 0 {
        push_char(&mut out, '.');
        push_char(&mut out, '.');
    } else {
        push_char(&mut out, str_id.get_char(0));
        push_char(&mut out, str_id.get_char(n - 1));
    }
    out
}

/// The label of a macrochunk in the macrochunk grid, from the label of its
/// dominant biome: its first two letters or digits, made uppercase; a
/// single one is doubled.
pub open spec fn short_macrochunk_label_spec(label: Seq<char>) -> Seq<char> {
    let alnum = label.filter(|c: char| is_ascii_alnum(c));
    if alnum.len() == 0 {
        two_dots()
    } else {
        seq![ascii_upper(alnum[0]), ascii_upper(if alnum.len() > 1 { alnum[1] } else { alnum[0] })]
    }
}

/// The label of a macrochunk in the macrochunk grid (see
/// `short_macrochunk_label_spec`).
pub fn short_macrochunk_label(label: &str) -> (res: String)
    ensures
        res@ == short_macrochunk_label_spec(label@),
{
    let ghost pred = |c: char| is_ascii_alnum(c);
    let n = label.unicode_len();
    let mut first: Option<char> = None;
    let mut second: Option<char> = None;
    let mut i: usize = 0;
    while i < n && second.is_none()
        invariant
            i <= n,
            n == label@.len(),
            pred == (|c: char| is_ascii_alnum(c)),
            ({
                let f = label@.take(i as int).filter(pred);
                &&& f.len() == 0 ==> first is None && second is None
                &&& f.len() == 1 ==> first == Some(f[0]) && second is None
                &&& f.len() >= 2 ==> first == Some(f[0]) && second == Some(f[1])
            }),
        decreases n - i,
    {
        let c = label.get_char(i);
        proof {
            reveal(Seq::filter);
            assert(label@.take(i + 1).drop_last() == label@.take(i as int));
            assert(label@.take(i + 1).last() == c);
            let f = label@.take(i as int).filter(pred);
            let g = label@.take(i + 1).filter(pred);
            if pred(c) {
                assert(g == f.push(c));
            } else {
                assert(g == f);
            }
        }
        if is_ascii_alphanumeric(c) {
            if first.is_none() {
                first = Some(c);
            } else {
                second = Some(c);
            }
        }
        i = i + 1;
    }
    proof {
        let f = label@.take(i as int).filter(pred);
        let all = label@.filter(pred);
        if i == n {
            assert(label@.take(n as int) == label@);
        } else {
            // two letters or digits were found before the end; later ones come after them
            assert(label@ == label@.take(i as int) + label@.skip(i as int));
            Seq::filter_distributes_over_add(label@.take(i as int), label@.skip(i as int), pred);
            assert(all == f + label@.skip(i as int).filter(pred));
            assert(all[0] == f[0] && all[1] == f[1]);
        }
    }
    let mut out = String::new();
    match first {
        None => {
            push_char(&mut out, '.');
            push_char(&mut out, '.');
        },
        Some(a) => {
            push_char(&mut out, to_ascii_uppercase(a));
            match second {
                Some(b) => push_char(&mut out, to_ascii_uppercase(b)),
                None => push_char(&mut out, to_ascii_uppercase(a)),
            }
        },
    }
    out
}

/// The label of an entity in the being and faction inspectors: its display
/// name, else its string id, followed by the entity in brackets; just the
/// entity when it has neither (an empty one counts as missing).
pub open spec fn entity_label_spec(entity: Seq<char>, display_name: Option<Seq<char>>, str_id: Option<Seq<char>>) -> Seq<char> {
    if display_name is Some && display_name->0.len() > 0 {
        display_name->0 + " ("@ + entity + ")"@
    } else if str_id is Some && str_id->0.len() > 0 {
        str_id->0 + " ("@ + entity + ")"@
    } else {
        entity
    }
}

/// The label of an entity in the being and faction inspectors (see
/// `entity_label_spec`); `entity` is how the entity prints.
pub fn entity_label(entity: &str, display_name: Option<&str>, str_id: Option<&str>) -> (res: String)
    ensures
        res@ == entity_label_spec(
            entity@,
            match display_name { Some(d) => Some(d@), None => None },
            match str_id { Some(s) => Some(s@), None => None },
        ),
{
    let name: Option<&str> = match display_name {
        Some(d) => if d.unicode_len() > 0 { Some(d) } else { None },
        None => None,
    };
    let name = match name {
        Some(d) => Some(d),
        None => match str_id {
            Some(s) => if s.unicode_len() > 0 { Some(s) } else { None },
            None => None,
        },
    };
    match name {
        Some(n) => {
            let mut out = copy_str(n);
            push_str(&mut out, " (");
            push_str(&mut out, entity);
            push_str(&mut out, ")");
            out
        },
        None => copy_str(entity),
    }
}

/// The label of a being in the navigation log: its display name, else its
/// string id, else the entity; marked when the being is gone.
pub open spec fn nav_being_label_spec(entity: Seq<char>, display_name: Option<Seq<char>>, str_id: Option<Seq<char>>, exists: bool) -> Seq<char> {
    let base = if display_name is Some { display_name->0 } else if str_id is Some { str_id->0 } else { entity };
    if exists { base } else { base + " (missing)"@ }
}

/// A being's label in the navigation log is its display name when it has
/// one, whatever its string id; else its string id; else how the entity
/// prints.  A being that is gone gets " (missing)" after that, one that
/// exists nothing.
pub proof fn lemma_nav_label_prefers_display_name(
    entity: Seq<char>,
    display_name: Option<Seq<char>>,
    str_id: Option<Seq<char>>,
)
    ensures
        forall|d: Seq<char>| display_name == Some(d) ==> nav_being_label_spec(entity, display_name, str_id, true) == d,
        forall|s: Seq<char>| display_name is None && str_id == Some(s)
            ==> nav_being_label_spec(entity, display_name, str_id, true) == s,
        display_name is None && str_id is None ==> nav_being_label_spec(entity, display_name, str_id, true) == entity,
        nav_being_label_spec(entity, display_name, str_id, false)
            == nav_being_label_spec(entity, display_name, str_id, true) + " (missing)"@,
{
}

/// An entity's label in the inspectors starts with its display name when
/// it has a non-empty one, else with its non-empty string id, and always
/// ends with the entity in brackets; with neither it is the entity alone.
pub proof fn lemma_entity_label_prefers_display_name(
    entity: Seq<char>,
    display_name: Option<Seq<char>>,
    str_id: Option<Seq<char>>,
)
    ensures
        forall|d: Seq<char>| display_name == Some(d) && d.len() > 0
            ==> entity_label_spec(entity, display_name, str_id) == d + " ("@ + entity + ")"@,
        forall|s: Seq<char>| (display_name is None || display_name->0.len() == 0) && str_id == Some(s) && s.len() > 0
            ==> entity_label_spec(entity, display_name, str_id) == s + " ("@ + entity + ")"@,
        (display_name is None || display_name->0.len() == 0) && (str_id is None || str_id->0.len() == 0)
            ==> entity_label_spec(entity, display_name, str_id) == entity,
{
}

/// The label of a being in the navigation log (see `nav_being_label_spec`).
pub fn nav_being_label(entity: &str, display_name: Option<&str>, str_id: Option<&str>, exists: bool) -> (res: String)
    ensures
        res@ == nav_being_label_spec(
            entity@,
            match display_name { Some(d) => Some(d@), None => None },
            match str_id { Some(s) => Some(s@), None => None },
            exists,
        ),
{
    let base = match display_name {
        Some(d) => d,
        None => match str_id {
            Some(s) => s,
            None => entity,
        },
    };
    let mut out = copy_str(base);
    if !exists {
        push_str(&mut out, " (missing)");
    }
    out
}

/// `s` starts with `prefix`.
pub open spec fn starts_with(s: Seq<char>, prefix: Seq<char>) -> bool {
    s.len() >= prefix.len() && s.take(prefix.len() as int) == prefix
}

/// The word "Being " that generated being names start with.
pub open spec fn being_word_upper() -> Seq<char> {
    seq!['B', 'e', 'i', 'n', 'g', ' ']
}

/// The word "being " in lowercase.
pub open spec fn being_word_lower() -> Seq<char> {
    seq!['b', 'e', 'i', 'n', 'g', ' ']
}

/// `s` without a leading "Being " or, failing that, "being ".
pub open spec fn strip_being_word(s: Seq<char>) -> Seq<char> {
    if starts_with(s, being_word_upper()) || starts_with(s, being_word_lower()) { s.skip(6) } else { s }
}

/// The name part of a being's entry in the beings list: its display name,
/// else its name; trimmed, without a leading "Being "/"being ", trimmed
/// again; none when nothing is left.
pub open spec fn being_main_name(display_name: Option<Seq<char>>, name: Option<Seq<char>>) -> Option<Seq<char>> {
    let base = if display_name is Some { display_name } else { name };
    match base {
        None => None,
        Some(b) => {
            let t = trimmed(strip_being_word(trimmed(b)));
            if t.len() == 0 { None } else { Some(t) }
        },
    }
}

/// The separator of the parts of a beings list entry.
pub open spec fn entry_separator() -> Seq<char> {
    seq![' ', '|', ' ']
}

/// A dash: the part of a beings list entry that is unknown.
pub open spec fn dash() -> Seq<char> {
    seq!['-']
}

/// A beings list entry: the being's name part when it has one, then the id
/// of its race and the id of its template (a dash for each that is
/// unknown), separated by " | ".
pub open spec fn being_list_entry_spec(
    display_name: Option<Seq<char>>,
    name: Option<Seq<char>>,
    race_label: Option<Seq<char>>,
    bit_label: Option<Seq<char>>,
) -> Seq<char> {
    let race = if race_label is Some { race_label->0 } else { dash() };
    let bit = if bit_label is Some { bit_label->0 } else { dash() };
    let tail = race + entry_separator() + bit;
    match being_main_name(display_name, name) {
        Some(n) => n + entry_separator() + tail,
        None => tail,
    }
}

/// Whether `s` starts with "Being " or "being ".
fn starts_with_being_word(s: &str) -> (res: bool)
    ensures
        res == (starts_with(s@, being_word_upper()) || starts_with(s@, being_word_lower())),
{
    let n = s.unicode_len();
    if n < 6 {
        return false;
    }
    let c0 = s.get_char(0);
    let res = (c0 == 'B' || c0 == 'b') && s.get_char(1) == 'e' && s.get_char(2) == 'i'
        && s.get_char(3) == 'n' && s.get_char(4) == 'g' && s.get_char(5) == ' ';
    proof {
        let t = s@.take(6);
        if res {
            if c0 == 'B' {
                assert(t =~= being_word_upper());
            } else {
                assert(t =~= being_word_lower());
            }
        } else {
            if starts_with(s@, being_word_upper()) {
                assert(t[0] == being_word_upper()[0] && t[1] == being_word_upper()[1]);
                assert(t[2] == being_word_upper()[2] && t[3] == being_word_upper()[3]);
                assert(t[4] == being_word_upper()[4] && t[5] == being_word_upper()[5]);
            }
            if starts_with(s@, being_word_lower()) {
                assert(t[0] == being_word_lower()[0] && t[1] == being_word_lower()[1]);
                assert(t[2] == being_word_lower()[2] && t[3] == being_word_lower()[3]);
                assert(t[4] == being_word_lower()[4] && t[5] == being_word_lower()[5]);
            }
        }
    }
    res
}

/// The name part of a beings list entry (see `being_main_name`).
fn being_main_name_of(display_name: Option<&str>, name: Option<&str>) -> (res: Option<String>)
    ensures
        match res { Some(r) => Some(r@), None => None::<Seq<char>> } == being_main_name(
            match display_name { Some(d) => Some(d@), None => None },
            match name { Some(n) => Some(n@), None => None },
        ),
{
    let base = match display_name {
        Some(d) => Some(d),
        None => name,
    };
    match base {
        None => None,
        Some(b) => {
            let t1 = trim_to_string(b);
            let stripped = if starts_with_being_word(t1.as_str()) {
                let mut out = String::new();
                push_chars_from(&mut out, t1.as_str(), 6);
                out
            } else {
                copy_str(t1.as_str())
            };
            let t2 = trim_to_string(stripped.as_str());
            if t2.as_str().unicode_len() == 0 { None } else { Some(t2) }
        },
    }
}

/// The entry of a being in the beings list (see `being_list_entry_spec`);
/// `race_label` and `bit_label` are the ids of its race and of its
/// template, when known.
pub fn being_list_entry_label(
    display_name: Option<&str>,
    name: Option<&str>,
    race_label: Option<&str>,
    bit_label: Option<&str>,
) -> (res: String)
    ensures
        res@ == being_list_entry_spec(
            match display_name { Some(d) => Some(d@), None => None },
            match name { Some(n) => Some(n@), None => None },
            match race_label { Some(r) => Some(r@), None => None },
            match bit_label { Some(b) => Some(b@), None => None },
        ),
{
    let main = being_main_name_of(display_name, name);
    let mut out = String::new();
    match &main {
        Some(m) => {
            push_str(&mut out, m.as_str());
            push_str(&mut out, " | ");
        },
        None => {},
    }
    match race_label {
        Some(r) => push_str(&mut out, r),
        None => push_str(&mut out, "-"),
    }
    push_str(&mut out, " | ");
    match bit_label {
        Some(b) => push_str(&mut out, b),
        None => push_str(&mut out, "-"),
    }
    proof {
        reveal_strlit(" | ");
        reveal_strlit("-");
        assert(" | "@ =~= entry_separator());
        assert("-"@ =~= dash());
        assert(out@ =~= being_list_entry_spec(
            match display_name { Some(d) => Some(d@), None => None },
            match name { Some(n) => Some(n@), None => None },
            match race_label { Some(r) => Some(r@), None => None },
            match bit_label { Some(b) => Some(b@), None => None },
        ));
    }
    out
}

/// The label of a referenced entity: its string id, else how the entity
/// prints.
pub open spec fn ref_id_label_spec(str_id: Option<Seq<char>>, entity: Seq<char>) -> Seq<char> {
    match str_id {
        Some(s) => s,
        None => entity,
    }
}

/// The label of a referenced entity (see `ref_id_label_spec`).
pub fn ref_id_label(str_id: Option<&str>, entity: &str) -> (res: String)
    ensures
        res@ == ref_id_label_spec(match str_id { Some(s) => Some(s@), None => None }, entity@),
{
    match str_id {
        Some(s) => copy_str(s),
        None => copy_str(entity),
    }
}

/// The label of a being in the origins list of a macrochunk: the entity,
/// then the label of its template (`bit`) when it has one, else that of its
/// race when it has one.
pub open spec fn origin_being_label_spec(entity: Seq<char>, bit: Option<Seq<char>>, race: Option<Seq<char>>) -> Seq<char> {
    match bit {
        Some(b) => entity + " | bit "@ + b,
        None => match race {
            Some(r) => entity + " | race "@ + r,
            None => entity,
        },
    }
}

/// The label of a being in the origins list of a macrochunk (see
/// `origin_being_label_spec`); `bit` and `race` are the labels of its
/// template and race references (see `ref_id_label`).
pub fn origin_being_label(entity: &str, bit: Option<&str>, race: Option<&str>) -> (res: String)
    ensures
        res@ == origin_being_label_spec(
            entity@,
            match bit { Some(b) => Some(b@), None => None },
            match race { Some(r) => Some(r@), None => None },
        ),
{
    let mut out = copy_str(entity);
    match bit {
        Some(b) => {
            push_str(&mut out, " | bit ");
            push_str(&mut out, b);
        },
        None => match race {
            Some(r) => {
                push_str(&mut out, " | race ");
                push_str(&mut out, r);
            },
            None => {},
        },
    }
    out
}

/// The key of a dimension in the region list: how its reference prints
/// when no entity has it; else its string id (or, failing that, how the
/// reference prints) followed by the entity's index in brackets.
pub open spec fn region_dim_key_spec(dim_ref: Seq<char>, dim_entity_index: Option<u32>, str_id: Option<Seq<char>>) -> Seq<char> {
    match dim_entity_index {
        None => dim_ref,
        Some(i) => (match str_id { Some(s) => s, None => dim_ref }) + " ("@ + int_text(i as int) + ")"@,
    }
}

/// The key of a dimension in the region list (see `region_dim_key_spec`);
/// `dim_ref` is how the dimension reference prints.
pub fn region_dim_key_label(dim_ref: &str, dim_entity_index: Option<u32>, str_id: Option<&str>) -> (res: String)
    ensures
        res@ == region_dim_key_spec(dim_ref@, dim_entity_index, match str_id { Some(s) => Some(s@), None => None }),
{
    match dim_entity_index {
        None => copy_str(dim_ref),
        Some(i) => {
            let mut out = match str_id {
                Some(s) => copy_str(s),
                None => copy_str(dim_ref),
            };
            push_str(&mut out, " (");
            let index = int_to_text(i as i128);
            push_str(&mut out, index.as_str());
            push_str(&mut out, ")");
            out
        },
    }
}

/// The kinds of lines of the being navigation log.
#[derive(PartialEq, Eq, Clone, Debug)]
pub enum NavDebugKind {
    State,
    Decision,
    Repath,
    Path,
    Target,
    Clear,
    Track,
    Info,
    Other(String),
}

/// The name under which a kind of navigation log line is shown: the kind's
/// own name, or the text of another kind.
pub open spec fn nav_kind_label_spec(kind: NavDebugKind) -> Seq<char> {
    match kind {
        NavDebugKind::State => "State"@,
        NavDebugKind::Decision => "Decision"@,
        NavDebugKind::Repath => "Repath"@,
        NavDebugKind::Path => "Path"@,
        NavDebugKind::Target => "Target"@,
        NavDebugKind::Clear => "Clear"@,
        NavDebugKind::Track => "Track"@,
        NavDebugKind::Info => "Info"@,
        NavDebugKind::Other(s) => s@,
    }
}

/// The name under which a kind of navigation log line is shown.
pub fn nav_kind_label(kind: &NavDebugKind) -> (res: String)
    ensures
        res@ == nav_kind_label_spec(*kind),
{
    let mut out = String::new();
    match kind {
        NavDebugKind::State => push_str(&mut out, "State"),
        NavDebugKind::Decision => push_str(&mut out, "Decision"),
        NavDebugKind::Repath => push_str(&mut out, "Repath"),
        NavDebugKind::Path => push_str(&mut out, "Path"),
        NavDebugKind::Target => push_str(&mut out, "Target"),
        NavDebugKind::Clear => push_str(&mut out, "Clear"),
        NavDebugKind::Track => push_str(&mut out, "Track"),
        NavDebugKind::Info => push_str(&mut out, "Info"),
        NavDebugKind::Other(s) => push_str(&mut out, s.as_str()),
    }
    out
}

} // verus!
