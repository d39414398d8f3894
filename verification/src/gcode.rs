//! Post-processing of a G-code produced by the engine: print statistics and
//! embedded thumbnails read from the header comments OrcaSlicer writes, the
//! `1d 2h 3m 4s` duration format, and the table of extrusion roles used by
//! the layer preview.

use vstd::prelude::*;

use crate::text::{
    chars_of, copy_range, eq_lit, find_char, find_first, lemma_find_first_bounds, lines, lines_of,
    lower, lower_all, lowercase, non_empty, parse_u64_max, parse_uint, split_ws_pieces, starts_with_lit,
    string_of, strip_lit, strip_prefix, tokens, trim, trim_start, trimmed, trimmed_start, ws_tokens,
};

verus! {

// --- Durations ---------------------------------------------------------------

/// Seconds per unit letter of an Orca duration.
pub open spec fn unit_factor(c: char) -> Option<nat> {
    if c == 'd' {
        Some(86400)
    } else if c == 'h' {
        Some(3600)
    } else if c == 'm' {
        Some(60)
    } else if c == 's' {
        Some(1)
    } else {
        None
    }
}

/// Seconds denoted by one token such as `2h` (`None` if malformed).
pub open spec fn token_seconds(t: Seq<char>) -> Option<int> {
    match unit_factor(t.last()) {
        None => None,
        Some(f) => match parse_uint(t.drop_last(), u64::MAX as nat) {
            None => None,
            Some(n) => Some((n * f) as int),
        },
    }
}

/// Sum of the tokens' seconds, `None` as soon as one token is malformed.
pub open spec fn dhms_total(ts: Seq<Seq<char>>) -> Option<int>
    decreases ts.len(),
{
    if ts.len() == 0 {
        Some(0)
    } else {
        match dhms_total(ts.drop_last()) {
            None => None,
            Some(t) => match token_seconds(ts.last()) {
                None => None,
                Some(x) => Some(t + x),
            },
        }
    }
}

/// The duration can be computed: every token examined (up to the first
/// malformed one) ends in a one-byte character, and every partial sum fits
/// in a `u64`.
pub open spec fn dhms_defined(ts: Seq<Seq<char>>) -> bool
    decreases ts.len(),
{
    ts.len() == 0 || (dhms_defined(ts.drop_last()) && (dhms_total(ts.drop_last()) is Some ==> {
        &&& (ts.last().last() as u32) < 128
        &&& (token_seconds(ts.last()) matches Some(x) ==> dhms_total(ts.drop_last()).unwrap() + x
            <= u64::MAX)
    }))
}

/// Seconds of an Orca duration (`1d 2h 3m 4s`, `2h 30m`, `45s`); `None` for
/// an empty text or a malformed token.
pub open spec fn spec_parse_dhms(text: Seq<char>) -> Option<u64> {
    let ts = ws_tokens(text);
    if ts.len() == 0 {
        None
    } else {
        match dhms_total(ts) {
            Some(t) => Some(t as u64),
            None => None,
        }
    }
}

/// `spec_parse_dhms`, or `None` where the duration cannot be computed.
pub open spec fn dhms_outcome(text: Seq<char>) -> Option<Option<u64>> {
    if dhms_defined(ws_tokens(text)) {
        Some(spec_parse_dhms(text))
    } else {
        None
    }
}

pub proof fn lemma_tokens_non_empty(p: Seq<Seq<char>>)
    ensures
        forall|i: int| 0 <= i < non_empty(p).len() ==> #[trigger] non_empty(p)[i].len() > 0,
    decreases p.len(),
{
    if p.len() > 0 {
        lemma_tokens_non_empty(p.drop_last());
        let q = non_empty(p.drop_last());
        if p.last().len() > 0 {
            assert forall|i: int| 0 <= i < non_empty(p).len() implies #[trigger] non_empty(p)[i].len() > 0 by {
                if i < q.len() {
                    assert(non_empty(p)[i] == q[i]);
                }
            }
        }
    }
}

proof fn lemma_dhms_take(ts: Seq<Seq<char>>, k: int)
    requires
        0 <= k <= ts.len(),
        dhms_defined(ts),
    ensures
        dhms_defined(ts.take(k)),
    decreases ts.len(),
{
    if k == ts.len() {
        assert(ts.take(k) =~= ts);
    } else {
        assert(ts.drop_last().take(k) =~= ts.take(k));
        lemma_dhms_take(ts.drop_last(), k);
    }
}

proof fn lemma_dhms_total_none_extends(ts: Seq<Seq<char>>, k: int)
    requires
        0 <= k <= ts.len(),
        dhms_total(ts.take(k)) is None,
    ensures
        dhms_total(ts) is None,
    decreases ts.len(),
{
    if k == ts.len() {
        assert(ts.take(k) =~= ts);
    } else {
        assert(ts.drop_last().take(k) =~= ts.take(k));
        lemma_dhms_total_none_extends(ts.drop_last(), k);
    }
}

/// Seconds of an Orca duration such as `1d 1h 1m 1s` (90061) or `2h 30m`
/// (9000); `None` for an empty text or any malformed token.
pub fn parse_dhms(text: &str) -> (r: Option<u64>)
    requires
        dhms_defined(ws_tokens(text@)),
    ensures
        r == spec_parse_dhms(text@),
{
    let v = chars_of(text);
    dhms_chars(&v)
}

/// `parse_dhms` on a character vector.
pub fn dhms_chars(text: &Vec<char>) -> (r: Option<u64>)
    requires
        dhms_defined(ws_tokens(text@)),
    ensures
        r == spec_parse_dhms(text@),
{
    let ts = tokens(text);
    let ghost tv = ts.deep_view();
    proof {
        lemma_tokens_non_empty(split_ws_pieces(text@));
    }
    if ts.len() == 0 {
        return None;
    }
    let mut total: u64 = 0;
    let mut i: usize = 0;
    while i < ts.len()
        invariant
            tv == ts.deep_view(),
            tv == ws_tokens(text@),
            dhms_defined(tv),
            forall|k: int| 0 <= k < tv.len() ==> #[trigger] tv[k].len() > 0,
            i <= ts.len(),
            dhms_total(tv.take(i as int)) == Some(total as int),
        decreases ts.len() - i,
    {
        let t = &ts[i];
        assert(t.deep_view() =~= t@);
        assert(tv[i as int] == t@);
        let ghost tk = tv.take(i + 1);
        assert(tk.drop_last() =~= tv.take(i as int));
        assert(tk.last() == t@);
        proof {
            lemma_dhms_take(tv, i + 1);
        }
        let unit = t[t.len() - 1];
        let factor: u64 = if unit == 'd' {
            86400
        } else if unit == 'h' {
            3600
        } else if unit == 'm' {
            60
        } else if unit == 's' {
            1
        } else {
            proof {
                lemma_dhms_total_none_extends(tv, i + 1);
            }
            return None;
        };
        let num = copy_range(t, 0, t.len() - 1);
        assert(num@ =~= t@.drop_last());
        let n = match parse_u64_max(&num, u64::MAX) {
            Some(n) => n,
            None => {
                proof {
                    lemma_dhms_total_none_extends(tv, i + 1);
                }
                return None;
            },
        };
        assert(token_seconds(t@) == Some((n as int) * (factor as int)));
        assert((total as int) + (n as int) * (factor as int) <= u64::MAX);
        assert((n as int) * (factor as int) <= u64::MAX);
        total = total + n * factor;
        i = i + 1;
    }
    assert(tv.take(ts.len() as int) =~= tv);
    Some(total)
}

proof fn lemma_dhms_defined_after_none(ts: Seq<Seq<char>>, k: int)
    requires
        0 <= k <= ts.len(),
        dhms_defined(ts.take(k)),
        dhms_total(ts.take(k)) is None,
    ensures
        dhms_defined(ts),
    decreases ts.len(),
{
    if k == ts.len() {
        assert(ts.take(k) =~= ts);
    } else {
        assert(ts.drop_last().take(k) =~= ts.take(k));
        lemma_dhms_defined_after_none(ts.drop_last(), k);
        lemma_dhms_total_none_extends(ts.drop_last(), k);
    }
}

/// Whether [`parse_dhms`] can compute the duration of `text`.
pub fn is_dhms_readable(text: &str) -> (r: bool)
    ensures
        r == dhms_defined(ws_tokens(text@)),
{
    let v = chars_of(text);
    dhms_checked(&v).is_some()
}

/// `dhms_outcome` computed: `None` where the duration cannot be computed
/// (a multi-byte last character or a sum beyond `u64`), otherwise the
/// duration in seconds, if any.
pub fn dhms_checked(text: &Vec<char>) -> (r: Option<Option<u64>>)
    ensures
        r == dhms_outcome(text@),
{
    let ts = tokens(text);
    let ghost tv = ts.deep_view();
    proof {
        lemma_tokens_non_empty(split_ws_pieces(text@));
    }
    if ts.len() == 0 {
        return Some(None);
    }
    let mut total: u64 = 0;
    let mut i: usize = 0;
    assert(tv.take(0) =~= Seq::<Seq<char>>::empty());
    while i < ts.len()
        invariant
            tv == ts.deep_view(),
            tv == ws_tokens(text@),
            tv.len() > 0,
            forall|k: int| 0 <= k < tv.len() ==> #[trigger] tv[k].len() > 0,
            i <= ts.len(),
            dhms_defined(tv.take(i as int)),
            dhms_total(tv.take(i as int)) == Some(total as int),
        decreases ts.len() - i,
    {
        let t = &ts[i];
        assert(t.deep_view() =~= t@);
        assert(tv[i as int] == t@);
        let ghost tk = tv.take(i + 1);
        assert(tk.drop_last() =~= tv.take(i as int));
        assert(tk.last() == t@);
        let unit = t[t.len() - 1];
        if unit as u32 >= 128 {
            proof {
                if dhms_defined(tv) {
                    lemma_dhms_take(tv, i + 1);
                }
            }
            return None;
        }
        let factor: u64 = if unit == 'd' {
            86400
        } else if unit == 'h' {
            3600
        } else if unit == 'm' {
            60
        } else if unit == 's' {
            1
        } else {
            proof {
                lemma_dhms_defined_after_none(tv, i + 1);
                lemma_dhms_total_none_extends(tv, i + 1);
            }
            return Some(None);
        };
        let num = copy_range(t, 0, t.len() - 1);
        assert(num@ =~= t@.drop_last());
        let n = match parse_u64_max(&num, u64::MAX) {
            Some(n) => n,
            None => {
                proof {
                    lemma_dhms_defined_after_none(tv, i + 1);
                    lemma_dhms_total_none_extends(tv, i + 1);
                }
                return Some(None);
            },
        };
        assert(token_seconds(t@) == Some((n as int) * (factor as int)));
        assert((n as int) * (factor as int) <= 0xFFFF_FFFF_FFFF_FFFFu64 as int * 86400) by (nonlinear_arith)
            requires
                factor <= 86400,
        ;
        let sum: u128 = (n as u128) * (factor as u128) + (total as u128);
        if sum > u64::MAX as u128 {
            proof {
                if dhms_defined(tv) {
                    lemma_dhms_take(tv, i + 1);
                }
            }
            return None;
        }
        total = sum as u64;
        i = i + 1;
    }
    assert(tv.take(ts.len() as int) =~= tv);
    Some(Some(total))
}

// --- Extrusion roles ---------------------------------------------------------

/// Role id of a travel move (not part of the role table).
pub const KIND_TRAVEL: u8 = 20;

/// Number of entries of the role table.
pub const KIND_COUNT: usize = 19;

/// Entry `i` of the role table: stable id and Orca role name.
pub open spec fn spec_kind_entry(i: int) -> (u8, Seq<char>) {
    if i == 0 {
        (1, "Inner wall"@)
    } else if i == 1 {
        (2, "Outer wall"@)
    } else if i == 2 {
        (3, "Overhang wall"@)
    } else if i == 3 {
        (4, "Sparse infill"@)
    } else if i == 4 {
        (5, "Internal solid infill"@)
    } else if i == 5 {
        (6, "Top surface"@)
    } else if i == 6 {
        (7, "Bottom surface"@)
    } else if i == 7 {
        (8, "Ironing"@)
    } else if i == 8 {
        (9, "Bridge"@)
    } else if i == 9 {
        (10, "Internal Bridge"@)
    } else if i == 10 {
        (11, "Gap infill"@)
    } else if i == 11 {
        (12, "Skirt"@)
    } else if i == 12 {
        (13, "Brim"@)
    } else if i == 13 {
        (14, "Support"@)
    } else if i == 14 {
        (15, "Support interface"@)
    } else if i == 15 {
        (16, "Support transition"@)
    } else if i == 16 {
        (17, "Prime tower"@)
    } else if i == 17 {
        (18, "Custom"@)
    } else {
        (19, "Multiple"@)
    }
}

/// Entry `i` of the role table.
pub fn kind_entry(i: usize) -> (r: (u8, &'static str))
    requires
        i < KIND_COUNT,
    ensures
        r.0 == spec_kind_entry(i as int).0,
        r.1@ == spec_kind_entry(i as int).1,
{
    match i {
        0 => (1, "Inner wall"),
        1 => (2, "Outer wall"),
        2 => (3, "Overhang wall"),
        3 => (4, "Sparse infill"),
        4 => (5, "Internal solid infill"),
        5 => (6, "Top surface"),
        6 => (7, "Bottom surface"),
        7 => (8, "Ironing"),
        8 => (9, "Bridge"),
        9 => (10, "Internal Bridge"),
        10 => (11, "Gap infill"),
        11 => (12, "Skirt"),
        12 => (13, "Brim"),
        13 => (14, "Support"),
        14 => (15, "Support interface"),
        15 => (16, "Support transition"),
        16 => (17, "Prime tower"),
        17 => (18, "Custom"),
        _ => (19, "Multiple"),
    }
}

/// Id of the first table entry from `i` on whose name equals `name` up to
/// ASCII case; 0 when none does.
pub open spec fn kind_from(name: Seq<char>, i: int) -> u8
    decreases 19 - i,
{
    if i >= 19 || i < 0 {
        0
    } else if lower_all(spec_kind_entry(i).1) == lower_all(name) {
        spec_kind_entry(i).0
    } else {
        kind_from(name, i + 1)
    }
}

/// Role id of an Orca role name, ASCII case ignored (`Undefined` or an
/// unknown name → 0).
pub open spec fn spec_kind_id(name: Seq<char>) -> u8 {
    kind_from(name, 0)
}

/// Role id of an Orca role name (case-insensitive; unknown → 0).
pub fn kind_id(name: &str) -> (r: u8)
    ensures
        r == spec_kind_id(name@),
{
    let v = chars_of(name);
    kind_id_chars(&v)
}

/// `kind_id` on a character vector.
pub fn kind_id_chars(name: &Vec<char>) -> (r: u8)
    ensures
        r == spec_kind_id(name@),
{
    let low = lowercase(name);
    let mut i: usize = 0;
    while i < KIND_COUNT
        invariant
            low@ == lower_all(name@),
            i <= KIND_COUNT,
            kind_from(name@, 0) == kind_from(name@, i as int),
        decreases KIND_COUNT - i,
    {
        let (id, entry) = kind_entry(i);
        let e = chars_of(entry);
        let el = lowercase(&e);
        if crate::formats::same_chars(&el, &low) {
            return id;
        }
        i = i + 1;
    }
    0
}

/// Legend name of a role id: `Travel`, a table name, or `Unknown`.
pub open spec fn spec_kind_name(id: u8) -> Seq<char> {
    if id == KIND_TRAVEL {
        "Travel"@
    } else if 1 <= id && id <= 19 {
        spec_kind_entry(id - 1).1
    } else {
        "Unknown"@
    }
}

/// Name of a role id for the preview legend.
pub fn kind_name(id: u8) -> (r: &'static str)
    ensures
        r@ == spec_kind_name(id),
{
    if id == KIND_TRAVEL {
        "Travel"
    } else if 1 <= id && id <= 19 {
        let (_id, name) = kind_entry((id - 1) as usize);
        name
    } else {
        "Unknown"
    }
}

proof fn lemma_kind_from(name: Seq<char>, i: int)
    requires
        0 <= i,
    ensures
        kind_from(name, i) == 0 || (exists|j: int|
            i <= j < 19 && kind_from(name, i) == spec_kind_entry(j).0 && lower_all(
                spec_kind_entry(j).1,
            ) == lower_all(name)),
    decreases 19 - i,
{
    if i < 19 && lower_all(spec_kind_entry(i).1) != lower_all(name) {
        lemma_kind_from(name, i + 1);
    }
}

/// Naming a role and reading back its legend name gives the table's
/// spelling of that name: `kind_name(kind_id(n))` equals `n` up to ASCII
/// case whenever `n` names a role, and an unknown name reads back as
/// `Unknown`.
pub proof fn law_kind_name_round_trip(name: Seq<char>)
    ensures
        spec_kind_id(name) != 0 ==> lower_all(spec_kind_name(spec_kind_id(name))) == lower_all(
            name,
        ),
        spec_kind_id(name) == 0 ==> spec_kind_name(spec_kind_id(name)) == "Unknown"@,
{
    lemma_kind_from(name, 0);
    if spec_kind_id(name) != 0 {
        let j = choose|j: int|
            0 <= j < 19 && kind_from(name, 0) == spec_kind_entry(j).0 && lower_all(
                spec_kind_entry(j).1,
            ) == lower_all(name);
        assert(spec_kind_entry(j).0 == j + 1);
    }
}

/// Length and first character of each role name.
proof fn lemma_kind_name_heads()
    ensures
        forall|k: int|
            0 <= k < 19 ==> (#[trigger] spec_kind_entry(k)).1.len() > 0 && spec_kind_entry(k).0 == k + 1,
        forall|i: int, j: int|
            0 <= i < j < 19 && (#[trigger] spec_kind_entry(i)).1.len() == (#[trigger] spec_kind_entry(
                j,
            )).1.len() ==> lower(spec_kind_entry(i).1[0]) != lower(spec_kind_entry(j).1[0]),
{
    reveal_strlit("Inner wall");
    reveal_strlit("Outer wall");
    reveal_strlit("Overhang wall");
    reveal_strlit("Sparse infill");
    reveal_strlit("Internal solid infill");
    reveal_strlit("Top surface");
    reveal_strlit("Bottom surface");
    reveal_strlit("Ironing");
    reveal_strlit("Bridge");
    reveal_strlit("Internal Bridge");
    reveal_strlit("Gap infill");
    reveal_strlit("Skirt");
    reveal_strlit("Brim");
    reveal_strlit("Support");
    reveal_strlit("Support interface");
    reveal_strlit("Support transition");
    reveal_strlit("Prime tower");
    reveal_strlit("Custom");
    reveal_strlit("Multiple");
    assert(spec_kind_entry(0).1.len() == 10 && spec_kind_entry(0).1[0] == 'I');
    assert(spec_kind_entry(1).1.len() == 10 && spec_kind_entry(1).1[0] == 'O');
    assert(spec_kind_entry(2).1.len() == 13 && spec_kind_entry(2).1[0] == 'O');
    assert(spec_kind_entry(3).1.len() == 13 && spec_kind_entry(3).1[0] == 'S');
    assert(spec_kind_entry(4).1.len() == 21 && spec_kind_entry(4).1[0] == 'I');
    assert(spec_kind_entry(5).1.len() == 11 && spec_kind_entry(5).1[0] == 'T');
    assert(spec_kind_entry(6).1.len() == 14 && spec_kind_entry(6).1[0] == 'B');
    assert(spec_kind_entry(7).1.len() == 7 && spec_kind_entry(7).1[0] == 'I');
    assert(spec_kind_entry(8).1.len() == 6 && spec_kind_entry(8).1[0] == 'B');
    assert(spec_kind_entry(9).1.len() == 15 && spec_kind_entry(9).1[0] == 'I');
    assert(spec_kind_entry(10).1.len() == 10 && spec_kind_entry(10).1[0] == 'G');
    assert(spec_kind_entry(11).1.len() == 5 && spec_kind_entry(11).1[0] == 'S');
    assert(spec_kind_entry(12).1.len() == 4 && spec_kind_entry(12).1[0] == 'B');
    assert(spec_kind_entry(13).1.len() == 7 && spec_kind_entry(13).1[0] == 'S');
    assert(spec_kind_entry(14).1.len() == 17 && spec_kind_entry(14).1[0] == 'S');
    assert(spec_kind_entry(15).1.len() == 18 && spec_kind_entry(15).1[0] == 'S');
    assert(spec_kind_entry(16).1.len() == 11 && spec_kind_entry(16).1[0] == 'P');
    assert(spec_kind_entry(17).1.len() == 6 && spec_kind_entry(17).1[0] == 'C');
    assert(spec_kind_entry(18).1.len() == 8 && spec_kind_entry(18).1[0] == 'M');
}

/// No two role names are equal up to ASCII case.
proof fn lemma_kind_names_distinct(i: int, j: int)
    requires
        0 <= i < 19,
        0 <= j < 19,
        i != j,
    ensures
        lower_all(spec_kind_entry(i).1) != lower_all(spec_kind_entry(j).1),
{
    lemma_kind_name_heads();
    let a = spec_kind_entry(i).1;
    let b = spec_kind_entry(j).1;
    if a.len() == b.len() {
        if i < j {
            assert(lower(a[0]) != lower(b[0]));
        } else {
            assert(lower(b[0]) != lower(a[0]));
        }
        assert(lower_all(a)[0] != lower_all(b)[0]);
    } else {
        assert(lower_all(a).len() != lower_all(b).len());
    }
}

proof fn lemma_kind_from_match(name: Seq<char>, i: int, j: int)
    requires
        0 <= i <= j < 19,
        lower_all(name) == lower_all(spec_kind_entry(j).1),
    ensures
        kind_from(name, i) == spec_kind_entry(j).0,
    decreases j - i,
{
    if i < j {
        lemma_kind_names_distinct(i, j);
        lemma_kind_from_match(name, i + 1, j);
    }
}

proof fn lemma_kind_from_none(name: Seq<char>, i: int)
    requires
        0 <= i,
        forall|j: int| 0 <= j < 19 ==> lower_all(name) != lower_all(#[trigger] spec_kind_entry(j).1),
    ensures
        kind_from(name, i) == 0,
    decreases 19 - i,
{
    if i < 19 {
        lemma_kind_from_none(name, i + 1);
    }
}

/// Role names are read without regard to ASCII case: a name equal, up to
/// case, to the table entry `j` gets that entry's id and reads back as the
/// table's spelling; a name equal to no entry gets id 0 and reads back as
/// `Unknown`.
pub proof fn law_kind_names_ignore_case(name: Seq<char>)
    ensures
        forall|j: int|
            0 <= j < 19 && lower_all(name) == lower_all(#[trigger] spec_kind_entry(j).1) ==> spec_kind_id(
                name,
            ) == spec_kind_entry(j).0 && spec_kind_name(spec_kind_id(name)) == spec_kind_entry(j).1,
        (forall|j: int| 0 <= j < 19 ==> lower_all(name) != lower_all(#[trigger] spec_kind_entry(j).1))
            ==> spec_kind_id(name) == 0 && spec_kind_name(spec_kind_id(name)) == "Unknown"@,
{
    lemma_kind_name_heads();
    assert forall|j: int|
        0 <= j < 19 && lower_all(name) == lower_all(#[trigger] spec_kind_entry(j).1) implies spec_kind_id(
            name,
        ) == spec_kind_entry(j).0 && spec_kind_name(spec_kind_id(name)) == spec_kind_entry(j).1 by {
        lemma_kind_from_match(name, 0, j);
        assert(spec_kind_entry(j).0 == j + 1);
    }
    if forall|j: int| 0 <= j < 19 ==> lower_all(name) != lower_all(#[trigger] spec_kind_entry(j).1) {
        lemma_kind_from_none(name, 0);
    }
}

// --- Comments ----------------------------------------------------------------

/// The comment of a line: text after a leading `;` (indentation allowed),
/// trimmed. `None` for a line that is not a comment.
pub open spec fn comment_of(line: Seq<char>) -> Option<Seq<char>> {
    match strip_prefix(trim_start(line), ";"@) {
        Some(c) => Some(trim(c)),
        None => None,
    }
}

/// Comment text of a line (`trim_start`, `;`, `trim`).
pub fn comment_text(line: &Vec<char>) -> (r: Option<Vec<char>>)
    ensures
        r.is_some() == comment_of(line@).is_some(),
        r.is_some() ==> r.unwrap()@ == comment_of(line@).unwrap(),
{
    let start = trimmed_start(line);
    match strip_lit(&start, ";") {
        Some(c) => Some(trimmed(&c)),
        None => None,
    }
}

// --- Thumbnails --------------------------------------------------------------

/// Thumbnail embedded in a G-code: size and base64 PNG text.
#[derive(Debug, Clone, PartialEq)]
pub struct GcodeThumbnail {
    pub width: u32,
    pub height: u32,
    /// Base64 data (the block's lines concatenated).
    pub data: String,
}

impl GcodeThumbnail {
    pub open spec fn view(&self) -> (u32, u32, Seq<char>) {
        (self.width, self.height, self.data@)
    }
}

/// Scanner state: the block being read (if any) and the finished thumbnails.
pub type ThumbScan = (Option<(u32, u32, Seq<char>)>, Seq<(u32, u32, Seq<char>)>);

/// Size `WxH` of a block header, both parts unsigned 32-bit numbers.
pub open spec fn thumb_size(t: Seq<char>) -> Option<(u32, u32)> {
    match find_first(t, 'x') {
        None => None,
        Some(k) => match (
            parse_uint(t.take(k), u32::MAX as nat),
            parse_uint(t.skip(k + 1), u32::MAX as nat),
        ) {
            (Some(w), Some(h)) => Some((w as u32, h as u32)),
            _ => None,
        },
    }
}

/// One line of the thumbnail scan: `<tag> begin WxH LEN` opens a block
/// (a bad size leaves the state as it was), `<tag> end` closes it (kept if
/// it has data), a single-token comment inside a block is appended to it.
pub open spec fn thumb_step(st: ThumbScan, line: Seq<char>) -> ThumbScan {
    match comment_of(line) {
        None => st,
        Some(c) => {
            let t = ws_tokens(c);
            if t.len() >= 3 && t[1] == "begin"@ && "thumbnail"@.is_prefix_of(t[0]) {
                match thumb_size(t[2]) {
                    Some((w, h)) => (Some((w, h, Seq::<char>::empty())), st.1),
                    None => st,
                }
            } else if t.len() >= 2 && t[1] == "end"@ && "thumbnail"@.is_prefix_of(t[0]) {
                match st.0 {
                    Some((w, h, d)) => (None, if d.len() > 0 {
                        st.1.push((w, h, d))
                    } else {
                        st.1
                    }),
                    None => (None, st.1),
                }
            } else {
                match st.0 {
                    Some((w, h, d)) => if t.len() == 1 {
                        (Some((w, h, d + t[0])), st.1)
                    } else {
                        st
                    },
                    None => st,
                }
            }
        },
    }
}

/// Thumbnail scan over a sequence of lines.
pub open spec fn thumb_scan(lines: Seq<Seq<char>>) -> ThumbScan
    decreases lines.len(),
{
    if lines.len() == 0 {
        (None, Seq::empty())
    } else {
        thumb_step(thumb_scan(lines.drop_last()), lines.last())
    }
}

/// Thumbnails embedded in a G-code text, in order.
pub open spec fn spec_thumbnails(gcode: Seq<char>) -> Seq<(u32, u32, Seq<char>)> {
    thumb_scan(lines_of(gcode)).1
}

/// View of a list of thumbnails.
pub open spec fn thumbs_view(v: Seq<GcodeThumbnail>) -> Seq<(u32, u32, Seq<char>)> {
    Seq::new(v.len(), |i: int| v[i].view())
}

/// The comment lines among `ls`, in order.
pub open spec fn comment_lines(ls: Seq<Seq<char>>) -> Seq<Seq<char>>
    decreases ls.len(),
{
    if ls.len() == 0 {
        Seq::empty()
    } else {
        comment_lines(ls.drop_last()) + if comment_of(ls.last()) is Some {
            seq![ls.last()]
        } else {
            Seq::<Seq<char>>::empty()
        }
    }
}

proof fn lemma_scan_reads_comments_only(ls: Seq<Seq<char>>)
    ensures
        thumb_scan(ls) == thumb_scan(comment_lines(ls)),
    decreases ls.len(),
{
    if ls.len() > 0 {
        lemma_scan_reads_comments_only(ls.drop_last());
        let c = comment_lines(ls.drop_last());
        if comment_of(ls.last()) is Some {
            assert(comment_lines(ls).drop_last() =~= c);
            assert(comment_lines(ls).last() == ls.last());
        } else {
            assert(comment_lines(ls) =~= c);
        }
    }
}

/// Lines that are not comments (after leading whitespace they do not start
/// with `;`), such as moves, change no thumbnail: two G-codes whose comment
/// lines are the same, in the same order, have the same thumbnails, however
/// many other lines stand between them.
pub proof fn law_code_lines_leave_thumbnails(g: Seq<char>, g2: Seq<char>)
    requires
        comment_lines(lines_of(g)) == comment_lines(lines_of(g2)),
    ensures
        spec_thumbnails(g2) == spec_thumbnails(g),
{
    lemma_scan_reads_comments_only(lines_of(g));
    lemma_scan_reads_comments_only(lines_of(g2));
}

/// `l` opens a thumbnail block of size `w`×`h`: a comment whose second
/// token is `begin`, whose first starts with `thumbnail` and whose third is
/// the size.
pub open spec fn thumb_begin_line(l: Seq<char>, w: u32, h: u32) -> bool {
    comment_of(l) matches Some(c) && ws_tokens(c).len() >= 3 && ws_tokens(c)[1] == "begin"@
        && "thumbnail"@.is_prefix_of(ws_tokens(c)[0]) && thumb_size(ws_tokens(c)[2]) == Some((w, h))
}

/// `l` is a data line of a block carrying the text `d`: a comment made of
/// that one token.
pub open spec fn thumb_data_line(l: Seq<char>, d: Seq<char>) -> bool {
    comment_of(l) matches Some(c) && ws_tokens(c) == seq![d]
}

/// `l` closes a thumbnail block: a comment whose second token is `end` and
/// whose first starts with `thumbnail`.
pub open spec fn thumb_end_line(l: Seq<char>) -> bool {
    comment_of(l) matches Some(c) && ws_tokens(c).len() >= 2 && ws_tokens(c)[1] == "end"@
        && "thumbnail"@.is_prefix_of(ws_tokens(c)[0])
}

/// The lines of a sequence of blocks, each given by its three lines.
pub open spec fn block_lines(bs: Seq<(Seq<char>, Seq<char>, Seq<char>)>) -> Seq<Seq<char>>
    decreases bs.len(),
{
    if bs.len() == 0 {
        Seq::empty()
    } else {
        block_lines(bs.drop_last()) + seq![bs.last().0, bs.last().1, bs.last().2]
    }
}

/// A closed block with data after any lines adds exactly its thumbnail to
/// those found before it, and leaves no block open.
pub proof fn law_closed_block_adds_its_thumbnail(
    ls: Seq<Seq<char>>,
    b: Seq<char>,
    d: Seq<char>,
    e: Seq<char>,
    w: u32,
    h: u32,
    data: Seq<char>,
)
    requires
        thumb_begin_line(b, w, h),
        thumb_data_line(d, data),
        thumb_end_line(e),
    ensures
        thumb_scan(ls + seq![b, d, e]) == (
            None::<(u32, u32, Seq<char>)>,
            thumb_scan(ls).1.push((w, h, data)),
        ),
{
    reveal_strlit("begin");
    reveal_strlit("end");
    let all = ls + seq![b, d, e];
    assert(all.drop_last() =~= ls + seq![b, d]);
    assert((ls + seq![b, d]).drop_last() =~= ls + seq![b]);
    assert((ls + seq![b]).drop_last() =~= ls);
    lemma_tokens_non_empty(split_ws_pieces(comment_of(d)->0));
    assert(data.len() > 0) by {
        assert(ws_tokens(comment_of(d)->0)[0] == data);
    }
    assert(ws_tokens(comment_of(e)->0)[1] != "begin"@) by {
        assert("end"@.len() != "begin"@.len());
    }
    assert(Seq::<char>::empty() + data =~= data);
    let s0 = thumb_scan(ls);
    assert((ls + seq![b]).last() == b);
    assert((ls + seq![b, d]).last() == d);
    assert(all.last() == e);
    let s1 = thumb_scan(ls + seq![b]);
    assert(s1 == thumb_step(s0, b));
    assert(s1 == (Some((w, h, Seq::<char>::empty())), s0.1));
    let s2 = thumb_scan(ls + seq![b, d]);
    assert(s2 == thumb_step(s1, d));
    assert(ws_tokens(comment_of(d)->0).len() == 1);
    assert(s2 == (Some((w, h, data)), s0.1));
    assert(thumb_scan(all) == thumb_step(s2, e));
}

/// Each closed block with data adds one thumbnail, in order: after any
/// lines, `k` such blocks add exactly their `k` thumbnails.
pub proof fn law_blocks_give_their_thumbnails(
    ls: Seq<Seq<char>>,
    bs: Seq<(Seq<char>, Seq<char>, Seq<char>)>,
    expected: Seq<(u32, u32, Seq<char>)>,
)
    requires
        bs.len() == expected.len(),
        forall|i: int|
            0 <= i < bs.len() ==> thumb_begin_line(#[trigger] bs[i].0, expected[i].0, expected[i].1)
                && thumb_data_line(bs[i].1, expected[i].2) && thumb_end_line(bs[i].2),
    ensures
        thumb_scan(ls + block_lines(bs)).1 == thumb_scan(ls).1 + expected,
        bs.len() > 0 ==> thumb_scan(ls + block_lines(bs)).0 is None,
    decreases bs.len(),
{
    if bs.len() == 0 {
        assert(ls + block_lines(bs) =~= ls);
        assert(thumb_scan(ls).1 + expected =~= thumb_scan(ls).1);
    } else {
        let bp = bs.drop_last();
        let ep = expected.drop_last();
        assert forall|i: int|
            0 <= i < bp.len() implies thumb_begin_line(#[trigger] bp[i].0, ep[i].0, ep[i].1)
            && thumb_data_line(bp[i].1, ep[i].2) && thumb_end_line(bp[i].2) by {
            assert(bp[i] == bs[i]);
            assert(ep[i] == expected[i]);
        }
        law_blocks_give_their_thumbnails(ls, bp, ep);
        let (b, d, e) = bs.last();
        let x = expected.last();
        assert(bs.last() == bs[bs.len() - 1]);
        assert(x == expected[expected.len() - 1]);
        law_closed_block_adds_its_thumbnail(ls + block_lines(bp), b, d, e, x.0, x.1, x.2);
        assert(ls + block_lines(bs) =~= (ls + block_lines(bp)) + seq![b, d, e]);
        assert(thumb_scan(ls).1 + ep + seq![x] =~= thumb_scan(ls).1 + expected);
    }
}

/// A G-code made of `k` closed blocks with data has exactly their `k`
/// thumbnails, in order.
pub proof fn law_gcode_of_blocks_thumbnails(
    g: Seq<char>,
    bs: Seq<(Seq<char>, Seq<char>, Seq<char>)>,
    expected: Seq<(u32, u32, Seq<char>)>,
)
    requires
        lines_of(g) == block_lines(bs),
        bs.len() == expected.len(),
        forall|i: int|
            0 <= i < bs.len() ==> thumb_begin_line(#[trigger] bs[i].0, expected[i].0, expected[i].1)
                && thumb_data_line(bs[i].1, expected[i].2) && thumb_end_line(bs[i].2),
    ensures
        spec_thumbnails(g) == expected,
        spec_thumbnails(g).len() == bs.len(),
{
    law_blocks_give_their_thumbnails(Seq::empty(), bs, expected);
    assert(Seq::<Seq<char>>::empty() + block_lines(bs) =~= block_lines(bs));
    assert(Seq::<(u32, u32, Seq<char>)>::empty() + expected =~= expected);
}

fn thumb_size_of(t: &Vec<char>) -> (r: Option<(u32, u32)>)
    ensures
        r == thumb_size(t@),
{
    match find_char(t, 'x') {
        None => None,
        Some(k) => {
            proof {
                lemma_find_first_bounds(t@, 'x');
            }
            assert(k < t.len());
            let a = copy_range(t, 0, k);
            let b = copy_range(t, k + 1, t.len());
            assert(a@ =~= t@.take(k as int));
            assert(b@ =~= t@.skip(k + 1));
            match (parse_u64_max(&a, 0xFFFF_FFFF), parse_u64_max(&b, 0xFFFF_FFFF)) {
                (Some(w), Some(h)) => Some((w as u32, h as u32)),
                _ => None,
            }
        },
    }
}

/// Extracts the thumbnails embedded in a G-code (`; thumbnail begin WxH LEN`
/// … `; thumbnail end` blocks, any tag starting with `thumbnail`).
pub fn extract_thumbnails(gcode: &str) -> (r: Vec<GcodeThumbnail>)
    ensures
        thumbs_view(r@) == spec_thumbnails(gcode@),
{
    let text = chars_of(gcode);
    let ls = lines(&text);
    let ghost lv = ls.deep_view();
    let mut out: Vec<GcodeThumbnail> = Vec::new();
    let mut cur: Option<(u32, u32, Vec<char>)> = None;
    let mut i: usize = 0;
    while i < ls.len()
        invariant
            lv == ls.deep_view(),
            lv == lines_of(gcode@),
            i <= ls.len(),
            thumb_scan(lv.take(i as int)) == (
                match cur {
                    Some((w, h, d)) => Some((w, h, d@)),
                    None => None::<(u32, u32, Seq<char>)>,
                },
                thumbs_view(out@),
            ),
        decreases ls.len() - i,
    {
        let line = &ls[i];
        assert(line.deep_view() =~= line@);
        assert(lv.take(i + 1).drop_last() =~= lv.take(i as int));
        assert(lv.take(i + 1).last() == line@);
        let ghost before = thumb_scan(lv.take(i as int));
        if let Some(c) = comment_text(line) {
            let t = tokens(&c);
            let ghost tv = t.deep_view();
            if t.len() >= 3 && eq_lit(&t[1], "begin") && starts_with_lit(&t[0], "thumbnail") {
                assert(t[1].deep_view() =~= t[1]@);
                assert(t[0].deep_view() =~= t[0]@);
                assert(t[2].deep_view() =~= t[2]@);
                match thumb_size_of(&t[2]) {
                    Some((w, h)) => {
                        let fresh: Vec<char> = Vec::new();
                        cur = Some((w, h, fresh));
                    },
                    None => {},
                }
            } else if t.len() >= 2 && eq_lit(&t[1], "end") && starts_with_lit(&t[0], "thumbnail") {
                assert(t[1].deep_view() =~= t[1]@);
                assert(t[0].deep_view() =~= t[0]@);
                let taken = cur;
                cur = None;
                match taken {
                    Some((w, h, d)) => {
                        if d.len() > 0 {
                            let ghost old_out = out@;
                            out.push(GcodeThumbnail { width: w, height: h, data: string_of(&d) });
                            assert(thumbs_view(out@) =~= thumbs_view(old_out).push((w, h, d@)));
                        }
                    },
                    None => {},
                }
            } else {
                proof {
                    if t.len() >= 3 {
                        assert(t[1].deep_view() =~= t[1]@);
                        assert(t[0].deep_view() =~= t[0]@);
                    }
                    if t.len() >= 2 {
                        assert(t[1].deep_view() =~= t[1]@);
                        assert(t[0].deep_view() =~= t[0]@);
                    }
                }
                if t.len() == 1 {
                    match cur {
                        Some((w, h, d)) => {
                            assert(t[0].deep_view() =~= t[0]@);
                            let mut d = d;
                            let ghost old_d = d@;
                            let mut j: usize = 0;
                            while j < t[0].len()
                                invariant
                                    t.len() == 1,
                                    j <= t[0].len(),
                                    d@ == old_d + t[0]@.take(j as int),
                                decreases t[0].len() - j,
                            {
                                d.push(t[0][j]);
                                j = j + 1;
                                assert(d@ =~= old_d + t[0]@.take(j as int));
                            }
                            assert(t[0]@.take(t[0].len() as int) =~= t[0]@);
                            cur = Some((w, h, d));
                        },
                        None => {},
                    }
                }
            }
        }
        i = i + 1;
    }
    assert(lv.take(ls.len() as int) =~= lv);
    out
}

// --- Statistics --------------------------------------------------------------

/// Print statistics read from the G-code header comments. Decimal values are
/// kept as the text written in the file (trimmed); lists hold one trimmed
/// item per comma-separated field.
#[derive(Debug, Clone, PartialEq)]
pub struct RawGcodeStats {
    /// Estimated print time (normal mode), in seconds.
    pub estimated_time_seconds: Option<u64>,
    /// Estimated print time as written (`1h 2m 3s`).
    pub estimated_time_text: Option<String>,
    /// Total filament mass (g), decimal text.
    pub total_filament_weight_g: Option<String>,
    /// Total filament cost, decimal text.
    pub total_filament_cost: Option<String>,
    /// Number of tool changes.
    pub total_toolchanges: Option<u64>,
    /// Number of layers.
    pub layer_count: Option<u64>,
    /// Filament length per extruder (mm), one text item per field.
    pub filament_used_mm: Vec<String>,
    /// Filament volume per extruder (cm³).
    pub filament_used_cm3: Vec<String>,
    /// Filament mass per extruder (g).
    pub filament_used_g: Vec<String>,
    /// Filament cost per extruder.
    pub filament_cost: Vec<String>,
}

/// Mathematical value of the statistics.
pub struct StatsView {
    pub secs: Option<u64>,
    pub text: Option<Seq<char>>,
    pub weight: Option<Seq<char>>,
    pub cost: Option<Seq<char>>,
    pub toolchanges: Option<u64>,
    pub layers: Option<u64>,
    pub mm: Seq<Seq<char>>,
    pub cm3: Seq<Seq<char>>,
    pub g: Seq<Seq<char>>,
    pub fcost: Seq<Seq<char>>,
}

pub open spec fn opt_view(o: Option<String>) -> Option<Seq<char>> {
    match o {
        Some(s) => Some(s@),
        None => None,
    }
}

pub open spec fn strings_view(v: Seq<String>) -> Seq<Seq<char>> {
    Seq::new(v.len(), |i: int| v[i]@)
}

impl RawGcodeStats {
    pub open spec fn view(&self) -> StatsView {
        StatsView {
            secs: self.estimated_time_seconds,
            text: opt_view(self.estimated_time_text),
            weight: opt_view(self.total_filament_weight_g),
            cost: opt_view(self.total_filament_cost),
            toolchanges: self.total_toolchanges,
            layers: self.layer_count,
            mm: strings_view(self.filament_used_mm@),
            cm3: strings_view(self.filament_used_cm3@),
            g: strings_view(self.filament_used_g@),
            fcost: strings_view(self.filament_cost@),
        }
    }
}

/// Statistics of a G-code without metadata.
pub open spec fn empty_stats() -> StatsView {
    StatsView {
        secs: None,
        text: None,
        weight: None,
        cost: None,
        toolchanges: None,
        layers: None,
        mm: Seq::empty(),
        cm3: Seq::empty(),
        g: Seq::empty(),
        fcost: Seq::empty(),
    }
}

/// Trimmed comma-separated items (`a, b, c`).
pub open spec fn list_items(v: Seq<char>) -> Seq<Seq<char>> {
    let p = crate::text::split_char(v, ',');
    Seq::new(p.len(), |i: int| trim(p[i]))
}

/// `u64` value of a trimmed decimal text (`None` if it is not one).
pub open spec fn u64_of(v: Seq<char>) -> Option<u64> {
    match parse_uint(trim(v), u64::MAX as nat) {
        Some(n) => Some(n as u64),
        None => None,
    }
}

/// Duration text of the `total estimated time:` variant: what follows the
/// marker, up to the next `;`, trimmed.
pub open spec fn colon_time_text(rest: Seq<char>) -> Seq<char> {
    trim(crate::text::split_char(trim(rest), ';')[0])
}

/// One header line applied to the statistics; `None` where the duration it
/// carries cannot be computed.
pub open spec fn stats_step(s: StatsView, line: Seq<char>) -> Option<StatsView> {
    match comment_of(line) {
        None => Some(s),
        Some(c) => if let Some(v) = strip_prefix(c, "estimated printing time (normal mode) = "@) {
            match dhms_outcome(trim(v)) {
                None => None,
                Some(secs) => Some(StatsView { secs: secs, text: Some(trim(v)), ..s }),
            }
        } else if let Some(v) = strip_prefix(c, "total filament used [g] = "@) {
            Some(StatsView { weight: Some(trim(v)), ..s })
        } else if let Some(v) = strip_prefix(c, "total filament cost = "@) {
            Some(StatsView { cost: Some(trim(v)), ..s })
        } else if let Some(v) = strip_prefix(c, "total filament change = "@) {
            Some(StatsView { toolchanges: u64_of(v), ..s })
        } else if let Some(v) = strip_prefix(c, "total layers count = "@) {
            Some(StatsView { layers: u64_of(v), ..s })
        } else if let Some(v) = strip_prefix(c, "total layer number: "@) {
            Some(StatsView { layers: u64_of(v), ..s })
        } else if let Some((_before, rest)) = crate::text::split_once_sub(
            c,
            "total estimated time:"@,
        ) {
            let text = colon_time_text(rest);
            if s.secs is None && text.len() > 0 {
                match dhms_outcome(text) {
                    None => None,
                    Some(secs) => Some(StatsView { secs: secs, text: Some(text), ..s }),
                }
            } else {
                Some(s)
            }
        } else if let Some(v) = strip_prefix(c, "filament used [mm] = "@) {
            Some(StatsView { mm: list_items(v), ..s })
        } else if let Some(v) = strip_prefix(c, "filament used [cm3] = "@) {
            Some(StatsView { cm3: list_items(v), ..s })
        } else if let Some(v) = strip_prefix(c, "filament used [g] = "@) {
            Some(StatsView { g: list_items(v), ..s })
        } else if let Some(v) = strip_prefix(c, "filament cost = "@) {
            Some(StatsView { fcost: list_items(v), ..s })
        } else {
            Some(s)
        },
    }
}

/// Statistics after a sequence of lines (`None` if a duration on the way
/// cannot be computed).
pub open spec fn stats_scan(lines: Seq<Seq<char>>) -> Option<StatsView>
    decreases lines.len(),
{
    if lines.len() == 0 {
        Some(empty_stats())
    } else {
        match stats_scan(lines.drop_last()) {
            None => None,
            Some(s) => stats_step(s, lines.last()),
        }
    }
}

/// Statistics of a G-code text.
pub open spec fn spec_parse_stats(gcode: Seq<char>) -> Option<StatsView> {
    stats_scan(lines_of(gcode))
}

proof fn lemma_stats_scan_prefix(ls: Seq<Seq<char>>, k: int)
    requires
        0 <= k <= ls.len(),
        stats_scan(ls) is Some,
    ensures
        stats_scan(ls.take(k)) is Some,
    decreases ls.len(),
{
    if k == ls.len() {
        assert(ls.take(k) =~= ls);
    } else {
        assert(ls.drop_last().take(k) =~= ls.take(k));
        lemma_stats_scan_prefix(ls.drop_last(), k);
    }
}

fn trimmed_string(v: &Vec<char>) -> (r: String)
    ensures
        r@ == trim(v@),
{
    let t = trimmed(v);
    string_of(&t)
}

fn u64_value(v: &Vec<char>) -> (r: Option<u64>)
    ensures
        r == u64_of(v@),
{
    let t = trimmed(v);
    parse_u64_max(&t, u64::MAX)
}

fn items_of(v: &Vec<char>) -> (r: Vec<String>)
    ensures
        strings_view(r@) == list_items(v@),
{
    let pieces = crate::text::split_on(v, ',');
    let ghost pv = pieces.deep_view();
    let mut out: Vec<String> = Vec::new();
    let mut i: usize = 0;
    while i < pieces.len()
        invariant
            pv == pieces.deep_view(),
            pv == crate::text::split_char(v@, ','),
            i <= pieces.len(),
            out@.len() == i,
            strings_view(out@) == Seq::new(i as nat, |k: int| trim(pv[k])),
        decreases pieces.len() - i,
    {
        assert(pieces[i as int].deep_view() =~= pieces[i as int]@);
        let item = trimmed_string(&pieces[i]);
        let ghost old_out = out@;
        out.push(item);
        assert(out@ == old_out.push(item));
        i = i + 1;
        assert(strings_view(out@) =~= Seq::new(i as nat, |k: int| trim(pv[k]))) by {
            assert forall|k: int| 0 <= k < i implies strings_view(out@)[k] == trim(pv[k]) by {
                if k < i - 1 {
                    assert(out@[k] == old_out[k]);
                    assert(strings_view(old_out)[k] == trim(pv[k]));
                }
            }
        }
    }
    out
}

fn colon_time(rest: &Vec<char>) -> (r: Vec<char>)
    ensures
        r@ == colon_time_text(rest@),
{
    let t = trimmed(rest);
    let parts = crate::text::split_on(&t, ';');
    proof {
        crate::text::lemma_split_char_len(t@, ';');
    }
    assert(parts[0].deep_view() =~= parts[0]@);
    trimmed(&parts[0])
}

/// Applies one header line to the statistics.
fn stats_line(st: &mut RawGcodeStats, line: &Vec<char>) -> (ok: bool)
    ensures
        ok == (stats_step(old(st).view(), line@) is Some),
        ok ==> final(st).view() == stats_step(old(st).view(), line@).unwrap(),
{
    let c = match comment_text(line) {
        None => return true,
        Some(c) => c,
    };
    if let Some(v) = strip_lit(&c, "estimated printing time (normal mode) = ") {
        let t = trimmed(&v);
        match dhms_checked(&t) {
            None => return false,
            Some(secs) => st.estimated_time_seconds = secs,
        }
        st.estimated_time_text = Some(string_of(&t));
    } else if let Some(v) = strip_lit(&c, "total filament used [g] = ") {
        st.total_filament_weight_g = Some(trimmed_string(&v));
    } else if let Some(v) = strip_lit(&c, "total filament cost = ") {
        st.total_filament_cost = Some(trimmed_string(&v));
    } else if let Some(v) = strip_lit(&c, "total filament change = ") {
        st.total_toolchanges = u64_value(&v);
    } else if let Some(v) = strip_lit(&c, "total layers count = ") {
        st.layer_count = u64_value(&v);
    } else if let Some(v) = strip_lit(&c, "total layer number: ") {
        st.layer_count = u64_value(&v);
    } else if let Some((_before, rest)) = crate::text::split_once_lit(&c, "total estimated time:") {
        let text = colon_time(&rest);
        if st.estimated_time_seconds.is_none() && text.len() > 0 {
            match dhms_checked(&text) {
                None => return false,
                Some(secs) => st.estimated_time_seconds = secs,
            }
            st.estimated_time_text = Some(string_of(&text));
        }
    } else if let Some(v) = strip_lit(&c, "filament used [mm] = ") {
        st.filament_used_mm = items_of(&v);
    } else if let Some(v) = strip_lit(&c, "filament used [cm3] = ") {
        st.filament_used_cm3 = items_of(&v);
    } else if let Some(v) = strip_lit(&c, "filament used [g] = ") {
        st.filament_used_g = items_of(&v);
    } else if let Some(v) = strip_lit(&c, "filament cost = ") {
        st.filament_cost = items_of(&v);
    }
    true
}

/// Reads the statistics comments of an Orca G-code header: estimated time
/// (both the `= …` and the `total estimated time:` forms), total mass,
/// cost, tool changes, layer count and per-extruder lists.
pub fn parse_stats(gcode: &str) -> (r: RawGcodeStats)
    requires
        spec_parse_stats(gcode@) is Some,
    ensures
        r.view() == spec_parse_stats(gcode@).unwrap(),
{
    let text = chars_of(gcode);
    let ls = lines(&text);
    let ghost lv = ls.deep_view();
    let mut st = RawGcodeStats {
        estimated_time_seconds: None,
        estimated_time_text: None,
        total_filament_weight_g: None,
        total_filament_cost: None,
        total_toolchanges: None,
        layer_count: None,
        filament_used_mm: Vec::new(),
        filament_used_cm3: Vec::new(),
        filament_used_g: Vec::new(),
        filament_cost: Vec::new(),
    };
    assert(strings_view(st.filament_used_mm@) =~= Seq::<Seq<char>>::empty());
    assert(strings_view(st.filament_used_cm3@) =~= Seq::<Seq<char>>::empty());
    assert(strings_view(st.filament_used_g@) =~= Seq::<Seq<char>>::empty());
    assert(strings_view(st.filament_cost@) =~= Seq::<Seq<char>>::empty());
    assert(st.view() == empty_stats());
    let mut i: usize = 0;
    while i < ls.len()
        invariant
            lv == ls.deep_view(),
            lv == lines_of(gcode@),
            stats_scan(lv) is Some,
            i <= ls.len(),
            stats_scan(lv.take(i as int)) == Some(st.view()),
        decreases ls.len() - i,
    {
        let line = &ls[i];
        assert(line.deep_view() =~= line@);
        assert(lv.take(i + 1).drop_last() =~= lv.take(i as int));
        assert(lv.take(i + 1).last() == line@);
        proof {
            lemma_stats_scan_prefix(lv, i + 1);
        }
        let ok = stats_line(&mut st, line);
        assert(ok);
        i = i + 1;
    }
    assert(lv.take(ls.len() as int) =~= lv);
    st
}


/// Whether the statistics of a G-code can be read: every duration on the
/// way can be computed (see [`parse_stats`]).
pub fn is_stats_readable(gcode: &str) -> (r: bool)
    ensures
        r == (spec_parse_stats(gcode@) is Some),
{
    let text = chars_of(gcode);
    let ls = lines(&text);
    let ghost lv = ls.deep_view();
    let mut st = RawGcodeStats {
        estimated_time_seconds: None,
        estimated_time_text: None,
        total_filament_weight_g: None,
        total_filament_cost: None,
        total_toolchanges: None,
        layer_count: None,
        filament_used_mm: Vec::new(),
        filament_used_cm3: Vec::new(),
        filament_used_g: Vec::new(),
        filament_cost: Vec::new(),
    };
    assert(strings_view(st.filament_used_mm@) =~= Seq::<Seq<char>>::empty());
    assert(strings_view(st.filament_used_cm3@) =~= Seq::<Seq<char>>::empty());
    assert(strings_view(st.filament_used_g@) =~= Seq::<Seq<char>>::empty());
    assert(strings_view(st.filament_cost@) =~= Seq::<Seq<char>>::empty());
    assert(st.view() == empty_stats());
    let mut i: usize = 0;
    while i < ls.len()
        invariant
            lv == ls.deep_view(),
            lv == lines_of(gcode@),
            i <= ls.len(),
            stats_scan(lv.take(i as int)) == Some(st.view()),
        decreases ls.len() - i,
    {
        let line = &ls[i];
        assert(line.deep_view() =~= line@);
        assert(lv.take(i + 1).drop_last() =~= lv.take(i as int));
        assert(lv.take(i + 1).last() == line@);
        let ok = stats_line(&mut st, line);
        if !ok {
            proof {
                if stats_scan(lv) is Some {
                    lemma_stats_scan_prefix(lv, i + 1);
                }
            }
            return false;
        }
        i = i + 1;
    }
    assert(lv.take(ls.len() as int) =~= lv);
    true
}

} // verus!
