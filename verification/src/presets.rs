//! Preset rules: names of kinds, visibility of user presets, creation of a
//! user preset, and the inheritance chain that Orca presets form through
//! `inherits` (same vendor preferred among homonyms; a missing parent ends
//! the chain; a cycle is cut).

use vstd::prelude::*;

use crate::api_error::ApiError;
use crate::entities::{Preset, PresetKind, PresetOrigin};
use crate::errors::concat2;
use crate::ids::{PresetId, UserId};
use crate::json_text::{json_quoted, json_string, object_with_string, string_object};
use crate::text::{chars_of, string_of, trim, trimmed};

verus! {

/// Wire name of a preset kind (also the `type` of an exported Orca profile).
pub fn kind_str(kind: PresetKind) -> (r: &'static str)
    ensures
        r@ == kind.spec_name(),
{
    match kind {
        PresetKind::MachineModel => "machine_model",
        PresetKind::Machine => "machine",
        PresetKind::Filament => "filament",
        PresetKind::Process => "process",
    }
}

/// `{"field":"<field>","value":"<value>"}`.
pub open spec fn field_value_details(field: Seq<char>, value: Seq<char>) -> Seq<char> {
    "{\"field\":"@ + json_quoted(field) + ",\"value\":"@ + json_quoted(value) + "}"@
}

/// A wire name of a preset kind.
pub open spec fn is_kind_name(s: Seq<char>) -> bool {
    s == "machine_model"@ || s == "machine"@ || s == "filament"@ || s == "process"@
}

/// Reads the `kind` of a query: a known kind, else a validation error
/// naming the field and the value.
pub fn parse_kind(s: &str) -> (r: Result<PresetKind, ApiError>)
    ensures
        is_kind_name(s@) ==> (r matches Ok(k) && k.spec_name() == s@),
        !is_kind_name(s@) ==> r is Err && r->Err_0.status == 422 && r->Err_0.code@
            == "validation"@ && r->Err_0.message@ == "valeur invalide pour « kind »"@
            && r->Err_0.details is Some && r->Err_0.details->0@ == field_value_details(
            "kind"@,
            s@,
        ),
{
    match PresetKind::parse(s) {
        Some(k) => Ok(k),
        None => {
            let a = concat2("{\"field\":", json_string("kind").as_str());
            let b = concat2(a.as_str(), ",\"value\":");
            let c = concat2(b.as_str(), json_string(s).as_str());
            let details = concat2(c.as_str(), "}");
            Err(ApiError::validation("valeur invalide pour « kind »", details))
        },
    }
}

/// Reads a preset id from a path; an unreadable one is an absent preset.
pub fn parse_preset_id(raw: &str) -> (r: Result<PresetId, ApiError>)
    ensures
        match crate::ids::uuid_parse(raw@) {
            Some(n) => r == Ok::<PresetId, ApiError>(PresetId(n)),
            None => r matches Err(e) && e.status == 404 && e.message@ == "Preset introuvable"@,
        },
{
    proof {
        reveal_strlit("Preset");
        reveal_strlit(" introuvable");
        reveal_strlit("Preset introuvable");
        assert("Preset"@ + " introuvable"@ =~= "Preset introuvable"@);
    }
    match PresetId::parse(raw) {
        Some(id) => Ok(id),
        None => Err(ApiError::not_found("Preset")),
    }
}

/// Whether `user` may see `p`: every system preset, and the user's own.
pub open spec fn visible_to(p: Preset, user: UserId) -> bool {
    !(p.origin == PresetOrigin::User && p.user_id != Some(user))
}

/// Isolation of user presets: another account's user preset is answered as
/// absent.
pub fn check_visible(p: Preset, user: UserId) -> (r: Result<Preset, ApiError>)
    ensures
        visible_to(p, user) ==> r == Ok::<Preset, ApiError>(p),
        !visible_to(p, user) ==> (r matches Err(e) && e.status == 404 && e.code@ == "not_found"@
            && e.message@ == "Preset introuvable"@ && e.details is None),
{
    proof {
        reveal_strlit("Preset");
        reveal_strlit(" introuvable");
        reveal_strlit("Preset introuvable");
        assert("Preset"@ + " introuvable"@ =~= "Preset introuvable"@);
    }
    let foreign = match p.user_id {
        Some(owner) => owner.0 != user.0,
        None => true,
    };
    if p.origin == PresetOrigin::User && foreign {
        Err(ApiError::not_found("Preset"))
    } else {
        Ok(p)
    }
}

/// A new user preset: the name is trimmed and must not be empty; values
/// that are not a JSON object (`None`) are replaced by `{}`.
pub fn new_user_preset(
    user: UserId,
    kind: PresetKind,
    name: &str,
    inherits: Option<String>,
    values_object: Option<String>,
) -> (r: Result<Preset, ApiError>)
    ensures
        trim(name@).len() == 0 ==> r is Err && r->Err_0.status == 422 && r->Err_0.message@
            == "le nom du preset est requis"@ && r->Err_0.details is Some && r->Err_0.details->0@
            == object_with_string("field"@, "name"@),
        trim(name@).len() > 0 ==> (r matches Ok(p) && p.kind == kind && p.name@ == trim(name@)
            && p.origin == PresetOrigin::User && p.user_id == Some(user) && p.vendor is None
            && p.inherits == inherits && p.instantiation && p.setting_id is None
            && p.filament_id is None && p.compatible_printers is None && p.values@ == (
        match values_object {
            Some(v) => v@,
            None => "{}"@,
        })),
{
    let v = chars_of(name);
    let t = trimmed(&v);
    if t.len() == 0 {
        return Err(ApiError::validation("le nom du preset est requis", string_object("field", "name")));
    }
    let values = match values_object {
        Some(v) => v,
        None => "{}".to_owned(),
    };
    Ok(Preset {
        id: PresetId::new(),
        kind,
        name: string_of(&t),
        origin: PresetOrigin::User,
        user_id: Some(user),
        vendor: None,
        inherits,
        instantiation: true,
        setting_id: None,
        filament_id: None,
        compatible_printers: None,
        values,
    })
}

// --- Inheritance chain -------------------------------------------------------

/// Whether a candidate's vendor satisfies the wanted vendor (any, when
/// none is wanted).
pub open spec fn vendor_matches(candidate: Option<String>, wanted: Option<Seq<char>>) -> bool {
    match wanted {
        None => true,
        Some(w) => candidate matches Some(c) && c@ == w,
    }
}

/// First index `i >= from` of `cands` named `name` whose vendor matches.
pub open spec fn first_named(
    cands: Seq<Preset>,
    name: Seq<char>,
    vendor: Option<Seq<char>>,
    from: int,
) -> Option<int>
    decreases cands.len() - from,
{
    if from < 0 || from >= cands.len() {
        None
    } else if cands[from].name@ == name && vendor_matches(cands[from].vendor, vendor) {
        Some(from)
    } else {
        first_named(cands, name, vendor, from + 1)
    }
}

proof fn lemma_first_named_in_range(
    cands: Seq<Preset>,
    name: Seq<char>,
    vendor: Option<Seq<char>>,
    from: int,
)
    ensures
        first_named(cands, name, vendor, from) matches Some(i) ==> from <= i < cands.len()
            && cands[i].name@ == name && vendor_matches(cands[i].vendor, vendor),
    decreases cands.len() - from,
{
    if from >= 0 && from < cands.len() {
        lemma_first_named_in_range(cands, name, vendor, from + 1);
    }
}

/// The parent that `child` inherits from among `cands`: among the presets
/// named by `inherits`, the first of the child's vendor, else the first.
pub open spec fn spec_pick_parent(cands: Seq<Preset>, child: Preset) -> Option<int> {
    match child.inherits {
        None => None,
        Some(parent) => match child.vendor {
            Some(v) => match first_named(cands, parent@, Some(v@), 0) {
                Some(i) => Some(i),
                None => first_named(cands, parent@, None, 0),
            },
            None => first_named(cands, parent@, None, 0),
        },
    }
}

/// The chain from `cur` up to its root, leaf first, stopping at a missing
/// parent or at a name already met; at most `fuel` presets.
pub open spec fn chain_up(cands: Seq<Preset>, cur: Preset, seen: Set<Seq<char>>, fuel: nat) -> Seq<
    Preset,
>
    decreases fuel,
{
    if fuel == 0 || seen.contains(cur.name@) {
        Seq::empty()
    } else {
        match spec_pick_parent(cands, cur) {
            None => seq![cur],
            Some(i) => seq![cur] + chain_up(cands, cands[i], seen.insert(cur.name@), (fuel - 1) as nat),
        }
    }
}

/// The inheritance chain of `leaf`, root first, followed for at most
/// `cands.len() + 1` presets (enough to reach its end: see
/// [`law_chain_budget_suffices`]).
pub open spec fn spec_build_chain(cands: Seq<Preset>, leaf: Preset) -> Seq<Preset> {
    chain_up(cands, leaf, Set::empty(), (cands.len() + 1) as nat).reverse()
}

proof fn lemma_chain_up_names(cands: Seq<Preset>, cur: Preset, seen: Set<Seq<char>>, fuel: nat)
    ensures
        forall|i: int|
            0 <= i < chain_up(cands, cur, seen, fuel).len() ==> !seen.contains(
                (#[trigger] chain_up(cands, cur, seen, fuel)[i]).name@,
            ),
        forall|i: int, j: int|
            0 <= i < j < chain_up(cands, cur, seen, fuel).len() ==> (#[trigger] chain_up(
                cands,
                cur,
                seen,
                fuel,
            )[i]).name@ != (#[trigger] chain_up(cands, cur, seen, fuel)[j]).name@,
    decreases fuel,
{
    if fuel > 0 && !seen.contains(cur.name@) {
        if let Some(k) = spec_pick_parent(cands, cur) {
            let s2 = seen.insert(cur.name@);
            lemma_chain_up_names(cands, cands[k], s2, (fuel - 1) as nat);
            let tail = chain_up(cands, cands[k], s2, (fuel - 1) as nat);
            let ch = chain_up(cands, cur, seen, fuel);
            assert(ch == seq![cur] + tail);
            assert forall|i: int| 0 <= i < ch.len() implies !seen.contains((#[trigger] ch[i]).name@) by {
                if i > 0 {
                    assert(ch[i] == tail[i - 1]);
                    assert(!s2.contains(tail[i - 1].name@));
                }
            }
            assert forall|i: int, j: int| 0 <= i < j < ch.len() implies (#[trigger] ch[i]).name@
                != (#[trigger] ch[j]).name@ by {
                assert(ch[j] == tail[j - 1]);
                assert(!s2.contains(tail[j - 1].name@));
                if i > 0 {
                    assert(ch[i] == tail[i - 1]);
                }
            }
        }
    }
}

/// The inheritance chain of a preset ends with the preset itself, and no
/// name occurs twice in it: an inheritance cycle is cut where it closes.
pub proof fn law_chain_ends_at_leaf_without_repeats(cands: Seq<Preset>, leaf: Preset)
    ensures
        spec_build_chain(cands, leaf).len() >= 1,
        spec_build_chain(cands, leaf).last() == leaf,
        forall|i: int, j: int|
            0 <= i < j < spec_build_chain(cands, leaf).len() ==> (#[trigger] spec_build_chain(
                cands,
                leaf,
            )[i]).name@ != (#[trigger] spec_build_chain(cands, leaf)[j]).name@,
{
    let fuel = (cands.len() + 1) as nat;
    let up = chain_up(cands, leaf, Set::empty(), fuel);
    lemma_chain_up_names(cands, leaf, Set::empty(), fuel);
    assert(up.len() >= 1 && up[0] == leaf);
    let ch = spec_build_chain(cands, leaf);
    assert(ch == up.reverse());
    assert(ch.last() == up[0]);
    assert forall|i: int, j: int| 0 <= i < j < ch.len() implies (#[trigger] ch[i]).name@
        != (#[trigger] ch[j]).name@ by {
        assert(ch[i] == up[up.len() - 1 - i]);
        assert(ch[j] == up[up.len() - 1 - j]);
    }
}

/// `parent` is the preset that `child` inherits from among `cands`.
pub open spec fn parent_is(cands: Seq<Preset>, child: Preset, parent: Preset) -> bool {
    spec_pick_parent(cands, child) matches Some(k) && cands[k] == parent
}

/// The names of the candidates.
pub open spec fn candidate_names(cands: Seq<Preset>) -> Set<Seq<char>> {
    Seq::new(cands.len(), |i: int| cands[i].name@).to_set()
}

proof fn lemma_chain_up_fuel(
    cands: Seq<Preset>,
    cur: Preset,
    seen: Set<Seq<char>>,
    fuel: nat,
    fuel2: nat,
)
    requires
        seen.finite(),
        candidate_names(cands).contains(cur.name@),
        fuel >= candidate_names(cands).difference(seen).len(),
        fuel2 >= fuel,
    ensures
        chain_up(cands, cur, seen, fuel) == chain_up(cands, cur, seen, fuel2),
    decreases fuel,
{
    broadcast use vstd::seq_lib::seq_to_set_is_finite;

    let names = candidate_names(cands);
    if !seen.contains(cur.name@) {
        let rest = names.difference(seen);
        assert(rest.contains(cur.name@));
        assert(rest.finite());
        assert(rest.len() >= 1) by {
            if rest.len() == 0 {
                rest.lemma_len0_is_empty();
            }
        }
        if let Some(k) = spec_pick_parent(cands, cur) {
            let s2 = seen.insert(cur.name@);
            assert(names.difference(s2) =~= rest.remove(cur.name@));
            lemma_first_named_in_range_any(cands, cur);
            let p = cands[k];
            let sq = Seq::new(cands.len(), |i: int| cands[i].name@);
            assert(sq[k] == p.name@);
            assert(names.contains(p.name@));
            lemma_chain_up_fuel(cands, p, s2, (fuel - 1) as nat, (fuel2 - 1) as nat);
        }
    }
}

proof fn lemma_first_named_in_range_any(cands: Seq<Preset>, child: Preset)
    ensures
        spec_pick_parent(cands, child) matches Some(k) ==> 0 <= k < cands.len(),
{
    if let Some(parent) = child.inherits {
        lemma_first_named_in_range(cands, parent@, None, 0);
        if let Some(v) = child.vendor {
            lemma_first_named_in_range(cands, parent@, Some(v@), 0);
        }
    }
}

/// The chain is complete: following `inherits` with any larger budget
/// than `cands.len() + 1` presets gives the same chain, so the budget of
/// [`spec_build_chain`] never cuts a chain short.
pub proof fn law_chain_budget_suffices(cands: Seq<Preset>, leaf: Preset, budget: nat)
    requires
        budget >= cands.len() + 1,
    ensures
        spec_build_chain(cands, leaf) == chain_up(cands, leaf, Set::empty(), budget).reverse(),
{
    broadcast use vstd::seq_lib::seq_to_set_is_finite;

    let n = cands.len();
    let names = candidate_names(cands);
    let sq = Seq::new(cands.len(), |i: int| cands[i].name@);
    sq.lemma_cardinality_of_set();
    if let Some(k) = spec_pick_parent(cands, leaf) {
        let s1 = Set::<Seq<char>>::empty().insert(leaf.name@);
        lemma_first_named_in_range_any(cands, leaf);
        assert(sq[k] == cands[k].name@);
        assert(names.contains(cands[k].name@));
        assert(names.difference(s1).subset_of(names));
        vstd::set_lib::lemma_len_subset(names.difference(s1), names);
        lemma_chain_up_fuel(cands, cands[k], s1, n as nat, (budget - 1) as nat);
    }
}

/// Each preset of the chain inherits from the one before it: the parent
/// picked for element `i + 1` is element `i`.
pub proof fn law_chain_links_parents(cands: Seq<Preset>, leaf: Preset)
    ensures
        forall|i: int|
            0 <= i < spec_build_chain(cands, leaf).len() - 1 ==> #[trigger] parent_is(
                cands,
                spec_build_chain(cands, leaf)[i + 1],
                spec_build_chain(cands, leaf)[i],
            ),
{
    let fuel = (cands.len() + 1) as nat;
    let up = chain_up(cands, leaf, Set::empty(), fuel);
    lemma_chain_up_links(cands, leaf, Set::empty(), fuel);
    let ch = spec_build_chain(cands, leaf);
    assert forall|i: int| 0 <= i < ch.len() - 1 implies #[trigger] parent_is(cands, ch[i + 1], ch[i]) by {
        let a = up.len() - 2 - i;
        assert(ch[i + 1] == up[a]);
        assert(ch[i] == up[a + 1]);
    }
}

proof fn lemma_chain_up_links(cands: Seq<Preset>, cur: Preset, seen: Set<Seq<char>>, fuel: nat)
    ensures
        forall|a: int|
            0 <= a < chain_up(cands, cur, seen, fuel).len() - 1 ==> #[trigger] parent_is(
                cands,
                chain_up(cands, cur, seen, fuel)[a],
                chain_up(cands, cur, seen, fuel)[a + 1],
            ),
    decreases fuel,
{
    if fuel > 0 && !seen.contains(cur.name@) {
        if let Some(k) = spec_pick_parent(cands, cur) {
            let s2 = seen.insert(cur.name@);
            lemma_chain_up_links(cands, cands[k], s2, (fuel - 1) as nat);
            let tail = chain_up(cands, cands[k], s2, (fuel - 1) as nat);
            let ch = chain_up(cands, cur, seen, fuel);
            assert(ch == seq![cur] + tail);
            assert forall|a: int| 0 <= a < ch.len() - 1 implies #[trigger] parent_is(cands, ch[a], ch[a + 1]) by {
                if a == 0 {
                    assert(ch[0] == cur);
                    if tail.len() > 0 {
                        assert(fuel - 1 > 0);
                        assert(tail[0] == cands[k]);
                    }
                    assert(ch[1] == tail[0]);
                    assert(parent_is(cands, cur, cands[k]));
                } else {
                    assert(ch[a] == tail[a - 1]);
                    assert(ch[a + 1] == tail[a]);
                    assert(parent_is(cands, tail[a - 1], tail[(a - 1) + 1]));
                }
            }
        }
    }
}

fn copy_opt_string(o: &Option<String>) -> (r: Option<String>)
    ensures
        r == *o,
{
    match o {
        Some(s) => Some(s.clone()),
        None => None,
    }
}

/// An exact copy of a preset.
pub fn copy_preset(p: &Preset) -> (r: Preset)
    ensures
        r == *p,
{
    Preset {
        id: p.id,
        kind: p.kind,
        name: p.name.clone(),
        origin: p.origin,
        user_id: p.user_id,
        vendor: copy_opt_string(&p.vendor),
        inherits: copy_opt_string(&p.inherits),
        instantiation: p.instantiation,
        setting_id: copy_opt_string(&p.setting_id),
        filament_id: copy_opt_string(&p.filament_id),
        compatible_printers: copy_opt_string(&p.compatible_printers),
        values: p.values.clone(),
    }
}

fn same_text(a: &String, b: &String) -> (r: bool)
    ensures
        r == (a@ == b@),
{
    *a == *b
}

fn first_named_exec(cands: &Vec<Preset>, name: &String, vendor: Option<&String>) -> (r: Option<
    usize,
>)
    ensures
        match first_named(
            cands@,
            name@,
            match vendor {
                Some(v) => Some(v@),
                None => None,
            },
            0,
        ) {
            Some(i) => r is Some && r->0 == i,
            None => r is None,
        },
{
    let ghost wanted: Option<Seq<char>> = match vendor {
        Some(v) => Some(v@),
        None => None,
    };
    let mut i: usize = 0;
    while i < cands.len()
        invariant
            i <= cands.len(),
            first_named(cands@, name@, wanted, 0) == first_named(cands@, name@, wanted, i as int),
            wanted == (match vendor {
                Some(v) => Some(v@),
                None => None::<Seq<char>>,
            }),
        decreases cands.len() - i,
    {
        let c = &cands[i];
        let vendor_ok = match vendor {
            None => true,
            Some(v) => match &c.vendor {
                Some(cv) => same_text(cv, v),
                None => false,
            },
        };
        assert(vendor_ok == vendor_matches(c.vendor, wanted));
        if same_text(&c.name, name) && vendor_ok {
            return Some(i);
        }
        assert(first_named(cands@, name@, wanted, i as int) == first_named(
            cands@,
            name@,
            wanted,
            i + 1,
        ));
        i = i + 1;
    }
    None
}

/// Index of the parent of `child` among `candidates` (see
/// [`spec_pick_parent`]).
pub fn pick_parent(candidates: &Vec<Preset>, child: &Preset) -> (r: Option<usize>)
    ensures
        match spec_pick_parent(candidates@, *child) {
            Some(i) => r is Some && r->0 == i,
            None => r is None,
        },
        r matches Some(i) ==> i < candidates.len(),
{
    match &child.inherits {
        None => None,
        Some(parent) => {
            proof {
                lemma_first_named_in_range(candidates@, parent@, None, 0);
                if child.vendor is Some {
                    lemma_first_named_in_range(candidates@, parent@, Some(child.vendor->0@), 0);
                }
            }
            if let Some(v) = &child.vendor {
                if let Some(i) = first_named_exec(candidates, parent, Some(v)) {
                    return Some(i);
                }
            }
            first_named_exec(candidates, parent, None)
        },
    }
}

fn name_seen(seen: &Vec<String>, name: &String) -> (r: bool)
    ensures
        r == exists|i: int| 0 <= i < seen@.len() && seen@[i]@ == name@,
{
    let mut i: usize = 0;
    while i < seen.len()
        invariant
            i <= seen.len(),
            forall|j: int| 0 <= j < i ==> seen@[j]@ != name@,
        decreases seen.len() - i,
    {
        if seen[i] == *name {
            return true;
        }
        i = i + 1;
    }
    false
}

/// The inheritance chain of `leaf` among `candidates`, root first.
pub fn build_chain(candidates: &Vec<Preset>, leaf: &Preset) -> (r: Vec<Preset>)
    ensures
        r@ == spec_build_chain(candidates@, *leaf),
{
    let ghost cands = candidates@;
    let ghost total = chain_up(cands, *leaf, Set::empty(), (cands.len() + 1) as nat);
    let mut up: Vec<Preset> = Vec::new();
    let mut seen: Vec<String> = Vec::new();
    let ghost mut seen_set: Set<Seq<char>> = Set::empty();
    let mut cur = copy_preset(leaf);
    let mut step: u128 = 0;
    while step <= candidates.len() as u128
        invariant_except_break
            up@ + chain_up(cands, cur, seen_set, (cands.len() + 1 - step) as nat) == total,
        invariant
            cands == candidates@,
            step <= candidates.len() + 1,
            forall|x: Seq<char>|
                seen_set.contains(x) <==> exists|i: int| 0 <= i < seen@.len() && seen@[i]@ == x,
        ensures
            up@ == total,
        decreases candidates.len() + 1 - step,
    {
        let ghost fuel = (cands.len() + 1 - step) as nat;
        if name_seen(&seen, &cur.name) {
            assert(seen_set.contains(cur.name@));
            assert(up@ + Seq::<Preset>::empty() =~= up@);
            break;
        }
        let parent = pick_parent(candidates, &cur);
        let ghost old_up = up@;
        let ghost old_cur = cur;
        let ghost old_set = seen_set;
        let ghost old_seen = seen@;
        up.push(copy_preset(&cur));
        seen.push(cur.name.clone());
        proof {
            seen_set = seen_set.insert(old_cur.name@);
            assert forall|x: Seq<char>| seen_set.contains(x) <==> exists|i: int|
                0 <= i < seen@.len() && seen@[i]@ == x by {
                assert(seen@ == old_seen.push(old_cur.name));
                if seen_set.contains(x) {
                    if x == old_cur.name@ {
                        assert(seen@[seen@.len() - 1]@ == x);
                    } else {
                        assert(old_set.contains(x));
                        let i = choose|i: int| 0 <= i < old_seen.len() && old_seen[i]@ == x;
                        assert(seen@[i]@ == x);
                    }
                }
                if exists|i: int| 0 <= i < seen@.len() && seen@[i]@ == x {
                    let i = choose|i: int| 0 <= i < seen@.len() && seen@[i]@ == x;
                    if i < seen@.len() - 1 {
                        assert(old_seen[i]@ == x);
                        assert(old_set.contains(x));
                    }
                }
            }
            assert(up@ =~= old_up + seq![old_cur]);
        }
        match parent {
            None => {
                break;
            },
            Some(i) => {
                cur = copy_preset(&candidates[i]);
                step = step + 1;
                assert(old_up + chain_up(cands, old_cur, old_set, fuel) == total);
                assert(chain_up(cands, old_cur, old_set, fuel) == seq![old_cur] + chain_up(
                    cands,
                    cur,
                    seen_set,
                    (fuel - 1) as nat,
                ));
                assert(up@ + chain_up(cands, cur, seen_set, (fuel - 1) as nat) =~= old_up
                    + chain_up(cands, old_cur, old_set, fuel));
            },
        }
    }
    let mut r: Vec<Preset> = Vec::new();
    let mut k: usize = up.len();
    while k > 0
        invariant
            k <= up.len(),
            r@ == up@.subrange(k as int, up@.len() as int).reverse(),
        decreases k,
    {
        k = k - 1;
        r.push(copy_preset(&up[k]));
        assert(r@ =~= up@.subrange(k as int, up@.len() as int).reverse());
    }
    assert(up@.subrange(0, up@.len() as int) =~= up@);
    r
}

} // verus!
