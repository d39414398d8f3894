//! Rules of a slicing request: which plates are targeted, the guards that
//! refuse to slice an empty plate or an object off the bed, the ownership
//! of the printer preset, the active presets to resolve, and the outcome
//! the runner reports. The scene document is read, the presets resolved and
//! the engine run by the caller.

use vstd::prelude::*;

use crate::api_error::ApiError;
use crate::entities::Printer;
use crate::errors::{concat2, decimal, decimal_text, i64_text, int_text};
use crate::ids::{uuid_parse, GcodeId, PresetId};
use crate::json_text::{json_quoted, object_with_int, object_with_string, int_object, string_object};
use crate::queue::RunOutcome;
use crate::text::string_of;

verus! {

/// Number of plates of a scene: at least one.
pub open spec fn plate_count(plates: nat) -> nat {
    if plates == 0 {
        1
    } else {
        plates
    }
}

/// `{"plate_index":<n>,"plate_count":<c>}`.
pub open spec fn bounds_details(n: int, c: nat) -> Seq<char> {
    "{\"plate_index\":"@ + int_text(n) + ",\"plate_count\":"@ + decimal(c) + "}"@
}

/// The plates to slice: the requested one, which must exist, or else every
/// plate of the scene (`0 .. plate_count`).
pub fn slice_targets(plate_index: Option<i64>, plates: usize) -> (r: Result<Vec<i64>, ApiError>)
    requires
        plates < i64::MAX,
    ensures
        match plate_index {
            Some(n) => if 0 <= n < plate_count(plates as nat) {
                r is Ok && r->Ok_0@ == seq![n]
            } else {
                r is Err && r->Err_0.status == 422 && r->Err_0.message@
                    == "plate_index hors limites"@ && r->Err_0.details is Some
                    && r->Err_0.details->0@ == bounds_details(n as int, plate_count(plates as nat))
            },
            None => r is Ok && r->Ok_0@.len() == plate_count(plates as nat) && forall|i: int|
                0 <= i < r->Ok_0@.len() ==> #[trigger] r->Ok_0@[i] == i,
        },
{
    let count: usize = if plates == 0 {
        1
    } else {
        plates
    };
    match plate_index {
        Some(n) => {
            assert(count as nat == plate_count(plates as nat));
            if n < 0 || (n as u64) >= (count as u64) {
                let a = concat2("{\"plate_index\":", i64_text(n).as_str());
                let b = concat2(a.as_str(), ",\"plate_count\":");
                let c = concat2(b.as_str(), string_of(&decimal_text(count as u128)).as_str());
                let details = concat2(c.as_str(), "}");
                return Err(ApiError::validation("plate_index hors limites", details));
            }
            let mut v: Vec<i64> = Vec::new();
            v.push(n);
            assert(v@ =~= seq![n]);
            Ok(v)
        },
        None => {
            let mut v: Vec<i64> = Vec::new();
            let mut i: usize = 0;
            while i < count
                invariant
                    count < i64::MAX,
                    i <= count,
                    v@.len() == i,
                    forall|j: int| 0 <= j < i ==> #[trigger] v@[j] == j,
                decreases count - i,
            {
                v.push(i as i64);
                i = i + 1;
            }
            Ok(v)
        },
    }
}

/// Object ids of plate `t`, or every object of the scene when the scene
/// has no such plate.
pub open spec fn plate_ids(plates: Seq<Seq<Seq<char>>>, all: Seq<Seq<char>>, t: int) -> Seq<
    Seq<char>,
> {
    if 0 <= t < plates.len() {
        plates[t]
    } else {
        all
    }
}

/// Why plate `t` cannot be sliced, if it cannot: `0` when it is empty, `1`
/// when one of its objects is off the bed.
pub open spec fn plate_fault(
    plates: Seq<Seq<Seq<char>>>,
    all: Seq<Seq<char>>,
    off_bed: Seq<Seq<char>>,
    t: int,
) -> Option<int> {
    let ids = plate_ids(plates, all, t);
    if ids.len() == 0 {
        Some(0)
    } else if exists|i: int| 0 <= i < ids.len() && off_bed.contains(#[trigger] ids[i]) {
        Some(1)
    } else {
        None
    }
}

/// Index of the first target, from `k` on, whose plate cannot be sliced.
pub open spec fn first_faulty(
    targets: Seq<i64>,
    plates: Seq<Seq<Seq<char>>>,
    all: Seq<Seq<char>>,
    off_bed: Seq<Seq<char>>,
    k: int,
) -> Option<int>
    decreases targets.len() - k,
{
    if k < 0 || k >= targets.len() {
        None
    } else if plate_fault(plates, all, off_bed, targets[k] as int) is Some {
        Some(k)
    } else {
        first_faulty(targets, plates, all, off_bed, k + 1)
    }
}

fn contains_text(set: &Vec<String>, x: &String) -> (r: bool)
    ensures
        r == set.deep_view().contains(x@),
{
    let mut i: usize = 0;
    while i < set.len()
        invariant
            i <= set.len(),
            forall|j: int| 0 <= j < i ==> set@[j]@ != x@,
        decreases set.len() - i,
    {
        if set[i] == *x {
            assert(set.deep_view()[i as int] == x@);
            return true;
        }
        i = i + 1;
    }
    proof {
        if set.deep_view().contains(x@) {
            let j = choose|j: int| 0 <= j < set.deep_view().len() && set.deep_view()[j] == x@;
            assert(set@[j]@ == x@);
        }
    }
    false
}

/// Guard before slicing: every targeted plate must hold objects, none of
/// them off the bed. The first faulty target, in order, is reported.
pub fn check_plates(
    targets: &Vec<i64>,
    plates: &Vec<Vec<String>>,
    all_ids: &Vec<String>,
    off_bed: &Vec<String>,
) -> (r: Result<(), ApiError>)
    ensures
        match first_faulty(targets@, plates.deep_view(), all_ids.deep_view(), off_bed.deep_view(), 0) {
            None => r is Ok,
            Some(k) => r is Err && r->Err_0.status == 422 && r->Err_0.details is Some
                && r->Err_0.details->0@ == object_with_int("plate_index"@, targets@[k] as int) && (
            if plate_fault(
                plates.deep_view(),
                all_ids.deep_view(),
                off_bed.deep_view(),
                targets@[k] as int,
            ) == Some(0int) {
                r->Err_0.message@ == "plateau vide (aucun objet à trancher)"@
            } else {
                r->Err_0.message@ == "objet hors plateau : repositionner avant de trancher"@
            }),
        },
{
    let ghost pv = plates.deep_view();
    let ghost av = all_ids.deep_view();
    let ghost ov = off_bed.deep_view();
    let mut k: usize = 0;
    while k < targets.len()
        invariant
            k <= targets.len(),
            pv == plates.deep_view(),
            av == all_ids.deep_view(),
            ov == off_bed.deep_view(),
            first_faulty(targets@, pv, av, ov, 0) == first_faulty(targets@, pv, av, ov, k as int),
        decreases targets.len() - k,
    {
        let t = targets[k];
        let in_scene = 0 <= t && (t as u64) < (plates.len() as u64);
        let ids: &Vec<String> = if in_scene {
            &plates[t as usize]
        } else {
            all_ids
        };
        proof {
            if in_scene {
                assert(pv[t as int] =~= plates@[t as int].deep_view());
            }
        }
        assert(ids.deep_view() =~= plate_ids(pv, av, t as int));
        if ids.len() == 0 {
            return Err(ApiError::validation("plateau vide (aucun objet à trancher)", int_object("plate_index", t)));
        }
        let mut i: usize = 0;
        let mut off = false;
        while i < ids.len()
            invariant
                i <= ids.len(),
                ov == off_bed.deep_view(),
                off == exists|j: int| 0 <= j < i && ov.contains(#[trigger] ids.deep_view()[j]),
            decreases ids.len() - i,
        {
            assert(ids.deep_view()[i as int] == ids@[i as int]@);
            if contains_text(off_bed, &ids[i]) {
                off = true;
            }
            i = i + 1;
        }
        assert(off == (plate_fault(pv, av, ov, t as int) is Some));
        if off {
            return Err(
                ApiError::validation(
                    "objet hors plateau : repositionner avant de trancher",
                    int_object("plate_index", t),
                ),
            );
        }
        assert(plate_fault(pv, av, ov, t as int) is None);
        assert(first_faulty(targets@, pv, av, ov, k as int) == first_faulty(
            targets@,
            pv,
            av,
            ov,
            k + 1,
        ));
        k = k + 1;
    }
    Ok(())
}

/// `{"id":"<raw>"}`.
pub open spec fn id_details(raw: Seq<char>) -> Seq<char> {
    object_with_string("id"@, raw)
}

/// Reads an active preset id; an unreadable one is a validation error.
pub fn parse_active_preset_id(raw: &str) -> (r: Result<PresetId, ApiError>)
    ensures
        match uuid_parse(raw@) {
            Some(n) => r == Ok::<PresetId, ApiError>(PresetId(n)),
            None => r is Err && r->Err_0.status == 422 && r->Err_0.message@
                == "preset actif invalide"@ && r->Err_0.details is Some && r->Err_0.details->0@
                == id_details(raw@),
        },
{
    match PresetId::parse(raw) {
        Some(id) => Ok(id),
        None => Err(ApiError::validation("preset actif invalide", string_object("id", raw))),
    }
}

/// Whether one of `owned` is declared with the machine preset `id`.
pub open spec fn owns_preset(owned: Seq<Printer>, id: u128) -> bool {
    exists|i: int| 0 <= i < owned.len() && (#[trigger] owned[i]).machine_preset_id.0 == id
}

/// Ownership guard: the active printer preset, when there is one, must be
/// that of a printer the account has declared.
pub fn check_printer_owned(printer: Option<&str>, owned: &Vec<Printer>) -> (r: Result<(), ApiError>)
    ensures
        match printer {
            None => r is Ok,
            Some(raw) => match uuid_parse(raw@) {
                None => r is Err && r->Err_0.status == 422 && r->Err_0.message@
                    == "preset actif invalide"@,
                Some(id) => if owns_preset(owned@, id) {
                    r is Ok
                } else {
                    r is Err && r->Err_0.status == 403 && r->Err_0.code@ == "printer_not_owned"@
                },
            },
        },
{
    let raw = match printer {
        None => return Ok(()),
        Some(raw) => raw,
    };
    let id = parse_active_preset_id(raw)?;
    let mut i: usize = 0;
    while i < owned.len()
        invariant
            i <= owned.len(),
            printer == Some(raw),
            uuid_parse(raw@) == Some(id.0),
            forall|j: int| 0 <= j < i ==> (#[trigger] owned@[j]).machine_preset_id.0 != id.0,
        decreases owned.len() - i,
    {
        if owned[i].machine_preset_id.0 == id.0 {
            assert(owns_preset(owned@, id.0));
            return Ok(());
        }
        i = i + 1;
    }
    Err(
        ApiError::printer_not_owned(
            "Imprimante non possédée : ajoutez-la à vos imprimantes avant de trancher",
        ),
    )
}

/// The preset references of the active presets, in the order printer,
/// process, then filaments.
pub open spec fn active_names(
    printer: Option<Seq<char>>,
    process: Option<Seq<char>>,
    filaments: Seq<Seq<char>>,
) -> Seq<Seq<char>> {
    (match printer {
        Some(p) => seq![p],
        None => Seq::empty(),
    }) + (match process {
        Some(p) => seq![p],
        None => Seq::empty(),
    }) + filaments
}

/// The ids written in `names`, or `None` when one is unreadable.
pub open spec fn parsed_ids(names: Seq<Seq<char>>) -> Option<Seq<u128>> {
    if forall|i: int| 0 <= i < names.len() ==> uuid_parse(#[trigger] names[i]) is Some {
        Some(Seq::new(names.len(), |i: int| uuid_parse(names[i])->0))
    } else {
        None
    }
}

/// Collects the ids of the active presets (the caller reads the `printer`
/// and `process` strings and the string entries of `filaments`). The first
/// unreadable id is a validation error.
pub fn collect_active_ids(
    printer: Option<&str>,
    process: Option<&str>,
    filaments: &Vec<String>,
) -> (r: Result<Vec<PresetId>, ApiError>)
    ensures
        match parsed_ids(
            active_names(
                match printer {
                    Some(p) => Some(p@),
                    None => None,
                },
                match process {
                    Some(p) => Some(p@),
                    None => None,
                },
                filaments.deep_view(),
            ),
        ) {
            Some(ids) => r is Ok && r->Ok_0@.len() == ids.len() && forall|i: int|
                0 <= i < ids.len() ==> (#[trigger] r->Ok_0@[i]).0 == ids[i],
            None => r is Err && r->Err_0.status == 422 && r->Err_0.message@
                == "preset actif invalide"@,
        },
{
    let mut named: Vec<String> = Vec::new();
    if let Some(p) = printer {
        named.push(p.to_owned());
    }
    if let Some(p) = process {
        named.push(p.to_owned());
    }
    let mut j: usize = 0;
    let ghost head = named.deep_view();
    while j < filaments.len()
        invariant
            j <= filaments.len(),
            named.deep_view() == head + filaments.deep_view().take(j as int),
        decreases filaments.len() - j,
    {
        let ghost before = named.deep_view();
        named.push(filaments[j].clone());
        assert(named.deep_view() =~= before.push(filaments@[j as int]@));
        j = j + 1;
        assert(named.deep_view() =~= head + filaments.deep_view().take(j as int));
    }
    let ghost nv = named.deep_view();
    assert(filaments.deep_view().take(filaments.len() as int) =~= filaments.deep_view());
    assert(nv =~= (match printer {
        Some(p) => seq![p@],
        None => Seq::<Seq<char>>::empty(),
    }) + (match process {
        Some(p) => seq![p@],
        None => Seq::<Seq<char>>::empty(),
    }) + filaments.deep_view());
    let ghost pv: Option<Seq<char>> = match printer {
        Some(p) => Some(p@),
        None => None,
    };
    let ghost qv: Option<Seq<char>> = match process {
        Some(p) => Some(p@),
        None => None,
    };
    let ghost fv = filaments.deep_view();
    let mut ids: Vec<PresetId> = Vec::new();
    let mut i: usize = 0;
    while i < named.len()
        invariant
            i <= named.len(),
            nv == named.deep_view(),
            nv == active_names(pv, qv, fv),
            pv == (match printer {
                Some(p) => Some(p@),
                None => None::<Seq<char>>,
            }),
            qv == (match process {
                Some(p) => Some(p@),
                None => None::<Seq<char>>,
            }),
            fv == filaments.deep_view(),
            ids@.len() == i,
            forall|k: int| 0 <= k < i ==> uuid_parse(#[trigger] nv[k]) is Some,
            forall|k: int| 0 <= k < i ==> (#[trigger] ids@[k]).0 == uuid_parse(nv[k])->0,
        decreases named.len() - i,
    {
        assert(named@[i as int]@ == nv[i as int]);
        let id = match parse_active_preset_id(named[i].as_str()) {
            Ok(id) => id,
            Err(e) => {
                assert(uuid_parse(nv[i as int]) is None);
                assert(parsed_ids(nv) is None);
                return Err(e);
            },
        };
        ids.push(id);
        i = i + 1;
    }
    Ok(ids)
}

/// Outcome of a slicing run: cancelled before it starts; otherwise the
/// slicing result, a failure being reported as cancelled when the job was
/// cancelled meanwhile, else as `{"message": <text>}`.
pub fn runner_outcome(
    cancelled_before: bool,
    result: Result<(GcodeId, String), String>,
    cancelled_after: bool,
) -> (r: RunOutcome)
    ensures
        cancelled_before ==> r == RunOutcome::Cancelled,
        !cancelled_before ==> match result {
            Ok((gcode_id, stats)) => r == RunOutcome::Succeeded { gcode_id, stats },
            Err(message) => if cancelled_after {
                r == RunOutcome::Cancelled
            } else {
                r matches RunOutcome::Failed(d) && d@ == object_with_string("message"@, message@)
            },
        },
{
    if cancelled_before {
        return RunOutcome::Cancelled;
    }
    match result {
        Ok((gcode_id, stats)) => RunOutcome::Succeeded { gcode_id, stats },
        Err(message) => {
            if cancelled_after {
                RunOutcome::Cancelled
            } else {
                RunOutcome::Failed(string_object("message", message.as_str()))
            }
        },
    }
}


/// A slicing run refuses a model with no object to slice.
pub fn check_model_not_empty(object_count: usize) -> (r: Result<(), String>)
    ensures
        object_count > 0 ==> r is Ok,
        object_count == 0 ==> (r matches Err(m) && m@ == "aucun objet à trancher (modèles STL absents)"@),
{
    if object_count == 0 {
        Err("aucun objet à trancher (modèles STL absents)".to_owned())
    } else {
        Ok(())
    }
}

/// A slicing run stops before the engine starts when its job was
/// cancelled meanwhile.
pub fn check_not_cancelled(cancelled: bool) -> (r: Result<(), String>)
    ensures
        !cancelled ==> r is Ok,
        cancelled ==> (r matches Err(m) && m@ == "annulé"@),
{
    if cancelled {
        Err("annulé".to_owned())
    } else {
        Ok(())
    }
}

/// Plate index handed to the engine: a negative index counts as plate 0,
/// and the value is then truncated to 32 bits (`max(0) as u32`).
pub fn engine_plate_index(plate_index: i64) -> (r: u32)
    ensures
        plate_index < 0 ==> r == 0,
        plate_index >= 0 ==> r == plate_index % 0x1_0000_0000,
{
    if plate_index < 0 {
        0
    } else {
        let r = (plate_index as u64 % 0x1_0000_0000) as u32;
        r
    }
}

} // verus!
