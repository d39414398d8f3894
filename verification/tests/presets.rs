use backend::entities::{Preset, PresetKind, PresetOrigin};
use backend::ids::{PresetId, UserId};
use backend::presets::{
    build_chain, check_visible, kind_str, new_user_preset, parse_kind, parse_preset_id,
    pick_parent,
};

fn preset(name: &str, vendor: Option<&str>, inherits: Option<&str>) -> Preset {
    Preset {
        id: PresetId::new(),
        kind: PresetKind::Process,
        name: name.to_string(),
        origin: PresetOrigin::System,
        user_id: None,
        vendor: vendor.map(str::to_string),
        inherits: inherits.map(str::to_string),
        instantiation: true,
        setting_id: None,
        filament_id: None,
        compatible_printers: None,
        values: "{}".to_string(),
    }
}

fn names(chain: &[Preset]) -> Vec<&str> {
    chain.iter().map(|p| p.name.as_str()).collect()
}

#[test]
fn kinds_have_wire_names() {
    assert_eq!(kind_str(PresetKind::MachineModel), "machine_model");
    assert_eq!(kind_str(PresetKind::Filament), "filament");
    assert_eq!(parse_kind("machine"), Ok(PresetKind::Machine));
    let e = parse_kind("bogus").unwrap_err();
    assert_eq!(e.status, 422);
    assert_eq!(e.message, "valeur invalide pour « kind »");
    let details: serde_json::Value = serde_json::from_str(e.details.as_deref().unwrap()).unwrap();
    assert_eq!(details["field"], "kind");
    assert_eq!(details["value"], "bogus");
}

#[test]
fn chain_runs_from_root_to_leaf() {
    let root = preset("fdm_process_common", None, None);
    let mid = preset("0.20mm Standard", Some("Voron"), Some("fdm_process_common"));
    let leaf = preset("0.20mm Mine", Some("Voron"), Some("0.20mm Standard"));
    let cands = vec![mid.clone(), root.clone(), leaf.clone()];
    let chain = build_chain(&cands, &leaf);
    assert_eq!(names(&chain), vec!["fdm_process_common", "0.20mm Standard", "0.20mm Mine"]);
}

#[test]
fn same_vendor_is_preferred_among_homonyms() {
    let other = preset("base", Some("Other"), None);
    let mine = preset("base", Some("Voron"), None);
    let leaf = preset("leaf", Some("Voron"), Some("base"));
    let cands = vec![other.clone(), mine.clone()];
    assert_eq!(pick_parent(&cands, &leaf), Some(1));
    let no_vendor = preset("leaf", None, Some("base"));
    assert_eq!(pick_parent(&cands, &no_vendor), Some(0));
    let chain = build_chain(&cands, &leaf);
    assert_eq!(chain[0].vendor.as_deref(), Some("Voron"));
}

#[test]
fn missing_parent_is_a_root_and_cycles_are_cut() {
    let orphan = preset("orphan", None, Some("nowhere"));
    assert_eq!(names(&build_chain(&vec![], &orphan)), vec!["orphan"]);
    let a = preset("a", None, Some("b"));
    let b = preset("b", None, Some("a"));
    let chain = build_chain(&vec![a.clone(), b.clone()], &a);
    assert_eq!(names(&chain), vec!["b", "a"]);
}

#[test]
fn user_presets_of_others_are_invisible() {
    let me = UserId::new();
    let mut p = preset("mine", None, None);
    p.origin = PresetOrigin::User;
    p.user_id = Some(me);
    assert!(check_visible(p.clone(), me).is_ok());
    let e = check_visible(p, UserId::new()).unwrap_err();
    assert_eq!((e.status, e.message.as_str()), (404, "Preset introuvable"));
    assert_eq!((e.code.as_str(), e.details), ("not_found", None));
    assert!(check_visible(preset("system", None, None), me).is_ok());
    assert_eq!(parse_preset_id("pas-un-uuid").unwrap_err().status, 404);
}

#[test]
fn new_user_presets_are_named_and_owned() {
    let me = UserId::new();
    let p = new_user_preset(me, PresetKind::Filament, "  PLA  ", None, None).unwrap();
    assert_eq!(p.name, "PLA");
    assert_eq!(p.origin, PresetOrigin::User);
    assert_eq!(p.user_id, Some(me));
    assert_eq!(p.values, "{}");
    assert!(p.instantiation);
    let e = new_user_preset(me, PresetKind::Filament, "   ", None, None).unwrap_err();
    assert_eq!(e.message, "le nom du preset est requis");
}
