use backend::entities::Printer;
use backend::ids::{GcodeId, PresetId, PrinterId, UserId};
use backend::queue::{settle, JobEvent, JobOutcome, QueueConfig, RunOutcome, RunningJobs};
use backend::scene_doc::{
    all_object_ids, off_bed_ids, plate_object_ids, PlatesField, SceneDoc, SceneObject, ScenePlate,
};
use backend::entities::JobStatus;
use backend::ids::JobId;
use backend::slicing::{
    check_model_not_empty, check_not_cancelled, engine_plate_index, check_plates, check_printer_owned, collect_active_ids, runner_outcome, slice_targets,
};

fn s(v: &[&str]) -> Vec<String> {
    v.iter().map(|x| x.to_string()).collect()
}

#[test]
fn targets_are_one_plate_or_all() {
    assert_eq!(slice_targets(None, 3).unwrap(), vec![0, 1, 2]);
    assert_eq!(slice_targets(None, 0).unwrap(), vec![0]);
    assert_eq!(slice_targets(Some(1), 3).unwrap(), vec![1]);
    let e = slice_targets(Some(3), 3).unwrap_err();
    assert_eq!(e.status, 422);
    assert_eq!(e.message, "plate_index hors limites");
    let d: serde_json::Value = serde_json::from_str(e.details.as_deref().unwrap()).unwrap();
    assert_eq!(d["plate_index"], 3);
    assert_eq!(d["plate_count"], 3);
    assert!(slice_targets(Some(-1), 3).is_err());
}

#[test]
fn empty_or_off_bed_plates_are_refused() {
    let plates = vec![s(&["a", "b"]), vec![]];
    let all = s(&["a", "b"]);
    assert!(check_plates(&vec![0], &plates, &all, &vec![]).is_ok());
    let e = check_plates(&vec![0, 1], &plates, &all, &vec![]).unwrap_err();
    assert_eq!(e.message, "plateau vide (aucun objet à trancher)");
    let d: serde_json::Value = serde_json::from_str(e.details.as_deref().unwrap()).unwrap();
    assert_eq!(d["plate_index"], 1);
    let e = check_plates(&vec![0], &plates, &all, &s(&["b"])).unwrap_err();
    assert_eq!(e.message, "objet hors plateau : repositionner avant de trancher");
    // Without plates, the scene's objects are the plate.
    assert!(check_plates(&vec![0], &vec![], &all, &vec![]).is_ok());
    assert!(check_plates(&vec![0], &vec![], &vec![], &vec![]).is_err());
}

#[test]
fn the_printer_preset_must_be_owned() {
    let preset = PresetId::new();
    let printer = Printer {
        id: PrinterId::new(),
        user_id: UserId::new(),
        name: "p".to_string(),
        moonraker_url: "http://p".to_string(),
        api_key: None,
        machine_preset_id: preset,
    };
    assert!(check_printer_owned(None, &vec![]).is_ok());
    assert!(check_printer_owned(Some(&preset.to_text()), &vec![printer.clone()]).is_ok());
    let e = check_printer_owned(Some(&PresetId::new().to_text()), &vec![printer]).unwrap_err();
    assert_eq!((e.status, e.code.as_str()), (403, "printer_not_owned"));
    assert_eq!(check_printer_owned(Some("x"), &vec![]).unwrap_err().status, 422);
}

#[test]
fn active_presets_are_collected_in_order() {
    let a = PresetId::new();
    let b = PresetId::new();
    let c = PresetId::new();
    let ids = collect_active_ids(Some(&a.to_text()), Some(&b.to_text()), &vec![c.to_text()]).unwrap();
    assert_eq!(ids, vec![a, b, c]);
    let ids = collect_active_ids(None, None, &vec![]).unwrap();
    assert!(ids.is_empty());
    let e = collect_active_ids(None, Some("nope"), &vec![]).unwrap_err();
    assert_eq!(e.message, "preset actif invalide");
    let d: serde_json::Value = serde_json::from_str(e.details.as_deref().unwrap()).unwrap();
    assert_eq!(d["id"], "nope");
}

#[test]
fn runner_outcomes() {
    let g = GcodeId::new();
    assert_eq!(runner_outcome(true, Ok((g, "{}".to_string())), false), RunOutcome::Cancelled);
    assert_eq!(
        runner_outcome(false, Ok((g, "{}".to_string())), false),
        RunOutcome::Succeeded { gcode_id: g, stats: "{}".to_string() }
    );
    assert_eq!(runner_outcome(false, Err("x".to_string()), true), RunOutcome::Cancelled);
    match runner_outcome(false, Err("moteur \"KO\"".to_string()), false) {
        RunOutcome::Failed(detail) => {
            let d: serde_json::Value = serde_json::from_str(&detail).unwrap();
            assert_eq!(d["message"], "moteur \"KO\"");
        }
        other => panic!("{other:?}"),
    }
}

#[test]
fn finished_jobs_are_recorded_and_announced() {
    let id = JobId::new();
    let g = GcodeId::new();
    let ok = settle(id, RunOutcome::Succeeded { gcode_id: g, stats: "{}".to_string() });
    assert_eq!(ok.record, Some(JobOutcome::Succeeded { gcode_id: g }));
    assert_eq!(ok.event, JobEvent::Finished { id, gcode_id: Some(g), stats: "{}".to_string() });
    let failed = settle(id, RunOutcome::Failed("{\"message\":\"x\"}".to_string()));
    assert_eq!(
        failed.record,
        Some(JobOutcome::Failed { error: "{\"message\":\"x\"}".to_string() })
    );
    match failed.event {
        JobEvent::Settled { status, phase, error, .. } => {
            assert_eq!(status, JobStatus::Failed);
            assert_eq!(phase, "failed");
            assert!(error.is_some());
        }
        other => panic!("{other:?}"),
    }
    let cancelled = settle(id, RunOutcome::Cancelled);
    assert_eq!(cancelled.record, None, "la transition cancelled n'est pas écrasée");
    assert!(matches!(
        cancelled.event,
        JobEvent::Settled { status: JobStatus::Cancelled, .. }
    ));
    let config = QueueConfig::default();
    assert_eq!((config.workers, config.poll_interval_ms), (2, 200));
}

#[test]
fn cancel_reaches_only_running_jobs() {
    let mut running = RunningJobs::new();
    let (a, b) = (JobId::new(), JobId::new());
    assert!(!running.cancel_target(a));
    running.start(a);
    running.start(b);
    assert!(running.cancel_target(a));
    running.finish(a);
    assert!(!running.cancel_target(a));
    assert!(running.cancel_target(b));
}

fn plate(ids: &[Option<&str>]) -> ScenePlate {
    ScenePlate { object_ids: Some(ids.iter().map(|x| x.map(|t| t.to_string())).collect()) }
}

fn object(id: Option<&str>, off_bed: Option<bool>) -> SceneObject {
    SceneObject { id: id.map(|t| t.to_string()), off_bed }
}

#[test]
fn scene_readers_take_both_shapes() {
    let objects = Some(vec![
        object(Some("a"), Some(false)),
        object(Some("b"), Some(true)),
        object(None, Some(true)),
        object(Some("c"), None),
    ]);
    let flat = SceneDoc {
        plates: PlatesField::Array(vec![plate(&[Some("a"), None, Some("b")]), ScenePlate { object_ids: None }]),
        objects: objects.clone(),
    };
    assert_eq!(plate_object_ids(&flat), vec![s(&["a", "b"]), s(&[])]);
    assert_eq!(all_object_ids(&flat), s(&["a", "b", "c"]));
    assert_eq!(off_bed_ids(&flat), s(&["b"]));

    let doc = SceneDoc { plates: PlatesField::Document(Some(vec![plate(&[Some("c")])])), objects: None };
    assert_eq!(plate_object_ids(&doc), vec![s(&["c"])]);
    assert!(all_object_ids(&doc).is_empty());
    assert!(off_bed_ids(&doc).is_empty());

    let none = SceneDoc { plates: PlatesField::Document(None), objects };
    assert!(plate_object_ids(&none).is_empty());
    let other = SceneDoc { plates: PlatesField::Other, objects: None };
    assert!(plate_object_ids(&other).is_empty());
}

#[test]
fn slicing_run_steps() {
    assert_eq!(check_model_not_empty(2), Ok(()));
    assert_eq!(check_model_not_empty(0), Err("aucun objet à trancher (modèles STL absents)".to_string()));
    assert_eq!(check_not_cancelled(false), Ok(()));
    assert_eq!(check_not_cancelled(true), Err("annulé".to_string()));
    assert_eq!(engine_plate_index(-3), 0);
    assert_eq!(engine_plate_index(2), 2);
    assert_eq!(engine_plate_index(0x1_0000_0002), 2);
}
