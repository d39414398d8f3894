use backend::api_error::ApiError;
use backend::dto::{
    HealthResponse, InstanceResponse, LayerRange, ModelResponse, PresetSummary,
    PreviewSegmentType, PrinterResponse, PrinterUploadResponse, TestPrinterResponse,
    UserResponse,
};
use backend::entities::{
    InstanceSettings, Model, ModelFormat, Preset, PresetKind, PresetOrigin, Printer,
    RegistrationPolicy, Role, User, UserStatus,
};
use backend::ids::{ModelId, PresetId, PrinterId, ProjectId, UserId};
use backend::moonraker::{ServerInfo, UploadResult};

#[test]
fn health_response_serializes_to_stable_json() {
    let h = HealthResponse::ok();
    assert_eq!(h.status, "ok");
    assert_eq!(h.version, "0.1.0");
}

#[test]
fn not_found_repond_404_avec_enveloppe() {
    let e = ApiError::not_found("Projet");
    assert_eq!(e.status, 404);
    assert_eq!(e.code, "not_found");
    assert_eq!(e.message, "Projet introuvable");
    assert!(e.details.is_none(), "details absent si None");
}

#[test]
fn validation_repond_422_avec_details() {
    let e = ApiError::validation(
        "layer_height hors bornes",
        r#"{"key":"layer_height","min":0}"#.to_string(),
    );
    assert_eq!(e.status, 422);
    assert_eq!(e.code, "validation");
    let details: serde_json::Value = serde_json::from_str(e.details.as_deref().unwrap()).unwrap();
    assert_eq!(details["key"], "layer_height");
}

#[test]
fn conflit_et_session() {
    let e = ApiError::conflict("Version dépassée");
    assert_eq!(e.status, 409);
    assert_eq!(e.code, "conflict");
    assert_eq!(ApiError::unauthorized().status, 401);
}

#[test]
fn interne_ne_fuit_aucun_detail() {
    let e = ApiError::internal();
    assert_eq!(e.status, 500);
    assert_eq!(e.message, "Erreur interne");
    assert!(e.details.is_none());
}

#[test]
fn other_envelopes() {
    assert_eq!(ApiError::forbidden("non").status, 403);
    assert_eq!(ApiError::printer_not_owned("non").code, "printer_not_owned");
    assert_eq!(ApiError::too_large("gros").status, 413);
    assert_eq!(ApiError::not_implemented("plus tard").status, 501);
}

#[test]
fn user_response_never_exposes_the_hash() {
    let id = UserId::new();
    let u = User {
        id,
        email: "a@b.c".to_string(),
        password_hash: "$argon2id$secret".to_string(),
        role: Role::Admin,
        status: UserStatus::Disabled,
        created_at_unix_ns: 0,
        updated_at_unix_ns: 0,
    };
    let r = UserResponse::from_user(u);
    assert_eq!(r.id, id.to_text());
    assert_eq!(r.email, "a@b.c");
    assert_eq!(r.role, "admin");
    assert_eq!(r.status, "disabled");
}

#[test]
fn instance_response_names_the_policy() {
    let r = InstanceResponse::from_settings(InstanceSettings {
        registration_policy: RegistrationPolicy::Invite,
        upload_limit_bytes: 10,
    });
    assert_eq!(r.registration_policy, "invite");
    assert_eq!(r.upload_limit_bytes, 10);
    assert_eq!(InstanceSettings::initial().registration_policy, RegistrationPolicy::Open);
}

fn model(format: ModelFormat, mesh: Option<&str>) -> Model {
    Model {
        id: ModelId::new(),
        user_id: UserId::new(),
        project_id: Some(ProjectId::new()),
        filename: "pièce.step".to_string(),
        format,
        file_path: "/data/x".to_string(),
        mesh_path: mesh.map(str::to_string),
        size_bytes: 12,
        triangle_count: 0,
        repair_report: None,
    }
}

#[test]
fn conversion_is_pending_until_the_mesh_exists() {
    let pending = ModelResponse::from_model(model(ModelFormat::Step, None));
    assert!(pending.conversion_pending);
    assert!(!pending.has_mesh);
    assert_eq!(pending.format, "step");
    let done = ModelResponse::from_model(model(ModelFormat::Step, Some("/data/m.wsmh")));
    assert!(!done.conversion_pending);
    assert!(done.has_mesh);
    let stl = ModelResponse::from_model(model(ModelFormat::Stl, None));
    assert!(!stl.conversion_pending);
    assert_eq!(stl.format, "stl");
}

#[test]
fn printer_response_hides_the_key() {
    let p = Printer {
        id: PrinterId::new(),
        user_id: UserId::new(),
        name: "Voron".to_string(),
        moonraker_url: "http://voron:7125".to_string(),
        api_key: Some("chiffré".to_string()),
        machine_preset_id: PresetId::new(),
    };
    let r = PrinterResponse::from_printer(p.clone());
    assert!(r.has_api_key);
    assert_eq!(r.machine_preset_id, p.machine_preset_id.to_text());
    assert_eq!(r.name, "Voron");
}

#[test]
fn preset_summary_and_legend_entries() {
    let p = Preset {
        id: PresetId::new(),
        kind: PresetKind::MachineModel,
        name: "X1".to_string(),
        origin: PresetOrigin::System,
        user_id: None,
        vendor: Some("Bambu".to_string()),
        inherits: None,
        instantiation: false,
        setting_id: None,
        filament_id: None,
        compatible_printers: None,
        values: "{}".to_string(),
    };
    let s = PresetSummary::from_preset(p);
    assert_eq!(s.kind, "machine_model");
    assert_eq!(s.origin, "system");
    assert_eq!(s.vendor.as_deref(), Some("Bambu"));
    let t = PreviewSegmentType::for_kind(20);
    assert_eq!((t.id, t.name.as_str()), (20, "Travel"));
}

#[test]
fn printer_test_and_upload_answers() {
    let r = TestPrinterResponse::from_server_info(ServerInfo {
        klippy_connected: true,
        klippy_state: "ready".to_string(),
        moonraker_version: "v0.9".to_string(),
    });
    assert!(r.connected);
    assert_eq!(r.klippy_state, "ready");
    let u = PrinterUploadResponse::from_upload(UploadResult {
        path: "gcodes/a.gcode".to_string(),
        print_started: true,
    });
    assert_eq!(u.path, "gcodes/a.gcode");
    assert!(u.print_started);
}

#[test]
fn layer_range_defaults_to_every_layer() {
    let all = LayerRange { from: None, to: None };
    assert_eq!(all.bounds(5), (0, 4));
    assert_eq!(all.bounds(0), (0, 0));
    assert_eq!(LayerRange { from: Some(2), to: Some(3) }.bounds(5), (2, 3));
}
