use backend::moonraker::{
    check_status, print_action_path, print_field, query_path, server_info_from,
    subscribe_request, subscribed_objects, upload_result_from, MoonrakerEndpoint,
    MoonrakerError, PrintAction, ServerInfoFields,
};

#[test]
fn subscribe_request_lists_all_objects() {
    let req: serde_json::Value = serde_json::from_str(&subscribe_request(7)).unwrap();
    assert_eq!(req["method"], "printer.objects.subscribe");
    assert_eq!(req["id"], 7);
    assert_eq!(req["jsonrpc"], "2.0");
    let objects = &req["params"]["objects"];
    for name in subscribed_objects() {
        assert!(objects.get(name).is_some(), "objet {name} manquant");
    }
}

#[test]
fn websocket_url_switches_scheme() {
    let c = MoonrakerEndpoint::new("http://host:7125", None);
    assert_eq!(c.websocket_url(), "ws://host:7125/websocket");
    let c = MoonrakerEndpoint::new("https://host/", None);
    assert_eq!(c.websocket_url(), "wss://host/websocket");
}

#[test]
fn base_url_loses_its_trailing_slashes() {
    let c = MoonrakerEndpoint::new("http://h//", Some("k".to_string()));
    assert_eq!(c.base_url, "http://h");
    assert_eq!(c.api_key.as_deref(), Some("k"));
    assert_eq!(c.url("/server/info"), "http://h/server/info");
    let other = MoonrakerEndpoint::new("unix:socket", None);
    assert_eq!(other.websocket_url(), "unix:socket/websocket");
}

#[test]
fn only_2xx_statuses_succeed() {
    assert_eq!(check_status(200), Ok(()));
    assert_eq!(check_status(299), Ok(()));
    assert_eq!(check_status(404), Err(MoonrakerError::Status(404)));
    assert_eq!(check_status(199), Err(MoonrakerError::Status(199)));
}

#[test]
fn error_messages_are_plain_language() {
    assert_eq!(
        MoonrakerError::Status(502).message(),
        "Moonraker a renvoyé le statut HTTP 502"
    );
    assert_eq!(
        MoonrakerError::Network("refus".to_string()).message(),
        "erreur réseau Moonraker : refus"
    );
    assert_eq!(
        MoonrakerError::Decode("x".to_string()).message(),
        "réponse Moonraker illisible : x"
    );
}

#[test]
fn server_info_defaults_missing_fields() {
    assert_eq!(
        server_info_from(None),
        Err(MoonrakerError::Decode("champ `result` absent".to_string()))
    );
    let info = server_info_from(Some(ServerInfoFields {
        klippy_connected: None,
        klippy_state: Some("ready".to_string()),
        moonraker_version: None,
    }))
    .unwrap();
    assert!(!info.klippy_connected);
    assert_eq!(info.klippy_state, "ready");
    assert_eq!(info.moonraker_version, "");
}

#[test]
fn upload_result_falls_back_to_the_request() {
    let r = upload_result_from("a.gcode", None, None, true);
    assert_eq!(r.path, "a.gcode");
    assert!(r.print_started);
    let r = upload_result_from("a.gcode", Some("gcodes/a.gcode"), Some(false), true);
    assert_eq!(r.path, "gcodes/a.gcode");
    assert!(!r.print_started);
    assert_eq!(print_field(true), "true");
    assert_eq!(print_field(false), "false");
}

#[test]
fn control_and_query_paths() {
    assert_eq!(print_action_path(PrintAction::Pause), "/printer/print/pause");
    assert_eq!(print_action_path(PrintAction::Resume), "/printer/print/resume");
    assert_eq!(print_action_path(PrintAction::Cancel), "/printer/print/cancel");
    assert_eq!(
        query_path(),
        "/printer/objects/query?print_stats&display_status&extruder&heater_bed"
    );
}
