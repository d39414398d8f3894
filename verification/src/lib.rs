//! Backend logic of a multi-user web slicer: model-format detection and
//! validation, G-code metadata and preview buffers, display-mesh encoding,
//! scene analysis, account rules, secrets at rest and the small decision
//! functions behind the HTTP API.

pub mod entities;
pub mod ids;
pub mod errors;
pub mod auth;
pub mod text;
pub mod formats;
pub mod gcode;
pub mod mesh;
pub mod worker;
pub mod secrets;
pub mod files;
pub mod convert;
pub mod moonraker;
pub mod relays;
pub mod api_error;
pub mod scene;
pub mod dto;
pub mod json_text;
pub mod presets;
pub mod queue;
pub mod slicing;
pub mod export;
pub mod preview;
pub mod uploads;
pub mod status;
pub mod events;
pub mod scene_doc;
