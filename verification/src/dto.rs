//! Data exchanged with the web client: request bodies, query strings and
//! responses, and the projections of domain records into responses (which
//! never expose a password hash or an API key).

use vstd::prelude::*;

use crate::entities::{InstanceSettings, Model, Preset, Printer, User};
use crate::gcode::{kind_name, spec_kind_name};
use crate::ids::uuid_text;
use crate::moonraker::{ServerInfo, UploadResult};
use crate::scene::MeshReport;

verus! {

/// Version of this backend, reported by the health check.
pub const BACKEND_VERSION: &'static str = "0.1.0";

/// Answer of `GET /api/health`.
#[derive(Debug, Clone, PartialEq, Eq)]
pub struct HealthResponse {
    /// Always `ok` when the service answers.
    pub status: String,
    /// Version of the backend.
    pub version: String,
}

impl HealthResponse {
    /// The healthy answer: status `ok` and the backend version.
    pub fn ok() -> (r: Self)
        ensures
            r.status@ == "ok"@,
            r.version@ == BACKEND_VERSION@,
    {
        HealthResponse { status: "ok".to_owned(), version: BACKEND_VERSION.to_owned() }
    }
}

/// Body of `POST /api/auth/register`.
#[derive(Debug, Clone, PartialEq, Eq)]
pub struct RegisterRequest {
    pub email: String,
    pub password: String,
    /// Invitation token (`invite` policy).
    pub invite_token: Option<String>,
}

/// Body of `POST /api/auth/login`.
#[derive(Debug, Clone, PartialEq, Eq)]
pub struct LoginRequest {
    pub email: String,
    pub password: String,
}

/// Body of `DELETE /api/auth/me`: confirmation by password.
#[derive(Debug, Clone, PartialEq, Eq)]
pub struct DeleteAccountRequest {
    pub password: String,
}

/// Public view of an account (never the hash).
#[derive(Debug, Clone, PartialEq, Eq)]
pub struct UserResponse {
    pub id: String,
    pub email: String,
    /// `admin` | `user`.
    pub role: String,
    /// `active` | `disabled`.
    pub status: String,
}

impl UserResponse {
    /// Projection of an account.
    pub fn from_user(u: User) -> (r: Self)
        ensures
            r.id@ == uuid_text(u.id.0),
            r.email@ == u.email@,
            r.role@ == u.role.spec_name(),
            r.status@ == u.status.spec_name(),
    {
        UserResponse {
            id: u.id.to_text(),
            email: u.email,
            role: u.role.name().to_owned(),
            status: u.status.name().to_owned(),
        }
    }
}

/// Instance settings shown to the administrator.
#[derive(Debug, Clone, PartialEq, Eq)]
pub struct InstanceResponse {
    /// `open` | `closed` | `invite`.
    pub registration_policy: String,
    pub upload_limit_bytes: i64,
}

impl InstanceResponse {
    /// Projection of the instance settings.
    pub fn from_settings(s: InstanceSettings) -> (r: Self)
        ensures
            r.registration_policy@ == s.registration_policy.spec_name(),
            r.upload_limit_bytes == s.upload_limit_bytes,
    {
        InstanceResponse {
            registration_policy: s.registration_policy.name().to_owned(),
            upload_limit_bytes: s.upload_limit_bytes,
        }
    }
}

/// Body of `PATCH /api/admin/instance`: partial update.
#[derive(Debug, Clone, PartialEq, Eq)]
pub struct PatchInstanceRequest {
    /// `open` | `closed` | `invite`.
    pub registration_policy: Option<String>,
    pub upload_limit_bytes: Option<i64>,
}

/// Body of `POST /api/admin/users` (account managed by the administrator).
#[derive(Debug, Clone, PartialEq, Eq)]
pub struct AdminCreateUserRequest {
    pub email: String,
    pub password: String,
    /// `admin` | `user` (default `user`).
    pub role: Option<String>,
}

/// Body of `POST /api/admin/users/{id}/reset-password`.
#[derive(Debug, Clone, PartialEq, Eq)]
pub struct ResetPasswordRequest {
    pub new_password: String,
}

/// Body of `POST /api/admin/invitations`.
#[derive(Debug, Clone, PartialEq, Eq)]
pub struct CreateInvitationRequest {
    /// Validity in days (default 7).
    pub valid_days: Option<i64>,
}

/// Result of a re-seed of the system presets.
#[derive(Debug, Clone, PartialEq, Eq)]
pub struct ReseedResponse {
    /// Number of system presets written.
    pub reseeded: u32,
}

/// Invitation issued by the administrator.
#[derive(Debug, Clone, PartialEq, Eq)]
pub struct InvitationResponse {
    pub token: String,
    /// Expiry, RFC 3339.
    pub expires_at: String,
}

/// Body of `PATCH /api/projects/{id}/rename`.
#[derive(Debug, Clone, PartialEq, Eq)]
pub struct RenameProjectRequest {
    pub name: String,
}

/// An imported 3D model, as returned after upload.
#[derive(Debug, Clone, PartialEq, Eq)]
pub struct ModelResponse {
    pub id: String,
    pub project_id: Option<String>,
    pub filename: String,
    /// Wire name of the format.
    pub format: String,
    pub size_bytes: i64,
    /// Number of triangles (0 when not known at import).
    pub triangle_count: i64,
    /// Engine format still waiting for its display mesh.
    pub conversion_pending: bool,
    /// A display mesh is available.
    pub has_mesh: bool,
}

impl ModelResponse {
    /// Projection of a model: the conversion is pending exactly for an
    /// engine format without its display mesh yet.
    pub fn from_model(m: Model) -> (r: Self)
        ensures
            r.id@ == uuid_text(m.id.0),
            match m.project_id {
                Some(p) => r.project_id matches Some(s) && s@ == uuid_text(p.0),
                None => r.project_id is None,
            },
            r.filename@ == m.filename@,
            r.format@ == m.format.spec_name(),
            r.size_bytes == m.size_bytes,
            r.triangle_count == m.triangle_count,
            r.conversion_pending == (m.format.spec_needs_engine_conversion() && m.mesh_path is None),
            r.has_mesh == m.mesh_path is Some,
    {
        let conversion_pending = m.format.needs_engine_conversion() && m.mesh_path.is_none();
        let project_id = match m.project_id {
            Some(p) => Some(p.to_text()),
            None => None,
        };
        ModelResponse {
            id: m.id.to_text(),
            project_id,
            filename: m.filename,
            format: m.format.name().to_owned(),
            size_bytes: m.size_bytes,
            triangle_count: m.triangle_count,
            conversion_pending,
            has_mesh: m.mesh_path.is_some(),
        }
    }
}

/// Line of a preset list (without the values).
#[derive(Debug, Clone, PartialEq, Eq)]
pub struct PresetSummary {
    pub id: String,
    /// `machine_model` | `machine` | `filament` | `process`.
    pub kind: String,
    pub name: String,
    /// `system` | `user`.
    pub origin: String,
    pub vendor: Option<String>,
    pub inherits: Option<String>,
    pub instantiation: bool,
}

impl PresetSummary {
    /// Projection of a preset.
    pub fn from_preset(p: Preset) -> (r: Self)
        ensures
            r.id@ == uuid_text(p.id.0),
            r.kind@ == p.kind.spec_name(),
            r.name@ == p.name@,
            r.origin@ == p.origin.spec_name(),
            r.vendor == p.vendor,
            r.inherits == p.inherits,
            r.instantiation == p.instantiation,
    {
        PresetSummary {
            id: p.id.to_text(),
            kind: p.kind.name().to_owned(),
            name: p.name,
            origin: p.origin.name().to_owned(),
            vendor: p.vendor,
            inherits: p.inherits,
            instantiation: p.instantiation,
        }
    }
}

/// Body of `POST /api/projects/{id}/slice`: one plate or all of them.
#[derive(Debug, Clone, PartialEq, Eq)]
pub struct SliceRequest {
    /// Target plate (0-based); absent means every prepared plate.
    pub plate_index: Option<i64>,
    /// Slice every prepared plate.
    pub all: Option<bool>,
}

/// Warning of the engine configuration (clamped bound or enum).
#[derive(Debug, Clone, PartialEq, Eq)]
pub struct SliceWarning {
    pub key: String,
    pub message: String,
}

/// Extrusion role present in a preview (stable id and its name).
#[derive(Debug, Clone, PartialEq, Eq)]
pub struct PreviewSegmentType {
    pub id: u32,
    pub name: String,
}

impl PreviewSegmentType {
    /// The legend entry of an extrusion-role id.
    pub fn for_kind(id: u8) -> (r: Self)
        ensures
            r.id == id,
            r.name@ == spec_kind_name(id),
    {
        PreviewSegmentType { id: id as u32, name: kind_name(id).to_owned() }
    }
}

/// Body of `POST /api/projects/{id}/orient`.
#[derive(Debug, Clone, PartialEq, Eq)]
pub struct OrientRequest {
    pub model_id: String,
}

/// Answer of `POST /api/models/{id}/repair`: the analysis report.
#[derive(Debug, Clone, PartialEq, Eq)]
pub struct RepairResponse {
    pub triangles: u32,
    pub degenerate: u32,
    pub open_edges: u32,
    pub watertight: bool,
}

impl RepairResponse {
    /// The answer for a report; the counts are truncated to 32 bits as the
    /// `as u32` conversions do.
    pub fn from_report(report: &MeshReport) -> (r: Self)
        ensures
            r.triangles == report.triangles as u32,
            r.degenerate == report.degenerate as u32,
            r.open_edges == report.open_edges as u32,
            r.watertight == (report.open_edges == 0),
    {
        RepairResponse {
            triangles: report.triangles as u32,
            degenerate: report.degenerate as u32,
            open_edges: report.open_edges as u32,
            watertight: report.watertight(),
        }
    }
}

/// A declared printer, as sent to the client: the API key is never
/// exposed, only whether one is set.
#[derive(Debug, Clone, PartialEq, Eq)]
pub struct PrinterResponse {
    pub id: String,
    pub name: String,
    pub moonraker_url: String,
    pub has_api_key: bool,
    pub machine_preset_id: String,
}

impl PrinterResponse {
    /// Projection of a printer.
    pub fn from_printer(p: Printer) -> (r: Self)
        ensures
            r.id@ == uuid_text(p.id.0),
            r.name@ == p.name@,
            r.moonraker_url@ == p.moonraker_url@,
            r.has_api_key == p.api_key is Some,
            r.machine_preset_id@ == uuid_text(p.machine_preset_id.0),
    {
        PrinterResponse {
            id: p.id.to_text(),
            name: p.name,
            moonraker_url: p.moonraker_url,
            has_api_key: p.api_key.is_some(),
            machine_preset_id: p.machine_preset_id.to_text(),
        }
    }
}

/// Body of `POST`/`PUT /api/printers`.
#[derive(Debug, Clone, PartialEq, Eq)]
pub struct SavePrinterRequest {
    pub name: String,
    pub moonraker_url: String,
    pub api_key: Option<String>,
    pub machine_preset_id: String,
}

/// Answer of `POST /api/printers/{id}/test`: the host's `GET /server/info`.
#[derive(Debug, Clone, PartialEq, Eq)]
pub struct TestPrinterResponse {
    pub connected: bool,
    pub klippy_state: String,
    pub moonraker_version: String,
}

impl TestPrinterResponse {
    /// The answer for the host's report.
    pub fn from_server_info(info: ServerInfo) -> (r: Self)
        ensures
            r.connected == info.klippy_connected,
            r.klippy_state == info.klippy_state,
            r.moonraker_version == info.moonraker_version,
    {
        TestPrinterResponse {
            connected: info.klippy_connected,
            klippy_state: info.klippy_state,
            moonraker_version: info.moonraker_version,
        }
    }
}

/// Body of `POST /api/printers/{id}/upload`.
#[derive(Debug, Clone, PartialEq, Eq)]
pub struct UploadToPrinterRequest {
    pub gcode_id: String,
    /// Start printing at once.
    pub start_now: bool,
}

/// Result of an upload to a printer.
#[derive(Debug, Clone, PartialEq, Eq)]
pub struct PrinterUploadResponse {
    /// Path of the file as stored by Moonraker.
    pub path: String,
    /// Printing started at once.
    pub print_started: bool,
}

impl PrinterUploadResponse {
    /// The answer for an upload result.
    pub fn from_upload(r: UploadResult) -> (out: Self)
        ensures
            out.path == r.path,
            out.print_started == r.print_started,
    {
        PrinterUploadResponse { path: r.path, print_started: r.print_started }
    }
}

/// Query of `GET /api/presets?kind=&printer=`.
#[derive(Debug, Clone, PartialEq, Eq)]
pub struct ListQuery {
    /// Preset kind (required).
    pub kind: String,
    /// Active printer, for the compatibility filter.
    pub printer: Option<String>,
}

/// Layer range of `GET /api/gcodes/{id}/preview/layers?from=&to=`
/// (inclusive indices, both optional).
#[derive(Debug, Clone, Copy, PartialEq, Eq)]
pub struct LayerRange {
    pub from: Option<usize>,
    pub to: Option<usize>,
}

impl LayerRange {
    /// Requested bounds for a preview of `layer_count` layers: `from`
    /// defaults to the first layer, `to` to the last (0 when there is none).
    pub fn bounds(&self, layer_count: usize) -> (r: (usize, usize))
        ensures
            r.0 == (match self.from {
                Some(f) => f,
                None => 0,
            }),
            r.1 == (match self.to {
                Some(t) => t,
                None => if layer_count == 0 {
                    0
                } else {
                    (layer_count - 1) as usize
                },
            }),
    {
        let from = match self.from {
            Some(f) => f,
            None => 0,
        };
        let to = match self.to {
            Some(t) => t,
            None => if layer_count == 0 {
                0
            } else {
                layer_count - 1
            },
        };
        (from, to)
    }
}

} // verus!
