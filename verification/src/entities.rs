//! Domain entities: plain enums and records shared by every layer.

use vstd::prelude::*;

use crate::ids::{PresetId, PrinterId, ProjectId, ModelId, UserId};

verus! {

/// Format of an imported 3D model, detected from the file extension.
#[derive(Debug, Clone, Copy, PartialEq, Eq, Structural)]
pub enum ModelFormat {
    Stl,
    ThreeMf,
    Step,
    Obj,
    Amf,
    Svg,
    Drc,
}

impl ModelFormat {
    /// Formats whose display mesh must be produced by the slicing engine.
    pub open spec fn spec_needs_engine_conversion(self) -> bool {
        match self {
            ModelFormat::Step | ModelFormat::Amf | ModelFormat::Svg | ModelFormat::Drc => true,
            _ => false,
        }
    }

    /// True for STEP, AMF, SVG and Draco: the server cannot decode them itself.
    #[verifier::when_used_as_spec(spec_needs_engine_conversion)]
    pub fn needs_engine_conversion(self) -> (r: bool)
        ensures
            r == self.spec_needs_engine_conversion(),
    {
        match self {
            ModelFormat::Step | ModelFormat::Amf | ModelFormat::Svg | ModelFormat::Drc => true,
            _ => false,
        }
    }
}

impl ModelFormat {
    /// Wire name of the format (`stl`, `3mf`, `step`, `obj`, `amf`, `svg`, `drc`).
    pub open spec fn spec_name(self) -> Seq<char> {
        match self {
            ModelFormat::Stl => "stl"@,
            ModelFormat::ThreeMf => "3mf"@,
            ModelFormat::Step => "step"@,
            ModelFormat::Obj => "obj"@,
            ModelFormat::Amf => "amf"@,
            ModelFormat::Svg => "svg"@,
            ModelFormat::Drc => "drc"@,
        }
    }

    /// Wire name of the format.
    pub fn name(self) -> (r: &'static str)
        ensures
            r@ == self.spec_name(),
    {
        match self {
            ModelFormat::Stl => "stl",
            ModelFormat::ThreeMf => "3mf",
            ModelFormat::Step => "step",
            ModelFormat::Obj => "obj",
            ModelFormat::Amf => "amf",
            ModelFormat::Svg => "svg",
            ModelFormat::Drc => "drc",
        }
    }
}

/// Role of an account; the first account created is `Admin`.
#[derive(Debug, Clone, Copy, PartialEq, Eq, Structural)]
pub enum Role {
    Admin,
    User,
}

impl Role {
    pub open spec fn spec_name(self) -> Seq<char> {
        match self {
            Role::Admin => "admin"@,
            Role::User => "user"@,
        }
    }

    /// Wire name (`admin` | `user`).
    pub fn name(self) -> (r: &'static str)
        ensures
            r@ == self.spec_name(),
    {
        match self {
            Role::Admin => "admin",
            Role::User => "user",
        }
    }

    /// Role named `s` (`None` for any other text).
    pub fn parse(s: &str) -> (r: Option<Role>)
        ensures
            r.is_some() == (s@ == "admin"@ || s@ == "user"@),
            r.is_some() ==> r.unwrap().spec_name() == s@,
    {
        let v = crate::text::chars_of(s);
        if crate::text::eq_lit(&v, "admin") {
            Some(Role::Admin)
        } else if crate::text::eq_lit(&v, "user") {
            Some(Role::User)
        } else {
            None
        }
    }
}

/// State of an account.
#[derive(Debug, Clone, Copy, PartialEq, Eq, Structural)]
pub enum UserStatus {
    Active,
    Disabled,
}

impl UserStatus {
    pub open spec fn spec_name(self) -> Seq<char> {
        match self {
            UserStatus::Active => "active"@,
            UserStatus::Disabled => "disabled"@,
        }
    }

    /// Wire name (`active` | `disabled`).
    pub fn name(self) -> (r: &'static str)
        ensures
            r@ == self.spec_name(),
    {
        match self {
            UserStatus::Active => "active",
            UserStatus::Disabled => "disabled",
        }
    }
}

/// Registration policy of the instance.
#[derive(Debug, Clone, Copy, PartialEq, Eq, Structural)]
pub enum RegistrationPolicy {
    Open,
    Closed,
    Invite,
}

impl RegistrationPolicy {
    pub open spec fn spec_name(self) -> Seq<char> {
        match self {
            RegistrationPolicy::Open => "open"@,
            RegistrationPolicy::Closed => "closed"@,
            RegistrationPolicy::Invite => "invite"@,
        }
    }

    /// Wire name (`open` | `closed` | `invite`).
    pub fn name(self) -> (r: &'static str)
        ensures
            r@ == self.spec_name(),
    {
        match self {
            RegistrationPolicy::Open => "open",
            RegistrationPolicy::Closed => "closed",
            RegistrationPolicy::Invite => "invite",
        }
    }

    /// Policy named `s` (`None` for any other text).
    pub fn parse(s: &str) -> (r: Option<RegistrationPolicy>)
        ensures
            r.is_some() == (s@ == "open"@ || s@ == "closed"@ || s@ == "invite"@),
            r.is_some() ==> r.unwrap().spec_name() == s@,
    {
        let v = crate::text::chars_of(s);
        if crate::text::eq_lit(&v, "open") {
            Some(RegistrationPolicy::Open)
        } else if crate::text::eq_lit(&v, "closed") {
            Some(RegistrationPolicy::Closed)
        } else if crate::text::eq_lit(&v, "invite") {
            Some(RegistrationPolicy::Invite)
        } else {
            None
        }
    }
}

/// Default upload limit per file (500 MiB).
pub const DEFAULT_UPLOAD_LIMIT_BYTES: i64 = 524288000;

/// Instance settings (singleton row).
#[derive(Debug, Clone, Copy, PartialEq, Eq, Structural)]
pub struct InstanceSettings {
    pub registration_policy: RegistrationPolicy,
    /// Upload limit per file, in bytes.
    pub upload_limit_bytes: i64,
}

impl InstanceSettings {
    /// Settings of a fresh instance: open registration, 500 MiB uploads.
    pub fn initial() -> (r: Self)
        ensures
            r.registration_policy == RegistrationPolicy::Open,
            r.upload_limit_bytes == DEFAULT_UPLOAD_LIMIT_BYTES,
    {
        InstanceSettings {
            registration_policy: RegistrationPolicy::Open,
            upload_limit_bytes: DEFAULT_UPLOAD_LIMIT_BYTES,
        }
    }
}

/// Account. `password_hash` (argon2id PHC string) is never exposed.
#[derive(Debug, Clone, PartialEq, Eq)]
pub struct User {
    pub id: UserId,
    /// Lower-case e-mail, unique login identity.
    pub email: String,
    pub password_hash: String,
    pub role: Role,
    pub status: UserStatus,
    /// Creation time, Unix nanoseconds.
    pub created_at_unix_ns: i128,
    /// Last update time, Unix nanoseconds.
    pub updated_at_unix_ns: i128,
}

/// Nature of a preset.
#[derive(Debug, Clone, Copy, PartialEq, Eq, Structural)]
pub enum PresetKind {
    MachineModel,
    Machine,
    Filament,
    Process,
}

impl PresetKind {
    pub open spec fn spec_name(self) -> Seq<char> {
        match self {
            PresetKind::MachineModel => "machine_model"@,
            PresetKind::Machine => "machine"@,
            PresetKind::Filament => "filament"@,
            PresetKind::Process => "process"@,
        }
    }

    /// Wire name (`machine_model` | `machine` | `filament` | `process`), also
    /// the `type` field of an exported Orca profile.
    pub fn name(self) -> (r: &'static str)
        ensures
            r@ == self.spec_name(),
    {
        match self {
            PresetKind::MachineModel => "machine_model",
            PresetKind::Machine => "machine",
            PresetKind::Filament => "filament",
            PresetKind::Process => "process",
        }
    }

    /// Kind named `s` (`None` for any other text).
    pub fn parse(s: &str) -> (r: Option<PresetKind>)
        ensures
            r.is_some() == (s@ == "machine_model"@ || s@ == "machine"@ || s@ == "filament"@ || s@
                == "process"@),
            r.is_some() ==> r.unwrap().spec_name() == s@,
    {
        let v = crate::text::chars_of(s);
        if crate::text::eq_lit(&v, "machine_model") {
            Some(PresetKind::MachineModel)
        } else if crate::text::eq_lit(&v, "machine") {
            Some(PresetKind::Machine)
        } else if crate::text::eq_lit(&v, "filament") {
            Some(PresetKind::Filament)
        } else if crate::text::eq_lit(&v, "process") {
            Some(PresetKind::Process)
        } else {
            None
        }
    }
}

/// Origin of a preset: `System` (read-only, re-seedable) or `User`.
#[derive(Debug, Clone, Copy, PartialEq, Eq, Structural)]
pub enum PresetOrigin {
    System,
    User,
}

impl PresetOrigin {
    pub open spec fn spec_name(self) -> Seq<char> {
        match self {
            PresetOrigin::System => "system"@,
            PresetOrigin::User => "user"@,
        }
    }

    /// Wire name (`system` | `user`).
    pub fn name(self) -> (r: &'static str)
        ensures
            r@ == self.spec_name(),
    {
        match self {
            PresetOrigin::System => "system",
            PresetOrigin::User => "user",
        }
    }
}

/// Slicing preset: a named set of Orca settings, possibly inheriting from
/// a parent preset named by `inherits`.
#[derive(Debug, Clone, PartialEq, Eq)]
pub struct Preset {
    pub id: PresetId,
    pub kind: PresetKind,
    /// Unique per (kind, origin, owner).
    pub name: String,
    pub origin: PresetOrigin,
    /// Owner; `None` for system presets.
    pub user_id: Option<UserId>,
    pub vendor: Option<String>,
    /// Name of the parent preset (Orca chain kept as is).
    pub inherits: Option<String>,
    /// Abstract presets are hidden when `false`.
    pub instantiation: bool,
    pub setting_id: Option<String>,
    pub filament_id: Option<String>,
    /// Compatible printers, JSON text.
    pub compatible_printers: Option<String>,
    /// Raw Orca values, JSON text.
    pub values: String,
}

/// Declared printer (Moonraker host).
#[derive(Debug, Clone, PartialEq, Eq)]
pub struct Printer {
    pub id: PrinterId,
    pub user_id: UserId,
    pub name: String,
    pub moonraker_url: String,
    /// API key, encrypted at rest.
    pub api_key: Option<String>,
    pub machine_preset_id: PresetId,
}

/// Data of a printer to declare or update (the API key already sealed).
#[derive(Debug, Clone, PartialEq, Eq)]
pub struct NewPrinter {
    pub name: String,
    pub moonraker_url: String,
    pub api_key: Option<String>,
    pub machine_preset_id: PresetId,
}

/// Imported 3D file (source kept, converted mesh if any).
#[derive(Debug, Clone, PartialEq, Eq)]
pub struct Model {
    pub id: ModelId,
    pub user_id: UserId,
    pub project_id: Option<ProjectId>,
    pub filename: String,
    pub format: ModelFormat,
    pub file_path: String,
    /// Converted display mesh (engine formats).
    pub mesh_path: Option<String>,
    pub size_bytes: i64,
    pub triangle_count: i64,
    /// Repair report, JSON text.
    pub repair_report: Option<String>,
}

/// State of a slicing job.
#[derive(Debug, Clone, Copy, PartialEq, Eq, Structural)]
pub enum JobStatus {
    Queued,
    Running,
    Succeeded,
    Failed,
    Cancelled,
}

impl JobStatus {
    pub open spec fn spec_name(self) -> Seq<char> {
        match self {
            JobStatus::Queued => "queued"@,
            JobStatus::Running => "running"@,
            JobStatus::Succeeded => "succeeded"@,
            JobStatus::Failed => "failed"@,
            JobStatus::Cancelled => "cancelled"@,
        }
    }

    /// Wire name (`queued` | `running` | `succeeded` | `failed` | `cancelled`).
    pub fn name(self) -> (r: &'static str)
        ensures
            r@ == self.spec_name(),
    {
        match self {
            JobStatus::Queued => "queued",
            JobStatus::Running => "running",
            JobStatus::Succeeded => "succeeded",
            JobStatus::Failed => "failed",
            JobStatus::Cancelled => "cancelled",
        }
    }
}

} // verus!
