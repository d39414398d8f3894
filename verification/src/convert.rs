//! Model conversion: a stored model in an engine format is decoded by the
//! worker into the WSMh display mesh, stored, counted and announced. This
//! module holds the decisions of that pipeline; the process, the files and
//! the database are driven by the caller.

use vstd::prelude::*;

use crate::entities::ModelFormat;
use crate::errors::{concat2, StorageError};
use crate::files::FilesError;
use crate::formats::{format_arg, spec_format_arg};
use crate::ids::{uuid_text, ModelId};
use crate::mesh::{spec_decode, Mesh, MeshError};
use crate::worker::WorkerError;

verus! {

/// Failure of a conversion (engine decoding, I/O or persistence).
#[derive(Debug)]
pub enum ConvertError {
    /// The worker failed.
    Worker(WorkerError),
    /// The worker printed no `R <path>` result line.
    NoResult,
    /// The format has no engine conversion.
    UnsupportedFormat(ModelFormat),
    /// The produced WSMh buffer is invalid, with the reason.
    InvalidMesh(String),
    /// Input/output error.
    Io(std::io::Error),
    /// File store error.
    Files(FilesError),
    /// Storage error.
    Storage(StorageError),
}

/// The `<format>` argument of `engine-worker load-model`, or
/// `UnsupportedFormat` for a format the worker does not decode.
pub fn worker_format(format: ModelFormat) -> (r: Result<&'static str, ConvertError>)
    ensures
        match spec_format_arg(format) {
            Some(a) => r matches Ok(s) && s@ == a,
            None => r matches Err(ConvertError::UnsupportedFormat(f)) && f == format,
        },
{
    match format_arg(format) {
        Some(a) => Ok(a),
        None => Err(ConvertError::UnsupportedFormat(format)),
    }
}

/// Number of triangles of a WSMh buffer: its index count divided by three;
/// `InvalidMesh` with the decoding error's text when the buffer is invalid.
pub fn wsmh_triangle_count(bytes: &[u8]) -> (r: Result<i64, ConvertError>)
    ensures
        match spec_decode(bytes@) {
            Ok(m) => r matches Ok(n) && n == m.indices.len() / 3,
            Err(e) => r matches Err(ConvertError::InvalidMesh(s)) && s@ == e.spec_message(),
        },
{
    match Mesh::decode(bytes) {
        Ok(m) => {
            let n = m.indices.len() / 3;
            assert(n <= usize::MAX / 3);
            Ok(n as i64)
        },
        Err(e) => Err(ConvertError::InvalidMesh(e.message())),
    }
}

/// URL at which the converted mesh of a model is served:
/// `/api/models/<id>/mesh`.
pub fn mesh_url(model: ModelId) -> (r: String)
    ensures
        r@ == "/api/models/"@ + uuid_text(model.0) + "/mesh"@,
{
    let head = concat2("/api/models/", model.to_text().as_str());
    concat2(head.as_str(), "/mesh")
}

} // verus!
