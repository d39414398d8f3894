//! Admission of an uploaded model file: the instance size limit, the format
//! named by the extension and the content signature of that format; the
//! triangle count recorded at import; and which stored models the server
//! can serve a display mesh for.

use vstd::prelude::*;

use crate::api_error::ApiError;
use crate::entities::ModelFormat;
use crate::errors::{concat2, decimal, decimal_text, i64_text, int_text};
use crate::formats::{
    binary_stl_triangle_count, detect_format, spec_binary_stl_count, spec_detect_format,
    spec_rejection, validate_content,
};
use crate::json_text::{object_with_string, string_object};
use crate::text::string_of;

verus! {

/// Message of an upload over the limit:
/// `fichier de <n> octets au-delà de la limite (<limit>)`.
pub open spec fn too_large_message(n: nat, limit: int) -> Seq<char> {
    "fichier de "@ + decimal(n) + " octets au-delà de la limite ("@ + int_text(limit) + ")"@
}

/// Admits an uploaded file: within the instance limit (413 otherwise), of
/// a supported format (422 otherwise) whose content signature matches (422
/// with the reason otherwise). Details name the file.
pub fn check_upload(filename: &str, bytes: &[u8], limit: i64) -> (r: Result<ModelFormat, ApiError>)
    ensures
        bytes@.len() as i64 > limit ==> r is Err && r->Err_0.status == 413 && r->Err_0.message@
            == too_large_message(bytes@.len(), limit as int),
        !(bytes@.len() as i64 > limit) ==> match spec_detect_format(filename@) {
            None => r is Err && r->Err_0.status == 422 && r->Err_0.message@
                == "format non supporté (STL/OBJ/3MF/STEP/AMF/SVG/DRC)"@ && r->Err_0.details
                is Some && r->Err_0.details->0@ == object_with_string("filename"@, filename@),
            Some(f) => match spec_rejection(f, bytes@) {
                None => r == Ok::<ModelFormat, ApiError>(f),
                Some(reason) => r is Err && r->Err_0.status == 422 && r->Err_0.message@ == reason
                    && r->Err_0.details is Some && r->Err_0.details->0@ == object_with_string(
                    "filename"@,
                    filename@,
                ),
            },
        },
{
    if bytes.len() as i64 > limit {
        let a = concat2("fichier de ", string_of(&decimal_text(bytes.len() as u128)).as_str());
        let b = concat2(a.as_str(), " octets au-delà de la limite (");
        let c = concat2(b.as_str(), i64_text(limit).as_str());
        let message = concat2(c.as_str(), ")");
        return Err(ApiError::too_large(message.as_str()));
    }
    let format = match detect_format(filename) {
        Some(f) => f,
        None => {
            return Err(
                ApiError::validation(
                    "format non supporté (STL/OBJ/3MF/STEP/AMF/SVG/DRC)",
                    string_object("filename", filename),
                ),
            );
        },
    };
    match validate_content(format, bytes) {
        Ok(()) => Ok(format),
        Err(reason) => Err(ApiError::validation(reason, string_object("filename", filename))),
    }
}

/// Triangle count recorded at import: that of a binary STL, 0 otherwise
/// (the engine formats are counted after conversion).
pub fn imported_triangle_count(format: ModelFormat, bytes: &[u8]) -> (r: i64)
    ensures
        r == (match spec_binary_stl_count(format, bytes@) {
            Some(n) => n as i64,
            None => 0,
        }),
{
    match binary_stl_triangle_count(format, bytes) {
        Some(n) => n as i64,
        None => 0,
    }
}

/// Whether the server serves the display mesh of a stored model: STL is
/// decoded here; an engine format waits for its conversion (409); OBJ and
/// 3MF are previewed by the client (501).
pub fn check_mesh_available(format: ModelFormat) -> (r: Result<(), ApiError>)
    ensures
        format == ModelFormat::Stl ==> r is Ok,
        format != ModelFormat::Stl && format.spec_needs_engine_conversion() ==> r is Err
            && r->Err_0.status == 409 && r->Err_0.message@
            == "conversion en cours (voir l'événement model.converted)"@,
        format != ModelFormat::Stl && !format.spec_needs_engine_conversion() ==> r is Err
            && r->Err_0.status == 501 && r->Err_0.message@
            == "maillage serveur indisponible (aperçu côté client)"@,
{
    if format == ModelFormat::Stl {
        Ok(())
    } else if format.needs_engine_conversion() {
        Err(ApiError::conflict("conversion en cours (voir l'événement model.converted)"))
    } else {
        Err(ApiError::not_implemented("maillage serveur indisponible (aperçu côté client)"))
    }
}

} // verus!
