use backend::convert::{mesh_url, worker_format, ConvertError};
use backend::entities::ModelFormat;
use backend::export::{content_disposition, export_filename, sanitize};
use backend::ids::ModelId;

#[test]
fn project_names_become_safe_file_names() {
    assert_eq!(sanitize("Mon projet: v2!"), "Mon_projet__v2");
    assert_eq!(sanitize("__a-b__"), "a-b");
    assert_eq!(sanitize("???"), "project");
    assert_eq!(sanitize(""), "project");
    assert_eq!(sanitize("Pièce-été"), "Pièce-été");
    assert_eq!(export_filename("x y"), "x_y.3mf");
    assert_eq!(content_disposition("x"), "attachment; filename=\"x.3mf\"");
}

#[test]
fn conversion_helpers() {
    assert_eq!(worker_format(ModelFormat::Amf).unwrap(), "amf");
    assert!(matches!(
        worker_format(ModelFormat::Svg),
        Err(ConvertError::UnsupportedFormat(ModelFormat::Svg))
    ));
    let id = ModelId::new();
    assert_eq!(mesh_url(id), format!("/api/models/{}/mesh", id.to_text()));
}
