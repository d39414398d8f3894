use backend::entities::ModelFormat;
use backend::uploads::{check_mesh_available, check_upload, imported_triangle_count};

fn binary_stl(n: u32) -> Vec<u8> {
    let mut v = vec![0u8; 80];
    v.extend_from_slice(&n.to_le_bytes());
    v.extend(std::iter::repeat_n(0u8, n as usize * 50));
    v
}

#[test]
fn uploads_are_admitted_by_size_format_and_content() {
    let stl = binary_stl(2);
    assert_eq!(check_upload("a.stl", &stl, 1000).unwrap(), ModelFormat::Stl);
    let e = check_upload("a.stl", &stl, 10).unwrap_err();
    assert_eq!(e.status, 413);
    assert_eq!(e.message, "fichier de 184 octets au-delà de la limite (10)");
    let e = check_upload("a.gif", &stl, 1000).unwrap_err();
    assert_eq!(e.message, "format non supporté (STL/OBJ/3MF/STEP/AMF/SVG/DRC)");
    let d: serde_json::Value = serde_json::from_str(e.details.as_deref().unwrap()).unwrap();
    assert_eq!(d["filename"], "a.gif");
    let e = check_upload("a.3mf", b"not a zip", 1000).unwrap_err();
    assert_eq!(e.status, 422);
}

#[test]
fn triangle_counts_and_server_meshes() {
    assert_eq!(imported_triangle_count(ModelFormat::Stl, &binary_stl(7)), 7);
    assert_eq!(imported_triangle_count(ModelFormat::Step, &binary_stl(7)), 0);
    assert!(check_mesh_available(ModelFormat::Stl).is_ok());
    assert_eq!(check_mesh_available(ModelFormat::Step).unwrap_err().status, 409);
    assert_eq!(check_mesh_available(ModelFormat::Obj).unwrap_err().status, 501);
}
