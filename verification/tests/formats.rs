use backend::entities::ModelFormat;
use backend::formats::{
    binary_stl_triangle_count, detect_format, format_arg, format_ext, validate_content,
};

fn binary_stl(n: u32) -> Vec<u8> {
    let mut v = vec![0u8; 80];
    v.extend_from_slice(&n.to_le_bytes());
    v.extend(std::iter::repeat_n(0u8, n as usize * 50));
    v
}

#[test]
fn detects_formats_by_extension() {
    assert_eq!(detect_format("a.stl"), Some(ModelFormat::Stl));
    assert_eq!(detect_format("A.STL"), Some(ModelFormat::Stl));
    assert_eq!(detect_format("b.obj"), Some(ModelFormat::Obj));
    assert_eq!(detect_format("c.3mf"), Some(ModelFormat::ThreeMf));
    assert_eq!(detect_format("d.step"), Some(ModelFormat::Step));
    assert_eq!(detect_format("d.stp"), Some(ModelFormat::Step));
    assert_eq!(detect_format("f.oltp"), Some(ModelFormat::Stl));
    assert_eq!(detect_format("g.amf"), Some(ModelFormat::Amf));
    assert_eq!(detect_format("g.zip.amf"), Some(ModelFormat::Amf));
    assert_eq!(detect_format("h.xml"), Some(ModelFormat::Amf));
    assert_eq!(detect_format("i.svg"), Some(ModelFormat::Svg));
    assert_eq!(detect_format("j.drc"), Some(ModelFormat::Drc));
    assert_eq!(detect_format("k.zip"), None);
    assert_eq!(detect_format("l.ply"), None);
    assert_eq!(detect_format("e.gif"), None);
    assert_eq!(detect_format("noext"), None);
}

#[test]
fn conversion_flag_covers_engine_formats() {
    assert!(ModelFormat::Step.needs_engine_conversion());
    assert!(ModelFormat::Amf.needs_engine_conversion());
    assert!(ModelFormat::Svg.needs_engine_conversion());
    assert!(ModelFormat::Drc.needs_engine_conversion());
    assert!(!ModelFormat::Stl.needs_engine_conversion());
    assert!(!ModelFormat::Obj.needs_engine_conversion());
    assert!(!ModelFormat::ThreeMf.needs_engine_conversion());
}

#[test]
fn counts_binary_stl_triangles() {
    assert_eq!(
        binary_stl_triangle_count(ModelFormat::Stl, &binary_stl(3)),
        Some(3)
    );
    let mut bad = binary_stl(3);
    bad.push(0);
    assert_eq!(binary_stl_triangle_count(ModelFormat::Stl, &bad), None);
}

#[test]
fn validates_content_signatures() {
    assert!(validate_content(ModelFormat::Stl, &binary_stl(2)).is_ok());
    assert!(validate_content(ModelFormat::Stl, b"solid cube\n").is_ok());
    assert!(validate_content(ModelFormat::Stl, b"garbage").is_err());
    assert!(validate_content(ModelFormat::ThreeMf, b"PK\x03\x04rest").is_ok());
    assert!(validate_content(ModelFormat::ThreeMf, b"not a zip").is_err());
    assert!(validate_content(ModelFormat::Step, b"ISO-10303-21;\nHEADER;").is_ok());
    assert!(validate_content(ModelFormat::Step, b"nope").is_err());
    assert!(validate_content(ModelFormat::Obj, b"v 0 0 0\n").is_ok());
    assert!(validate_content(ModelFormat::Stl, b"").is_err());
    assert!(validate_content(ModelFormat::Amf, b"<?xml version=\"1.0\"?><amf>").is_ok());
    assert!(validate_content(ModelFormat::Amf, b"PK\x03\x04rest").is_ok());
    assert!(validate_content(ModelFormat::Amf, b"garbage").is_err());
    assert!(validate_content(ModelFormat::Svg, b"<svg xmlns=\"...\">").is_ok());
    assert!(validate_content(ModelFormat::Svg, b"not svg").is_err());
    assert!(validate_content(ModelFormat::Drc, b"DRACO\x00\x01").is_ok());
    assert!(validate_content(ModelFormat::Drc, b"nope").is_err());
}

#[test]
fn format_arg_maps_supported_formats() {
    assert_eq!(format_arg(ModelFormat::Stl), Some("stl"));
    assert_eq!(format_arg(ModelFormat::ThreeMf), Some("3mf"));
    assert_eq!(format_arg(ModelFormat::Step), Some("step"));
    assert_eq!(format_arg(ModelFormat::Svg), None);
    assert_eq!(format_arg(ModelFormat::Drc), None);
}

#[test]
fn storage_extension_is_detected_back() {
    let all = [
        ModelFormat::Stl,
        ModelFormat::Obj,
        ModelFormat::ThreeMf,
        ModelFormat::Step,
        ModelFormat::Amf,
        ModelFormat::Svg,
        ModelFormat::Drc,
    ];
    for f in all {
        let name = format!("my.model.{}", format_ext(f));
        assert_eq!(detect_format(&name), Some(f));
        assert_eq!(detect_format(&name.to_ascii_uppercase()), Some(f));
    }
}
