use backend::convert::wsmh_triangle_count;
use backend::mesh::{
    ascii_stl_lines, assemble_ascii_stl, is_binary_stl, parse_binary_stl, Mesh, MeshError,
    StlLine, StlRow,
};

fn bits(v: &[f32]) -> Vec<u32> {
    v.iter().map(|f| f.to_bits()).collect()
}

fn floats(v: &[u32]) -> Vec<f32> {
    v.iter().map(|b| f32::from_bits(*b)).collect()
}

fn tri_mesh() -> Mesh {
    Mesh {
        positions: bits(&[0.0, 0.0, 0.0, 1.0, 0.0, 0.0, 0.0, 1.0, 0.0]),
        normals: bits(&[0.0, 0.0, 1.0, 0.0, 0.0, 1.0, 0.0, 0.0, 1.0]),
        indices: vec![0, 1, 2],
    }
}

/// Reads the numbers of the meaningful lines the way the server does, then
/// assembles the mesh; binary files are parsed directly.
fn parse_stl(bytes: &[u8]) -> Result<Mesh, MeshError> {
    if is_binary_stl(bytes) {
        return Ok(parse_binary_stl(bytes));
    }
    let number = |t: &Option<String>| t.as_ref().and_then(|s| s.parse::<f32>().ok());
    let rows: Vec<StlRow> = ascii_stl_lines(bytes)?
        .iter()
        .map(|l| match l {
            StlLine::Facet(a, b, c) => StlRow::Facet([
                number(a).unwrap_or(0.0).to_bits(),
                number(b).unwrap_or(0.0).to_bits(),
                number(c).unwrap_or(0.0).to_bits(),
            ]),
            StlLine::Vertex(a, b, c) => match (number(a), number(b), number(c)) {
                (Some(x), Some(y), Some(z)) => {
                    StlRow::Vertex(Some([x.to_bits(), y.to_bits(), z.to_bits()]))
                }
                _ => StlRow::Vertex(None),
            },
            StlLine::EndFacet => StlRow::EndFacet,
        })
        .collect();
    assemble_ascii_stl(&rows)
}

#[test]
fn encode_decode_round_trip() {
    let mesh = tri_mesh();
    let bytes = mesh.encode();
    assert_eq!(&bytes[0..4], b"WSMh");
    assert_eq!(bytes.len(), 16 + 9 * 4 + 9 * 4 + 3 * 4);
    assert_eq!(Mesh::decode(&bytes).unwrap(), mesh);
}

#[test]
fn decode_rejects_bad_header_and_truncation() {
    assert_eq!(Mesh::decode(b"xxxx").unwrap_err(), MeshError::BadHeader);
    let mut bytes = tri_mesh().encode();
    bytes.pop();
    assert_eq!(Mesh::decode(&bytes).unwrap_err(), MeshError::Truncated);
}

fn binary_stl_one_triangle() -> Vec<u8> {
    let mut v = vec![0u8; 80];
    v.extend_from_slice(&1u32.to_le_bytes());
    for f in [0.0f32, 0.0, 1.0] {
        v.extend_from_slice(&f.to_le_bytes());
    }
    for f in [0.0f32, 0.0, 0.0, 1.0, 0.0, 0.0, 0.0, 1.0, 0.0] {
        v.extend_from_slice(&f.to_le_bytes());
    }
    v.extend_from_slice(&0u16.to_le_bytes());
    v
}

#[test]
fn parses_binary_stl() {
    let mesh = parse_stl(&binary_stl_one_triangle()).unwrap();
    assert_eq!(mesh.vertex_count(), 3);
    assert_eq!(mesh.indices, vec![0, 1, 2]);
    assert_eq!(floats(&mesh.positions[3..6]), vec![1.0, 0.0, 0.0]);
    assert_eq!(floats(&mesh.normals[0..3]), vec![0.0, 0.0, 1.0]);
}

#[test]
fn parses_ascii_stl() {
    let ascii = "solid s\n\
        facet normal 0 0 1\n outer loop\n\
        vertex 0 0 0\n vertex 1 0 0\n vertex 0 1 0\n\
        endloop\n endfacet\nendsolid s\n";
    let mesh = parse_stl(ascii.as_bytes()).unwrap();
    assert_eq!(mesh.vertex_count(), 3);
    assert_eq!(mesh.indices, vec![0, 1, 2]);
    assert_eq!(floats(&mesh.normals[6..9]), vec![0.0, 0.0, 1.0]);
}

#[test]
fn ascii_stl_requires_facets() {
    assert!(parse_stl(b"solid empty\nendsolid empty\n").is_err());
}

#[test]
fn ascii_stl_errors_are_reported() {
    assert_eq!(
        ascii_stl_lines(&[0xff, 0xfe]).unwrap_err(),
        MeshError::InvalidStl("non UTF-8")
    );
    let two = "facet normal 0 0 1\nvertex 0 0 0\nvertex 1 0 0\nendfacet\n";
    assert_eq!(
        parse_stl(two.as_bytes()).unwrap_err(),
        MeshError::InvalidStl("facette non triangulaire")
    );
    let bad = "facet normal 0 0 1\nvertex 0 zero 0\n";
    assert_eq!(
        parse_stl(bad.as_bytes()).unwrap_err(),
        MeshError::InvalidStl("sommet illisible")
    );
    assert_eq!(
        parse_stl(b"solid x\n").unwrap_err(),
        MeshError::InvalidStl("aucune facette")
    );
}

#[test]
fn ascii_stl_lines_keep_number_texts() {
    let lines = ascii_stl_lines(b"solid\n facet normal 1 2\n  vertex 4 5 6\nendfacet\n").unwrap();
    assert_eq!(
        lines,
        vec![
            StlLine::Facet(Some("1".to_string()), Some("2".to_string()), None),
            StlLine::Vertex(Some("4".to_string()), Some("5".to_string()), Some("6".to_string())),
            StlLine::EndFacet,
        ]
    );
}

#[test]
fn triangle_count_reads_wsmh_header() {
    let wsmh = tri_mesh().encode();
    assert_eq!(wsmh_triangle_count(&wsmh).unwrap(), 1);
    assert!(wsmh_triangle_count(b"garbage").is_err());
}

#[test]
fn mesh_errors_have_messages() {
    assert_eq!(MeshError::BadHeader.message(), "en-tête de maillage invalide");
    assert_eq!(MeshError::Truncated.message(), "tampon de maillage tronqué");
    assert_eq!(MeshError::InvalidStl("x").message(), "STL invalide : x");
}
