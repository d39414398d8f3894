use backend::gcode::kind_id;
use backend::preview::{
    is_preview_readable, preview_actions, MoveParam, PreviewAction, PreviewLayer, PreviewModel, PreviewSegment,
    PREVIEW_RECORD_BYTES, PREVIEW_VERSION,
};

const PREVIEW_GCODE: &str = "\
G1 X0 Y0 Z0.2 F1200
;LAYER_CHANGE
;Z:0.2
;HEIGHT:0.2
;WIDTH:0.45
;TYPE:Outer wall
G1 X10 Y0 E0.5 F1800
G1 X10 Y10 E1.0
;TYPE:Sparse infill
G1 X0 Y10 E1.5 F3000
;LAYER_CHANGE
;Z:0.4
;TYPE:Outer wall
T1
G1 X0 Y0 E2.0 F1800
";

fn seg(kind: u8, extruder: u8) -> PreviewSegment {
    PreviewSegment {
        start: [0.0f32.to_bits(), 0.0f32.to_bits(), 0.2f32.to_bits()],
        end: [10.0f32.to_bits(), 0.0f32.to_bits(), 0.2f32.to_bits()],
        kind,
        extruder,
        feedrate: 1800.0f32.to_bits(),
        width: 0.45f32.to_bits(),
        height: 0.2f32.to_bits(),
    }
}

/// The layers of `PREVIEW_GCODE`: three segments on the first, one on the second.
fn two_layers() -> PreviewModel {
    let wall = kind_id("Outer wall");
    let infill = kind_id("Sparse infill");
    PreviewModel::from_layers(&vec![
        PreviewLayer { z: 0, segments: vec![] },
        PreviewLayer { z: 0.2f32.to_bits(), segments: vec![seg(wall, 0), seg(wall, 0), seg(infill, 0)] },
        PreviewLayer { z: 0.4f32.to_bits(), segments: vec![seg(wall, 1)] },
    ])
}

fn word(buf: &[u8], at: usize) -> u32 {
    u32::from_le_bytes([buf[at], buf[at + 1], buf[at + 2], buf[at + 3]])
}

#[test]
fn encode_range_header_and_record_sizes() {
    let model = two_layers();
    let buf = model.encode_range(0, 0);
    assert_eq!(&buf[0..4], b"WSPv");
    assert_eq!(u16::from_le_bytes([buf[4], buf[5]]), PREVIEW_VERSION);
    assert_eq!((word(&buf, 6), word(&buf, 10), word(&buf, 14)), (0, 0, 3));
    assert_eq!(buf.len(), 18 + 3 * PREVIEW_RECORD_BYTES as usize);
}

#[test]
fn encode_range_is_clamped_to_available_layers() {
    let model = two_layers();
    let buf = model.encode_range(5, 9);
    assert_eq!(word(&buf, 10), 1, "borné à la dernière couche");
    let empty = PreviewModel { layers: vec![] }.encode_range(0, 3);
    assert_eq!(empty.len(), 18);
    assert_eq!(word(&empty, 14), 0);
}

#[test]
fn segment_records_carry_the_layer_index() {
    let buf = two_layers().encode_range(0, 1);
    assert_eq!(word(&buf, 14), 4);
    let last = 18 + 3 * 40;
    assert_eq!(f32::from_bits(word(&buf, last + 12)), 10.0);
    assert_eq!(buf[last + 36], kind_id("Outer wall"));
    assert_eq!(buf[last + 37], 1);
    assert_eq!(u16::from_le_bytes([buf[last + 38], buf[last + 39]]), 1);
}

#[test]
fn travel_only_layers_are_dropped() {
    let model = PreviewModel::from_layers(&vec![PreviewLayer { z: 0, segments: vec![] }]);
    assert_eq!(model.layer_count(), 0);
}

#[test]
fn counts_report_layers_roles_and_extruders() {
    let c = two_layers().counts();
    assert_eq!(c.layer_count, 2);
    assert_eq!(c.layer_segment_counts, vec![3, 1]);
    let mut kinds = vec![kind_id("Outer wall"), kind_id("Sparse infill")];
    kinds.sort();
    assert_eq!(c.kinds_present, kinds);
    assert_eq!(c.extruders_present, vec![0, 1]);
}

#[test]
fn lines_become_preview_actions() {
    let actions = preview_actions(PREVIEW_GCODE);
    assert_eq!(
        actions[0],
        PreviewAction::Move(vec![
            MoveParam { axis: 'X', value: "0".to_string() },
            MoveParam { axis: 'Y', value: "0".to_string() },
            MoveParam { axis: 'Z', value: "0.2".to_string() },
            MoveParam { axis: 'F', value: "1200".to_string() },
        ])
    );
    assert_eq!(actions[1], PreviewAction::NewLayer);
    assert_eq!(actions[2], PreviewAction::SetZ("0.2".to_string()));
    assert_eq!(actions[3], PreviewAction::SetHeight("0.2".to_string()));
    assert_eq!(actions[4], PreviewAction::SetWidth("0.45".to_string()));
    assert_eq!(actions[5], PreviewAction::SetKind(kind_id("Outer wall")));
    assert!(actions.contains(&PreviewAction::Tool(1)));
    assert_eq!(actions.len(), 15);
}

#[test]
fn comments_and_commands_share_a_line() {
    let actions = preview_actions("G92 E0 ; FEATURE: Sparse infill\nM83\nM82\nT300\nG28\n; LAYER_HEIGHT: 0.3\n");
    assert_eq!(
        actions,
        vec![
            PreviewAction::SetKind(kind_id("Sparse infill")),
            PreviewAction::ResetE(vec!["0".to_string()]),
            PreviewAction::RelativeE,
            PreviewAction::AbsoluteE,
            PreviewAction::SetHeight("0.3".to_string()),
        ]
    );
}

/// The head state machine that the server runs over the actions.
#[derive(Default)]
struct HeadState {
    pos: [f32; 3],
    e: f32,
    feedrate: f32,
    extruder: u8,
    kind: u8,
    width: f32,
    height: f32,
    relative_e: bool,
}

fn bits3(v: [f32; 3]) -> [u32; 3] {
    [v[0].to_bits(), v[1].to_bits(), v[2].to_bits()]
}

fn parse_preview(gcode: &str) -> PreviewModel {
    assert!(is_preview_readable(gcode));
    let mut st = HeadState::default();
    let mut layers = vec![PreviewLayer { z: 0.0f32.to_bits(), segments: Vec::new() }];
    for action in preview_actions(gcode) {
        match action {
            PreviewAction::SetKind(k) => st.kind = k,
            PreviewAction::NewLayer => layers.push(PreviewLayer { z: 0.0f32.to_bits(), segments: Vec::new() }),
            PreviewAction::SetZ(v) => {
                if let Ok(z) = v.trim().parse::<f32>() {
                    layers.last_mut().unwrap().z = z.to_bits();
                }
            }
            PreviewAction::SetHeight(v) => st.height = v.trim().parse().unwrap_or(st.height),
            PreviewAction::SetWidth(v) => st.width = v.trim().parse().unwrap_or(st.width),
            PreviewAction::Move(params) => {
                let mut new_pos = st.pos;
                let mut e_param: Option<f32> = None;
                for p in params {
                    let Ok(val) = p.value.parse::<f32>() else { continue };
                    match p.axis {
                        'X' => new_pos[0] = val,
                        'Y' => new_pos[1] = val,
                        'Z' => new_pos[2] = val,
                        'E' => e_param = Some(val),
                        'F' => st.feedrate = val,
                        _ => {}
                    }
                }
                let extruding = match e_param {
                    Some(e) if st.relative_e => e > 0.0,
                    Some(e) => e > st.e,
                    None => false,
                };
                if extruding {
                    let layer = layers.last_mut().unwrap();
                    if f32::from_bits(layer.z) == 0.0 {
                        layer.z = new_pos[2].to_bits();
                    }
                    layer.segments.push(PreviewSegment {
                        start: bits3(st.pos),
                        end: bits3(new_pos),
                        kind: st.kind,
                        extruder: st.extruder,
                        feedrate: st.feedrate.to_bits(),
                        width: st.width.to_bits(),
                        height: st.height.to_bits(),
                    });
                }
                st.pos = new_pos;
                if let Some(e) = e_param {
                    if !st.relative_e {
                        st.e = e;
                    }
                }
            }
            PreviewAction::ResetE(values) => {
                for v in values {
                    st.e = v.parse().unwrap_or(st.e);
                }
            }
            PreviewAction::AbsoluteE => st.relative_e = false,
            PreviewAction::RelativeE => st.relative_e = true,
            PreviewAction::Tool(n) => st.extruder = n,
        }
    }
    PreviewModel::from_layers(&layers)
}

fn f(bits: u32) -> f32 {
    f32::from_bits(bits)
}

#[test]
fn parses_layers_and_typed_segments() {
    let model = parse_preview(PREVIEW_GCODE);
    assert_eq!(model.layer_count(), 2);

    let l0 = &model.layers[0];
    assert_eq!(f(l0.z), 0.2);
    assert_eq!(l0.segments.len(), 3);
    assert_eq!(l0.segments[0].kind, kind_id("Outer wall"));
    assert_eq!(l0.segments[0].start.map(f), [0.0, 0.0, 0.2]);
    assert_eq!(l0.segments[0].end.map(f), [10.0, 0.0, 0.2]);
    assert_eq!(f(l0.segments[0].feedrate), 1800.0);
    assert_eq!(f(l0.segments[0].width), 0.45);
    assert_eq!(f(l0.segments[0].height), 0.2);
    assert_eq!(l0.segments[2].kind, kind_id("Sparse infill"));

    let l1 = &model.layers[1];
    assert_eq!(f(l1.z), 0.4);
    assert_eq!(l1.segments.len(), 1);
    assert_eq!(l1.segments[0].extruder, 1);
}

#[test]
fn relative_extrusion_is_detected() {
    let model = parse_preview("M83\n;TYPE:Outer wall\nG1 X1 Y0 E0.1\nG1 X2 Y0 E0.1\n");
    assert_eq!(model.layers[0].segments.len(), 2);
}

#[test]
fn summary_reports_ranges_and_types() {
    let model = parse_preview(PREVIEW_GCODE);
    let s = model.counts();
    assert_eq!(s.layer_count, 2);
    let layer_z: Vec<f32> = model.layers.iter().map(|l| f(l.z)).collect();
    assert_eq!(layer_z, vec![0.2, 0.4]);
    assert_eq!(s.layer_segment_counts, vec![3, 1]);
    let mut kinds = vec![kind_id("Outer wall"), kind_id("Sparse infill")];
    kinds.sort();
    assert_eq!(s.kinds_present, kinds);
    assert_eq!(s.extruders_present, vec![0, 1]);
    let feeds: Vec<f32> = model.layers.iter().flat_map(|l| l.segments.iter().map(|s| f(s.feedrate))).collect();
    let lo = feeds.iter().cloned().fold(f32::INFINITY, f32::min);
    let hi = feeds.iter().cloned().fold(f32::NEG_INFINITY, f32::max);
    assert_eq!((lo, hi), (1800.0, 3000.0));
    let widths: Vec<f32> = model.layers.iter().flat_map(|l| l.segments.iter().map(|s| f(s.width))).collect();
    assert!(widths.iter().all(|w| *w == 0.45));
}

#[test]
fn multibyte_move_parameters_are_not_readable() {
    assert!(is_preview_readable(PREVIEW_GCODE));
    assert!(is_preview_readable("; é comment\nG28 é\n"));
    assert!(!is_preview_readable("G1 éX1\n"));
    assert!(!is_preview_readable("G1 X1 ; ok\nG0 X1 ℃2\n"));
}
