use backend::gcode::{
    extract_thumbnails, is_dhms_readable, is_stats_readable, kind_id, kind_name, parse_dhms, KIND_TRAVEL,
};

const SAMPLE: &str = "\
; generated by OrcaSlicer
;
; thumbnail begin 2x2 16
; iVBORw0KGgoAAAAN
; SUhEUgAAAAI=
; thumbnail end
;
; filament used [mm] = 1234.56, 0
; filament used [cm3] = 2.97, 0
; filament used [g] = 3.68, 0
; filament cost = 0.11, 0
G1 X0 Y0
G1 X10 Y10 E1.2
; total filament used [g] = 3.68
; total filament cost = 0.11
; total filament change = 2
; total layers count = 42
; estimated printing time (normal mode) = 1h 2m 3s
";

#[test]
fn parse_dhms_covers_all_units() {
    assert_eq!(parse_dhms("45s"), Some(45));
    assert_eq!(parse_dhms("2h 30m"), Some(9000));
    assert_eq!(parse_dhms("1d 1h 1m 1s"), Some(90061));
    assert_eq!(parse_dhms(""), None);
    assert_eq!(parse_dhms("garbage"), None);
}

#[test]
fn extracts_embedded_thumbnail() {
    let thumbs = extract_thumbnails(SAMPLE);
    assert_eq!(thumbs.len(), 1);
    assert_eq!(thumbs[0].width, 2);
    assert_eq!(thumbs[0].height, 2);
    assert_eq!(thumbs[0].data, "iVBORw0KGgoAAAANSUhEUgAAAAI=");
}

#[test]
fn kind_name_round_trips_ids() {
    assert_eq!(kind_name(kind_id("Outer wall")), "Outer wall");
    assert_eq!(kind_name(KIND_TRAVEL), "Travel");
    assert_eq!(kind_name(200), "Unknown");
}

// En-tête réel produit par OrcaSlicer 2.4.1 (variantes à deux-points).
const ORCA_2_4: &str = "\
; model printing time: 8m 42s; total estimated time: 8m 43s
; estimated first layer printing time (normal mode) = 1s
; total layer number: 50
; filament used [mm] = 793.51
; filament used [cm3] = 1.91
; filament used [g] = 2.37
G1 X0 Y0
";

fn decimal(text: &Option<String>) -> Option<f64> {
    text.as_ref().map(|t| t.parse::<f64>().unwrap())
}

fn decimals(items: &[String]) -> Vec<f64> {
    items.iter().map(|t| t.parse::<f64>().unwrap()).collect()
}

#[test]
fn parses_totals_and_time() {
    let s = backend::gcode::parse_stats(SAMPLE);
    assert_eq!(s.estimated_time_text.as_deref(), Some("1h 2m 3s"));
    assert_eq!(s.estimated_time_seconds, Some(3723));
    assert_eq!(decimal(&s.total_filament_weight_g), Some(3.68));
    assert_eq!(decimal(&s.total_filament_cost), Some(0.11));
    assert_eq!(s.total_toolchanges, Some(2));
    assert_eq!(s.layer_count, Some(42));
}

#[test]
fn parses_orcaslicer_2_4_colon_variants() {
    let s = backend::gcode::parse_stats(ORCA_2_4);
    assert_eq!(s.layer_count, Some(50));
    assert_eq!(s.estimated_time_text.as_deref(), Some("8m 43s"));
    assert_eq!(s.estimated_time_seconds, Some(523));
    assert_eq!(decimals(&s.filament_used_g), vec![2.37]);
}

#[test]
fn parses_per_extruder_lists() {
    let s = backend::gcode::parse_stats(SAMPLE);
    assert_eq!(decimals(&s.filament_used_mm), vec![1234.56, 0.0]);
    assert_eq!(decimals(&s.filament_used_cm3), vec![2.97, 0.0]);
    assert_eq!(decimals(&s.filament_used_g), vec![3.68, 0.0]);
    assert_eq!(decimals(&s.filament_cost), vec![0.11, 0.0]);
}

#[test]
fn tolerates_gcode_without_metadata() {
    let s = backend::gcode::parse_stats("G1 X0 Y0\nG1 X1 Y1 E0.5\n");
    assert_eq!(s.estimated_time_seconds, None);
    assert_eq!(s.estimated_time_text, None);
    assert_eq!(s.total_filament_weight_g, None);
    assert_eq!(s.total_filament_cost, None);
    assert_eq!(s.total_toolchanges, None);
    assert_eq!(s.layer_count, None);
    assert!(s.filament_used_mm.is_empty());
    assert!(s.filament_used_cm3.is_empty());
    assert!(s.filament_used_g.is_empty());
    assert!(s.filament_cost.is_empty());
    assert!(extract_thumbnails("G28\nG1 Z0.2\n").is_empty());
}

#[test]
fn kind_ids_ignore_ascii_case_and_default_to_unknown() {
    assert_eq!(kind_id("OUTER WALL"), kind_id("Outer wall"));
    assert_eq!(kind_id("no such role"), 0);
    assert_eq!(kind_name(0), "Unknown");
}

#[test]
fn parse_dhms_rejects_unknown_units() {
    assert_eq!(parse_dhms("3x"), None);
    assert_eq!(parse_dhms("1h 2"), None);
}

#[test]
fn kind_names_ignore_ascii_case() {
    assert_eq!(kind_id("outer WALL"), kind_id("Outer wall"));
    assert_eq!(kind_name(kind_id("outer WALL")), "Outer wall");
    assert_eq!(kind_name(kind_id("INTERNAL bridge")), "Internal Bridge");
    assert_eq!(kind_id("Undefined"), 0);
    assert_eq!(kind_name(kind_id("Undefined")), "Unknown");
}

#[test]
fn code_lines_do_not_change_thumbnails() {
    let with_moves = SAMPLE.replace("; thumbnail end", "G1 X1 Y1 E0.5\n; thumbnail end").replace(
        "; iVBORw0KGgoAAAAN",
        "; iVBORw0KGgoAAAAN\n  G28",
    );
    assert_eq!(extract_thumbnails(&with_moves), extract_thumbnails(SAMPLE));
    assert_eq!(extract_thumbnails(&with_moves).len(), 1);
}

#[test]
fn readability_of_durations_and_statistics() {
    assert!(is_dhms_readable("1d 1h 1m 1s"));
    assert!(is_dhms_readable("garbage"));
    assert!(is_dhms_readable(""));
    assert!(!is_dhms_readable("1é"));
    assert!(!is_dhms_readable("18446744073709551615s 1s"));
    assert!(is_stats_readable(SAMPLE));
    assert!(is_stats_readable("G1 X0\n"));
    assert!(!is_stats_readable("; estimated printing time (normal mode) = 3hé\n"));
    assert!(is_stats_readable("; model printing time: 1s; total estimated time: 8m 43s\n"));
}
