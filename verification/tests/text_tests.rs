use game_debug::expr_text::{format_expr, format_expr_compact, Expr};
use game_debug::inspector::{ClickInspectorState, ColorRestore};
use game_debug::labels::{origin_being_label, ref_id_label, region_dim_key_label};
use game_debug::nav_text::{format_nav_fields, format_nav_value, summarize_positions, NavField, NavValue};
use game_debug::picking::TilePos;

fn lit(v: &str) -> Expr {
    Expr::Literal(v.to_string())
}

fn bx(e: Expr) -> Box<Expr> {
    Box::new(e)
}

#[test]
fn readable_expression_forms() {
    assert_eq!(format_expr(&lit("1.500"), 3), "1.500");
    assert_eq!(
        format_expr(&Expr::Noise { complement: true, seed_offset: "7".to_string() }, 2),
        "    Noise(seed: 7)!"
    );
    assert_eq!(
        format_expr(&Expr::NoiseByName { name: "hills".to_string(), complement: false }, 1),
        "  NoiseByName(hills)"
    );
    let sum = Expr::Add { left: bx(lit("1.000")), right: bx(Expr::Variable { name: "h".to_string() }) };
    assert_eq!(format_expr(&sum, 0), "(1.000 + $h)");
    let clamp = Expr::Clamp { value: bx(sum), min: bx(lit("0.000")), max: bx(lit("1.000")) };
    assert_eq!(format_expr(&clamp, 0), "clamp((1.000 + $h), 0.000, 1.000)");
    let avg = Expr::Average { values: vec![lit("1.000"), Expr::HashPos { seed: "3".to_string() }] };
    assert_eq!(format_expr(&avg, 0), "avg(1.000, hp3)");
    assert_eq!(format_expr(&Expr::Min { values: vec![] }, 0), "min()");
    assert_eq!(
        format_expr(&Expr::PoissonDisk { min_dist: "4".to_string(), seed: "9".to_string() }, 0),
        "pd4_9"
    );
    let nm = Expr::MultiplyNormalized { left: bx(lit("2.000")), right: bx(Expr::Complement { value: bx(lit("0.500")) }) };
    assert_eq!(format_expr(&nm, 0), "*nm(2.000, !0.500)");
}

#[test]
fn compact_expression_forms() {
    let noise = Expr::Noise { complement: false, seed_offset: "7".to_string() };
    assert_eq!(format_expr_compact(&noise), "noise");
    assert_eq!(format_expr_compact(&Expr::Noise { complement: true, seed_offset: "1".to_string() }), "!noise");
    assert_eq!(format_expr_compact(&Expr::NoiseByName { name: "hills".to_string(), complement: true }), "!hills");
    let lin = Expr::Linear { values: vec![noise, lit("0.250"), Expr::Abs { value: bx(lit("-1.000")) }] };
    assert_eq!(format_expr_compact(&lin), "lin(noise, 0.250, abs(-1.000))");
    // operations without a compact form of their own print their readable form
    let opo = Expr::MultiplyOpo { value: bx(Expr::NoiseByName { name: "n".to_string(), complement: false }) };
    assert_eq!(format_expr_compact(&opo), "*opo(n)");
    // the readable form prints list operands in compact form
    let max = Expr::Max { values: vec![Expr::Noise { complement: false, seed_offset: "2".to_string() }] };
    assert_eq!(format_expr(&max, 4), "max(noise)");
}

#[test]
fn nav_values_print() {
    assert_eq!(format_nav_value(&NavValue::Bool(true)), "true");
    assert_eq!(format_nav_value(&NavValue::I32(-45)), "-45");
    assert_eq!(format_nav_value(&NavValue::U64(18446744073709551615)), "18446744073709551615");
    assert_eq!(format_nav_value(&NavValue::I64(i64::MIN)), "-9223372036854775808");
    assert_eq!(format_nav_value(&NavValue::GPos(TilePos { x: 3, y: -1 })), "[3, -1]");
    assert_eq!(format_nav_value(&NavValue::MaybeGPos(None)), "missing");
    assert_eq!(format_nav_value(&NavValue::MaybeU32(Some(0))), "0");
    assert_eq!(format_nav_value(&NavValue::MaybeText(None)), "missing");
    assert_eq!(format_nav_value(&NavValue::Printed("1.250".to_string())), "1.250");
    assert_eq!(format_nav_value(&NavValue::MaybePrinted(None)), "missing");
}

#[test]
fn nav_fields_join() {
    assert_eq!(format_nav_fields(&vec![]), "");
    let fields = vec![
        NavField { key: "state".to_string(), value: NavValue::Text("walk".to_string()) },
        NavField { key: "steps".to_string(), value: NavValue::U32(12) },
        NavField { key: "goal".to_string(), value: NavValue::MaybeGPos(Some(TilePos { x: -2, y: 5 })) },
    ];
    assert_eq!(format_nav_fields(&fields), "state=walk | steps=12 | goal=[-2, 5]");
}

#[test]
fn position_summaries() {
    assert_eq!(summarize_positions(&vec![]), "none");
    let points = vec![TilePos { x: 4, y: 1 }, TilePos { x: -3, y: 0 }, TilePos { x: 2, y: 1 }];
    assert_eq!(summarize_positions(&points), "(-3,0), (2,1), (4,1)");
}

#[test]
fn reference_labels() {
    assert_eq!(ref_id_label(Some("human"), "12v0"), "human");
    assert_eq!(ref_id_label(None, "12v0"), "12v0");
    assert_eq!(origin_being_label("5v0", Some("wolf_pack"), Some("wolf")), "5v0 | bit wolf_pack");
    assert_eq!(origin_being_label("5v0", None, Some("wolf")), "5v0 | race wolf");
    assert_eq!(origin_being_label("5v0", None, None), "5v0");
    assert_eq!(region_dim_key_label("DimensionRef(9)", None, Some("overworld")), "DimensionRef(9)");
    assert_eq!(region_dim_key_label("DimensionRef(9)", Some(14), Some("overworld")), "overworld (14)");
    assert_eq!(region_dim_key_label("DimensionRef(9)", Some(14), None), "DimensionRef(9) (14)");
}

#[test]
fn center_highlight_follows_center_tile() {
    let mut st = ClickInspectorState::default();
    assert_eq!(st.sync_center_highlight(Some(8), true), (ColorRestore::Nothing, Some(8)));
    assert_eq!(st.highlighted_center_tile, Some(8));
    // the same tile again changes nothing
    assert_eq!(st.sync_center_highlight(Some(8), false), (ColorRestore::Nothing, None));
    assert!(st.highlighted_center_tile_had_color);
    // moving away gives the old tile its colour back
    assert_eq!(st.sync_center_highlight(Some(9), false), (ColorRestore::Reinsert(8), Some(9)));
    assert_eq!(st.clear_center_highlight(), ColorRestore::RemoveColor(9));
    assert_eq!(st.highlighted_center_tile, None);
    assert_eq!(st.clear_center_highlight(), ColorRestore::Nothing);
}

#[test]
fn position_summary_ignores_input_order() {
    let a = vec![TilePos { x: 1, y: 2 }, TilePos { x: 0, y: 2 }, TilePos { x: 5, y: -1 }];
    let b = vec![TilePos { x: 5, y: -1 }, TilePos { x: 1, y: 2 }, TilePos { x: 0, y: 2 }];
    assert_eq!(summarize_positions(&a), summarize_positions(&b));
    assert_eq!(summarize_positions(&a), "(5,-1), (0,2), (1,2)");
}
