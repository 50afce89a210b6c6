use rust_lib_flutter_alacritty::view_frame::RowDamage;

#[test]
fn row_damage_column_count_matches_range() {
    let d = RowDamage {
        viewport_row: 0,
        start_col: 2,
        end_col: 5,
        codepoints: vec![65, 66, 67, 68],
        fg: vec![0; 4],
        bg: vec![0; 4],
        flags: vec![0; 4],
        hyperlink_id: vec![0; 4],
    };
    assert_eq!(d.codepoints.len(), (d.end_col - d.start_col + 1) as usize);
}
