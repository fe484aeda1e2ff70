use led_materials::materials::{cal_led_screen_info, LedUnitsMatrixInfo};

fn micrometres(millimetres: f32) -> u32 {
    (millimetres * 1000.0).round() as u32
}

#[test]
fn test1() {
    assert_eq!(
        cal_led_screen_info(micrometres(2.0), (5120, 2880), (320, 160, 27)),
        LedUnitsMatrixInfo {
            led_unit_matrix: (16, 18),
            other_info: "尺寸完全相符".to_string()
        }
    );
}

#[test]
fn exact_fit_reports_requested_size() {
    let info = cal_led_screen_info(micrometres(2.0), (5120, 2880), (320, 160, 27));
    assert_eq!(info.led_unit_matrix, (16, 18));
    assert!(info.is_exact_fit());
    assert_eq!(info.achieved_size((320, 160, 27)), (5120, 2880));
}

#[test]
fn remainder_is_a_mismatch_with_suggestion() {
    let info = cal_led_screen_info(micrometres(2.0), (5000, 2880), (320, 160, 27));
    assert_eq!(info.led_unit_matrix, (15, 18));
    assert_eq!(info.other_info, "尺寸不匹配，以下为建议尺寸");
    assert_ne!(info.other_info, "尺寸完全相符");
    assert!(!info.is_exact_fit());
    assert_eq!(info.achieved_size((320, 160, 27)), (4800, 2880));
}

#[test]
fn remainder_in_height_alone_is_a_mismatch() {
    let info = cal_led_screen_info(2000, (5120, 2900), (320, 160, 27));
    assert_eq!(info.led_unit_matrix, (16, 18));
    assert!(!info.is_exact_fit());
    assert_eq!(info.achieved_size((320, 160, 27)), (5120, 2880));
}

#[test]
fn screen_smaller_than_a_module_has_no_modules() {
    let info = cal_led_screen_info(2000, (100, 100), (320, 160, 27));
    assert_eq!(info.led_unit_matrix, (0, 0));
    assert!(!info.is_exact_fit());
    assert_eq!(info.achieved_size((320, 160, 27)), (0, 0));
}

#[test]
fn empty_screen_fits_exactly() {
    let info = cal_led_screen_info(2000, (0, 0), (320, 160, 27));
    assert_eq!(info.led_unit_matrix, (0, 0));
    assert!(info.is_exact_fit());
}

#[test]
fn layout_does_not_depend_on_point_spacing() {
    assert_eq!(
        cal_led_screen_info(1538, (5120, 2880), (320, 160, 27)),
        cal_led_screen_info(2000, (5120, 2880), (320, 160, 27))
    );
}

#[test]
fn largest_screen_is_laid_out() {
    let info = cal_led_screen_info(2000, (u32::MAX, u32::MAX), (1, 2, 3));
    assert_eq!(info.led_unit_matrix, (u32::MAX, u32::MAX / 2));
    assert!(!info.is_exact_fit());
    assert_eq!(
        info.achieved_size((1, 2, 3)),
        (u32::MAX as u64, u32::MAX as u64 - 1)
    );
}

#[test]
fn achieved_size_does_not_overflow() {
    let info = LedUnitsMatrixInfo {
        led_unit_matrix: (u32::MAX, u32::MAX),
        other_info: String::new(),
    };
    let side = u32::MAX as u64 * u32::MAX as u64;
    assert_eq!(info.achieved_size((u32::MAX, u32::MAX, 0)), (side, side));
    assert!(!info.is_exact_fit());
}

#[test]
fn layout_clone_is_equal() {
    let info = cal_led_screen_info(2000, (5000, 2880), (320, 160, 27));
    let copy = info.clone();
    assert!(info == copy);
    assert_eq!(copy.led_unit_matrix, (15, 18));
}
