use led_materials::materials::control_card::{
    ControlCard, ControlCardInterfaceType, ControlCards,
};
use led_materials::materials::display_unit::DisplayUnit;
use led_materials::materials::{add_control_cards, full_product, MaterialsCRUD, MaterialsError};

fn card(model: &str, cost: u32, output: &str, ports: u32, load: (u32, u32)) -> ControlCard {
    ControlCard::new(
        model.to_string(),
        "parameters".to_string(),
        cost,
        ("Netwrkport".to_string(), 1),
        (output.to_string(), ports),
        load,
    )
}

fn unit(resolution: (u32, u32)) -> DisplayUnit {
    DisplayUnit::new(
        "YS-P2.0SIH".to_string(),
        "parameters".to_string(),
        100,
        "HUB75".to_string(),
        2000,
        resolution,
        "塑料套件".to_string(),
        (320, 160, 27),
        33,
    )
}

fn catalog(cards: &[ControlCard]) -> ControlCards {
    let mut catalog = ControlCards::create_materials();
    for c in cards {
        catalog.add_material(c);
    }
    catalog
}

#[test]
fn full_product_of_largest_factors() {
    assert_eq!(full_product(0, 7), 0);
    assert_eq!(full_product(320, 16), 5120);
    assert_eq!(full_product(u32::MAX, u32::MAX), 18446744065119617025);
}

#[test]
fn quantity_by_load_capacity() {
    // 128 * 1024 / (160 * 80) = 10 modules a card, 2 cards a row, 18 rows
    assert_eq!(
        ControlCard::cal_cards_num((16, 18), (160, 80), (128, 1024), 12),
        Ok(36)
    );
    // 192 * 1024 / 12800 = 15, clamped to 12 ports
    assert_eq!(
        ControlCard::cal_cards_num((16, 18), (160, 80), (192, 1024), 12),
        Ok(36)
    );
    assert_eq!(
        ControlCard::cal_cards_num((16, 18), (160, 80), (192, 1024), 16),
        Ok(36)
    );
    // 256 * 1024 / 12800 = 20 modules a card: one card a row
    assert_eq!(
        ControlCard::cal_cards_num((16, 18), (160, 80), (256, 1024), 20),
        Ok(18)
    );
}

#[test]
fn quantity_is_clamped_to_ports() {
    assert_eq!(
        ControlCard::cal_cards_num((16, 18), (160, 80), (256, 1024), 4),
        Ok(72)
    );
    assert_eq!(
        ControlCard::cal_cards_num((16, 18), (160, 80), (256, 1024), 1),
        Ok(288)
    );
    assert_eq!(
        ControlCard::cal_cards_num((17, 3), (160, 80), (256, 1024), 16),
        Ok(6)
    );
}

#[test]
fn quantity_rounds_rows_up() {
    assert_eq!(ControlCard::cal_cards_num((10, 1), (1, 1), (10, 1), 100), Ok(1));
    assert_eq!(ControlCard::cal_cards_num((11, 1), (1, 1), (10, 1), 100), Ok(2));
    assert_eq!(ControlCard::cal_cards_num((20, 1), (1, 1), (10, 1), 100), Ok(2));
    assert_eq!(ControlCard::cal_cards_num((21, 1), (1, 1), (10, 1), 100), Ok(3));
    assert_eq!(ControlCard::cal_cards_num((1, 7), (1, 1), (10, 1), 100), Ok(7));
}

#[test]
fn quantity_of_empty_matrix_is_zero() {
    assert_eq!(ControlCard::cal_cards_num((0, 18), (160, 80), (128, 1024), 12), Ok(0));
    assert_eq!(ControlCard::cal_cards_num((16, 0), (160, 80), (128, 1024), 12), Ok(0));
    assert_eq!(ControlCard::cal_cards_num((0, 0), (160, 80), (128, 1024), 12), Ok(0));
}

#[test]
fn quantity_is_within_bounds() {
    for cols in 1..20u32 {
        for rows in 1..6u32 {
            for ports in 1..5u32 {
                for load in [(160, 80), (160, 81), (320, 80), (1000, 1000)] {
                    let q = ControlCard::cal_cards_num((cols, rows), (160, 80), load, ports)
                        .unwrap();
                    assert!(q >= 1);
                    assert!(q <= cols as u64 * rows as u64);
                }
            }
        }
    }
}

#[test]
fn quantity_grows_with_the_matrix() {
    for cols in 0..20u32 {
        for rows in 0..6u32 {
            let here = ControlCard::cal_cards_num((cols, rows), (160, 80), (128, 1024), 3).unwrap();
            let wider =
                ControlCard::cal_cards_num((cols + 1, rows), (160, 80), (128, 1024), 3).unwrap();
            let higher =
                ControlCard::cal_cards_num((cols, rows + 1), (160, 80), (128, 1024), 3).unwrap();
            assert!(here <= wider);
            assert!(here <= higher);
        }
    }
}

#[test]
fn quantity_of_largest_inputs() {
    assert_eq!(
        ControlCard::cal_cards_num((u32::MAX, u32::MAX), (1, 1), (1, 1), 1),
        Ok(18446744065119617025)
    );
    assert_eq!(
        ControlCard::cal_cards_num(
            (u32::MAX, u32::MAX),
            (1, 1),
            (u32::MAX, u32::MAX),
            u32::MAX
        ),
        Ok(u32::MAX as u64)
    );
    assert_eq!(
        ControlCard::cal_cards_num(
            (u32::MAX, 1),
            (u32::MAX, u32::MAX),
            (u32::MAX, u32::MAX),
            u32::MAX
        ),
        Ok(u32::MAX as u64)
    );
}

#[test]
fn load_below_one_module_is_invalid() {
    assert_eq!(
        ControlCard::cal_cards_num((16, 18), (160, 80), (100, 100), 12),
        Err(MaterialsError::InvalidConfiguration)
    );
    assert_eq!(
        ControlCard::cal_cards_num((16, 18), (160, 80), (160, 79), 12),
        Err(MaterialsError::InvalidConfiguration)
    );
    assert_eq!(
        ControlCard::cal_cards_num((0, 0), (160, 80), (0, 0), 12),
        Err(MaterialsError::InvalidConfiguration)
    );
    assert_eq!(
        ControlCard::cal_cards_num((16, 18), (160, 80), (160, 80), 12),
        Ok(288)
    );
}

#[test]
fn card_without_ports_is_invalid() {
    assert_eq!(
        ControlCard::cal_cards_num((16, 18), (160, 80), (128, 1024), 0),
        Err(MaterialsError::InvalidConfiguration)
    );
}

#[test]
fn module_without_pixels_is_invalid() {
    assert_eq!(
        ControlCard::cal_cards_num((16, 18), (0, 80), (128, 1024), 12),
        Err(MaterialsError::InvalidConfiguration)
    );
    assert_eq!(
        ControlCard::cal_cards_num((16, 18), (160, 0), (128, 1024), 12),
        Err(MaterialsError::InvalidConfiguration)
    );
}

#[test]
fn selection_from_sample_catalog() {
    let chosen = ControlCard::cal_cards_type_nums_consts(
        unit((160, 80)),
        (16, 18),
        ControlCardInterfaceType::HUB75,
        add_control_cards(),
    )
    .unwrap();
    // E80: 36 cards at 110; 5A-75E: 36 cards at 130
    assert_eq!(chosen.model_name, "E80");
    assert_eq!(chosen.card_nums, 36);
    assert_eq!(chosen.const_total, 3960);
}

#[test]
fn selection_prefers_fewer_dearer_cards_when_cheaper_in_total() {
    let cards = catalog(&[
        card("small", 100, "HUB75", 12, (128, 1024)),
        card("large", 150, "HUB75", 20, (256, 1024)),
    ]);
    let chosen = ControlCard::cal_cards_type_nums_consts(
        unit((160, 80)),
        (16, 18),
        ControlCardInterfaceType::HUB75,
        cards,
    )
    .unwrap();
    // small: 36 * 100 = 3600; large: 18 * 150 = 2700
    assert_eq!(chosen.model_name, "large");
    assert_eq!(chosen.card_nums, 18);
    assert_eq!(chosen.const_total, 2700);
}

#[test]
fn selection_without_matching_interface_fails() {
    let cards = catalog(&[
        card("a", 100, "HUB320", 12, (128, 1024)),
        card("b", 100, "50PIN", 12, (128, 1024)),
        card("c", 100, "hub75", 12, (128, 1024)),
    ]);
    let outcome = ControlCard::cal_cards_type_nums_consts(
        unit((160, 80)),
        (16, 18),
        ControlCardInterfaceType::HUB75,
        cards,
    );
    assert_eq!(outcome.err(), Some(MaterialsError::NoCompatibleCard));
}

#[test]
fn selection_from_empty_catalog_fails() {
    let outcome = ControlCard::cal_cards_type_nums_consts(
        unit((160, 80)),
        (16, 18),
        ControlCardInterfaceType::HUB75,
        ControlCards::create_materials(),
    );
    assert_eq!(outcome.err(), Some(MaterialsError::NoCompatibleCard));
}

#[test]
fn selection_is_deterministic() {
    let cards = catalog(&[
        card("a", 110, "HUB75", 12, (128, 1024)),
        card("b", 55, "HUB75", 6, (128, 1024)),
        card("c", 110, "HUB75", 12, (192, 1024)),
        card("d", 220, "HUB75", 20, (256, 1024)),
    ]);
    let first = ControlCard::cal_cards_type_nums_consts(
        unit((160, 80)),
        (16, 18),
        ControlCardInterfaceType::HUB75,
        cards.clone(),
    )
    .unwrap();
    for _ in 0..5 {
        let again = ControlCard::cal_cards_type_nums_consts(
            unit((160, 80)),
            (16, 18),
            ControlCardInterfaceType::HUB75,
            cards.clone(),
        )
        .unwrap();
        assert_eq!(again.model_name, first.model_name);
        assert_eq!(again.card_nums, first.card_nums);
        assert_eq!(again.const_total, first.const_total);
    }
    // a: 36 * 110, b: 54 * 55 = 2970, c: 36 * 110, d: 18 * 220 = 3960
    assert_eq!(first.model_name, "b");
    assert_eq!(first.card_nums, 54);
    assert_eq!(first.const_total, 2970);
}

#[test]
fn equal_quantity_lower_unit_cost_wins() {
    let cards = catalog(&[
        card("dear", 130, "HUB75", 12, (128, 1024)),
        card("cheap", 110, "HUB75", 12, (128, 1024)),
    ]);
    let chosen = ControlCard::cal_cards_type_nums_consts(
        unit((160, 80)),
        (16, 18),
        ControlCardInterfaceType::HUB75,
        cards,
    )
    .unwrap();
    assert_eq!(chosen.model_name, "cheap");
    assert_eq!(chosen.card_nums, 36);
    assert_eq!(chosen.const_total, 3960);
}

#[test]
fn equal_total_cost_first_in_catalog_wins() {
    let cards = catalog(&[
        card("other", 1, "HUB320", 12, (128, 1024)),
        card("first", 110, "HUB75", 12, (128, 1024)),
        card("second", 110, "HUB75", 12, (128, 1024)),
        card("third", 220, "HUB75", 20, (256, 1024)),
    ]);
    let chosen = ControlCard::cal_cards_type_nums_consts(
        unit((160, 80)),
        (16, 18),
        ControlCardInterfaceType::HUB75,
        cards,
    )
    .unwrap();
    assert_eq!(chosen.model_name, "first");
    assert_eq!(chosen.card_nums, 36);
    assert_eq!(chosen.const_total, 3960);
}

#[test]
fn equal_total_cost_with_fewer_cards_later_still_first_wins() {
    // the later card needs fewer cards at the same total: catalog order decides
    let cards = catalog(&[
        card("many", 110, "HUB75", 12, (128, 1024)),
        card("few", 220, "HUB75", 20, (256, 1024)),
    ]);
    let chosen = ControlCard::cal_cards_type_nums_consts(
        unit((160, 80)),
        (16, 18),
        ControlCardInterfaceType::HUB75,
        cards,
    )
    .unwrap();
    assert_eq!(chosen.model_name, "many");
    assert_eq!(chosen.card_nums, 36);
    assert_eq!(chosen.const_total, 3960);
}

#[test]
fn port_count_does_not_filter_candidates() {
    let cards = catalog(&[card("one-port", 10, "HUB75", 1, (128, 1024))]);
    let chosen = ControlCard::cal_cards_type_nums_consts(
        unit((160, 80)),
        (16, 18),
        ControlCardInterfaceType::HUB75,
        cards,
    )
    .unwrap();
    assert_eq!(chosen.model_name, "one-port");
    assert_eq!(chosen.card_nums, 288);
    assert_eq!(chosen.const_total, 2880);
}

#[test]
fn candidate_below_one_module_is_invalid_configuration() {
    let cards = catalog(&[
        card("fine", 110, "HUB75", 12, (128, 1024)),
        card("weak", 10, "HUB75", 12, (100, 100)),
    ]);
    let outcome = ControlCard::cal_cards_type_nums_consts(
        unit((160, 80)),
        (16, 18),
        ControlCardInterfaceType::HUB75,
        cards,
    );
    assert_eq!(outcome.err(), Some(MaterialsError::InvalidConfiguration));
}

#[test]
fn weak_card_of_another_interface_is_ignored() {
    let cards = catalog(&[
        card("weak", 10, "HUB320", 12, (100, 100)),
        card("fine", 110, "HUB75", 12, (128, 1024)),
    ]);
    let chosen = ControlCard::cal_cards_type_nums_consts(
        unit((160, 80)),
        (16, 18),
        ControlCardInterfaceType::HUB75,
        cards,
    )
    .unwrap();
    assert_eq!(chosen.model_name, "fine");
}

#[test]
fn selection_for_other_interface_matches_unknown_labels() {
    let cards = catalog(&[
        card("known", 1, "HUB75", 12, (128, 1024)),
        card("typo", 7, "HUB-75", 12, (128, 1024)),
    ]);
    let chosen = ControlCard::cal_cards_type_nums_consts(
        unit((160, 80)),
        (16, 18),
        ControlCardInterfaceType::OtherCardInterfaceType,
        cards,
    )
    .unwrap();
    assert_eq!(chosen.model_name, "typo");
    assert_eq!(chosen.const_total, 252);
}

#[test]
fn selection_of_largest_inputs_does_not_overflow() {
    let cards = catalog(&[card("max", u32::MAX, "HUB75", 1, (1, 1))]);
    let chosen = ControlCard::cal_cards_type_nums_consts(
        unit((1, 1)),
        (u32::MAX, u32::MAX),
        ControlCardInterfaceType::HUB75,
        cards,
    )
    .unwrap();
    assert_eq!(chosen.card_nums, 18446744065119617025);
    assert_eq!(
        chosen.const_total,
        18446744065119617025u128 * u32::MAX as u128
    );
}

#[test]
fn selection_for_empty_matrix_costs_nothing() {
    let chosen = ControlCard::cal_cards_type_nums_consts(
        unit((160, 80)),
        (0, 18),
        ControlCardInterfaceType::HUB75,
        add_control_cards(),
    )
    .unwrap();
    assert_eq!(chosen.model_name, "E80");
    assert_eq!(chosen.card_nums, 0);
    assert_eq!(chosen.const_total, 0);
}
