use accord_mobile::order_templates::CalculateOrderTemplate;
use accord_mobile::production_map::{
    is_quick_template_order_clone, is_same_zakaz, plan_template, production_map_error,
    reject_duplicate_order_number, reject_order_number_immutable, starts_order_integrations,
    ProductionMapError, ProductionMapHeader, ProductionMapTable, TemplatePlan,
};

fn header(id: &str, product_code: &str, title: &str, order_number: &str) -> ProductionMapHeader {
    ProductionMapHeader {
        id: id.to_string(),
        product_code: product_code.to_string(),
        title: title.to_string(),
        order_number: order_number.to_string(),
    }
}

#[test]
fn production_map_store_rejects_duplicate_order_number() {
    let mut table = ProductionMapTable::new();
    assert_eq!(table.put_map(header("map-1", "HOT", "Hot", "1234")), Ok(()));
    let duplicate = table.put_map(header("map-2", "OTHER", "Other", "1234"));
    assert_eq!(duplicate, Err(ProductionMapError::DuplicateOrderNumber));
    assert!(table.get("map-2").is_none());
    assert_eq!(table.get("map-1").unwrap().product_code, "HOT");
}

#[test]
fn saved_map_is_read_back_under_trimmed_id() {
    let mut table = ProductionMapTable::new();
    assert_eq!(table.put_map(header("  map-7 ", "P", "T", "")), Ok(()));
    let got = table.get("map-7").expect("saved");
    assert_eq!(got.id, "  map-7 ");
    assert_eq!(got.title, "T");
}

#[test]
fn resaving_the_same_zakaz_keeps_its_order_number() {
    let mut table = ProductionMapTable::new();
    assert_eq!(table.put_map(header("zakaz-1", "P", "T", "77")), Ok(()));
    assert_eq!(table.put_map(header("zakaz-1", "P", "T", " 77 ")), Ok(()));
    assert_eq!(
        table.put_map(header("zakaz-1", "P", "T", "78")),
        Err(ProductionMapError::OrderNumberImmutable)
    );
    assert_eq!(table.get("zakaz-1").unwrap().order_number, " 77 ");
}

#[test]
fn non_zakaz_maps_may_change_order_number() {
    let mut table = ProductionMapTable::new();
    assert_eq!(table.put_map(header("map-1", "P", "T", "10")), Ok(()));
    assert_eq!(table.put_map(header("map-1", "P", "T", "11")), Ok(()));
    assert_eq!(table.get("map-1").unwrap().order_number, "11");
}

#[test]
fn zakaz_without_order_number_may_gain_one() {
    let mut table = ProductionMapTable::new();
    assert_eq!(table.put_map(header("zakaz-2", "P", "T", "")), Ok(()));
    assert_eq!(table.put_map(header("zakaz-2", "P", "T", "5")), Ok(()));
    assert_eq!(table.get("zakaz-2").unwrap().order_number, "5");
}

#[test]
fn same_id_with_other_title_counts_as_duplicate() {
    let mut table = ProductionMapTable::new();
    assert_eq!(table.put_map(header("map-1", "P", "T", "9")), Ok(()));
    assert_eq!(
        table.put_map(header("map-1", "P", "Renamed", "9")),
        Err(ProductionMapError::DuplicateOrderNumber)
    );
}

#[test]
fn batch_is_saved_whole_or_not_at_all() {
    let mut table = ProductionMapTable::new();
    assert_eq!(table.put_map(header("map-1", "A", "A", "1")), Ok(()));
    let batch = vec![header("map-2", "B", "B", "2"), header("map-3", "C", "C", "1")];
    assert_eq!(
        table.put_maps_batch(&batch),
        Err(ProductionMapError::DuplicateOrderNumber)
    );
    assert!(table.get("map-2").is_none());
    assert!(table.get("map-3").is_none());

    let good = vec![header("map-2", "B", "B", "2"), header("map-3", "C", "C", "3")];
    assert_eq!(table.put_maps_batch(&good), Ok(()));
    assert!(table.get("map-2").is_some());
    assert!(table.get("map-3").is_some());
}

#[test]
fn batch_checks_each_map_against_earlier_maps_of_the_batch() {
    let mut table = ProductionMapTable::new();
    let batch = vec![header("map-1", "A", "A", "4"), header("map-2", "B", "B", "4")];
    assert_eq!(
        table.put_maps_batch(&batch),
        Err(ProductionMapError::DuplicateOrderNumber)
    );
    assert!(table.get("map-1").is_none());
}

#[test]
fn deleted_map_is_gone() {
    let mut table = ProductionMapTable::new();
    assert_eq!(table.put_map(header("map-1", "A", "A", "1")), Ok(()));
    table.delete_map(" map-1 ");
    assert!(table.get("map-1").is_none());
    assert_eq!(table.put_map(header("map-9", "Z", "Z", "1")), Ok(()));
}

#[test]
fn table_from_saved_keeps_the_last_of_each_id() {
    let table = ProductionMapTable::from_saved(vec![
        header("map-1", "A", "Old", ""),
        header("map-1 ", "A", "New", "1"),
    ]);
    assert_eq!(table.get("map-1").unwrap().title, "New");
}

#[test]
fn immutable_rule_needs_zakaz_prefix_and_both_numbers() {
    let saved = header("zakaz-5", "P", "T", "1");
    assert_eq!(
        reject_order_number_immutable(Some(&saved), &header(" zakaz-5", "P", "T", "2")),
        Err(ProductionMapError::OrderNumberImmutable)
    );
    assert_eq!(reject_order_number_immutable(None, &header("zakaz-5", "P", "T", "2")), Ok(()));
    assert_eq!(
        reject_order_number_immutable(Some(&saved), &header("zakaz-5", "P", "T", " ")),
        Ok(())
    );
    assert_eq!(
        reject_order_number_immutable(Some(&saved), &header("map-5", "P", "T", "2")),
        Ok(())
    );
}

#[test]
fn duplicate_rule_scans_saved_maps() {
    let saved = vec![header("a", "P", "T", "1"), header("b", "Q", "U", "2")];
    assert_eq!(reject_duplicate_order_number(&saved, &header("c", "R", "V", " 2")), Err(ProductionMapError::DuplicateOrderNumber));
    assert_eq!(reject_duplicate_order_number(&saved, &header(" b ", "Q ", "U", "2")), Ok(()));
    assert_eq!(reject_duplicate_order_number(&saved, &header("c", "R", "V", "")), Ok(()));
}

#[test]
fn same_zakaz_compares_trimmed_fields() {
    assert!(is_same_zakaz(&header("a", "P", "T", "1"), &header(" a", "P ", " T", "2")));
    assert!(!is_same_zakaz(&header("a", "P", "T", "1"), &header("a", "P", "X", "1")));
}

#[test]
fn production_map_errors_become_admin_errors() {
    let e = production_map_error(ProductionMapError::DuplicateOrderNumber);
    assert_eq!(e.status, 400);
    assert_eq!(e.body.error, "duplicate_order_number");
    let e = production_map_error(ProductionMapError::MapNotFound);
    assert_eq!(e.status, 404);
    assert_eq!(e.body.error, "map_not_found");
    let e = production_map_error(ProductionMapError::StoreFailed);
    assert_eq!(e.status, 500);
    assert_eq!(e.body.error, "store failed");
}

fn template(source_map_id: &str) -> CalculateOrderTemplate<f64> {
    CalculateOrderTemplate {
        id: "t1".to_string(),
        code: "C".to_string(),
        name: "N".to_string(),
        saved_at: String::new(),
        order_number: String::new(),
        customer_ref: String::new(),
        customer: String::new(),
        item_code: String::new(),
        product: String::new(),
        status: String::new(),
        material_display: String::new(),
        color: String::new(),
        image_id: String::new(),
        image_name: String::new(),
        image_mime: String::new(),
        image_size_bytes: 0,
        image_url: String::new(),
        width_mm: 650.0,
        waste_percent: 0.0,
        roll_count: None,
        width_mm_key: String::new(),
        waste_percent_key: String::new(),
        roll_count_key: String::new(),
        first_layer_material: String::new(),
        first_layer_micron: String::new(),
        second_layer_material: String::new(),
        second_layer_micron: String::new(),
        third_layer_material: String::new(),
        third_layer_micron: String::new(),
        note: String::new(),
        kg: 0.0,
        source_map_id: source_map_id.to_string(),
    }
}

#[test]
fn quick_template_clone_needs_another_source_and_a_sheet_map() {
    let map = header("zakaz-9", "P", "T", "1");
    assert!(is_quick_template_order_clone(&map, &template(" map-1 "), true));
    assert!(!is_quick_template_order_clone(&map, &template("zakaz-9"), true));
    assert!(!is_quick_template_order_clone(&map, &template(""), true));
    assert!(!is_quick_template_order_clone(&map, &template("map-1"), false));
}

#[test]
fn template_plan_links_saved_templates_to_the_map() {
    match plan_template(Some(template("old")), false, " zakaz-9 ") {
        TemplatePlan::Save(t) => {
            assert_eq!(t.source_map_id, "zakaz-9");
            assert_eq!(t.code, "C");
        }
        _ => panic!("expected a saved template"),
    }
    match plan_template(Some(template("map-1")), true, "zakaz-9") {
        TemplatePlan::Integration(t) => assert_eq!(t.source_map_id, "map-1"),
        _ => panic!("expected an integration template"),
    }
    assert!(matches!(plan_template::<f64>(None, false, "x"), TemplatePlan::NoTemplate));
}

#[test]
fn integrations_start_only_for_new_sheet_maps_with_template() {
    assert!(starts_order_integrations(false, true, true));
    assert!(!starts_order_integrations(true, true, true));
    assert!(!starts_order_integrations(false, false, true));
    assert!(!starts_order_integrations(false, true, false));
}

#[test]
fn batch_fails_with_the_error_of_its_first_rejected_map() {
    let mut table = ProductionMapTable::new();
    assert_eq!(table.put_map(header("zakaz-1", "A", "A", "1")), Ok(()));
    assert_eq!(table.put_map(header("map-5", "E", "E", "5")), Ok(()));
    let batch = vec![
        header("map-2", "B", "B", "2"),
        header("zakaz-1", "A", "A", "7"),
        header("map-3", "C", "C", "5"),
    ];
    assert_eq!(
        table.put_maps_batch(&batch),
        Err(ProductionMapError::OrderNumberImmutable)
    );
    assert!(table.get("map-2").is_none());
    assert_eq!(table.get("zakaz-1").unwrap().order_number, "1");
}

#[test]
fn restore_after_a_save_gives_back_the_maps_before() {
    let mut table = ProductionMapTable::new();
    assert_eq!(table.put_map(header("map-1", "A", "Old", "")), Ok(()));
    let previous = table.get("map-1");
    assert_eq!(table.put_map(header(" map-1 ", "A", "New", "")), Ok(()));
    assert_eq!(table.get("map-1").unwrap().title, "New");
    table.restore_map(previous, " map-1 ");
    assert_eq!(table.get("map-1").unwrap().title, "Old");

    let before = table.get("zakaz-8888");
    assert!(before.is_none());
    assert_eq!(table.put_map(header("zakaz-8888", "P", "Rollback zakaz", "8888")), Ok(()));
    table.restore_map(before, "zakaz-8888");
    assert!(table.get("zakaz-8888").is_none());
    assert_eq!(table.get("map-1").unwrap().title, "Old");
}
