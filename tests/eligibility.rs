use model_preview::eligibility::{is_model_file, watches_message};

#[test]
fn model_suffixes_in_any_case_are_eligible() {
    assert!(is_model_file("model.STL"));
    assert!(is_model_file("model.3mf"));
    assert!(is_model_file("model.OBJ"));
    assert!(is_model_file("model.gcode"));
    assert!(is_model_file("model.GCoDe"));
    assert!(is_model_file("a.b.stl"));
}

#[test]
fn other_names_are_not_eligible() {
    assert!(!is_model_file("model.txt"));
    assert!(!is_model_file("model"));
    assert!(!is_model_file(""));
    assert!(!is_model_file("stl"));
    assert!(!is_model_file("model.stl.txt"));
    assert!(!is_model_file("model_stl"));
}

#[test]
fn only_people_in_guilds_are_watched() {
    assert!(watches_message(false, true));
    assert!(!watches_message(true, true));
    assert!(!watches_message(false, false));
    assert!(!watches_message(true, false));
}
