use tmj::slot::{Slot, SlotDrawMode};

#[test]
fn slot_file_names_keep_safe_characters() {
    assert_eq!(Slot::file_name(3, "my save"), "3_my save.save");
    assert_eq!(Slot::file_name(12, "a/b:c"), "12_a_b_c.save");
    assert_eq!(Slot::file_name(0, "é-x_1.2"), "0_é-x_1.2.save");
    assert_eq!(Slot::file_name(255, ""), "255_.save");
}

#[test]
fn slot_file_names_read_back() {
    assert_eq!(Slot::parse_file_name("3_my save.save"), Some((3, "my save".to_string())));
    assert_eq!(Slot::parse_file_name(&Slot::file_name(17, "chapter one")), Some((17, "chapter one".to_string())));
    assert_eq!(Slot::parse_file_name("12_.save"), Some((12, String::new())));
}

#[test]
fn other_files_are_not_slots() {
    assert_eq!(Slot::parse_file_name("notes.txt"), None);
    assert_eq!(Slot::parse_file_name("x_1.save"), None);
    assert_eq!(Slot::parse_file_name("300_big.save"), None);
    assert_eq!(Slot::parse_file_name("3_a.save.bak"), None);
    assert_eq!(Slot::slot_of_file_name("3_a.save", false), None);
}

#[test]
fn slot_names_are_cut_at_the_first_dot() {
    assert_eq!(Slot::slot_of_file_name("4_a.b.save", true), Some((4, "a".to_string())));
    assert_eq!(Slot::slot_of_file_name("+7_x.save", true), Some((7, "x".to_string())));
    assert_eq!(Slot::slot_of_file_name("9.save", true), Some((9, String::new())));
}

#[test]
fn slot_pattern_and_modes() {
    assert_eq!(Slot::slot_pattern(), r"^\d+_.*.save$");
    assert_ne!(SlotDrawMode::Save, SlotDrawMode::Load);
}

#[test]
fn slot_table_keeps_the_last_file_of_each_slot() {
    let names: Vec<String> = ["3_a.save", "notes.txt", "3_b.save", "25_x.save", "x_1.save"]
        .iter()
        .map(|s| s.to_string())
        .collect();
    let table = Slot::slot_table(&names);
    assert_eq!(table.len(), 256);
    assert_eq!(table[3], Some((Some(2), "b".to_string())));
    assert_eq!(table[0], Some((None, String::new())));
    assert_eq!(table[19], Some((None, String::new())));
    assert_eq!(table[25], Some((Some(3), "x".to_string())));
    assert_eq!(table[20], None);
    assert_eq!(table[1], Some((None, String::new())));
}
