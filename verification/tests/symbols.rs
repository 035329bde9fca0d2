use tmj::symbols::{
    script_sym_reference, sort_script_syms, sort_ve_z_indices, ve_z_index_reference, ScriptSymCategory,
    ScriptSymEntry, VeZIndexEntry,
};

fn entry(module: &'static str, category: ScriptSymCategory, value: &'static str) -> ScriptSymEntry {
    ScriptSymEntry { const_name: "C", value, category, description: "d", module }
}

#[test]
fn category_labels() {
    assert_eq!(ScriptSymCategory::Type.label(), "type");
    assert_eq!(ScriptSymCategory::Member.label(), "member");
    assert_eq!(ScriptSymCategory::Function.label(), "function");
}

#[test]
fn symbols_sort_by_module_then_category_then_key() {
    let es = vec![
        entry("b", ScriptSymCategory::Type, "z"),
        entry("a", ScriptSymCategory::Function, "a"),
        entry("a", ScriptSymCategory::Type, "y"),
        entry("a", ScriptSymCategory::Type, "x"),
        entry("a", ScriptSymCategory::Member, "m"),
    ];
    let sorted = sort_script_syms(&es);
    let keys: Vec<(&str, &str)> = sorted.iter().map(|e| (e.module, e.value)).collect();
    assert_eq!(keys, vec![("a", "x"), ("a", "y"), ("a", "m"), ("a", "a"), ("b", "z")]);
}

#[test]
fn symbol_reference_groups_by_module() {
    let es = vec![
        ScriptSymEntry { const_name: "SET", value: "set", category: ScriptSymCategory::Function, description: "设置", module: "m2" },
        ScriptSymEntry { const_name: "BG", value: "bg", category: ScriptSymCategory::Type, description: "背景", module: "m1" },
    ];
    let text = script_sym_reference(&es);
    let lines: Vec<&str> = text.split('\n').collect();
    assert_eq!(lines[0], "# 脚本 API 符号参考（由 script_sym! 宏登记，启动时自动生成）");
    assert_eq!(lines[1], "# 格式: [分类] 常量名 → 脚本键    # 说明");
    assert_eq!(lines[2], "");
    assert_eq!(lines[3], "## m1");
    assert_eq!(lines[4], format!("  {:8} {:18} → {:18}  # {}", "分类", "常量名", "脚本键", "说明"));
    assert_eq!(lines[5], format!("  {}", "─".repeat(72)));
    assert_eq!(lines[6], format!("  {:8} {:18} → {:18}  # {}", "type", "BG", "bg", "背景"));
    assert_eq!(lines[7], "");
    assert_eq!(lines[8], "## m2");
    assert_eq!(lines[11], format!("  {:8} {:18} → {:18}  # {}", "function", "SET", "set", "设置"));
    assert_eq!(lines[12], "");
    assert_eq!(lines[13], "");
    assert_eq!(lines.len(), 14);
}

#[test]
fn z_indices_sort_by_value_then_name() {
    let es = vec![
        VeZIndexEntry { name: "B", value: 5, description: "" },
        VeZIndexEntry { name: "A", value: 5, description: "" },
        VeZIndexEntry { name: "C", value: -3, description: "" },
    ];
    let sorted = sort_ve_z_indices(&es);
    let names: Vec<&str> = sorted.iter().map(|e| e.name).collect();
    assert_eq!(names, vec!["C", "A", "B"]);
}

#[test]
fn z_index_reference_lines() {
    let es = vec![
        VeZIndexEntry { name: "Z_FRAME_TEXT", value: 4100, description: "对话框正文" },
        VeZIndexEntry { name: "Z_BG", value: 1000, description: "背景" },
        VeZIndexEntry { name: "Z_NEG", value: -5, description: "x" },
    ];
    let text = ve_z_index_reference(&es);
    let lines: Vec<&str> = text.split('\n').collect();
    assert_eq!(lines[0], "# VisualElement z_index 参考（由 ve_z_index! 宏登记，启动时自动生成）");
    assert_eq!(lines[3], format!("{:24} = {:4}  # {}", "Z_NEG", -5, "x"));
    assert_eq!(lines[4], format!("{:24} = {:4}  # {}", "Z_BG", 1000, "背景"));
    assert_eq!(lines[5], format!("{:24} = {:4}  # {}", "Z_FRAME_TEXT", 4100, "对话框正文"));
    assert_eq!(lines[6], "");
    assert_eq!(lines[7], "# 未在此表中的动态层：layer.* 由脚本 layer.z_deep 指定；character_* 见 Z_CHARACTER_BASE");
}

#[test]
fn tied_symbols_keep_their_order() {
    let first = ScriptSymEntry { const_name: "FIRST", value: "k", category: ScriptSymCategory::Member, description: "1", module: "m" };
    let second = ScriptSymEntry { const_name: "SECOND", value: "k", category: ScriptSymCategory::Member, description: "2", module: "m" };
    let other = entry("a", ScriptSymCategory::Type, "t");
    let sorted = sort_script_syms(&vec![second, other, first]);
    let names: Vec<&str> = sorted.iter().map(|e| e.const_name).collect();
    assert_eq!(names, vec!["C", "SECOND", "FIRST"]);
}

#[test]
fn tied_z_indices_keep_their_order() {
    let es = vec![
        VeZIndexEntry { name: "A", value: 5, description: "second" },
        VeZIndexEntry { name: "B", value: 1, description: "x" },
        VeZIndexEntry { name: "A", value: 5, description: "first" },
    ];
    let sorted = sort_ve_z_indices(&es);
    let d: Vec<&str> = sorted.iter().map(|e| e.description).collect();
    assert_eq!(d, vec!["x", "second", "first"]);
}
