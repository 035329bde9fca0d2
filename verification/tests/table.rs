use tmj::script::table::{Table, TableStore};
use tmj::script::value::ScriptValue;

fn text(v: &Option<ScriptValue>) -> Option<String> {
    match v {
        Some(ScriptValue::String(s)) => Some(s.clone()),
        _ => None,
    }
}

#[test]
fn set_get_remove() {
    let mut t = Table::with_tuid(7);
    assert_eq!(t.tuid(), 7);
    t.set("a".to_string(), ScriptValue::Int(1));
    t.set("b".to_string(), ScriptValue::String("x".to_string()));
    t.set("a".to_string(), ScriptValue::Int(2));
    assert!(matches!(t.get_field("a"), Some(ScriptValue::Int(2))));
    assert_eq!(text(&t.get_field("b")), Some("x".to_string()));
    assert!(t.get_field("c").is_none());
    let mut keys = t.keys();
    keys.sort();
    assert_eq!(keys, vec!["a".to_string(), "b".to_string()]);
    assert!(matches!(t.remove("a"), Some(ScriptValue::Int(2))));
    assert!(t.remove("a").is_none());
    assert!(t.get_field("a").is_none());
    assert_eq!(t.keys(), vec!["b".to_string()]);
}

#[test]
fn dotted_paths_follow_handles() {
    let mut store = TableStore::new();
    let inner_id = store.alloc_table_id();
    let mut inner = Table::with_tuid(inner_id);
    inner.set("name".to_string(), ScriptValue::String("alice".to_string()));
    store.insert(inner);
    let mut root = Table::with_tuid(store.alloc_table_id());
    root.set("who".to_string(), ScriptValue::TableHandle(inner_id));
    root.set("n".to_string(), ScriptValue::Int(3));

    assert_eq!(text(&root.get("who.name", Some(&store))), Some("alice".to_string()));
    assert!(root.get("who.name", None).is_none());
    assert!(root.get("n.name", Some(&store)).is_none());
    assert!(root.get("who.age", Some(&store)).is_none());
    assert!(matches!(root.get("n", None), Some(ScriptValue::Int(3))));
}

#[test]
fn set_path_writes_through_handles() {
    let mut store = TableStore::new();
    let a = store.alloc_table_id();
    let b = store.alloc_table_id();
    assert_eq!((a, b), (0, 1));
    let mut ta = Table::with_tuid(a);
    ta.set("child".to_string(), ScriptValue::TableHandle(b));
    store.insert(ta);
    store.insert(Table::with_tuid(b));

    assert!(store.set_path(a, "child.v", ScriptValue::Int(9)));
    assert!(matches!(store.table(b).unwrap().get_field("v"), Some(ScriptValue::Int(9))));
    assert!(store.set_path(a, "x", ScriptValue::Bool(true)));
    assert!(matches!(store.table(a).unwrap().get_field("x"), Some(ScriptValue::Bool(true))));
    assert!(!store.set_path(a, "missing.v", ScriptValue::Nil));
    assert!(!store.set_path(42, "v", ScriptValue::Nil));
    assert!(store.table(42).is_none());
}
