use tmj::args::ArgError;
use tmj::script::table::{Table, TableStore};
use tmj::script::value::ScriptValue;
use tmj::script_def::{Layer, TextObj, VBg, VFrame, VLayerLs, VParagraph};

fn text(v: Option<ScriptValue>) -> Option<String> {
    match v {
        Some(ScriptValue::String(s)) => Some(s),
        _ => None,
    }
}

#[test]
fn layer_refs_are_listed_by_name() {
    let mut ls = Table::with_tuid(1);
    let mut layer = Table::with_tuid(9);
    layer.set("name".to_string(), ScriptValue::String("fog".to_string()));
    VLayerLs::add_layer_ref(&mut ls, &layer).unwrap();
    assert!(matches!(ls.get_field("fog"), Some(ScriptValue::TableHandle(9))));
    VLayerLs::del_layer_ref(&mut ls, &layer).unwrap();
    assert!(ls.get_field("fog").is_none());
    let nameless = Table::with_tuid(3);
    assert_eq!(VLayerLs::add_layer_ref(&mut ls, &nameless), Err("layer should has name filed".to_string()));
    assert_eq!(VLayerLs::del_layer_ref(&mut ls, &nameless), Err("layer should has name filed".to_string()));
}

#[test]
fn text_objects_from_arguments() {
    let args = vec![ScriptValue::String("hi".to_string()), ScriptValue::Int(3), ScriptValue::Int(1 << 40)];
    let t = TextObj::from_script_command(&args).unwrap();
    assert_eq!(t.content, "hi");
    assert_eq!(t.pos, (3, 0));
    let short = vec![ScriptValue::String("hi".to_string()), ScriptValue::Int(3)];
    assert!(matches!(TextObj::from_script_command(&short), Err(ArgError::MissingArg { index: 2 })));
    let wrong = vec![ScriptValue::Int(1)];
    assert!(matches!(TextObj::from_script_command(&wrong), Err(ArgError::InvalidArg { index: 0, .. })));

    let mut store = TableStore::new();
    let table = t.into_data_table(&mut store);
    assert_eq!(table.tuid(), 0);
    assert_eq!(text(table.get_field("content")), Some("hi".to_string()));
    assert!(matches!(table.get_field("xpos"), Some(ScriptValue::Int(3))));
    assert!(matches!(table.get_field("ypos"), Some(ScriptValue::Int(0))));
}

#[test]
fn layers_take_arguments_or_defaults() {
    let mut store = TableStore::new();
    let mut ls = Table::with_tuid(100);
    let args = vec![ScriptValue::String("smoke".to_string()), ScriptValue::String("effect".to_string()), ScriptValue::Int(50)];
    let t = Layer::create_class_table(&mut store, &mut ls, &args, (160, 48));
    assert_eq!(text(t.get_field("name")), Some("smoke".to_string()));
    assert_eq!(text(t.get_field("layer_type")), Some("effect".to_string()));
    assert!(matches!(t.get_field("z_deep"), Some(ScriptValue::Int(50))));
    assert_eq!(text(t.get_field("data")), Some(String::new()));
    assert!(matches!(t.get_field("m_visible"), Some(ScriptValue::Bool(false))));
    assert!(matches!(t.get_field("w"), Some(ScriptValue::Int(160))));
    assert!(matches!(t.get_field("h"), Some(ScriptValue::Int(48))));
    assert!(matches!(ls.get_field("smoke"), Some(ScriptValue::TableHandle(id)) if id == t.tuid()));

    let t2 = Layer::create_class_table(&mut store, &mut ls, &[], (1, 2));
    assert_eq!(text(t2.get_field("name")), Some("NONAME".to_string()));
    assert_eq!(text(t2.get_field("layer_type")), Some("image".to_string()));
    assert!(matches!(t2.get_field("z_deep"), Some(ScriptValue::Int(200))));
    assert_ne!(t.tuid(), t2.tuid());

    let mut t3 = t2;
    Layer::set_visible(&mut t3, true);
    assert!(matches!(t3.get_field("m_visible"), Some(ScriptValue::Bool(true))));
    Layer::set(&mut t3, &[ScriptValue::String("a.png".to_string())]);
    assert_eq!(text(t3.get_field("data")), Some("a.png".to_string()));
}

#[test]
fn frame_members_and_methods() {
    let mut f = Table::with_tuid(2);
    VFrame::init_members(&mut f);
    assert!(matches!(f.get_field("visible"), Some(ScriptValue::Bool(true))));
    assert_eq!(text(f.get_field("mode")), Some("normal".to_string()));
    VFrame::set_visible(&mut f, false);
    assert!(matches!(f.get_field("visible"), Some(ScriptValue::Bool(false))));
    VFrame::rev_style(&mut f).unwrap();
    assert!(matches!(f.get_field("m_rev_style"), Some(ScriptValue::Bool(true))));
    VFrame::rev_style(&mut f).unwrap();
    assert!(matches!(f.get_field("m_rev_style"), Some(ScriptValue::Bool(false))));
    VFrame::set_mode(&mut f, &[ScriptValue::String("full".to_string())]).unwrap();
    assert_eq!(text(f.get_field("mode")), Some("full".to_string()));
    assert!(matches!(VFrame::set_mode(&mut f, &[]), Err(ArgError::MissingArg { index: 0 })));
    let mut empty = Table::with_tuid(3);
    assert!(matches!(VFrame::rev_style(&mut empty), Err(ArgError::MissingMember { .. })));
}

#[test]
fn paragraph_prints_and_pages() {
    let mut p = Table::with_tuid(4);
    VParagraph::init_members(&mut p);
    VParagraph::print(&mut p, &[ScriptValue::String("ab".to_string())]).unwrap();
    VParagraph::print(&mut p, &[ScriptValue::String("cd".to_string())]).unwrap();
    assert_eq!(text(p.get_field("m_content")), Some("abcd".to_string()));
    assert_eq!(VParagraph::print(&mut p, &[]), Err("paragraph.print requires text argument".to_string()));
    VParagraph::new_page(&mut p, &[ScriptValue::String("new".to_string())]).unwrap();
    assert_eq!(text(p.get_field("m_content")), Some("new".to_string()));
    assert!(matches!(p.get_field("m_visible"), Some(ScriptValue::Bool(true))));
    assert_eq!(VParagraph::new_page(&mut p, &[ScriptValue::Int(1)]), Err("paragraph.new requires text argument".to_string()));
    VParagraph::clear(&mut p);
    assert_eq!(text(p.get_field("m_content")), Some(String::new()));
    VParagraph::set_visible(&mut p, false);
    assert!(matches!(p.get_field("m_visible"), Some(ScriptValue::Bool(false))));
}

#[test]
fn background_members() {
    let mut bg = Table::with_tuid(5);
    VBg::init_members(&mut bg);
    assert!(matches!(bg.get_field("m_is_edge"), Some(ScriptValue::Bool(true))));
    VBg::set_edge(&mut bg, false);
    assert!(matches!(bg.get_field("m_is_edge"), Some(ScriptValue::Bool(false))));
    assert_eq!(VBg::set_image(&mut bg, &[ScriptValue::String("b.png".to_string())]).unwrap(), "b.png");
    assert_eq!(text(bg.get_field("m_image")), Some("b.png".to_string()));
    assert!(matches!(VBg::set_image(&mut bg, &[ScriptValue::Nil]), Err(ArgError::InvalidArg { index: 0, .. })));
}

use tmj::script::value::Decimal;
use tmj::script_def::{text_call_args, Character};

fn alice() -> Character {
    Character {
        current_face: "smile".to_string(),
        display: "Alice".to_string(),
        stands: vec![("smile".to_string(), "stand_smile.png".to_string())],
        faces: vec![("smile".to_string(), "face_smile.png".to_string()), ("sad".to_string(), "face_sad.png".to_string())],
        voice: vec![],
    }
}

#[test]
fn characters_say_lines_with_their_face() {
    let mut store = TableStore::new();
    let table = Character::create_class_table(&mut store, Some(alice()));
    assert_eq!(table.tuid(), 0);
    assert!(matches!(table.get_field("_faces"), Some(ScriptValue::TableHandle(2))));
    let line = Character::say(&table, &store, &[ScriptValue::String("hello".to_string())]).unwrap();
    assert_eq!(line.speaker, "Alice");
    assert_eq!(line.face_path, "face_smile.png");
    assert_eq!(line.text, "hello");

    let mut t2 = table;
    t2.set("face".to_string(), ScriptValue::String("angry".to_string()));
    let line = Character::say(&t2, &store, &[ScriptValue::String("hm".to_string())]).unwrap();
    assert_eq!(line.face_path, "");
    assert!(matches!(Character::say(&t2, &store, &[]), Err(ArgError::MissingArg { index: 0 })));

    let empty = Character::create_class_table(&mut store, None);
    assert_eq!(empty.tuid(), 4);
    assert!(empty.keys().is_empty());
    assert!(matches!(
        Character::say(&empty, &store, &[ScriptValue::String("x".to_string())]),
        Err(ArgError::MissingMember { key }) if key == "display"
    ));
}

#[test]
fn text_call_speed_and_speaker() {
    let s = |x: &str| ScriptValue::String(x.to_string());
    let t = text_call_args(&[s("hi")]).unwrap();
    assert_eq!((t.content.as_str(), t.speed, t.speaker.as_str()), ("hi", Decimal { mantissa: 30, scale: 0 }, ""));
    let t = text_call_args(&[s("hi"), ScriptValue::Int(12)]).unwrap();
    assert_eq!(t.speed, Decimal { mantissa: 12, scale: 0 });
    let t = text_call_args(&[s("hi"), s("Bob"), ScriptValue::Float(Decimal { mantissa: 55, scale: 1 })]).unwrap();
    assert_eq!((t.speed, t.speaker.as_str()), (Decimal { mantissa: 55, scale: 1 }, "Bob"));
    let t = text_call_args(&[s("hi"), s("Bob")]).unwrap();
    assert_eq!(t.speed, Decimal { mantissa: 30, scale: 0 });
    let t = text_call_args(&[s("hi"), ScriptValue::Int(-4), ScriptValue::Int(9)]).unwrap();
    assert_eq!(t.speed, Decimal { mantissa: 30, scale: 0 });
    assert!(matches!(text_call_args(&[]), Err(ArgError::MissingArg { index: 0 })));
}
