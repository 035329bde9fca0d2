use tmj::audio::{VBgm, VEnvEffect};
use tmj::script::command_executor::ExecuteStatus;
use tmj::script::context::{GlobalTableError, ScriptContext};
use tmj::script_def::Character;
use tmj::script::value::{Command, ScriptValue};
use tmj::script_def::{init_env_globals, regist_base_gvar, VFrame, VParagraph};

fn text(v: Option<ScriptValue>) -> Option<String> {
    match v {
        Some(ScriptValue::String(s)) => Some(s),
        _ => None,
    }
}

fn no_character(_path: &str) -> Option<Character> {
    None
}

#[test]
fn base_globals_are_tables_in_order() {
    let mut ctx = ScriptContext::new();
    regist_base_gvar(&mut ctx);
    let names = ["character_ls", "frame", "paragraph", "layer_ls", "bgm", "env_effect", "chapter", "bg"];
    for (i, name) in names.iter().enumerate() {
        assert_eq!(ctx.global_table_id(name), Ok(i as u64), "{}", name);
    }
    let frame = ctx.tables.table(1).unwrap();
    assert!(matches!(frame.get_field("visible"), Some(ScriptValue::Bool(true))));
    assert_eq!(text(frame.get_field("mode")), Some("normal".to_string()));
    let bg = ctx.tables.table(7).unwrap();
    assert!(matches!(bg.get_field("m_is_edge"), Some(ScriptValue::Bool(true))));
    assert!(matches!(ctx.tables.table(4).unwrap().get_field("m_source"), Some(ScriptValue::Nil)));
}

#[test]
fn env_globals_hold_the_music_modes() {
    let mut ctx = ScriptContext::new();
    init_env_globals(&mut ctx);
    assert_eq!(text(ctx.get_global_val("fade_in")), Some("fade_in".to_string()));
    assert_eq!(text(ctx.get_global_val("transition")), Some("transition".to_string()));
    assert_eq!(text(ctx.get_global_val("display_name")), Some(String::new()));
    assert!(ctx.global_table_id("paragraph").is_ok());
}

#[test]
fn missing_global_tables_are_reported() {
    let mut ctx = ScriptContext::new();
    assert_eq!(ctx.global_table_id("frame"), Err(GlobalTableError::NotFound("frame".to_string())));
    ctx.set_global_val("frame", ScriptValue::Int(1));
    assert_eq!(ctx.global_table_id("frame"), Err(GlobalTableError::NotTable("frame".to_string())));
    assert_eq!(VEnvEffect::record_source(&mut ctx, "x.ogg"), Err(GlobalTableError::NotFound("env_effect".to_string())));
}

#[test]
fn script_objects_work_on_their_global_tables() {
    let mut ctx = ScriptContext::new();
    regist_base_gvar(&mut ctx);
    let mut frame = ctx.take_global_table("frame").unwrap();
    assert!(ctx.take_global_table("frame").is_err());
    VFrame::set_visible(&mut frame, false);
    ctx.put_table(frame);
    let id = ctx.global_table_id("frame").unwrap();
    assert!(matches!(ctx.tables.table(id).unwrap().get_field("visible"), Some(ScriptValue::Bool(false))));

    let mut p = ctx.take_global_table("paragraph").unwrap();
    VParagraph::print(&mut p, &[ScriptValue::String("hello".to_string())]).unwrap();
    ctx.put_table(p);
    let id = ctx.global_table_id("paragraph").unwrap();
    assert_eq!(text(ctx.tables.table(id).unwrap().get_field("m_content")), Some("hello".to_string()));
}

#[test]
fn audio_sources_are_recorded() {
    let mut ctx = ScriptContext::new();
    regist_base_gvar(&mut ctx);
    assert!(matches!(VBgm::record_source(&mut ctx, "theme.ogg"), ExecuteStatus::Completed));
    assert_eq!(text(ctx.tables.table(4).unwrap().get_field("m_source")), Some("theme.ogg".to_string()));
    VEnvEffect::record_source(&mut ctx, "rain.ogg").unwrap();
    assert_eq!(text(ctx.tables.table(5).unwrap().get_field("m_source")), Some("rain.ogg".to_string()));
    VEnvEffect::record_source(&mut ctx, "").unwrap();
    assert!(matches!(ctx.tables.table(5).unwrap().get_field("m_source"), Some(ScriptValue::Nil)));
    VEnvEffect::clear_source(&mut ctx).unwrap();
    assert_eq!(text(ctx.tables.table(5).unwrap().get_field("m_source")), Some(String::new()));
}

fn no_host(name: &str, _args: &[ScriptValue]) -> Result<ScriptValue, String> {
    Err(format!("host asked for {}", name))
}

fn call(ctx: &mut ScriptContext, path: &str, args: Vec<ScriptValue>) -> ExecuteStatus {
    ctx.execute_command(&Command::Call { path: path.to_string(), args }, &no_host, &no_character)
}

fn member(ctx: &ScriptContext, object: &str, key: &str) -> Option<ScriptValue> {
    let id = ctx.global_table_id(object).unwrap();
    ctx.tables.table(id).unwrap().get_field(key)
}

#[test]
fn script_calls_reach_the_object_methods() {
    let mut ctx = ScriptContext::new();
    init_env_globals(&mut ctx);

    assert!(matches!(call(&mut ctx, "paragraph.print", vec![ScriptValue::String("hi".to_string())]), ExecuteStatus::Completed));
    assert!(matches!(call(&mut ctx, "paragraph.print", vec![ScriptValue::String(" there".to_string())]), ExecuteStatus::Completed));
    assert_eq!(text(member(&ctx, "paragraph", "m_content")), Some("hi there".to_string()));
    assert!(matches!(
        call(&mut ctx, "paragraph.print", vec![]),
        ExecuteStatus::Error(e) if e == "paragraph.print requires text argument"
    ));
    assert!(matches!(call(&mut ctx, "paragraph.new", vec![ScriptValue::String("page".to_string())]), ExecuteStatus::Completed));
    assert_eq!(text(member(&ctx, "paragraph", "m_content")), Some("page".to_string()));
    assert!(matches!(member(&ctx, "paragraph", "m_visible"), Some(ScriptValue::Bool(true))));
    assert!(matches!(call(&mut ctx, "paragraph.clear", vec![]), ExecuteStatus::Completed));
    assert_eq!(text(member(&ctx, "paragraph", "m_content")), Some(String::new()));

    assert!(matches!(call(&mut ctx, "frame.hide", vec![]), ExecuteStatus::Completed));
    assert!(matches!(member(&ctx, "frame", "visible"), Some(ScriptValue::Bool(false))));
    assert!(matches!(call(&mut ctx, "frame.rev_style", vec![]), ExecuteStatus::Completed));
    assert!(matches!(member(&ctx, "frame", "m_rev_style"), Some(ScriptValue::Bool(true))));
    assert!(matches!(call(&mut ctx, "frame.set_mode", vec![ScriptValue::String("full".to_string())]), ExecuteStatus::Completed));
    assert_eq!(text(member(&ctx, "frame", "mode")), Some("full".to_string()));
    assert!(matches!(
        call(&mut ctx, "frame.set_mode", vec![]),
        ExecuteStatus::Error(e) if e == "missing required arg at index 0"
    ));

    assert!(matches!(call(&mut ctx, "bg.set", vec![ScriptValue::String("a.png".to_string())]), ExecuteStatus::Completed));
    assert_eq!(text(member(&ctx, "bg", "m_image")), Some("a.png".to_string()));
    assert!(matches!(call(&mut ctx, "bg.hide_edge", vec![]), ExecuteStatus::Completed));
    assert!(matches!(member(&ctx, "bg", "m_is_edge"), Some(ScriptValue::Bool(false))));
    assert!(matches!(
        call(&mut ctx, "bg.trans_to", vec![ScriptValue::Int(3)]),
        ExecuteStatus::Error(e) if e == "failed to parse required arg[0], raw=Int(3)"
    ));
}

#[test]
fn method_results_can_be_assigned() {
    let mut ctx = ScriptContext::new();
    init_env_globals(&mut ctx);
    let cmd = Command::CommandAssignment { name: "f".to_string(), command: "frame.show".to_string(), args: vec![] };
    assert!(matches!(ctx.execute_command(&cmd, &no_host, &no_character), ExecuteStatus::Completed));
    assert!(matches!(ctx.get_global_val("f"), Some(ScriptValue::TableHandle(1))));
    let text_call = Command::Call { path: "text".to_string(), args: vec![ScriptValue::String("hi".to_string())] };
    assert!(matches!(ctx.execute_command(&text_call, &no_host, &no_character), ExecuteStatus::Error(e) if e == "host asked for text"));
}

#[test]
fn method_of_a_missing_object_is_an_error() {
    let mut ctx = ScriptContext::new();
    ctx.set_global_val("show", ScriptValue::Function("frame.show".to_string()));
    assert!(matches!(call(&mut ctx, "show", vec![]), ExecuteStatus::Error(e) if e == "frame not found"));
    ctx.set_global_val("frame", ScriptValue::Int(1));
    assert!(matches!(call(&mut ctx, "show", vec![]), ExecuteStatus::Error(e) if e == "frame is not table"));
}

#[test]
fn shown_calls_leave_requests_for_the_presentation() {
    let mut ctx = ScriptContext::new();
    init_env_globals(&mut ctx);
    assert!(matches!(call(&mut ctx, "frame.show", vec![]), ExecuteStatus::Completed));
    assert!(ctx.ui_requests.is_empty());
    assert!(matches!(call(&mut ctx, "paragraph.print", vec![ScriptValue::String("hi".to_string())]), ExecuteStatus::Completed));
    assert!(matches!(call(&mut ctx, "chapter.show_title", vec![ScriptValue::String("One".to_string())]), ExecuteStatus::Completed));
    assert!(matches!(
        call(&mut ctx, "chapter.show_sub_title", vec![]),
        ExecuteStatus::Error(e) if e == "missing required arg at index 0"
    ));
    assert_eq!(ctx.ui_requests.len(), 2);
    assert_eq!(ctx.ui_requests[0].function, "paragraph.print");
    assert!(matches!(&ctx.ui_requests[0].args[..], [ScriptValue::String(s)] if s == "hi"));
    assert_eq!(ctx.ui_requests[1].function, "chapter.show_title");
}

#[test]
fn layers_are_made_and_answer_their_methods() {
    let mut ctx = ScriptContext::new();
    init_env_globals(&mut ctx);
    ctx.resolution = (80, 24);
    let cmd = Command::CommandAssignment {
        name: "l".to_string(),
        command: "layer".to_string(),
        args: vec![ScriptValue::String("sky".to_string()), ScriptValue::String("image".to_string())],
    };
    assert!(matches!(ctx.execute_command(&cmd, &no_host, &no_character), ExecuteStatus::Completed));
    let id = match ctx.get_global_val("l") {
        Some(ScriptValue::TableHandle(id)) => id,
        other => panic!("unexpected {:?}", other),
    };
    assert_eq!(id, 8);
    assert!(matches!(member(&ctx, "layer_ls", "sky"), Some(ScriptValue::TableHandle(8))));
    let layer = ctx.tables.table(id).unwrap();
    assert!(matches!(layer.get_field("w"), Some(ScriptValue::Int(80))));
    assert!(matches!(layer.get_field("h"), Some(ScriptValue::Int(24))));
    assert!(matches!(layer.get_field("z_deep"), Some(ScriptValue::Int(200))));
    assert!(matches!(layer.get_field("m_visible"), Some(ScriptValue::Bool(false))));

    assert!(matches!(call(&mut ctx, "l.show", vec![]), ExecuteStatus::Completed));
    assert!(matches!(ctx.tables.table(id).unwrap().get_field("m_visible"), Some(ScriptValue::Bool(true))));
    assert_eq!(ctx.ui_requests.len(), 1);
    assert_eq!(ctx.ui_requests[0].function, "layer.show");
    assert_eq!(ctx.ui_requests[0].table, 8);
    assert!(matches!(call(&mut ctx, "l.set", vec![ScriptValue::String("b.png".to_string())]), ExecuteStatus::Completed));
    assert_eq!(text(ctx.tables.table(id).unwrap().get_field("data")), Some("b.png".to_string()));
    assert!(matches!(call(&mut ctx, "l.hide", vec![]), ExecuteStatus::Completed));
    assert!(matches!(ctx.tables.table(id).unwrap().get_field("m_visible"), Some(ScriptValue::Bool(false))));
}

fn alice(path: &str) -> Option<Character> {
    if path != "alice.toml" {
        return None;
    }
    Some(Character {
        current_face: "smile".to_string(),
        display: "Alice".to_string(),
        stands: vec![("smile".to_string(), "stand.png".to_string())],
        faces: vec![("smile".to_string(), "face_smile.png".to_string())],
        voice: vec![],
    })
}

#[test]
fn characters_are_made_and_say_their_lines() {
    let mut ctx = ScriptContext::new();
    init_env_globals(&mut ctx);
    let cmd = Command::CommandAssignment {
        name: "a".to_string(),
        command: "character".to_string(),
        args: vec![ScriptValue::String("alice.toml".to_string())],
    };
    assert!(matches!(ctx.execute_command(&cmd, &no_host, &alice), ExecuteStatus::Completed));
    let id = match ctx.get_global_val("a") {
        Some(ScriptValue::TableHandle(id)) => id,
        other => panic!("unexpected {:?}", other),
    };
    assert_eq!(id, 8);
    assert_eq!(ctx.tables.next_table_id(), 12);
    assert_eq!(text(ctx.tables.table(id).unwrap().get_field("display")), Some("Alice".to_string()));

    let say = Command::Call { path: "a.say".to_string(), args: vec![ScriptValue::String("Hello".to_string())] };
    assert!(matches!(ctx.execute_command(&say, &no_host, &alice), ExecuteStatus::Completed));
    assert_eq!(ctx.ui_requests.len(), 1);
    assert_eq!(ctx.ui_requests[0].function, "character.say");
    assert_eq!(ctx.ui_requests[0].table, 8);
    let line: Vec<Option<String>> = ctx.ui_requests[0].args.iter().cloned().map(Some).map(text).collect();
    assert_eq!(
        line,
        vec![Some("Alice".to_string()), Some("face_smile.png".to_string()), Some("Hello".to_string())]
    );
    let mute = Command::Call { path: "a.say".to_string(), args: vec![] };
    assert!(matches!(
        ctx.execute_command(&mute, &no_host, &alice),
        ExecuteStatus::Error(e) if e == "missing required arg at index 0"
    ));

    let missing = Command::CommandAssignment {
        name: "b".to_string(),
        command: "character".to_string(),
        args: vec![ScriptValue::String("nobody.toml".to_string())],
    };
    assert!(matches!(ctx.execute_command(&missing, &no_host, &alice), ExecuteStatus::Completed));
    let b = match ctx.get_global_val("b") {
        Some(ScriptValue::TableHandle(id)) => id,
        other => panic!("unexpected {:?}", other),
    };
    let say_b = Command::Call { path: "b.say".to_string(), args: vec![ScriptValue::String("Hi".to_string())] };
    assert!(matches!(
        ctx.execute_command(&say_b, &no_host, &alice),
        ExecuteStatus::Error(e) if e == "missing required table member [display]"
    ));
    assert!(ctx.tables.table(b).unwrap().get_field("say").is_some());
}

#[test]
fn music_and_ambience_calls_record_their_source() {
    let mut ctx = ScriptContext::new();
    init_env_globals(&mut ctx);
    assert!(matches!(
        call(&mut ctx, "bgm.set", vec![ScriptValue::String("theme.ogg".to_string()), ScriptValue::String("fade_in".to_string())]),
        ExecuteStatus::Completed
    ));
    assert_eq!(text(member(&ctx, "bgm", "m_source")), Some("theme.ogg".to_string()));
    assert!(matches!(call(&mut ctx, "bgm.set", vec![]), ExecuteStatus::Error(e) if e == "!!! bgm error arg type"));
    assert!(matches!(call(&mut ctx, "env_effect.set", vec![ScriptValue::String("rain.ogg".to_string())]), ExecuteStatus::Completed));
    assert_eq!(text(member(&ctx, "env_effect", "m_source")), Some("rain.ogg".to_string()));
    assert!(matches!(call(&mut ctx, "env_effect.set", vec![ScriptValue::String(String::new())]), ExecuteStatus::Completed));
    assert!(matches!(member(&ctx, "env_effect", "m_source"), Some(ScriptValue::Nil)));
    assert!(matches!(call(&mut ctx, "env_effect.stop", vec![]), ExecuteStatus::Completed));
    assert_eq!(text(member(&ctx, "env_effect", "m_source")), Some(String::new()));
    assert!(matches!(call(&mut ctx, "bgm.stop", vec![]), ExecuteStatus::Completed));
    assert!(matches!(call(&mut ctx, "character_ls.clear", vec![]), ExecuteStatus::Completed));
    let names: Vec<String> = ctx.ui_requests.iter().map(|r| r.function.clone()).collect();
    assert_eq!(
        names,
        vec!["bgm.set", "env_effect.set", "env_effect.set", "env_effect.stop", "bgm.stop", "character_ls.clear"]
    );
}

#[test]
fn fresh_paragraph_appends_and_frame_style_flips_back() {
    let mut ctx = ScriptContext::new();
    assert_eq!(ctx.tables.next_table_id(), 0);
    VParagraph::regist(&mut ctx);
    VFrame::regist(&mut ctx);
    assert!(matches!(call(&mut ctx, "paragraph.print", vec![ScriptValue::String("ab".to_string())]), ExecuteStatus::Completed));
    assert!(matches!(call(&mut ctx, "paragraph.print", vec![ScriptValue::String("c".to_string())]), ExecuteStatus::Completed));
    assert_eq!(text(member(&ctx, "paragraph", "m_content")), Some("abc".to_string()));
    assert!(matches!(member(&ctx, "frame", "m_rev_style"), Some(ScriptValue::Bool(false))));
    assert!(matches!(call(&mut ctx, "frame.rev_style", vec![]), ExecuteStatus::Completed));
    assert!(matches!(member(&ctx, "frame", "m_rev_style"), Some(ScriptValue::Bool(true))));
    assert!(matches!(call(&mut ctx, "frame.rev_style", vec![]), ExecuteStatus::Completed));
    assert!(matches!(member(&ctx, "frame", "m_rev_style"), Some(ScriptValue::Bool(false))));
}

#[test]
fn text_objects_are_made_from_their_arguments() {
    let mut ctx = ScriptContext::new();
    init_env_globals(&mut ctx);
    let cmd = Command::CommandAssignment {
        name: "t".to_string(),
        command: "text_obj".to_string(),
        args: vec![ScriptValue::String("hello".to_string()), ScriptValue::Int(3), ScriptValue::Int(4)],
    };
    assert!(matches!(ctx.execute_command(&cmd, &no_host, &no_character), ExecuteStatus::Completed));
    assert_eq!(text(member(&ctx, "t", "content")), Some("hello".to_string()));
    assert!(matches!(member(&ctx, "t", "xpos"), Some(ScriptValue::Int(3))));
    assert!(matches!(member(&ctx, "t", "ypos"), Some(ScriptValue::Int(4))));
    assert_eq!(ctx.type_tag(8), Some("text_obj".to_string()));
    let bad = Command::CommandAssignment {
        name: "u".to_string(),
        command: "text_obj".to_string(),
        args: vec![ScriptValue::Int(1)],
    };
    assert!(matches!(ctx.execute_command(&bad, &no_host, &no_character), ExecuteStatus::Completed));
    assert_eq!(text(member(&ctx, "u", "content")), Some(String::new()));
    assert!(matches!(member(&ctx, "u", "xpos"), Some(ScriptValue::Int(0))));
}

fn handle(v: Option<ScriptValue>) -> Option<u64> {
    match v {
        Some(ScriptValue::TableHandle(id)) => Some(id),
        _ => None,
    }
}

#[test]
fn characters_are_put_on_stage_in_order() {
    let mut ctx = ScriptContext::new();
    init_env_globals(&mut ctx);
    let make = |name: &str| Command::CommandAssignment {
        name: name.to_string(),
        command: "character".to_string(),
        args: vec![ScriptValue::String("alice.toml".to_string())],
    };
    assert!(matches!(ctx.execute_command(&make("a"), &no_host, &alice), ExecuteStatus::Completed));
    assert!(matches!(ctx.execute_command(&make("b"), &no_host, &alice), ExecuteStatus::Completed));
    let a = ctx.get_global_val("a").unwrap();
    let b = ctx.get_global_val("b").unwrap();
    assert_eq!(ctx.type_tag(8), Some("character".to_string()));
    let set = |args: Vec<ScriptValue>| Command::Call { path: "character_ls.set_characters".to_string(), args };
    assert!(matches!(ctx.execute_command(&set(vec![b.clone(), a.clone()]), &no_host, &no_character), ExecuteStatus::Completed));
    assert_eq!(handle(member(&ctx, "character_ls", "0")), handle(Some(b.clone())));
    assert_eq!(handle(member(&ctx, "character_ls", "1")), handle(Some(a.clone())));

    let frame = ctx.get_global_val("frame").unwrap();
    assert!(matches!(
        ctx.execute_command(&set(vec![a.clone(), frame]), &no_host, &no_character),
        ExecuteStatus::Error(e) if e == "expect character but 1 arg is not!"
    ));
    assert_eq!(handle(member(&ctx, "character_ls", "0")), handle(Some(a.clone())));
    assert!(matches!(
        ctx.execute_command(&set(vec![ScriptValue::Int(3)]), &no_host, &no_character),
        ExecuteStatus::Error(e) if e == "expect table but 0 arg is not!"
    ));
    assert!(matches!(
        ctx.execute_command(&set(vec![ScriptValue::TableHandle(999)]), &no_host, &no_character),
        ExecuteStatus::Error(e) if e == "expect table but 0 arg is not!"
    ));
}

#[test]
fn making_a_layer_needs_the_layer_list() {
    let layer = Command::CommandAssignment { name: "l".to_string(), command: "layer".to_string(), args: vec![] };
    let text_obj = Command::CommandAssignment { name: "t".to_string(), command: "text_obj".to_string(), args: vec![] };
    let mut ctx = ScriptContext::new();
    assert!(!ctx.meets_command_requirements(&layer));
    assert!(ctx.meets_command_requirements(&text_obj));
    init_env_globals(&mut ctx);
    assert!(ctx.meets_command_requirements(&layer));
}

#[test]
fn path_arguments_are_given_their_values() {
    let mut ctx = ScriptContext::new();
    init_env_globals(&mut ctx);
    let make = Command::CommandAssignment {
        name: "a".to_string(),
        command: "character".to_string(),
        args: vec![ScriptValue::String("alice.toml".to_string())],
    };
    assert!(matches!(ctx.execute_command(&make, &no_host, &alice), ExecuteStatus::Completed));
    let set = Command::Call {
        path: "character_ls.set_characters".to_string(),
        args: vec![ScriptValue::Expression("a".to_string())],
    };
    assert!(matches!(ctx.execute_command(&set, &no_host, &alice), ExecuteStatus::Completed));
    assert_eq!(handle(member(&ctx, "character_ls", "0")), Some(8));

    let mode = Command::SetPath {
        path: "speed".to_string(),
        args: vec![ScriptValue::Expression("fade_in".to_string())],
    };
    assert!(matches!(ctx.execute_command(&mode, &no_host, &alice), ExecuteStatus::Completed));
    assert_eq!(text(ctx.get_global_val("speed")), Some("fade_in".to_string()));
    let unknown = Command::SetPath {
        path: "w".to_string(),
        args: vec![ScriptValue::Expression("nowhere".to_string())],
    };
    assert!(matches!(ctx.execute_command(&unknown, &no_host, &alice), ExecuteStatus::Completed));
    assert!(matches!(ctx.get_global_val("w"), Some(ScriptValue::Expression(p)) if p == "nowhere"));
}
