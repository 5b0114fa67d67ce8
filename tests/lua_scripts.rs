use micro_engine::draw::DrawGeometry;
use micro_engine::handles::{Mesh, Shader};
use micro_engine::lua_module::LuaModule;
use micro_engine::runtime::{MidiUpdate, ScriptError, ScriptState};

fn sandbox() -> &'static mlua::Lua {
    let lua = mlua::Lua::new().into_static();
    lua.globals().set("sh", Shader { key: 0x1_0000_0001 }).unwrap();
    lua.globals().set("me", Mesh { key: 0x1_0000_0002 }).unwrap();
    lua
}

const GOOD: &str = "
reloads = (reloads or 0) + 1
calls = 0
function reload() end
function frame()
  calls = calls + 1
  return { anim = 0.5, { shader = sh, mesh = me, n_indices = 3 }, { shader = sh, n_indices = 6,
    trans = {1,0,0,0, 0,1,0,0, 0,0,1,0, 0,0,0,1} } }
end
";

#[test]
fn script_frame_decodes_commands() {
    let lua = sandbox();
    let mut m = LuaModule::new(lua);
    assert!(m.try_reload(GOOD).is_ok());
    assert_eq!(m.runtime().state, ScriptState::Ready);
    let f = m.frame();
    assert_eq!(f.anim, 0.5f64.to_bits());
    assert_eq!(f.cmds.len(), 2);
    assert_eq!(f.cmds[0].shader, Shader { key: 0x1_0000_0001 });
    assert_eq!(f.cmds[0].geometry, DrawGeometry::Mesh { mesh: Mesh { key: 0x1_0000_0002 }, max_idx: Some(3) });
    assert_eq!(f.cmds[1].geometry, DrawGeometry::Procedural { n_verts: 6 });
    assert_eq!(f.cmds[1].transform.unwrap()[0], 1f64.to_bits());
    assert_eq!(f.cmds[1].transform.unwrap()[1], 0f64.to_bits());
}

#[test]
fn missing_shader_in_script_freezes_frame_calls() {
    let lua = sandbox();
    let mut m = LuaModule::new(lua);
    m.try_reload("calls = 0\nfunction reload() end\nfunction frame() calls = calls + 1; return { { mesh = me } } end").unwrap();
    assert!(m.frame().cmds.is_empty());
    assert!(m.runtime().is_frozen());
    assert!(m.frame().cmds.is_empty());
    assert!(m.frame().cmds.is_empty());
    let calls: i64 = lua.globals().get("calls").unwrap();
    assert_eq!(calls, 1);

    assert!(m.try_reload(GOOD).is_ok());
    assert_eq!(m.frame().cmds.len(), 2);
}

#[test]
fn failed_reload_keeps_working_script() {
    let lua = sandbox();
    let mut m = LuaModule::new(lua);
    m.try_reload(GOOD).unwrap();
    match m.try_reload("function frame( ") {
        Err(ScriptError::Parse(_)) => {}
        other => panic!("expected a parse error, got {:?}", other),
    }
    assert_eq!(m.frame().cmds.len(), 2);
    match m.try_reload("function reload() end") {
        Err(ScriptError::Contract(msg)) => assert_eq!(msg, "Requires frame() fn"),
        other => panic!("expected a contract error, got {:?}", other),
    }
    assert_eq!(m.frame().cmds.len(), 2);
    match m.try_reload("x = 1") {
        Err(ScriptError::Contract(msg)) => assert_eq!(msg, "Requires reload() fn"),
        other => panic!("expected a contract error, got {:?}", other),
    }
    match m.try_reload("function reload() error('boom') end\nfunction frame() return {} end") {
        Err(ScriptError::Eval(_)) => {}
        other => panic!("expected an evaluation error, got {:?}", other),
    }
    assert_eq!(m.runtime().state, ScriptState::Ready);
}

#[test]
fn reload_callback_runs_once_per_reload() {
    let lua = sandbox();
    let mut m = LuaModule::new(lua);
    m.try_reload("n = (n or 0)\nfunction reload() n = n + 1 end\nfunction frame() return {} end").unwrap();
    m.try_reload("n = (n or 0)\nfunction reload() n = n + 1 end\nfunction frame() return {} end").unwrap();
    let n: i64 = lua.globals().get("n").unwrap();
    assert_eq!(n, 2);
}

#[test]
fn frame_error_in_script_freezes() {
    let lua = sandbox();
    let mut m = LuaModule::new(lua);
    m.try_reload("function reload() end\nfunction frame() error('bad frame') end").unwrap();
    assert!(m.frame().cmds.is_empty());
    assert!(m.runtime().is_frozen());
}

#[test]
fn frame_before_load_calls_nothing() {
    let mut m = LuaModule::new(sandbox());
    assert!(m.frame().cmds.is_empty());
    assert_eq!(m.runtime().state, ScriptState::Uninitialized);
}

#[test]
fn midi_callback_gets_latest_event() {
    let lua = sandbox();
    let mut m = LuaModule::new(lua);
    m.try_reload("function reload() end\nfunction frame() return {} end\nfunction midi(e) last = e.msg[3]; stamp = e.stamp end").unwrap();
    let events = vec![
        MidiUpdate { stamp: 10, message: vec![176, 1, 5] },
        MidiUpdate { stamp: 11, message: vec![176, 1, 9] },
    ];
    assert!(m.midi(&events).is_ok());
    let last: i64 = lua.globals().get("last").unwrap();
    let stamp: i64 = lua.globals().get("stamp").unwrap();
    assert_eq!((last, stamp), (9, 11));

    m.try_reload("function reload() end\nfunction frame() return {} end\nfunction midi(e) error('no') end").unwrap();
    assert!(m.midi(&events).is_err());
    assert_eq!(m.runtime().state, ScriptState::Ready);
}

#[test]
fn console_expression_is_evaluated() {
    let mut m = LuaModule::new(sandbox());
    let out = m.eval_command("1 + 2").unwrap();
    assert!(out.contains('3'));
    assert!(m.eval_command("nosuchfn()").is_err());
}
