use micro_engine::lua_module::{join_values, LuaModule};
use micro_engine::reload::{next_reload_step, ReloadStage, StepResult};
use micro_engine::runtime::ScriptError;

fn failed(t: &str) -> StepResult {
    StepResult::Failed(t.to_string())
}

#[test]
fn reload_steps_follow_in_order() {
    let order = [
        ReloadStage::ClearReload,
        ReloadStage::ClearFrame,
        ReloadStage::Evaluate,
        ReloadStage::FindReload,
        ReloadStage::CallReload,
        ReloadStage::FindFrame,
        ReloadStage::FindMidi,
        ReloadStage::Finished,
    ];
    for w in order.windows(2) {
        assert_eq!(next_reload_step(w[0], StepResult::Done), Ok(w[1]));
    }
    assert_eq!(next_reload_step(ReloadStage::FindMidi, failed("none")), Ok(ReloadStage::Finished));
}

#[test]
fn reload_step_errors_have_their_kinds() {
    assert_eq!(
        next_reload_step(ReloadStage::Evaluate, StepResult::SyntaxFailed("syntax".into())),
        Err(ScriptError::Parse("syntax".into()))
    );
    assert_eq!(next_reload_step(ReloadStage::Evaluate, failed("boom")), Err(ScriptError::Eval("boom".into())));
    assert_eq!(
        next_reload_step(ReloadStage::FindReload, failed("nil")),
        Err(ScriptError::Contract("Requires reload() fn".into()))
    );
    assert_eq!(
        next_reload_step(ReloadStage::FindFrame, failed("nil")),
        Err(ScriptError::Contract("Requires frame() fn".into()))
    );
    assert_eq!(next_reload_step(ReloadStage::CallReload, failed("err")), Err(ScriptError::Eval("err".into())));
    assert_eq!(next_reload_step(ReloadStage::ClearReload, failed("x")), Err(ScriptError::Eval("x".into())));
    assert_eq!(next_reload_step(ReloadStage::ClearFrame, failed("y")), Err(ScriptError::Eval("y".into())));
}

#[test]
fn values_join_with_tabs() {
    assert_eq!(join_values(&vec![]), "");
    assert_eq!(join_values(&vec!["a".to_string()]), "a");
    assert_eq!(join_values(&vec!["a".to_string(), "bc".to_string(), "".to_string()]), "a\tbc\t");
}

#[test]
fn removed_frame_is_not_kept_from_old_binding() {
    let lua = mlua::Lua::new().into_static();
    let mut m = LuaModule::new(lua);
    m.try_reload("function reload() end\nfunction frame() return {} end").unwrap();
    let r = m.try_reload("function reload() end");
    assert_eq!(r, Err(ScriptError::Contract("Requires frame() fn".to_string())));
    let reloaded: Option<mlua::Function> = lua.globals().get("frame").unwrap();
    assert!(reloaded.is_none());
}

#[test]
fn frame_without_anim_gives_zero() {
    let lua = mlua::Lua::new().into_static();
    let mut m = LuaModule::new(lua);
    m.try_reload("function reload() end\nfunction frame() return {} end").unwrap();
    let f = m.frame();
    assert_eq!(f.anim, 0);
    assert!(f.cmds.is_empty());
    assert!(m.runtime().is_ready());
}

#[test]
fn console_values_are_tab_separated() {
    let mut m = LuaModule::new(mlua::Lua::new().into_static());
    let out = m.eval_command("1, 2").unwrap();
    assert_eq!(out.matches('\t').count(), 1);
}

#[test]
fn precompiled_chunks_are_refused() {
    let lua = mlua::Lua::new().into_static();
    let mut m = LuaModule::new(lua);
    assert!(m.try_reload("\x1bLua\x54\x00garbage").is_err());
    assert!(m.eval_command("\x1bLua\x54\x00garbage").is_err());
    assert!(m.try_reload("function reload() end\nfunction frame() return {} end").is_ok());
}
