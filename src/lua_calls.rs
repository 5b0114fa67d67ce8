//! The calls into the `mlua` sandbox. A `Sandbox` keeps a history of
//! every call it made, with what it handed to the sandbox and how the call
//! ended; only its own methods add to it.
use crate::draw::RawDrawCmd;
use crate::handles::{Mesh, Shader};
use crate::reload::StepResult;
use crate::runtime::{frame_from_parts, frame_from_parts_spec, RawFrame};
use mlua::{Function, Lua, MultiValue, Table};
use vstd::prelude::*;

verus! {

#[verifier::external_type_specification]
#[verifier::external_body]
pub struct ExLua(Lua);

#[verifier::external_type_specification]
#[verifier::external_body]
pub struct ExFunction<'lua>(Function<'lua>);

#[verifier::external_type_specification]
#[verifier::external_body]
pub struct ExTable<'lua>(Table<'lua>);

#[verifier::external_type_specification]
#[verifier::external_body]
pub struct ExLuaError(mlua::Error);

/// Mesh handles reach scripts as opaque userdata.
impl mlua::UserData for Mesh {}

/// Shader handles reach scripts as opaque userdata.
impl mlua::UserData for Shader {}

/// Relies on `Table::set` on the global table: sets global `name` to nil.
#[verifier::external_body]
fn set_global_nil(lua: &Lua, name: &str) -> (r: Result<(), mlua::Error>) {
    lua.globals().set(name, mlua::Value::Nil)
}

/// Relies on `Chunk::set_mode` and `Chunk::eval`: runs `source` in the
/// sandbox as source text; precompiled chunks are refused.
#[verifier::external_body]
fn eval_text(lua: &Lua, source: &str) -> (r: Result<(), mlua::Error>) {
    lua.load(source).set_mode(mlua::ChunkMode::Text).eval::<MultiValue>().map(|_| ())
}

/// Relies on `Table::get` on the global table: the function bound to
/// global `name`, if that is a function.
#[verifier::external_body]
fn lookup_global(lua: &'static Lua, name: &str) -> (r: Result<Function<'static>, mlua::Error>) {
    lua.globals().get::<_, Function>(name)
}

/// Relies on `Function::call` with no arguments and no result.
#[verifier::external_body]
fn call_no_args(f: &Function<'static>) -> (r: Result<(), mlua::Error>) {
    f.call::<(), ()>(())
}

/// Relies on `Function::call` with no arguments and a table as result.
#[verifier::external_body]
fn call_for_table(f: &Function<'static>) -> (r: Result<Table<'static>, mlua::Error>) {
    f.call::<(), Table>(())
}

/// Relies on `Table::sequence_values`: the entries 1, 2, ... of `t`, each
/// read as a table.
#[verifier::external_body]
fn sequence_tables(t: &Table<'static>) -> (r: Result<Vec<Table<'static>>, mlua::Error>) {
    t.clone().sequence_values::<Table>().collect()
}

/// Relies on `Table::get` of a list of Lua numbers, each kept as its bit
/// pattern; `None` where the field is absent or no such list.
#[verifier::external_body]
fn get_number_list(t: &Table<'static>, key: &str) -> (r: Option<Vec<u64>>) {
    t.get::<_, Vec<mlua::Number>>(key).ok().map(|v| v.into_iter().map(|n| n.to_bits()).collect())
}

/// Relies on `Table::get` of a Lua number, kept as its bit pattern; `None`
/// where the field is absent or not a number.
#[verifier::external_body]
fn get_number_bits(t: &Table<'static>, key: &str) -> (r: Option<u64>) {
    t.get::<_, mlua::Number>(key).ok().map(|n| n.to_bits())
}

/// Relies on `Table::get` of an integer that fits a `u32`.
#[verifier::external_body]
fn get_u32(t: &Table<'static>, key: &str) -> (r: Option<u32>) {
    t.get::<_, u32>(key).ok()
}

/// Relies on `Table::get` of mesh userdata.
#[verifier::external_body]
fn get_mesh(t: &Table<'static>, key: &str) -> (r: Option<Mesh>) {
    t.get::<_, Mesh>(key).ok()
}

/// Relies on `Table::get` of shader userdata.
#[verifier::external_body]
fn get_shader(t: &Table<'static>, key: &str) -> (r: Option<Shader>) {
    t.get::<_, Shader>(key).ok()
}

/// Relies on `Function::call` with one table argument `{stamp, msg}`,
/// built with `Lua::create_table` and `Table::set`.
#[verifier::external_body]
fn call_with_event(lua: &Lua, f: &Function<'static>, stamp: u64, msg: &Vec<u8>) -> (r: Result<(), mlua::Error>) {
    let table = lua.create_table()?;
    table.set("stamp", stamp)?;
    table.set("msg", msg.clone())?;
    f.call::<_, ()>(table)
}

/// Relies on `Chunk::set_mode` and `Chunk::eval`: each value of `line`,
/// read as source text, written with `{:?}`, or the error's text.
#[verifier::external_body]
fn eval_values(lua: &Lua, line: &str) -> (r: Result<Vec<String>, String>) {
    match lua.load(line).set_mode(mlua::ChunkMode::Text).eval::<MultiValue>() {
        Ok(values) => Ok(values.iter().map(|v| format!("{:?}", v)).collect()),
        Err(e) => Err(format!("{}", e)),
    }
}

/// Relies on the `Display` of `mlua::Error`.
#[verifier::external_body]
fn error_text(e: &mlua::Error) -> (r: String) {
    format!("{}", e)
}

/// Relies on `mlua::Error::SyntaxError` being the variant for source that
/// does not parse.
#[verifier::external_body]
fn is_syntax_error(e: &mlua::Error) -> (r: bool) {
    matches!(e, mlua::Error::SyntaxError { .. })
}

fn step_result(r: Result<(), mlua::Error>) -> (s: StepResult)
    ensures
        s is Done <==> r is Ok,
{
    match r {
        Ok(()) => StepResult::Done,
        Err(e) => if is_syntax_error(&e) {
            StepResult::SyntaxFailed(error_text(&e))
        } else {
            StepResult::Failed(error_text(&e))
        },
    }
}

fn read_draw_cmd(t: &Table<'static>) -> (r: RawDrawCmd) {
    RawDrawCmd {
        trans: get_number_list(t, "trans"),
        mesh: get_mesh(t, "mesh"),
        n_indices: get_u32(t, "n_indices"),
        shader: get_shader(t, "shader"),
    }
}

/// Reads the records 1, 2, ... of `t`, in order.
fn read_records(t: &Table<'static>) -> (r: Result<Vec<RawDrawCmd>, String>) {
    let records = match sequence_tables(t) {
        Ok(v) => v,
        Err(e) => return Err(error_text(&e)),
    };
    let mut cmds: Vec<RawDrawCmd> = Vec::new();
    let mut i: usize = 0;
    while i < records.len()
        invariant
            i <= records.len(),
            cmds.len() == i,
        decreases records.len() - i,
    {
        cmds.push(read_draw_cmd(&records[i]));
        i = i + 1;
    }
    Ok(cmds)
}

/// One call made into the sandbox: what was handed over and how it ended.
pub enum SandboxCall {
    /// Global `name` set to nil.
    Clear { name: Seq<char>, result: StepResult },
    /// `source` run as source text.
    Evaluate { source: Seq<char>, result: StepResult },
    /// Global `name` looked up as a function.
    Lookup { name: Seq<char>, result: StepResult, found: Option<Function<'static>> },
    /// `function` called with no arguments and no result.
    CallReload { function: Function<'static>, result: StepResult },
    /// `function` called for a frame: the `anim` and records read from
    /// what it returned, and the frame made of them.
    CallFrame {
        function: Function<'static>,
        anim: Option<u64>,
        records: Result<Vec<RawDrawCmd>, String>,
        outcome: Result<RawFrame, String>,
    },
    /// `function` called with the event `{stamp, msg}`.
    CallMidi { function: Function<'static>, stamp: u64, message: Seq<u8>, ok: bool },
    /// `line` evaluated as source text.
    EvalLine { line: Seq<char>, outcome: Result<Vec<String>, String> },
}

/// A script sandbox, with the history of the calls made into it.
pub struct Sandbox {
    lua: &'static Lua,
    history: Ghost<Seq<SandboxCall>>,
}

impl Sandbox {
    /// Every call made into the sandbox through this value, oldest first.
    pub closed spec fn history(&self) -> Seq<SandboxCall> {
        self.history@
    }

    pub fn new(lua: &'static Lua) -> (r: Self)
        ensures
            r.history() == Seq::<SandboxCall>::empty(),
    {
        Sandbox { lua, history: Ghost(Seq::empty()) }
    }

    /// Sets global `name` to nil.
    pub fn clear_global(&mut self, name: &str) -> (r: StepResult)
        ensures
            final(self).history() == old(self).history().push(SandboxCall::Clear { name: name@, result: r }),
    {
        let r = step_result(set_global_nil(self.lua, name));
        self.history = Ghost(self.history@.push(SandboxCall::Clear { name: name@, result: r }));
        r
    }

    /// Runs `source` as source text.
    pub fn evaluate(&mut self, source: &str) -> (r: StepResult)
        ensures
            final(self).history() == old(self).history().push(SandboxCall::Evaluate { source: source@, result: r }),
    {
        let r = step_result(eval_text(self.lua, source));
        self.history = Ghost(self.history@.push(SandboxCall::Evaluate { source: source@, result: r }));
        r
    }

    /// Looks up global `name` as a function.
    pub fn find_function(&mut self, name: &str) -> (r: (StepResult, Option<Function<'static>>))
        ensures
            r.0 is Done <==> r.1 is Some,
            final(self).history() == old(self).history().push(
                SandboxCall::Lookup { name: name@, result: r.0, found: r.1 },
            ),
    {
        let r = match lookup_global(self.lua, name) {
            Ok(f) => (StepResult::Done, Some(f)),
            Err(e) => (StepResult::Failed(error_text(&e)), None),
        };
        self.history = Ghost(self.history@.push(SandboxCall::Lookup { name: name@, result: r.0, found: r.1 }));
        r
    }

    /// Calls `f` with no arguments and no result.
    pub fn call_reload(&mut self, f: &Function<'static>) -> (r: StepResult)
        ensures
            final(self).history() == old(self).history().push(SandboxCall::CallReload { function: *f, result: r }),
    {
        let r = step_result(call_no_args(f));
        self.history = Ghost(self.history@.push(SandboxCall::CallReload { function: *f, result: r }));
        r
    }

    /// Calls `f` for a frame and reads what it returned.
    pub fn call_frame(&mut self, f: &Function<'static>) -> (r: Result<RawFrame, String>)
        ensures
            final(self).history().drop_last() == old(self).history(),
            final(self).history().len() == old(self).history().len() + 1,
            final(self).history().last() is CallFrame,
            final(self).history().last()->CallFrame_function == *f,
            final(self).history().last()->CallFrame_outcome == r,
            r == frame_from_parts_spec(
                final(self).history().last()->CallFrame_anim,
                final(self).history().last()->CallFrame_records,
            ),
    {
        let (anim, records) = match call_for_table(f) {
            Ok(t) => (get_number_bits(&t, "anim"), read_records(&t)),
            Err(e) => (None, Err(error_text(&e))),
        };
        let ghost g_anim = anim;
        let ghost g_records = records;
        let r = frame_from_parts(anim, records);
        self.history = Ghost(self.history@.push(
            SandboxCall::CallFrame { function: *f, anim: g_anim, records: g_records, outcome: r },
        ));
        assert(self.history@.drop_last() =~= old(self).history@);
        r
    }

    /// Calls `f` with the event `{stamp, msg}`.
    pub fn call_midi(&mut self, f: &Function<'static>, stamp: u64, msg: &Vec<u8>) -> (r: Result<(), String>)
        ensures
            final(self).history() == old(self).history().push(
                SandboxCall::CallMidi { function: *f, stamp, message: msg@, ok: r is Ok },
            ),
    {
        let r = match call_with_event(self.lua, f, stamp, msg) {
            Ok(()) => Ok(()),
            Err(e) => Err(error_text(&e)),
        };
        self.history = Ghost(self.history@.push(
            SandboxCall::CallMidi { function: *f, stamp, message: msg@, ok: r is Ok },
        ));
        r
    }

    /// Evaluates `line` as source text: each value written out, or the
    /// error.
    pub fn eval_line(&mut self, line: &str) -> (r: Result<Vec<String>, String>)
        ensures
            final(self).history() == old(self).history().push(SandboxCall::EvalLine { line: line@, outcome: r }),
    {
        let r = eval_values(self.lua, line);
        self.history = Ghost(self.history@.push(SandboxCall::EvalLine { line: line@, outcome: r }));
        r
    }
}

} // verus!
