//! The script runtime on its sandbox: reloading the script, calling its
//! `frame()` and controller callback, and evaluating console lines. Every
//! contract says which calls went into the sandbox, with what, and what was
//! made of how they ended.
use crate::lua_calls::{Sandbox, SandboxCall};
use crate::reload::{error_view, next_reload_step, reload_run, step_spec, ReloadStage, ScriptErrorKind, StepResult};
use crate::runtime::{LuaFrame, MidiUpdate, ScriptError, ScriptRuntime, ScriptState};
use mlua::{Function, Lua};
use vstd::prelude::*;
use vstd::string::*;

verus! {

/// The stage of the `i`-th call of a reload.
pub open spec fn stage_at(i: int) -> ReloadStage {
    if i == 0 {
        ReloadStage::ClearReload
    } else if i == 1 {
        ReloadStage::ClearFrame
    } else if i == 2 {
        ReloadStage::Evaluate
    } else if i == 3 {
        ReloadStage::FindReload
    } else if i == 4 {
        ReloadStage::CallReload
    } else if i == 5 {
        ReloadStage::FindFrame
    } else if i == 6 {
        ReloadStage::FindMidi
    } else {
        ReloadStage::Finished
    }
}

/// Whether `calls[i]` is the `i`-th call of reloading `source`: set
/// `reload`, then `frame`, to nil; run `source`; look up `reload`; call the
/// function found; look up `frame`; look up `midi`.
pub open spec fn reload_call_fits(calls: Seq<SandboxCall>, i: int, source: Seq<char>) -> bool {
    let c = calls[i];
    match stage_at(i) {
        ReloadStage::ClearReload => c is Clear && c->Clear_name == "reload"@,
        ReloadStage::ClearFrame => c is Clear && c->Clear_name == "frame"@,
        ReloadStage::Evaluate => c is Evaluate && c->Evaluate_source == source,
        ReloadStage::FindReload => c is Lookup && c->Lookup_name == "reload"@,
        ReloadStage::CallReload => c is CallReload && calls[3] is Lookup && calls[3]->Lookup_found
            == Some(c->CallReload_function),
        ReloadStage::FindFrame => c is Lookup && c->Lookup_name == "frame"@,
        ReloadStage::FindMidi => c is Lookup && c->Lookup_name == "midi"@,
        ReloadStage::Finished => false,
    }
}

/// `calls` are the first calls of reloading `source`, in order.
pub open spec fn reload_calls(calls: Seq<SandboxCall>, source: Seq<char>) -> bool {
    &&& calls.len() <= 7
    &&& forall|i: int| 0 <= i < calls.len() ==> reload_call_fits(calls, i, source)
}

/// How a call of the reload sequence ended.
pub open spec fn call_result(c: SandboxCall) -> StepResult {
    match c {
        SandboxCall::Clear { result, .. } => result,
        SandboxCall::Evaluate { result, .. } => result,
        SandboxCall::Lookup { result, .. } => result,
        SandboxCall::CallReload { result, .. } => result,
        _ => StepResult::Done,
    }
}

pub open spec fn call_results(calls: Seq<SandboxCall>) -> Seq<StepResult> {
    calls.map_values(|c: SandboxCall| call_result(c))
}

/// The calls in `after` that came after those of `before`.
pub open spec fn calls_since(before: Seq<SandboxCall>, after: Seq<SandboxCall>) -> Seq<SandboxCall> {
    after.skip(before.len() as int)
}

/// `after` is `before` with more calls at its end.
pub open spec fn extends(before: Seq<SandboxCall>, after: Seq<SandboxCall>) -> bool {
    after.len() >= before.len() && after.take(before.len() as int) == before
}

/// A reload's result as the state machine sees it.
pub open spec fn reload_result_view(r: Result<(), ScriptError>) -> Result<ReloadStage, (ScriptErrorKind, Seq<char>)> {
    match r {
        Ok(_) => Ok(ReloadStage::Finished),
        Err(e) => Err(error_view(e)),
    }
}

proof fn lemma_next_call(calls: Seq<SandboxCall>, c: SandboxCall, source: Seq<char>)
    requires
        reload_calls(calls, source),
        calls.len() < 7,
        reload_call_fits(calls.push(c), calls.len() as int, source),
        reload_run(call_results(calls)) == Ok::<ReloadStage, (ScriptErrorKind, Seq<char>)>(stage_at(calls.len() as int)),
    ensures
        reload_calls(calls.push(c), source),
        call_results(calls.push(c)).drop_last() == call_results(calls),
        reload_run(call_results(calls.push(c))) == step_spec(stage_at(calls.len() as int), call_result(c)),
{
    let n = calls.push(c);
    assert(call_results(n) =~= call_results(calls).push(call_result(c)));
    assert(call_results(n).drop_last() =~= call_results(calls));
    assert forall|i: int| 0 <= i < n.len() implies reload_call_fits(n, i, source) by {
        if i < calls.len() {
            assert(reload_call_fits(calls, i, source));
            assert(n[i] == calls[i]);
            if i == 4 {
                assert(n[3] == calls[3]);
            }
        }
    }
}

/// Runs the reload sequence: each call in turn as the reload state machine
/// asks for it, up to the first failure.
fn load_entries(sb: &mut Sandbox, source: &str) -> (r: Result<(Function<'static>, Option<Function<'static>>), ScriptError>)
    ensures
        extends(old(sb).history(), final(sb).history()),
        reload_calls(calls_since(old(sb).history(), final(sb).history()), source@),
        reload_run(call_results(calls_since(old(sb).history(), final(sb).history()))) == match r {
            Ok(_) => Ok::<ReloadStage, (ScriptErrorKind, Seq<char>)>(ReloadStage::Finished),
            Err(e) => Err(error_view(e)),
        },
        r is Err ==> calls_since(old(sb).history(), final(sb).history()).len() > 0 && reload_run(
            call_results(calls_since(old(sb).history(), final(sb).history())).drop_last(),
        ) is Ok,
        r is Ok ==> {
            let calls = calls_since(old(sb).history(), final(sb).history());
            &&& calls.len() == 7
            &&& calls[5]->Lookup_found == Some(r->Ok_0.0)
            &&& calls[6]->Lookup_found == r->Ok_0.1
        },
{
    let ghost h0 = sb.history();
    let ghost mut calls: Seq<SandboxCall> = Seq::empty();
    proof {
        assert(call_results(calls) =~= Seq::<StepResult>::empty());
        assert(sb.history() =~= h0 + calls);
    }

    // clear `reload`
    let res = sb.clear_global("reload");
    proof {
        let c = SandboxCall::Clear { name: "reload"@, result: res };
        lemma_next_call(calls, c, source@);
        calls = calls.push(c);
        assert(sb.history() =~= h0 + calls);
    }
    if let Err(e) = next_reload_step(ReloadStage::ClearReload, res) {
        proof { lemma_since(h0, calls, sb.history()); }
        return Err(e);
    }

    // clear `frame`
    let res = sb.clear_global("frame");
    proof {
        let c = SandboxCall::Clear { name: "frame"@, result: res };
        lemma_next_call(calls, c, source@);
        calls = calls.push(c);
        assert(sb.history() =~= h0 + calls);
    }
    if let Err(e) = next_reload_step(ReloadStage::ClearFrame, res) {
        proof { lemma_since(h0, calls, sb.history()); }
        return Err(e);
    }

    // run the source
    let res = sb.evaluate(source);
    proof {
        let c = SandboxCall::Evaluate { source: source@, result: res };
        lemma_next_call(calls, c, source@);
        calls = calls.push(c);
        assert(sb.history() =~= h0 + calls);
    }
    if let Err(e) = next_reload_step(ReloadStage::Evaluate, res) {
        proof { lemma_since(h0, calls, sb.history()); }
        return Err(e);
    }

    // find `reload`
    let (res, found) = sb.find_function("reload");
    proof {
        let c = SandboxCall::Lookup { name: "reload"@, result: res, found };
        lemma_next_call(calls, c, source@);
        calls = calls.push(c);
        assert(sb.history() =~= h0 + calls);
    }
    if let Err(e) = next_reload_step(ReloadStage::FindReload, res) {
        proof { lemma_since(h0, calls, sb.history()); }
        return Err(e);
    }
    let reload_fn = match found {
        Some(f) => f,
        None => {
            proof { assert(false); }
            return Err(ScriptError::Contract(String::new()));
        },
    };

    // call `reload()`
    let res = sb.call_reload(&reload_fn);
    proof {
        let c = SandboxCall::CallReload { function: reload_fn, result: res };
        lemma_next_call(calls, c, source@);
        calls = calls.push(c);
        assert(sb.history() =~= h0 + calls);
    }
    if let Err(e) = next_reload_step(ReloadStage::CallReload, res) {
        proof { lemma_since(h0, calls, sb.history()); }
        return Err(e);
    }

    // find `frame`
    let (res, found) = sb.find_function("frame");
    proof {
        let c = SandboxCall::Lookup { name: "frame"@, result: res, found };
        lemma_next_call(calls, c, source@);
        calls = calls.push(c);
        assert(sb.history() =~= h0 + calls);
    }
    if let Err(e) = next_reload_step(ReloadStage::FindFrame, res) {
        proof { lemma_since(h0, calls, sb.history()); }
        return Err(e);
    }
    let frame_fn = match found {
        Some(f) => f,
        None => {
            proof { assert(false); }
            return Err(ScriptError::Contract(String::new()));
        },
    };

    // find `midi`
    let (res, midi_fn) = sb.find_function("midi");
    proof {
        let c = SandboxCall::Lookup { name: "midi"@, result: res, found: midi_fn };
        lemma_next_call(calls, c, source@);
        calls = calls.push(c);
        assert(sb.history() =~= h0 + calls);
    }
    let step = next_reload_step(ReloadStage::FindMidi, res);
    proof { lemma_since(h0, calls, sb.history()); }
    match step {
        Ok(_) => Ok((frame_fn, midi_fn)),
        Err(e) => Err(e),
    }
}

proof fn lemma_since(h0: Seq<SandboxCall>, calls: Seq<SandboxCall>, h: Seq<SandboxCall>)
    requires
        h == h0 + calls,
    ensures
        extends(h0, h),
        calls_since(h0, h) == calls,
{
    assert(h.take(h0.len() as int) =~= h0);
    assert(h.skip(h0.len() as int) =~= calls);
}

/// `parts` separated by tabs.
pub open spec fn joined(parts: Seq<Seq<char>>) -> Seq<char>
    decreases parts.len(),
{
    if parts.len() == 0 {
        Seq::empty()
    } else if parts.len() == 1 {
        parts[0]
    } else {
        joined(parts.drop_last()) + "\t"@ + parts.last()
    }
}

/// The texts of `vs` separated by tabs.
pub open spec fn joined_strings(vs: Seq<String>) -> Seq<char> {
    joined(vs.map_values(|v: String| v@))
}

/// Joins values with tabs, as the console echoes them.
pub fn join_values(values: &Vec<String>) -> (r: String)
    ensures
        r@ == joined_strings(values@),
{
    let ghost vv = values@.map_values(|v: String| v@);
    let mut out = String::new();
    let mut i: usize = 0;
    while i < values.len()
        invariant
            vv == values@.map_values(|v: String| v@),
            i <= values.len(),
            out@ == joined(vv.take(i as int)),
        decreases values.len() - i,
    {
        proof {
            let t = vv.take(i + 1);
            assert(t.drop_last() =~= vv.take(i as int));
            assert(t.last() == values@[i as int]@);
        }
        if i > 0 {
            out.append("\t");
        }
        out.append(values[i].as_str());
        proof {
            if i == 0 {
                assert(vv.take(0).len() == 0);
                assert(out@ =~= values@[0]@);
            }
        }
        i = i + 1;
    }
    proof {
        assert(vv.take(values.len() as int) =~= vv);
    }
    out
}

/// A script sandbox with the entry points of the last script that loaded.
pub struct LuaModule {
    sandbox: Sandbox,
    frame_fn: Option<Function<'static>>,
    midi_fn: Option<Function<'static>>,
    runtime: ScriptRuntime,
}

impl LuaModule {
    /// Where the script's lifecycle stands.
    pub closed spec fn script(&self) -> ScriptRuntime {
        self.runtime
    }

    /// The installed `frame` and controller entry points.
    pub closed spec fn bindings(&self) -> (Option<Function<'static>>, Option<Function<'static>>) {
        (self.frame_fn, self.midi_fn)
    }

    /// Every call made into the sandbox, oldest first.
    pub closed spec fn history(&self) -> Seq<SandboxCall> {
        self.sandbox.history()
    }

    /// A module on `lua`, in which the host's native functions are already
    /// registered; no script is loaded yet.
    pub fn new(lua: &'static Lua) -> (r: Self)
        ensures
            r.script().state == ScriptState::Uninitialized,
            r.bindings() == (None::<Function<'static>>, None::<Function<'static>>),
            r.history() == Seq::<SandboxCall>::empty(),
    {
        LuaModule { sandbox: Sandbox::new(lua), frame_fn: None, midi_fn: None, runtime: ScriptRuntime::new() }
    }

    pub fn runtime(&self) -> (r: &ScriptRuntime)
        ensures
            *r == self.script(),
    {
        &self.runtime
    }

    /// Evaluates the script `source` and installs its entry points: sets
    /// `reload` and `frame` to nil, so that a function the new source no
    /// longer defines does not linger; runs the source; calls its
    /// `reload()` once; takes `frame` and the optional `midi`. The calls
    /// stop at the first failure, whose error the reload state machine
    /// gives; the entry points and the state then stay as they were.
    pub fn try_reload(&mut self, source: &str) -> (r: Result<(), ScriptError>)
        ensures
            extends(old(self).history(), final(self).history()),
            reload_calls(calls_since(old(self).history(), final(self).history()), source@),
            reload_run(call_results(calls_since(old(self).history(), final(self).history())))
                == reload_result_view(r),
            r is Err ==> calls_since(old(self).history(), final(self).history()).len() > 0 && reload_run(
                call_results(calls_since(old(self).history(), final(self).history())).drop_last(),
            ) is Ok,
            r is Ok ==> {
                let calls = calls_since(old(self).history(), final(self).history());
                &&& calls.len() == 7
                &&& final(self).bindings().0 == calls[5]->Lookup_found
                &&& final(self).bindings().1 == calls[6]->Lookup_found
                &&& final(self).script().state == ScriptState::Ready
                &&& (final(self).bindings().1 is Some) == final(self).script().midi_bound
            },
            r is Err ==> final(self).script() == old(self).script() && final(self).bindings()
                == old(self).bindings(),
    {
        let entries = load_entries(&mut self.sandbox, source);
        match entries {
            Ok((frame_fn, midi_fn)) => {
                let has_midi = midi_fn.is_some();
                self.frame_fn = Some(frame_fn);
                self.midi_fn = midi_fn;
                self.runtime.finish_reload(Ok(has_midi))
            },
            Err(e) => self.runtime.finish_reload(Err(e)),
        }
    }

    /// Runs the script's `frame()` and decodes what it returned. Only a
    /// ready script with a `frame` binding is called; an error or a
    /// malformed record freezes scripting, and the frame is then empty.
    pub fn frame(&mut self) -> (r: LuaFrame)
        ensures
            final(self).bindings() == old(self).bindings(),
            if old(self).script().state == ScriptState::Ready && old(self).bindings().0 is Some {
                &&& final(self).history().len() == old(self).history().len() + 1
                &&& final(self).history().drop_last() == old(self).history()
                &&& final(self).history().last() is CallFrame
                &&& final(self).history().last()->CallFrame_function == old(self).bindings().0->Some_0
                &&& ScriptRuntime::frame_finished(
                    old(self).script(),
                    final(self).script(),
                    final(self).history().last()->CallFrame_outcome,
                    r,
                )
            } else {
                &&& final(self).history() == old(self).history()
                &&& final(self).script() == old(self).script()
                &&& r.cmds@.len() == 0
                &&& r.anim == 0
            },
    {
        if self.runtime.should_call_frame() {
            match &self.frame_fn {
                Some(f) => {
                    let outcome = self.sandbox.call_frame(f);
                    return self.runtime.finish_frame(outcome);
                },
                None => {},
            }
        }
        LuaFrame::empty()
    }

    /// Hands the most recent of `events` to the script's `midi()`, if it
    /// defines one. An error there is handed back and freezes nothing.
    pub fn midi(&mut self, events: &Vec<MidiUpdate>) -> (r: Result<(), String>)
        ensures
            final(self).script() == old(self).script(),
            final(self).bindings() == old(self).bindings(),
            match (old(self).script().midi_target_of(events@), old(self).bindings().1) {
                (Some(i), Some(f)) => final(self).history() == old(self).history().push(
                    SandboxCall::CallMidi {
                        function: f,
                        stamp: events@[i as int].stamp,
                        message: events@[i as int].message@,
                        ok: r is Ok,
                    },
                ),
                _ => final(self).history() == old(self).history() && r is Ok,
            },
    {
        match self.runtime.midi_target(events) {
            Some(i) => match &self.midi_fn {
                Some(f) => self.sandbox.call_midi(f, events[i].stamp, &events[i].message),
                None => Ok(()),
            },
            None => Ok(()),
        }
    }

    /// Evaluates a console line in the sandbox: the values it gives, each
    /// written out and separated by tabs, or the error.
    pub fn eval_command(&mut self, line: &str) -> (r: Result<String, String>)
        ensures
            final(self).script() == old(self).script(),
            final(self).bindings() == old(self).bindings(),
            final(self).history().drop_last() == old(self).history(),
            final(self).history().len() == old(self).history().len() + 1,
            final(self).history().last() is EvalLine,
            final(self).history().last()->EvalLine_line == line@,
            match final(self).history().last()->EvalLine_outcome {
                Ok(values) => r is Ok && r->Ok_0@ == joined_strings(values@),
                Err(e) => r == Err::<String, String>(e),
            },
    {
        let out = self.sandbox.eval_line(line);
        proof {
            assert(self.sandbox.history().drop_last() =~= old(self).sandbox.history());
        }
        match out {
            Ok(values) => Ok(join_values(&values)),
            Err(e) => Err(e),
        }
    }
}

} // verus!
