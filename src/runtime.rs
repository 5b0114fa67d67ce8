//! The script runtime's state machine: when the script's `frame()` may run,
//! what a reload or a frame's outcome does to the state, and which
//! controller event reaches the script.
use crate::draw::{decode_all_spec, decode_draw_table, DecodeError, DrawCmd, RawDrawCmd};
use vstd::prelude::*;

verus! {

/// Errors of loading or reloading a script.
#[derive(Clone, Debug, PartialEq, Eq)]
pub enum ScriptError {
    /// The script file could not be read.
    Load(String),
    /// The script does not parse.
    Parse(String),
    /// After evaluation, `reload` or `frame` is not defined.
    Contract(String),
    /// The script raised an error while it ran.
    Eval(String),
}

/// Why scripting stopped.
#[derive(Clone, Debug, PartialEq, Eq)]
pub enum FreezeReason {
    /// `frame()` raised an error.
    Eval(String),
    /// What `frame()` returned is not a list of draw commands.
    Decode(DecodeError),
}

/// Lifecycle of the script.
#[derive(Clone, Debug, PartialEq, Eq)]
pub enum ScriptState {
    /// No script loaded yet.
    Uninitialized,
    /// A working script is installed; `frame()` runs every tick.
    Ready,
    /// `frame()` failed; it is not called again until a reload succeeds.
    Frozen(FreezeReason),
}

/// What one call of the script's `frame()` produced, before decoding.
#[derive(Clone, Debug)]
pub struct RawFrame {
    pub cmds: Vec<RawDrawCmd>,
    /// Bit pattern of the animation value, a Lua number (a double).
    pub anim: u64,
}

/// The frame made of what `frame()` returned: its records, and `anim`, or
/// zero where it gave none; a failure to read the records is the error.
pub open spec fn frame_from_parts_spec(
    anim: Option<u64>,
    records: Result<Vec<RawDrawCmd>, String>,
) -> Result<RawFrame, String> {
    match records {
        Ok(cmds) => Ok(RawFrame { cmds, anim: if anim is Some { anim->Some_0 } else { 0 } }),
        Err(e) => Err(e),
    }
}

/// Makes the frame from what `frame()` returned.
pub fn frame_from_parts(anim: Option<u64>, records: Result<Vec<RawDrawCmd>, String>) -> (r: Result<RawFrame, String>)
    ensures
        r == frame_from_parts_spec(anim, records),
{
    match records {
        Ok(cmds) => Ok(RawFrame {
            cmds,
            anim: match anim {
                Some(a) => a,
                None => 0,
            },
        }),
        Err(e) => Err(e),
    }
}

/// The draw commands of one frame and its animation value (bit pattern of
/// a double).
#[derive(Clone, Debug, PartialEq)]
pub struct LuaFrame {
    pub cmds: Vec<DrawCmd>,
    pub anim: u64,
}

impl LuaFrame {
    /// No draw commands, animation value zero.
    pub fn empty() -> (r: LuaFrame)
        ensures
            r.cmds@.len() == 0,
            r.anim == 0,
    {
        LuaFrame { cmds: Vec::new(), anim: 0 }
    }
}

/// One controller message with its timestamp.
#[derive(Clone, Debug, PartialEq, Eq)]
pub struct MidiUpdate {
    pub stamp: u64,
    pub message: Vec<u8>,
}

/// Tracks whether the script may run and whether it handles controller
/// events.
pub struct ScriptRuntime {
    pub state: ScriptState,
    pub midi_bound: bool,
}

impl ScriptRuntime {
    /// `new` is `old` after a reload, a reset or the first load that ended
    /// with `outcome` (`Ok(m)`: the script defines its controller callback
    /// iff `m`).
    pub open spec fn reload_finished(old: Self, new: Self, outcome: Result<bool, ScriptError>) -> bool {
        match outcome {
            Ok(m) => new.state == ScriptState::Ready && new.midi_bound == m,
            Err(_) => new == old,
        }
    }

    /// `new` and `out` are `old` and the frame after the script's `frame()`
    /// ended with `outcome`. Only a ready runtime gives draw commands; an
    /// error or a record that does not decode freezes it with empty output.
    pub open spec fn frame_finished(
        old: Self,
        new: Self,
        outcome: Result<RawFrame, String>,
        out: LuaFrame,
    ) -> bool {
        if old.state != ScriptState::Ready {
            new == old && out.cmds@.len() == 0 && out.anim == 0
        } else {
            match outcome {
                Err(msg) => {
                    &&& new.state == ScriptState::Frozen(FreezeReason::Eval(msg))
                    &&& new.midi_bound == old.midi_bound
                    &&& out.cmds@.len() == 0
                    &&& out.anim == 0
                },
                Ok(raw) => match decode_all_spec(raw.cmds@) {
                    Err(e) => {
                        &&& new.state == ScriptState::Frozen(FreezeReason::Decode(e))
                        &&& new.midi_bound == old.midi_bound
                        &&& out.cmds@.len() == 0
                        &&& out.anim == 0
                    },
                    Ok(cmds) => new == old && out.cmds@ == cmds && out.anim == raw.anim,
                },
            }
        }
    }

    /// The index of the event to hand to the controller callback, if any.
    pub open spec fn midi_target_of(&self, events: Seq<MidiUpdate>) -> Option<usize> {
        if self.midi_bound && events.len() > 0 {
            Some((events.len() - 1) as usize)
        } else {
            None
        }
    }

    pub fn new() -> (r: Self)
        ensures
            r.state == ScriptState::Uninitialized,
            !r.midi_bound,
    {
        ScriptRuntime { state: ScriptState::Uninitialized, midi_bound: false }
    }

    pub fn is_ready(&self) -> (r: bool)
        ensures
            r == (self.state == ScriptState::Ready),
    {
        match self.state {
            ScriptState::Ready => true,
            _ => false,
        }
    }

    pub fn is_frozen(&self) -> (r: bool)
        ensures
            r == (self.state is Frozen),
    {
        match self.state {
            ScriptState::Frozen(_) => true,
            _ => false,
        }
    }

    /// Whether the script's `frame()` is to be called this tick: only when a
    /// working script is installed and scripting is not frozen.
    pub fn should_call_frame(&self) -> (r: bool)
        ensures
            r == (self.state == ScriptState::Ready),
    {
        self.is_ready()
    }

    /// Records how a load, reload or reset ended. On success the new script
    /// is installed; on failure the state is kept, so a working script is
    /// never lost to a bad edit. Hands the error back.
    pub fn finish_reload(&mut self, outcome: Result<bool, ScriptError>) -> (r: Result<(), ScriptError>)
        ensures
            Self::reload_finished(*old(self), *final(self), outcome),
            match outcome {
                Ok(_) => r is Ok,
                Err(e) => r == Err::<(), ScriptError>(e),
            },
    {
        match outcome {
            Ok(m) => {
                self.state = ScriptState::Ready;
                self.midi_bound = m;
                Ok(())
            },
            Err(e) => Err(e),
        }
    }

    /// Turns what the script's `frame()` produced into the frame to draw.
    /// An error, or a record that does not decode, freezes scripting and
    /// gives an empty frame.
    pub fn finish_frame(&mut self, outcome: Result<RawFrame, String>) -> (r: LuaFrame)
        ensures
            Self::frame_finished(*old(self), *final(self), outcome, r),
    {
        if !self.is_ready() {
            return LuaFrame::empty();
        }
        match outcome {
            Err(msg) => {
                self.state = ScriptState::Frozen(FreezeReason::Eval(msg));
                LuaFrame::empty()
            },
            Ok(raw) => match decode_draw_table(&raw.cmds) {
                Err(e) => {
                    self.state = ScriptState::Frozen(FreezeReason::Decode(e));
                    LuaFrame::empty()
                },
                Ok(cmds) => LuaFrame { cmds, anim: raw.anim },
            },
        }
    }

    /// The index of the controller event to hand to the script this tick:
    /// the most recent one, if the script handles controller events.
    pub fn midi_target(&self, events: &Vec<MidiUpdate>) -> (r: Option<usize>)
        ensures
            r == self.midi_target_of(events@),
    {
        if self.midi_bound && events.len() > 0 {
            Some(events.len() - 1)
        } else {
            None
        }
    }
}

/// A frame whose records lack a shader freezes a ready runtime with empty
/// output; while frozen, no frame runs and every frame is empty, and a failed
/// reload keeps it frozen. Only a successful reload makes it ready again.
pub proof fn lemma_missing_shader_freezes(
    s0: ScriptRuntime,
    raw: RawFrame,
    i: int,
    s1: ScriptRuntime,
    out1: LuaFrame,
    outcome: Result<RawFrame, String>,
    s2: ScriptRuntime,
    out2: LuaFrame,
    err: ScriptError,
    s3: ScriptRuntime,
)
    requires
        s0.state == ScriptState::Ready,
        0 <= i < raw.cmds@.len(),
        raw.cmds@[i].shader.is_none(),
        ScriptRuntime::frame_finished(s0, s1, Ok::<RawFrame, String>(raw), out1),
        ScriptRuntime::frame_finished(s1, s2, outcome, out2),
        ScriptRuntime::reload_finished(s2, s3, Err::<bool, ScriptError>(err)),
    ensures
        s1.state is Frozen,
        out1.cmds@.len() == 0,
        s1.state != ScriptState::Ready,
        s2 == s1,
        out2.cmds@.len() == 0,
        s3 == s1,
        s3.state != ScriptState::Ready,
{
    crate::draw::lemma_missing_shader_fails(raw.cmds@, i);
}

} // verus!
