//! The reload sequence as a state machine: which sandbox call comes next,
//! and which error a failed call gives.
use crate::runtime::ScriptError;
use vstd::prelude::*;
use vstd::string::*;

verus! {

/// The calls of a reload, in the order they are made.
#[derive(Clone, Copy, Debug, PartialEq, Eq, Structural)]
pub enum ReloadStage {
    /// Set the global `reload` to nil.
    ClearReload,
    /// Set the global `frame` to nil.
    ClearFrame,
    /// Run the script's source.
    Evaluate,
    /// Look up the function `reload`.
    FindReload,
    /// Call `reload()`.
    CallReload,
    /// Look up the function `frame`.
    FindFrame,
    /// Look up the optional function `midi`.
    FindMidi,
    /// All calls made; the entry points can be installed.
    Finished,
}

/// How one call of the sequence ended.
#[derive(Clone, Debug, PartialEq, Eq)]
pub enum StepResult {
    /// It succeeded (for a lookup: the function was found).
    Done,
    /// It failed, with this message.
    Failed(String),
    /// The source did not parse, with this message.
    SyntaxFailed(String),
}

/// The kinds of script errors.
#[derive(Clone, Copy, Debug, PartialEq, Eq, Structural)]
pub enum ScriptErrorKind {
    Load,
    Parse,
    Contract,
    Eval,
}

/// A script error as its kind and message.
pub open spec fn error_view(e: ScriptError) -> (ScriptErrorKind, Seq<char>) {
    match e {
        ScriptError::Load(t) => (ScriptErrorKind::Load, t@),
        ScriptError::Parse(t) => (ScriptErrorKind::Parse, t@),
        ScriptError::Contract(t) => (ScriptErrorKind::Contract, t@),
        ScriptError::Eval(t) => (ScriptErrorKind::Eval, t@),
    }
}

/// The next stage, or the error, as kind and message.
pub open spec fn step_view(r: Result<ReloadStage, ScriptError>) -> Result<ReloadStage, (ScriptErrorKind, Seq<char>)> {
    match r {
        Ok(s) => Ok(s),
        Err(e) => Err(error_view(e)),
    }
}

/// The message of a failed call.
pub open spec fn failure_text(o: StepResult) -> Seq<char> {
    match o {
        StepResult::Done => Seq::empty(),
        StepResult::Failed(t) => t@,
        StepResult::SyntaxFailed(t) => t@,
    }
}

/// What follows a call of `stage` that ended with `o`. Clearing and calling
/// `reload()` fail with an evaluation error; running the source fails with
/// a parse error when it did not parse, else an evaluation error; a missing
/// `reload` or `frame` is a contract error; a missing `midi` is no error.
pub open spec fn step_spec(stage: ReloadStage, o: StepResult) -> Result<ReloadStage, (ScriptErrorKind, Seq<char>)> {
    match stage {
        ReloadStage::ClearReload => if o is Done {
            Ok(ReloadStage::ClearFrame)
        } else {
            Err((ScriptErrorKind::Eval, failure_text(o)))
        },
        ReloadStage::ClearFrame => if o is Done {
            Ok(ReloadStage::Evaluate)
        } else {
            Err((ScriptErrorKind::Eval, failure_text(o)))
        },
        ReloadStage::Evaluate => match o {
            StepResult::Done => Ok(ReloadStage::FindReload),
            StepResult::SyntaxFailed(t) => Err((ScriptErrorKind::Parse, t@)),
            StepResult::Failed(t) => Err((ScriptErrorKind::Eval, t@)),
        },
        ReloadStage::FindReload => if o is Done {
            Ok(ReloadStage::CallReload)
        } else {
            Err((ScriptErrorKind::Contract, "Requires reload() fn"@))
        },
        ReloadStage::CallReload => if o is Done {
            Ok(ReloadStage::FindFrame)
        } else {
            Err((ScriptErrorKind::Eval, failure_text(o)))
        },
        ReloadStage::FindFrame => if o is Done {
            Ok(ReloadStage::FindMidi)
        } else {
            Err((ScriptErrorKind::Contract, "Requires frame() fn"@))
        },
        ReloadStage::FindMidi => Ok(ReloadStage::Finished),
        ReloadStage::Finished => Ok(ReloadStage::Finished),
    }
}

/// Where a reload stands after calls that ended with `os`, starting from
/// clearing `reload`; the first error ends it.
pub open spec fn reload_run(os: Seq<StepResult>) -> Result<ReloadStage, (ScriptErrorKind, Seq<char>)>
    decreases os.len(),
{
    if os.len() == 0 {
        Ok(ReloadStage::ClearReload)
    } else {
        match reload_run(os.drop_last()) {
            Ok(s) => step_spec(s, os.last()),
            Err(e) => Err(e),
        }
    }
}

fn failure_string(o: StepResult) -> (r: String)
    ensures
        r@ == failure_text(o),
{
    match o {
        StepResult::Done => String::new(),
        StepResult::Failed(t) => t,
        StepResult::SyntaxFailed(t) => t,
    }
}

/// Decides what follows a call of `stage` that ended with `o`.
pub fn next_reload_step(stage: ReloadStage, o: StepResult) -> (r: Result<ReloadStage, ScriptError>)
    ensures
        step_view(r) == step_spec(stage, o),
{
    proof {
        reveal_strlit("Requires reload() fn");
        reveal_strlit("Requires frame() fn");
    }
    let done = match o {
        StepResult::Done => true,
        _ => false,
    };
    match stage {
        ReloadStage::ClearReload => if done {
            Ok(ReloadStage::ClearFrame)
        } else {
            Err(ScriptError::Eval(failure_string(o)))
        },
        ReloadStage::ClearFrame => if done {
            Ok(ReloadStage::Evaluate)
        } else {
            Err(ScriptError::Eval(failure_string(o)))
        },
        ReloadStage::Evaluate => match o {
            StepResult::Done => Ok(ReloadStage::FindReload),
            StepResult::SyntaxFailed(t) => Err(ScriptError::Parse(t)),
            StepResult::Failed(t) => Err(ScriptError::Eval(t)),
        },
        ReloadStage::FindReload => if done {
            Ok(ReloadStage::CallReload)
        } else {
            Err(ScriptError::Contract(String::from_str("Requires reload() fn")))
        },
        ReloadStage::CallReload => if done {
            Ok(ReloadStage::FindFrame)
        } else {
            Err(ScriptError::Eval(failure_string(o)))
        },
        ReloadStage::FindFrame => if done {
            Ok(ReloadStage::FindMidi)
        } else {
            Err(ScriptError::Contract(String::from_str("Requires frame() fn")))
        },
        ReloadStage::FindMidi => Ok(ReloadStage::Finished),
        ReloadStage::Finished => Ok(ReloadStage::Finished),
    }
}

/// A reload that gets past clearing runs the source only after both
/// entry points were cleared; then a source that does not parse gives a
/// parse error, a source without `reload` or without `frame` a contract
/// error, and an error raised by `reload()` an evaluation error.
pub proof fn lemma_reload_error_kinds(os: Seq<StepResult>)
    requires
        os.len() >= 3,
        os[0] is Done,
        os[1] is Done,
    ensures
        reload_run(os.take(2)) == Ok::<ReloadStage, (ScriptErrorKind, Seq<char>)>(ReloadStage::Evaluate),
        os[2] is SyntaxFailed ==> reload_run(os.take(3)) == Err::<ReloadStage, (ScriptErrorKind, Seq<char>)>((ScriptErrorKind::Parse, failure_text(os[2]))),
        os[2] is Failed ==> reload_run(os.take(3)) == Err::<ReloadStage, (ScriptErrorKind, Seq<char>)>((ScriptErrorKind::Eval, failure_text(os[2]))),
        os.len() >= 4 && os[2] is Done && !(os[3] is Done) ==> reload_run(os.take(4)) == Err::<ReloadStage, (ScriptErrorKind, Seq<char>)>((ScriptErrorKind::Contract, "Requires reload() fn"@)),
        os.len() >= 5 && os[2] is Done && os[3] is Done && !(os[4] is Done) ==> reload_run(os.take(5)) == Err::<ReloadStage, (ScriptErrorKind, Seq<char>)>((ScriptErrorKind::Eval, failure_text(os[4]))),
        os.len() >= 6 && os[2] is Done && os[3] is Done && os[4] is Done && !(os[5] is Done) ==> reload_run(os.take(6)) == Err::<ReloadStage, (ScriptErrorKind, Seq<char>)>((ScriptErrorKind::Contract, "Requires frame() fn"@)),
{
    let k0 = os.take(0);
    let k1 = os.take(1);
    let k2 = os.take(2);
    let k3 = os.take(3);
    assert(k0.len() == 0);
    assert(reload_run(k0) == Ok::<ReloadStage, (ScriptErrorKind, Seq<char>)>(ReloadStage::ClearReload));
    assert(k1.len() == 1);
    assert(k1.drop_last() =~= k0 && k1.last() == os[0]);
    assert(reload_run(k1) == Ok::<ReloadStage, (ScriptErrorKind, Seq<char>)>(ReloadStage::ClearFrame));
    assert(k2.drop_last() =~= k1 && k2.last() == os[1]);
    assert(reload_run(k2) == Ok::<ReloadStage, (ScriptErrorKind, Seq<char>)>(ReloadStage::Evaluate));
    assert(k3.drop_last() =~= k2 && k3.last() == os[2]);
    if os.len() >= 4 && os[2] is Done {
        let k4 = os.take(4);
        assert(reload_run(k3) == Ok::<ReloadStage, (ScriptErrorKind, Seq<char>)>(ReloadStage::FindReload));
        assert(k4.drop_last() =~= k3 && k4.last() == os[3]);
        if os.len() >= 5 && os[3] is Done {
            let k5 = os.take(5);
            assert(reload_run(k4) == Ok::<ReloadStage, (ScriptErrorKind, Seq<char>)>(ReloadStage::CallReload));
            assert(k5.drop_last() =~= k4 && k5.last() == os[4]);
            if os.len() >= 6 && os[4] is Done {
                let k6 = os.take(6);
                assert(reload_run(k5) == Ok::<ReloadStage, (ScriptErrorKind, Seq<char>)>(ReloadStage::FindFrame));
                assert(k6.drop_last() =~= k5 && k6.last() == os[5]);
            }
        }
    }
}

} // verus!
