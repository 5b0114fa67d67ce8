//! Decisions of one orchestrator tick: how console commands and file
//! changes turn into at most one reload, shader invalidations and an exit
//! request, and how controller events fold into controller values.
use crate::console::ConsoleMsg;
use crate::handles::Shader;
use crate::pipeline::{PipelineModel, UniquePipeline};
use crate::runtime::MidiUpdate;
use crate::tracker::{jobs_view, ShaderUpdateCalculator};
use vstd::prelude::*;
use vstd::string::*;

verus! {

/// The extension of a path, as `Path::extension` reads it.
pub uninterp spec fn extension_of(p: Seq<char>) -> Option<Seq<char>>;

/// Relies on `std::path::Path::extension`: the result depends on the
/// characters of the path alone. A `&str` path is valid UTF-8, and so is
/// any part of it.
#[verifier::external_body]
fn path_extension(p: &str) -> (r: Option<String>)
    ensures
        match r {
            Some(e) => extension_of(p@) == Some(e@),
            None => extension_of(p@) is None,
        },
{
    std::path::Path::new(p).extension().and_then(|e| e.to_str()).map(|e| e.to_string())
}

/// What a changed file is to the runtime.
#[derive(Clone, Copy, Debug, PartialEq, Eq, Structural)]
pub enum ChangeKind {
    /// A script (`.lua`): the script is reloaded.
    Script,
    /// A shader source (`.vert`, `.frag`): its pipelines are recompiled.
    Shader,
    Other,
}

pub open spec fn kind_of_extension(e: Option<Seq<char>>) -> ChangeKind {
    match e {
        Some(x) => if x == "lua"@ {
            ChangeKind::Script
        } else if x == "vert"@ || x == "frag"@ {
            ChangeKind::Shader
        } else {
            ChangeKind::Other
        },
        None => ChangeKind::Other,
    }
}

/// Classifies a file by its extension alone.
pub fn classify_extension(e: &Option<String>) -> (r: ChangeKind)
    ensures
        r == kind_of_extension(
            match e {
                Some(x) => Some(x@),
                None => None,
            },
        ),
{
    match e {
        Some(x) => {
            if *x == String::from_str("lua") {
                ChangeKind::Script
            } else if *x == String::from_str("vert") || *x == String::from_str("frag") {
                ChangeKind::Shader
            } else {
                ChangeKind::Other
            }
        },
        None => ChangeKind::Other,
    }
}

/// Classifies a changed path by its extension.
pub fn classify_path(p: &String) -> (r: ChangeKind)
    ensures
        r == kind_of_extension(extension_of(p@)),
{
    let e = path_extension(p.as_str());
    classify_extension(&e)
}

/// What a tick does after draining its sources.
pub struct TickPlan {
    /// Reload the script once this tick.
    pub reload: bool,
    /// Ask the host to exit.
    pub exit: bool,
    /// Changed shader sources, in the order they were reported.
    pub touched: Vec<String>,
}

/// The changed shader sources among `paths`, in order.
pub open spec fn shader_paths(paths: Seq<Seq<char>>) -> Seq<Seq<char>>
    decreases paths.len(),
{
    if paths.len() == 0 {
        Seq::empty()
    } else if kind_of_extension(extension_of(paths.last())) == ChangeKind::Shader {
        shader_paths(paths.drop_last()).push(paths.last())
    } else {
        shader_paths(paths.drop_last())
    }
}

pub open spec fn strings_view(v: Seq<String>) -> Seq<Seq<char>> {
    v.map_values(|s: String| s@)
}

/// Whether a reload was asked for this tick: by `/reload`, or by a change
/// of a script file.
pub open spec fn reload_requested(console: Seq<ConsoleMsg>, changed: Seq<Seq<char>>) -> bool {
    (exists|i: int| 0 <= i < console.len() && console[i] == ConsoleMsg::Reload) || (exists|i: int|
        0 <= i < changed.len() && kind_of_extension(extension_of(changed[i])) == ChangeKind::Script)
}

/// Plans one tick from the console commands and the changed paths drained
/// this tick. Any number of reload requests collapse into one reload;
/// expressions and `/reset` are not part of the plan: they run at once, in
/// the order they came.
pub fn plan_tick(console: &Vec<ConsoleMsg>, changed: &Vec<String>) -> (r: TickPlan)
    ensures
        r.reload == reload_requested(console@, strings_view(changed@)),
        r.exit == (exists|i: int| 0 <= i < console@.len() && console@[i] == ConsoleMsg::Exit),
        strings_view(r.touched@) == shader_paths(strings_view(changed@)),
{
    let mut reload = false;
    let mut exit = false;
    let mut i: usize = 0;
    while i < console.len()
        invariant
            i <= console.len(),
            reload == (exists|k: int| 0 <= k < i && console@[k] == ConsoleMsg::Reload),
            exit == (exists|k: int| 0 <= k < i && console@[k] == ConsoleMsg::Exit),
        decreases console.len() - i,
    {
        match &console[i] {
            ConsoleMsg::Reload => {
                reload = true;
            },
            ConsoleMsg::Exit => {
                exit = true;
            },
            _ => {},
        }
        i = i + 1;
    }
    let ghost by_console = reload;
    let mut script_changed = false;
    let mut touched: Vec<String> = Vec::new();
    let mut j: usize = 0;
    while j < changed.len()
        invariant
            j <= changed.len(),
            script_changed == (exists|k: int|
                0 <= k < j && kind_of_extension(extension_of(changed@[k]@)) == ChangeKind::Script),
            strings_view(touched@) == shader_paths(strings_view(changed@.subrange(0, j as int))),
        decreases changed.len() - j,
    {
        let kind = classify_path(&changed[j]);
        proof {
            let pre = strings_view(changed@.subrange(0, j as int));
            let next = strings_view(changed@.subrange(0, j + 1));
            assert(next.drop_last() =~= pre);
            assert(next.last() == changed@[j as int]@);
        }
        match kind {
            ChangeKind::Script => {
                script_changed = true;
            },
            ChangeKind::Shader => {
                let ghost before = touched@;
                touched.push(changed[j].clone());
                proof {
                    assert(strings_view(touched@) =~= strings_view(before).push(changed@[j as int]@));
                }
            },
            ChangeKind::Other => {},
        }
        j = j + 1;
    }
    proof {
        assert(changed@.subrange(0, changed.len() as int) =~= changed@);
        let cv = strings_view(changed@);
        if script_changed {
            let k = choose|k: int|
                0 <= k < changed.len() && kind_of_extension(extension_of(changed@[k]@)) == ChangeKind::Script;
            assert(cv[k] == changed@[k]@);
        }
        if exists|k: int| 0 <= k < cv.len() && kind_of_extension(extension_of(cv[k])) == ChangeKind::Script {
            let k = choose|k: int| 0 <= k < cv.len() && kind_of_extension(extension_of(cv[k])) == ChangeKind::Script;
            assert(cv[k] == changed@[k]@);
        }
    }
    TickPlan { reload: reload || script_changed, exit, touched }
}

/// The controller values after the most recent of `events`: a message of at
/// least three bytes whose second byte names one of the three values sets
/// that value to its third byte; anything else changes nothing.
pub open spec fn folded_controls(vals: Seq<u32>, events: Seq<MidiUpdate>) -> Seq<u32> {
    if events.len() == 0 {
        vals
    } else {
        let m = events.last().message@;
        if m.len() >= 3 && (m[1] as int) < 3 {
            vals.update(m[1] as int, m[2] as u32)
        } else {
            vals
        }
    }
}

/// Folds the controller events drained this tick into the controller
/// values: only the most recent event counts.
pub fn fold_midi(vals: [u32; 3], events: &Vec<MidiUpdate>) -> (r: [u32; 3])
    ensures
        r@ == folded_controls(vals@, events@),
{
    if events.len() == 0 {
        return vals;
    }
    let m = &events[events.len() - 1].message;
    if m.len() >= 3 && m[1] < 3 {
        let v = m[2] as u32;
        let r: [u32; 3] = if m[1] == 0 {
            [v, vals[1], vals[2]]
        } else if m[1] == 1 {
            [vals[0], v, vals[2]]
        } else {
            [vals[0], vals[1], v]
        };
        assert(r@ =~= vals@.update(m@[1] as int, v));
        r
    } else {
        vals
    }
}

/// The descriptors after registering `declared`, in order, on top of `m`.
pub open spec fn with_declared(
    m: Map<Shader, PipelineModel>,
    declared: Seq<(Shader, PipelineModel)>,
) -> Map<Shader, PipelineModel>
    decreases declared.len(),
{
    if declared.len() == 0 {
        m
    } else {
        with_declared(m, declared.drop_last()).insert(declared.last().0, declared.last().1)
    }
}

/// The handles of a batch.
pub open spec fn handles_of(jobs: Seq<(Shader, PipelineModel)>) -> Seq<Shader> {
    jobs.map_values(|j: (Shader, PipelineModel)| j.0)
}

/// Registers the shaders the script declared since the last tick, then
/// takes the batch to compile: every handle pending before, and every
/// declared one, each once with its current descriptor.
pub fn shader_jobs(tracker: &mut ShaderUpdateCalculator, declared: &Vec<(Shader, UniquePipeline)>) -> (r: Vec<(Shader, UniquePipeline)>)
    ensures
        final(tracker).pipelines() == with_declared(old(tracker).pipelines(), jobs_view(declared@)),
        final(tracker).pending() == Set::<Shader>::empty(),
        handles_of(jobs_view(r@)).no_duplicates(),
        handles_of(jobs_view(r@)).to_set() == old(tracker).pending().union(handles_of(jobs_view(declared@)).to_set()),
        forall|i: int|
            0 <= i < r@.len() ==> #[trigger] jobs_view(r@)[i].1 == final(tracker).pipelines()[r@[i].0],
{
    let ghost dv = jobs_view(declared@);
    let mut i: usize = 0;
    proof {
        assert(handles_of(dv.subrange(0, 0)).to_set() =~= Set::<Shader>::empty());
        assert(old(tracker).pending().union(Set::<Shader>::empty()) =~= old(tracker).pending());
    }
    while i < declared.len()
        invariant
            dv == jobs_view(declared@),
            i <= declared.len(),
            tracker.pipelines() == with_declared(old(tracker).pipelines(), dv.subrange(0, i as int)),
            tracker.pending() == old(tracker).pending().union(handles_of(dv.subrange(0, i as int)).to_set()),
        decreases declared.len() - i,
    {
        let h = declared[i].0;
        let u = declared[i].1.clone();
        tracker.track_shader(h, u);
        proof {
            let pre = dv.subrange(0, i as int);
            let next = dv.subrange(0, i + 1);
            assert(next.drop_last() =~= pre);
            assert(next.last() == dv[i as int]);
            assert(handles_of(next) =~= handles_of(pre).push(h));
            handles_of(pre).lemma_push_to_set_commute(h);
            assert(tracker.pending() =~= old(tracker).pending().union(handles_of(next).to_set()));
        }
        i = i + 1;
    }
    proof {
        assert(dv.subrange(0, declared.len() as int) =~= dv);
    }
    let r = tracker.updates();
    proof {
        let jv = jobs_view(r@);
        assert forall|i: int| 0 <= i < r@.len() implies #[trigger] jobs_view(r@)[i].1 == tracker.pipelines()[r@[i].0] by {
            assert(jv[i].0 == r@[i].0);
        }
    }
    r
}

/// However many `/reload` commands and script changes arrive in one tick,
/// the plan holds a single reload, and it holds one as soon as there is any.
pub proof fn lemma_reload_collapses(console: Seq<ConsoleMsg>, changed: Seq<Seq<char>>, i: int, j: int)
    requires
        0 <= i < console.len(),
        console[i] == ConsoleMsg::Reload,
        0 <= j < changed.len(),
        kind_of_extension(extension_of(changed[j])) == ChangeKind::Script,
    ensures
        reload_requested(console, changed),
{
}

} // verus!
