//! Compile batches: each distinct source is compiled once per batch, and a
//! pipeline is registered only when both of its stages compiled, whatever
//! became of the others.
use crate::handles::Shader;
use crate::pipeline::{PipelineModel, PrimitiveKind, UniquePipeline};
use crate::tracker::jobs_view;
use vstd::prelude::*;

verus! {

/// Shader stage of a source file.
#[derive(Clone, Copy, Debug, PartialEq, Eq, Hash, Structural)]
pub enum Stage {
    Vertex,
    Fragment,
}

/// One source file to compile, for one stage.
#[derive(Debug)]
pub struct CompileUnit {
    pub path: String,
    pub stage: Stage,
}

pub open spec fn units_view(units: Seq<CompileUnit>) -> Seq<(Seq<char>, Stage)> {
    units.map_values(|u: CompileUnit| (u.path@, u.stage))
}

/// The vertex unit of a pipeline.
pub open spec fn vertex_unit(d: PipelineModel) -> (Seq<char>, Stage) {
    (d.vertex, Stage::Vertex)
}

/// The fragment unit of a pipeline.
pub open spec fn fragment_unit(d: PipelineModel) -> (Seq<char>, Stage) {
    (d.fragment, Stage::Fragment)
}

/// The units that the pipelines of a batch need.
pub open spec fn needed_units(jobs: Seq<(Shader, PipelineModel)>) -> Set<(Seq<char>, Stage)> {
    Set::new(
        |u: (Seq<char>, Stage)|
            exists|i: int|
                0 <= i < jobs.len() && (u == vertex_unit(#[trigger] jobs[i].1) || u == fragment_unit(
                    jobs[i].1,
                )),
    )
}

/// A pipeline to register: its handle, where its two compiled stages stand
/// in the batch's units, and its primitive kind.
#[derive(Clone, Copy, Debug, PartialEq, Eq, Structural)]
pub struct Registration {
    pub shader: Shader,
    pub vertex_unit: usize,
    pub fragment_unit: usize,
    pub primitive: PrimitiveKind,
}

/// Where `u` first stands in `units`, if it does.
pub open spec fn first_index(units: Seq<(Seq<char>, Stage)>, u: (Seq<char>, Stage)) -> Option<int> {
    if exists|k: int| 0 <= k < units.len() && units[k] == u {
        Some(choose|k: int| 0 <= k < units.len() && units[k] == u && forall|j: int| 0 <= j < k ==> units[j] != u)
    } else {
        None
    }
}

/// Whether `u` is among `units` and its first occurrence compiled.
pub open spec fn compiled(units: Seq<(Seq<char>, Stage)>, ok: Seq<bool>, u: (Seq<char>, Stage)) -> bool {
    match first_index(units, u) {
        Some(k) => k < ok.len() && ok[k],
        None => false,
    }
}

/// The registrations of a batch: one for each pipeline, in order, whose two
/// stages both compiled.
pub open spec fn planned(
    jobs: Seq<(Shader, PipelineModel)>,
    units: Seq<(Seq<char>, Stage)>,
    ok: Seq<bool>,
) -> Seq<Registration>
    decreases jobs.len(),
{
    if jobs.len() == 0 {
        Seq::empty()
    } else {
        let prev = planned(jobs.drop_last(), units, ok);
        let d = jobs.last().1;
        if compiled(units, ok, vertex_unit(d)) && compiled(units, ok, fragment_unit(d)) {
            prev.push(
                Registration {
                    shader: jobs.last().0,
                    vertex_unit: first_index(units, vertex_unit(d))->Some_0 as usize,
                    fragment_unit: first_index(units, fragment_unit(d))->Some_0 as usize,
                    primitive: d.primitive,
                },
            )
        } else {
            prev
        }
    }
}

/// Where the unit (`path`, `stage`) first stands in `units`.
fn find_unit(units: &Vec<CompileUnit>, path: &String, stage: Stage) -> (r: Option<usize>)
    ensures
        match r {
            Some(k) => first_index(units_view(units@), (path@, stage)) == Some(k as int),
            None => first_index(units_view(units@), (path@, stage)) is None,
        },
{
    let ghost uv = units_view(units@);
    let mut i: usize = 0;
    while i < units.len()
        invariant
            uv == units_view(units@),
            i <= units.len(),
            forall|j: int| 0 <= j < i ==> uv[j] != (path@, stage),
        decreases units.len() - i,
    {
        if units[i].stage == stage && units[i].path == *path {
            proof {
                assert(uv[i as int] == (path@, stage));
                let k = choose|k: int| 0 <= k < uv.len() && uv[k] == (path@, stage) && forall|j: int| 0 <= j < k ==> uv[j] != (path@, stage);
                assert(k == i);
            }
            return Some(i);
        }
        proof {
            assert(uv[i as int] == (units@[i as int].path@, units@[i as int].stage));
        }
        i = i + 1;
    }
    None
}

/// Appends (`path`, `stage`) to `units` unless it is there already.
fn add_unit(units: &mut Vec<CompileUnit>, path: &String, stage: Stage)
    requires
        units_view(old(units)@).no_duplicates(),
    ensures
        units_view(final(units)@).no_duplicates(),
        units_view(final(units)@).to_set() == units_view(old(units)@).to_set().insert((path@, stage)),
{
    let ghost before = units_view(units@);
    match find_unit(units, path, stage) {
        Some(k) => {
            proof {
                assert(before.to_set().insert((path@, stage)) =~= before.to_set()) by {
                    assert(before[k as int] == (path@, stage));
                }
            }
        },
        None => {
            units.push(CompileUnit { path: path.clone(), stage });
            proof {
                assert(units_view(units@) =~= before.push((path@, stage)));
                before.lemma_push_to_set_commute((path@, stage));
                assert(!before.contains((path@, stage)));
                assert(units_view(units@).no_duplicates()) by {
                    let after = units_view(units@);
                    assert forall|a: int, b: int| 0 <= a < b < after.len() implies after[a] != after[b] by {
                        assert(after[a] == before[a]);
                        if b < before.len() {
                            assert(after[b] == before[b]);
                        }
                    }
                }
            }
        },
    }
}

/// The distinct source units that a batch needs, each once: a source used
/// by many pipelines, for the same stage, is compiled once.
pub fn compile_units(jobs: &Vec<(Shader, UniquePipeline)>) -> (r: Vec<CompileUnit>)
    ensures
        units_view(r@).no_duplicates(),
        units_view(r@).to_set() == needed_units(jobs_view(jobs@)),
{
    let ghost jv = jobs_view(jobs@);
    let mut units: Vec<CompileUnit> = Vec::new();
    let mut i: usize = 0;
    proof {
        assert(units_view(units@).to_set() =~= needed_units(jv.subrange(0, 0)));
    }
    while i < jobs.len()
        invariant
            jv == jobs_view(jobs@),
            i <= jobs.len(),
            units_view(units@).no_duplicates(),
            units_view(units@).to_set() == needed_units(jv.subrange(0, i as int)),
        decreases jobs.len() - i,
    {
        add_unit(&mut units, &jobs[i].1.vertex_path, Stage::Vertex);
        add_unit(&mut units, &jobs[i].1.fragment_path, Stage::Fragment);
        proof {
            let pre = jv.subrange(0, i as int);
            let next = jv.subrange(0, i + 1);
            let d = jv[i as int].1;
            assert(needed_units(next) =~= needed_units(pre).insert(vertex_unit(d)).insert(fragment_unit(d))) by {
                assert forall|u: (Seq<char>, Stage)| needed_units(next).contains(u) implies needed_units(pre).insert(vertex_unit(d)).insert(fragment_unit(d)).contains(u) by {
                    let k = choose|k: int| 0 <= k < next.len() && (u == vertex_unit(#[trigger] next[k].1) || u == fragment_unit(next[k].1));
                    if k < i {
                        assert(pre[k] == next[k]);
                    }
                }
                assert forall|u: (Seq<char>, Stage)| needed_units(pre).contains(u) implies needed_units(next).contains(u) by {
                    let k = choose|k: int| 0 <= k < pre.len() && (u == vertex_unit(#[trigger] pre[k].1) || u == fragment_unit(pre[k].1));
                    assert(pre[k] == next[k]);
                }
                assert(next[i as int] == jv[i as int]);
                assert(needed_units(next).contains(vertex_unit(d)));
                assert(needed_units(next).contains(fragment_unit(d)));
            }
        }
        i = i + 1;
    }
    proof {
        assert(jv.subrange(0, jobs.len() as int) =~= jv);
    }
    units
}

/// The pipelines of a batch to register, given which units compiled
/// (`ok[k]` for `units[k]`): each pipeline whose two stages compiled, in
/// order. A unit that failed keeps out only the pipelines that use it.
pub fn assemble_jobs(jobs: &Vec<(Shader, UniquePipeline)>, units: &Vec<CompileUnit>, ok: &Vec<bool>) -> (r: Vec<Registration>)
    ensures
        r@ == planned(jobs_view(jobs@), units_view(units@), ok@),
{
    let ghost jv = jobs_view(jobs@);
    let ghost uv = units_view(units@);
    let mut out: Vec<Registration> = Vec::new();
    let mut i: usize = 0;
    while i < jobs.len()
        invariant
            jv == jobs_view(jobs@),
            uv == units_view(units@),
            i <= jobs.len(),
            out@ == planned(jv.subrange(0, i as int), uv, ok@),
        decreases jobs.len() - i,
    {
        let v = find_unit(units, &jobs[i].1.vertex_path, Stage::Vertex);
        let f = find_unit(units, &jobs[i].1.fragment_path, Stage::Fragment);
        proof {
            let next = jv.subrange(0, i + 1);
            assert(next.drop_last() =~= jv.subrange(0, i as int));
            assert(next.last() == jv[i as int]);
        }
        match (v, f) {
            (Some(vk), Some(fk)) => {
                if vk < ok.len() && fk < ok.len() && ok[vk] && ok[fk] {
                    out.push(
                        Registration {
                            shader: jobs[i].0,
                            vertex_unit: vk,
                            fragment_unit: fk,
                            primitive: jobs[i].1.primitive,
                        },
                    );
                }
            },
            _ => {},
        }
        i = i + 1;
    }
    proof {
        assert(jv.subrange(0, jobs.len() as int) =~= jv);
    }
    out
}

/// Whatever failed elsewhere in a batch, a pipeline whose two stages
/// compiled is registered.
pub proof fn lemma_failure_isolated(
    jobs: Seq<(Shader, PipelineModel)>,
    units: Seq<(Seq<char>, Stage)>,
    ok: Seq<bool>,
    i: int,
)
    requires
        0 <= i < jobs.len(),
        compiled(units, ok, vertex_unit(jobs[i].1)),
        compiled(units, ok, fragment_unit(jobs[i].1)),
    ensures
        exists|k: int|
            0 <= k < planned(jobs, units, ok).len() && (#[trigger] planned(jobs, units, ok)[k]).shader
                == jobs[i].0 && planned(jobs, units, ok)[k].primitive == jobs[i].1.primitive,
    decreases jobs.len(),
{
    let p = planned(jobs, units, ok);
    if i == jobs.len() - 1 {
        assert(p.last().shader == jobs[i].0);
        assert(p[p.len() - 1] == p.last());
    } else {
        lemma_failure_isolated(jobs.drop_last(), units, ok, i);
        let q = planned(jobs.drop_last(), units, ok);
        let k = choose|k: int| 0 <= k < q.len() && (#[trigger] q[k]).shader == jobs[i].0 && q[k].primitive == jobs[i].1.primitive;
        assert(p[k] == q[k]);
    }
}

} // verus!
