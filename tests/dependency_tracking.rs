use micro_engine::compile::{assemble_jobs, compile_units, Stage};
use micro_engine::handles::Shader;
use micro_engine::new_data::NewDataLua;
use micro_engine::orchestrator::shader_jobs;
use micro_engine::pipeline::{PrimitiveKind, UniquePipeline};
use micro_engine::tracker::ShaderUpdateCalculator;

fn pipeline(v: &str, f: &str, p: PrimitiveKind) -> UniquePipeline {
    UniquePipeline { vertex_path: v.to_string(), fragment_path: f.to_string(), primitive: p }
}

#[test]
fn shared_fragment_source_invalidates_both_pipelines() {
    let mut data = NewDataLua::new();
    let a = data.track_shader("a.vert".to_string(), "b.frag".to_string(), "tri".to_string()).unwrap();
    let b = data.track_shader("c.vert".to_string(), "b.frag".to_string(), "lines".to_string()).unwrap();
    assert_ne!(a, b);
    let (meshes, shaders) = data.dump_render_updates();
    assert!(meshes.is_empty());
    assert_eq!(shaders.len(), 2);

    let mut tracker = ShaderUpdateCalculator::new();
    for (h, u) in shaders {
        tracker.track_shader(h, u);
    }
    let first = tracker.updates();
    assert_eq!(first.len(), 2);

    tracker.shader_file_touched(&"b.frag".to_string());
    let batch = tracker.updates();
    assert_eq!(batch.len(), 2);
    assert!(batch.iter().any(|(h, _)| *h == a));
    assert!(batch.iter().any(|(h, _)| *h == b));

    tracker.shader_file_touched(&"a.vert".to_string());
    let batch = tracker.updates();
    assert_eq!(batch.len(), 1);
    assert_eq!(batch[0].0, a);
    assert_eq!(batch[0].1.primitive, PrimitiveKind::TriangleList);
}

#[test]
fn touches_collect_union_of_dependents() {
    let mut t = ShaderUpdateCalculator::new();
    let s1 = Shader { key: 0x1_0000_0001 };
    let s2 = Shader { key: 0x1_0000_0002 };
    let s3 = Shader { key: 0x1_0000_0003 };
    t.track_shader(s1, pipeline("/s/a.vert", "/s/x.frag", PrimitiveKind::TriangleList));
    t.track_shader(s2, pipeline("/s/b.vert", "/s/x.frag", PrimitiveKind::PointList));
    t.track_shader(s3, pipeline("/s/c.vert", "/s/y.frag", PrimitiveKind::LineList));
    assert_eq!(t.updates().len(), 3);

    t.shader_file_touched(&"/s/c.vert".to_string());
    t.shader_file_touched(&"/s/a.vert".to_string());
    t.shader_file_touched(&"/s/c.vert".to_string());
    t.shader_file_touched(&"/s/untracked.frag".to_string());
    let mut got: Vec<u64> = t.updates().iter().map(|(h, _)| h.key).collect();
    got.sort();
    assert_eq!(got, vec![s1.key, s3.key]);
}

#[test]
fn touching_untracked_path_changes_nothing() {
    let mut t = ShaderUpdateCalculator::new();
    t.shader_file_touched(&"/nowhere.vert".to_string());
    assert!(t.updates().is_empty());
}

#[test]
fn track_adds_handle_once() {
    let mut t = ShaderUpdateCalculator::new();
    let s1 = Shader { key: 0x1_0000_0001 };
    t.track_shader(s1, pipeline("a.vert", "a.frag", PrimitiveKind::TriangleList));
    for k in 2..6u64 {
        t.track_shader(Shader { key: 0x1_0000_0000 | k }, pipeline("b.vert", "b.frag", PrimitiveKind::PointList));
    }
    t.shader_file_touched(&"a.frag".to_string());
    let batch = t.updates();
    assert_eq!(batch.len(), 5);
    assert_eq!(batch.iter().filter(|(h, _)| *h == s1).count(), 1);
}

#[test]
fn retracking_replaces_descriptor() {
    let mut t = ShaderUpdateCalculator::new();
    let s1 = Shader { key: 0x1_0000_0001 };
    t.track_shader(s1, pipeline("old.vert", "old.frag", PrimitiveKind::TriangleList));
    t.track_shader(s1, pipeline("new.vert", "new.frag", PrimitiveKind::LineList));
    let batch = t.updates();
    assert_eq!(batch.len(), 1);
    assert_eq!(batch[0].1.vertex_path, "new.vert");
    t.shader_file_touched(&"old.vert".to_string());
    assert!(t.updates().is_empty());
    t.shader_file_touched(&"new.frag".to_string());
    assert_eq!(t.updates().len(), 1);
}

#[test]
fn second_drain_is_empty() {
    let mut t = ShaderUpdateCalculator::new();
    t.track_shader(Shader { key: 0x1_0000_0001 }, pipeline("a.vert", "a.frag", PrimitiveKind::TriangleList));
    assert_eq!(t.updates().len(), 1);
    assert!(t.updates().is_empty());
}

#[test]
fn failed_unit_skips_only_its_pipelines() {
    let s1 = Shader { key: 0x1_0000_0001 };
    let s2 = Shader { key: 0x1_0000_0002 };
    let s3 = Shader { key: 0x1_0000_0003 };
    let jobs = vec![
        (s1, pipeline("a.vert", "bad.frag", PrimitiveKind::TriangleList)),
        (s2, pipeline("a.vert", "good.frag", PrimitiveKind::PointList)),
        (s3, pipeline("c.vert", "good.frag", PrimitiveKind::LineList)),
    ];
    let units = compile_units(&jobs);
    assert_eq!(units.len(), 4);
    let ok: Vec<bool> = units.iter().map(|u| u.path != "bad.frag").collect();
    let regs = assemble_jobs(&jobs, &units, &ok);
    assert_eq!(regs.len(), 2);
    assert_eq!(regs[0].shader, s2);
    assert_eq!(regs[1].shader, s3);
    assert_eq!(regs[1].primitive, PrimitiveKind::LineList);
    assert_eq!(units[regs[0].vertex_unit].path, "a.vert");
    assert_eq!(units[regs[0].vertex_unit].stage, Stage::Vertex);
    assert_eq!(units[regs[0].fragment_unit].path, "good.frag");
    assert_eq!(units[regs[0].fragment_unit].stage, Stage::Fragment);
}

#[test]
fn same_path_in_both_stages_is_two_units() {
    let jobs = vec![(Shader { key: 0x1_0000_0001 }, pipeline("all.glsl", "all.glsl", PrimitiveKind::TriangleList))];
    let units = compile_units(&jobs);
    assert_eq!(units.len(), 2);
    let regs = assemble_jobs(&jobs, &units, &vec![true, true]);
    assert_eq!(regs.len(), 1);
    assert_ne!(regs[0].vertex_unit, regs[0].fragment_unit);
}

#[test]
fn missing_results_register_nothing() {
    let jobs = vec![(Shader { key: 0x1_0000_0001 }, pipeline("a.vert", "a.frag", PrimitiveKind::TriangleList))];
    let units = compile_units(&jobs);
    assert!(assemble_jobs(&jobs, &units, &vec![true]).is_empty());
    assert!(assemble_jobs(&jobs, &units, &vec![false, false]).is_empty());
}

#[test]
fn declared_shaders_join_pending_batch() {
    let mut t = ShaderUpdateCalculator::new();
    let old = Shader { key: 0x1_0000_0001 };
    t.track_shader(old, pipeline("o.vert", "o.frag", PrimitiveKind::TriangleList));
    t.updates();
    t.shader_file_touched(&"o.frag".to_string());
    let new = Shader { key: 0x1_0000_0002 };
    let jobs = shader_jobs(&mut t, &vec![(new, pipeline("n.vert", "o.frag", PrimitiveKind::PointList))]);
    assert_eq!(jobs.len(), 2);
    assert!(jobs.iter().any(|(h, _)| *h == old));
    assert!(jobs.iter().any(|(h, u)| *h == new && u.primitive == PrimitiveKind::PointList));
    assert!(t.updates().is_empty());
    t.shader_file_touched(&"o.frag".to_string());
    assert_eq!(t.updates().len(), 2);
}
