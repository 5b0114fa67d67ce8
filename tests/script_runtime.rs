use micro_engine::draw::{decode_draw_cmd, decode_draw_table, DecodeError, DrawGeometry, RawDrawCmd};
use micro_engine::handles::{HandleAllocator, Mesh, Shader};
use micro_engine::new_data::NewDataLua;
use micro_engine::pipeline::PrimitiveKind;
use micro_engine::runtime::{FreezeReason, MidiUpdate, RawFrame, ScriptError, ScriptRuntime, ScriptState};

fn bits(v: &[f32]) -> Vec<u32> {
    v.iter().map(|x| x.to_bits()).collect()
}

fn good_cmd() -> RawDrawCmd {
    RawDrawCmd { trans: None, mesh: Some(Mesh { key: 0x1_0000_0001 }), n_indices: None, shader: Some(Shader { key: 0x1_0000_0001 }) }
}

fn shaderless_cmd() -> RawDrawCmd {
    RawDrawCmd { trans: None, mesh: Some(Mesh { key: 0x1_0000_0001 }), n_indices: None, shader: None }
}

#[test]
fn add_mesh_then_drain_gives_one_upload() {
    let mut data = NewDataLua::new();
    let v = bits(&[0., 0., 0., 1., 0., 0., 1., 0., 0., 0., 1., 0., 0., 1., 0., 0., 0., 1.]);
    let m = data.add_mesh(v, vec![0, 1, 2]);
    let (meshes, shaders) = data.dump_render_updates();
    assert!(shaders.is_empty());
    assert_eq!(meshes.len(), 1);
    assert_eq!(meshes[0].0, m);
    let (verts, indices) = &meshes[0].1;
    assert_eq!(verts.len(), 3);
    assert_eq!(indices, &vec![0, 1, 2]);
    assert_eq!(verts[1].pos, [1f32.to_bits(), 0, 0]);
    assert_eq!(verts[1].color, [0, 1f32.to_bits(), 0]);
    assert_eq!(verts[2].color, [0, 0, 1f32.to_bits()]);
    let (meshes, _) = data.dump_render_updates();
    assert!(meshes.is_empty());
}

#[test]
fn add_mesh_drops_partial_vertex_and_gives_fresh_handles() {
    let mut data = NewDataLua::new();
    let a = data.add_mesh(vec![1; 8], vec![]);
    let b = data.add_mesh(vec![], vec![]);
    assert_ne!(a, b);
    let (meshes, _) = data.dump_render_updates();
    assert_eq!(meshes.len(), 2);
    assert_eq!(meshes[0].1 .0.len(), 1);
    assert_eq!(meshes[1].1 .0.len(), 0);
}

#[test]
fn track_shader_reads_primitive_names() {
    let mut data = NewDataLua::new();
    assert!(data.track_shader("v".into(), "f".into(), "TRIANGLES".into()).is_ok());
    assert!(data.track_shader("v".into(), "f".into(), "Points".into()).is_ok());
    assert!(data.track_shader("v".into(), "f".into(), "lines".into()).is_ok());
    let (_, shaders) = data.dump_render_updates();
    let kinds: Vec<PrimitiveKind> = shaders.iter().map(|(_, u)| u.primitive).collect();
    assert_eq!(kinds, vec![PrimitiveKind::TriangleList, PrimitiveKind::PointList, PrimitiveKind::LineList]);
}

#[test]
fn track_shader_rejects_unknown_primitive() {
    let mut data = NewDataLua::new();
    let r = data.track_shader("v".into(), "f".into(), "quads".into());
    assert_eq!(r, Err("Unrecognized primitive type quads".to_string()));
    let (_, shaders) = data.dump_render_updates();
    assert!(shaders.is_empty());
}

#[test]
fn primitive_names_are_exact() {
    assert_eq!(PrimitiveKind::from_lowercase_name(&"tri".to_string()), Some(PrimitiveKind::TriangleList));
    assert_eq!(PrimitiveKind::from_lowercase_name(&"TRI".to_string()), None);
    assert_eq!(PrimitiveKind::from_lowercase_name(&"point".to_string()), None);
}

#[test]
fn allocated_handles_are_valid() {
    let mut alloc = HandleAllocator::new();
    let k = alloc.allocate();
    assert!(alloc.is_valid(k));
    assert!(!alloc.is_valid(k + 1));
    let k2 = alloc.allocate();
    assert_ne!(k, k2);
    assert!(alloc.is_valid(k2));
}

#[test]
fn decode_reports_each_defect() {
    assert_eq!(decode_draw_cmd(&shaderless_cmd()), Err(DecodeError::MissingShader));
    let mut c = good_cmd();
    c.trans = Some(vec![0; 15]);
    assert_eq!(decode_draw_cmd(&c), Err(DecodeError::MalformedTransform));
    let mut c = good_cmd();
    c.mesh = None;
    assert_eq!(decode_draw_cmd(&c), Err(DecodeError::MissingGeometry));
}

#[test]
fn decode_geometry_and_transform() {
    let mut c = good_cmd();
    c.n_indices = Some(6);
    c.trans = Some((0..16).collect());
    let d = decode_draw_cmd(&c).unwrap();
    assert_eq!(d.geometry, DrawGeometry::Mesh { mesh: Mesh { key: 0x1_0000_0001 }, max_idx: Some(6) });
    assert_eq!(d.transform.unwrap()[15], 15);
    let mut p = good_cmd();
    p.mesh = None;
    p.n_indices = Some(3);
    assert_eq!(decode_draw_cmd(&p).unwrap().geometry, DrawGeometry::Procedural { n_verts: 3 });
}

#[test]
fn decode_table_stops_at_first_error() {
    let mut bad = good_cmd();
    bad.mesh = None;
    let r = decode_draw_table(&vec![good_cmd(), bad, shaderless_cmd()]);
    assert_eq!(r, Err(DecodeError::MissingGeometry));
    assert_eq!(decode_draw_table(&vec![good_cmd(), good_cmd()]).unwrap().len(), 2);
}

#[test]
fn missing_shader_freezes_until_reload() {
    let mut rt = ScriptRuntime::new();
    assert!(!rt.should_call_frame());
    rt.finish_reload(Ok(false)).unwrap();
    assert!(rt.should_call_frame());

    let out = rt.finish_frame(Ok(RawFrame { cmds: vec![good_cmd(), shaderless_cmd()], anim: 7 }));
    assert!(out.cmds.is_empty());
    assert!(rt.is_frozen());
    assert_eq!(rt.state, ScriptState::Frozen(FreezeReason::Decode(DecodeError::MissingShader)));
    assert!(!rt.should_call_frame());

    let out = rt.finish_frame(Ok(RawFrame { cmds: vec![good_cmd()], anim: 7 }));
    assert!(out.cmds.is_empty());
    assert!(rt.is_frozen());

    let e = ScriptError::Parse("line 1".to_string());
    assert_eq!(rt.finish_reload(Err(e.clone())), Err(e));
    assert!(rt.is_frozen());

    rt.finish_reload(Ok(true)).unwrap();
    assert!(rt.is_ready());
    let out = rt.finish_frame(Ok(RawFrame { cmds: vec![good_cmd()], anim: 7 }));
    assert_eq!(out.cmds.len(), 1);
    assert_eq!(out.anim, 7);
}

#[test]
fn frame_error_freezes() {
    let mut rt = ScriptRuntime::new();
    rt.finish_reload(Ok(false)).unwrap();
    let out = rt.finish_frame(Err("attempt to index nil".to_string()));
    assert!(out.cmds.is_empty());
    assert_eq!(rt.state, ScriptState::Frozen(FreezeReason::Eval("attempt to index nil".to_string())));
}

#[test]
fn failed_first_load_stays_uninitialized() {
    let mut rt = ScriptRuntime::new();
    let e = ScriptError::Contract("Requires frame() fn".to_string());
    assert_eq!(rt.finish_reload(Err(e.clone())), Err(e));
    assert_eq!(rt.state, ScriptState::Uninitialized);
    let out = rt.finish_frame(Ok(RawFrame { cmds: vec![good_cmd()], anim: 1 }));
    assert!(out.cmds.is_empty());
    assert_eq!(rt.state, ScriptState::Uninitialized);
    for e in [ScriptError::Load("x".into()), ScriptError::Eval("y".into())] {
        assert!(rt.finish_reload(Err(e)).is_err());
    }
}

#[test]
fn midi_goes_to_latest_event_only_when_bound() {
    let mut rt = ScriptRuntime::new();
    let events = vec![
        MidiUpdate { stamp: 1, message: vec![176, 0, 10] },
        MidiUpdate { stamp: 2, message: vec![176, 1, 20] },
    ];
    rt.finish_reload(Ok(false)).unwrap();
    assert_eq!(rt.midi_target(&events), None);
    rt.finish_reload(Ok(true)).unwrap();
    assert_eq!(rt.midi_target(&events), Some(1));
    assert_eq!(rt.midi_target(&vec![]), None);
}
