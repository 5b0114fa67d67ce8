use micro_engine::console::{parse_command, ConsoleMsg};
use micro_engine::orchestrator::{classify_extension, classify_path, fold_midi, plan_tick, ChangeKind};
use micro_engine::runtime::MidiUpdate;

#[test]
fn parse_reserved_commands() {
    assert_eq!(parse_command("/exit".to_string()), ConsoleMsg::Exit);
    assert_eq!(parse_command("/reload".to_string()), ConsoleMsg::Reload);
    assert_eq!(parse_command("/reset".to_string()), ConsoleMsg::Reset);
    assert_eq!(parse_command("print(1)".to_string()), ConsoleMsg::Command("print(1)".to_string()));
    assert_eq!(parse_command("/reload ".to_string()), ConsoleMsg::Command("/reload ".to_string()));
}

#[test]
fn one_reload_for_many_requests() {
    let console = vec![ConsoleMsg::Reload];
    let changed = vec!["/proj/scene.lua".to_string(), "/proj/scene.lua".to_string()];
    let plan = plan_tick(&console, &changed);
    assert!(plan.reload);
    assert!(!plan.exit);
    assert!(plan.touched.is_empty());
}

#[test]
fn plan_classifies_changes() {
    let console = vec![ConsoleMsg::Command("x = 1".to_string()), ConsoleMsg::Exit];
    let changed = vec![
        "/p/a.vert".to_string(),
        "/p/readme.txt".to_string(),
        "/p/b.frag".to_string(),
        "/p/noext".to_string(),
    ];
    let plan = plan_tick(&console, &changed);
    assert!(!plan.reload);
    assert!(plan.exit);
    assert_eq!(plan.touched, vec!["/p/a.vert".to_string(), "/p/b.frag".to_string()]);
}

#[test]
fn empty_tick_plans_nothing() {
    let plan = plan_tick(&vec![], &vec![]);
    assert!(!plan.reload && !plan.exit && plan.touched.is_empty());
}

#[test]
fn classify_by_extension() {
    assert_eq!(classify_path(&"/a/b/scene.lua".to_string()), ChangeKind::Script);
    assert_eq!(classify_path(&"/a/shader.frag".to_string()), ChangeKind::Shader);
    assert_eq!(classify_path(&"rel/shader.vert".to_string()), ChangeKind::Shader);
    assert_eq!(classify_path(&"/a/.lua".to_string()), ChangeKind::Other);
    assert_eq!(classify_path(&"/a/lua".to_string()), ChangeKind::Other);
    assert_eq!(classify_extension(&Some("frag".to_string())), ChangeKind::Shader);
    assert_eq!(classify_extension(&None), ChangeKind::Other);
}

#[test]
fn latest_midi_event_sets_one_value() {
    let events = vec![
        MidiUpdate { stamp: 1, message: vec![176, 0, 99] },
        MidiUpdate { stamp: 2, message: vec![176, 2, 64] },
    ];
    assert_eq!(fold_midi([1, 2, 3], &events), [1, 2, 64]);
    let out_of_range = vec![MidiUpdate { stamp: 3, message: vec![176, 7, 5] }];
    assert_eq!(fold_midi([1, 2, 3], &out_of_range), [1, 2, 3]);
    let short = vec![MidiUpdate { stamp: 4, message: vec![176] }];
    assert_eq!(fold_midi([1, 2, 3], &short), [1, 2, 3]);
    assert_eq!(fold_midi([4, 5, 6], &vec![]), [4, 5, 6]);
}
