use research_pipeline::app::{
    make_slug, scan_recents, App, InputSlot, ProjectConfig, ProjectEntry, RecentProject, Screen,
    SlotKind,
};
use research_pipeline::json::{JsonNumber, JsonValue};

fn s(x: &str) -> JsonValue {
    JsonValue::Str(x.to_string())
}

fn n(x: u64) -> JsonValue {
    JsonValue::Number(JsonNumber { as_u64: Some(x), float_text: x.to_string(), whole_text: x.to_string() })
}

fn obj(entries: Vec<(&str, JsonValue)>) -> JsonValue {
    JsonValue::Object {
        entries: entries.into_iter().map(|(k, v)| (k.to_string(), v)).collect(),
        text: String::from("{}"),
    }
}

fn arr(items: Vec<JsonValue>) -> JsonValue {
    JsonValue::Array { items, text: String::from("[]") }
}

fn manifest(name: &str, venue: &str, created: &str) -> JsonValue {
    obj(vec![("name", s(name)), ("venue", s(venue)), ("created", s(created))])
}

#[test]
fn slug_lowercases_and_replaces_non_alphanumerics() {
    assert_eq!(make_slug("My Paper: v2!"), "my-paper--v2-");
    assert_eq!(make_slug("GASLEAD"), "gaslead");
    assert_eq!(make_slug(""), "");
    assert_eq!(make_slug("Über Ärger"), "über-ärger");
}

#[test]
fn slug_never_leaves_the_papers_directory() {
    assert_eq!(make_slug("../up/and\\over.pdf"), "---up-and-over-pdf");
    let mut c = ProjectConfig::default();
    c.set_name("../../etc", "/papers");
    assert!(!c.project_dir.contains(".."));
    assert!(c.project_dir.starts_with("/papers/"));
    assert!(!c.project_dir["/papers/".len()..].contains('/'));
}

#[test]
fn set_name_derives_project_and_output_dirs() {
    let mut c = ProjectConfig::default();
    c.set_name("Leak Study", "/work/papers");
    assert_eq!(c.name, "Leak Study");
    assert_eq!(c.project_dir, std::path::Path::new("/work/papers").join("leak-study").to_string_lossy());
    assert_eq!(c.output_dir, std::path::Path::new("/work/papers").join("leak-study").join("output").to_string_lossy());
    assert_eq!(c.slots.len(), 4);
}

#[test]
fn default_config_has_four_slots_first_two_required() {
    let c = ProjectConfig::default();
    assert_eq!(c.name, "");
    assert_eq!(c.slots.len(), 4);
    let labels: Vec<&str> = c.slots.iter().map(|s| s.label).collect();
    assert_eq!(labels, vec!["Context / Data", "Direction / Novelty", "Target Paper / Template", "Persona"]);
    assert_eq!(c.slots[0].kind, SlotKind::Directory);
    assert_eq!(c.slots[1].kind, SlotKind::Files);
    assert!(c.slots[0].required && c.slots[1].required);
    assert!(!c.slots[2].required && !c.slots[3].required);
    let d = InputSlot::default();
    assert_eq!(d.label, "");
    assert_eq!(d.kind, SlotKind::Files);
    assert!(!d.required && d.files.is_empty() && d.path.is_none());
}

#[test]
fn recents_skip_unreadable_and_sort_latest_first_stably() {
    let entries = vec![
        ProjectEntry { path: "/p/a".into(), manifest: Some(manifest("A", "V1", "2024-01-01")), pipeline_state: None },
        ProjectEntry { path: "/p/b".into(), manifest: None, pipeline_state: None },
        ProjectEntry {
            path: "/p/c".into(),
            manifest: Some(manifest("C", "V2", "2024-03-01")),
            pipeline_state: Some(obj(vec![("stages_done", n(3)), ("stages_total", n(300)), ("status", s("running"))])),
        },
        ProjectEntry { path: "/p/d".into(), manifest: Some(manifest("D", "", "2024-01-01")), pipeline_state: Some(obj(vec![])) },
    ];
    let r = scan_recents(&entries);
    let names: Vec<&str> = r.iter().map(|p| p.name.as_str()).collect();
    assert_eq!(names, vec!["C", "A", "D"]);
    assert_eq!(r[0].stages_done, 3);
    assert_eq!(r[0].stages_total, (300u64 % 256) as u8);
    assert_eq!(r[0].status, "running");
    assert_eq!(r[0].path, "/p/c");
    assert_eq!((r[1].stages_done, r[1].stages_total, r[1].status.as_str()), (0, 8, "new"));
    assert_eq!((r[2].stages_done, r[2].stages_total, r[2].status.as_str()), (0, 8, "new"));
    assert_eq!(r[1].last_activity, "2024-01-01");
}

#[test]
fn manifest_without_fields_reads_as_empty_strings() {
    let entries = vec![ProjectEntry { path: "/x".into(), manifest: Some(obj(vec![("name", n(5))])), pipeline_state: None }];
    let r = scan_recents(&entries);
    assert_eq!(r.len(), 1);
    assert_eq!(r[0].name, "");
    assert_eq!(r[0].venue, "");
    assert_eq!(r[0].last_activity, "");
}

#[test]
fn app_starts_on_select_and_refreshes_recents() {
    let mut app = App::new(&vec![]);
    assert_eq!(app.screen, Screen::ProjectSelect);
    assert!(app.recents.is_empty());
    assert!(!app.should_quit);
    app.refresh_recents(&vec![ProjectEntry { path: "/q".into(), manifest: Some(manifest("Q", "", "1")), pipeline_state: None }]);
    assert_eq!(app.recents.len(), 1);
    assert_eq!(app.recents[0].name, "Q");
}

#[test]
fn refreshing_the_recents_gives_what_a_fresh_scan_gives() {
    let entries = vec![
        ProjectEntry { path: "/a".into(), manifest: Some(manifest("A", "V1", "2025-01-01")), pipeline_state: None },
        ProjectEntry { path: "/b".into(), manifest: None, pipeline_state: None },
        ProjectEntry { path: "/c".into(), manifest: Some(manifest("C", "V2", "2025-03-01")), pipeline_state: None },
        ProjectEntry { path: "/d".into(), manifest: Some(manifest("D", "V3", "2025-01-01")), pipeline_state: None },
    ];
    let mut app = App::new(&vec![]);
    app.refresh_recents(&entries);
    let fresh = scan_recents(&entries);
    let names = |r: &Vec<RecentProject>| r.iter().map(|p| p.name.clone()).collect::<Vec<_>>();
    assert_eq!(names(&app.recents), vec!["C", "A", "D"]);
    assert_eq!(names(&app.recents), names(&fresh));
    for (x, y) in app.recents.iter().zip(fresh.iter()) {
        assert_eq!((&x.path, &x.venue, &x.last_activity, &x.status), (&y.path, &y.venue, &y.last_activity, &y.status));
        assert_eq!((x.stages_done, x.stages_total), (y.stages_done, y.stages_total));
    }
}

#[test]
fn load_project_restores_name_venue_dirs_and_slots() {
    let mut app = App::new(&vec![]);
    let recent = RecentProject {
        name: "R".into(),
        venue: "V".into(),
        path: "/papers/r".into(),
        stages_done: 0,
        stages_total: 8,
        status: "new".into(),
        last_activity: String::new(),
    };
    let m = obj(vec![
        ("name", s("Restored")),
        ("venue", s("IEEE")),
        ("slots", arr(vec![
            obj(vec![("path", s("/data")), ("files", arr(vec![]))]),
            obj(vec![("files", arr(vec![s("/a.md"), n(3), s("/b.md")]))]),
        ])),
    ]);
    app.load_project(&recent, Some(&m));
    assert_eq!(app.config.name, "Restored");
    assert_eq!(app.config.venue, "IEEE");
    assert_eq!(app.config.project_dir, "/papers/r");
    assert_eq!(app.config.output_dir, std::path::Path::new("/papers/r").join("output").to_string_lossy());
    assert_eq!(app.config.slots[0].path.as_deref(), Some("/data"));
    assert_eq!(app.config.slots[1].path, None);
    assert_eq!(app.config.slots[1].files, vec!["/a.md".to_string(), "/b.md".to_string()]);
    assert_eq!(app.config.slots[2].files.len(), 0);
    assert_eq!(app.config.slots[3].label, "Persona");

    let before = app.config.name.clone();
    app.load_project(&recent, None);
    assert_eq!(app.config.name, before);
}

#[test]
fn manifest_records_the_configuration() {
    let mut c = ProjectConfig::default();
    c.set_name("M", "/p");
    c.slots[0].path = Some("/ctx".into());
    c.slots[1].files.push("/d.md".into());
    let m = c.manifest("2024-05-05T10:00:00+00:00");
    assert_eq!(m.name, "M");
    assert_eq!(m.created, "2024-05-05T10:00:00+00:00");
    assert_eq!(m.slots.len(), 4);
    assert_eq!(m.slots[0].kind, "directory");
    assert_eq!(m.slots[1].kind, "files");
    assert_eq!(m.slots[0].path.as_deref(), Some("/ctx"));
    assert_eq!(m.slots[1].files, vec!["/d.md".to_string()]);
    assert!(m.slots[0].required && !m.slots[3].required);
    let dirs = c.dirs_to_create();
    assert_eq!(dirs.len(), 4);
    assert_eq!(dirs[0], c.project_dir);
    assert_eq!(dirs[3], std::path::Path::new(&c.project_dir).join("output").join("figures").to_string_lossy());
}
