use research_pipeline::app::{App, ProjectConfig, RecentProject, Screen};
use research_pipeline::draw::{byte_slice, decimal_string, repeat_char};
use research_pipeline::json::{JsonNumber, JsonValue};
use research_pipeline::keys::{handle_key, KeyCode, KeyOutcome, KeyPress, Screens};
use research_pipeline::pipeline::{parse_data, LoadOutcome, PaperPipelinePlane};
use research_pipeline::pipeline_view::stage_label_of;
use research_pipeline::screen_figures::{build_figures, FigureFile, FigureStage, FiguresState, StageResult};
use research_pipeline::screen_input::{BrowseRequest, DirListing, FileBrowser, InputFilesState};
use research_pipeline::screen_output::{OutputState, ACTION_NEW, ACTION_QUIT, ACTION_REVISE};
use research_pipeline::screen_select::ProjectSelectState;

fn s(x: &str) -> JsonValue {
    JsonValue::Str(x.to_string())
}

fn num(x: u64) -> JsonValue {
    JsonValue::Number(JsonNumber { as_u64: Some(x), float_text: x.to_string(), whole_text: x.to_string() })
}

fn obj(entries: Vec<(&str, JsonValue)>) -> JsonValue {
    JsonValue::Object { entries: entries.into_iter().map(|(k, v)| (k.to_string(), v)).collect(), text: "{}".to_string() }
}

fn arr(items: Vec<JsonValue>) -> JsonValue {
    JsonValue::Array { items, text: "[]".to_string() }
}

fn browser(dir: &str) -> FileBrowser {
    FileBrowser::new(
        dir.to_string(),
        DirListing {
            parent: Some("/home".to_string()),
            dirs: vec!["/home/u/zeta".to_string(), "/home/u/alpha".to_string()],
            files: vec!["/home/u/b.txt".to_string(), "/home/u/a.txt".to_string()],
        },
    )
}

fn recent(name: &str) -> RecentProject {
    RecentProject {
        name: name.to_string(),
        venue: "V".to_string(),
        path: format!("/papers/{}", name),
        stages_done: 1,
        stages_total: 8,
        status: "new".to_string(),
        last_activity: String::new(),
    }
}

fn two_stage_doc() -> JsonValue {
    let stage = |id: &str, procs: usize| {
        obj(vec![
            ("id", s(id)),
            ("processes", arr((0..procs).map(|i| s(&format!("p{}", i))).collect())),
            ("scripts", arr(vec![obj(vec![("file", s("f.py"))])])),
        ])
    };
    obj(vec![
        ("engine_version", s("1")),
        ("pipeline_stages", arr(vec![stage("SCOUT", 2), stage("READ", 0)])),
        ("problem_coverage", obj(vec![("a", num(1)), ("b", num(5)), ("c", num(1)), ("d", s("x"))])),
    ])
}

#[test]
fn select_moves_within_its_rows_and_opens_projects() {
    let mut app = App::new(&vec![]);
    app.recents = vec![recent("one")];
    let mut st = ProjectSelectState::new(&app);
    assert_eq!((st.selected, st.total_items), (0, 3));
    st.move_up();
    assert_eq!(st.selected, 0);
    st.move_down();
    st.move_down();
    st.move_down();
    assert_eq!(st.selected, 2);
    st.move_up();
    st.move_down();
    assert_eq!(st.selected, 2);
    st.enter(&mut app);
    assert_eq!(app.screen, Screen::PipelineExecution);
    assert_eq!(app.config.name, "one");
    let st0 = ProjectSelectState { selected: 1, total_items: 3 };
    st0.enter(&mut app);
    assert_eq!(app.screen, Screen::InputFiles);
    assert_eq!(app.config.name, "");
}

#[test]
fn output_rows_run_from_the_files_to_the_buttons() {
    let mut st = OutputState::new();
    let mut seen = vec![st.selected];
    for _ in 0..8 {
        st.move_down();
        seen.push(st.selected);
    }
    assert_eq!(seen, vec![0, 1, 2, 3, ACTION_REVISE, ACTION_NEW, ACTION_QUIT, ACTION_QUIT, ACTION_QUIT]);
    st.move_up();
    assert_eq!(st.selected, ACTION_NEW);
    st.move_up();
    st.move_up();
    assert_eq!(st.selected, 3);
    let mut app = App::new(&vec![]);
    OutputState { selected: ACTION_REVISE }.enter(&mut app);
    assert_eq!(app.screen, Screen::PipelineExecution);
    app.config.name = "x".to_string();
    OutputState { selected: ACTION_NEW }.enter(&mut app);
    assert_eq!(app.screen, Screen::ProjectSelect);
    assert_eq!(app.config.name, "");
    OutputState { selected: ACTION_QUIT }.enter(&mut app);
    assert!(app.should_quit);
    let before = app.screen.clone();
    OutputState { selected: 2 }.enter(&mut app);
    assert_eq!(app.screen, before);
}

#[test]
fn browser_lists_parent_then_sorted_dirs_then_sorted_files() {
    let b = browser("/home/u");
    assert_eq!(b.entries, vec!["/home", "/home/u/alpha", "/home/u/zeta", "/home/u/a.txt", "/home/u/b.txt"]);
    assert_eq!(b.selected, 0);
    let mut b = b;
    b.move_up();
    assert_eq!(b.selected, 0);
    for _ in 0..10 {
        b.move_down();
    }
    assert_eq!(b.selected, 4);
    assert_eq!(b.selected_path().as_deref(), Some("/home/u/b.txt"));
    b.scroll_offset = 4;
    b.move_up();
    assert_eq!((b.selected, b.scroll_offset), (3, 3));
    b.enter_dir("/home/u/alpha", DirListing { parent: Some("/home/u".to_string()), dirs: vec![], files: vec![] });
    assert_eq!(b.dir, "/home/u/alpha");
    assert_eq!(b.entries, vec!["/home/u"]);
    assert_eq!((b.selected, b.scroll_offset), (0, 0));
}

#[test]
fn input_edits_commits_and_escapes() {
    let mut app = App::new(&vec![]);
    let mut st = InputFilesState::new(browser("/home/u"));
    assert!(matches!(st.enter(&mut app, false), BrowseRequest::Nothing));
    assert!(st.editing);
    st.type_char('a');
    st.type_char('b');
    st.type_char('c');
    st.backspace();
    assert_eq!((st.edit_buf.as_str(), st.cursor_pos), ("ab", 2));
    st.type_char('é');
    assert_eq!((st.edit_buf.as_str(), st.cursor_pos), ("abé", 3));
    st.enter(&mut app, false);
    assert!(!st.editing);
    assert_eq!(app.config.name, st.edit_buf);
    st.escape(&mut app);
    assert_eq!(app.screen, Screen::ProjectSelect);
}

#[test]
fn input_typing_then_backspace_gives_the_text_back() {
    let mut st = InputFilesState::new(browser("/home/u"));
    st.editing = true;
    st.edit_buf = "pap".to_string();
    st.cursor_pos = 3;
    let before = (st.edit_buf.clone(), st.cursor_pos);
    st.type_char('r');
    st.backspace();
    assert_eq!((st.edit_buf.clone(), st.cursor_pos), before);
}

#[test]
fn input_browser_adds_a_file_once_and_enters_directories() {
    let mut app = App::new(&vec![]);
    let mut st = InputFilesState::new(browser("/home/u"));
    st.move_down();
    st.move_down();
    assert_eq!(st.selected, 2);
    assert!(matches!(st.enter(&mut app, false), BrowseRequest::ListCurrentDir));
    assert!(st.browsing);
    st.open_browser(browser("/home/u"));
    st.move_down();
    assert!(matches!(st.enter(&mut app, true), BrowseRequest::ListDir(d) if d == "/home/u/alpha"));
    for _ in 0..2 {
        st.move_down();
    }
    assert!(matches!(st.enter(&mut app, false), BrowseRequest::Nothing));
    assert!(!st.browsing);
    assert_eq!(app.config.slots[0].files, vec!["/home/u/a.txt".to_string()]);
    assert!(matches!(st.enter(&mut app, false), BrowseRequest::ListCurrentDir));
    st.open_browser(browser("/home/u"));
    for _ in 0..3 {
        st.move_down();
    }
    st.enter(&mut app, false);
    assert_eq!(app.config.slots[0].files.len(), 1);
    st.delete_file(&mut app);
    assert!(app.config.slots[0].files.is_empty());
}

#[test]
fn start_needs_a_name() {
    let mut app = App::new(&vec![]);
    let mut st = InputFilesState::new(browser("/home/u"));
    st.selected = 6;
    st.enter(&mut app, false);
    assert_eq!(app.screen, Screen::ProjectSelect);
    app.config.name = "named".to_string();
    st.enter(&mut app, false);
    assert_eq!(app.screen, Screen::PipelineExecution);
}

#[test]
fn pipeline_reads_stages_and_sorts_coverage_by_count() {
    let d = parse_data(&two_stage_doc());
    assert_eq!(d.engine_version, "1");
    assert_eq!(d.stages.len(), 2);
    assert_eq!(d.stages[0].processes, vec!["p0".to_string(), "p1".to_string()]);
    assert_eq!(d.stages[0].scripts[0].file, "f.py");
    assert!(!d.stages[0].scripts[0].success);
    let cov: Vec<(&str, u64)> = d.problem_coverage.iter().map(|(k, v)| (k.as_str(), *v)).collect();
    assert_eq!(cov, vec![("b", 5), ("a", 1), ("c", 1), ("d", 0)]);
}

#[test]
fn pipeline_arrows_wrap_and_undo_each_other() {
    let mut p = PaperPipelinePlane::new(LoadOutcome::Parsed(two_stage_doc()));
    assert!(p.loaded);
    assert!(p.handle_arrow(false));
    assert_eq!(p.selected_stage, 1);
    assert!(p.handle_arrow(true));
    assert_eq!(p.selected_stage, 0);
    assert!(p.handle_arrow(true));
    assert!(p.handle_arrow(true));
    assert_eq!(p.selected_stage, 0);
    let mut empty = PaperPipelinePlane::new(LoadOutcome::Missing);
    assert!(!empty.handle_arrow(true));
    assert!(!empty.loaded);
}

#[test]
fn pipeline_scroll_stays_between_first_item_and_one_past_last() {
    let mut p = PaperPipelinePlane::new(LoadOutcome::Parsed(two_stage_doc()));
    p.handle_enter();
    assert!(p.show_item_detail);
    p.scroll_by(-1);
    assert_eq!(p.selected_item, 0);
    assert!(!p.show_item_detail);
    p.scroll_by(10);
    assert_eq!(p.selected_item, 3);
    p.scroll_by(-2);
    assert_eq!(p.selected_item, 1);
}

#[test]
fn pipeline_reloads_every_tenth_tick() {
    let mut p = PaperPipelinePlane::new(LoadOutcome::Missing);
    let mut reloads: Vec<u64> = Vec::new();
    for _ in 0..25 {
        if p.update() {
            reloads.push(p.tick_count);
        }
    }
    assert_eq!(reloads, vec![10, 20]);
    p.load_data(LoadOutcome::Parsed(two_stage_doc()));
    assert!(p.loaded);
    p.load_data(LoadOutcome::Unreadable);
    assert!(p.loaded);
    assert_eq!(p.data.stages.len(), 2);
    p.load_data(LoadOutcome::Missing);
    assert!(!p.loaded);
}

#[test]
fn stage_labels_are_short_names() {
    assert_eq!(stage_label_of("EVALUATE"), "EVAL");
    assert_eq!(stage_label_of("VERIFY"), "VERFY");
    assert_eq!(stage_label_of("OTHER"), "OTHER");
    assert_eq!(PaperPipelinePlane::stage_icon("active"), ">");
    assert_eq!(PaperPipelinePlane::stage_icon("weird"), "?");
}

#[test]
fn figures_catalog_finds_its_files() {
    let files = vec![
        FigureFile { name: "fig1_cost.pdf".to_string(), path: "/f/fig1_cost.pdf".to_string() },
        FigureFile { name: "fig1_cost.png".to_string(), path: "/f/fig1_cost.png".to_string() },
        FigureFile { name: "fig2.gp".to_string(), path: "/f/fig2.gp".to_string() },
    ];
    let figs = build_figures(&files);
    assert_eq!(figs.len(), 5);
    assert_eq!(figs[0].pdf_path.as_deref(), Some("/f/fig1_cost.pdf"));
    assert_eq!(figs[0].png_path.as_deref(), Some("/f/fig1_cost.png"));
    assert_eq!(figs[1].gp_script.as_deref(), Some("/f/fig2.gp"));
    assert_eq!(figs[0].current_stage, FigureStage::Review);
    assert_eq!(figs[0].stages[0].status, StageResult::Passed);
    assert_eq!(figs[0].stages[1].status, StageResult::NeedsIteration);
    assert_eq!(figs[0].stages[1].issues, vec!["Awaiting visual review".to_string()]);
    assert_eq!(figs[0].stages_done(), 1);
    assert_eq!(figs[0].total_iterations(), 2);
    assert!(!figs[0].is_complete());
    assert_eq!(figs[1].current_stage, FigureStage::Draft);
    assert_eq!(figs[1].stages.len(), 5);
    assert!(figs[1].stages.iter().all(|s| s.status == StageResult::Pending && s.max_iterations == 3));
    assert_eq!(figs[1].stages_done(), 0);
    assert_eq!(figs[1].total_iterations(), 0);
}

#[test]
fn figures_recommended_count_rounds_three_quarters_of_the_pages() {
    let mut st = FiguresState::new(&vec![]);
    for p in 0..=u16::MAX {
        st.page_count = p;
        assert_eq!(st.recommended_count(), (p as f64 * 0.75).round() as usize);
    }
}

#[test]
fn figures_move_toggle_and_escape() {
    let mut st = FiguresState::new(&vec![]);
    st.move_up();
    assert_eq!(st.selected, 0);
    for _ in 0..9 {
        st.move_down();
    }
    assert_eq!(st.selected, 4);
    st.toggle_detail();
    let mut app = App::new(&vec![]);
    st.escape(&mut app);
    assert!(!st.show_detail);
    assert_eq!(app.screen, Screen::ProjectSelect);
    st.escape(&mut app);
    assert_eq!(app.screen, Screen::PipelineExecution);
}

fn screens(app: &App) -> Screens {
    Screens {
        select: ProjectSelectState::new(app),
        input: InputFilesState::new(browser("/home/u")),
        plane: PaperPipelinePlane::new(LoadOutcome::Parsed(two_stage_doc())),
        pipeline_detail: false,
        output: OutputState::new(),
    }
}

fn key(code: KeyCode) -> KeyPress {
    KeyPress { code, control: false }
}

#[test]
fn control_c_quits_from_every_screen() {
    for screen in [Screen::ProjectSelect, Screen::InputFiles, Screen::PipelineExecution, Screen::Output] {
        let mut app = App::new(&vec![]);
        app.screen = screen.clone();
        let mut sc = screens(&app);
        let r = handle_key(&mut app, &mut sc, KeyPress { code: KeyCode::Char('c'), control: true }, false);
        assert!(matches!(r, KeyOutcome::Quit));
        assert_eq!(app.screen, screen);
    }
}

#[test]
fn keys_drive_the_pipeline_screen() {
    let mut app = App::new(&vec![]);
    app.screen = Screen::PipelineExecution;
    let mut sc = screens(&app);
    handle_key(&mut app, &mut sc, key(KeyCode::Enter), false);
    assert!(sc.pipeline_detail);
    handle_key(&mut app, &mut sc, key(KeyCode::Right), false);
    assert_eq!(sc.plane.selected_stage, 1);
    handle_key(&mut app, &mut sc, key(KeyCode::Esc), false);
    assert!(!sc.pipeline_detail);
    handle_key(&mut app, &mut sc, key(KeyCode::Char('o')), false);
    assert_eq!(app.screen, Screen::Output);
    let r = handle_key(&mut app, &mut sc, key(KeyCode::Char('q')), false);
    assert!(matches!(r, KeyOutcome::Quit));
}

#[test]
fn keys_type_into_the_input_screen() {
    let mut app = App::new(&vec![]);
    app.screen = Screen::InputFiles;
    let mut sc = screens(&app);
    handle_key(&mut app, &mut sc, key(KeyCode::Enter), false);
    for c in "GAS".chars() {
        handle_key(&mut app, &mut sc, key(KeyCode::Char(c)), false);
    }
    handle_key(&mut app, &mut sc, key(KeyCode::Backspace), false);
    handle_key(&mut app, &mut sc, key(KeyCode::Enter), false);
    assert_eq!(app.config.name, "GA");
    let r = handle_key(&mut app, &mut sc, key(KeyCode::Down), false);
    assert!(matches!(r, KeyOutcome::Continue));
    let r = handle_key(&mut app, &mut sc, key(KeyCode::Down), false);
    assert!(matches!(r, KeyOutcome::Continue));
    let r = handle_key(&mut app, &mut sc, key(KeyCode::Enter), false);
    assert!(matches!(r, KeyOutcome::Browse(BrowseRequest::ListCurrentDir)));
}

#[test]
fn manifest_saved_and_loaded_gives_the_configuration_back() {
    let mut c = ProjectConfig::default();
    c.set_name("Round Trip", "/papers");
    c.venue = "IEEE SMC".to_string();
    c.slots[0].path = Some("/ctx".to_string());
    c.slots[1].files = vec!["/d1.md".to_string(), "/d2.md".to_string()];
    let m = c.manifest("2025-01-01T00:00:00+00:00");
    let slots: Vec<JsonValue> = m
        .slots
        .iter()
        .map(|sm| {
            obj(vec![
                ("label", s(&sm.label)),
                ("kind", s(&sm.kind)),
                ("path", match &sm.path { Some(p) => s(p), None => JsonValue::Null }),
                ("files", arr(sm.files.iter().map(|f| s(f)).collect())),
                ("required", JsonValue::Bool(sm.required)),
            ])
        })
        .collect();
    let doc = obj(vec![
        ("name", s(&m.name)),
        ("venue", s(&m.venue)),
        ("project_dir", s(&m.project_dir)),
        ("output_dir", s(&m.output_dir)),
        ("slots", arr(slots)),
        ("created", s(&m.created)),
    ]);
    let mut app = App::new(&vec![]);
    app.load_project(&recent("rt"), Some(&doc));
    assert_eq!(app.config.name, c.name);
    assert_eq!(app.config.venue, c.venue);
    for i in 0..4 {
        assert_eq!(app.config.slots[i].path, c.slots[i].path);
        assert_eq!(app.config.slots[i].files, c.slots[i].files);
    }
}

#[test]
fn text_helpers_format_like_std() {
    assert_eq!(decimal_string(0), "0");
    assert_eq!(decimal_string(u64::MAX), u64::MAX.to_string());
    assert_eq!(decimal_string(1024), "1024");
    assert_eq!(repeat_char('-', 3), "---");
    assert_eq!(repeat_char('x', 0), "");
    assert_eq!(byte_slice("héllo", 0, 3), Some("hé".to_string()));
    assert_eq!(byte_slice("héllo", 1, 2), None);
    assert_eq!(byte_slice("héllo", 3, 6), Some("llo".to_string()));
}

#[test]
fn manifest_with_fewer_slots_restores_those_and_keeps_the_rest() {
    let slot = |path: Option<&str>, files: Vec<&str>| {
        obj(vec![
            ("label", s("L")),
            ("kind", s("files")),
            ("path", match path { Some(p) => s(p), None => JsonValue::Null }),
            ("files", arr(files.into_iter().map(s).collect())),
            ("required", JsonValue::Bool(false)),
        ])
    };
    let doc = obj(vec![
        ("name", s("Short")),
        ("venue", s("V")),
        ("slots", arr(vec![slot(Some("/ctx"), vec![]), slot(None, vec!["/d1.md"])])),
        ("created", s("2025-01-01")),
    ]);
    let mut app = App::new(&vec![]);
    app.config.slots[2].files = vec!["/keep.md".to_string()];
    app.config.slots[3].path = Some("/persona".to_string());
    let before = app.config.slots.len();
    app.load_project(&recent("short"), Some(&doc));
    assert_eq!(app.config.name, "Short");
    assert_eq!(app.config.slots.len(), before);
    assert_eq!(app.config.slots[0].path, Some("/ctx".to_string()));
    assert!(app.config.slots[0].files.is_empty());
    assert_eq!(app.config.slots[1].path, None);
    assert_eq!(app.config.slots[1].files, vec!["/d1.md".to_string()]);
    assert_eq!(app.config.slots[2].files, vec!["/keep.md".to_string()]);
    assert_eq!(app.config.slots[3].path, Some("/persona".to_string()));
}
