use research_pipeline::app::{App, ProjectEntry};
use research_pipeline::draw::{byte_prefix, Area, Draw};
use research_pipeline::json::{JsonNumber, JsonValue};
use research_pipeline::pipeline::{LoadOutcome, PaperPipelinePlane};
use research_pipeline::screen_figures::FiguresState;
use research_pipeline::screen_input::{DirListing, FileBrowser, InputFilesState};
use research_pipeline::screen_output::{output_file_paths, OutputFileStatus, OutputState};
use research_pipeline::screen_select::ProjectSelectState;
use research_pipeline::style::Color;

fn s(x: &str) -> JsonValue {
    JsonValue::Str(x.to_string())
}

fn num(x: u64) -> JsonValue {
    JsonValue::Number(JsonNumber { as_u64: Some(x), float_text: x.to_string(), whole_text: x.to_string() })
}

fn obj(entries: Vec<(&str, JsonValue)>) -> JsonValue {
    JsonValue::Object {
        entries: entries.into_iter().map(|(k, v)| (k.to_string(), v)).collect(),
        text: String::from("{}"),
    }
}

fn arr(items: Vec<JsonValue>) -> JsonValue {
    JsonValue::Array { items, text: String::from("[]") }
}

const STAGE_IDS: [&str; 8] = ["SCOUT", "EVALUATE", "READ", "PROTOTYPE", "INTEGRATE", "DOCUMENT", "VERIFY", "YBR_DOCS"];

/// A status file with all eight stages and one paper part-way through them.
fn status_doc() -> JsonValue {
    let stages: Vec<JsonValue> = STAGE_IDS
        .iter()
        .map(|id| {
            obj(vec![
                ("id", s(id)),
                ("label", s(id)),
                ("description", s("does its part")),
                ("processes", arr(vec![s("collect"), s("rank")])),
                (
                    "scripts",
                    arr(vec![obj(vec![
                        ("file", s("run.py")),
                        ("function", s("main")),
                        ("params", arr(vec![s("a"), s("b")])),
                        ("last_run", s("2025-01-01")),
                        ("duration_ms", num(12)),
                        ("success", JsonValue::Bool(true)),
                        ("output_size", num(0)),
                    ])]),
                ),
                ("outputs", arr(vec![s("out.json")])),
                ("metrics", obj(vec![("papers", s("7"))])),
            ])
        })
        .collect();
    let paper_stages: Vec<(&str, JsonValue)> = STAGE_IDS
        .iter()
        .enumerate()
        .map(|(i, id)| {
            let st = if i < 2 { "done" } else if i == 2 { "active" } else { "pending" };
            (*id, obj(vec![("status", s(st))]))
        })
        .collect();
    obj(vec![
        ("engine_version", s("6.1")),
        ("pipeline_stages", arr(stages)),
        (
            "active_papers",
            arr(vec![obj(vec![
                ("name", s("neil-blueprint-v6")),
                ("source", s("arxiv")),
                ("code", s("NB6")),
                ("priority", num(9)),
                ("problems", arr(vec![s("identity_drift"), s("memory_persistence")])),
                ("last_activity", s("2025-02-02")),
                ("stages", obj(paper_stages)),
            ])]),
        ),
        ("components", obj(vec![("scout", obj(vec![("status", s("active"))])), ("reader", obj(vec![("status", s("idle"))]))])),
    ])
}

/// Draws the pieces onto a grid of `w` by `h` characters, the way the
/// terminal shows them, and gives the rows joined by newlines.
fn raster(ops: &[Draw], w: u16, h: u16) -> String {
    let mut grid = vec![vec![' '; w as usize]; h as usize];
    let mut put = |grid: &mut Vec<Vec<char>>, x: u16, y: u16, t: &str| {
        let mut cx = x as usize;
        for c in t.chars() {
            if (y as usize) < grid.len() && cx < grid[0].len() {
                grid[y as usize][cx] = c;
            }
            cx += 1;
        }
    };
    for op in ops {
        match op {
            Draw::Frame { area, title, .. } => {
                if area.width >= 2 && area.height >= 2 {
                    let right = area.x + area.width - 1;
                    let bottom = area.y + area.height - 1;
                    for x in area.x..=right {
                        put(&mut grid, x, area.y, "-");
                        put(&mut grid, x, bottom, "-");
                    }
                    for y in area.y..=bottom {
                        put(&mut grid, area.x, y, "|");
                        put(&mut grid, right, y, "|");
                    }
                    let max = (area.width - 2) as usize;
                    let t: String = title.chars().take(max).collect();
                    put(&mut grid, area.x + 1, area.y, &t);
                }
            },
            Draw::Text { x, y, text, .. } => put(&mut grid, *x, *y, text),
            Draw::Progress { x, y, width, done, total, .. } => {
                let p = *done as f64 / *total as f64;
                let filled = ((*width as f64) * p.clamp(0.0, 1.0)) as u16;
                let bar = format!("[{}{}] {:>3.0}%", "#".repeat(filled as usize), ".".repeat((*width - filled) as usize), p * 100.0);
                put(&mut grid, *x, *y, &bar);
            },
        }
    }
    grid.into_iter().map(|r| r.into_iter().collect::<String>()).collect::<Vec<_>>().join("\n")
}

fn area(w: u16, h: u16) -> Area {
    Area { x: 0, y: 0, width: w, height: h }
}

fn recent_entries() -> Vec<ProjectEntry> {
    vec![ProjectEntry {
        path: "/papers/neil-blueprint-v6".to_string(),
        manifest: Some(obj(vec![("name", s("neil-blueprint-v6")), ("venue", s("IEEE SMC")), ("created", s("2025-01-01"))])),
        pipeline_state: Some(obj(vec![("stages_done", num(3)), ("stages_total", num(8)), ("status", s("running"))])),
    }]
}

fn dump_select(w: u16, h: u16) -> String {
    let app = App::new(&recent_entries());
    let state = ProjectSelectState::new(&app);
    raster(&research_pipeline::screen_select::render(area(w, h), &state, &app).unwrap(), w, h)
}

fn input_state() -> InputFilesState {
    let listing = DirListing {
        parent: Some("/home".to_string()),
        dirs: vec!["/home/user/docs".to_string()],
        files: vec!["/home/user/a.txt".to_string()],
    };
    InputFilesState::new(FileBrowser::new("/home/user".to_string(), listing))
}

fn dump_input(w: u16, h: u16) -> String {
    let app = App::new(&Vec::new());
    let state = input_state();
    raster(&research_pipeline::screen_input::render(area(w, h), &state, &app, &vec![true, true, false]).unwrap(), w, h)
}

fn dump_pipeline(w: u16, h: u16, detail: bool) -> String {
    let plane = PaperPipelinePlane::new(LoadOutcome::Parsed(status_doc()));
    let ops = if detail { plane.render_detail(area(w, h)) } else { plane.render(area(w, h)) };
    raster(&ops.unwrap(), w, h)
}

fn dump_output(w: u16, h: u16) -> String {
    let mut app = App::new(&Vec::new());
    app.config.name = "test-paper".to_string();
    app.config.output_dir = "/papers/test-paper/output".to_string();
    let state = OutputState::new();
    let paths = output_file_paths(&app);
    let files: Vec<OutputFileStatus> = paths.iter().map(|_| OutputFileStatus { exists: false, size_text: String::new() }).collect();
    let stats = vec![("words".to_string(), "5120".to_string())];
    raster(&research_pipeline::screen_output::render(area(w, h), &state, &app, &paths, &files, Some(&stats)).unwrap(), w, h)
}

#[test]
fn screen_select_renders() {
    let out = dump_select(100, 25);
    assert!(out.contains("Project Select"), "missing title");
    assert!(out.contains("NEW PROJECT"), "missing New Project button");
    assert!(out.contains("OPEN EXISTING"), "missing Open Existing button");
    assert!(out.contains("RECENT PROJECTS"), "missing Recent Projects header");
}

#[test]
fn screen_select_shows_recent() {
    let out = dump_select(120, 30);
    assert!(out.contains("neil-blueprint-v6") || out.contains("no recent"), "should show recent project or empty message");
    assert!(out.contains("3/8 [###.......] running"));
}

#[test]
fn screen_select_has_navigation_hint() {
    let out = dump_select(100, 25);
    assert!(out.contains("Up/Down"), "missing navigation hint");
    assert!(out.contains("Enter"), "missing enter hint");
    assert!(out.contains("quit"), "missing quit hint");
}

#[test]
fn screen_select_without_recents_says_so() {
    let app = App::new(&Vec::new());
    let state = ProjectSelectState::new(&app);
    let out = raster(&research_pipeline::screen_select::render(area(100, 25), &state, &app).unwrap(), 100, 25);
    assert!(out.contains("(no recent projects)"));
}

#[test]
fn screen_select_refuses_a_bar_past_full() {
    let entries = vec![ProjectEntry {
        path: "/papers/x".to_string(),
        manifest: Some(obj(vec![("name", s("x")), ("venue", s("v")), ("created", s("c"))])),
        pipeline_state: Some(obj(vec![("stages_done", num(9)), ("stages_total", num(8))])),
    }];
    let app = App::new(&entries);
    let state = ProjectSelectState::new(&app);
    assert!(research_pipeline::screen_select::render(area(120, 30), &state, &app).is_none());
}

#[test]
fn screen_input_renders() {
    let out = dump_input(120, 35);
    assert!(out.contains("Input Files"), "missing title");
    assert!(out.contains("Project name"), "missing project name field");
    assert!(out.contains("Target venue"), "missing venue field");
}

#[test]
fn screen_input_shows_4_slots() {
    let out = dump_input(120, 40);
    assert!(out.contains("Context / Data"), "missing slot 1");
    assert!(out.contains("Direction / Novelty"), "missing slot 2");
    assert!(out.contains("Target Paper / Template"), "missing slot 3");
    assert!(out.contains("Persona"), "missing slot 4");
}

#[test]
fn screen_input_shows_required_markers() {
    let out = dump_input(120, 40);
    assert!(out.contains("* 1."), "slot 1 should be marked required");
    assert!(out.contains("* 2."), "slot 2 should be marked required");
}

#[test]
fn screen_input_shows_browse() {
    let out = dump_input(120, 40);
    let browse_count = out.matches("[Browse...]").count();
    assert_eq!(browse_count, 4, "should have 4 browse buttons, got {}", browse_count);
}

#[test]
fn screen_input_shows_start_disabled() {
    let out = dump_input(120, 40);
    assert!(out.contains("enter name first"), "start button should be disabled without name");
}

#[test]
fn screen_input_has_navigation_hint() {
    let out = dump_input(120, 35);
    assert!(out.contains("Esc back"), "missing back hint");
    assert!(out.contains("d delete"), "missing delete hint");
}

#[test]
fn screen_input_browser_lists_entries() {
    let app = App::new(&Vec::new());
    let mut state = input_state();
    state.browsing = true;
    let out = raster(&research_pipeline::screen_input::render(area(120, 35), &state, &app, &vec![true, true, false]).unwrap(), 120, 35);
    assert!(out.contains("File Browser"));
    assert!(out.contains(">> /.."), "{}", out);
    assert!(out.contains("/docs"));
    assert!(out.contains("  a.txt"));
    assert!(out.contains("Enter select | Esc cancel"));
}

#[test]
fn screen_pipeline_renders() {
    let out = dump_pipeline(120, 30, false);
    assert!(out.contains("Research Pipeline"), "missing title");
    assert!(out.contains("Research Pipeline v6.1  |  1/2 tools  |  1 papers tracked"));
    assert!(out.contains(" [NB6] neil-blueprint-v6 (P:9)"));
    assert!(out.contains("  2/8 stages | ident mem | 2025-02-02"));
    assert!(out.contains("TOOLS: *SCT oRDR"), "{}", out);
}

#[test]
fn screen_pipeline_shows_flow_boxes() {
    let out = dump_pipeline(120, 30, false);
    for label in ["SCOUT", "EVAL", "READ", "PROTO", "INTEG", "DOC", "VERFY", "YBR"] {
        assert!(out.contains(label), "missing {} stage", label);
    }
    assert!(out.contains("| *SCOUT  |==>|  *EVAL  |==>|  >READ  |==>| oPROTO  |"), "{}", out);
}

#[test]
fn screen_pipeline_shows_arrows() {
    let out = dump_pipeline(120, 30, false);
    assert!(out.contains("==>"), "missing stage arrows");
}

#[test]
fn screen_pipeline_waits_for_data() {
    let plane = PaperPipelinePlane::new(LoadOutcome::Missing);
    let out = raster(&plane.render(area(80, 20)).unwrap(), 80, 20);
    assert!(out.contains("No data -- waiting for .paper_pipeline.json"));
}

#[test]
fn screen_pipeline_detail_renders() {
    let out = dump_pipeline(120, 40, true);
    assert!(out.contains("Stage Detail View"), "missing detail view title");
    assert!(out.contains("Overall:"), "missing overall progress");
    assert!(out.contains("Progress:"), "missing stage progress");
    assert!(out.contains("[*] SCOUT -- does its part"));
    assert!(out.contains("METRICS papers:7"));
    assert!(out.contains("  NB6 | arxiv | P:9 | 2025-02-02"));
    assert!(out.contains(">> [*] collect"));
    assert!(out.contains("run.py -> main [* 12ms]"));
    assert!(out.contains("     params: [a, b]"));
    assert!(out.contains("  => out.json"));
}

#[test]
fn screen_pipeline_detail_has_hints() {
    let out = dump_pipeline(120, 40, true);
    assert!(out.contains("<-/->"), "missing arrow key hint");
    assert!(out.contains("ground truth") || out.contains("ESC"), "missing interaction hints");
}

#[test]
fn screen_pipeline_detail_ground_truth_shows_item_fields() {
    let mut plane = PaperPipelinePlane::new(LoadOutcome::Parsed(status_doc()));
    plane.handle_enter();
    let out = raster(&plane.render_detail(area(120, 40)).unwrap(), 120, 40);
    assert!(out.contains("GROUND TRUTH"));
    assert!(out.contains("  name:        \"collect\""));
    assert!(out.contains("  index:       1/2"));
    assert!(out.contains("  outputs:     [\"out.json\"]"));
    assert!(out.contains("Enter close detail"));
}

#[test]
fn screen_pipeline_detail_highlights_selected_stage() {
    let mut plane = PaperPipelinePlane::new(LoadOutcome::Parsed(status_doc()));
    plane.handle_arrow(true);
    let out = raster(&plane.render_detail(area(120, 40)).unwrap(), 120, 40);
    assert!(out.contains("[*] EVALUATE -- does its part"));
}

#[test]
fn screen_output_renders() {
    let out = dump_output(100, 30);
    assert!(out.contains("Output:"), "missing title");
    assert!(out.contains("GENERATED FILES"), "missing files header");
}

#[test]
fn screen_output_shows_file_types() {
    let out = dump_output(100, 30);
    assert!(out.contains("PDF"), "missing PDF entry");
    assert!(out.contains("LaTeX"), "missing LaTeX entry");
    assert!(out.contains("Figures"), "missing Figures entry");
    assert!(out.contains("BibTeX"), "missing BibTeX entry");
    assert!(out.contains("test-paper.pdf"));
}

#[test]
fn screen_output_shows_descriptions() {
    let out = dump_output(100, 30);
    assert!(out.contains("Final compiled paper"), "missing PDF description");
    assert!(out.contains("Editable source document"), "missing LaTeX description");
}

#[test]
fn screen_output_shows_stats() {
    let out = dump_output(100, 30);
    assert!(out.contains("STATS"), "missing stats section");
    assert!(out.contains("words:5120"));
}

#[test]
fn screen_output_shows_actions() {
    let out = dump_output(100, 30);
    assert!(out.contains("REVISE"), "missing revise button");
    assert!(out.contains("NEW PROJECT"), "missing new project button");
    assert!(out.contains("QUIT"), "missing quit button");
}

#[test]
fn screen_figures_lists_the_catalog() {
    let st = FiguresState::new(&Vec::new());
    let app = App::new(&Vec::new());
    let out = raster(&research_pipeline::screen_figures::render(area(120, 40), &st, &app).unwrap(), 120, 40);
    assert!(out.contains("Figures (5-Stage Design)"));
    assert!(out.contains("0/5 complete | 0 in review | 6 recommended for 8 pages"));
    assert!(out.contains("Stages: DRAFT > REVIEW > REFINE > VERIFY > PLACE"));
    assert!(out.contains(" DRA >>  REV >>  REF >>  VER >>  PLA"));
    assert!(out.contains("Up/Down navigate | Enter detail | Esc back"));
}

#[test]
fn screen_figures_detail_shows_files_and_caption() {
    let mut st = FiguresState::new(&Vec::new());
    st.toggle_detail();
    let app = App::new(&Vec::new());
    let out = raster(&research_pipeline::screen_figures::render(area(120, 40), &st, &app).unwrap(), 120, 40);
    assert!(out.contains("DESIGN PIPELINE"));
    assert!(out.contains("[ ] PDF   : not generated"));
    assert!(out.contains("CAPTION"));
    assert!(out.contains("Enter close | Esc back to list"));
}

#[test]
fn all_screens_render_small() {
    for (w, h) in [(40u16, 10u16), (20, 3), (2, 2), (0, 0)] {
        let a = App::new(&recent_entries());
        assert!(research_pipeline::screen_select::render(area(w, h), &ProjectSelectState::new(&a), &a).is_some());
        assert!(research_pipeline::screen_input::render(area(w, h), &input_state(), &a, &vec![]).is_some());
        let plane = PaperPipelinePlane::new(LoadOutcome::Parsed(status_doc()));
        assert!(plane.render(area(w, h)).is_some());
        assert!(plane.render_detail(area(w, h)).is_some());
        let paths = output_file_paths(&a);
        let files: Vec<OutputFileStatus> = paths.iter().map(|_| OutputFileStatus { exists: true, size_text: "1KB".to_string() }).collect();
        assert!(research_pipeline::screen_output::render(area(w, h), &OutputState::new(), &a, &paths, &files, None).is_some());
    }
    assert!(!dump_select(40, 10).is_empty());
}

#[test]
fn all_screens_render_wide() {
    assert!(dump_select(200, 50).contains("NEW PROJECT"));
    assert!(dump_input(200, 50).contains("Project name"));
    assert!(dump_pipeline(200, 50, false).contains("==>"));
    assert!(dump_output(200, 50).contains("GENERATED FILES"));
}

#[test]
fn every_piece_of_a_screen_lies_inside_its_box() {
    let a = App::new(&recent_entries());
    let ops = research_pipeline::screen_select::render(area(100, 25), &ProjectSelectState::new(&a), &a).unwrap();
    let inner = Area { x: 1, y: 1, width: 98, height: 23 };
    for op in &ops[1..] {
        if let Draw::Text { x, y, .. } = op {
            assert!(*x >= inner.x && *y >= inner.y && *y < inner.y + inner.height);
        }
    }
}

#[test]
fn screens_draw_one_cell_inside_their_box() {
    let a = App::new(&recent_entries());
    let at = Area { x: 3, y: 4, width: 60, height: 20 };
    let ops = research_pipeline::screen_select::render(at, &ProjectSelectState::new(&a), &a).unwrap();
    assert_eq!(text_at(&ops, "Select a project or create a new one:"), Some((6, 6)));
    let tiny = Area { x: 0, y: 0, width: 1, height: 1 };
    let ops = research_pipeline::screen_select::render(tiny, &ProjectSelectState::new(&a), &a).unwrap();
    assert_eq!(ops.len(), 1);
}

#[test]
fn byte_prefix_refuses_to_split_a_character() {
    assert_eq!(byte_prefix("héllo", 1), Some("h".to_string()));
    assert_eq!(byte_prefix("héllo", 2), None);
    assert_eq!(byte_prefix("héllo", 3), Some("hé".to_string()));
    assert_eq!(byte_prefix("abc", 10), Some("abc".to_string()));
}

#[test]
fn flow_header_is_cut_inside_a_character_gives_nothing() {
    let mut doc = status_doc();
    if let JsonValue::Object { entries, .. } = &mut doc {
        for (k, v) in entries.iter_mut() {
            if k == "active_papers" {
                *v = arr(vec![obj(vec![("name", s("ééééééééééééééééééééééééééééééééééééééééééééééééééé")), ("code", s("X"))])]);
            }
        }
    }
    let plane = PaperPipelinePlane::new(LoadOutcome::Parsed(doc));
    let w = 44u16;
    let r = plane.render(area(w, 20));
    let name_room = (w as usize - 2).saturating_sub(22);
    let expected_some = name_room % 2 == 0;
    assert_eq!(r.is_some(), expected_some);
    let _ = Color::Red;
}

fn text_at(ops: &[Draw], t: &str) -> Option<(u16, u16)> {
    ops.iter().find_map(|d| match d {
        Draw::Text { x, y, text, .. } if text == t => Some((*x, *y)),
        _ => None,
    })
}

#[test]
fn select_screen_places_its_buttons_under_the_header() {
    let app = App::new(&recent_entries());
    let state = ProjectSelectState::new(&app);
    let ops = research_pipeline::screen_select::render(area(80, 24), &state, &app).unwrap();
    assert_eq!(text_at(&ops, "Select a project or create a new one:"), Some((3, 2)));
    assert_eq!(text_at(&ops, ">>| NEW PROJECT |"), Some((3, 5)));
    assert_eq!(text_at(&ops, "Start a new paper from input files"), Some((22, 5)));
    assert_eq!(text_at(&ops, "  | OPEN EXISTING |"), Some((3, 9)));
    assert_eq!(text_at(&ops, "RECENT PROJECTS"), Some((3, 13)));
    assert_eq!(text_at(&ops, "Up/Down navigate  |  Enter select  |  q quit"), Some((18, 22)));
}

#[test]
fn select_screen_is_only_its_box_when_small() {
    let app = App::new(&recent_entries());
    let state = ProjectSelectState::new(&app);
    let ops = research_pipeline::screen_select::render(area(31, 24), &state, &app).unwrap();
    assert_eq!(ops.len(), 1);
}

#[test]
fn figure_detail_title_is_in_capitals() {
    let mut st = FiguresState::new(&Vec::new());
    st.toggle_detail();
    let app = App::new(&Vec::new());
    let ops = research_pipeline::screen_figures::render(area(120, 40), &st, &app).unwrap();
    let title = ops.iter().find_map(|d| match d {
        Draw::Text { x: 3, y: 5, text, .. } => Some(text.clone()),
        _ => None,
    });
    let title = title.expect("a title on the first detail row");
    assert!(title.starts_with("FIG1 -- "), "{}", title);
}

#[test]
fn output_screen_places_the_files_from_its_fourth_row() {
    let app = App::new(&Vec::new());
    let state = OutputState::new();
    let paths = output_file_paths(&app);
    let files = vec![
        OutputFileStatus { exists: true, size_text: "12KB".to_string() },
        OutputFileStatus { exists: false, size_text: String::new() },
        OutputFileStatus { exists: false, size_text: String::new() },
        OutputFileStatus { exists: false, size_text: String::new() },
    ];
    let ops = research_pipeline::screen_output::render(area(100, 40), &state, &app, &paths, &files, None).unwrap();
    assert_eq!(text_at(&ops, "GENERATED FILES"), Some((3, 2)));
    assert_eq!(text_at(&ops, "         Final compiled paper"), Some((3, 5)));
    assert_eq!(text_at(&ops, "         Editable source document"), Some((3, 7)));
    assert_eq!(text_at(&ops, "STATS"), Some((3, 14)));
    assert_eq!(text_at(&ops, "+--------+"), Some((5, 16)));
    assert_eq!(text_at(&ops, "| REVISE |"), Some((5, 17)));
}

#[test]
fn screens_draw_at_the_far_edge_of_the_u16_range() {
    let a = App::new(&recent_entries());
    let (w, h) = (120u16, 40u16);
    let far = Area { x: u16::MAX - w, y: u16::MAX - h, width: w, height: h };
    let near = research_pipeline::screen_select::render(area(w, h), &ProjectSelectState::new(&a), &a).unwrap();
    let ops = research_pipeline::screen_select::render(far, &ProjectSelectState::new(&a), &a).unwrap();
    let (x0, y0) = text_at(&near, "Select a project or create a new one:").unwrap();
    assert_eq!(text_at(&ops, "Select a project or create a new one:"), Some((x0 + far.x, y0 + far.y)));
    assert!(research_pipeline::screen_input::render(far, &input_state(), &a, &vec![true, true, false]).is_some());
    let plane = PaperPipelinePlane::new(LoadOutcome::Parsed(status_doc()));
    assert!(plane.render(far).is_some());
    assert!(plane.render_detail(far).is_some());
    let paths = output_file_paths(&a);
    let files: Vec<OutputFileStatus> = paths.iter().map(|_| OutputFileStatus { exists: true, size_text: "1KB".to_string() }).collect();
    let stats = vec![("words".to_string(), "5120".to_string())];
    assert!(research_pipeline::screen_output::render(far, &OutputState::new(), &a, &paths, &files, Some(&stats)).is_some());
    let st = FiguresState::new(&Vec::new());
    assert!(research_pipeline::screen_figures::render(far, &st, &a).is_some());
}

#[test]
fn figure_detail_whose_rows_would_pass_the_last_row_gives_nothing() {
    let mut st = FiguresState::new(&Vec::new());
    st.toggle_detail();
    let app = App::new(&Vec::new());
    let low = Area { x: 0, y: u16::MAX - 10, width: 120, height: 10 };
    assert!(research_pipeline::screen_figures::render(low, &st, &app).is_none());
    let high = Area { x: 0, y: 0, width: 120, height: 10 };
    assert!(research_pipeline::screen_figures::render(high, &st, &app).is_some());
}
