use vstd::prelude::*;

use crate::app::{is_fresh_config, App, ProjectConfig, Screen};
use crate::draw::{
    bordered_inner, byte_len, byte_length, cut_bytes, drawn_within, frame_at, inside_borders, marks, padded,
    push_fitted_in, push_frame, push_padded, push_repeated, push_text_in, repeated, sat_sub, spaces, text_at,
    text_mark, Area, Draw, Mark,
};
use crate::paths::{file_name, final_component, join, joined};
use crate::pipeline_view::{fits_u16, screen_border_style, title_style};
use crate::style::{bold_in, heading_in, highlight_in, italic_in, plain_in, Color, Style};
use crate::text::{owned, push_str, utf8};

verus! {

/// The row number of the `REVISE` button.
pub const ACTION_REVISE: usize = 100;
/// The row number of the `NEW PROJECT` button.
pub const ACTION_NEW: usize = 101;
/// The row number of the `QUIT` button.
pub const ACTION_QUIT: usize = 102;

/// The output screen: four output-file rows (0 to 3), then the three action buttons.
pub struct OutputState {
    pub selected: usize,
}

/// The row above `n`: the last file row above `REVISE`, nothing above the first row.
pub open spec fn row_above(n: usize) -> usize {
    if n == 0 {
        0
    } else if n == ACTION_REVISE {
        3
    } else if n == ACTION_NEW {
        ACTION_REVISE
    } else if n == ACTION_QUIT {
        ACTION_NEW
    } else {
        (n - 1) as usize
    }
}

/// The row below `n`: `REVISE` below the last file row, nothing below `QUIT`
/// or below a row that the screen does not have.
pub open spec fn row_below(n: usize) -> usize {
    if n <= 2 {
        (n + 1) as usize
    } else if n == 3 {
        ACTION_REVISE
    } else if n == ACTION_REVISE {
        ACTION_NEW
    } else if n == ACTION_NEW {
        ACTION_QUIT
    } else {
        n
    }
}

/// The rows of the output screen.
pub open spec fn is_output_row(n: usize) -> bool {
    n <= 3 || n == ACTION_REVISE || n == ACTION_NEW || n == ACTION_QUIT
}

/// `b` is the app after the Enter key on the output screen `s` over `a`.
pub open spec fn output_entered(s: OutputState, a: App, b: App) -> bool {
    &&& (s.selected == ACTION_REVISE ==> b == (App { screen: Screen::PipelineExecution, ..a }))
    &&& (s.selected == ACTION_NEW ==> b.screen == Screen::ProjectSelect)
    &&& (s.selected == ACTION_NEW ==> is_fresh_config(b.config))
    &&& (s.selected == ACTION_NEW ==> b.recents == a.recents)
    &&& (s.selected == ACTION_NEW ==> b.should_quit == a.should_quit)
    &&& (s.selected == ACTION_QUIT ==> b == (App { should_quit: true, ..a }))
    &&& ((s.selected != ACTION_REVISE && s.selected != ACTION_NEW && s.selected != ACTION_QUIT)
            ==> b == a)
}

impl OutputState {
    /// The screen with the first file row selected.
    pub fn new() -> (r: Self)
        ensures
            r.selected == 0,
    {
        OutputState { selected: 0 }
    }

    /// Selects the row above.
    pub fn move_up(&mut self)
        ensures
            final(self).selected == row_above(old(self).selected),
    {
        match self.selected {
            0 => {},
            ACTION_REVISE => self.selected = 3,
            ACTION_NEW => self.selected = ACTION_REVISE,
            ACTION_QUIT => self.selected = ACTION_NEW,
            n => self.selected = n - 1,
        }
    }

    /// Selects the row below.
    pub fn move_down(&mut self)
        ensures
            final(self).selected == row_below(old(self).selected),
    {
        match self.selected {
            0..=2 => self.selected += 1,
            3 => self.selected = ACTION_REVISE,
            ACTION_REVISE => self.selected = ACTION_NEW,
            ACTION_NEW => self.selected = ACTION_QUIT,
            _ => {},
        }
    }

    /// Acts on the selected row: `REVISE` returns to the pipeline screen,
    /// `NEW PROJECT` starts over on the project-select screen with a fresh
    /// configuration, `QUIT` asks the app to quit; a file row does nothing.
    pub fn enter(&self, app: &mut App)
        ensures
            output_entered(*self, *old(app), *final(app)),
    {
        match self.selected {
            ACTION_REVISE => {
                app.screen = Screen::PipelineExecution;
            },
            ACTION_NEW => {
                app.config = ProjectConfig::default();
                app.screen = Screen::ProjectSelect;
            },
            ACTION_QUIT => {
                app.should_quit = true;
            },
            _ => {},
        }
    }
}

/// Moving up or down never leaves the rows of the output screen.
pub proof fn lemma_output_rows_closed(n: usize)
    requires
        is_output_row(n),
    ensures
        is_output_row(row_above(n)),
        is_output_row(row_below(n)),
{
}

/// Moving down then up returns to the same row, except from `QUIT`, which has
/// no row below.
pub proof fn lemma_output_down_up(n: usize)
    requires
        is_output_row(n),
        n != ACTION_QUIT,
    ensures
        row_above(row_below(n)) == n,
{
}

/// Moving up then down returns to the same row, except from the first row,
/// which has no row above.
pub proof fn lemma_output_up_down(n: usize)
    requires
        is_output_row(n),
        n != 0,
    ensures
        row_below(row_above(n)) == n,
{
}


/// What the screen knows of an output file on disk: whether it exists, and
/// the text of its size (empty unless it is a file whose size could be read).
pub struct OutputFileStatus {
    pub exists: bool,
    pub size_text: String,
}

/// The names and descriptions of the four output files, and their paths
/// under the output directory.
pub open spec fn output_file_path(output_dir: Seq<char>, name: Seq<char>, i: int) -> Seq<char> {
    if i == 0 {
        joined(output_dir, name + ".pdf"@)
    } else if i == 1 {
        joined(output_dir, name + ".tex"@)
    } else if i == 2 {
        joined(output_dir, "figures"@)
    } else {
        joined(output_dir, "refs.bib"@)
    }
}

/// The figures directory and the bibliography do not depend on the
/// project's name: whatever the name, they are `figures` and `refs.bib` in
/// the output directory.
pub proof fn lemma_shared_outputs_ignore_name(output_dir: Seq<char>, name1: Seq<char>, name2: Seq<char>)
    ensures
        output_file_path(output_dir, name1, 2) == output_file_path(output_dir, name2, 2),
        output_file_path(output_dir, name1, 3) == output_file_path(output_dir, name2, 3),
        output_file_path(output_dir, name1, 2) == joined(output_dir, "figures"@),
        output_file_path(output_dir, name1, 3) == joined(output_dir, "refs.bib"@),
{
}

/// The paper and its LaTeX source are named after the project: the name
/// with `.pdf` and with `.tex`, in the output directory.
pub proof fn lemma_paper_outputs_follow_name(output_dir: Seq<char>, name: Seq<char>)
    ensures
        output_file_path(output_dir, name, 0) == joined(output_dir, name + ".pdf"@),
        output_file_path(output_dir, name, 1) == joined(output_dir, name + ".tex"@),
{
}

/// The paths of the output files: the compiled paper, its LaTeX source, the
/// figures directory and the bibliography, in the output directory; the
/// caller looks them up on disk.
pub fn output_file_paths(app: &App) -> (r: Vec<String>)
    ensures
        r@.len() == 4,
        forall|i: int| 0 <= i < 4 ==> (#[trigger] r@[i])@ == output_file_path(app.config.output_dir@, app.config.name@, i),
        r@[0]@ == joined(app.config.output_dir@, app.config.name@ + ".pdf"@),
        r@[1]@ == joined(app.config.output_dir@, app.config.name@ + ".tex"@),
        r@[2]@ == joined(app.config.output_dir@, "figures"@),
        r@[3]@ == joined(app.config.output_dir@, "refs.bib"@),
{
    let dir = app.config.output_dir.as_str();
    let mut pdf = owned(app.config.name.as_str());
    push_str(&mut pdf, ".pdf");
    let mut tex = owned(app.config.name.as_str());
    push_str(&mut tex, ".tex");
    let mut r: Vec<String> = Vec::new();
    r.push(join(dir, pdf.as_str()));
    r.push(join(dir, tex.as_str()));
    r.push(join(dir, "figures"));
    r.push(join(dir, "refs.bib"));
    r
}

/// The title of the output screen.
pub open spec fn output_title(name: Seq<char>) -> Seq<char> {
    " Research Pipeline -- Output: "@ + name + " "@
}

/// The hint at the bottom of the output screen.
pub open spec fn output_hint() -> Seq<char> {
    "Up/Down navigate | Enter select | Esc back"@
}

/// Whether `ops` is the output screen over `area` for a project named
/// `name`: the titled box, only that when its inside is smaller than 40 by
/// 8, else everything inside it with the hint centred on its last row at the
/// end.
pub open spec fn output_screen_drawn(ops: Seq<Draw>, area: Area, name: Seq<char>) -> bool {
    let inner = inside_borders(area);
    &&& ops.len() >= 1
    &&& frame_at(ops[0], area, output_title(name), title_style(), screen_border_style())
    &&& (inner.height < 8 || inner.width < 40) ==> ops.len() == 1
    &&& !(inner.height < 8 || inner.width < 40) ==> {
        &&& ops.len() >= 3
        &&& drawn_within(ops, 1, inner.x as int, inner.y as int, inner.bottom_edge() as int)
        &&& text_at(ops[1], (inner.x + 2) as u16, (inner.y + 1) as u16, "GENERATED FILES"@,
                Style { fg: Some(Color::Green), bg: None, bold: true, italic: false, underlined: true })
        &&& text_at(ops.last(), (inner.x + 2 + sat_sub(inner.width as int, byte_len(output_hint()) + 4int) / 2) as u16,
                (inner.bottom_edge() - 1) as u16, output_hint(),
                Style { fg: Some(Color::DarkGray), bg: None, bold: false, italic: true, underlined: false })
    }
}

/// The line of output file `label` at `path`: marker, check mark, label and
/// file name padded to columns, and its size.
pub open spec fn output_file_line(selected: bool, exists: bool, label: Seq<char>, path: Seq<char>, size: Seq<char>) -> Seq<char> {
    (if selected { ">>"@ } else { "  "@ }) + " "@ + (if exists { "[*]"@ } else { "[ ]"@ }) + " "@ + padded(label, 8)
        + " "@ + padded(match final_component(path) { Some(n) => n, None => ""@ }, 30) + " "@ + size
}

/// The label of output file `i`.
pub open spec fn output_label(i: int) -> Seq<char> {
    if i == 0 {
        "PDF"@
    } else if i == 1 {
        "LaTeX"@
    } else if i == 2 {
        "Figures"@
    } else {
        "BibTeX"@
    }
}

/// Whether the lines of the output files cut cleanly to `w` bytes.
pub open spec fn files_fit(state: OutputState, paths: Seq<String>, files: Seq<OutputFileStatus>, w: int) -> bool {
    forall|i: int| 0 <= i < 4 && i < paths.len() && i < files.len() ==> crate::stage_view::cuts_cleanly(
        output_file_line(state.selected as int == i, files[i].exists, output_label(i), (#[trigger] paths[i])@,
            files[i].size_text@), w)
}


/// What output file `i` is, written under its line.
pub open spec fn output_note(i: int) -> Seq<char> {
    if i == 0 {
        "Final compiled paper"@
    } else if i == 1 {
        "Editable source document"@
    } else if i == 2 {
        "Generated diagrams and charts"@
    } else {
        "Citation database"@
    }
}

/// The style of the line of an output file.
pub open spec fn file_style(selected: bool, exists: bool) -> Style {
    if selected {
        highlight_in(Color::White, Color::Rgb(20, 50, 20))
    } else if exists {
        plain_in(Color::Green)
    } else {
        plain_in(Color::DarkGray)
    }
}

/// The two rows of output file `i` from row `y` of `inner`: its line and,
/// indented by nine spaces, its description, both cut to the width of
/// `inner` less two bytes.
pub open spec fn file_row(
    state: OutputState,
    paths: Seq<String>,
    files: Seq<OutputFileStatus>,
    inner: Area,
    i: int,
    y: int,
) -> Seq<Mark> {
    let w = inner.width - 2;
    let x = (inner.x + 2) as u16;
    let selected = state.selected as int == i;
    let line = output_file_line(selected, files[i].exists, output_label(i), paths[i]@, files[i].size_text@);
    seq![
        Mark::Text { x, y: y as u16, bytes: cut_bytes(utf8(line), w)->0, style: file_style(selected, files[i].exists) },
        Mark::Text { x, y: (y + 1) as u16, bytes: cut_bytes(utf8(spaces(9) + output_note(i)), w)->0, style: plain_in(Color::DarkGray) },
    ]
}

/// Whether output file `i` gets its rows from row `y`: there is such a file
/// (of the four, with a path and a status), and its rows end above the last
/// eight rows of `inner`.
pub open spec fn file_shown(paths: Seq<String>, files: Seq<OutputFileStatus>, inner: Area, i: int, y: int) -> bool {
    0 <= i < 4 && i < paths.len() && i < files.len() && y + 1 < sat_sub(inner.bottom_edge() as int, 8)
}

/// The rows of the output files from the `i`-th on, from row `y` on.
pub open spec fn file_rows_marks(
    state: OutputState,
    paths: Seq<String>,
    files: Seq<OutputFileStatus>,
    inner: Area,
    i: int,
    y: int,
) -> Seq<Mark>
    decreases 4 - i,
{
    if file_shown(paths, files, inner, i, y) {
        file_row(state, paths, files, inner, i, y) + file_rows_marks(state, paths, files, inner, i + 1, y + 2)
    } else {
        Seq::empty()
    }
}

/// The row after the rows of the output files from the `i`-th on, from row `y` on.
pub open spec fn files_end(paths: Seq<String>, files: Seq<OutputFileStatus>, inner: Area, i: int, y: int) -> int
    decreases 4 - i,
{
    if file_shown(paths, files, inner, i, y) { files_end(paths, files, inner, i + 1, y + 2) } else { y }
}

/// Whether statistic `j` is drawn with its row at `y`: there is such a
/// statistic, and `y` is above the last five rows of `inner`.
pub open spec fn stat_shown(stats: Seq<(String, String)>, inner: Area, j: int, y: int) -> bool {
    0 <= j < stats.len() && y < sat_sub(inner.bottom_edge() as int, 5)
}

/// Whether statistic `j`, when the last one ended before column `sx`, goes
/// on the next row: its `key:value ` would pass two columns before the right
/// edge of `inner`. (Its length is taken as a `u16`, as the screen takes
/// it.)
pub open spec fn stat_wraps(stats: Seq<(String, String)>, inner: Area, j: int, sx: int) -> bool {
    sx + (byte_len(stats[j].0@ + ":"@ + stats[j].1@ + " "@) as u16) > inner.right_edge() - 2
}

/// The statistics from the `j`-th on, the next one at column `sx` of row
/// `y` or, when it does not fit there, at the start of the next row: its
/// key, a colon and its value.
pub open spec fn stat_marks(stats: Seq<(String, String)>, inner: Area, j: int, y: int, sx: int) -> Seq<Mark>
    decreases stats.len() - j,
{
    if stat_shown(stats, inner, j, y) {
        let key = stats[j].0@;
        let val = stats[j].1@;
        let wrap = stat_wraps(stats, inner, j, sx);
        let y1 = if wrap { y + 1 } else { y };
        let kx = if wrap { inner.x + 4 } else { sx };
        let cx = kx + (byte_len(key) as u16);
        seq![
            text_mark(kx as u16, y1 as u16, key, plain_in(Color::Rgb(140, 100, 200))),
            text_mark(cx as u16, y1 as u16, ":"@, plain_in(Color::DarkGray)),
            text_mark((cx + 1) as u16, y1 as u16, val, bold_in(Color::Rgb(200, 180, 255))),
        ] + stat_marks(stats, inner, j + 1, y1, cx + 1 + (byte_len(val) as u16) + 2)
    } else {
        Seq::empty()
    }
}

/// The row of the last statistic drawn from the `j`-th on (as in `stat_marks`).
pub open spec fn stats_end(stats: Seq<(String, String)>, inner: Area, j: int, y: int, sx: int) -> int
    decreases stats.len() - j,
{
    if stat_shown(stats, inner, j, y) {
        let wrap = stat_wraps(stats, inner, j, sx);
        let y1 = if wrap { y + 1 } else { y };
        let kx = if wrap { inner.x + 4 } else { sx };
        let cx = kx + (byte_len(stats[j].0@) as u16);
        stats_end(stats, inner, j + 1, y1, cx + 1 + (byte_len(stats[j].1@) as u16) + 2)
    } else {
        y
    }
}

/// Whether the rows of the output files from the `i`-th on, from row `y`
/// on, can be drawn: the line of each shown file cuts between characters.
pub open spec fn file_rows_ok(
    state: OutputState,
    paths: Seq<String>,
    files: Seq<OutputFileStatus>,
    inner: Area,
    i: int,
    y: int,
) -> bool
    decreases 4 - i,
{
    if file_shown(paths, files, inner, i, y) {
        &&& cut_bytes(utf8(output_file_line(state.selected as int == i, files[i].exists, output_label(i), paths[i]@,
                files[i].size_text@)), inner.width - 2) is Some
        &&& file_rows_ok(state, paths, files, inner, i + 1, y + 2)
    } else {
        true
    }
}

/// Whether the statistics from the `j`-th on (as in `stat_marks`) can be
/// drawn: every column they reach stays within `u16`.
pub open spec fn stats_ok(stats: Seq<(String, String)>, inner: Area, j: int, y: int, sx: int) -> bool
    decreases stats.len() - j,
{
    if stat_shown(stats, inner, j, y) {
        let wrap = stat_wraps(stats, inner, j, sx);
        let y1 = if wrap { y + 1 } else { y };
        let kx = if wrap { inner.x + 4 } else { sx };
        let cx = kx + (byte_len(stats[j].0@) as u16);
        let next = cx + 1 + (byte_len(stats[j].1@) as u16) + 2;
        &&& sx + (byte_len(stats[j].0@ + ":"@ + stats[j].1@ + " "@) as u16) <= u16::MAX
        &&& next <= u16::MAX
        &&& stats_ok(stats, inner, j + 1, y1, next)
    } else {
        true
    }
}

/// Whether what follows the files from row `y` can be drawn: the
/// statistics, where they are shown.
pub open spec fn output_lower_ok(stats: Option<Seq<(String, String)>>, inner: Area, y: int) -> bool {
    (y + 4 < sat_sub(inner.bottom_edge() as int, 4)) ==> match stats {
        Some(st) => stats_ok(st, inner, 0, y + 2, inner.x + 4),
        None => true,
    }
}

/// Whether the output screen over `area` can be drawn.
pub open spec fn output_ok(
    area: Area,
    state: OutputState,
    paths: Seq<String>,
    files: Seq<OutputFileStatus>,
    stats: Option<Seq<(String, String)>>,
) -> bool {
    let inner = inside_borders(area);
    (inner.height < 8 || inner.width < 40) || (file_rows_ok(state, paths, files, inner, 0, inner.y + 3)
        && output_lower_ok(stats, inner, files_end(paths, files, inner, 0, inner.y + 3) + 1))
}

/// The action button `i`: its row number, label and color.
pub open spec fn action_id(i: int) -> usize {
    if i == 0 { ACTION_REVISE } else if i == 1 { ACTION_NEW } else { ACTION_QUIT }
}

/// The label of action button `i`.
pub open spec fn action_label(i: int) -> Seq<char> {
    if i == 0 { "REVISE"@ } else if i == 1 { "NEW PROJECT"@ } else { "QUIT"@ }
}

/// The color of action button `i`.
pub open spec fn action_color(i: int) -> Color {
    if i == 0 { Color::Yellow } else if i == 1 { Color::Rgb(100, 200, 255) } else { Color::Red }
}

/// The action buttons from the `i`-th on, side by side from column `bx` of
/// row `y`, while each ends two columns before the right edge of `inner`:
/// each a box of three rows around its label.
pub open spec fn action_marks(state: OutputState, inner: Area, y: int, i: int, bx: int) -> Seq<Mark>
    decreases 3 - i,
{
    if 0 <= i < 3 && bx + action_label(i).len() + 4 + 2 <= inner.right_edge() {
        let label = action_label(i);
        let selected = state.selected == action_id(i);
        let edge = "+"@ + repeated('-', (label.len() + 2) as nat) + "+"@;
        let mid = "| "@ + label + " |"@;
        let style = if selected { highlight_in(Color::White, Color::Rgb(50, 20, 60)) } else { plain_in(action_color(i)) };
        let edge_style = if selected { plain_in(Color::White) } else { plain_in(Color::DarkGray) };
        seq![
            text_mark(bx as u16, y as u16, edge, edge_style),
            text_mark(bx as u16, (y + 1) as u16, mid, style),
            text_mark(bx as u16, (y + 2) as u16, edge, edge_style),
        ] + action_marks(state, inner, y, i + 1, bx + label.len() + 7)
    } else {
        Seq::empty()
    }
}

/// A rule of `c`s as wide as `inner` less four, at most 80.
pub open spec fn output_rule(inner: Area, c: char) -> Seq<char> {
    let n = sat_sub(inner.width as int, 4);
    repeated(c, if n < 80 { n as nat } else { 80 })
}

/// What follows the files from row `y` of `inner`: when five rows are left
/// above its last four, a rule, the heading `STATS` and the statistics (if
/// any); then, when four rows are left above its bottom, a rule of `=` and
/// the action buttons under it.
pub open spec fn output_lower(
    state: OutputState,
    stats: Option<Seq<(String, String)>>,
    inner: Area,
    y: int,
) -> Seq<Mark> {
    let x = (inner.x + 2) as u16;
    let bottom = inner.bottom_edge() as int;
    let with_stats = y + 4 < sat_sub(bottom, 4);
    let ys = if with_stats {
        match stats {
            Some(st) => stats_end(st, inner, 0, y + 2, inner.x + 4) + 2,
            None => y + 2,
        }
    } else {
        y
    };
    (if with_stats {
        seq![
            text_mark(x, y as u16, output_rule(inner, '-'), plain_in(Color::DarkGray)),
            text_mark(x, (y + 1) as u16, "STATS"@, heading_in(Color::Rgb(100, 200, 255))),
        ] + match stats {
            Some(st) => stat_marks(st, inner, 0, y + 2, inner.x + 4),
            None => Seq::empty(),
        }
    } else {
        Seq::empty()
    }) + (if ys + 3 < bottom {
        seq![text_mark(x, ys as u16, output_rule(inner, '='), plain_in(Color::Rgb(80, 40, 100)))]
            + action_marks(state, inner, ys + 1, 0, inner.x + 4)
    } else {
        Seq::empty()
    })
}

/// The output screen over `area`: the titled box; inside it, when it is at
/// least 40 by 8, the heading `GENERATED FILES`, the output files, what
/// follows them one row further down, and the hint centred on the last row.
pub open spec fn output_marks(
    area: Area,
    state: OutputState,
    name: Seq<char>,
    paths: Seq<String>,
    files: Seq<OutputFileStatus>,
    stats: Option<Seq<(String, String)>>,
) -> Seq<Mark> {
    let inner = inside_borders(area);
    let frame = seq![Mark::Frame { area, title: output_title(name), title_style: title_style(), border_style: screen_border_style() }];
    if inner.height < 8 || inner.width < 40 {
        frame
    } else {
        let x = (inner.x + 2) as u16;
        frame
            + seq![text_mark(x, (inner.y + 1) as u16, "GENERATED FILES"@, heading_in(Color::Green))]
            + (file_rows_marks(state, paths, files, inner, 0, inner.y + 3)
            + output_lower(state, stats, inner, files_end(paths, files, inner, 0, inner.y + 3) + 1)
            + seq![text_mark(
                (x + sat_sub(inner.width as int, byte_len(output_hint()) + 4int) / 2) as u16,
                (inner.bottom_edge() - 1) as u16,
                output_hint(),
                italic_in(Color::DarkGray),
            )])
    }
}

/// The rows of the output files from row `y0`, while they fit above the
/// last eight rows; gives the row after them, or nothing where a line is cut
/// inside a character.
fn file_rows(state: &OutputState, paths: &Vec<String>, files: &Vec<OutputFileStatus>, inner: Area, y0: u16, ops: &mut Vec<Draw>) -> (r: Option<u16>)
    requires
        fits_u16(inner),
        inner.width >= 40,
        inner.y <= y0 <= inner.bottom_edge(),
        drawn_within(old(ops)@, 0, inner.x as int, inner.y as int, inner.bottom_edge() as int),
    ensures
        drawn_within(final(ops)@, 0, inner.x as int, inner.y as int, inner.bottom_edge() as int),
        r matches Some(y) ==> inner.y <= y <= inner.bottom_edge(),
        r matches Some(y) ==> y == files_end(paths@, files@, inner, 0, y0 as int),
        r is Some ==> marks(final(ops)@) == marks(old(ops)@) + file_rows_marks(*state, paths@, files@, inner, 0, y0 as int),
        r is Some <==> file_rows_ok(*state, paths@, files@, inner, 0, y0 as int),
        files_fit(*state, paths@, files@, inner.width - 2) ==> r is Some,
{
    let ghost (l, t, b) = (inner.x as int, inner.y as int, inner.bottom_edge() as int);
    let ghost fits = files_fit(*state, paths@, files@, inner.width - 2);
    let ghost target = marks(ops@) + file_rows_marks(*state, paths@, files@, inner, 0, y0 as int);
    let x = inner.left() + 2;
    let bottom = inner.bottom();
    let stop: u16 = if bottom >= 8 { bottom - 8 } else { 0 };
    let w: usize = inner.width as usize - 2;
    let mut y = y0;
    let mut i: usize = 0;
    while i < 4 && i < paths.len() && i < files.len() && (y as u32) + 1 < stop as u32
        invariant
            fits_u16(inner),
            inner.width >= 40,
            x == inner.x + 2,
            bottom == inner.bottom_edge(),
            stop <= bottom,
            l == inner.x, t == inner.y, b == inner.bottom_edge(),
            inner.y <= y <= bottom,
            drawn_within(ops@, 0, l, t, b),
            fits == files_fit(*state, paths@, files@, inner.width - 2),
            w == inner.width - 2,
            stop == sat_sub(inner.bottom_edge() as int, 8),
            marks(ops@) + file_rows_marks(*state, paths@, files@, inner, i as int, y as int) == target,
            files_end(paths@, files@, inner, i as int, y as int) == files_end(paths@, files@, inner, 0, y0 as int),
            file_rows_ok(*state, paths@, files@, inner, i as int, y as int) == file_rows_ok(*state, paths@, files@, inner, 0, y0 as int),
        decreases 4 - i,
    {
        let ghost (before, yi) = (marks(ops@), y as int);
        let (label, desc) = if i == 0 {
            ("PDF", "Final compiled paper")
        } else if i == 1 {
            ("LaTeX", "Editable source document")
        } else if i == 2 {
            ("Figures", "Generated diagrams and charts")
        } else {
            ("BibTeX", "Citation database")
        };
        let selected = state.selected == i;
        let exists = files[i].exists;
        let mut line = owned(if selected { ">>" } else { "  " });
        push_str(&mut line, " ");
        push_str(&mut line, if exists { "[*]" } else { "[ ]" });
        push_str(&mut line, " ");
        push_padded(&mut line, label, 8);
        push_str(&mut line, " ");
        let fname = match file_name(paths[i].as_str()) {
            Some(n) => n,
            None => owned(""),
        };
        push_padded(&mut line, fname.as_str(), 30);
        push_str(&mut line, " ");
        push_str(&mut line, files[i].size_text.as_str());
        proof {
            assert(label@ == output_label(i as int));
            assert(line@ =~= output_file_line(selected, exists, output_label(i as int), paths@[i as int]@, files@[i as int].size_text@));
            if fits {
                assert(crate::stage_view::cuts_cleanly(output_file_line(state.selected as int == i as int, files@[i as int].exists,
                    output_label(i as int), paths@[i as int]@, files@[i as int].size_text@), inner.width - 2));
            }
        }
        let style = if selected {
            Style::highlight(Color::White, Color::Rgb(20, 50, 20))
        } else if exists {
            Style::fg(Color::Green)
        } else {
            Style::fg(Color::DarkGray)
        };
        if !push_fitted_in(ops, x, y, line.as_str(), w, style, Ghost(0), Ghost(l), Ghost(t), Ghost(b)) {
            return None;
        }
        y = y + 1;
        let mut dl = owned("         ");
        push_str(&mut dl, desc);
        proof {
            reveal_strlit("         ");
            reveal_strlit("Final compiled paper");
            reveal_strlit("Editable source document");
            reveal_strlit("Generated diagrams and charts");
            reveal_strlit("Citation database");
            crate::draw::lemma_ascii_byte_len("         "@);
            crate::draw::lemma_ascii_byte_len(desc@);
            crate::draw::lemma_utf8_concat("         "@, desc@);
            assert(byte_len(dl@) <= 38);
            assert(crate::stage_view::cuts_cleanly(dl@, w as int));
        }
        if !push_fitted_in(ops, x, y, dl.as_str(), w, Style::fg(Color::DarkGray), Ghost(0), Ghost(l), Ghost(t), Ghost(b)) {
            return None;
        }
        proof {
            assert(desc@ == output_note(i as int));
            assert(dl@ =~= spaces(9) + output_note(i as int));
            assert(marks(ops@) =~= before + file_row(*state, paths@, files@, inner, i as int, yi));
            assert(before + (file_row(*state, paths@, files@, inner, i as int, yi)
                + file_rows_marks(*state, paths@, files@, inner, i + 1, yi + 2))
                =~= marks(ops@) + file_rows_marks(*state, paths@, files@, inner, i + 1, yi + 2));
        }
        y = y + 1;
        i += 1;
    }
    assert(marks(ops@) =~= target);
    assert(file_rows_ok(*state, paths@, files@, inner, i as int, y as int));
    Some(y)
}

/// The statistics from row `y0`: `key:value` pairs, wrapping onto further
/// rows while there is room; gives the row after them, or nothing where a
/// column would pass `u16::MAX`.
fn stats_rows(stats: &Vec<(String, String)>, inner: Area, y0: u16, ops: &mut Vec<Draw>) -> (r: Option<u16>)
    requires
        fits_u16(inner),
        inner.width >= 40,
        inner.y <= y0,
        y0 + 5 <= inner.bottom_edge(),
        drawn_within(old(ops)@, 0, inner.x as int, inner.y as int, inner.bottom_edge() as int),
    ensures
        drawn_within(final(ops)@, 0, inner.x as int, inner.y as int, inner.bottom_edge() as int),
        r matches Some(y) ==> inner.y <= y <= inner.bottom_edge(),
        r matches Some(y) ==> y == stats_end(stats@, inner, 0, y0 as int, inner.x + 4) + 2,
        r is Some ==> marks(final(ops)@) == marks(old(ops)@) + stat_marks(stats@, inner, 0, y0 as int, inner.x + 4),
        r is Some <==> stats_ok(stats@, inner, 0, y0 as int, inner.x + 4),
{
    let ghost target = marks(ops@) + stat_marks(stats@, inner, 0, y0 as int, inner.x + 4);
    let ghost (l, t, b) = (inner.x as int, inner.y as int, inner.bottom_edge() as int);
    let x = inner.left() + 2;
    let bottom = inner.bottom();
    let right = inner.right();
    let stop: u16 = if bottom >= 5 { bottom - 5 } else { 0 };
    let edge: u16 = right - 2;
    let mut y = y0;
    let mut sx: u16 = x + 2;
    let mut i: usize = 0;
    while i < stats.len() && y < stop
        invariant
            fits_u16(inner),
            inner.width >= 40,
            x == inner.x + 2,
            bottom == inner.bottom_edge(),
            stop == if bottom >= 5 { bottom - 5 } else { 0 },
            l == inner.x, t == inner.y, b == inner.bottom_edge(),
            inner.y <= y,
            y + 5 <= bottom,
            inner.x <= sx,
            x + 2 <= inner.right_edge(),
            edge == inner.right_edge() - 2,
            drawn_within(ops@, 0, l, t, b),
            stop == sat_sub(inner.bottom_edge() as int, 5),
            marks(ops@) + stat_marks(stats@, inner, i as int, y as int, sx as int) == target,
            stats_end(stats@, inner, i as int, y as int, sx as int) == stats_end(stats@, inner, 0, y0 as int, inner.x + 4),
            stats_ok(stats@, inner, i as int, y as int, sx as int) == stats_ok(stats@, inner, 0, y0 as int, inner.x + 4),
        decreases stats@.len() - i,
    {
        let ghost (before, yi, sxi) = (marks(ops@), y as int, sx as int);
        let key = stats[i].0.as_str();
        let val = stats[i].1.as_str();
        let mut entry = owned(key);
        push_str(&mut entry, ":");
        push_str(&mut entry, val);
        push_str(&mut entry, " ");
        let reach = match sx.checked_add(byte_length(entry.as_str()) as u16) {
            Some(v) => v,
            None => {
                return None;
            },
        };
        if reach > edge {
            y = y + 1;
            sx = x + 2;
        }
        push_text_in(ops, sx, y, key, Style::fg(Color::Rgb(140, 100, 200)), Ghost(0), Ghost(l), Ghost(t), Ghost(b));
        sx = match sx.checked_add(byte_length(key) as u16) {
            Some(v) => v,
            None => {
                return None;
            },
        };
        push_text_in(ops, sx, y, ":", Style::fg(Color::DarkGray), Ghost(0), Ghost(l), Ghost(t), Ghost(b));
        sx = match sx.checked_add(1) {
            Some(v) => v,
            None => {
                return None;
            },
        };
        push_text_in(ops, sx, y, val, Style::bold(Color::Rgb(200, 180, 255)), Ghost(0), Ghost(l), Ghost(t), Ghost(b));
        sx = match sx.checked_add(byte_length(val) as u16) {
            Some(v) => match v.checked_add(2) {
                Some(w) => w,
                None => {
                    return None;
                },
            },
            None => {
                return None;
            },
        };
        proof {
            assert(entry@ =~= stats@[i as int].0@ + ":"@ + stats@[i as int].1@ + " "@);
            assert(marks(ops@) =~= before + seq![
                text_mark(ops@[ops@.len() - 3]->Text_x, y, key@, plain_in(Color::Rgb(140, 100, 200))),
                text_mark(ops@[ops@.len() - 2]->Text_x, y, ":"@, plain_in(Color::DarkGray)),
                text_mark(ops@[ops@.len() - 1]->Text_x, y, val@, bold_in(Color::Rgb(200, 180, 255))),
            ]);
            let rest = stat_marks(stats@, inner, i + 1, y as int, sx as int);
            assert(stat_marks(stats@, inner, i as int, yi, sxi) == marks(ops@).subrange(before.len() as int, marks(ops@).len() as int) + rest);
            assert(before + (marks(ops@).subrange(before.len() as int, marks(ops@).len() as int) + rest) =~= marks(ops@) + rest);
        }
        i += 1;
    }
    assert(marks(ops@) =~= target);
    assert(stats_ok(stats@, inner, i as int, y as int, sx as int));
    Some(y + 2)
}

/// The three action buttons from row `y`, side by side while they fit.
fn action_buttons(state: &OutputState, inner: Area, y: u16, ops: &mut Vec<Draw>)
    requires
        fits_u16(inner),
        inner.width >= 40,
        inner.y <= y,
        y + 2 < inner.bottom_edge(),
        drawn_within(old(ops)@, 0, inner.x as int, inner.y as int, inner.bottom_edge() as int),
    ensures
        drawn_within(final(ops)@, 0, inner.x as int, inner.y as int, inner.bottom_edge() as int),
        marks(final(ops)@) == marks(old(ops)@) + action_marks(*state, inner, y as int, 0, inner.x + 4),
{
    let ghost (l, t, b) = (inner.x as int, inner.y as int, inner.bottom_edge() as int);
    let ghost target = marks(ops@) + action_marks(*state, inner, y as int, 0, inner.x + 4);
    let right = inner.right();
    let mut bx: usize = inner.left() as usize + 4;
    let mut i: usize = 0;
    while i < 3
        invariant
            fits_u16(inner),
            right == inner.right_edge(),
            l == inner.x, t == inner.y, b == inner.bottom_edge(),
            inner.y <= y,
            y + 2 < b,
            inner.x + 4 <= bx <= right + 20,
            i <= 3,
            drawn_within(ops@, 0, l, t, b),
            marks(ops@) + action_marks(*state, inner, y as int, i as int, bx as int) == target,
        decreases 3 - i,
    {
        let ghost before = marks(ops@);
        let (id, label, color) = if i == 0 {
            (ACTION_REVISE, "REVISE", Color::Yellow)
        } else if i == 1 {
            (ACTION_NEW, "NEW PROJECT", Color::Rgb(100, 200, 255))
        } else {
            (ACTION_QUIT, "QUIT", Color::Red)
        };
        proof {
            reveal_strlit("REVISE");
            reveal_strlit("NEW PROJECT");
            reveal_strlit("QUIT");
            crate::draw::lemma_ascii_byte_len(label@);
        }
        let selected = state.selected == id;
        let box_w: usize = byte_length(label) + 4;
        if bx + box_w + 2 > right as usize {
            proof {
                assert(action_marks(*state, inner, y as int, i as int, bx as int) == Seq::<Mark>::empty());
                assert(marks(ops@) =~= target);
            }
            i = 3;
            assert(marks(ops@) + action_marks(*state, inner, y as int, i as int, bx as int) =~= target);
            continue;
        }
        let mut top_bot = owned("+");
        push_repeated(&mut top_bot, '-', box_w - 2);
        push_str(&mut top_bot, "+");
        let mut mid = owned("| ");
        push_str(&mut mid, label);
        push_str(&mut mid, " |");
        let style = if selected { Style::highlight(Color::White, Color::Rgb(50, 20, 60)) } else { Style::fg(color) };
        let border_style = if selected { Style::fg(Color::White) } else { Style::fg(Color::DarkGray) };
        push_text_in(ops, bx as u16, y, top_bot.as_str(), border_style, Ghost(0), Ghost(l), Ghost(t), Ghost(b));
        push_text_in(ops, bx as u16, y + 1, mid.as_str(), style, Ghost(0), Ghost(l), Ghost(t), Ghost(b));
        push_text_in(ops, bx as u16, y + 2, top_bot.as_str(), border_style, Ghost(0), Ghost(l), Ghost(t), Ghost(b));
        proof {
            assert(label@ == action_label(i as int));
            assert(id == action_id(i as int));
            assert(top_bot@ =~= "+"@ + repeated('-', (label@.len() + 2) as nat) + "+"@);
            assert(mid@ =~= "| "@ + label@ + " |"@);
            let rest = action_marks(*state, inner, y as int, i + 1, bx + box_w + 3);
            let mine = marks(ops@).subrange(before.len() as int, marks(ops@).len() as int);
            assert(marks(ops@) =~= before + mine);
            assert(action_marks(*state, inner, y as int, i as int, bx as int) == mine + rest);
            assert(before + (mine + rest) =~= marks(ops@) + rest);
        }
        bx = bx + box_w + 3;
        i += 1;
    }
    assert(action_marks(*state, inner, y as int, i as int, bx as int) == Seq::<Mark>::empty());
    assert(marks(ops@) =~= target);
}

/// Draws what follows the files from row `y0`: the statistics section and
/// the action buttons, each where there is room; false where a column would
/// pass `u16::MAX`.
#[verifier::spinoff_prover]
#[verifier::rlimit(40)]
fn output_lower_rows(
    state: &OutputState,
    stats: Option<&Vec<(String, String)>>,
    inner: Area,
    y0: u16,
    ops: &mut Vec<Draw>,
) -> (ok: bool)
    requires
        fits_u16(inner),
        inner.width >= 40,
        inner.height >= 8,
        inner.y <= y0 <= inner.bottom_edge() + 1,
        drawn_within(old(ops)@, 0, inner.x as int, inner.y as int, inner.bottom_edge() as int),
    ensures
        drawn_within(final(ops)@, 0, inner.x as int, inner.y as int, inner.bottom_edge() as int),
        ok == output_lower_ok(match stats { Some(st) => Some(st@), None => None }, inner, y0 as int),
        ok ==> marks(final(ops)@) == marks(old(ops)@) + output_lower(*state,
            match stats { Some(st) => Some(st@), None => None }, inner, y0 as int),
{
    let ghost (l, t, b) = (inner.x as int, inner.y as int, inner.bottom_edge() as int);
    let ghost m0 = marks(ops@);
    let ghost sv = match stats { Some(st) => Some(st@), None => None::<Seq<(String, String)>> };
    let tw: usize = inner.width as usize;
    let bottom = inner.bottom();
    let x = inner.left() + 2;
    let mut y = y0;
    let stop4: u16 = if bottom >= 4 { bottom - 4 } else { 0 };
    let n: usize = if tw >= 4 { tw - 4 } else { 0 };
    let sep_w: usize = if n < 80 { n } else { 80 };
    if (y as u32) + 4 < stop4 as u32 {
        let sep = crate::draw::repeat_char('-', sep_w);
        push_text_in(ops, x, y, sep.as_str(), Style::fg(Color::DarkGray), Ghost(0), Ghost(l), Ghost(t), Ghost(b));
        y = y + 1;
        push_text_in(ops, x, y, "STATS", Style::heading(Color::Rgb(100, 200, 255)), Ghost(0), Ghost(l), Ghost(t), Ghost(b));
        y = y + 1;
        match stats {
            Some(st) => {
                y = match stats_rows(st, inner, y, ops) {
                    Some(y) => y,
                    None => {
                        return false;
                    },
                };
            },
            None => {},
        }
    }
    let ghost (ys, m1) = (y as int, marks(ops@));
    assert(m1 =~= m0 + (if y0 + 4 < sat_sub(b, 4) {
        seq![
            text_mark(x, y0, output_rule(inner, '-'), plain_in(Color::DarkGray)),
            text_mark(x, (y0 + 1) as u16, "STATS"@, heading_in(Color::Rgb(100, 200, 255))),
        ] + match sv {
            Some(st) => stat_marks(st, inner, 0, y0 + 2, inner.x + 4),
            None => Seq::empty(),
        }
    } else {
        Seq::empty()
    }));
    if (y as u32) + 3 < bottom as u32 {
        let sep = crate::draw::repeat_char('=', sep_w);
        push_text_in(ops, x, y, sep.as_str(), Style::fg(Color::Rgb(80, 40, 100)), Ghost(0), Ghost(l), Ghost(t), Ghost(b));
        y = y + 1;
        action_buttons(state, inner, y, ops);
    }
    assert(marks(ops@) =~= m0 + output_lower(*state, sv, inner, y0 as int));
    true
}

/// Draws the output screen over `area` for the output files `paths` (from
/// `output_file_paths`) and what the disk says of them, `files`, and the
/// statistics of the first paper of the pipeline status file, if it has
/// any: the titled box; inside it, when it is at least 40 by 8, the files
/// with their descriptions, the statistics, the action buttons and a hint on
/// the last row. Nothing where a line would be cut inside a character or a
/// column would pass `u16::MAX`.
#[verifier::spinoff_prover]
#[verifier::rlimit(40)]
pub fn render(
    area: Area,
    state: &OutputState,
    app: &App,
    paths: &Vec<String>,
    files: &Vec<OutputFileStatus>,
    stats: Option<&Vec<(String, String)>>,
) -> (r: Option<Vec<Draw>>)
    requires
        fits_u16(area),
    ensures
        r matches Some(ops) ==> output_screen_drawn(ops@, area, app.config.name@),
        r matches Some(ops) ==> marks(ops@) == output_marks(area, *state, app.config.name@, paths@, files@,
            match stats { Some(st) => Some(st@), None => None }),
        r is Some <==> output_ok(area, *state, paths@, files@, match stats { Some(st) => Some(st@), None => None }),
{
    let ghost sv = match stats { Some(st) => Some(st@), None => None::<Seq<(String, String)>> };
    let mut ops: Vec<Draw> = Vec::new();
    let mut title = owned(" Research Pipeline -- Output: ");
    push_str(&mut title, app.config.name.as_str());
    push_str(&mut title, " ");
    push_frame(&mut ops, area, title, Style::bold(Color::Magenta), Style::fg(Color::Rgb(80, 40, 100)));
    let inner = bordered_inner(area);
    if inner.height < 8 || inner.width < 40 {
        assert(marks(ops@) =~= output_marks(area, *state, app.config.name@, paths@, files@, sv));
        return Some(ops);
    }
    let ghost (l, t, b) = (inner.x as int, inner.y as int, inner.bottom_edge() as int);
    let bottom = inner.bottom();
    let x = inner.left() + 2;
    let mut y = inner.top() + 1;
    let mut body: Vec<Draw> = Vec::new();
    push_text_in(&mut body, x, y, "GENERATED FILES", Style::heading(Color::Green), Ghost(0), Ghost(l), Ghost(t), Ghost(b));
    y = y + 2;
    let mut rest: Vec<Draw> = Vec::new();
    y = match file_rows(state, paths, files, inner, y, &mut rest) {
        Some(y) => y,
        None => {
            return None;
        },
    };
    y = y + 1;
    if !output_lower_rows(state, stats, inner, y, &mut rest) {
        return None;
    }
    let hint = "Up/Down navigate | Enter select | Esc back";
    let hl: u16 = byte_length(hint) as u16;
    proof {
        reveal_strlit("Up/Down navigate | Enter select | Esc back");
        crate::draw::lemma_ascii_byte_len(hint@);
    }
    let hx = x + (if inner.width > hl + 4 { inner.width - (hl + 4) } else { 0 }) / 2;
    push_text_in(&mut rest, hx, bottom - 1, hint, Style::italic(Color::DarkGray), Ghost(0), Ghost(l), Ghost(t), Ghost(b));
    let ghost (f0, b0, r0) = (ops@, body@, rest@);
    ops.append(&mut body);
    ops.append(&mut rest);
    proof {
        assert(ops@ =~= f0 + b0 + r0);
        crate::draw::lemma_marks_append(f0, b0);
        crate::draw::lemma_marks_append(f0 + b0, r0);
        assert(marks(ops@) =~= output_marks(area, *state, app.config.name@, paths@, files@, sv));
        assert(drawn_within(f0, 1, l, t, b));
        crate::draw::lemma_drawn_within_append(f0, b0, 1, l, t, b, t, b);
        crate::draw::lemma_drawn_within_append(f0 + b0, r0, 1, l, t, b, t, b);
        assert(ops@[1] == b0[0]);
        assert(ops@.last() == r0.last());
    }
    Some(ops)
}

} // verus!
