use vstd::prelude::*;

use crate::app::{is_fresh_config, App, ProjectConfig, RecentProject, Screen};
use crate::draw::{
    bordered_inner, byte_len, byte_length, cut_bytes, decimal, drawn_within, frame_at, inside_borders,
    marks, padded, push_decimal, push_fitted_in, push_frame, push_padded, push_repeated, push_text_in,
    repeated, sat_sub, text_at, text_mark, Area, Draw, Mark,
};
use crate::pipeline_view::{fits_u16, screen_border_style, title_style};
use crate::style::{bold_in, heading_in, highlight_in, italic_in, plain_in, Color, Style};
use crate::text::{owned, utf8};

verus! {

/// The project-select screen: `NEW PROJECT`, `OPEN EXISTING`, then one row
/// per recent project.
pub struct ProjectSelectState {
    /// 0 is `NEW PROJECT`, 1 is `OPEN EXISTING`, 2 and up the recent projects.
    pub selected: usize,
    pub total_items: usize,
}

/// The selection after moving up one row.
pub open spec fn select_up(s: ProjectSelectState) -> ProjectSelectState {
    ProjectSelectState { selected: if s.selected > 0 { (s.selected - 1) as usize } else { s.selected }, ..s }
}

/// The selection after moving down one row.
pub open spec fn select_down(s: ProjectSelectState) -> ProjectSelectState {
    ProjectSelectState {
        selected: if s.selected + 1 < s.total_items { (s.selected + 1) as usize } else { s.selected },
        ..s
    }
}

/// `b` is the app after the Enter key on the project-select screen `s` over `a`.
pub open spec fn select_entered(s: ProjectSelectState, a: App, b: App) -> bool {
    &&& (b.recents == a.recents)
    &&& (b.should_quit == a.should_quit)
    &&& (s.selected < 2 ==> b.screen == Screen::InputFiles && is_fresh_config(b.config))
    &&& (s.selected >= 2 && s.selected - 2 < a.recents@.len() ==> {
            let recent = a.recents@[s.selected - 2];
            &&& b.screen == Screen::PipelineExecution
            &&& b.config.name@ == recent.name@
            &&& b.config.venue@ == recent.venue@
            &&& b.config.slots == a.config.slots
            &&& b.config.project_dir == a.config.project_dir
            &&& b.config.output_dir == a.config.output_dir
        })
    &&& (s.selected >= 2 && s.selected - 2 >= a.recents@.len() ==> b == a)
}

impl ProjectSelectState {
    /// The screen for `app`, with `NEW PROJECT` selected.
    pub fn new(app: &App) -> (r: Self)
        requires
            app.recents@.len() + 2 <= usize::MAX,
        ensures
            r.selected == 0,
            r.total_items == app.recents@.len() + 2,
    {
        ProjectSelectState { selected: 0, total_items: 2 + app.recents.len() }
    }

    /// Selects the row above, if any.
    pub fn move_up(&mut self)
        ensures
            *final(self) == select_up(*old(self)),
    {
        if self.selected > 0 {
            self.selected -= 1;
        }
    }

    /// Selects the row below, if any.
    pub fn move_down(&mut self)
        ensures
            *final(self) == select_down(*old(self)),
    {
        if self.total_items > 0 && self.selected < self.total_items - 1 {
            self.selected += 1;
        }
    }

    /// Acts on the selected row: both buttons start a fresh project on the
    /// input screen; a recent project is opened on the pipeline screen with its
    /// name and venue.
    pub fn enter(&self, app: &mut App)
        ensures
            select_entered(*self, *old(app), *final(app)),
    {
        if self.selected < 2 {
            app.config = ProjectConfig::default();
            app.screen = Screen::InputFiles;
        } else {
            let idx = self.selected - 2;
            if idx < app.recents.len() {
                let name = owned(app.recents[idx].name.as_str());
                let venue = owned(app.recents[idx].venue.as_str());
                app.config.name = name;
                app.config.venue = venue;
                app.screen = Screen::PipelineExecution;
            }
        }
    }
}

/// On a non-empty list, moving the selection up or down keeps it on a row.
pub proof fn lemma_select_stays_on_a_row(s: ProjectSelectState)
    requires
        s.selected < s.total_items,
    ensures
        select_up(s).selected < s.total_items,
        select_down(s).selected < s.total_items,
{
}

/// Moving down and back up returns to the same row, unless already on the last row.
pub proof fn lemma_select_down_up(s: ProjectSelectState)
    requires
        s.selected + 1 < s.total_items,
    ensures
        select_up(select_down(s)) == s,
{
}


/// The filled cells of the ten-cell bar of a recent project: its stages
/// done out of its stages (at least one), in tenths, rounded down. (The
/// quotient of two such small integers, computed as floats and rounded down,
/// is this.)
pub open spec fn bar_filled(r: RecentProject) -> int {
    (10 * r.stages_done as int) / (if r.stages_total > 1 { r.stages_total as int } else { 1 })
}

/// The line of a recent project, when its bar has room for its stages
/// done: marker, name and venue padded to columns, stages done out of
/// stages, the bar and the status.
pub open spec fn recent_line(r: RecentProject, selected: bool) -> Seq<char> {
    (if selected { ">>"@ } else { "  "@ }) + " "@ + padded(r.name@, 30) + " "@ + padded(r.venue@, 18) + " "@
        + decimal(r.stages_done as nat) + "/"@ + decimal(r.stages_total as nat) + " "@
        + "["@ + repeated('#', bar_filled(r) as nat) + repeated('.', (10 - bar_filled(r)) as nat) + "]"@
        + " "@ + r.status@
}

/// The line of a recent project; nothing when it has done more stages than
/// it has, as its bar cannot show that.
pub fn recent_line_of(r: &RecentProject, selected: bool) -> (l: Option<String>)
    ensures
        l is Some <==> bar_filled(*r) <= 10,
        l matches Some(t) ==> t@ == recent_line(*r, selected),
{
    let total: u32 = if r.stages_total > 1 { r.stages_total as u32 } else { 1 };
    let filled: u32 = (10 * r.stages_done as u32) / total;
    if filled > 10 {
        return None;
    }
    let mut t = owned(if selected { ">>" } else { "  " });
    crate::text::push_str(&mut t, " ");
    push_padded(&mut t, r.name.as_str(), 30);
    crate::text::push_str(&mut t, " ");
    push_padded(&mut t, r.venue.as_str(), 18);
    crate::text::push_str(&mut t, " ");
    push_decimal(&mut t, r.stages_done as u64);
    crate::text::push_str(&mut t, "/");
    push_decimal(&mut t, r.stages_total as u64);
    crate::text::push_str(&mut t, " ");
    crate::text::push_str(&mut t, "[");
    push_repeated(&mut t, '#', filled as usize);
    push_repeated(&mut t, '.', (10 - filled) as usize);
    crate::text::push_str(&mut t, "]");
    crate::text::push_str(&mut t, " ");
    crate::text::push_str(&mut t, r.status.as_str());
    Some(t)
}

/// The hint at the bottom of the project-select screen.
pub open spec fn select_hint() -> Seq<char> {
    "Up/Down navigate  |  Enter select  |  q quit"@
}

/// Whether `ops` is the project-select screen over `area`: the titled box,
/// only that when its inside is smaller than 30 by 6, else everything inside
/// it with the hint centred on its last row at the end.
pub open spec fn select_screen_drawn(ops: Seq<Draw>, area: Area) -> bool {
    let inner = inside_borders(area);
    &&& ops.len() >= 1
    &&& frame_at(ops[0], area, " Research Pipeline -- Project Select "@, title_style(), screen_border_style())
    &&& (inner.height < 6 || inner.width < 30) ==> ops.len() == 1
    &&& !(inner.height < 6 || inner.width < 30) ==> {
        &&& ops.len() >= 3
        &&& drawn_within(ops, 1, inner.x as int, inner.y as int, inner.bottom_edge() as int)
        &&& text_at(ops[1], (inner.x + 2) as u16, (inner.y + 1) as u16, "Select a project or create a new one:"@,
                Style { fg: Some(Color::White), bg: None, bold: true, italic: false, underlined: false })
        &&& text_at(ops.last(), (inner.x + 2 + sat_sub(inner.width as int, byte_len(select_hint()) + 4int) / 2) as u16,
                (inner.bottom_edge() - 1) as u16, select_hint(),
                Style { fg: Some(Color::DarkGray), bg: None, bold: false, italic: true, underlined: false })
    }
}

/// The label of button `i`.
pub open spec fn button_label(i: int) -> Seq<char> {
    if i == 0 { "NEW PROJECT"@ } else { "OPEN EXISTING"@ }
}

/// What button `i` does, written beside it.
pub open spec fn button_note(i: int) -> Seq<char> {
    if i == 0 { "Start a new paper from input files"@ } else { "Browse for a project directory"@ }
}

/// The marker in front of a row: `>>` when the row is selected.
pub open spec fn row_marker(selected: bool) -> Seq<char> {
    if selected { ">>"@ } else { "  "@ }
}

/// The top and bottom edge of button `i`.
pub open spec fn button_edge(i: int, selected: bool) -> Seq<char> {
    row_marker(selected) + "+"@ + repeated('-', (button_label(i).len() + 2) as nat) + "+"@
}

/// The middle row of button `i`, with its label.
pub open spec fn button_middle(i: int, selected: bool) -> Seq<char> {
    row_marker(selected) + "| "@ + button_label(i) + " |"@
}

/// Button `i` drawn from row `y` of `inner`, when four rows are left above
/// its bottom: its edge, its middle row with its note two columns after it
/// when the note fits, its edge again; nothing otherwise.
pub open spec fn button_marks(state: ProjectSelectState, inner: Area, i: int, y: int) -> Seq<Mark> {
    let selected = state.selected as int == i;
    let x = (inner.x + 2) as u16;
    let text_style = if selected { highlight_in(Color::White, Color::Rgb(50, 20, 60)) } else { plain_in(Color::Rgb(180, 140, 255)) };
    let edge_style = if selected { plain_in(Color::White) } else { plain_in(Color::Rgb(80, 40, 100)) };
    let note_x = x + byte_len(button_middle(i, selected)) + 2;
    if y + 3 < inner.bottom_edge() {
        seq![text_mark(x, y as u16, button_edge(i, selected), edge_style),
            text_mark(x, (y + 1) as u16, button_middle(i, selected), text_style)]
        + (if note_x + byte_len(button_note(i)) <= inner.right_edge() {
            seq![text_mark(note_x as u16, (y + 1) as u16, button_note(i), plain_in(Color::DarkGray))]
        } else {
            Seq::empty()
        })
        + seq![text_mark(x, (y + 2) as u16, button_edge(i, selected), edge_style)]
    } else {
        Seq::empty()
    }
}

/// The row after a button drawn from row `y` of `inner`.
pub open spec fn after_button(inner: Area, y: int) -> int {
    if y + 3 < inner.bottom_edge() { y + 4 } else { y }
}

/// The style of the row of a recent project.
pub open spec fn recent_style(selected: bool) -> Style {
    if selected { highlight_in(Color::White, Color::Rgb(50, 20, 60)) } else { plain_in(Color::Gray) }
}

/// The row of recent project `r`, the `i`-th, at row `y` of `inner`: its
/// line cut to the width of `inner` less two bytes, and its last activity
/// ending two columns before the right edge when that is after the line.
/// (The length of the last activity is taken as a `u16`, as the screen
/// takes it.)
pub open spec fn recent_row(state: ProjectSelectState, r: RecentProject, inner: Area, i: int, y: int) -> Seq<Mark> {
    let selected = state.selected as int == i + 2;
    let line = recent_line(r, selected);
    let w = inner.width - 2;
    let len = if byte_len(line) < w { byte_len(line) as int } else { w };
    let x = inner.x + 2;
    let ts = r.last_activity@;
    let ts_x = sat_sub(inner.right_edge() as int, (byte_len(ts) as u16) + 2int);
    seq![Mark::Text { x: x as u16, y: y as u16, bytes: cut_bytes(utf8(line), w)->0, style: recent_style(selected) }]
    + (if byte_len(ts) > 0 && ts_x > x + len {
        seq![text_mark(ts_x as u16, y as u16, ts, plain_in(Color::DarkGray))]
    } else {
        Seq::empty()
    })
}

/// The rows of the recent projects from the `i`-th on, from row `y` of
/// `inner` on, while a row is left above its last.
pub open spec fn recent_row_marks(
    state: ProjectSelectState,
    recents: Seq<RecentProject>,
    inner: Area,
    i: int,
    y: int,
) -> Seq<Mark>
    decreases recents.len() - i,
{
    if i < 0 || i >= recents.len() || y + 1 >= inner.bottom_edge() {
        Seq::empty()
    } else {
        recent_row(state, recents[i], inner, i, y) + recent_row_marks(state, recents, inner, i + 1, y + 1)
    }
}

/// Whether the rows of the recent projects from the `i`-th on, from row `y`
/// on, can all be drawn: each shown project has no more stages done than
/// it has, its line cuts between characters, and its last activity is short
/// enough for its column to be computed.
pub open spec fn recent_rows_ok(state: ProjectSelectState, recents: Seq<RecentProject>, inner: Area, i: int, y: int) -> bool
    decreases recents.len() - i,
{
    if i < 0 || i >= recents.len() || y + 1 >= inner.bottom_edge() {
        true
    } else {
        let r = recents[i];
        let ts = byte_len(r.last_activity@);
        &&& bar_filled(r) <= 10
        &&& cut_bytes(utf8(recent_line(r, state.selected as int == i + 2)), inner.width - 2) is Some
        &&& (ts > 0 ==> (ts as u16) + 2 <= u16::MAX)
        &&& recent_rows_ok(state, recents, inner, i + 1, y + 1)
    }
}

/// Whether the project-select screen over `area` can be drawn.
pub open spec fn select_ok(area: Area, state: ProjectSelectState, recents: Seq<RecentProject>) -> bool {
    let inner = inside_borders(area);
    let bottom = inner.bottom_edge() as int;
    let y3 = after_button(inner, after_button(inner, inner.y + 3));
    let y4 = if y3 + 1 < bottom { y3 + 1 } else { y3 };
    let y5 = if y4 + 1 < bottom { y4 + 1 } else { y4 };
    (inner.height < 6 || inner.width < 30) || recent_rows_ok(state, recents, inner, 0, y5)
}

/// The recent projects from row `y` of `inner` on, or a note that there
/// are none.
pub open spec fn recents_marks(state: ProjectSelectState, recents: Seq<RecentProject>, inner: Area, y: int) -> Seq<Mark> {
    if recents.len() == 0 {
        if y < inner.bottom_edge() {
            seq![text_mark((inner.x + 4) as u16, y as u16, "(no recent projects)"@, italic_in(Color::DarkGray))]
        } else {
            Seq::empty()
        }
    } else {
        recent_row_marks(state, recents, inner, 0, y)
    }
}

/// What follows the buttons from row `y` of `inner`: a rule and the
/// heading of the recent projects, each where a row is left under it, then
/// the recent projects.
pub open spec fn lower_marks(state: ProjectSelectState, recents: Seq<RecentProject>, inner: Area, y: int) -> Seq<Mark> {
    let x = (inner.x + 2) as u16;
    let bottom = inner.bottom_edge() as int;
    let y4 = if y + 1 < bottom { y + 1 } else { y };
    let y5 = if y4 + 1 < bottom { y4 + 1 } else { y4 };
    let rule_len = sat_sub(inner.width as int, 4);
    let rule = repeated('-', if rule_len < 80 { rule_len as nat } else { 80 });
    (if y + 1 < bottom { seq![text_mark(x, y as u16, rule, plain_in(Color::DarkGray))] } else { Seq::empty() })
        + (if y4 + 1 < bottom {
            seq![text_mark(x, y4 as u16, "RECENT PROJECTS"@, heading_in(Color::Rgb(100, 200, 255)))]
        } else {
            Seq::empty()
        })
        + recents_marks(state, recents, inner, y5)
}

/// The project-select screen over `area`: the titled box; inside it, when it
/// is at least 30 by 6, the header, the two buttons, what follows them, and
/// the hint centred on the last row.
pub open spec fn select_marks(area: Area, state: ProjectSelectState, recents: Seq<RecentProject>) -> Seq<Mark> {
    let inner = inside_borders(area);
    let frame = seq![Mark::Frame {
        area,
        title: " Research Pipeline -- Project Select "@,
        title_style: title_style(),
        border_style: screen_border_style(),
    }];
    if inner.height < 6 || inner.width < 30 {
        frame
    } else {
        let x = (inner.x + 2) as u16;
        let y1 = inner.y + 3;
        let y2 = after_button(inner, y1);
        frame
            + seq![text_mark(x, (inner.y + 1) as u16, "Select a project or create a new one:"@, bold_in(Color::White))]
            + (button_marks(state, inner, 0, y1) + button_marks(state, inner, 1, y2)
            + lower_marks(state, recents, inner, after_button(inner, y2))
            + seq![text_mark(
                (x + sat_sub(inner.width as int, byte_len(select_hint()) + 4int) / 2) as u16,
                (inner.bottom_edge() - 1) as u16,
                select_hint(),
                italic_in(Color::DarkGray),
            )])
    }
}

/// Draws the two buttons of the project-select screen from row `y0`.
fn select_buttons(state: &ProjectSelectState, inner: Area, y0: u16, ops: &mut Vec<Draw>) -> (y: u16)
    requires
        fits_u16(inner),
        inner.width >= 30,
        inner.y <= y0 < inner.bottom_edge(),
        drawn_within(old(ops)@, 0, inner.x as int, inner.y as int, inner.bottom_edge() as int),
    ensures
        inner.y <= y <= inner.bottom_edge(),
        y == after_button(inner, after_button(inner, y0 as int)),
        drawn_within(final(ops)@, 0, inner.x as int, inner.y as int, inner.bottom_edge() as int),
        marks(final(ops)@) == marks(old(ops)@) + button_marks(*state, inner, 0, y0 as int)
            + button_marks(*state, inner, 1, after_button(inner, y0 as int)),
{
    let ghost (l, t, b) = (inner.x as int, inner.y as int, inner.bottom_edge() as int);
    let ghost start = marks(ops@);
    let x = inner.left() + 2;
    let bottom = inner.bottom();
    let right = inner.right();
    let mut y = y0;
    let mut i: usize = 0;
    while i < 2
        invariant
            fits_u16(inner),
            inner.width >= 30,
            x == inner.x + 2,
            bottom == inner.bottom_edge(),
            right == inner.right_edge(),
            l == inner.x, t == inner.y, b == inner.bottom_edge(),
            inner.y <= y <= bottom,
            drawn_within(ops@, 0, l, t, b),
            i <= 2,
            i == 0 ==> y == y0 && marks(ops@) == start,
            i == 1 ==> y == after_button(inner, y0 as int)
                && marks(ops@) == start + button_marks(*state, inner, 0, y0 as int),
            i == 2 ==> y == after_button(inner, after_button(inner, y0 as int))
                && marks(ops@) == start + button_marks(*state, inner, 0, y0 as int)
                    + button_marks(*state, inner, 1, after_button(inner, y0 as int)),
        decreases 2 - i,
    {
        let ghost (yi, before) = (y as int, marks(ops@));
        let (label, desc) = if i == 0 {
            ("NEW PROJECT", "Start a new paper from input files")
        } else {
            ("OPEN EXISTING", "Browse for a project directory")
        };
        let selected = state.selected == i;
        let marker = if selected { ">>" } else { "  " };
        let lw = byte_length(label);
        proof {
            reveal_strlit("NEW PROJECT");
            reveal_strlit("OPEN EXISTING");
            crate::draw::lemma_ascii_byte_len(label@);
        }
        let mut top_bot = owned(marker);
        crate::text::push_str(&mut top_bot, "+");
        push_repeated(&mut top_bot, '-', lw + 2);
        crate::text::push_str(&mut top_bot, "+");
        let mut mid = owned(marker);
        crate::text::push_str(&mut mid, "| ");
        crate::text::push_str(&mut mid, label);
        crate::text::push_str(&mut mid, " |");
        let sel_style = if selected { Style::highlight(Color::White, Color::Rgb(50, 20, 60)) } else { Style::fg(Color::Rgb(180, 140, 255)) };
        let border_style = if selected { Style::fg(Color::White) } else { Style::fg(Color::Rgb(80, 40, 100)) };
        proof {
            reveal_strlit("Start a new paper from input files");
            reveal_strlit("Browse for a project directory");
            assert(label@ == button_label(i as int));
            assert(desc@ == button_note(i as int));
            assert(top_bot@ =~= button_edge(i as int, selected));
            assert(mid@ =~= button_middle(i as int, selected));
        }
        if (y as u32) + 3 < bottom as u32 {
            push_text_in(ops, x, y, top_bot.as_str(), border_style, Ghost(0), Ghost(l), Ghost(t), Ghost(b));
            y = y + 1;
            push_text_in(ops, x, y, mid.as_str(), sel_style, Ghost(0), Ghost(l), Ghost(t), Ghost(b));
            let mw: u16 = byte_length(mid.as_str()) as u16;
            proof {
                reveal_strlit(">>");
                reveal_strlit("  ");
                reveal_strlit("| ");
                reveal_strlit(" |");
                crate::draw::lemma_utf8_concat(marker@, "| "@);
                crate::draw::lemma_utf8_concat(marker@ + "| "@, label@);
                crate::draw::lemma_utf8_concat(marker@ + "| "@ + label@, " |"@);
                crate::draw::lemma_ascii_byte_len(marker@);
                crate::draw::lemma_ascii_byte_len("| "@);
                crate::draw::lemma_ascii_byte_len(" |"@);
                assert(mid@ == marker@ + "| "@ + label@ + " |"@);
                assert(byte_len(mid@) < 30);
            }
            let desc_x = x + mw + 2;
            let dw: u16 = byte_length(desc) as u16;
            proof {
                reveal_strlit("Start a new paper from input files");
                reveal_strlit("Browse for a project directory");
                crate::draw::lemma_ascii_byte_len(desc@);
            }
            if (desc_x as u32) + (dw as u32) <= right as u32 {
                push_text_in(ops, desc_x, y, desc, Style::fg(Color::DarkGray), Ghost(0), Ghost(l), Ghost(t), Ghost(b));
            }
            y = y + 1;
            push_text_in(ops, x, y, top_bot.as_str(), border_style, Ghost(0), Ghost(l), Ghost(t), Ghost(b));
            y = y + 2;
        }
        assert(marks(ops@) =~= before + button_marks(*state, inner, i as int, yi));
        i += 1;
    }
    y
}


/// Whether every recent project can be shown: its bar has room for its
/// stages done, its line cuts cleanly to `w` bytes, and its last activity is
/// short enough to keep its column within `u16`.
pub open spec fn recents_fit(state: ProjectSelectState, recents: Seq<RecentProject>, w: int) -> bool {
    forall|i: int| 0 <= i < recents.len() ==> {
        &&& bar_filled(#[trigger] recents[i]) <= 10
        &&& crate::stage_view::cuts_cleanly(recent_line(recents[i], state.selected as int == i + 2), w)
        &&& byte_len(recents[i].last_activity@) < 65000
    }
}

/// Draws the rows of the recent projects from row `y0` while they fit above
/// the last row; false where a bar would have more stages done than it has
/// or a line would be cut inside a character.
fn recent_rows(state: &ProjectSelectState, app: &App, inner: Area, y0: u16, ops: &mut Vec<Draw>) -> (ok: bool)
    requires
        fits_u16(inner),
        inner.width >= 30,
        inner.y <= y0 <= inner.bottom_edge(),
        drawn_within(old(ops)@, 0, inner.x as int, inner.y as int, inner.bottom_edge() as int),
    ensures
        drawn_within(final(ops)@, 0, inner.x as int, inner.y as int, inner.bottom_edge() as int),
        recents_fit(*state, app.recents@, inner.width - 2) ==> ok,
        ok == recent_rows_ok(*state, app.recents@, inner, 0, y0 as int),
        ok ==> marks(final(ops)@) == marks(old(ops)@) + recents_marks(*state, app.recents@, inner, y0 as int),
{
    let ghost (l, t, b) = (inner.x as int, inner.y as int, inner.bottom_edge() as int);
    let ghost fits = recents_fit(*state, app.recents@, inner.width - 2);
    let ghost target = marks(ops@) + recents_marks(*state, app.recents@, inner, y0 as int);
    let x = inner.left() + 2;
    let bottom = inner.bottom();
    let right = inner.right();
    let tw: usize = inner.width as usize;
    let mut y = y0;
    if app.recents.len() == 0 {
        if y < bottom {
            push_text_in(ops, x + 2, y, "(no recent projects)", Style::italic(Color::DarkGray), Ghost(0), Ghost(l), Ghost(t), Ghost(b));
        }
        assert(marks(ops@) =~= target);
        return true;
    }
    let mut i: usize = 0;
    while i < app.recents.len() && (y as u32) + 1 < bottom as u32
        invariant
            fits_u16(inner),
            inner.width >= 30,
            x == inner.x + 2,
            bottom == inner.bottom_edge(),
            right == inner.right_edge(),
            tw == inner.width,
            l == inner.x, t == inner.y, b == inner.bottom_edge(),
            inner.y <= y <= bottom,
            drawn_within(ops@, 0, l, t, b),
            fits == recents_fit(*state, app.recents@, inner.width - 2),
            app.recents@.len() > 0,
            marks(ops@) + recent_row_marks(*state, app.recents@, inner, i as int, y as int) == target,
            recent_rows_ok(*state, app.recents@, inner, i as int, y as int)
                == recent_rows_ok(*state, app.recents@, inner, 0, y0 as int),
        decreases app.recents@.len() - i,
    {
        let ghost before = marks(ops@);
        let recent = &app.recents[i];
        let selected = match i.checked_add(2) {
            Some(idx) => state.selected == idx,
            None => false,
        };
        proof {
            if fits {
                assert(bar_filled(app.recents@[i as int]) <= 10);
                assert(crate::stage_view::cuts_cleanly(recent_line(app.recents@[i as int], state.selected as int == i + 2), inner.width - 2));
                assert(selected == (state.selected as int == i + 2));
                assert(byte_len(app.recents@[i as int].last_activity@) < 65000);
            }
        }
        assert(selected == (state.selected as int == i + 2));
        let line = match recent_line_of(recent, selected) {
            Some(l) => l,
            None => {
                return false;
            },
        };
        let llen = byte_length(line.as_str());
        let w: usize = tw - 2;
        let len: usize = if llen < w { llen } else { w };
        let style = if selected { Style::highlight(Color::White, Color::Rgb(50, 20, 60)) } else { Style::fg(Color::Gray) };
        if !push_fitted_in(ops, x, y, line.as_str(), w, style, Ghost(0), Ghost(l), Ghost(t), Ghost(b)) {
            return false;
        }
        let ghost row = recent_row(*state, app.recents@[i as int], inner, i as int, y as int);
        assert(marks(ops@) == before.push(row[0]));
        let ts = recent.last_activity.as_str();
        let tsl = byte_length(ts);
        if tsl > 0 {
            let back: u16 = match (tsl as u16).checked_add(2) {
                Some(v) => v,
                None => {
                    return false;
                },
            };
            let ts_x: u16 = if right > back { right - back } else { 0 };
            if ts_x > x + (len as u16) {
                push_text_in(ops, ts_x, y, ts, Style::fg(Color::DarkGray), Ghost(0), Ghost(l), Ghost(t), Ghost(b));
            }
        }
        proof {
            crate::draw::lemma_byte_len_empty(recent.last_activity@);
            assert(marks(ops@) =~= before + row);
            assert(recent_row_marks(*state, app.recents@, inner, i as int, y as int)
                == row + recent_row_marks(*state, app.recents@, inner, i + 1, y + 1));
            assert(before + (row + recent_row_marks(*state, app.recents@, inner, i + 1, y + 1))
                =~= marks(ops@) + recent_row_marks(*state, app.recents@, inner, i + 1, y + 1));
        }
        y = y + 1;
        i += 1;
    }
    assert(recent_row_marks(*state, app.recents@, inner, i as int, y as int) == Seq::<Mark>::empty());
    assert(recent_rows_ok(*state, app.recents@, inner, i as int, y as int));
    assert(marks(ops@) =~= target);
    true
}

/// Draws what follows the buttons from row `y0`: the rule, the heading of
/// the recent projects and the recent projects; false where a recent
/// project's line cannot be drawn.
fn select_lower(state: &ProjectSelectState, app: &App, inner: Area, y0: u16, ops: &mut Vec<Draw>) -> (ok: bool)
    requires
        fits_u16(inner),
        inner.width >= 30,
        inner.y <= y0 <= inner.bottom_edge(),
        drawn_within(old(ops)@, 0, inner.x as int, inner.y as int, inner.bottom_edge() as int),
    ensures
        drawn_within(final(ops)@, 0, inner.x as int, inner.y as int, inner.bottom_edge() as int),
        recents_fit(*state, app.recents@, inner.width - 2) ==> ok,
        ok == ({
            let bottom = inner.bottom_edge() as int;
            let y4 = if y0 + 1 < bottom { y0 + 1 } else { y0 as int };
            recent_rows_ok(*state, app.recents@, inner, 0, if y4 + 1 < bottom { y4 + 1 } else { y4 })
        }),
        ok ==> marks(final(ops)@) == marks(old(ops)@) + lower_marks(*state, app.recents@, inner, y0 as int),
{
    let ghost (l, t, b) = (inner.x as int, inner.y as int, inner.bottom_edge() as int);
    let ghost m0 = marks(ops@);
    let tw: usize = inner.width as usize;
    let bottom = inner.bottom();
    let x = inner.left() + 2;
    let mut y = y0;
    if (y as u32) + 1 < bottom as u32 {
        let n: usize = if tw >= 4 { tw - 4 } else { 0 };
        let sep = crate::draw::repeat_char('-', if n < 80 { n } else { 80 });
        push_text_in(ops, x, y, sep.as_str(), Style::fg(Color::DarkGray), Ghost(0), Ghost(l), Ghost(t), Ghost(b));
        y = y + 1;
    }
    let ghost y4 = y as int;
    let ghost m4 = marks(ops@);
    if (y as u32) + 1 < bottom as u32 {
        push_text_in(ops, x, y, "RECENT PROJECTS", Style::heading(Color::Rgb(100, 200, 255)), Ghost(0), Ghost(l), Ghost(t), Ghost(b));
        y = y + 1;
    }
    let ghost m5 = marks(ops@);
    if !recent_rows(state, app, inner, y, ops) {
        return false;
    }
    proof {
        let rule_len = sat_sub(inner.width as int, 4);
        let rule = repeated('-', if rule_len < 80 { rule_len as nat } else { 80 });
        assert(m4 =~= m0 + (if y0 + 1 < b { seq![text_mark(x, y0, rule, plain_in(Color::DarkGray))] } else { Seq::empty() }));
        assert(m5 =~= m4 + (if y4 + 1 < b {
            seq![text_mark(x, y4 as u16, "RECENT PROJECTS"@, heading_in(Color::Rgb(100, 200, 255)))]
        } else {
            Seq::empty()
        }));
        assert(marks(ops@) =~= m0 + lower_marks(*state, app.recents@, inner, y0 as int));
    }
    true
}

/// Draws the project-select screen over `area`: the titled box; inside it,
/// when it is at least 30 by 6, a header, the two buttons, a separator, the
/// recent projects while they fit (with their bars of stages done and their
/// last activity on the right), and a hint on the last row. Nothing where
/// a recent project has more stages done than it has, or a line would be
/// cut inside a character.
#[verifier::spinoff_prover]
#[verifier::rlimit(40)]
pub fn render(area: Area, state: &ProjectSelectState, app: &App) -> (r: Option<Vec<Draw>>)
    requires
        fits_u16(area),
    ensures
        r matches Some(ops) ==> select_screen_drawn(ops@, area),
        r matches Some(ops) ==> marks(ops@) == select_marks(area, *state, app.recents@),
        r is Some <==> select_ok(area, *state, app.recents@),
        recents_fit(*state, app.recents@, inside_borders(area).width - 2) ==> r is Some,
{
    let mut ops: Vec<Draw> = Vec::new();
    push_frame(&mut ops, area, owned(" Research Pipeline -- Project Select "), Style::bold(Color::Magenta), Style::fg(Color::Rgb(80, 40, 100)));
    let inner = bordered_inner(area);
    proof {
        reveal_strlit(" Research Pipeline -- Project Select ");
    }
    if inner.height < 6 || inner.width < 30 {
        assert(marks(ops@) =~= select_marks(area, *state, app.recents@));
        return Some(ops);
    }
    let ghost (l, t, b) = (inner.x as int, inner.y as int, inner.bottom_edge() as int);
    let bottom = inner.bottom();
    let x = inner.left() + 2;
    let mut y = inner.top() + 1;
    let mut body: Vec<Draw> = Vec::new();
    push_text_in(&mut body, x, y, "Select a project or create a new one:", Style::bold(Color::White), Ghost(0), Ghost(l), Ghost(t), Ghost(b));
    y = y + 2;
    let mut rest: Vec<Draw> = Vec::new();
    y = select_buttons(state, inner, y, &mut rest);
    if !select_lower(state, app, inner, y, &mut rest) {
        return None;
    }
    let hint = "Up/Down navigate  |  Enter select  |  q quit";
    let hl: u16 = byte_length(hint) as u16;
    proof {
        reveal_strlit("Up/Down navigate  |  Enter select  |  q quit");
        crate::draw::lemma_ascii_byte_len(hint@);
    }
    let hx = x + (if inner.width > hl + 4 { inner.width - (hl + 4) } else { 0 }) / 2;
    push_text_in(&mut rest, hx, bottom - 1, hint, Style::italic(Color::DarkGray), Ghost(0), Ghost(l), Ghost(t), Ghost(b));
    let ghost (f0, b0, r0) = (ops@, body@, rest@);
    ops.append(&mut body);
    ops.append(&mut rest);
    proof {
        assert(ops@ =~= f0 + b0 + r0);
        crate::draw::lemma_marks_append(f0, b0);
        crate::draw::lemma_marks_append(f0 + b0, r0);
        assert(marks(ops@) =~= select_marks(area, *state, app.recents@));
        assert(drawn_within(f0, 1, l, t, b));
        crate::draw::lemma_drawn_within_append(f0, b0, 1, l, t, b, t, b);
        crate::draw::lemma_drawn_within_append(f0 + b0, r0, 1, l, t, b, t, b);
        assert(ops@[1] == b0[0]);
        assert(ops@.last() == r0.last());
    }
    Some(ops)
}

} // verus!
