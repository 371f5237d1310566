use vstd::prelude::*;

use crate::app::{App, Screen};
use crate::draw::{
    bordered_inner, byte_len, byte_length, decimal, drawn_within, frame_at, inside_borders, marks, push_decimal,
    push_fitted_in, push_frame, push_padded, push_text_in, repeated, sat_sub, text_at, text_bytes_at, text_mark,
    cut_bytes, Area, Draw, Mark,
};
use crate::paths::{join, joined};
use crate::pipeline_view::{fits_u16, screen_border_style, title_style};
use crate::stage_view::{line_marks, lines_end, lines_ok};
use crate::style::{bold_in, heading_in, highlight_in, italic_in, plain_in, Color, Style};
use crate::text::{ends_with, owned, push_str, starts_with, utf8};

verus! {

/// The five design stages every figure passes through, and completion.
#[derive(Debug, Clone, Copy, PartialEq, Eq, Structural)]
pub enum FigureStage {
    Draft,
    Review,
    Refine,
    Verify,
    Place,
    Complete,
}

/// The position of a stage in the design pipeline.
pub open spec fn stage_index(s: FigureStage) -> usize {
    match s {
        FigureStage::Draft => 0,
        FigureStage::Review => 1,
        FigureStage::Refine => 2,
        FigureStage::Verify => 3,
        FigureStage::Place => 4,
        FigureStage::Complete => 5,
    }
}

/// The design stages in order (completion is no stage of its own).
pub open spec fn design_stages() -> Seq<FigureStage> {
    seq![FigureStage::Draft, FigureStage::Review, FigureStage::Refine, FigureStage::Verify, FigureStage::Place]
}

impl FigureStage {
    /// The position of the stage in the design pipeline.
    pub fn index(&self) -> (r: usize)
        ensures
            r == stage_index(*self),
    {
        match self {
            FigureStage::Draft => 0,
            FigureStage::Review => 1,
            FigureStage::Refine => 2,
            FigureStage::Verify => 3,
            FigureStage::Place => 4,
            FigureStage::Complete => 5,
        }
    }

    /// The stage's name on screen.
    pub fn label(&self) -> (r: &'static str)
        ensures
            r@ == match *self {
                FigureStage::Draft => "DRAFT"@,
                FigureStage::Review => "REVIEW"@,
                FigureStage::Refine => "REFINE"@,
                FigureStage::Verify => "VERIFY"@,
                FigureStage::Place => "PLACE"@,
                FigureStage::Complete => "DONE"@,
            },
    {
        match self {
            FigureStage::Draft => "DRAFT",
            FigureStage::Review => "REVIEW",
            FigureStage::Refine => "REFINE",
            FigureStage::Verify => "VERIFY",
            FigureStage::Place => "PLACE",
            FigureStage::Complete => "DONE",
        }
    }

    /// What the stage does.
    pub fn description(&self) -> (r: &'static str)
        ensures
            r@ == match *self {
                FigureStage::Draft => "Generate initial figure from data + GNUPlot script"@,
                FigureStage::Review => "Render PNG, analyze readability, labels, sizing, alignment"@,
                FigureStage::Refine => "Fix issues, adjust params, regenerate"@,
                FigureStage::Verify => "Check IEEE rules: DPI >=300, column width, font 8-12pt, contrast"@,
                FigureStage::Place => "Integrate into LaTeX, verify placement and text flow"@,
                FigureStage::Complete => "Figure accepted and placed in paper"@,
            },
    {
        match self {
            FigureStage::Draft => "Generate initial figure from data + GNUPlot script",
            FigureStage::Review => "Render PNG, analyze readability, labels, sizing, alignment",
            FigureStage::Refine => "Fix issues, adjust params, regenerate",
            FigureStage::Verify => "Check IEEE rules: DPI >=300, column width, font 8-12pt, contrast",
            FigureStage::Place => "Integrate into LaTeX, verify placement and text flow",
            FigureStage::Complete => "Figure accepted and placed in paper",
        }
    }

    /// The design stages in order.
    pub fn all() -> (r: Vec<FigureStage>)
        ensures
            r@ == design_stages(),
    {
        let mut v: Vec<FigureStage> = Vec::new();
        v.push(FigureStage::Draft);
        v.push(FigureStage::Review);
        v.push(FigureStage::Refine);
        v.push(FigureStage::Verify);
        v.push(FigureStage::Place);
        assert(v@ =~= design_stages());
        v
    }
}

/// The outcome of a figure's design stage so far.
#[derive(Debug, Clone, Copy, PartialEq, Eq, Structural)]
pub enum StageResult {
    Pending,
    InProgress,
    Passed,
    NeedsIteration,
    Failed,
}

impl StageResult {
    /// The one-character marker of the outcome.
    pub fn icon(&self) -> (r: &'static str)
        ensures
            r@ == match *self {
                StageResult::Pending => " "@,
                StageResult::InProgress => ">"@,
                StageResult::Passed => "*"@,
                StageResult::NeedsIteration => "~"@,
                StageResult::Failed => "!"@,
            },
    {
        match self {
            StageResult::Pending => " ",
            StageResult::InProgress => ">",
            StageResult::Passed => "*",
            StageResult::NeedsIteration => "~",
            StageResult::Failed => "!",
        }
    }

    /// The color of the outcome.
    pub fn color(&self) -> (r: Color)
        ensures
            r == match *self {
                StageResult::Pending => Color::DarkGray,
                StageResult::InProgress => Color::Yellow,
                StageResult::Passed => Color::Green,
                StageResult::NeedsIteration => Color::Rgb(255, 165, 0),
                StageResult::Failed => Color::Red,
            },
    {
        match self {
            StageResult::Pending => Color::DarkGray,
            StageResult::InProgress => Color::Yellow,
            StageResult::Passed => Color::Green,
            StageResult::NeedsIteration => Color::Rgb(255, 165, 0),
            StageResult::Failed => Color::Red,
        }
    }
}

/// How much a paper needs a figure.
#[derive(Debug, Clone, Copy, PartialEq, Eq, Structural)]
pub enum FigurePriority {
    Essential,
    Expected,
    Optional,
}

/// The state of one design stage of a figure.
#[derive(Debug, Clone)]
pub struct StageStatus {
    pub stage: FigureStage,
    pub status: StageResult,
    pub iteration: u8,
    pub max_iterations: u8,
    pub issues: Vec<String>,
}

/// A figure of the paper and its way through the design stages.
#[derive(Debug, Clone)]
pub struct FigureEntry {
    pub id: String,
    pub caption: String,
    pub fig_type: String,
    pub priority: FigurePriority,
    /// `single` or `double` column.
    pub width: &'static str,
    pub pdf_path: Option<String>,
    pub png_path: Option<String>,
    pub gp_script: Option<String>,
    pub current_stage: FigureStage,
    pub stages: Vec<StageStatus>,
}

/// The id of the `i`-th figure of the paper.
pub open spec fn catalog_id(i: int) -> Seq<char> {
    if i == 0 {
        "fig1"@
    } else if i == 1 {
        "fig2"@
    } else if i == 2 {
        "fig3"@
    } else if i == 3 {
        "fig4"@
    } else if i == 4 {
        "fig5"@
    } else {
        Seq::empty()
    }
}

/// The caption of the `i`-th figure of the paper.
pub open spec fn catalog_caption(i: int) -> Seq<char> {
    if i == 0 {
        "Hardware cost comparison of existing leak detection systems and the proposed GASLEAD system."@
    } else if i == 1 {
        "UW IAC compressed air energy savings from leak detection recommendations (2022--2024)."@
    } else if i == 2 {
        "Simulated CEM transfer function H(f) for steel and PVC pipe segments, showing material-dependent resonance characteristics."@
    } else if i == 3 {
        "Simulated detection performance (ROC curves) comparing GASLEAD with CEM calibration, without CEM, and fixed-threshold approaches."@
    } else if i == 4 {
        "GASLEAD system architecture showing distributed sensor nodes, CEM, LoRa gateway, and backend infrastructure."@
    } else {
        Seq::empty()
    }
}

/// The chart type of the `i`-th figure of the paper.
pub open spec fn catalog_type(i: int) -> Seq<char> {
    if i == 0 {
        "bar"@
    } else if i == 1 {
        "bar+line"@
    } else if i == 2 {
        "line"@
    } else if i == 3 {
        "line"@
    } else if i == 4 {
        "block"@
    } else {
        Seq::empty()
    }
}

/// The column width of the `i`-th figure of the paper.
pub open spec fn catalog_width(i: int) -> Seq<char> {
    if i == 0 {
        "single"@
    } else if i == 1 {
        "single"@
    } else if i == 2 {
        "single"@
    } else if i == 3 {
        "single"@
    } else if i == 4 {
        "double"@
    } else {
        Seq::empty()
    }
}

/// A file found in the figures directory: its file name and its path.
pub struct FigureFile {
    pub name: String,
    pub path: String,
}

/// The path of the last file in `files` whose name starts with `id` and ends with `ext`.
pub open spec fn last_file(files: Seq<FigureFile>, id: Seq<char>, ext: Seq<char>) -> Option<Seq<char>>
    decreases files.len(),
{
    if files.len() == 0 {
        None
    } else {
        let f = files.last();
        if id.len() <= f.name@.len() && f.name@.take(id.len() as int) == id && ext.len() <= f.name@.len()
            && f.name@.skip(f.name@.len() - ext.len()) == ext {
            Some(f.path@)
        } else {
            last_file(files.drop_last(), id, ext)
        }
    }
}

/// The view of an optional string.
pub open spec fn opt_view(o: Option<String>) -> Option<Seq<char>> {
    match o {
        Some(s) => Some(s@),
        None => None,
    }
}

/// Whether `f` is the `i`-th figure of the paper as the files in the figures
/// directory show it: its PDF, PNG and plot script are the last matching
/// files; once both the PDF and the PNG exist, drafting has passed in one
/// iteration and review needs another, awaiting a visual review.
pub open spec fn figure_from_files(f: FigureEntry, i: int, files: Seq<FigureFile>) -> bool {
    let id = catalog_id(i);
    let pdf = last_file(files, id, ".pdf"@);
    let png = last_file(files, id, ".png"@);
    &&& f.id@ == id
    &&& f.caption@ == catalog_caption(i)
    &&& f.fig_type@ == catalog_type(i)
    &&& f.priority == FigurePriority::Essential
    &&& f.width@ == catalog_width(i)
    &&& opt_view(f.pdf_path) == pdf
    &&& opt_view(f.png_path) == png
    &&& opt_view(f.gp_script) == last_file(files, id, ".gp"@)
    &&& f.stages@.len() == 5
    &&& if pdf is Some && png is Some {
        &&& f.current_stage == FigureStage::Review
        &&& f.stages@[0].stage == FigureStage::Draft && f.stages@[0].status == StageResult::Passed
        &&& f.stages@[0].iteration == 1 && f.stages@[0].max_iterations == 3 && f.stages@[0].issues@.len() == 0
        &&& f.stages@[1].stage == FigureStage::Review && f.stages@[1].status == StageResult::NeedsIteration
        &&& f.stages@[1].iteration == 1 && f.stages@[1].max_iterations == 3
        &&& f.stages@[1].issues@.len() == 1 && f.stages@[1].issues@[0]@ == "Awaiting visual review"@
        &&& forall|j: int| 2 <= j < 5 ==> fresh_stage(#[trigger] f.stages@[j], design_stages()[j])
    } else {
        &&& f.current_stage == FigureStage::Draft
        &&& forall|j: int| 0 <= j < 5 ==> fresh_stage(#[trigger] f.stages@[j], design_stages()[j])
    }
}

fn find_files(fig: &mut FigureEntry, files: &Vec<FigureFile>)
    requires
        old(fig).pdf_path is None && old(fig).png_path is None && old(fig).gp_script is None,
    ensures
        *final(fig) == (FigureEntry { pdf_path: final(fig).pdf_path, png_path: final(fig).png_path, gp_script: final(fig).gp_script, ..*old(fig) }),
        opt_view(final(fig).pdf_path) == last_file(files@, old(fig).id@, ".pdf"@),
        opt_view(final(fig).png_path) == last_file(files@, old(fig).id@, ".png"@),
        opt_view(final(fig).gp_script) == last_file(files@, old(fig).id@, ".gp"@),
{
    let ghost id = fig.id@;
    let mut i: usize = 0;
    while i < files.len()
        invariant
            i <= files@.len(),
            fig.id@ == id,
            *fig == (FigureEntry { pdf_path: fig.pdf_path, png_path: fig.png_path, gp_script: fig.gp_script, ..*old(fig) }),
            opt_view(fig.pdf_path) == last_file(files@.take(i as int), id, ".pdf"@),
            opt_view(fig.png_path) == last_file(files@.take(i as int), id, ".png"@),
            opt_view(fig.gp_script) == last_file(files@.take(i as int), id, ".gp"@),
        decreases files@.len() - i,
    {
        assert(files@.take(i + 1).drop_last() =~= files@.take(i as int));
        proof {
            reveal_strlit(".pdf");
            reveal_strlit(".png");
            reveal_strlit(".gp");
            let n = files@[i as int].name@;
            // The three suffixes end in different characters, so a name has at most one of them.
            if 4 <= n.len() && n.skip(n.len() - 4) == ".pdf"@ {
                assert(n.last() == n.skip(n.len() - 4)[3]);
                if 4 <= n.len() && n.skip(n.len() - 4) == ".png"@ {
                    assert(false);
                }
                if 3 <= n.len() && n.skip(n.len() - 3) == ".gp"@ {
                    assert(n.last() == n.skip(n.len() - 3)[2]);
                }
            }
            if 4 <= n.len() && n.skip(n.len() - 4) == ".png"@ {
                assert(n.last() == n.skip(n.len() - 4)[3]);
                if 3 <= n.len() && n.skip(n.len() - 3) == ".gp"@ {
                    assert(n.last() == n.skip(n.len() - 3)[2]);
                }
            }
        }
        let name = files[i].name.as_str();
        if starts_with(name, fig.id.as_str()) {
            if ends_with(name, ".pdf") {
                fig.pdf_path = Some(owned(files[i].path.as_str()));
            } else if ends_with(name, ".png") {
                fig.png_path = Some(owned(files[i].path.as_str()));
            } else if ends_with(name, ".gp") {
                fig.gp_script = Some(owned(files[i].path.as_str()));
            }
        }
        i += 1;
    }
    assert(files@.take(files@.len() as int) =~= files@);
}

/// The figures of the paper, as the files in the figures directory show them.
pub fn build_figures(files: &Vec<FigureFile>) -> (r: Vec<FigureEntry>)
    ensures
        r@.len() == 5,
        forall|i: int| 0 <= i < 5 ==> figure_from_files(#[trigger] r@[i], i, files@),
{
    let mut figures: Vec<FigureEntry> = Vec::new();
    figures.push(FigureEntry::new("fig1", "Hardware cost comparison of existing leak detection systems and the proposed GASLEAD system.", "bar", FigurePriority::Essential, "single"));
    figures.push(FigureEntry::new("fig2", "UW IAC compressed air energy savings from leak detection recommendations (2022--2024).", "bar+line", FigurePriority::Essential, "single"));
    figures.push(FigureEntry::new("fig3", "Simulated CEM transfer function H(f) for steel and PVC pipe segments, showing material-dependent resonance characteristics.", "line", FigurePriority::Essential, "single"));
    figures.push(FigureEntry::new("fig4", "Simulated detection performance (ROC curves) comparing GASLEAD with CEM calibration, without CEM, and fixed-threshold approaches.", "line", FigurePriority::Essential, "single"));
    figures.push(FigureEntry::new("fig5", "GASLEAD system architecture showing distributed sensor nodes, CEM, LoRa gateway, and backend infrastructure.", "block", FigurePriority::Essential, "double"));
    let mut out: Vec<FigureEntry> = Vec::new();
    let mut k: usize = 0;
    while figures.len() > 0
        invariant
            k + figures@.len() == 5,
            out@.len() == k,
            forall|i: int| 0 <= i < k ==> figure_from_files(#[trigger] out@[i], i, files@),
            forall|i: int| 0 <= i < figures@.len() ==> fresh_figure(#[trigger] figures@[i])
                && figures@[i].id@ == catalog_id(k + i) && figures@[i].caption@ == catalog_caption(k + i)
                && figures@[i].fig_type@ == catalog_type(k + i) && figures@[i].width@ == catalog_width(k + i)
                && figures@[i].priority == FigurePriority::Essential,
        decreases figures@.len(),
    {
        let mut fig = figures.remove(0);
        find_files(&mut fig, files);
        if fig.pdf_path.is_some() && fig.png_path.is_some() {
            let mut stages = fig.stages;
            let mut draft = stages.remove(0);
            let mut review = stages.remove(0);
            draft.status = StageResult::Passed;
            draft.iteration = 1;
            review.status = StageResult::NeedsIteration;
            review.iteration = 1;
            let mut issues: Vec<String> = Vec::new();
            issues.push(owned("Awaiting visual review"));
            review.issues = issues;
            stages.insert(0, review);
            stages.insert(0, draft);
            fig = FigureEntry { stages, current_stage: FigureStage::Review, ..fig };
        }
        out.push(fig);
        k += 1;
    }
    out
}

/// The figures screen: the paper's figures and their design stages.
pub struct FiguresState {
    pub figures: Vec<FigureEntry>,
    pub selected: usize,
    pub page_count: u16,
    pub show_detail: bool,
}

/// The figures directory of the app's project.
pub fn figures_dir(app: &App) -> (r: String)
    ensures
        r@ == joined(app.config.output_dir@, "figures"@),
{
    join(app.config.output_dir.as_str(), "figures")
}

/// The figure count recommended for `pages` printed pages: three quarters of
/// a figure per page, rounded to the nearest count, halves up.
pub open spec fn recommended_for(pages: u16) -> int {
    (3 * pages + 2) / 4
}

/// The figures screen after moving up one figure.
pub open spec fn figures_up(s: FiguresState) -> FiguresState {
    if s.selected > 0 { FiguresState { selected: (s.selected - 1) as usize, ..s } } else { s }
}

/// The figures screen after moving down one figure.
pub open spec fn figures_down(s: FiguresState) -> FiguresState {
    if s.selected + 1 < s.figures@.len() { FiguresState { selected: (s.selected + 1) as usize, ..s } } else { s }
}

/// Moving through the figure list keeps the selection on a figure, and
/// moving down and back up returns to the same figure when there is one below.
pub proof fn lemma_figures_moves(s: FiguresState)
    requires
        s.figures@.len() <= usize::MAX,
        s.selected < s.figures@.len(),
    ensures
        figures_up(s).selected < s.figures@.len(),
        figures_down(s).selected < s.figures@.len(),
        s.selected + 1 < s.figures@.len() ==> figures_up(figures_down(s)) == s,
{
}

/// The recommended figure count is three quarters of the pages, rounded
/// half up: never more than the pages, and one more for every four pages.
pub proof fn lemma_recommended_grows_with_pages(p: u16)
    requires
        p <= u16::MAX - 4,
    ensures
        recommended_for(p) <= p,
        recommended_for((p + 4) as u16) == recommended_for(p) + 3,
{
}

impl FiguresState {
    /// The screen for an eight-page paper, with the figures as the files in
    /// the figures directory show them, the first selected.
    pub fn new(files: &Vec<FigureFile>) -> (r: Self)
        ensures
            r.figures@.len() == 5,
            forall|i: int| 0 <= i < 5 ==> figure_from_files(#[trigger] r.figures@[i], i, files@),
            r.selected == 0,
            r.page_count == 8,
            !r.show_detail,
    {
        FiguresState { figures: build_figures(files), selected: 0, page_count: 8, show_detail: false }
    }

    /// The number of figures recommended for the paper's page count.
    pub fn recommended_count(&self) -> (r: usize)
        ensures
            r == recommended_for(self.page_count),
    {
        let p = self.page_count as usize;
        (3 * p + 2) / 4
    }

    /// Selects the figure above, if any.
    pub fn move_up(&mut self)
        ensures
            *final(self) == figures_up(*old(self)),
    {
        if self.selected > 0 {
            self.selected -= 1;
        }
    }

    /// Selects the figure below, if any.
    pub fn move_down(&mut self)
        ensures
            *final(self) == figures_down(*old(self)),
    {
        if self.figures.len() > 0 && self.selected < self.figures.len() - 1 {
            self.selected += 1;
        }
    }

    /// Shows or hides the detail view of the selected figure.
    pub fn toggle_detail(&mut self)
        ensures
            *final(self) == (FiguresState { show_detail: !old(self).show_detail, ..*old(self) }),
    {
        self.show_detail = !self.show_detail;
    }

    /// Leaves the detail view, else returns to the pipeline screen.
    pub fn escape(&mut self, app: &mut App)
        ensures
            old(self).show_detail ==> *final(self) == (FiguresState { show_detail: false, ..*old(self) })
                && *final(app) == *old(app),
            !old(self).show_detail ==> *final(self) == *old(self)
                && *final(app) == (App { screen: Screen::PipelineExecution, ..*old(app) }),
    {
        if self.show_detail {
            self.show_detail = false;
        } else {
            app.screen = Screen::PipelineExecution;
        }
    }
}

/// The number of stages that passed.
pub open spec fn passed_count(stages: Seq<StageStatus>) -> nat
    decreases stages.len(),
{
    if stages.len() == 0 {
        0
    } else {
        passed_count(stages.drop_last()) + if stages.last().status == StageResult::Passed { 1nat } else { 0nat }
    }
}

/// The iterations of all stages together.
pub open spec fn iteration_sum(stages: Seq<StageStatus>) -> nat
    decreases stages.len(),
{
    if stages.len() == 0 {
        0
    } else {
        iteration_sum(stages.drop_last()) + stages.last().iteration as nat
    }
}

/// A stage that has not started: pending, no iterations of at most three, no issues.
pub open spec fn fresh_stage(st: StageStatus, stage: FigureStage) -> bool {
    &&& st.stage == stage
    &&& st.status == StageResult::Pending
    &&& st.iteration == 0
    &&& st.max_iterations == 3
    &&& st.issues@.len() == 0
}

/// A figure that has not started: one fresh stage per design stage, in order,
/// at the first stage, with no files.
pub open spec fn fresh_figure(f: FigureEntry) -> bool {
    &&& f.stages@.len() == 5
    &&& forall|i: int| 0 <= i < 5 ==> fresh_stage(#[trigger] f.stages@[i], design_stages()[i])
    &&& f.current_stage == FigureStage::Draft
    &&& f.pdf_path is None && f.png_path is None && f.gp_script is None
}

impl FigureEntry {
    /// A figure at the start of the design pipeline.
    pub fn new(id: &str, caption: &str, fig_type: &str, priority: FigurePriority, width: &'static str) -> (r: Self)
        ensures
            fresh_figure(r),
            r.id@ == id@,
            r.caption@ == caption@,
            r.fig_type@ == fig_type@,
            r.priority == priority,
            r.width == width,
    {
        let all = FigureStage::all();
        let mut stages: Vec<StageStatus> = Vec::new();
        let mut i: usize = 0;
        while i < all.len()
            invariant
                all@ == design_stages(),
                i <= all@.len(),
                stages@.len() == i,
                forall|j: int| 0 <= j < i ==> fresh_stage(#[trigger] stages@[j], design_stages()[j]),
            decreases all@.len() - i,
        {
            stages.push(StageStatus {
                stage: all[i],
                status: StageResult::Pending,
                iteration: 0,
                max_iterations: 3,
                issues: Vec::new(),
            });
            i += 1;
        }
        FigureEntry {
            id: owned(id),
            caption: owned(caption),
            fig_type: owned(fig_type),
            priority,
            width,
            pdf_path: None,
            png_path: None,
            gp_script: None,
            current_stage: FigureStage::Draft,
            stages,
        }
    }

    /// The number of stages that passed.
    pub fn stages_done(&self) -> (r: usize)
        ensures
            r == passed_count(self.stages@),
    {
        let mut n: usize = 0;
        let mut i: usize = 0;
        while i < self.stages.len()
            invariant
                i <= self.stages@.len(),
                n == passed_count(self.stages@.take(i as int)),
                n <= i,
            decreases self.stages@.len() - i,
        {
            assert(self.stages@.take(i + 1).drop_last() =~= self.stages@.take(i as int));
            if self.stages[i].status == StageResult::Passed {
                n += 1;
            }
            i += 1;
        }
        assert(self.stages@.take(self.stages@.len() as int) =~= self.stages@);
        n
    }

    /// Whether the figure is accepted and placed.
    pub fn is_complete(&self) -> (r: bool)
        ensures
            r == (self.current_stage == FigureStage::Complete),
    {
        self.current_stage == FigureStage::Complete
    }

    /// The iterations of all stages together.
    pub fn total_iterations(&self) -> (r: u8)
        requires
            iteration_sum(self.stages@) <= u8::MAX,
        ensures
            r == iteration_sum(self.stages@),
    {
        let mut n: u8 = 0;
        let mut i: usize = 0;
        while i < self.stages.len()
            invariant
                i <= self.stages@.len(),
                iteration_sum(self.stages@) <= u8::MAX,
                n == iteration_sum(self.stages@.take(i as int)),
            decreases self.stages@.len() - i,
        {
            assert(self.stages@.take(i + 1).drop_last() =~= self.stages@.take(i as int));
            proof {
                lemma_iteration_sum_prefix(self.stages@, i as int + 1);
            }
            n = n + self.stages[i].iteration;
            i += 1;
        }
        assert(self.stages@.take(self.stages@.len() as int) =~= self.stages@);
        n
    }
}

proof fn lemma_iteration_sum_prefix(s: Seq<StageStatus>, k: int)
    requires
        0 <= k <= s.len(),
    ensures
        iteration_sum(s.take(k)) <= iteration_sum(s),
    decreases s.len() - k,
{
    if k < s.len() {
        lemma_iteration_sum_prefix(s, k + 1);
        assert(s.take(k + 1).drop_last() =~= s.take(k));
    } else {
        assert(s.take(k) =~= s);
    }
}


/// How many figures are complete.
pub open spec fn complete_count(fs: Seq<FigureEntry>) -> nat
    decreases fs.len(),
{
    if fs.len() == 0 {
        0
    } else {
        complete_count(fs.drop_last()) + if fs.last().current_stage == FigureStage::Complete { 1nat } else { 0nat }
    }
}

/// How many figures are in review.
pub open spec fn review_count(fs: Seq<FigureEntry>) -> nat
    decreases fs.len(),
{
    if fs.len() == 0 {
        0
    } else {
        review_count(fs.drop_last()) + if fs.last().current_stage == FigureStage::Review { 1nat } else { 0nat }
    }
}

/// The header of the figures screen: complete, in review, and recommended
/// for the page count.
pub open spec fn figures_header(st: FiguresState) -> Seq<char> {
    decimal(complete_count(st.figures@)) + "/"@ + decimal(st.figures@.len()) + " complete | "@
        + decimal(review_count(st.figures@)) + " in review | "@ + decimal(recommended_for(st.page_count) as nat)
        + " recommended for "@ + decimal(st.page_count as nat) + " pages"@
}

/// The hint at the bottom of the figure list.
pub open spec fn figures_hint() -> Seq<char> {
    "Up/Down navigate | Enter detail | Esc back"@
}

/// The hint at the bottom of the detail of a figure.
pub open spec fn figure_detail_hint() -> Seq<char> {
    "Enter close | Esc back to list"@
}

/// Whether `ops` is the figures screen over `area`: the titled box, only
/// that when its inside is smaller than 50 by 8; else, inside it, the header
/// (cut to the width less four) and the stage legend first, then the figure
/// list and its hint centred on the last row, or the detail of the selected
/// figure.
pub open spec fn figures_screen_drawn(ops: Seq<Draw>, area: Area, st: FiguresState) -> bool {
    let inner = inside_borders(area);
    let hb = utf8(figures_header(st));
    &&& ops.len() >= 1
    &&& frame_at(ops[0], area, " Research Pipeline -- Figures (5-Stage Design) "@, title_style(), screen_border_style())
    &&& (inner.height < 8 || inner.width < 50) ==> ops.len() == 1
    &&& !(inner.height < 8 || inner.width < 50) ==> {
        &&& ops.len() >= 3
        &&& drawn_within(ops, 1, inner.x as int, inner.y as int, inner.bottom_edge() + if st.show_detail { 4int } else { 0int })
        &&& text_bytes_at(ops[1], (inner.x + 2) as u16, (inner.y + 1) as u16,
                cut_bytes(hb, if hb.len() < inner.width - 4 { hb.len() as int } else { inner.width - 4 })->0,
                Style { fg: Some(Color::White), bg: None, bold: true, italic: false, underlined: false })
        &&& text_at(ops[2], (inner.x + 2) as u16, (inner.y + 2) as u16, "Stages: DRAFT > REVIEW > REFINE > VERIFY > PLACE"@,
                Style { fg: Some(Color::DarkGray), bg: None, bold: false, italic: false, underlined: false })
        &&& !st.show_detail ==> ops.len() >= 4 && text_at(ops.last(),
                (inner.x + 2 + sat_sub(inner.width as int, byte_len(figures_hint()) + 4int) / 2) as u16,
                (inner.bottom_edge() - 1) as u16, figures_hint(),
                Style { fg: Some(Color::DarkGray), bg: None, bold: false, italic: true, underlined: false })
        &&& st.show_detail && st.selected < st.figures@.len() ==> ops.len() >= 4 && text_at(ops.last(),
                (inner.x + sat_sub(inner.width as int, byte_len(figure_detail_hint()) as int) / 2) as u16,
                (inner.bottom_edge() - 1) as u16, figure_detail_hint(),
                Style { fg: Some(Color::DarkGray), bg: None, bold: false, italic: true, underlined: false })
        &&& st.show_detail && st.selected >= st.figures@.len() ==> ops.len() == 3
    }
}

/// The name of a design stage on screen.
pub open spec fn figure_stage_label(st: FigureStage) -> Seq<char> {
    match st {
        FigureStage::Draft => "DRAFT"@,
        FigureStage::Review => "REVIEW"@,
        FigureStage::Refine => "REFINE"@,
        FigureStage::Verify => "VERIFY"@,
        FigureStage::Place => "PLACE"@,
        FigureStage::Complete => "DONE"@,
    }
}

/// What a design stage does.
pub open spec fn figure_stage_description(st: FigureStage) -> Seq<char> {
    match st {
        FigureStage::Draft => "Generate initial figure from data + GNUPlot script"@,
        FigureStage::Review => "Render PNG, analyze readability, labels, sizing, alignment"@,
        FigureStage::Refine => "Fix issues, adjust params, regenerate"@,
        FigureStage::Verify => "Check IEEE rules: DPI >=300, column width, font 8-12pt, contrast"@,
        FigureStage::Place => "Integrate into LaTeX, verify placement and text flow"@,
        FigureStage::Complete => "Figure accepted and placed in paper"@,
    }
}

/// The marker of a stage outcome.
pub open spec fn result_icon(r: StageResult) -> Seq<char> {
    match r {
        StageResult::Pending => " "@,
        StageResult::InProgress => ">"@,
        StageResult::Passed => "*"@,
        StageResult::NeedsIteration => "~"@,
        StageResult::Failed => "!"@,
    }
}

/// The priority tag of a figure.
pub open spec fn priority_tag(p: FigurePriority) -> Seq<char> {
    match p {
        FigurePriority::Essential => "P1"@,
        FigurePriority::Expected => "P2"@,
        FigurePriority::Optional => "P3"@,
    }
}

/// The first line of a figure in the list.
pub open spec fn figure_line(f: FigureEntry, selected: bool) -> Seq<char> {
    (if selected { ">>"@ } else { "  "@ }) + " "@ + f.id@ + " ["@ + priority_tag(f.priority) + "] ["@
        + (if f.width@ == "double"@ { "2col"@ } else { "1col"@ }) + "] ["@ + crate::draw::padded(f.fig_type@, 6)
        + "]  Stage: "@ + figure_stage_label(f.current_stage) + "  (iters: "@ + decimal(iteration_sum(f.stages@))
        + ")"@
}

/// The line of design stage `k` in the detail of a figure.
pub open spec fn stage_detail_line(f: FigureEntry, k: int) -> Seq<char> {
    let ss = f.stages@[k];
    (if ss.stage == f.current_stage { ">>"@ } else { "  "@ }) + " ["@ + result_icon(ss.status) + "] "@
        + crate::draw::padded(figure_stage_label(ss.stage), 6) + " "@
        + crate::draw::padded(figure_stage_description(ss.stage), 16) + " "@
        + if ss.iteration > 0 {
            "(iter "@ + decimal(ss.iteration as nat) + "/"@ + decimal(ss.max_iterations as nat) + ")"@
        } else {
            ""@
        }
}

/// The line of file `j` (PDF, PNG, script) in the detail of a figure.
pub open spec fn figure_file_line(j: int, path: Option<String>) -> Seq<char> {
    let label = if j == 0 { "PDF   "@ } else if j == 1 { "PNG   "@ } else { "Script"@ };
    match path {
        Some(p) => "  "@ + "[*]"@ + " "@ + label + ": "@ + match crate::paths::final_component(p@) {
            Some(n) => n,
            None => ""@,
        },
        None => "  "@ + "[ ]"@ + " "@ + label + ": "@ + "not generated"@,
    }
}

/// Whether the text of the detail of figure `f` fits `tw` columns: its
/// lines cut cleanly, and its caption breaks between characters every
/// `tw - 6` bytes.
pub open spec fn figure_detail_fits(f: FigureEntry, tw: int) -> bool {
    &&& forall|k: int| 0 <= k < f.stages@.len() ==> {
        &&& crate::stage_view::cuts_cleanly(#[trigger] stage_detail_line(f, k), tw - 2)
        &&& forall|m: int| 0 <= m < f.stages@[k].issues@.len() ==>
                crate::stage_view::cuts_cleanly("          ! "@ + (#[trigger] f.stages@[k].issues@[m])@, tw - 2)
    }
    &&& crate::stage_view::cuts_cleanly(figure_file_line(0, f.pdf_path), tw - 2)
    &&& crate::stage_view::cuts_cleanly(figure_file_line(1, f.png_path), tw - 2)
    &&& crate::stage_view::cuts_cleanly(figure_file_line(2, f.gp_script), tw - 2)
    &&& forall|j: int| 0 <= j <= byte_len(f.caption@) && #[trigger] (j % (tw - 6)) == 0 ==>
            vstd::utf8::is_char_boundary(utf8(f.caption@), j)
}

/// The color of a stage outcome.
pub open spec fn result_color(r: StageResult) -> Color {
    match r {
        StageResult::Pending => Color::DarkGray,
        StageResult::InProgress => Color::Yellow,
        StageResult::Passed => Color::Green,
        StageResult::NeedsIteration => Color::Rgb(255, 165, 0),
        StageResult::Failed => Color::Red,
    }
}

/// The first three letters of a stage's name.
pub open spec fn stage_tag_text(st: FigureStage) -> Seq<char> {
    match st {
        FigureStage::Draft => "DRA"@,
        FigureStage::Review => "REV"@,
        FigureStage::Refine => "REF"@,
        FigureStage::Verify => "VER"@,
        FigureStage::Place => "PLA"@,
        FigureStage::Complete => "DON"@,
    }
}

/// The tags of the stages of `f` from the `k`-th on, from column `px` of
/// row `y` on while ten columns are left before the right edge of `inner`:
/// each its outcome's marker and the first three letters of its name (bold
/// for the current stage), then `>>` unless it is the last stage.
pub open spec fn stage_tag_marks(f: FigureEntry, inner: Area, k: int, y: int, px: int) -> Seq<Mark>
    decreases f.stages@.len() - k,
{
    if 0 <= k < f.stages@.len() && px + 10 < inner.right_edge() {
        let ss = f.stages@[k];
        let color = result_color(ss.status);
        let style = if ss.stage == f.current_stage { bold_in(color) } else { plain_in(color) };
        let tag = text_mark(px as u16, y as u16, result_icon(ss.status) + stage_tag_text(ss.stage), style);
        if ss.stage != FigureStage::Place {
            seq![tag, text_mark((px + 5) as u16, y as u16, ">>"@, plain_in(Color::DarkGray))]
                + stage_tag_marks(f, inner, k + 1, y, px + 8)
        } else {
            seq![tag] + stage_tag_marks(f, inner, k + 1, y, px + 5)
        }
    } else {
        Seq::empty()
    }
}

/// The three rows of figure `f` in the list from row `y` of `inner`: its
/// line cut to the width less two, its stage tags indented by four, and
/// its caption indented by seven and cut to the width less two.
pub open spec fn figure_row_marks(f: FigureEntry, selected: bool, inner: Area, y: int) -> Seq<Mark> {
    let x = (inner.x + 2) as u16;
    let w = inner.width - 2;
    seq![Mark::Text {
        x,
        y: y as u16,
        bytes: cut_bytes(utf8(figure_line(f, selected)), w)->0,
        style: if selected { highlight_in(Color::White, Color::Rgb(50, 20, 60)) } else { plain_in(Color::Gray) },
    }] + stage_tag_marks(f, inner, 0, y + 1, inner.x + 6) + seq![Mark::Text {
        x,
        y: (y + 2) as u16,
        bytes: cut_bytes(utf8("       "@ + f.caption@), w)->0,
        style: plain_in(Color::DarkGray),
    }]
}

/// The figures from the `i`-th on, four rows apart from row `y` of `inner`
/// on while five rows are left.
pub open spec fn figure_list_marks(st: FiguresState, inner: Area, i: int, y: int) -> Seq<Mark>
    decreases st.figures@.len() - i,
{
    if 0 <= i < st.figures@.len() && y + 4 < inner.bottom_edge() {
        figure_row_marks(st.figures@[i], st.selected as int == i, inner, y) + figure_list_marks(st, inner, i + 1, y + 4)
    } else {
        Seq::empty()
    }
}

/// The title of the detail of figure `f`: its id in capitals, its type and
/// its column width.
pub open spec fn figure_title(f: FigureEntry) -> Seq<char> {
    crate::text::uppercase(f.id@) + " -- "@ + f.fig_type@ + " ("@
        + (if f.width@ == "double"@ { "double-column, 7.16 in"@ } else { "single-column, 3.5 in"@ }) + ")"@
}

/// The lines of the issues of stage `k` of `f`.
pub open spec fn issue_lines(f: FigureEntry, k: int) -> Seq<Seq<char>> {
    Seq::new(f.stages@[k].issues@.len(), |m: int| "          ! "@ + f.stages@[k].issues@[m]@)
}

/// The style of the line of stage `k` of `f` in the detail.
pub open spec fn stage_detail_style(f: FigureEntry, k: int) -> Style {
    let ss = f.stages@[k];
    if ss.stage == f.current_stage {
        bold_in(Color::White)
    } else if ss.status == StageResult::Passed {
        plain_in(Color::Green)
    } else {
        plain_in(result_color(ss.status))
    }
}

/// The rows of stage `k` of `f` in the detail from row `y` of `inner`: its
/// line, then its issues in yellow above the last six rows, all cut to the
/// width less two.
pub open spec fn detail_stage_marks(f: FigureEntry, inner: Area, k: int, y: int) -> Seq<Mark> {
    let x = (inner.x + 2) as u16;
    let w = inner.width - 2;
    seq![Mark::Text { x, y: y as u16, bytes: cut_bytes(utf8(stage_detail_line(f, k)), w)->0, style: stage_detail_style(f, k) }]
        + line_marks(issue_lines(f, k), x, 0, y + 1, sat_sub(inner.bottom_edge() as int, 6), w, plain_in(Color::Yellow))
}

/// The row after the rows of stage `k` of `f` from row `y`.
pub open spec fn detail_stage_end(f: FigureEntry, inner: Area, k: int, y: int) -> int {
    lines_end(f.stages@[k].issues@.len() as int, 0, y + 1, sat_sub(inner.bottom_edge() as int, 6))
}

/// The stages of `f` from the `k`-th on, from row `y` on while four rows
/// are left above the last six.
pub open spec fn detail_stages_marks(f: FigureEntry, inner: Area, k: int, y: int) -> Seq<Mark>
    decreases f.stages@.len() - k,
{
    if 0 <= k < f.stages@.len() && y + 3 < sat_sub(inner.bottom_edge() as int, 6) {
        detail_stage_marks(f, inner, k, y) + detail_stages_marks(f, inner, k + 1, detail_stage_end(f, inner, k, y))
    } else {
        Seq::empty()
    }
}

/// The row after the stages of `f` from the `k`-th on, from row `y` on.
pub open spec fn detail_stages_end(f: FigureEntry, inner: Area, k: int, y: int) -> int
    decreases f.stages@.len() - k,
{
    if 0 <= k < f.stages@.len() && y + 3 < sat_sub(inner.bottom_edge() as int, 6) {
        detail_stages_end(f, inner, k + 1, detail_stage_end(f, inner, k, y))
    } else {
        y
    }
}

/// The path of file `j` of a figure: its PDF, its PNG, its script.
pub open spec fn figure_path(f: FigureEntry, j: int) -> Option<String> {
    if j == 0 { f.pdf_path } else if j == 1 { f.png_path } else { f.gp_script }
}

/// The lines of the files of `f` from the `j`-th on, from row `y` on while
/// the row is above the last three of `inner`: green for a file there is,
/// dark gray otherwise, cut to the width less two.
pub open spec fn file_line_marks(f: FigureEntry, inner: Area, j: int, y: int) -> Seq<Mark>
    decreases 3 - j,
{
    if 0 <= j < 3 && y < sat_sub(inner.bottom_edge() as int, 3) {
        seq![Mark::Text {
            x: (inner.x + 2) as u16,
            y: y as u16,
            bytes: cut_bytes(utf8(figure_file_line(j, figure_path(f, j))), inner.width - 2)->0,
            style: plain_in(if figure_path(f, j) is Some { Color::Green } else { Color::DarkGray }),
        }] + file_line_marks(f, inner, j + 1, y + 1)
    } else {
        Seq::empty()
    }
}

/// The row after the file lines of `f` from the `j`-th on, from row `y` on.
pub open spec fn file_lines_end(inner: Area, j: int, y: int) -> int
    decreases 3 - j,
{
    if 0 <= j < 3 && y < sat_sub(inner.bottom_edge() as int, 3) { file_lines_end(inner, j + 1, y + 1) } else { y }
}

/// The file lines end no higher than they start.
proof fn lemma_file_lines_end_below(inner: Area, j: int, y: int)
    ensures
        file_lines_end(inner, j, y) >= y,
    decreases 3 - j,
{
    if 0 <= j < 3 && y < sat_sub(inner.bottom_edge() as int, 3) {
        lemma_file_lines_end_below(inner, j + 1, y + 1);
    }
}

/// The caption bytes `cap` from byte `pos` on, `w` bytes a row from row `y`
/// on while the row is above `stop`, in white at column `x`.
pub open spec fn caption_marks(cap: Seq<u8>, x: u16, w: int, pos: int, y: int, stop: int) -> Seq<Mark>
    decreases cap.len() - pos,
{
    if 0 <= pos < cap.len() && y < stop && w > 0 {
        let end = if w < cap.len() - pos { pos + w } else { cap.len() as int };
        seq![Mark::Text { x, y: y as u16, bytes: cap.subrange(pos, end), style: plain_in(Color::White) }]
            + caption_marks(cap, x, w, end, y + 1, stop)
    } else {
        Seq::empty()
    }
}

/// The detail of figure `f` inside `inner` from row `y0`: its title, the
/// heading `DESIGN PIPELINE` and its stages; one row down a rule of `─`
/// at most 60 wide, the heading `FILES` and its files; one row down the
/// heading `CAPTION` and its caption wrapped at the width less six; and the
/// hint centred on the last row.
pub open spec fn figure_detail_marks(f: FigureEntry, inner: Area, y0: int) -> Seq<Mark> {
    let x = (inner.x + 2) as u16;
    let ys = detail_stages_end(f, inner, 0, y0 + 3) + 1;
    let yc = file_lines_end(inner, 0, ys + 2) + 1;
    let rule_len = sat_sub(inner.width as int, 4);
    seq![
        text_mark(x, y0 as u16, figure_title(f), bold_in(Color::Magenta)),
        text_mark(x, (y0 + 2) as u16, "DESIGN PIPELINE"@, heading_in(Color::Rgb(100, 200, 255))),
    ] + detail_stages_marks(f, inner, 0, y0 + 3) + seq![
        text_mark(x, ys as u16, repeated('\u{2500}', if rule_len < 60 { rule_len as nat } else { 60 }), plain_in(Color::DarkGray)),
        text_mark(x, (ys + 1) as u16, "FILES"@, heading_in(Color::Rgb(120, 200, 120))),
    ] + file_line_marks(f, inner, 0, ys + 2) + seq![
        text_mark(x, yc as u16, "CAPTION"@, heading_in(Color::Rgb(200, 200, 100))),
    ] + caption_marks(utf8(f.caption@), (x + 2) as u16, inner.width - 6, 0, yc + 1, sat_sub(inner.bottom_edge() as int, 2))
        + seq![text_mark((inner.x + sat_sub(inner.width as int, byte_len(figure_detail_hint()) as int) / 2) as u16,
            (inner.bottom_edge() - 1) as u16, figure_detail_hint(), italic_in(Color::DarkGray))]
}

/// Whether the rows of figure `f` in the list can be drawn: its stage
/// iterations sum to at most `u8::MAX`, and its line and caption line cut
/// between characters at the width of `inner` less two.
pub open spec fn figure_row_ok(f: FigureEntry, selected: bool, inner: Area) -> bool {
    &&& iteration_sum(f.stages@) <= u8::MAX
    &&& cut_bytes(utf8(figure_line(f, selected)), inner.width - 2) is Some
    &&& cut_bytes(utf8("       "@ + f.caption@), inner.width - 2) is Some
}

/// Whether the figures from the `i`-th on, from row `y` on, can be drawn.
pub open spec fn figure_list_ok(st: FiguresState, inner: Area, i: int, y: int) -> bool
    decreases st.figures@.len() - i,
{
    if 0 <= i < st.figures@.len() && y + 4 < inner.bottom_edge() {
        figure_row_ok(st.figures@[i], st.selected as int == i, inner) && figure_list_ok(st, inner, i + 1, y + 4)
    } else {
        true
    }
}

/// Whether the stages of `f` from the `k`-th on, from row `y` on, can be
/// drawn: their lines and their shown issues cut between characters.
pub open spec fn detail_stages_ok(f: FigureEntry, inner: Area, k: int, y: int) -> bool
    decreases f.stages@.len() - k,
{
    if 0 <= k < f.stages@.len() && y + 3 < sat_sub(inner.bottom_edge() as int, 6) {
        &&& cut_bytes(utf8(stage_detail_line(f, k)), inner.width - 2) is Some
        &&& lines_ok(issue_lines(f, k), 0, y + 1, sat_sub(inner.bottom_edge() as int, 6), inner.width - 2)
        &&& detail_stages_ok(f, inner, k + 1, detail_stage_end(f, inner, k, y))
    } else {
        true
    }
}

/// Whether the file lines of `f` from the `j`-th on, from row `y` on, cut
/// between characters.
pub open spec fn file_lines_ok(f: FigureEntry, inner: Area, j: int, y: int) -> bool
    decreases 3 - j,
{
    if 0 <= j < 3 && y < sat_sub(inner.bottom_edge() as int, 3) {
        cut_bytes(utf8(figure_file_line(j, figure_path(f, j))), inner.width - 2) is Some
            && file_lines_ok(f, inner, j + 1, y + 1)
    } else {
        true
    }
}

/// Whether the caption bytes `cap` from byte `pos` on (as in
/// `caption_marks`) break between characters.
pub open spec fn caption_ok(cap: Seq<u8>, w: int, pos: int, y: int, stop: int) -> bool
    decreases cap.len() - pos,
{
    if 0 <= pos < cap.len() && y < stop && w > 0 {
        let end = if w < cap.len() - pos { pos + w } else { cap.len() as int };
        &&& vstd::utf8::is_char_boundary(cap, pos)
        &&& vstd::utf8::is_char_boundary(cap, end)
        &&& caption_ok(cap, w, end, y + 1, stop)
    } else {
        true
    }
}

/// Whether the detail of figure `f` inside `inner` from row `y0` can be drawn.
pub open spec fn figure_detail_ok(f: FigureEntry, inner: Area, y0: int) -> bool {
    let ys = detail_stages_end(f, inner, 0, y0 + 3) + 1;
    let yc = file_lines_end(inner, 0, ys + 2) + 1;
    &&& detail_stages_ok(f, inner, 0, y0 + 3)
    &&& yc + 1 <= u16::MAX
    &&& file_lines_ok(f, inner, 0, ys + 2)
    &&& caption_ok(utf8(f.caption@), inner.width - 6, 0, yc + 1, sat_sub(inner.bottom_edge() as int, 2))
}

/// Whether the figures screen over `area` can be drawn.
pub open spec fn figures_ok(area: Area, st: FiguresState) -> bool {
    let inner = inside_borders(area);
    (inner.height < 8 || inner.width < 50) || {
        &&& cut_bytes(utf8(figures_header(st)), inner.width - 4) is Some
        &&& if st.show_detail {
            st.selected < st.figures@.len() ==> figure_detail_ok(st.figures@[st.selected as int], inner, inner.y + 4)
        } else {
            figure_list_ok(st, inner, 0, inner.y + 4)
        }
    }
}

/// The figures screen over `area`: its titled box; inside it, when it is at
/// least 50 by 8, the header cut to the width less four and the stage
/// legend; then, two rows down, the detail of the selected figure (if there
/// is one), or the list of figures and the hint centred on the last row.
pub open spec fn figures_marks(area: Area, st: FiguresState) -> Seq<Mark> {
    let inner = inside_borders(area);
    let frame = seq![Mark::Frame {
        area,
        title: " Research Pipeline -- Figures (5-Stage Design) "@,
        title_style: title_style(),
        border_style: screen_border_style(),
    }];
    let x = (inner.x + 2) as u16;
    if inner.height < 8 || inner.width < 50 {
        frame
    } else {
        frame + seq![
            Mark::Text { x, y: (inner.y + 1) as u16, bytes: cut_bytes(utf8(figures_header(st)), inner.width - 4)->0,
                style: bold_in(Color::White) },
            text_mark(x, (inner.y + 2) as u16, "Stages: DRAFT > REVIEW > REFINE > VERIFY > PLACE"@, plain_in(Color::DarkGray)),
        ] + if st.show_detail {
            if st.selected < st.figures@.len() {
                figure_detail_marks(st.figures@[st.selected as int], inner, inner.y + 4)
            } else {
                Seq::empty()
            }
        } else {
            figure_list_marks(st, inner, 0, inner.y + 4) + seq![text_mark(
                (x + sat_sub(inner.width as int, byte_len(figures_hint()) + 4int) / 2) as u16,
                (inner.bottom_edge() - 1) as u16, figures_hint(), italic_in(Color::DarkGray))]
        }
    }
}

/// The first three letters of a stage's name.
fn stage_tag(stage: FigureStage) -> (r: &'static str)
    ensures
        r@ == match stage {
            FigureStage::Draft => "DRA"@,
            FigureStage::Review => "REV"@,
            FigureStage::Refine => "REF"@,
            FigureStage::Verify => "VER"@,
            FigureStage::Place => "PLA"@,
            FigureStage::Complete => "DON"@,
        },
        byte_len(r@) == 3,
{
    let r = match stage {
        FigureStage::Draft => "DRA",
        FigureStage::Review => "REV",
        FigureStage::Refine => "REF",
        FigureStage::Verify => "VER",
        FigureStage::Place => "PLA",
        FigureStage::Complete => "DON",
    };
    proof {
        reveal_strlit("DRA");
        reveal_strlit("REV");
        reveal_strlit("REF");
        reveal_strlit("VER");
        reveal_strlit("PLA");
        reveal_strlit("DON");
        crate::draw::lemma_ascii_byte_len(r@);
    }
    r
}

/// The iterations of a figure's stages together, as a `u8`; nothing where
/// that sum passes `u8::MAX`.
fn iterations_of(f: &FigureEntry) -> (r: Option<u8>)
    ensures
        r matches Some(n) ==> n == iteration_sum(f.stages@),
        r is None ==> iteration_sum(f.stages@) > u8::MAX,
{
    let mut n: u64 = 0;
    let mut i: usize = 0;
    while i < f.stages.len()
        invariant
            i <= f.stages@.len(),
            n == iteration_sum(f.stages@.take(i as int)),
            n <= 255 * i,
        decreases f.stages@.len() - i,
    {
        assert(f.stages@.take(i + 1).drop_last() =~= f.stages@.take(i as int));
        if n > 255 {
            proof {
                lemma_iteration_sum_prefix(f.stages@, i as int);
            }
            return None;
        }
        n = n + f.stages[i].iteration as u64;
        i += 1;
    }
    assert(f.stages@.take(f.stages@.len() as int) =~= f.stages@);
    if n > 255 {
        return None;
    }
    Some(n as u8)
}

/// The header of the figures screen.
fn figures_header_of(st: &FiguresState) -> (r: String)
    ensures
        r@ == figures_header(*st),
{
    let mut complete: usize = 0;
    let mut review: usize = 0;
    let mut i: usize = 0;
    while i < st.figures.len()
        invariant
            i <= st.figures@.len(),
            complete == complete_count(st.figures@.take(i as int)),
            review == review_count(st.figures@.take(i as int)),
            complete <= i,
            review <= i,
        decreases st.figures@.len() - i,
    {
        assert(st.figures@.take(i + 1).drop_last() =~= st.figures@.take(i as int));
        if st.figures[i].current_stage == FigureStage::Complete {
            complete += 1;
        }
        if st.figures[i].current_stage == FigureStage::Review {
            review += 1;
        }
        i += 1;
    }
    assert(st.figures@.take(st.figures@.len() as int) =~= st.figures@);
    let mut h = String::new();
    push_decimal(&mut h, complete as u64);
    push_str(&mut h, "/");
    push_decimal(&mut h, st.figures.len() as u64);
    push_str(&mut h, " complete | ");
    push_decimal(&mut h, review as u64);
    push_str(&mut h, " in review | ");
    push_decimal(&mut h, st.recommended_count() as u64);
    push_str(&mut h, " recommended for ");
    push_decimal(&mut h, st.page_count as u64);
    push_str(&mut h, " pages");
    h
}

/// The three rows of one figure in the list: its id, priority, width, type,
/// stage and iterations; its stages in a row of tags; its caption.
fn figure_rows(fig: &FigureEntry, selected: bool, inner: Area, y: u16, ops: &mut Vec<Draw>) -> (ok: bool)
    requires
        fits_u16(inner),
        inner.width >= 50,
        inner.y <= y,
        y + 4 < inner.bottom_edge(),
        drawn_within(old(ops)@, 0, inner.x as int, inner.y as int, inner.bottom_edge() as int),
    ensures
        drawn_within(final(ops)@, 0, inner.x as int, inner.y as int, inner.bottom_edge() as int),
        iteration_sum(fig.stages@) <= u8::MAX && crate::stage_view::cuts_cleanly(figure_line(*fig, selected), inner.width - 2)
            && crate::stage_view::cuts_cleanly("       "@ + fig.caption@, inner.width - 2) ==> ok,
        ok ==> marks(final(ops)@) == marks(old(ops)@) + figure_row_marks(*fig, selected, inner, y as int),
        ok == figure_row_ok(*fig, selected, inner),
{
    let ghost (l, t, b) = (inner.x as int, inner.y as int, inner.bottom_edge() as int);
    let ghost (m0, y0) = (marks(ops@), y as int);
    let x = inner.left() + 2;
    let right = inner.right();
    let tw: usize = inner.width as usize;
    let iters = match iterations_of(fig) {
        Some(n) => n,
        None => {
            return false;
        },
    };
    let prio = match fig.priority {
        FigurePriority::Essential => "P1",
        FigurePriority::Expected => "P2",
        FigurePriority::Optional => "P3",
    };
    let width_tag = if crate::text::str_eq(fig.width, "double") { "2col" } else { "1col" };
    let mut line1 = owned(if selected { ">>" } else { "  " });
    push_str(&mut line1, " ");
    push_str(&mut line1, fig.id.as_str());
    push_str(&mut line1, " [");
    push_str(&mut line1, prio);
    push_str(&mut line1, "] [");
    push_str(&mut line1, width_tag);
    push_str(&mut line1, "] [");
    push_padded(&mut line1, fig.fig_type.as_str(), 6);
    push_str(&mut line1, "]  Stage: ");
    push_str(&mut line1, fig.current_stage.label());
    push_str(&mut line1, "  (iters: ");
    push_decimal(&mut line1, iters as u64);
    push_str(&mut line1, ")");
    assert(line1@ =~= figure_line(*fig, selected));
    let style = if selected { Style::highlight(Color::White, Color::Rgb(50, 20, 60)) } else { Style::fg(Color::Gray) };
    if !push_fitted_in(ops, x, y, line1.as_str(), tw - 2, style, Ghost(0), Ghost(l), Ghost(t), Ghost(b)) {
        return false;
    }
    let y = y + 1;
    let mut px: usize = x as usize + 4;
    let mut i: usize = 0;
    let ghost m1 = marks(ops@);
    while i < fig.stages.len() && px + 10 < right as usize
        invariant
            fits_u16(inner),
            inner.width >= 50,
            right == inner.right_edge(),
            l == inner.x, t == inner.y, b == inner.bottom_edge(),
            inner.y <= y < b,
            inner.x <= px <= right + 8,
            drawn_within(ops@, 0, l, t, b),
            marks(ops@) + stage_tag_marks(*fig, inner, i as int, y as int, px as int)
                == m1 + stage_tag_marks(*fig, inner, 0, y as int, inner.x + 6),
        decreases fig.stages@.len() - i,
    {
        let ghost (before, pxi) = (marks(ops@), px as int);
        let ss = &fig.stages[i];
        let icon = ss.status.icon();
        let tag3 = stage_tag(ss.stage);
        let mut tag = owned(icon);
        push_str(&mut tag, tag3);
        let st = if ss.stage == fig.current_stage { Style::bold(ss.status.color()) } else { Style::fg(ss.status.color()) };
        push_text_in(ops, px as u16, y, tag.as_str(), st, Ghost(0), Ghost(l), Ghost(t), Ghost(b));
        let tl: usize = byte_length(tag.as_str());
        proof {
            reveal_strlit(" ");
            reveal_strlit(">");
            reveal_strlit("*");
            reveal_strlit("~");
            reveal_strlit("!");
            crate::draw::lemma_ascii_byte_len(icon@);
            crate::draw::lemma_utf8_concat(icon@, tag3@);
        }
        px = px + tl + 1;
        if ss.stage != FigureStage::Place {
            push_text_in(ops, px as u16, y, ">>", Style::fg(Color::DarkGray), Ghost(0), Ghost(l), Ghost(t), Ghost(b));
            px = px + 3;
        }
        proof {
            let more = stage_tag_marks(*fig, inner, i + 1, y as int, px as int);
            let mine = marks(ops@).subrange(before.len() as int, marks(ops@).len() as int);
            assert(marks(ops@) =~= before + mine);
            assert(tag@ =~= result_icon(ss.status) + stage_tag_text(ss.stage));
            assert(stage_tag_marks(*fig, inner, i as int, y as int, pxi) == mine + more);
            assert(before + (mine + more) =~= marks(ops@) + more);
        }
        i += 1;
    }
    assert(marks(ops@) =~= m1 + stage_tag_marks(*fig, inner, 0, y as int, inner.x + 6));
    let y = y + 1;
    let mut cap = owned("       ");
    push_str(&mut cap, fig.caption.as_str());
    if !push_fitted_in(ops, x, y, cap.as_str(), tw - 2, Style::fg(Color::DarkGray), Ghost(0), Ghost(l), Ghost(t), Ghost(b)) {
        return false;
    }
    assert(marks(ops@) =~= m0 + figure_row_marks(*fig, selected, inner, y0));
    true
}


/// The line of design stage `k` in the detail of a figure.
#[verifier::spinoff_prover]
#[verifier::rlimit(40)]
fn stage_line_of(fig: &FigureEntry, k: usize) -> (r: String)
    requires
        k < fig.stages@.len(),
    ensures
        r@ == stage_detail_line(*fig, k as int),
{
    let ss = &fig.stages[k];
    let current = ss.stage == fig.current_stage;
    let mut line = owned(if current { ">>" } else { "  " });
    push_str(&mut line, " [");
    push_str(&mut line, ss.status.icon());
    push_str(&mut line, "] ");
    push_padded(&mut line, ss.stage.label(), 6);
    push_str(&mut line, " ");
    push_padded(&mut line, ss.stage.description(), 16);
    push_str(&mut line, " ");
    if ss.iteration > 0 {
        push_str(&mut line, "(iter ");
        push_decimal(&mut line, ss.iteration as u64);
        push_str(&mut line, "/");
        push_decimal(&mut line, ss.max_iterations as u64);
        push_str(&mut line, ")");
    } else {
        push_str(&mut line, "");
    }
    assert(line@ =~= stage_detail_line(*fig, k as int));
    line
}

/// The rows of one design stage in the detail of a figure: the stage with
/// its outcome and iterations, then its issues while they fit.
fn detail_stage_rows(fig: &FigureEntry, k: usize, inner: Area, y0: u16, ops: &mut Vec<Draw>) -> (r: Option<u16>)
    requires
        fits_u16(inner),
        inner.width >= 50,
        k < fig.stages@.len(),
        inner.y <= y0,
        y0 + 9 < inner.bottom_edge(),
        drawn_within(old(ops)@, 0, inner.x as int, inner.y as int, inner.bottom_edge() + 4),
    ensures
        drawn_within(final(ops)@, 0, inner.x as int, inner.y as int, inner.bottom_edge() + 4),
        r matches Some(y) ==> inner.y <= y <= inner.bottom_edge() - 6,
        r matches Some(y) ==> y == detail_stage_end(*fig, inner, k as int, y0 as int),
        r is Some ==> marks(final(ops)@) == marks(old(ops)@) + detail_stage_marks(*fig, inner, k as int, y0 as int),
        r is Some <==> (cut_bytes(utf8(stage_detail_line(*fig, k as int)), inner.width - 2) is Some
            && lines_ok(issue_lines(*fig, k as int), 0, y0 + 1, sat_sub(inner.bottom_edge() as int, 6), inner.width - 2)),
        ({
            &&& crate::stage_view::cuts_cleanly(stage_detail_line(*fig, k as int), inner.width - 2)
            &&& forall|m: int| 0 <= m < fig.stages@[k as int].issues@.len() ==>
                crate::stage_view::cuts_cleanly("          ! "@ + (#[trigger] fig.stages@[k as int].issues@[m])@, inner.width - 2)
        }) ==> r is Some,
{
    let ghost (l, t, b) = (inner.x as int, inner.y as int, inner.bottom_edge() + 4);
    let x = inner.left() + 2;
    let bottom = inner.bottom();
    let stop: u16 = if bottom >= 6 { bottom - 6 } else { 0 };
    let w: usize = inner.width as usize - 2;
    let ss = &fig.stages[k];
    let current = ss.stage == fig.current_stage;
    let line = stage_line_of(fig, k);
    let style = if current {
        Style::bold(Color::White)
    } else if ss.status == StageResult::Passed {
        Style::fg(Color::Green)
    } else {
        Style::fg(ss.status.color())
    };
    let mut y = y0;
    let ghost m0 = marks(ops@);
    let ghost lines = issue_lines(*fig, k as int);
    if !push_fitted_in(ops, x, y, line.as_str(), w, style, Ghost(0), Ghost(l), Ghost(t), Ghost(b)) {
        return None;
    }
    let ghost m1 = marks(ops@);
    y = y + 1;
    let mut i: usize = 0;
    while i < ss.issues.len() && y < stop
        invariant
            fits_u16(inner),
            inner.width >= 50,
            x == inner.x + 2,
            w == inner.width - 2,
            bottom == inner.bottom_edge(),
            stop == bottom - 6,
            l == inner.x, t == inner.y, b == inner.bottom_edge() + 4,
            inner.y <= y <= bottom - 6,
            drawn_within(ops@, 0, l, t, b),
            ss == fig.stages@[k as int],
            k < fig.stages@.len(),
            lines == issue_lines(*fig, k as int),
            marks(ops@) + line_marks(lines, x, i as int, y as int, stop as int, w as int, plain_in(Color::Yellow))
                == m1 + line_marks(lines, x, 0, y0 + 1, stop as int, w as int, plain_in(Color::Yellow)),
            lines_end(ss.issues@.len() as int, i as int, y as int, stop as int)
                == lines_end(ss.issues@.len() as int, 0, y0 + 1, stop as int),
            lines_ok(lines, i as int, y as int, stop as int, w as int) == lines_ok(lines, 0, y0 + 1, stop as int, w as int),
            cut_bytes(utf8(stage_detail_line(*fig, k as int)), inner.width - 2) is Some,
        decreases ss.issues@.len() - i,
    {
        let ghost before = marks(ops@);
        let mut il = owned("          ! ");
        push_str(&mut il, ss.issues[i].as_str());
        proof {
            if forall|m: int| 0 <= m < fig.stages@[k as int].issues@.len() ==>
                crate::stage_view::cuts_cleanly("          ! "@ + (#[trigger] fig.stages@[k as int].issues@[m])@, inner.width - 2) {
                assert(crate::stage_view::cuts_cleanly("          ! "@ + fig.stages@[k as int].issues@[i as int]@, inner.width - 2));
            }
        }
        if !push_fitted_in(ops, x, y, il.as_str(), w, Style::fg(Color::Yellow), Ghost(0), Ghost(l), Ghost(t), Ghost(b)) {
            return None;
        }
        proof {
            assert(lines[i as int] == il@);
            let more = line_marks(lines, x, i + 1, y + 1, stop as int, w as int, plain_in(Color::Yellow));
            assert(before + (seq![marks(ops@).last()] + more) =~= marks(ops@) + more);
        }
        y = y + 1;
        i += 1;
    }
    assert(marks(ops@) =~= m0 + detail_stage_marks(*fig, inner, k as int, y0 as int));
    assert(lines_ok(lines, i as int, y as int, stop as int, w as int));
    Some(y)
}

/// The design stages of a figure from row `y0`, while four rows are left
/// above the last six of `inner`; gives the row after them, or nothing where
/// a line is cut inside a character.
fn detail_stages(fig: &FigureEntry, inner: Area, y0: u16, ops: &mut Vec<Draw>) -> (r: Option<u16>)
    requires
        fits_u16(inner),
        inner.width >= 50,
        inner.height >= 8,
        inner.y <= y0 <= inner.bottom_edge() - 1,
        drawn_within(old(ops)@, 0, inner.x as int, inner.y as int, inner.bottom_edge() + 4),
    ensures
        drawn_within(final(ops)@, 0, inner.x as int, inner.y as int, inner.bottom_edge() + 4),
        figure_detail_fits(*fig, inner.width as int) ==> r is Some,
        r matches Some(y) ==> inner.y <= y <= inner.bottom_edge() - 1 && y == detail_stages_end(*fig, inner, 0, y0 as int),
        r is Some ==> marks(final(ops)@) == marks(old(ops)@) + detail_stages_marks(*fig, inner, 0, y0 as int),
        r is Some <==> detail_stages_ok(*fig, inner, 0, y0 as int),
{
    let ghost (l, t, b) = (inner.x as int, inner.y as int, inner.bottom_edge() + 4);
    let ghost fits = figure_detail_fits(*fig, inner.width as int);
    let bottom = inner.bottom();
    let mut y = y0;
    let stop6: u16 = if bottom >= 6 { bottom - 6 } else { 0 };
    let mut k: usize = 0;
    let ghost m0 = marks(ops@);
    while k < fig.stages.len() && (y as u32) + 3 < stop6 as u32
        invariant
            fits_u16(inner),
            inner.width >= 50,
            inner.height >= 8,
            bottom == inner.bottom_edge(),
            stop6 == if bottom >= 6 { bottom - 6 } else { 0 },
            l == inner.x, t == inner.y, b == inner.bottom_edge() + 4,
            inner.y <= y <= bottom - 1,
            drawn_within(ops@, 0, l, t, b),
            fits == figure_detail_fits(*fig, inner.width as int),
            marks(ops@) + detail_stages_marks(*fig, inner, k as int, y as int) == m0 + detail_stages_marks(*fig, inner, 0, y0 as int),
            detail_stages_end(*fig, inner, k as int, y as int) == detail_stages_end(*fig, inner, 0, y0 as int),
            detail_stages_ok(*fig, inner, k as int, y as int) == detail_stages_ok(*fig, inner, 0, y0 as int),
        decreases fig.stages@.len() - k,
    {
        let ghost (before, yi) = (marks(ops@), y as int);
        proof {
            if fits {
                assert(crate::stage_view::cuts_cleanly(stage_detail_line(*fig, k as int), inner.width - 2));
            }
        }
        y = match detail_stage_rows(fig, k, inner, y, ops) {
            Some(y) => y,
            None => {
                return None;
            },
        };
        proof {
            let more = detail_stages_marks(*fig, inner, k + 1, y as int);
            let mine = detail_stage_marks(*fig, inner, k as int, yi);
            assert(before + (mine + more) =~= marks(ops@) + more);
        }
        k += 1;
    }
    assert(marks(ops@) =~= m0 + detail_stages_marks(*fig, inner, 0, y0 as int));
    assert(detail_stages_ok(*fig, inner, k as int, y as int));
    Some(y)
}

/// The file lines of a figure from row `y0`, while above the last three
/// rows of `inner`; gives the row after them, or nothing where a line is cut
/// inside a character.
fn detail_files(fig: &FigureEntry, inner: Area, y0: u16, ops: &mut Vec<Draw>) -> (r: Option<u16>)
    requires
        fits_u16(inner),
        inner.width >= 50,
        inner.y <= y0 <= inner.bottom_edge() + 2,
        drawn_within(old(ops)@, 0, inner.x as int, inner.y as int, inner.bottom_edge() + 4),
    ensures
        drawn_within(final(ops)@, 0, inner.x as int, inner.y as int, inner.bottom_edge() + 4),
        figure_detail_fits(*fig, inner.width as int) ==> r is Some,
        r matches Some(y) ==> inner.y <= y <= inner.bottom_edge() + 2 && y == file_lines_end(inner, 0, y0 as int),
        r is Some ==> marks(final(ops)@) == marks(old(ops)@) + file_line_marks(*fig, inner, 0, y0 as int),
        r is Some <==> file_lines_ok(*fig, inner, 0, y0 as int),
{
    let ghost (l, t, b) = (inner.x as int, inner.y as int, inner.bottom_edge() + 4);
    let ghost fits = figure_detail_fits(*fig, inner.width as int);
    let x = inner.left() + 2;
    let bottom = inner.bottom();
    let tw: usize = inner.width as usize;
    let mut y = y0;
    let stop3: u16 = if bottom >= 3 { bottom - 3 } else { 0 };
    let mut i: usize = 0;
    let ghost m0 = marks(ops@);
    while i < 3 && y < stop3
        invariant
            fits_u16(inner),
            inner.width >= 50,
            x == inner.x + 2,
            tw == inner.width,
            bottom == inner.bottom_edge(),
            stop3 <= bottom,
            l == inner.x, t == inner.y, b == inner.bottom_edge() + 4,
            inner.y <= y <= bottom + 2,
            drawn_within(ops@, 0, l, t, b),
            fits == figure_detail_fits(*fig, inner.width as int),
            stop3 == sat_sub(inner.bottom_edge() as int, 3),
            marks(ops@) + file_line_marks(*fig, inner, i as int, y as int) == m0 + file_line_marks(*fig, inner, 0, y0 as int),
            file_lines_end(inner, i as int, y as int) == file_lines_end(inner, 0, y0 as int),
            file_lines_ok(*fig, inner, i as int, y as int) == file_lines_ok(*fig, inner, 0, y0 as int),
        decreases 3 - i,
    {
        let ghost before = marks(ops@);
        let (label, path) = if i == 0 {
            ("PDF   ", &fig.pdf_path)
        } else if i == 1 {
            ("PNG   ", &fig.png_path)
        } else {
            ("Script", &fig.gp_script)
        };
        let mut line = owned("  ");
        let color = match path {
            Some(p) => {
                push_str(&mut line, "[*]");
                push_str(&mut line, " ");
                push_str(&mut line, label);
                push_str(&mut line, ": ");
                match crate::paths::file_name(p.as_str()) {
                    Some(nm) => push_str(&mut line, nm.as_str()),
                    None => {},
                }
                Color::Green
            },
            None => {
                push_str(&mut line, "[ ]");
                push_str(&mut line, " ");
                push_str(&mut line, label);
                push_str(&mut line, ": ");
                push_str(&mut line, "not generated");
                Color::DarkGray
            },
        };
        proof {
            let pp = if i == 0 { fig.pdf_path } else if i == 1 { fig.png_path } else { fig.gp_script };
            assert(*path == pp);
            match path {
                Some(p) => {
                    match crate::paths::final_component(p@) {
                        Some(n) => {},
                        None => {
                            assert(line@ =~= "  "@ + "[*]"@ + " "@ + label@ + ": "@);
                            assert(line@ =~= "  "@ + "[*]"@ + " "@ + label@ + ": "@ + ""@) by {
                                reveal_strlit("");
                            }
                        },
                    }
                },
                None => {},
            }
            assert(line@ =~= figure_file_line(i as int, pp));
        }
        if !push_fitted_in(ops, x, y, line.as_str(), tw - 2, Style::fg(color), Ghost(0), Ghost(l), Ghost(t), Ghost(b)) {
            return None;
        }
        proof {
            assert(*path == figure_path(*fig, i as int));
            let more = file_line_marks(*fig, inner, i + 1, y + 1);
            assert(before + (seq![marks(ops@).last()] + more) =~= marks(ops@) + more);
        }
        y = y + 1;
        i += 1;
    }
    assert(marks(ops@) =~= m0 + file_line_marks(*fig, inner, 0, y0 as int));
    assert(file_lines_ok(*fig, inner, i as int, y as int));
    Some(y)
}

/// The caption of a figure from row `y0`, wrapped every `width - 6` bytes,
/// while above the last two rows of `inner`; false where a piece would end
/// inside a character.
fn detail_caption(fig: &FigureEntry, inner: Area, y0: u16, ops: &mut Vec<Draw>) -> (ok: bool)
    requires
        fits_u16(inner),
        inner.width >= 50,
        inner.y <= y0 <= inner.bottom_edge() + 4,
        drawn_within(old(ops)@, 0, inner.x as int, inner.y as int, inner.bottom_edge() + 4),
    ensures
        drawn_within(final(ops)@, 0, inner.x as int, inner.y as int, inner.bottom_edge() + 4),
        figure_detail_fits(*fig, inner.width as int) ==> ok,
        ok ==> marks(final(ops)@) == marks(old(ops)@) + caption_marks(utf8(fig.caption@), (inner.x + 4) as u16,
            inner.width - 6, 0, y0 as int, sat_sub(inner.bottom_edge() as int, 2)),
        ok == caption_ok(utf8(fig.caption@), inner.width - 6, 0, y0 as int, sat_sub(inner.bottom_edge() as int, 2)),
{
    let ghost (l, t, b) = (inner.x as int, inner.y as int, inner.bottom_edge() + 4);
    let ghost fits = figure_detail_fits(*fig, inner.width as int);
    let x = inner.left() + 2;
    let bottom = inner.bottom();
    let tw: usize = inner.width as usize;
    let mut y = y0;
    let cap_w: usize = tw - 6;
    let len = byte_length(fig.caption.as_str());
    let stop2: u16 = if bottom >= 2 { bottom - 2 } else { 0 };
    let mut pos: usize = 0;
    let ghost (m0, cap) = (marks(ops@), utf8(fig.caption@));
    let ghost target = m0 + caption_marks(cap, (x + 2) as u16, inner.width - 6, 0, y0 as int, stop2 as int);
    while pos < len && y < stop2
        invariant
            fits_u16(inner),
            inner.width >= 50,
            x == inner.x + 2,
            cap_w == inner.width - 6,
            len == byte_len(fig.caption@),
            bottom == inner.bottom_edge(),
            stop2 <= bottom,
            l == inner.x, t == inner.y, b == inner.bottom_edge() + 4,
            inner.y <= y <= bottom + 4,
            pos <= len,
            drawn_within(ops@, 0, l, t, b),
            fits == figure_detail_fits(*fig, inner.width as int),
            (pos as int) % (cap_w as int) == 0 || pos == len,
            cap == utf8(fig.caption@),
            stop2 == sat_sub(inner.bottom_edge() as int, 2),
            marks(ops@) + caption_marks(cap, (x + 2) as u16, cap_w as int, pos as int, y as int, stop2 as int) == target,
            caption_ok(cap, cap_w as int, pos as int, y as int, stop2 as int) == caption_ok(cap, cap_w as int, 0, y0 as int, stop2 as int),
            y0 <= y,
        decreases len - pos,
    {
        let ghost (before, posi, yi) = (marks(ops@), pos as int, y as int);
        let end: usize = if cap_w < len - pos { pos + cap_w } else { len };
        proof {
            vstd::arithmetic::div_mod::lemma_mod_add_multiples_vanish(pos as int, cap_w as int);
            assert((cap_w + pos) % (cap_w as int) == (pos as int) % (cap_w as int));
            if fits {
                assert((pos as int) % (inner.width - 6) == 0);
                assert(vstd::utf8::is_char_boundary(utf8(fig.caption@), pos as int));
                if end < len {
                    assert(end as int == cap_w + pos);
                    assert((end as int) % (inner.width - 6) == 0);
                    assert(vstd::utf8::is_char_boundary(utf8(fig.caption@), end as int));
                } else {
                    vstd::utf8::encode_utf8_valid_utf8(fig.caption@);
                    vstd::utf8::is_char_boundary_start_end_of_seq(utf8(fig.caption@));
                }
            }
        }
        let piece = match crate::draw::byte_slice(fig.caption.as_str(), pos, end) {
            Some(p) => p,
            None => {
                return false;
            },
        };
        assert(utf8(piece@) == cap.subrange(pos as int, end as int));
        push_text_in(ops, x + 2, y, piece.as_str(), Style::fg(Color::White), Ghost(0), Ghost(l), Ghost(t), Ghost(b));
        proof {
            vstd::arithmetic::div_mod::lemma_mod_add_multiples_vanish(pos as int, cap_w as int);
            if end == len {
            }
        }
        proof {
            let more = caption_marks(cap, (x + 2) as u16, cap_w as int, end as int, y + 1, stop2 as int);
            assert(caption_marks(cap, (x + 2) as u16, cap_w as int, posi, yi, stop2 as int)
                == seq![marks(ops@).last()] + more);
            assert(before + (seq![marks(ops@).last()] + more) =~= marks(ops@) + more);
        }
        pos = end;
        y = y + 1;
    }
    assert(marks(ops@) =~= target);
    assert(caption_ok(cap, cap_w as int, pos as int, y as int, stop2 as int));
    true
}

/// The detail of a figure inside `inner` from row `start_y`: its title, its
/// design stages with their issues, its files, its caption wrapped to the
/// width, and a hint on the last row.
#[verifier::spinoff_prover]
#[verifier::rlimit(50)]
fn render_detail(inner: Area, start_y: u16, fig: &FigureEntry, ops: &mut Vec<Draw>) -> (ok: bool)
    requires
        fits_u16(inner),
        inner.width >= 50,
        inner.height >= 8,
        start_y == inner.y + 4,
        drawn_within(old(ops)@, 0, inner.x as int, inner.y as int, inner.bottom_edge() + 4),
    ensures
        drawn_within(final(ops)@, 0, inner.x as int, inner.y as int, inner.bottom_edge() + 4),
        ok ==> final(ops)@.len() >= 1 && text_at(final(ops)@.last(),
            (inner.x + sat_sub(inner.width as int, byte_len(figure_detail_hint()) as int) / 2) as u16,
            (inner.bottom_edge() - 1) as u16, figure_detail_hint(),
            Style { fg: Some(Color::DarkGray), bg: None, bold: false, italic: true, underlined: false }),
        ok ==> marks(final(ops)@) == marks(old(ops)@) + figure_detail_marks(*fig, inner, start_y as int),
        ok == figure_detail_ok(*fig, inner, start_y as int),
{
    let ghost (l, t, b) = (inner.x as int, inner.y as int, inner.bottom_edge() + 4);
    let ghost m0 = marks(ops@);
    let x = inner.left() + 2;
    let bottom = inner.bottom();
    let tw: usize = inner.width as usize;
    let mut y = start_y;
    let mut title = crate::text::to_uppercase(fig.id.as_str());
    push_str(&mut title, " -- ");
    push_str(&mut title, fig.fig_type.as_str());
    push_str(&mut title, " (");
    push_str(&mut title, if crate::text::str_eq(fig.width, "double") { "double-column, 7.16 in" } else { "single-column, 3.5 in" });
    push_str(&mut title, ")");
    assert(title@ =~= figure_title(*fig));
    push_text_in(ops, x, y, title.as_str(), Style::bold(Color::Magenta), Ghost(0), Ghost(l), Ghost(t), Ghost(b));
    y = y + 2;
    push_text_in(ops, x, y, "DESIGN PIPELINE", Style::heading(Color::Rgb(100, 200, 255)), Ghost(0), Ghost(l), Ghost(t), Ghost(b));
    y = y + 1;
    let ghost m1 = marks(ops@);
    y = match detail_stages(fig, inner, y, ops) {
        Some(y) => y,
        None => {
            return false;
        },
    };
    let ghost m2 = marks(ops@);
    if y > u16::MAX - 3 {
        proof {
            lemma_file_lines_end_below(inner, 0, y + 3);
        }
        return false;
    }
    y = y + 1;
    let n: usize = if tw >= 4 { tw - 4 } else { 0 };
    let sep = crate::draw::repeat_char('\u{2500}', if n < 60 { n } else { 60 });
    push_text_in(ops, x, y, sep.as_str(), Style::fg(Color::DarkGray), Ghost(0), Ghost(l), Ghost(t), Ghost(b));
    y = y + 1;
    push_text_in(ops, x, y, "FILES", Style::heading(Color::Rgb(120, 200, 120)), Ghost(0), Ghost(l), Ghost(t), Ghost(b));
    y = y + 1;
    let ghost m3 = marks(ops@);
    y = match detail_files(fig, inner, y, ops) {
        Some(y) => y,
        None => {
            return false;
        },
    };
    let ghost m4 = marks(ops@);
    if y > u16::MAX - 2 {
        return false;
    }
    y = y + 1;
    push_text_in(ops, x, y, "CAPTION", Style::heading(Color::Rgb(200, 200, 100)), Ghost(0), Ghost(l), Ghost(t), Ghost(b));
    y = y + 1;
    let ghost m5 = marks(ops@);
    if !detail_caption(fig, inner, y, ops) {
        return false;
    }
    let ghost m6 = marks(ops@);
    let hint = "Enter close | Esc back to list";
    let hl: u16 = byte_length(hint) as u16;
    proof {
        reveal_strlit("Enter close | Esc back to list");
        crate::draw::lemma_ascii_byte_len(hint@);
    }
    let hx = inner.left() + (if inner.width > hl { inner.width - hl } else { 0 }) / 2;
    push_text_in(ops, hx, bottom - 1, hint, Style::italic(Color::DarkGray), Ghost(0), Ghost(l), Ghost(t), Ghost(b));
    proof {
        let xx = (inner.x + 2) as u16;
        let y0 = start_y as int;
        let ys = detail_stages_end(*fig, inner, 0, y0 + 3) + 1;
        let yc = file_lines_end(inner, 0, ys + 2) + 1;
        let rule_len = sat_sub(inner.width as int, 4);
        let p1 = seq![
            text_mark(xx, y0 as u16, figure_title(*fig), bold_in(Color::Magenta)),
            text_mark(xx, (y0 + 2) as u16, "DESIGN PIPELINE"@, heading_in(Color::Rgb(100, 200, 255))),
        ];
        let p2 = detail_stages_marks(*fig, inner, 0, y0 + 3);
        let p3 = seq![
            text_mark(xx, ys as u16, repeated('\u{2500}', if rule_len < 60 { rule_len as nat } else { 60 }), plain_in(Color::DarkGray)),
            text_mark(xx, (ys + 1) as u16, "FILES"@, heading_in(Color::Rgb(120, 200, 120))),
        ];
        let p4 = file_line_marks(*fig, inner, 0, ys + 2);
        let p5 = seq![text_mark(xx, yc as u16, "CAPTION"@, heading_in(Color::Rgb(200, 200, 100)))];
        let p6 = caption_marks(utf8(fig.caption@), (xx + 2) as u16, inner.width - 6, 0, yc + 1, sat_sub(inner.bottom_edge() as int, 2));
        let p7 = seq![text_mark((inner.x + sat_sub(inner.width as int, byte_len(figure_detail_hint()) as int) / 2) as u16,
            (inner.bottom_edge() - 1) as u16, figure_detail_hint(), italic_in(Color::DarkGray))];
        assert(m1 =~= m0 + p1);
        assert(m2 == m1 + p2);
        assert(m3 =~= m2 + p3);
        assert(m4 == m3 + p4);
        assert(m5 =~= m4 + p5);
        assert(m6 == m5 + p6);
        assert(marks(ops@) =~= m6 + p7);
        assert(figure_detail_marks(*fig, inner, y0) == p1 + p2 + p3 + p4 + p5 + p6 + p7);
        assert(marks(ops@) =~= m0 + (p1 + p2 + p3 + p4 + p5 + p6 + p7));
    }
    true
}

/// Draws the figures screen over `area`: the titled box; inside it, when it
/// is at least 50 by 8, the header of complete and recommended figures and
/// the stage legend; then the detail of the selected figure, or the list of
/// figures (three rows each) while they fit and a hint on the last row.
/// Nothing where a line would be cut inside a character, a figure's
/// iterations pass `u8::MAX` or a row would pass `u16::MAX`.
#[verifier::spinoff_prover]
#[verifier::rlimit(40)]
pub fn render(area: Area, state: &FiguresState, app: &App) -> (r: Option<Vec<Draw>>)
    requires
        fits_u16(area),
    ensures
        r matches Some(ops) ==> figures_screen_drawn(ops@, area, *state),
        r matches Some(ops) ==> marks(ops@) == figures_marks(area, *state),
        r is Some <==> figures_ok(area, *state),
{
    let mut ops: Vec<Draw> = Vec::new();
    push_frame(&mut ops, area, owned(" Research Pipeline -- Figures (5-Stage Design) "), Style::bold(Color::Magenta), Style::fg(Color::Rgb(80, 40, 100)));
    let inner = bordered_inner(area);
    proof {
        reveal_strlit(" Research Pipeline -- Figures (5-Stage Design) ");
    }
    if inner.height < 8 || inner.width < 50 {
        assert(marks(ops@) =~= figures_marks(area, *state));
        return Some(ops);
    }
    let ghost (l, t) = (inner.x as int, inner.y as int);
    let ghost b = inner.bottom_edge() + if state.show_detail { 4int } else { 0int };
    let tw: usize = inner.width as usize;
    let bottom = inner.bottom();
    let x = inner.left() + 2;
    let mut y = inner.top() + 1;
    let header = figures_header_of(state);
    let mut head: Vec<Draw> = Vec::new();
    if !push_fitted_in(&mut head, x, y, header.as_str(), tw - 4, Style::bold(Color::White), Ghost(0), Ghost(l), Ghost(t), Ghost(b)) {
        return None;
    }
    proof {
        let hb = utf8(header@);
        assert(cut_bytes(hb, tw - 4) == cut_bytes(hb, if hb.len() < inner.width - 4 { hb.len() as int } else { inner.width - 4 }));
    }
    y = y + 1;
    push_text_in(&mut head, x, y, "Stages: DRAFT > REVIEW > REFINE > VERIFY > PLACE", Style::fg(Color::DarkGray), Ghost(0), Ghost(l), Ghost(t), Ghost(b));
    assert(head@.len() == 2);
    assert(head@[0] == head@.take(1)[0]);
    y = y + 2;
    let mut rest: Vec<Draw> = Vec::new();
    if state.show_detail {
        if state.selected < state.figures.len() {
            if !render_detail(inner, y, &state.figures[state.selected], &mut rest) {
                return None;
            }
        }
    } else {
        let mut i: usize = 0;
        let ghost y4 = y as int;
        while i < state.figures.len() && (y as u32) + 4 < bottom as u32
            invariant
                fits_u16(inner),
                inner.width >= 50,
                !state.show_detail,
                bottom == inner.bottom_edge(),
                l == inner.x, t == inner.y, b == inner.bottom_edge(),
                inner.y <= y <= bottom + 4,
                drawn_within(rest@, 0, l, t, b),
                inner == inside_borders(area),
                marks(rest@) + figure_list_marks(*state, inner, i as int, y as int) == figure_list_marks(*state, inner, 0, y4),
                figure_list_ok(*state, inner, i as int, y as int) == figure_list_ok(*state, inner, 0, y4),
                y4 == inner.y + 4,
            decreases state.figures@.len() - i,
        {
            let ghost before = marks(rest@);
            if !figure_rows(&state.figures[i], state.selected == i, inner, y, &mut rest) {
                return None;
            }
            proof {
                let more = figure_list_marks(*state, inner, i + 1, y + 4);
                let mine = figure_row_marks(state.figures@[i as int], state.selected as int == i, inner, y as int);
                assert(before + (mine + more) =~= marks(rest@) + more);
            }
            y = y + 4;
            i += 1;
        }
        assert(marks(rest@) =~= figure_list_marks(*state, inner, 0, y4));
        assert(figure_list_ok(*state, inner, i as int, y as int));
        let hint = "Up/Down navigate | Enter detail | Esc back";
        let hl: u16 = byte_length(hint) as u16;
        proof {
            reveal_strlit("Up/Down navigate | Enter detail | Esc back");
            crate::draw::lemma_ascii_byte_len(hint@);
        }
        let hx = x + (if inner.width > hl + 4 { inner.width - (hl + 4) } else { 0 }) / 2;
        push_text_in(&mut rest, hx, bottom - 1, hint, Style::italic(Color::DarkGray), Ghost(0), Ghost(l), Ghost(t), Ghost(b));
    }
    let ghost (f0, h0, r0) = (ops@, head@, rest@);
    ops.append(&mut head);
    ops.append(&mut rest);
    proof {
        assert(ops@ =~= f0 + h0 + r0);
        crate::draw::lemma_marks_append(f0, h0);
        crate::draw::lemma_marks_append(f0 + h0, r0);
        let hb = utf8(figures_header(*state));
        assert(cut_bytes(hb, tw - 4) == cut_bytes(hb, inner.width - 4));
        assert(marks(ops@) =~= figures_marks(area, *state));
        assert(drawn_within(f0, 1, l, t, b));
        crate::draw::lemma_drawn_within_append(f0, h0, 1, l, t, b, t, b);
        crate::draw::lemma_drawn_within_append(f0 + h0, r0, 1, l, t, b, t, b);
        assert(ops@[1] == h0[0]);
        assert(ops@[2] == h0[1]);
        if r0.len() > 0 {
            assert(ops@.last() == r0.last());
        }
    }
    Some(ops)
}

} // verus!
