use vstd::prelude::*;

use crate::json::{
    as_array, as_object, as_str, as_u64, bool_member_of, bool_member_or, lookup, member, str_member,
    str_member_of, string_list_member, string_list_of, u64_member_of, u64_member_or, views,
    JsonNumber, JsonValue,
};
use crate::order::{stable_sort, stably_sorted, Ranked};
use crate::text::owned;

verus! {

/// A script that a pipeline stage runs, and how its last run went.
pub struct ScriptInfo {
    pub file: String,
    pub function: String,
    pub params: Vec<String>,
    pub last_run: String,
    pub duration_ms: u64,
    pub success: bool,
    pub output_size: u64,
}

/// The metrics of a pipeline stage, as label and value texts.
pub struct StageMetrics {
    pub entries: Vec<(String, String)>,
}

/// A stage of the research pipeline.
pub struct StageInfo {
    pub id: String,
    pub label: String,
    pub description: String,
    pub processes: Vec<String>,
    pub scripts: Vec<ScriptInfo>,
    pub outputs: Vec<String>,
    pub metrics: StageMetrics,
}

/// Where a paper stands in one pipeline stage.
pub struct PaperStageStatus {
    pub status: String,
    pub artifacts: Vec<String>,
}

/// A paper that goes through the pipeline.
pub struct ActivePaper {
    pub name: String,
    pub source: String,
    pub code: String,
    pub stage: String,
    pub stage_progress: JsonNumber,
    pub priority: JsonNumber,
    pub problems: Vec<String>,
    pub last_activity: String,
    /// The paper's stages, in pipeline order.
    pub stages: Vec<(String, PaperStageStatus)>,
}

/// A tool of the pipeline and its status.
pub struct ComponentInfo {
    pub name: String,
    pub status: String,
}

/// Everything the pipeline status file says.
pub struct PipelineData {
    pub engine_version: String,
    pub stages: Vec<StageInfo>,
    pub papers: Vec<ActivePaper>,
    pub components: Vec<ComponentInfo>,
    /// How many papers address each problem, most-addressed first.
    pub problem_coverage: Vec<(String, u64)>,
}

/// The text of a metric value: a string as it is, a number as its decimal
/// float text, a boolean as `Yes` or `No`, anything else as its compact JSON.
pub open spec fn metric_text(v: JsonValue) -> Seq<char> {
    match v {
        JsonValue::Str(s) => s@,
        JsonValue::Number(n) => n.float_text@,
        JsonValue::Bool(b) => if b { "Yes"@ } else { "No"@ },
        JsonValue::Null => "null"@,
        JsonValue::Array { text, .. } => text@,
        JsonValue::Object { text, .. } => text@,
    }
}

/// A flag shows as `Yes` when it is true and as `No` when it is false, and
/// never the other way round.
pub proof fn lemma_flag_metric_text(b: bool)
    ensures
        metric_text(JsonValue::Bool(b)) == "Yes"@ <==> b,
        metric_text(JsonValue::Bool(b)) == "No"@ <==> !b,
{
    reveal_strlit("Yes");
    reveal_strlit("No");
    assert("Yes"@.len() != "No"@.len());
}

/// Whether `s` is the script that the record `v` describes; missing fields
/// read as empty, zero or false.
pub open spec fn script_from(v: JsonValue, s: ScriptInfo) -> bool {
    &&& s.file@ == str_member(v, "file"@)
    &&& s.function@ == str_member(v, "function"@)
    &&& views(s.params@) == string_list_member(v, "params"@)
    &&& s.last_run@ == str_member(v, "last_run"@)
    &&& s.duration_ms == u64_member_or(v, "duration_ms"@, 0)
    &&& s.success == bool_member_or(v, "success"@, false)
    &&& s.output_size == u64_member_or(v, "output_size"@, 0)
}

/// Whether `m` holds the metrics of the stage record `v`, in the record's order.
pub open spec fn metrics_from(v: JsonValue, m: StageMetrics) -> bool {
    match as_object(member(v, "metrics"@)) {
        Some(entries) => {
            &&& m.entries@.len() == entries.len()
            &&& forall|i: int| 0 <= i < entries.len() ==> (#[trigger] m.entries@[i]).0@ == entries[i].0@
                && m.entries@[i].1@ == metric_text(entries[i].1)
        },
        None => m.entries@.len() == 0,
    }
}

/// Whether `st` is the stage that the record `v` describes.
pub open spec fn stage_from(v: JsonValue, st: StageInfo) -> bool {
    &&& st.id@ == str_member(v, "id"@)
    &&& st.label@ == str_member(v, "label"@)
    &&& st.description@ == str_member(v, "description"@)
    &&& views(st.processes@) == string_list_member(v, "processes"@)
    &&& views(st.outputs@) == string_list_member(v, "outputs"@)
    &&& match as_array(member(v, "scripts"@)) {
        Some(items) => st.scripts@.len() == items.len()
            && forall|i: int| 0 <= i < items.len() ==> script_from(items[i], #[trigger] st.scripts@[i]),
        None => st.scripts@.len() == 0,
    }
    &&& metrics_from(v, st.metrics)
}

/// The text of a metric value.
pub fn metric_text_of(v: &JsonValue) -> (r: String)
    ensures
        r@ == metric_text(*v),
        *v matches JsonValue::Bool(b) ==> (r@ == "Yes"@ <==> b) && (r@ == "No"@ <==> !b),
{
    proof {
        if let JsonValue::Bool(b) = *v {
            lemma_flag_metric_text(b);
        }
    }
    match v {
        JsonValue::Str(s) => owned(s.as_str()),
        JsonValue::Number(n) => owned(n.float_text.as_str()),
        JsonValue::Bool(b) => if *b { owned("Yes") } else { owned("No") },
        JsonValue::Null => owned("null"),
        JsonValue::Array { text, .. } => owned(text.as_str()),
        JsonValue::Object { text, .. } => owned(text.as_str()),
    }
}

/// Reads a script record.
pub fn parse_script(v: &JsonValue) -> (r: ScriptInfo)
    ensures
        script_from(*v, r),
{
    ScriptInfo {
        file: str_member_of(v, "file"),
        function: str_member_of(v, "function"),
        params: string_list_of(v, "params"),
        last_run: str_member_of(v, "last_run"),
        duration_ms: u64_member_of(v, "duration_ms", 0),
        success: bool_member_of(v, "success", false),
        output_size: u64_member_of(v, "output_size", 0),
    }
}

/// Reads the metrics of a stage record.
pub fn parse_metrics(v: &JsonValue) -> (r: StageMetrics)
    ensures
        metrics_from(*v, r),
{
    let mut out: Vec<(String, String)> = Vec::new();
    match v.get("metrics") {
        Some(JsonValue::Object { entries, .. }) => {
            let mut i: usize = 0;
            while i < entries.len()
                invariant
                    i <= entries@.len(),
                    out@.len() == i,
                    forall|j: int| 0 <= j < i ==> (#[trigger] out@[j]).0@ == entries@[j].0@
                        && out@[j].1@ == metric_text(entries@[j].1),
                decreases entries@.len() - i,
            {
                out.push((owned(entries[i].0.as_str()), metric_text_of(&entries[i].1)));
                i += 1;
            }
        },
        _ => {},
    }
    StageMetrics { entries: out }
}

/// Reads a stage record.
pub fn parse_stage(v: &JsonValue) -> (r: StageInfo)
    ensures
        stage_from(*v, r),
{
    let mut scripts: Vec<ScriptInfo> = Vec::new();
    match v.get("scripts") {
        Some(JsonValue::Array { items, .. }) => {
            let mut i: usize = 0;
            while i < items.len()
                invariant
                    i <= items@.len(),
                    scripts@.len() == i,
                    forall|j: int| 0 <= j < i ==> script_from(items@[j], #[trigger] scripts@[j]),
                decreases items@.len() - i,
            {
                scripts.push(parse_script(&items[i]));
                i += 1;
            }
        },
        _ => {},
    }
    StageInfo {
        id: str_member_of(v, "id"),
        label: str_member_of(v, "label"),
        description: str_member_of(v, "description"),
        processes: string_list_of(v, "processes"),
        scripts,
        outputs: string_list_of(v, "outputs"),
        metrics: parse_metrics(v),
    }
}


/// The pipeline's stage ids, in order.
pub open spec fn stage_order() -> Seq<Seq<char>> {
    seq!["SCOUT"@, "EVALUATE"@, "READ"@, "PROTOTYPE"@, "INTEGRATE"@, "DOCUMENT"@, "VERIFY"@, "YBR_DOCS"@]
}

/// The records of a paper's stages map `m` that name one of the first `k`
/// pipeline stages, in pipeline order, with their ids.
pub open spec fn ordered_stages(m: Seq<(String, JsonValue)>, k: int) -> Seq<(Seq<char>, JsonValue)>
    decreases k,
{
    if k <= 0 {
        Seq::empty()
    } else {
        let rest = ordered_stages(m, k - 1);
        match lookup(m, stage_order()[k - 1]) {
            Some(v) => rest.push((stage_order()[k - 1], v)),
            None => rest,
        }
    }
}

/// Whether `ps` is the stage status that the record `v` describes.
pub open spec fn stage_status_from(v: JsonValue, ps: PaperStageStatus) -> bool {
    &&& ps.status@ == str_member(v, "status"@)
    &&& views(ps.artifacts@) == string_list_member(v, "artifacts"@)
}

/// The float member `key` of `v`: its number, or zero when it is no number.
pub open spec fn number_member_is(v: JsonValue, key: Seq<char>, n: JsonNumber) -> bool {
    match member(v, key) {
        Some(JsonValue::Number(x)) => n.as_u64 == x.as_u64 && n.float_text@ == x.float_text@
            && n.whole_text@ == x.whole_text@,
        _ => n.as_u64 == Some(0u64) && n.float_text@ == "0"@ && n.whole_text@ == "0"@,
    }
}

/// Whether `p` is the paper that the record `v` describes: its stages are
/// those of the pipeline, in pipeline order, that its stage map names.
pub open spec fn paper_from(v: JsonValue, p: ActivePaper) -> bool {
    &&& p.name@ == str_member(v, "name"@)
    &&& p.source@ == str_member(v, "source"@)
    &&& p.code@ == str_member(v, "code"@)
    &&& p.stage@ == str_member(v, "stage"@)
    &&& number_member_is(v, "stage_progress"@, p.stage_progress)
    &&& number_member_is(v, "priority"@, p.priority)
    &&& views(p.problems@) == string_list_member(v, "problems"@)
    &&& p.last_activity@ == str_member(v, "last_activity"@)
    &&& match as_object(member(v, "stages"@)) {
        Some(m) => {
            let st = ordered_stages(m, 8);
            &&& p.stages@.len() == st.len()
            &&& forall|j: int| 0 <= j < st.len() ==> (#[trigger] p.stages@[j]).0@ == st[j].0
                && stage_status_from(st[j].1, p.stages@[j].1)
        },
        None => p.stages@.len() == 0,
    }
}

fn number_member_of(v: &JsonValue, key: &str) -> (r: JsonNumber)
    ensures
        number_member_is(*v, key@, r),
{
    match v.get(key) {
        Some(JsonValue::Number(x)) => x.copy(),
        _ => JsonNumber::zero(),
    }
}

fn stage_order_ids() -> (r: Vec<&'static str>)
    ensures
        r@.len() == 8,
        forall|i: int| 0 <= i < 8 ==> (#[trigger] r@[i])@ == stage_order()[i],
{
    let mut v: Vec<&'static str> = Vec::new();
    v.push("SCOUT");
    v.push("EVALUATE");
    v.push("READ");
    v.push("PROTOTYPE");
    v.push("INTEGRATE");
    v.push("DOCUMENT");
    v.push("VERIFY");
    v.push("YBR_DOCS");
    v
}

/// Reads a paper's stage status record.
pub fn parse_stage_status(v: &JsonValue) -> (r: PaperStageStatus)
    ensures
        stage_status_from(*v, r),
{
    PaperStageStatus { status: str_member_of(v, "status"), artifacts: string_list_of(v, "artifacts") }
}

/// Reads a paper record.
pub fn parse_paper(v: &JsonValue) -> (r: ActivePaper)
    ensures
        paper_from(*v, r),
{
    let mut stages: Vec<(String, PaperStageStatus)> = Vec::new();
    match v.get("stages") {
        Some(sv) => match sv {
            JsonValue::Object { entries, .. } => {
                let order = stage_order_ids();
                let mut k: usize = 0;
                while k < order.len()
                    invariant
                        order@.len() == 8,
                        forall|i: int| 0 <= i < 8 ==> (#[trigger] order@[i])@ == stage_order()[i],
                        k <= 8,
                        stages@.len() == ordered_stages(entries@, k as int).len(),
                        forall|j: int| 0 <= j < stages@.len() ==> (#[trigger] stages@[j]).0@ == ordered_stages(entries@, k as int)[j].0
                            && stage_status_from(ordered_stages(entries@, k as int)[j].1, stages@[j].1),
                        forall|key: Seq<char>| #[trigger] member(*sv, key) == lookup(entries@, key),
                    decreases 8 - k,
                {
                    let id = order[k];
                    assert(id@ == stage_order()[k as int]);
                    assert(member(*sv, id@) == lookup(entries@, id@));
                    match sv.get(id) {
                        Some(st) => {
                            stages.push((owned(id), parse_stage_status(st)));
                        },
                        None => {},
                    }
                    k += 1;
                }
            },
            _ => {},
        },
        None => {},
    }
    ActivePaper {
        name: str_member_of(v, "name"),
        source: str_member_of(v, "source"),
        code: str_member_of(v, "code"),
        stage: str_member_of(v, "stage"),
        stage_progress: number_member_of(v, "stage_progress"),
        priority: number_member_of(v, "priority"),
        problems: string_list_of(v, "problems"),
        last_activity: str_member_of(v, "last_activity"),
        stages,
    }
}


/// Problem coverage counts sort with the largest count first.
impl Ranked for (String, u64) {
    open spec fn outranks(&self, other: &Self) -> bool {
        self.1 > other.1
    }

    proof fn lemma_irreflexive(a: &Self) {
    }

    proof fn lemma_transitive(a: &Self, b: &Self, c: &Self) {
    }

    proof fn lemma_negative_transitive(a: &Self, b: &Self, c: &Self) {
    }

    fn ranks_before(&self, other: &Self) -> (r: bool) {
        self.1 > other.1
    }
}

/// Whether `c` holds the component records of the map `m`, in its order.
pub open spec fn components_from(m: Seq<(String, JsonValue)>, c: Seq<ComponentInfo>) -> bool {
    &&& c.len() == m.len()
    &&& forall|i: int| 0 <= i < m.len() ==> (#[trigger] c[i]).name@ == m[i].0@
        && c[i].status@ == str_member(m[i].1, "status"@)
}

/// Whether `c` holds the problem counts of the map `m`, in its order (a value
/// that is no unsigned integer counts zero).
pub open spec fn counts_from(m: Seq<(String, JsonValue)>, c: Seq<(String, u64)>) -> bool {
    &&& c.len() == m.len()
    &&& forall|i: int| 0 <= i < m.len() ==> (#[trigger] c[i]).0@ == m[i].0@
        && c[i].1 == match as_u64(Some(m[i].1)) {
            Some(n) => n,
            None => 0,
        }
}

/// Whether `c` is the problem coverage of the map `m`: its counts, sorted
/// stably by count, largest first.
pub open spec fn coverage_of(m: Seq<(String, JsonValue)>, c: Seq<(String, u64)>) -> bool {
    exists|listed: Seq<(String, u64)>| counts_from(m, listed) && #[trigger] stably_sorted(listed, c)
}

/// Whether `d` is what the pipeline status document `v` says: its engine
/// version, its stages, its papers, its tools, and its problem coverage
/// sorted stably by count, largest first.
pub open spec fn data_from(v: JsonValue, d: PipelineData) -> bool {
    &&& d.engine_version@ == str_member(v, "engine_version"@)
    &&& match as_array(member(v, "pipeline_stages"@)) {
        Some(items) => d.stages@.len() == items.len()
            && forall|i: int| 0 <= i < items.len() ==> stage_from(items[i], #[trigger] d.stages@[i]),
        None => d.stages@.len() == 0,
    }
    &&& match as_object(member(v, "components"@)) {
        Some(m) => components_from(m, d.components@),
        None => d.components@.len() == 0,
    }
    &&& match as_object(member(v, "problem_coverage"@)) {
        Some(m) => coverage_of(m, d.problem_coverage@),
        None => d.problem_coverage@.len() == 0,
    }
    &&& match as_array(member(v, "active_papers"@)) {
        Some(items) => d.papers@.len() == items.len()
            && forall|i: int| 0 <= i < items.len() ==> paper_from(items[i], #[trigger] d.papers@[i]),
        None => d.papers@.len() == 0,
    }
}

/// Data that says nothing.
pub open spec fn is_empty_data(d: PipelineData) -> bool {
    &&& d.engine_version@.len() == 0
    &&& d.stages@.len() == 0
    &&& d.papers@.len() == 0
    &&& d.components@.len() == 0
    &&& d.problem_coverage@.len() == 0
}

impl PipelineData {
    /// Data that says nothing.
    pub fn empty() -> (r: Self)
        ensures
            is_empty_data(r),
    {
        PipelineData {
            engine_version: String::new(),
            stages: Vec::new(),
            papers: Vec::new(),
            components: Vec::new(),
            problem_coverage: Vec::new(),
        }
    }
}

fn parse_components(m: &Vec<(String, JsonValue)>) -> (r: Vec<ComponentInfo>)
    ensures
        components_from(m@, r@),
{
    let mut out: Vec<ComponentInfo> = Vec::new();
    let mut i: usize = 0;
    while i < m.len()
        invariant
            i <= m@.len(),
            out@.len() == i,
            forall|j: int| 0 <= j < i ==> (#[trigger] out@[j]).name@ == m@[j].0@
                && out@[j].status@ == str_member(m@[j].1, "status"@),
        decreases m@.len() - i,
    {
        out.push(ComponentInfo { name: owned(m[i].0.as_str()), status: str_member_of(&m[i].1, "status") });
        i += 1;
    }
    out
}

fn parse_coverage(m: &Vec<(String, JsonValue)>) -> (r: Vec<(String, u64)>)
    ensures
        coverage_of(m@, r@),
{
    let mut out: Vec<(String, u64)> = Vec::new();
    let mut i: usize = 0;
    while i < m.len()
        invariant
            i <= m@.len(),
            out@.len() == i,
            forall|j: int| 0 <= j < i ==> (#[trigger] out@[j]).0@ == m@[j].0@
                && out@[j].1 == match as_u64(Some(m@[j].1)) {
                    Some(n) => n,
                    None => 0,
                },
        decreases m@.len() - i,
    {
        let n: u64 = match &m[i].1 {
            JsonValue::Number(x) => match x.as_u64 {
                Some(n) => n,
                None => 0,
            },
            _ => 0,
        };
        out.push((owned(m[i].0.as_str()), n));
        i += 1;
    }
    let ghost listed = out@;
    let r = stable_sort(out);
    assert(counts_from(m@, listed) && stably_sorted(listed, r@));
    r
}

/// Reads the pipeline status document.
pub fn parse_data(v: &JsonValue) -> (r: PipelineData)
    ensures
        data_from(*v, r),
{
    let mut stages: Vec<StageInfo> = Vec::new();
    match v.get("pipeline_stages") {
        Some(JsonValue::Array { items, .. }) => {
            let mut i: usize = 0;
            while i < items.len()
                invariant
                    i <= items@.len(),
                    stages@.len() == i,
                    forall|j: int| 0 <= j < i ==> stage_from(items@[j], #[trigger] stages@[j]),
                decreases items@.len() - i,
            {
                stages.push(parse_stage(&items[i]));
                i += 1;
            }
        },
        _ => {},
    }
    let components = match v.get("components") {
        Some(JsonValue::Object { entries, .. }) => parse_components(entries),
        _ => Vec::new(),
    };
    let problem_coverage = match v.get("problem_coverage") {
        Some(JsonValue::Object { entries, .. }) => parse_coverage(entries),
        _ => Vec::new(),
    };
    let mut papers: Vec<ActivePaper> = Vec::new();
    match v.get("active_papers") {
        Some(JsonValue::Array { items, .. }) => {
            let mut i: usize = 0;
            while i < items.len()
                invariant
                    i <= items@.len(),
                    papers@.len() == i,
                    forall|j: int| 0 <= j < i ==> paper_from(items@[j], #[trigger] papers@[j]),
                decreases items@.len() - i,
            {
                papers.push(parse_paper(&items[i]));
                i += 1;
            }
        },
        _ => {},
    }
    PipelineData { engine_version: str_member_of(v, "engine_version"), stages, papers, components, problem_coverage }
}


/// Every how many ticks the status file is read again.
pub const RELOAD_INTERVAL: u64 = 10;

/// What reading the pipeline status file found.
pub enum LoadOutcome {
    /// There is no status file.
    Missing,
    /// The file exists but could not be read or parsed.
    Unreadable,
    /// The parsed document.
    Parsed(JsonValue),
}

/// The research pipeline screen: the status of the pipeline, and the stage
/// and item selected in its detail view.
pub struct PaperPipelinePlane {
    pub data: PipelineData,
    pub tick_count: u64,
    pub loaded: bool,
    pub selected_stage: usize,
    pub selected_item: usize,
    pub show_item_detail: bool,
}

/// The stage selected after an arrow key among `n` stages: the next one to
/// the right or the left, wrapping around at either end.
pub open spec fn stage_after_arrow(selected: usize, n: usize, right: bool) -> usize {
    if right {
        ((selected + 1) % (n as int)) as usize
    } else if selected == 0 {
        (n - 1) as usize
    } else {
        (selected - 1) as usize
    }
}

/// The number of selectable items (processes, then scripts) of a stage.
pub open spec fn item_count(st: StageInfo) -> int {
    (st.processes@.len() + st.scripts@.len()) as int
}

/// `x` clamped into `lo..=hi`.
pub open spec fn clamped(x: int, lo: int, hi: int) -> int {
    if x < lo {
        lo
    } else if x > hi {
        hi
    } else {
        x
    }
}

/// `q` is `p` after an arrow key to the right or the left, and `taken` says
/// whether the screen took the key: with stages, the next stage in that
/// direction is selected (wrapping around) from its first item, in the list
/// view; without stages nothing happens.
pub open spec fn arrowed(p: PaperPipelinePlane, q: PaperPipelinePlane, right: bool, taken: bool) -> bool {
    &&& taken == (p.data.stages@.len() > 0)
    &&& taken ==> q == (PaperPipelinePlane {
        selected_stage: stage_after_arrow(p.selected_stage, p.data.stages@.len() as usize, right),
        selected_item: 0,
        show_item_detail: false,
        ..p
    })
    &&& !taken ==> q == p
}

/// `q` is `p` after moving the item selection by `delta`: the detail closes,
/// and the selection of a selected stage with items moves, kept between the
/// first item and one past the last (computed in `i32`, as `as i32` casts
/// the selection and the item count).
pub open spec fn scrolled(p: PaperPipelinePlane, q: PaperPipelinePlane, delta: int) -> bool {
    if p.selected_stage < p.data.stages@.len() && item_count(p.data.stages@[p.selected_stage as int]) > 0 {
        q == (PaperPipelinePlane {
            selected_item: clamped((p.selected_item as i32) + delta, 0,
                ((item_count(p.data.stages@[p.selected_stage as int]) as usize) as i32) as int) as usize,
            show_item_detail: false,
            ..p
        })
    } else {
        q == (PaperPipelinePlane { show_item_detail: false, ..p })
    }
}

impl PaperPipelinePlane {
    /// Takes in what reading the status file found: without a file the
    /// screen has no data to show; a file that could not be read or parsed
    /// leaves everything as it was; a parsed file replaces the data.
    pub fn load_data(&mut self, outcome: LoadOutcome)
        ensures
            match outcome {
                LoadOutcome::Missing => *final(self) == (PaperPipelinePlane { loaded: false, ..*old(self) }),
                LoadOutcome::Unreadable => *final(self) == *old(self),
                LoadOutcome::Parsed(v) => {
                    &&& final(self).loaded
                    &&& data_from(v, final(self).data)
                    &&& final(self).tick_count == old(self).tick_count
                    &&& final(self).selected_stage == old(self).selected_stage
                    &&& final(self).selected_item == old(self).selected_item
                    &&& final(self).show_item_detail == old(self).show_item_detail
                },
            },
    {
        match outcome {
            LoadOutcome::Missing => {
                self.loaded = false;
            },
            LoadOutcome::Unreadable => {},
            LoadOutcome::Parsed(v) => {
                self.loaded = true;
                self.data = parse_data(&v);
            },
        }
    }

    /// The screen after a first read of the status file, nothing selected.
    pub fn new(outcome: LoadOutcome) -> (r: Self)
        ensures
            r.tick_count == 0,
            r.selected_stage == 0,
            r.selected_item == 0,
            !r.show_item_detail,
            match outcome {
                LoadOutcome::Parsed(v) => r.loaded && data_from(v, r.data),
                _ => !r.loaded && is_empty_data(r.data),
            },
    {
        let mut plane = PaperPipelinePlane {
            data: PipelineData::empty(),
            tick_count: 0,
            loaded: false,
            selected_stage: 0,
            selected_item: 0,
            show_item_detail: false,
        };
        plane.load_data(outcome);
        plane
    }

    /// Counts one tick; says whether it is time to read the status file
    /// again (every tenth tick), which the caller then does with `load_data`.
    pub fn update(&mut self) -> (reload: bool)
        requires
            old(self).tick_count < u64::MAX,
        ensures
            *final(self) == (PaperPipelinePlane { tick_count: (old(self).tick_count + 1) as u64, ..*old(self) }),
            reload == (final(self).tick_count % RELOAD_INTERVAL == 0),
    {
        self.tick_count += 1;
        self.tick_count % RELOAD_INTERVAL == 0
    }

    /// Selects the next stage to the right or the left, wrapping around, and
    /// goes back to its first item in the list view. Without stages nothing
    /// happens and the key is not taken.
    pub fn handle_arrow(&mut self, right: bool) -> (taken: bool)
        ensures
            arrowed(*old(self), *final(self), right, taken),
    {
        let n = self.data.stages.len();
        if n == 0 {
            return false;
        }
        if right {
            let ghost s = self.selected_stage as int;
            self.selected_stage = (self.selected_stage % n + 1) % n;
            proof {
                vstd::arithmetic::div_mod::lemma_add_mod_noop(s, 1, n as int);
                if n > 1 {
                    vstd::arithmetic::div_mod::lemma_small_mod(1, n as nat);
                } else {
                    assert(s % 1 == 0 && 2int % 1 == 0 && 1int % 1 == 0) by (nonlinear_arith);
                    assert((s + 1) % 1 == 0) by (nonlinear_arith);
                }
            }
        } else {
            self.selected_stage = if self.selected_stage == 0 { n - 1 } else { self.selected_stage - 1 };
        }
        self.selected_item = 0;
        self.show_item_detail = false;
        true
    }

    /// Shows or hides the detail of the selected item.
    pub fn handle_enter(&mut self) -> (taken: bool)
        ensures
            taken,
            *final(self) == (PaperPipelinePlane { show_item_detail: !old(self).show_item_detail, ..*old(self) }),
    {
        self.show_item_detail = !self.show_item_detail;
        true
    }

    /// Moves the item selection of the selected stage by `delta`, kept
    /// between the first item and one past the last, and closes the detail.
    pub fn scroll_by(&mut self, delta: i32)
        requires
            old(self).selected_stage < old(self).data.stages@.len() ==> {
                let m = item_count(old(self).data.stages@[old(self).selected_stage as int]);
                m > 0 ==> m <= usize::MAX && (m as usize) as i32 >= 0
                    && i32::MIN <= (old(self).selected_item as i32) + delta <= i32::MAX
            },
        ensures
            scrolled(*old(self), *final(self), delta as int),
    {
        self.show_item_detail = false;
        if self.selected_stage < self.data.stages.len() {
            let stage = &self.data.stages[self.selected_stage];
            let p = stage.processes.len();
            let q = stage.scripts.len();
            if p == 0 && q == 0 {
                return;
            }
            let max_items = (p + q) as i32;
            assert(max_items == ((p + q) as usize) as i32);
            let new_val: i32 = self.selected_item as i32 + delta;
            let clamped_val: i32 = if new_val < 0 { 0 } else if new_val > max_items { max_items } else { new_val };
            self.selected_item = clamped_val as usize;
        }
    }
}

/// Arrow keys cycle through the stages: moving right and then left (or left
/// and then right) selects the stage selected before.
pub proof fn lemma_arrows_undo(selected: usize, n: usize)
    requires
        selected < n,
    ensures
        stage_after_arrow(stage_after_arrow(selected, n, true), n, false) == selected,
        stage_after_arrow(stage_after_arrow(selected, n, false), n, true) == selected,
        stage_after_arrow(selected, n, true) < n,
        stage_after_arrow(selected, n, false) < n,
{
    if selected + 1 < n {
        vstd::arithmetic::div_mod::lemma_small_mod((selected + 1) as nat, n as nat);
    } else {
        vstd::arithmetic::div_mod::lemma_mod_self_0(n as int);
    }
    if selected > 0 {
        vstd::arithmetic::div_mod::lemma_small_mod(selected as nat, n as nat);
    } else {
        vstd::arithmetic::div_mod::lemma_mod_self_0(n as int);
    }
    let r = stage_after_arrow(selected, n, true);
    if r + 1 < n {
        vstd::arithmetic::div_mod::lemma_small_mod((r + 1) as nat, n as nat);
    } else {
        vstd::arithmetic::div_mod::lemma_mod_self_0(n as int);
    }
}

/// Scrolling keeps the item selection between the first item and one past the last.
pub proof fn lemma_scroll_in_range(selected: int, delta: int, m: int)
    requires
        m >= 0,
    ensures
        0 <= clamped(selected + delta, 0, m) <= m,
{
}

} // verus!
