use vstd::prelude::*;


use crate::json::{
    as_array, as_str, as_u64, member, str_member, str_member_of, string_items,
    string_list_member, string_list_of, views, JsonValue,
};
use crate::order::{ranked_in_order, stable_sort, stably_sorted, tied_with, Ranked};
use crate::paths::{join, joined};
use crate::text::{
    bytes_lt, lemma_bytes_lt_irreflexive, lemma_bytes_lt_total, lemma_bytes_lt_transitive,
    str_less, utf8, alphanumeric, chars_of, is_alphanumeric, lowercase, owned, push_char, to_lowercase,
};

verus! {

/// Which screen the app is currently showing.
#[derive(Debug, Clone, Copy, PartialEq, Eq, Structural)]
pub enum Screen {
    ProjectSelect,
    InputFiles,
    PipelineExecution,
    Output,
}

/// Whether a slot expects a directory or individual files.
#[derive(Debug, Clone, Copy, PartialEq, Eq, Structural)]
pub enum SlotKind {
    Directory,
    Files,
}

/// A single input file slot.
#[derive(Debug, Clone)]
pub struct InputSlot {
    pub label: &'static str,
    pub description: &'static str,
    pub kind: SlotKind,
    /// The chosen directory, for a directory slot.
    pub path: Option<String>,
    /// The chosen files, for a files slot.
    pub files: Vec<String>,
    pub required: bool,
}

impl Default for InputSlot {
    fn default() -> (r: Self)
        ensures
            r.label@ == ""@,
            r.description@ == ""@,
            r.kind == SlotKind::Files,
            r.path.is_none(),
            r.files@.len() == 0,
            !r.required,
    {
        InputSlot {
            label: "",
            description: "",
            kind: SlotKind::Files,
            path: None,
            files: Vec::new(),
            required: false,
        }
    }
}

/// All the state for a project being configured or run.
#[derive(Debug, Clone)]
pub struct ProjectConfig {
    pub name: String,
    pub venue: String,
    pub slots: Vec<InputSlot>,
    pub project_dir: String,
    pub output_dir: String,
}

/// Whether `slot` is an empty slot with the given fixed description.
pub open spec fn fresh_slot(
    slot: InputSlot,
    label: Seq<char>,
    description: Seq<char>,
    kind: SlotKind,
    required: bool,
) -> bool {
    &&& slot.label@ == label
    &&& slot.description@ == description
    &&& slot.kind == kind
    &&& slot.path.is_none()
    &&& slot.files@.len() == 0
    &&& slot.required == required
}

/// The configuration of a new project: no name, no venue, no paths, and the
/// four empty input slots (the first two required).
pub open spec fn is_fresh_config(c: ProjectConfig) -> bool {
    &&& c.name@.len() == 0
    &&& c.venue@.len() == 0
    &&& c.project_dir@.len() == 0
    &&& c.output_dir@.len() == 0
    &&& c.slots@.len() == 4
    &&& fresh_slot(c.slots@[0], "Context / Data"@,
        "Directory containing CSV, JSON, images, experiment logs"@, SlotKind::Directory, true)
    &&& fresh_slot(c.slots@[1], "Direction / Novelty"@,
        "Markdown or text describing the contribution and novelty angle"@, SlotKind::Files, true)
    &&& fresh_slot(c.slots@[2], "Target Paper / Template"@,
        "LaTeX template or reference paper to match format/structure"@, SlotKind::Files, false)
    &&& fresh_slot(c.slots@[3], "Persona"@,
        "TOML or text setting writing style, tone, and voice"@, SlotKind::Files, false)
}

impl Default for ProjectConfig {
    fn default() -> (r: Self)
        ensures
            is_fresh_config(r),
    {
        let mut slots: Vec<InputSlot> = Vec::new();
        slots.push(InputSlot {
            label: "Context / Data",
            description: "Directory containing CSV, JSON, images, experiment logs",
            kind: SlotKind::Directory,
            path: None,
            files: Vec::new(),
            required: true,
        });
        slots.push(InputSlot {
            label: "Direction / Novelty",
            description: "Markdown or text describing the contribution and novelty angle",
            kind: SlotKind::Files,
            path: None,
            files: Vec::new(),
            required: true,
        });
        slots.push(InputSlot {
            label: "Target Paper / Template",
            description: "LaTeX template or reference paper to match format/structure",
            kind: SlotKind::Files,
            path: None,
            files: Vec::new(),
            required: false,
        });
        slots.push(InputSlot {
            label: "Persona",
            description: "TOML or text setting writing style, tone, and voice",
            kind: SlotKind::Files,
            path: None,
            files: Vec::new(),
            required: false,
        });
        ProjectConfig {
            name: String::new(),
            venue: String::new(),
            slots,
            project_dir: String::new(),
            output_dir: String::new(),
        }
    }
}

/// The directory name derived from a project name: its lowercase form with
/// every character that is not alphanumeric replaced by `-`.
pub open spec fn slug(name: Seq<char>) -> Seq<char> {
    lowercase(name).map_values(|c: char| if alphanumeric(c) { c } else { '-' })
}

/// Whether `s` has no `/`, `\` or `.`: as a directory name it stays
/// directly under the directory it is joined to.
pub open spec fn plain_name(s: Seq<char>) -> bool {
    forall|i: int| 0 <= i < s.len() ==> #[trigger] s[i] != '/' && s[i] != '\\' && s[i] != '.'
}

/// The directory of a project named `name` under `papers_dir`.
pub open spec fn project_dir_for(papers_dir: Seq<char>, name: Seq<char>) -> Seq<char> {
    joined(papers_dir, slug(name))
}

/// Computes the directory name for a project name.
pub fn make_slug(name: &str) -> (r: String)
    ensures
        r@ == slug(name@),
        plain_name(r@),
{
    let lower = to_lowercase(name);
    let cs = chars_of(lower.as_str());
    let mut out = String::new();
    let mut i: usize = 0;
    while i < cs.len()
        invariant
            cs@ == lowercase(name@),
            i <= cs@.len(),
            out@ == slug(name@).subrange(0, i as int),
            plain_name(out@),
        decreases cs@.len() - i,
    {
        let c = cs[i];
        if is_alphanumeric(c) {
            assert(c != '/' && c != '\\' && c != '.');
            push_char(&mut out, c);
        } else {
            push_char(&mut out, '-');
        }
        assert(out@ =~= slug(name@).subrange(0, i + 1));
        i += 1;
    }
    assert(out@ =~= slug(name@));
    out
}

impl ProjectConfig {
    /// Sets the project name and derives the project directory (under
    /// `papers_dir`) and its `output` subdirectory from it.
    pub fn set_name(&mut self, name: &str, papers_dir: &str)
        ensures
            final(self).name@ == name@,
            final(self).project_dir@ == project_dir_for(papers_dir@, name@),
            plain_name(slug(name@)),
            final(self).output_dir@ == joined(project_dir_for(papers_dir@, name@), "output"@),
            final(self).venue == old(self).venue,
            final(self).slots == old(self).slots,
    {
        self.name = owned(name);
        let slug = make_slug(name);
        self.project_dir = join(papers_dir, slug.as_str());
        self.output_dir = join(self.project_dir.as_str(), "output");
    }
}


/// The record of one input slot in a project manifest.
pub struct SlotManifest {
    pub label: String,
    /// `directory` or `files`.
    pub kind: String,
    pub path: Option<String>,
    pub files: Vec<String>,
    pub required: bool,
}

/// The project manifest (`project.json`) of a configuration.
pub struct Manifest {
    pub name: String,
    pub venue: String,
    pub project_dir: String,
    pub output_dir: String,
    pub slots: Vec<SlotManifest>,
    pub created: String,
}

/// Whether `r` records the slot `s`.
pub open spec fn slot_manifest_of(s: InputSlot, r: SlotManifest) -> bool {
    &&& r.label@ == s.label@
    &&& r.kind@ == if s.kind == SlotKind::Directory { "directory"@ } else { "files"@ }
    &&& match s.path {
        Some(p) => r.path is Some && r.path.unwrap()@ == p@,
        None => r.path is None,
    }
    &&& views(r.files@) == views(s.files@)
    &&& r.required == s.required
}

fn copy_strings(v: &Vec<String>) -> (r: Vec<String>)
    ensures
        views(r@) == views(v@),
{
    let mut out: Vec<String> = Vec::new();
    let mut i: usize = 0;
    while i < v.len()
        invariant
            i <= v@.len(),
            out@.len() == i,
            views(out@) == views(v@.take(i as int)),
        decreases v@.len() - i,
    {
        let ghost before = out@;
        out.push(owned(v[i].as_str()));
        assert forall|j: int| 0 <= j < i implies out@[j]@ == v@[j]@ by {
            assert(out@[j] == before[j]);
            assert(views(before)[j] == views(v@.take(i as int))[j]);
        }
        assert(views(out@) =~= views(v@.take(i + 1)));
        i += 1;
    }
    assert(v@.take(v@.len() as int) =~= v@);
    out
}

/// Whether the manifest `m` records the configuration `c`.
pub open spec fn manifest_records(m: Manifest, c: ProjectConfig) -> bool {
    &&& m.name@ == c.name@
    &&& m.venue@ == c.venue@
    &&& m.project_dir@ == c.project_dir@
    &&& m.output_dir@ == c.output_dir@
    &&& m.slots@.len() == c.slots@.len()
    &&& forall|i: int| 0 <= i < m.slots@.len() ==> slot_manifest_of(c.slots@[i], #[trigger] m.slots@[i])
}

impl ProjectConfig {
    /// The manifest that records this configuration, stamped `created`.
    pub fn manifest(&self, created: &str) -> (r: Manifest)
        ensures
            manifest_records(r, *self),
            r.created@ == created@,
    {
        let mut slots: Vec<SlotManifest> = Vec::new();
        let mut i: usize = 0;
        while i < self.slots.len()
            invariant
                i <= self.slots@.len(),
                slots@.len() == i,
                forall|j: int| 0 <= j < i ==> slot_manifest_of(self.slots@[j], #[trigger] slots@[j]),
            decreases self.slots@.len() - i,
        {
            let s = &self.slots[i];
            let kind = match s.kind {
                SlotKind::Directory => owned("directory"),
                SlotKind::Files => owned("files"),
            };
            let path = match &s.path {
                Some(p) => Some(owned(p.as_str())),
                None => None,
            };
            slots.push(SlotManifest {
                label: owned(s.label),
                kind,
                path,
                files: copy_strings(&s.files),
                required: s.required,
            });
            i += 1;
        }
        Manifest {
            name: owned(self.name.as_str()),
            venue: owned(self.venue.as_str()),
            project_dir: owned(self.project_dir.as_str()),
            output_dir: owned(self.output_dir.as_str()),
            slots,
            created: owned(created),
        }
    }

    /// The directories a project needs on disk, parents first: the project
    /// directory, its `context` and `output` subdirectories, and
    /// `output/figures`.
    pub fn dirs_to_create(&self) -> (r: Vec<String>)
        ensures
            r@.len() == 4,
            r@[0]@ == self.project_dir@,
            r@[1]@ == joined(self.project_dir@, "context"@),
            r@[2]@ == joined(self.project_dir@, "output"@),
            r@[3]@ == joined(joined(self.project_dir@, "output"@), "figures"@),
    {
        let mut r: Vec<String> = Vec::new();
        r.push(owned(self.project_dir.as_str()));
        r.push(join(self.project_dir.as_str(), "context"));
        let output = join(self.project_dir.as_str(), "output");
        let figures = join(output.as_str(), "figures");
        r.push(output);
        r.push(figures);
        r
    }
}

/// A saved project found in the papers directory.
#[derive(Debug, Clone)]
pub struct RecentProject {
    pub name: String,
    pub venue: String,
    pub path: String,
    pub stages_done: u8,
    pub stages_total: u8,
    pub status: String,
    pub last_activity: String,
}

/// Recent projects are listed with the latest activity first; the activity
/// stamps compare as strings.
impl Ranked for RecentProject {
    open spec fn outranks(&self, other: &Self) -> bool {
        bytes_lt(utf8(other.last_activity@), utf8(self.last_activity@))
    }

    proof fn lemma_irreflexive(a: &Self) {
        lemma_bytes_lt_irreflexive(utf8(a.last_activity@));
    }

    proof fn lemma_transitive(a: &Self, b: &Self, c: &Self) {
        lemma_bytes_lt_transitive(utf8(c.last_activity@), utf8(b.last_activity@), utf8(a.last_activity@));
    }

    proof fn lemma_negative_transitive(a: &Self, b: &Self, c: &Self) {
        let (x, y, z) = (utf8(a.last_activity@), utf8(b.last_activity@), utf8(c.last_activity@));
        lemma_bytes_lt_total(x, y);
        lemma_bytes_lt_total(y, z);
        if bytes_lt(z, x) {
            if bytes_lt(x, y) {
                lemma_bytes_lt_transitive(z, x, y);
            }
        }
    }

    fn ranks_before(&self, other: &Self) -> (r: bool) {
        str_less(other.last_activity.as_str(), self.last_activity.as_str())
    }
}

/// What a scan of the papers directory found for one project directory: its
/// path, its parsed `project.json` (nothing when it could not be read or
/// parsed), and its parsed `pipeline_state.json` (likewise).
pub struct ProjectEntry {
    pub path: String,
    pub manifest: Option<JsonValue>,
    pub pipeline_state: Option<JsonValue>,
}

/// The project entries that have a readable manifest.
pub open spec fn listed_entries(entries: Seq<ProjectEntry>) -> Seq<ProjectEntry> {
    entries.filter(|e: ProjectEntry| e.manifest is Some)
}

/// The stage count or status read from a pipeline state file, with a default.
pub open spec fn count_or(state: JsonValue, key: Seq<char>, default: u64) -> u8 {
    match as_u64(member(state, key)) {
        Some(n) => (n % 256) as u8,
        None => (default % 256) as u8,
    }
}

/// Whether `r` is the recent-project record of the entry `e`: name, venue and
/// activity from the manifest, progress from the pipeline state (0 of 8
/// stages and status `new` when there is none), numbers truncated to a byte.
pub open spec fn recent_of(e: ProjectEntry, r: RecentProject) -> bool {
    let m = e.manifest.unwrap();
    &&& r.name@ == str_member(m, "name"@)
    &&& r.venue@ == str_member(m, "venue"@)
    &&& r.last_activity@ == str_member(m, "created"@)
    &&& r.path@ == e.path@
    &&& match e.pipeline_state {
        None => r.stages_done == 0 && r.stages_total == 8 && r.status@ == "new"@,
        Some(st) => {
            &&& r.stages_done == count_or(st, "stages_done"@, 0)
            &&& r.stages_total == count_or(st, "stages_total"@, 8)
            &&& r.status@ == match as_str(member(st, "status"@)) {
                Some(s) => s,
                None => "new"@,
            }
        },
    }
}

/// `r` holds the records of the listed entries, in their order.
pub open spec fn recents_in_scan_order(entries: Seq<ProjectEntry>, r: Seq<RecentProject>) -> bool {
    &&& r.len() == listed_entries(entries).len()
    &&& forall|i: int| 0 <= i < r.len() ==> recent_of(#[trigger] listed_entries(entries)[i], r[i])
}

/// `r` is the recent-project list of a scan that found `entries`: the records
/// of the entries with a manifest, sorted stably by latest activity first.
pub open spec fn recent_list_of(entries: Seq<ProjectEntry>, r: Seq<RecentProject>) -> bool {
    exists|listed: Seq<RecentProject>|
        recents_in_scan_order(entries, listed) && #[trigger] stably_sorted(listed, r)
}

/// Two recent-project records say the same: the same name, venue, path,
/// stage counts, status and activity stamp.
pub open spec fn same_recent(a: RecentProject, b: RecentProject) -> bool {
    &&& a.name@ == b.name@
    &&& a.venue@ == b.venue@
    &&& a.path@ == b.path@
    &&& a.stages_done == b.stages_done
    &&& a.stages_total == b.stages_total
    &&& a.status@ == b.status@
    &&& a.last_activity@ == b.last_activity@
}

/// Two lists of recent projects say the same, record by record.
pub open spec fn same_recents(a: Seq<RecentProject>, b: Seq<RecentProject>) -> bool {
    &&& a.len() == b.len()
    &&& forall|i: int| 0 <= i < a.len() ==> #[trigger] same_recent(a[i], b[i])
}

/// Lists that say the same keep saying the same when the records tied with
/// `t` are picked out of both.
proof fn lemma_same_recents_filter(a: Seq<RecentProject>, b: Seq<RecentProject>, t: RecentProject)
    requires
        same_recents(a, b),
    ensures
        same_recents(a.filter(tied_with(t)), b.filter(tied_with(t))),
    decreases a.len(),
{
    reveal(Seq::filter);
    let p = tied_with(t);
    if a.len() > 0 {
        let (a1, b1) = (a.drop_last(), b.drop_last());
        assert forall|i: int| 0 <= i < a1.len() implies #[trigger] same_recent(a1[i], b1[i]) by {
            assert(same_recent(a[i], b[i]));
        }
        lemma_same_recents_filter(a1, b1, t);
        assert(same_recent(a[a.len() - 1], b[b.len() - 1]));
        assert(p(a.last()) == p(b.last()));
        let (fa, fb) = (a1.filter(p), b1.filter(p));
        if p(a.last()) {
            assert(a.filter(p) == fa.push(a.last()));
            assert(b.filter(p) == fb.push(b.last()));
            assert forall|i: int| 0 <= i < fa.len() + 1 implies #[trigger] same_recent(fa.push(a.last())[i],
                fb.push(b.last())[i]) by {
                if i < fa.len() {
                    assert(same_recent(fa[i], fb[i]));
                }
            }
        } else {
            assert(a.filter(p) == fa);
            assert(b.filter(p) == fb);
        }
    }
}

/// Two lists in rank order that hold, for every activity stamp, the same
/// records with that stamp in the same order, say the same.
proof fn lemma_same_when_ranked(o1: Seq<RecentProject>, o2: Seq<RecentProject>)
    requires
        o1.len() == o2.len(),
        ranked_in_order(o1),
        ranked_in_order(o2),
        forall|t: RecentProject| #![trigger tied_with(t)] same_recents(o1.filter(tied_with(t)), o2.filter(tied_with(t))),
    ensures
        same_recents(o1, o2),
    decreases o1.len(),
{
    if o1.len() > 0 {
        let (a, b) = (o1[0], o2[0]);
        let (r1, r2) = (o1.drop_first(), o2.drop_first());
        assert(o1 == seq![a] + r1);
        assert(o2 == seq![b] + r2);
        lemma_bytes_lt_irreflexive(utf8(a.last_activity@));
        lemma_bytes_lt_irreflexive(utf8(b.last_activity@));
        if !a.outranks(&b) && !b.outranks(&a) {
            let p = tied_with(a);
            r1.lemma_filter_prepend(a, p);
            r2.lemma_filter_prepend(b, p);
            assert(same_recents(o1.filter(p), o2.filter(p)));
            assert(o1.filter(p)[0] == a);
            assert(o2.filter(p)[0] == b);
            assert(same_recent(o1.filter(p)[0], o2.filter(p)[0]));
            assert forall|t: RecentProject| #![trigger tied_with(t)] same_recents(r1.filter(tied_with(t)), r2.filter(tied_with(t))) by {
                let q = tied_with(t);
                r1.lemma_filter_prepend(a, q);
                r2.lemma_filter_prepend(b, q);
                assert(same_recents(o1.filter(q), o2.filter(q)));
                assert(q(a) == q(b));
                if q(a) {
                    assert forall|i: int| 0 <= i < r1.filter(q).len() implies #[trigger] same_recent(r1.filter(q)[i],
                        r2.filter(q)[i]) by {
                        assert(same_recent(o1.filter(q)[i + 1], o2.filter(q)[i + 1]));
                    }
                } else {
                    assert(o1.filter(q) == r1.filter(q));
                    assert(o2.filter(q) == r2.filter(q));
                }
            }
            assert forall|i: int, j: int| #![trigger r1[i], r1[j]] 0 <= i < j < r1.len() implies !r1[j].outranks(&r1[i]) by {
                assert(r1[i] == o1[i + 1] && r1[j] == o1[j + 1]);
            }
            assert forall|i: int, j: int| #![trigger r2[i], r2[j]] 0 <= i < j < r2.len() implies !r2[j].outranks(&r2[i]) by {
                assert(r2[i] == o2[i + 1] && r2[j] == o2[j + 1]);
            }
            lemma_same_when_ranked(r1, r2);
            assert forall|i: int| 0 <= i < o1.len() implies #[trigger] same_recent(o1[i], o2[i]) by {
                if i > 0 {
                    assert(same_recent(r1[i - 1], r2[i - 1]));
                }
            }
        } else if a.outranks(&b) {
            lemma_first_outranked(o1, o2);
        } else {
            assert forall|t: RecentProject| #![trigger tied_with(t)] same_recents(o2.filter(tied_with(t)), o1.filter(tied_with(t))) by {
                assert(same_recents(o1.filter(tied_with(t)), o2.filter(tied_with(t))));
                assert forall|i: int| 0 <= i < o2.filter(tied_with(t)).len() implies #[trigger] same_recent(
                    o2.filter(tied_with(t))[i], o1.filter(tied_with(t))[i]) by {
                    assert(same_recent(o1.filter(tied_with(t))[i], o2.filter(tied_with(t))[i]));
                }
            }
            lemma_first_outranked(o2, o1);
        }
    }
}

/// Of two lists in rank order whose tied records say the same, the first
/// record of one cannot outrank the first record of the other.
proof fn lemma_first_outranked(o1: Seq<RecentProject>, o2: Seq<RecentProject>)
    requires
        o1.len() > 0,
        o1.len() == o2.len(),
        ranked_in_order(o2),
        forall|t: RecentProject| #![trigger tied_with(t)] same_recents(o1.filter(tied_with(t)), o2.filter(tied_with(t))),
    ensures
        !o1[0].outranks(&o2[0]),
{
    let (a, b) = (o1[0], o2[0]);
    if a.outranks(&b) {
        let p = tied_with(a);
        lemma_bytes_lt_irreflexive(utf8(a.last_activity@));
        assert(o1 == seq![a] + o1.drop_first());
        o1.drop_first().lemma_filter_prepend(a, p);
        assert(same_recents(o1.filter(p), o2.filter(p)));
        assert(o1.filter(p)[0] == a);
        let x = o2.filter(p)[0];
        assert(same_recent(a, x));
        assert(o2.filter(p).contains(x));
        o2.lemma_filter_contains_rev(p, x);
        let j = choose|j: int| 0 <= j < o2.len() && o2[j] == x;
        if j == 0 {
            assert(x == b);
        } else {
            assert(!o2[j].outranks(&o2[0]));
        }
    }
}

/// The recent-project list of a scan is fixed by what the scan found: two
/// lists that are both the list of the same entries say the same, record
/// by record. So refreshing the list gives what a fresh scan gives.
pub proof fn lemma_recent_list_unique(entries: Seq<ProjectEntry>, r1: Seq<RecentProject>, r2: Seq<RecentProject>)
    requires
        recent_list_of(entries, r1),
        recent_list_of(entries, r2),
    ensures
        same_recents(r1, r2),
{
    let l1 = choose|l: Seq<RecentProject>| recents_in_scan_order(entries, l) && #[trigger] stably_sorted(l, r1);
    let l2 = choose|l: Seq<RecentProject>| recents_in_scan_order(entries, l) && #[trigger] stably_sorted(l, r2);
    let listed = listed_entries(entries);
    assert forall|i: int| 0 <= i < l1.len() implies #[trigger] same_recent(l1[i], l2[i]) by {
        assert(recent_of(listed[i], l1[i]));
        assert(recent_of(listed[i], l2[i]));
    }
    assert forall|t: RecentProject| #![trigger tied_with(t)] same_recents(r1.filter(tied_with(t)), r2.filter(tied_with(t))) by {
        lemma_same_recents_filter(l1, l2, t);
        assert(r1.filter(tied_with(t)) == l1.filter(tied_with(t)));
        assert(r2.filter(tied_with(t)) == l2.filter(tied_with(t)));
    }
    lemma_same_when_ranked(r1, r2);
}

fn count_member(state: &JsonValue, key: &str, default: u64) -> (r: u8)
    ensures
        r == count_or(*state, key@, default),
{
    let n: u64 = match state.get(key) {
        Some(JsonValue::Number(num)) => match num.as_u64 {
            Some(n) => n,
            None => default,
        },
        _ => default,
    };
    (n % 256) as u8
}

/// Builds the recent-project record of an entry that has a manifest.
pub fn recent_from_entry(e: &ProjectEntry) -> (r: RecentProject)
    requires
        e.manifest is Some,
    ensures
        recent_of(*e, r),
{
    let m = e.manifest.as_ref().unwrap();
    let (stages_done, stages_total, status) = match &e.pipeline_state {
        Some(st) => {
            let status = match st.get("status") {
                Some(v) => match v.as_str() {
                    Some(s) => owned(s),
                    None => owned("new"),
                },
                None => owned("new"),
            };
            (count_member(st, "stages_done", 0), count_member(st, "stages_total", 8), status)
        },
        None => (0u8, 8u8, owned("new")),
    };
    RecentProject {
        name: str_member_of(m, "name"),
        venue: str_member_of(m, "venue"),
        path: owned(e.path.as_str()),
        stages_done,
        stages_total,
        status,
        last_activity: str_member_of(m, "created"),
    }
}

/// The records of the entries that have a manifest, in scan order.
pub fn recents_from_entries(entries: &Vec<ProjectEntry>) -> (r: Vec<RecentProject>)
    ensures
        recents_in_scan_order(entries@, r@),
{
    let mut out: Vec<RecentProject> = Vec::new();
    let mut i: usize = 0;
    while i < entries.len()
        invariant
            i <= entries@.len(),
            recents_in_scan_order(entries@.take(i as int), out@),
        decreases entries@.len() - i,
    {
        let ghost pred = |e: ProjectEntry| e.manifest is Some;
        proof {
            entries@.take(i as int).lemma_filter_push(entries@[i as int], pred);
            assert(entries@.take(i + 1) =~= entries@.take(i as int).push(entries@[i as int]));
        }
        if entries[i].manifest.is_some() {
            let rec = recent_from_entry(&entries[i]);
            out.push(rec);
        }
        i += 1;
    }
    assert(entries@.take(entries@.len() as int) =~= entries@);
    out
}

/// Orders recent projects by latest activity first, keeping the scan order
/// among projects with the same activity stamp.
pub fn sort_recents(recents: Vec<RecentProject>) -> (r: Vec<RecentProject>)
    ensures
        stably_sorted(recents@, r@),
{
    stable_sort(recents)
}

/// The recent-project list of a scan of the papers directory: one record per
/// project directory with a readable manifest, latest activity first.
pub fn scan_recents(entries: &Vec<ProjectEntry>) -> (r: Vec<RecentProject>)
    ensures
        recent_list_of(entries@, r@),
{
    let listed = recents_from_entries(entries);
    let ghost l = listed@;
    let r = sort_recents(listed);
    assert(recents_in_scan_order(entries@, l) && stably_sorted(l, r@));
    r
}

/// Whether `new` is the slot `old` with its path and files restored from the
/// saved slot record `saved`.
pub open spec fn restored_slot(old: InputSlot, new: InputSlot, saved: JsonValue) -> bool {
    &&& new.label == old.label
    &&& new.description == old.description
    &&& new.kind == old.kind
    &&& new.required == old.required
    &&& match as_str(member(saved, "path"@)) {
        Some(p) => new.path is Some && new.path.unwrap()@ == p,
        None => new.path is None,
    }
    &&& views(new.files@) == string_list_member(saved, "files"@)
}

/// Whether `new` is the configuration `old` loaded from the manifest `m` of
/// the saved project at `path`.
pub open spec fn loaded_config(old: ProjectConfig, new: ProjectConfig, m: JsonValue, path: Seq<char>) -> bool {
    &&& new.name@ == str_member(m, "name"@)
    &&& new.venue@ == str_member(m, "venue"@)
    &&& new.project_dir@ == path
    &&& new.output_dir@ == joined(path, "output"@)
    &&& new.slots@.len() == old.slots@.len()
    &&& forall|i: int| 0 <= i < new.slots@.len() ==> match as_array(member(m, "slots"@)) {
        Some(saved) if i < saved.len() => restored_slot(old.slots@[i], #[trigger] new.slots@[i], saved[i]),
        _ => new.slots@[i] == old.slots@[i],
    }
}

fn restore_slot(slot: InputSlot, saved: &JsonValue) -> (r: InputSlot)
    ensures
        restored_slot(slot, r, *saved),
{
    let path = match saved.get("path") {
        Some(v) => match v.as_str() {
            Some(p) => Some(owned(p)),
            None => None,
        },
        None => None,
    };
    InputSlot { path, files: string_list_of(saved, "files"), ..slot }
}

/// Whether `v` is a JSON array of exactly the strings `ss`.
pub open spec fn string_array_of(v: JsonValue, ss: Seq<Seq<char>>) -> bool {
    match v {
        JsonValue::Array { items, .. } => items@.len() == ss.len()
            && forall|i: int| 0 <= i < ss.len() ==> (#[trigger] items@[i]) is Str && items@[i]->Str_0@ == ss[i],
        _ => false,
    }
}

/// Whether `v` is the JSON object that a saved manifest holds for slot `s`:
/// its path (`null` without one) and its files.
pub open spec fn slot_document(v: JsonValue, s: SlotManifest) -> bool {
    &&& match s.path {
        Some(p) => as_str(member(v, "path"@)) == Some(p@),
        None => member(v, "path"@) == Some(JsonValue::Null),
    }
    &&& member(v, "files"@) matches Some(f) && string_array_of(f, views(s.files@))
}

/// Whether `v` is the JSON document of the manifest `m`, as saved in
/// `project.json`: its name, venue and slots.
pub open spec fn manifest_document(v: JsonValue, m: Manifest) -> bool {
    &&& as_str(member(v, "name"@)) == Some(m.name@)
    &&& as_str(member(v, "venue"@)) == Some(m.venue@)
    &&& as_array(member(v, "slots"@)) matches Some(items) && items.len() == m.slots@.len()
        && forall|i: int| 0 <= i < items.len() ==> slot_document(#[trigger] items[i], m.slots@[i])
}

/// The strings of an array of exactly those strings are its string items.
proof fn lemma_string_items_of_array(items: Seq<JsonValue>, ss: Seq<Seq<char>>)
    requires
        items.len() == ss.len(),
        forall|i: int| 0 <= i < ss.len() ==> (#[trigger] items[i]) is Str && items[i]->Str_0@ == ss[i],
    ensures
        crate::json::string_items(items) == ss,
    decreases items.len(),
{
    if items.len() > 0 {
        let (a, b) = (items.drop_last(), ss.drop_last());
        assert forall|i: int| 0 <= i < b.len() implies (#[trigger] a[i]) is Str && a[i]->Str_0@ == b[i] by {
            assert(a[i] == items[i]);
        }
        lemma_string_items_of_array(a, b);
        assert(items.last() == items[items.len() - 1]);
        assert(ss =~= b.push(ss.last()));
    } else {
        assert(ss =~= Seq::<Seq<char>>::empty());
    }
}

/// Loading a project from the manifest saved for a configuration gives the
/// configuration's name and venue back, and each saved slot's path and
/// files, into a configuration with at least as many slots; the slots past
/// the saved ones stay as they were.
pub proof fn lemma_manifest_round_trip(
    c: ProjectConfig,
    m: Manifest,
    doc: JsonValue,
    before: ProjectConfig,
    after: ProjectConfig,
    path: Seq<char>,
)
    requires
        manifest_records(m, c),
        manifest_document(doc, m),
        loaded_config(before, after, doc, path),
        c.slots@.len() <= before.slots@.len(),
    ensures
        after.name@ == c.name@,
        after.venue@ == c.venue@,
        after.slots@.len() == before.slots@.len(),
        forall|i: int| c.slots@.len() <= i < before.slots@.len() ==> #[trigger] after.slots@[i] == before.slots@[i],
        forall|i: int| 0 <= i < c.slots@.len() ==> {
            &&& views((#[trigger] after.slots@[i]).files@) == views(c.slots@[i].files@)
            &&& match c.slots@[i].path {
                Some(p) => after.slots@[i].path is Some && after.slots@[i].path.unwrap()@ == p@,
                None => after.slots@[i].path is None,
            }
        },
{
    let items = as_array(member(doc, "slots"@)).unwrap();
    assert forall|i: int| 0 <= i < c.slots@.len() implies {
        &&& views((#[trigger] after.slots@[i]).files@) == views(c.slots@[i].files@)
        &&& match c.slots@[i].path {
            Some(p) => after.slots@[i].path is Some && after.slots@[i].path.unwrap()@ == p@,
            None => after.slots@[i].path is None,
        }
    } by {
        assert(slot_document(items[i], m.slots@[i]));
        assert(slot_manifest_of(c.slots@[i], m.slots@[i]));
        assert(restored_slot(before.slots@[i], after.slots@[i], items[i]));
        let f = member(items[i], "files"@).unwrap();
        match f {
            JsonValue::Array { items: fi, .. } => {
                lemma_string_items_of_array(fi@, views(m.slots@[i].files@));
            },
            _ => {},
        }
    }
}

/// Top-level application state.
pub struct App {
    pub screen: Screen,
    pub config: ProjectConfig,
    pub recents: Vec<RecentProject>,
    pub should_quit: bool,
}

impl App {
    /// A new app on the project-select screen, with a fresh configuration and
    /// the recent projects found by a scan of the papers directory.
    pub fn new(entries: &Vec<ProjectEntry>) -> (r: Self)
        ensures
            r.screen == Screen::ProjectSelect,
            is_fresh_config(r.config),
            !r.should_quit,
            recent_list_of(entries@, r.recents@),
    {
        let recents = scan_recents(entries);
        App {
            screen: Screen::ProjectSelect,
            config: ProjectConfig::default(),
            recents,
            should_quit: false,
        }
    }

    /// Replaces the recent-project list by the one of a fresh scan.
    pub fn refresh_recents(&mut self, entries: &Vec<ProjectEntry>)
        ensures
            recent_list_of(entries@, final(self).recents@),
            final(self).screen == old(self).screen,
            final(self).config == old(self).config,
            final(self).should_quit == old(self).should_quit,
    {
        let recents = scan_recents(entries);
        self.recents = recents;
    }

    /// Loads a saved project's manifest into the configuration: name, venue,
    /// directories, and the path and files of each saved slot. Without a
    /// manifest (it could not be read or parsed) nothing changes.
    pub fn load_project(&mut self, recent: &RecentProject, manifest: Option<&JsonValue>)
        ensures
            final(self).screen == old(self).screen,
            final(self).recents == old(self).recents,
            final(self).should_quit == old(self).should_quit,
            match manifest {
                Some(m) => loaded_config(old(self).config, final(self).config, *m, recent.path@),
                None => final(self).config == old(self).config,
            },
    {
        if let Some(m) = manifest {
            self.config.name = str_member_of(m, "name");
            self.config.venue = str_member_of(m, "venue");
            self.config.project_dir = owned(recent.path.as_str());
            self.config.output_dir = join(recent.path.as_str(), "output");
            if let Some(JsonValue::Array { items, .. }) = m.get("slots") {
                let ghost old_slots = self.config.slots@;
                let ghost before = *self;
                let mut i: usize = 0;
                while i < items.len()
                    invariant
                        i <= items@.len(),
                        self.screen == before.screen,
                        self.recents == before.recents,
                        self.should_quit == before.should_quit,
                        self.config.name == before.config.name,
                        self.config.venue == before.config.venue,
                        self.config.project_dir == before.config.project_dir,
                        self.config.output_dir == before.config.output_dir,
                        as_array(member(*m, "slots"@)) == Some(items@),
                        self.config.slots@.len() == old_slots.len(),
                        forall|j: int| 0 <= j < old_slots.len() ==> if j < i && j < items@.len() {
                            restored_slot(old_slots[j], #[trigger] self.config.slots@[j], items@[j])
                        } else {
                            self.config.slots@[j] == old_slots[j]
                        },
                    decreases items@.len() - i,
                {
                    if i < self.config.slots.len() {
                        let slot = self.config.slots.remove(i);
                        let restored = restore_slot(slot, &items[i]);
                        self.config.slots.insert(i, restored);
                    }
                    i += 1;
                }
            }
        }
    }
}

} // verus!
