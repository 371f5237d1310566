use vstd::prelude::*;

use crate::draw::{
    append, bordered_inner, byte_len, byte_length, cut_bytes, decimal, drawn_within, frame_at,
    inside_borders, marks, new_area, push_cut_text_in, push_decimal, push_fitted_in, push_frame,
    push_text_in, sat_sub, text_at, text_bytes_at, text_mark, Area, Draw, Mark,
};
use crate::pipeline::{PaperPipelinePlane, ScriptInfo, StageInfo};
use crate::pipeline_view::{
    done_count, flow_drawn, pipeline_screen_drawn, fits_u16, screen_border_style, status_color, title_style,
};
use crate::style::{bold_in, heading_in, highlight_in, italic_in, plain_in, Color, Style};
use crate::text::{debug_quoted, owned, quoted, str_eq, utf8};

verus! {

/// The status a stage is shown with: the paper's status for it, or pending.
pub open spec fn status_or_pending(s: Option<Seq<char>>) -> Seq<char> {
    match s {
        Some(t) => t,
        None => "pending"@,
    }
}

/// The check mark of a stage status: `[*]` done, `[>]` active, `[ ]` else.
pub open spec fn detail_icon(status: Seq<char>) -> Seq<char> {
    if status == "done"@ {
        "[*]"@
    } else if status == "active"@ {
        "[>]"@
    } else {
        "[ ]"@
    }
}

/// The first line of the stage detail: check mark, stage id and description.
pub open spec fn stage_header(stage: StageInfo, status: Seq<char>) -> Seq<char> {
    detail_icon(status) + " "@ + stage.id@ + " -- "@ + stage.description@
}

/// How many of the scripts ran successfully.
pub open spec fn success_count(scripts: Seq<ScriptInfo>) -> nat
    decreases scripts.len(),
{
    if scripts.len() == 0 {
        0
    } else {
        success_count(scripts.drop_last()) + if scripts.last().success { 1nat } else { 0nat }
    }
}

/// The scripts of `scripts` that ran successfully: those whose success flag
/// is set, in their order.
pub open spec fn successful_scripts(scripts: Seq<ScriptInfo>) -> Seq<ScriptInfo> {
    scripts.filter(|s: ScriptInfo| s.success)
}

/// The count of successful scripts is the number of scripts whose success
/// flag is set.
pub proof fn lemma_success_count_is_successful_scripts(scripts: Seq<ScriptInfo>)
    ensures
        success_count(scripts) == successful_scripts(scripts).len(),
    decreases scripts.len(),
{
    reveal(Seq::filter);
    if scripts.len() > 0 {
        lemma_success_count_is_successful_scripts(scripts.drop_last());
    }
}

/// How far a stage has come, as a fraction: all of it when done; when
/// active, the share of its processes and scripts that are scripts that ran
/// successfully (half when it has neither); nothing otherwise.
pub open spec fn stage_fraction(stage: StageInfo, status: Seq<char>) -> (nat, nat) {
    if status == "done"@ {
        (1, 1)
    } else if status == "active"@ {
        let total = stage.processes@.len() + stage.scripts@.len();
        if total == 0 {
            (1, 2)
        } else {
            (success_count(stage.scripts@), total as nat)
        }
    } else {
        (0, 1)
    }
}

/// An active stage with processes or scripts has come as far as its
/// scripts whose success flag is set, out of all its processes and
/// scripts; so a failed script adds nothing and each successful one adds
/// one.
pub proof fn lemma_active_progress(stage: StageInfo)
    requires
        stage.processes@.len() + stage.scripts@.len() > 0,
    ensures
        stage_fraction(stage, "active"@).0 == successful_scripts(stage.scripts@).len(),
        stage_fraction(stage, "active"@).1 == stage.processes@.len() + stage.scripts@.len(),
        stage_fraction(stage, "active"@).0 <= stage.scripts@.len(),
{
    reveal_strlit("active");
    reveal_strlit("done");
    assert("active"@ != "done"@) by {
        assert("active"@.len() != "done"@.len());
    }
    lemma_success_count_is_successful_scripts(stage.scripts@);
    successful_scripts_no_longer(stage.scripts@);
}

/// There are no more successful scripts than scripts.
proof fn successful_scripts_no_longer(scripts: Seq<ScriptInfo>)
    ensures
        successful_scripts(scripts).len() <= scripts.len(),
{
    scripts.lemma_filter_len(|s: ScriptInfo| s.success);
}

/// The hint at the bottom of the stage detail, in the list view or the
/// detail of one item.
pub open spec fn stage_hint(ground_truth: bool) -> Seq<char> {
    if ground_truth {
        "<-/-> stage  |  up/down item  |  Enter close detail  |  ESC close"@
    } else {
        "<-/-> stage  |  up/down item  |  Enter ground truth  |  ESC close"@
    }
}

/// Whether every piece of `ops` after the first `skip` lies in `area` or
/// at most a few rows around it (the detail of a stage draws its first rows
/// and its hint whatever the height of the area).
pub open spec fn near_area(ops: Seq<Draw>, skip: int, area: Area) -> bool {
    drawn_within(ops, skip, area.x as int, sat_sub(area.y as int, 1), area.bottom_edge() + 8)
}

/// Whether `ops` is the detail of `stage` over `area` for a paper whose
/// status for it is `status`: its header and progress bar first, everything
/// in or near the area, and the hint centred on the last row.
pub open spec fn stage_detail_drawn(ops: Seq<Draw>, plane: PaperPipelinePlane, stage: StageInfo, status: Seq<char>, area: Area) -> bool {
    let hb = utf8(stage_header(stage, status));
    let fr = stage_fraction(stage, status);
    let hint = stage_hint(plane.show_item_detail);
    &&& ops.len() >= 4
    &&& near_area(ops, 0, area)
    &&& text_bytes_at(ops[0], area.x, area.y,
            cut_bytes(hb, if hb.len() < area.width { hb.len() as int } else { area.width as int })->0,
            Style { fg: Some(status_color(status)), bg: None, bold: true, italic: false, underlined: false })
    &&& text_at(ops[1], (area.x + 1) as u16, (area.y + 1) as u16, "Progress: "@,
            Style { fg: Some(Color::Gray), bg: None, bold: false, italic: false, underlined: false })
    &&& ops[2] == (Draw::Progress {
            x: (area.x + 11) as u16,
            y: (area.y + 1) as u16,
            width: if 30 < sat_sub(area.width as int, 13) { 30u16 } else { sat_sub(area.width as int, 13) as u16 },
            done: fr.0 as u64,
            total: fr.1 as u64,
            style: Style { fg: Some(status_color(status)), bg: None, bold: false, italic: false, underlined: false },
        })
    &&& text_at(ops.last(), (area.x + sat_sub(area.width as int, byte_len(hint) as int) / 2) as u16,
            sat_sub(area.bottom_edge() as int, 1) as u16, hint,
            Style { fg: Some(Color::DarkGray), bg: None, bold: false, italic: true, underlined: false })
}

/// Whether `s` can be cut to its first `n` bytes without cutting a
/// character.
pub open spec fn cuts_cleanly(s: Seq<char>, n: int) -> bool {
    cut_bytes(utf8(s), n) is Some
}

/// The lines of the detail of process `sel` of `stage`.
pub open spec fn process_detail_lines(stage: StageInfo, status: Seq<char>, sel: int) -> Seq<Seq<char>> {
    seq![
        "  type:        Process"@,
        "  name:        "@ + quoted(stage.processes@[sel]@),
        "  stage:       "@ + quoted(stage.id@) + " ("@ + stage.description@ + ")"@,
        "  index:       "@ + decimal((sel + 1) as nat) + "/"@ + decimal(stage.processes@.len()),
        "  status:      "@ + quoted(status)
    ]
}

/// The lines of the detail of a script.
pub open spec fn script_detail_lines(sc: ScriptInfo) -> Seq<Seq<char>> {
    seq![
        "  type:        Script"@,
        "  file:        "@ + quoted(sc.file@),
        "  function:    "@ + quoted(sc.function@),
        "  params:      "@ + quoted_list(crate::json::views(sc.params@)),
        "  last_run:    "@ + quoted(sc.last_run@),
        "  duration_ms: "@ + decimal(sc.duration_ms as nat),
        "  success:     "@ + bool_text(sc.success),
        "  output_size: "@ + decimal(sc.output_size as nat)
    ]
}

/// The check mark of process `i` of `n` in a stage with `status`: all done
/// in a done stage; in an active stage the first half done and the rest
/// under way; none otherwise.
pub open spec fn process_check(status: Seq<char>, i: int, n: int) -> Seq<char> {
    if status == "done"@ {
        "[*]"@
    } else if status == "active"@ && i < n / 2 {
        "[*]"@
    } else if status == "active"@ {
        "[>]"@
    } else {
        "[ ]"@
    }
}

/// The list line of process `i` of a stage.
pub open spec fn process_bullet(selected: bool, status: Seq<char>, i: int, n: int, name: Seq<char>) -> Seq<char> {
    (if selected { ">>"@ } else { "  "@ }) + " "@ + process_check(status, i, n) + " "@ + name
}

/// Whether every line the detail of `stage` can show cuts cleanly to `tw`
/// bytes, and its processes and scripts can be counted in a `usize`.
pub open spec fn stage_fits(plane: PaperPipelinePlane, stage: StageInfo, status: Seq<char>, tw: int) -> bool {
    let sel = plane.selected_item as int;
    let np = stage.processes@.len() as int;
    &&& cuts_cleanly(stage_header(stage, status), tw)
    &&& np + stage.scripts@.len() <= usize::MAX
    &&& plane.show_item_detail ==> {
        &&& sel < np ==> forall|k: int| 0 <= k < 5 ==> cuts_cleanly(#[trigger] process_detail_lines(stage, status, sel)[k], tw)
        &&& sel < np ==> cuts_cleanly("  outputs:     "@ + quoted_list(crate::json::views(stage.outputs@)), tw)
        &&& np <= sel < np + stage.scripts@.len() ==> forall|k: int| 0 <= k < 8 ==>
                cuts_cleanly(#[trigger] script_detail_lines(stage.scripts@[sel - np])[k], tw)
    }
    &&& !plane.show_item_detail ==> {
        &&& forall|i: int| 0 <= i < np ==>
                cuts_cleanly(process_bullet(sel == i, status, i, np, (#[trigger] stage.processes@[i])@), tw)
        &&& forall|i: int| 0 <= i < stage.scripts@.len() ==> {
                &&& cuts_cleanly(script_line(#[trigger] stage.scripts@[i], sel == np + i), tw)
                &&& cuts_cleanly(params_line(stage.scripts@[i]), tw)
            }
        &&& forall|i: int| 0 <= i < stage.outputs@.len() ==> cuts_cleanly("  => "@ + (#[trigger] stage.outputs@[i])@, tw)
    }
}

/// How many scripts ran successfully.
fn count_success(scripts: &Vec<ScriptInfo>) -> (r: usize)
    ensures
        r == success_count(scripts@),
        r == successful_scripts(scripts@).len(),
{
    proof {
        lemma_success_count_is_successful_scripts(scripts@);
    }
    let mut c: usize = 0;
    let mut i: usize = 0;
    while i < scripts.len()
        invariant
            i <= scripts@.len(),
            c == success_count(scripts@.take(i as int)),
            c <= i,
        decreases scripts@.len() - i,
    {
        assert(scripts@.take(i + 1).drop_last() =~= scripts@.take(i as int));
        if scripts[i].success {
            c += 1;
        }
        i += 1;
    }
    assert(scripts@.take(scripts@.len() as int) =~= scripts@);
    c
}

/// `{:?}` of a list of strings: `[` and the quoted strings separated by
/// `, `, then `]`.
pub open spec fn quoted_list(items: Seq<Seq<char>>) -> Seq<char> {
    "["@ + crate::pipeline_view::joined(items.map_values(|t: Seq<char>| quoted(t)), ", "@) + "]"@
}

/// Appends `{:?}` of a list of strings.
fn push_quoted_list(s: &mut String, items: &Vec<String>)
    ensures
        final(s)@ == old(s)@ + quoted_list(crate::json::views(items@)),
{
    let ghost vs = crate::json::views(items@);
    let ghost qs = vs.map_values(|t: Seq<char>| quoted(t));
    crate::text::push_str(s, "[");
    let ghost head = s@;
    let mut i: usize = 0;
    while i < items.len()
        invariant
            i <= items@.len(),
            vs == crate::json::views(items@),
            qs == vs.map_values(|t: Seq<char>| quoted(t)),
            qs.len() == items@.len(),
            s@ == head + crate::pipeline_view::joined(qs.take(i as int), ", "@),
        decreases items@.len() - i,
    {
        if i > 0 {
            crate::text::push_str(s, ", ");
        }
        let q = debug_quoted(items[i].as_str());
        crate::text::push_str(s, q.as_str());
        assert(qs.take(i + 1).drop_last() =~= qs.take(i as int));
        assert(qs[i as int] == q@);
        if i == 0 {
            assert(crate::pipeline_view::joined(qs.take(1), ", "@) == qs[0]);
        }
        assert(s@ =~= head + crate::pipeline_view::joined(qs.take(i + 1), ", "@));
        i += 1;
    }
    assert(qs.take(qs.len() as int) =~= qs);
    crate::text::push_str(s, "]");
    assert(s@ =~= old(s)@ + quoted_list(vs));
}

impl PaperPipelinePlane {
    /// The first rows of the detail of `stage`: its header, its progress
    /// bar, its metrics while they fit, and a separator; gives the row after
    /// them, or nothing where a text would be cut inside a character or a
    /// column or row would pass `u16::MAX`.
    #[verifier::spinoff_prover]
    #[verifier::rlimit(40)]
    fn stage_top(&self, stage: &StageInfo, status: &str, area: Area, ops: &mut Vec<Draw>) -> (r: Option<u16>)
        requires
            fits_u16(area),
            old(ops)@.len() == 0,
        ensures
            near_area(final(ops)@, 0, area),
            r matches Some(y) ==> {
                let hb = utf8(stage_header(*stage, status@));
                let fr = stage_fraction(*stage, status@);
                &&& area.y <= y <= area.bottom_edge() + 4
                &&& final(ops)@.len() >= 3
                &&& text_bytes_at(final(ops)@[0], area.x, area.y,
                        cut_bytes(hb, if hb.len() < area.width { hb.len() as int } else { area.width as int })->0,
                        Style { fg: Some(status_color(status@)), bg: None, bold: true, italic: false, underlined: false })
                &&& text_at(final(ops)@[1], (area.x + 1) as u16, (area.y + 1) as u16, "Progress: "@,
                        Style { fg: Some(Color::Gray), bg: None, bold: false, italic: false, underlined: false })
                &&& final(ops)@[2] == (Draw::Progress {
                        x: (area.x + 11) as u16,
                        y: (area.y + 1) as u16,
                        width: if 30 < sat_sub(area.width as int, 13) { 30u16 } else { sat_sub(area.width as int, 13) as u16 },
                        done: fr.0 as u64,
                        total: fr.1 as u64,
                        style: Style { fg: Some(status_color(status@)), bg: None, bold: false, italic: false, underlined: false },
                    })
            },
            r matches Some(y) ==> y == separator_row(*stage, area) + 1
                && marks(final(ops)@) == stage_top_marks(*stage, status@, area),
            r is Some <==> stage_top_ok(*stage, status@, area),
    {
        let ghost top = sat_sub(area.y as int, 1);
        let ghost bot = area.bottom_edge() + 8;
        let tw: usize = area.width as usize;
        let bottom = area.bottom();
        let right = area.right();
        let color = PaperPipelinePlane::stage_color(status);
        let icon = if str_eq(status, "done") { "[*]" } else if str_eq(status, "active") { "[>]" } else { "[ ]" };
        let mut hdr = owned(icon);
        append(&mut hdr, " ");
        append(&mut hdr, stage.id.as_str());
        append(&mut hdr, " -- ");
        append(&mut hdr, stage.description.as_str());
        assert(hdr@ == stage_header(*stage, status@));
        if area.x > u16::MAX - 11 || area.y > u16::MAX - 3 {
            proof {
                lemma_metrics_end_below(*stage, area, 0, area.y + 2, area.x + 9);
            }
            return None;
        }
        let mut y = area.y;
        let mut head: Vec<Draw> = Vec::new();
        if !push_fitted_in(&mut head, area.x, y, hdr.as_str(), tw, Style::bold(color), Ghost(0), Ghost(area.x as int), Ghost(top), Ghost(bot)) {
            return None;
        }
        proof {
            let hb = utf8(hdr@);
            assert(cut_bytes(hb, tw as int) == cut_bytes(hb, if hb.len() < area.width { hb.len() as int } else { area.width as int }));
        }
        y = y + 1;
        let ghost mut counted = true;
        let (done, total): (u64, u64) = if str_eq(status, "done") {
            proof {
                reveal_strlit("done");
                reveal_strlit("active");
                assert("done"@[0] != "active"@[0]);
                counted = status@ != "active"@;
            }
            (1, 1)
        } else if str_eq(status, "active") {
            let t = match stage.processes.len().checked_add(stage.scripts.len()) {
                Some(t) => t,
                None => {
                    return None;
                },
            };
            proof {
                counted = stage.processes@.len() + stage.scripts@.len() <= usize::MAX;
            }
            if t == 0 { (1, 2) } else { (count_success(&stage.scripts) as u64, t as u64) }
        } else {
            proof {
                counted = status@ != "active"@;
            }
            (0, 1)
        };
        assert(status@ == "active"@ ==> stage.processes@.len() + stage.scripts@.len() <= usize::MAX);
        push_text_in(&mut head, area.x + 1, y, "Progress: ", Style::fg(Color::Gray), Ghost(0), Ghost(area.x as int), Ghost(top), Ghost(bot));
        let w: u16 = if area.width >= 13 { area.width - 13 } else { 0 };
        let bar = Draw::Progress { x: area.x + 11, y, width: if 30 < w { 30 } else { w }, done, total, style: Style::fg(color) };
        let ghost before = head@;
        head.push(bar);
        proof {
            crate::draw::lemma_drawn_within_push(before, bar, 0, area.x as int, top, bot);
            assert(head@[0] == before[0]);
            assert(head@[1] == before[1]);
            assert(head@.take(before.len() as int) =~= before);
            crate::draw::lemma_marks_push(before, head@);
            assert(marks(head@) =~= stage_top_marks(*stage, status@, area).take(3));
        }
        y = y + 1;
        let mut rest: Vec<Draw> = Vec::new();
        let ghost y2 = y as int;

        // Metrics, wrapped onto further rows while they fit.
        y = match metric_rows(stage, area, y, &mut rest) {
            Some(y) => y,
            None => {
                return None;
            },
        };
        assert(y == separator_row(*stage, area));
        if y == u16::MAX {
            return None;
        }
        assert(cut_bytes(utf8(stage_header(*stage, status@)), area.width as int) is Some);
        assert(shows_metrics(*stage, area) ==> metrics_ok(*stage, area, 0, area.y + 2, area.x + 9));
        assert(stage_top_ok(*stage, status@, area));

        // Separator.
        let sep = crate::draw::repeat_char('-', if tw < 60 { tw } else { 60 });
        push_text_in(&mut rest, area.x, y, sep.as_str(), Style::fg(Color::DarkGray), Ghost(0), Ghost(area.x as int), Ghost(top), Ghost(bot));
        y = y + 1;
        let ghost (h0, r0) = (head@, rest@);
        ops.append(&mut head);
        ops.append(&mut rest);
        proof {
            assert(ops@ =~= h0 + r0);
            crate::draw::lemma_drawn_within_append(h0, r0, 0, area.x as int, top, bot, top, bot);
            crate::draw::lemma_marks_append(h0, r0);
            assert(marks(ops@) =~= stage_top_marks(*stage, status@, area));
        }
        Some(y)
    }
}


/// The metrics of `stage` from row `y0` of `area`, when it has some and a
/// row is left under `y0`: the heading `METRICS `, then `label:value` pairs,
/// wrapping onto further rows while they are in `area`; gives the row of the
/// separator under them, or nothing where a column or that row would pass
/// `u16::MAX`.
fn metric_rows(stage: &StageInfo, area: Area, y0: u16, ops: &mut Vec<Draw>) -> (r: Option<u16>)
    requires
        fits_u16(area),
        area.x + 11 <= u16::MAX,
        y0 == area.y + 2,
        near_area(old(ops)@, 0, area),
    ensures
        near_area(final(ops)@, 0, area),
        r matches Some(y) ==> y == separator_row(*stage, area) && area.y <= y <= area.bottom_edge() + 2,
        r is Some <==> ((shows_metrics(*stage, area) ==> metrics_ok(*stage, area, 0, area.y + 2, area.x + 9))
            && separator_row(*stage, area) <= u16::MAX),
        r is Some ==> marks(final(ops)@) == marks(old(ops)@) + (if shows_metrics(*stage, area) {
            seq![text_mark((area.x + 1) as u16, (area.y + 2) as u16, "METRICS "@, bold_in(Color::Rgb(180, 140, 255)))]
                + metric_marks(*stage, area, 0, area.y + 2, area.x + 9)
        } else {
            Seq::empty()
        }),
{
    let ghost top = sat_sub(area.y as int, 1);
    let ghost bot = area.bottom_edge() + 8;
    let ghost m0 = marks(ops@);
    let bottom = area.bottom();
    let right = area.right();
    let mut y = y0;
    let ghost y2 = y0 as int;
    if stage.metrics.entries.len() > 0 && (y as u32) + 1 < bottom as u32 {
        let mut mx: u16 = area.x + 1;
        push_text_in(ops, mx, y, "METRICS ", Style::bold(Color::Rgb(180, 140, 255)), Ghost(0), Ghost(area.x as int), Ghost(top), Ghost(bot));
        mx = mx + 8;
        let ghost target_m = marks(ops@) + metric_marks(*stage, area, 0, y2, area.x + 9);
        let ghost end_m = metrics_end(*stage, area, 0, y2, area.x + 9);
        let mut i: usize = 0;
        let mut stop = false;
        while i < stage.metrics.entries.len() && !stop
            invariant
                !stop ==> marks(ops@) + metric_marks(*stage, area, i as int, y as int, mx as int) == target_m,
                !stop ==> metrics_end(*stage, area, i as int, y as int, mx as int) == end_m,
                stop ==> marks(ops@) == target_m && y == end_m,
                !stop ==> metrics_ok(*stage, area, i as int, y as int, mx as int)
                    == metrics_ok(*stage, area, 0, y2, area.x + 9),
                stop ==> metrics_ok(*stage, area, 0, y2, area.x + 9),
                shows_metrics(*stage, area),
                y2 == area.y + 2,
                fits_u16(area),
                bottom == area.bottom_edge(),
                right == area.right_edge(),
                top == sat_sub(area.y as int, 1),
                bot == area.bottom_edge() + 8,
                area.y <= y <= bottom,
                !stop ==> y < bottom,
                area.x <= mx,
                area.x + 11 <= u16::MAX,
                near_area(ops@, 0, area),
            decreases stage.metrics.entries@.len() - i + if stop { 0int } else { 1int },
        {
            let ghost (mbefore, yi, mxi) = (marks(ops@), y as int, mx as int);
            let label = stage.metrics.entries[i].0.as_str();
            let value = stage.metrics.entries[i].1.as_str();
            let mut metric = owned(label);
            crate::text::push_str(&mut metric, ":");
            crate::text::push_str(&mut metric, value);
            crate::text::push_str(&mut metric, " ");
            assert(metric@ =~= metric_entry(*stage, i as int));
            let mlen: u16 = byte_length(metric.as_str()) as u16;
            let reach = match mx.checked_add(mlen) {
                Some(v) => v,
                None => {
                    return None;
                },
            };
            if reach >= right {
                y = y + 1;
                mx = area.x + 9;
                if y >= bottom {
                    stop = true;
                }
            }
            if stop {
                assert(marks(ops@) =~= target_m);
                continue;
            }
            assert(metrics_ok(*stage, area, i as int, yi, mxi) ==> {
                let cx = mx + (byte_len(label@) as u16);
                cx + 1 + (byte_len(value@) as u16) + 2 <= u16::MAX
            });
            push_text_in(ops, mx, y, label, Style::fg(Color::Rgb(140, 100, 200)), Ghost(0), Ghost(area.x as int), Ghost(top), Ghost(bot));
            mx = match mx.checked_add(byte_length(label) as u16) {
                Some(v) => v,
                None => {
                    return None;
                },
            };
            push_text_in(ops, mx, y, ":", Style::fg(Color::DarkGray), Ghost(0), Ghost(area.x as int), Ghost(top), Ghost(bot));
            mx = match mx.checked_add(1) {
                Some(v) => v,
                None => {
                    return None;
                },
            };
            push_text_in(ops, mx, y, value, Style::bold(Color::Rgb(200, 180, 255)), Ghost(0), Ghost(area.x as int), Ghost(top), Ghost(bot));
            mx = match mx.checked_add(byte_length(value) as u16) {
                Some(v) => match v.checked_add(2) {
                    Some(w) => w,
                    None => {
                        return None;
                    },
                },
                None => {
                    return None;
                },
            };
            proof {
                let more = metric_marks(*stage, area, i + 1, y as int, mx as int);
                let mine = marks(ops@).subrange(mbefore.len() as int, marks(ops@).len() as int);
                assert(marks(ops@) =~= mbefore + mine);
                assert(metric_marks(*stage, area, i as int, yi, mxi) == mine + more);
                assert(mbefore + (mine + more) =~= marks(ops@) + more);
            }
            i += 1;
        }
        proof {
            if !stop {
                assert(marks(ops@) =~= target_m);
            }
        }
        if y == u16::MAX {
            return None;
        }
        y = y + 1;
    }
    assert(marks(ops@) =~= m0 + (if shows_metrics(*stage, area) {
        seq![text_mark((area.x + 1) as u16, (area.y + 2) as u16, "METRICS "@, bold_in(Color::Rgb(180, 140, 255)))]
            + metric_marks(*stage, area, 0, area.y + 2, area.x + 9)
    } else {
        Seq::empty()
    }));
    Some(y)
}

/// Draws `lines` one per row from row `y` on, each cut to `tw` bytes, while
/// the row is above `stop`; gives the row after them, or nothing where a
/// line is cut inside a character.
fn rows_of_lines(lines: &Vec<String>, area: Area, y0: u16, stop: u16, tw: usize, style: Style, ops: &mut Vec<Draw>) -> (r: Option<u16>)
    requires
        fits_u16(area),
        area.y <= y0 <= area.bottom_edge() + 6,
        stop <= area.bottom_edge(),
        near_area(old(ops)@, 0, area),
    ensures
        near_area(final(ops)@, 0, area),
        r matches Some(y) ==> area.y <= y <= area.bottom_edge() + 6 && (y > y0 ==> y <= stop),
        r matches Some(y) ==> y == lines_end(lines@.len() as int, 0, y0 as int, stop as int),
        r is Some ==> marks(final(ops)@) == marks(old(ops)@)
            + line_marks(crate::json::views(lines@), area.x, 0, y0 as int, stop as int, tw as int, style),
        r is Some <==> lines_ok(crate::json::views(lines@), 0, y0 as int, stop as int, tw as int),
        (forall|k: int| 0 <= k < lines@.len() ==> cuts_cleanly(#[trigger] lines@[k]@, tw as int)) ==> r is Some,
{
    let ghost top = sat_sub(area.y as int, 1);
    let ghost bot = area.bottom_edge() + 8;
    let ghost ls = crate::json::views(lines@);
    let ghost target = marks(ops@) + line_marks(ls, area.x, 0, y0 as int, stop as int, tw as int, style);
    let mut y = y0;
    let mut i: usize = 0;
    while i < lines.len() && y < stop
        invariant
            fits_u16(area),
            area.y <= y0 <= area.bottom_edge() + 6,
            stop <= area.bottom_edge(),
            top == sat_sub(area.y as int, 1),
            bot == area.bottom_edge() + 8,
            area.y <= y <= area.bottom_edge() + 6,
            y > y0 ==> y <= stop,
            near_area(ops@, 0, area),
            ls == crate::json::views(lines@),
            ls.len() == lines@.len(),
            marks(ops@) + line_marks(ls, area.x, i as int, y as int, stop as int, tw as int, style) == target,
            lines_end(lines@.len() as int, i as int, y as int, stop as int)
                == lines_end(lines@.len() as int, 0, y0 as int, stop as int),
            lines_ok(ls, i as int, y as int, stop as int, tw as int) == lines_ok(ls, 0, y0 as int, stop as int, tw as int),
        decreases lines@.len() - i,
    {
        let ghost before = marks(ops@);
        assert(ls[i as int] == lines@[i as int]@);
        proof {
            if forall|k: int| 0 <= k < lines@.len() ==> cuts_cleanly(#[trigger] lines@[k]@, tw as int) {
                assert(cuts_cleanly(lines@[i as int]@, tw as int));
            }
        }
        if !push_fitted_in(ops, area.x, y, lines[i].as_str(), tw, style, Ghost(0), Ghost(area.x as int), Ghost(top), Ghost(bot)) {
            return None;
        }
        proof {
            let rest = line_marks(ls, area.x, i + 1, y + 1, stop as int, tw as int, style);
            assert(ls[i as int] == lines@[i as int]@);
            assert(before + (marks(ops@).subrange(before.len() as int, marks(ops@).len() as int) + rest) =~= marks(ops@) + rest);
        }
        y = y + 1;
        i += 1;
    }
    assert(marks(ops@) =~= target);
    assert(lines_ok(ls, i as int, y as int, stop as int, tw as int));
    Some(y)
}

/// The lines of the detail of the selected process.
fn process_lines(stage: &StageInfo, status: &str, sel: usize) -> (r: Vec<String>)
    requires
        sel < stage.processes@.len(),
    ensures
        r@.len() == 5,
        r@[0]@ == "  type:        Process"@,
        r@[1]@ == "  name:        "@ + quoted(stage.processes@[sel as int]@),
        r@[2]@ == "  stage:       "@ + quoted(stage.id@) + " ("@ + stage.description@ + ")"@,
        r@[3]@ == "  index:       "@ + decimal((sel + 1) as nat) + "/"@ + decimal(stage.processes@.len()),
        r@[4]@ == "  status:      "@ + quoted(status@),
{
    let n = stage.processes.len();
    let mut lines: Vec<String> = Vec::new();
    lines.push(owned("  type:        Process"));
    let mut l = owned("  name:        ");
    crate::text::push_str(&mut l, debug_quoted(stage.processes[sel].as_str()).as_str());
    lines.push(l);
    let mut l = owned("  stage:       ");
    crate::text::push_str(&mut l, debug_quoted(stage.id.as_str()).as_str());
    crate::text::push_str(&mut l, " (");
    crate::text::push_str(&mut l, stage.description.as_str());
    crate::text::push_str(&mut l, ")");
    lines.push(l);
    let mut l = owned("  index:       ");
    push_decimal(&mut l, (sel + 1) as u64);
    crate::text::push_str(&mut l, "/");
    push_decimal(&mut l, n as u64);
    lines.push(l);
    let mut l = owned("  status:      ");
    crate::text::push_str(&mut l, debug_quoted(status).as_str());
    lines.push(l);
    lines
}

/// `{}` of a boolean.
pub open spec fn bool_text(b: bool) -> Seq<char> {
    if b { "true"@ } else { "false"@ }
}

/// The lines of the detail of a script.
fn script_lines(sc: &ScriptInfo) -> (r: Vec<String>)
    ensures
        r@.len() == 8,
        r@[0]@ == "  type:        Script"@,
        r@[1]@ == "  file:        "@ + quoted(sc.file@),
        r@[2]@ == "  function:    "@ + quoted(sc.function@),
        r@[3]@ == "  params:      "@ + quoted_list(crate::json::views(sc.params@)),
        r@[4]@ == "  last_run:    "@ + quoted(sc.last_run@),
        r@[5]@ == "  duration_ms: "@ + decimal(sc.duration_ms as nat),
        r@[6]@ == "  success:     "@ + bool_text(sc.success),
        r@[7]@ == "  output_size: "@ + decimal(sc.output_size as nat),
{
    let mut lines: Vec<String> = Vec::new();
    lines.push(owned("  type:        Script"));
    let mut l = owned("  file:        ");
    crate::text::push_str(&mut l, debug_quoted(sc.file.as_str()).as_str());
    lines.push(l);
    let mut l = owned("  function:    ");
    crate::text::push_str(&mut l, debug_quoted(sc.function.as_str()).as_str());
    lines.push(l);
    let mut l = owned("  params:      ");
    push_quoted_list(&mut l, &sc.params);
    lines.push(l);
    let mut l = owned("  last_run:    ");
    crate::text::push_str(&mut l, debug_quoted(sc.last_run.as_str()).as_str());
    lines.push(l);
    let mut l = owned("  duration_ms: ");
    push_decimal(&mut l, sc.duration_ms);
    lines.push(l);
    let mut l = owned("  success:     ");
    crate::text::push_str(&mut l, if sc.success { "true" } else { "false" });
    lines.push(l);
    let mut l = owned("  output_size: ");
    push_decimal(&mut l, sc.output_size);
    lines.push(l);
    lines
}

impl PaperPipelinePlane {
    /// The detail of the selected item (`Enter`): `GROUND TRUTH`, then the
    /// fields of the selected process (and the stage's outputs) or script,
    /// as many as fit above the last row; nothing where a line would be cut
    /// inside a character or the row after the heading would pass `u16::MAX`.
    fn ground_truth_rows(&self, stage: &StageInfo, status: &str, area: Area, y0: u16, ops: &mut Vec<Draw>) -> (r: Option<u16>)
        requires
            fits_u16(area),
            area.x + 11 <= u16::MAX,
            area.y <= y0 <= area.bottom_edge() + 4,
            near_area(old(ops)@, 0, area),
        ensures
            near_area(final(ops)@, 0, area),
            r matches Some(y) ==> area.y <= y <= area.bottom_edge() + 6,
            r is Some ==> marks(final(ops)@) == marks(old(ops)@) + ground_truth_marks(*self, *stage, status@, area, y0 as int),
            r is Some <==> ground_truth_ok(*self, *stage, status@, area, y0 as int),
            self.show_item_detail && stage_fits(*self, *stage, status@, area.width as int) && y0 < u16::MAX ==> r is Some,
    {
        let ghost top = sat_sub(area.y as int, 1);
        let ghost bot = area.bottom_edge() + 8;
        let ghost m0 = marks(ops@);
        let bottom = area.bottom();
        let tw: usize = area.width as usize;
        let last: u16 = if bottom >= 1 { bottom - 1 } else { 0 };
        if y0 == u16::MAX {
            return None;
        }
        let mut y = y0;
        push_text_in(ops, area.x + 1, y, "GROUND TRUTH", Style::bold(Color::Yellow), Ghost(0), Ghost(area.x as int), Ghost(top), Ghost(bot));
        let ghost m1 = marks(ops@);
        y = y + 1;
        let sel = self.selected_item;
        let proc_count = stage.processes.len();
        let ghost fits = self.show_item_detail && stage_fits(*self, *stage, status@, area.width as int);
        if sel < proc_count {
            let lines = process_lines(stage, status, sel);
            proof {
                if fits {
                    assert forall|k: int| 0 <= k < lines@.len() implies cuts_cleanly(#[trigger] lines@[k]@, tw as int) by {
                        assert(lines@[k]@ == process_detail_lines(*stage, status@, sel as int)[k]);
                        assert(cuts_cleanly(process_detail_lines(*stage, status@, sel as int)[k], tw as int));
                    }
                }
            }
            assert(crate::json::views(lines@) =~= process_detail_lines(*stage, status@, sel as int));
            y = match rows_of_lines(&lines, area, y, last, tw, Style::fg(Color::DarkGray), ops) {
                Some(y) => y,
                None => {
                    return None;
                },
            };
            let ghost m2 = marks(ops@);
            if stage.outputs.len() > 0 && y < last {
                let mut l = owned("  outputs:     ");
                push_quoted_list(&mut l, &stage.outputs);
                if !push_fitted_in(ops, area.x, y, l.as_str(), tw, Style::fg(Color::DarkGray), Ghost(0), Ghost(area.x as int), Ghost(top), Ghost(bot)) {
                    return None;
                }
                y = y + 1;
            }
            assert(marks(ops@) =~= m0 + ground_truth_marks(*self, *stage, status@, area, y0 as int));
        } else {
            let idx = sel - proc_count;
            if idx < stage.scripts.len() {
                let lines = script_lines(&stage.scripts[idx]);
                proof {
                    if fits {
                        assert forall|k: int| 0 <= k < lines@.len() implies cuts_cleanly(#[trigger] lines@[k]@, tw as int) by {
                            assert(lines@[k]@ == script_detail_lines(stage.scripts@[idx as int])[k]);
                            assert(cuts_cleanly(script_detail_lines(stage.scripts@[(sel - proc_count) as int])[k], tw as int));
                        }
                    }
                }
                assert(crate::json::views(lines@) =~= script_detail_lines(stage.scripts@[idx as int]));
                y = match rows_of_lines(&lines, area, y, last, tw, Style::fg(Color::DarkGray), ops) {
                    Some(y) => y,
                    None => {
                        return None;
                    },
                };
            }
            assert(marks(ops@) =~= m0 + ground_truth_marks(*self, *stage, status@, area, y0 as int));
        }
        Some(y)
    }
}


/// What the list shows after a script: how its last run went, or that it
/// has not run.
pub open spec fn run_info(sc: ScriptInfo) -> Seq<char> {
    if sc.last_run@.len() > 0 {
        " ["@ + (if sc.success { "*"@ } else { "x"@ })
            + (if sc.duration_ms > 0 { " "@ + decimal(sc.duration_ms as nat) + "ms"@ } else { ""@ })
            + (if sc.output_size > 0 { " out:"@ + decimal(sc.output_size as nat) } else { ""@ }) + "]"@
    } else {
        " [not run]"@
    }
}

/// The list line of a script.
pub open spec fn script_line(sc: ScriptInfo, selected: bool) -> Seq<char> {
    (if selected { ">>"@ } else { "  "@ }) + " "@ + sc.file@ + " -> "@ + sc.function@ + run_info(sc)
}

/// The part of a script's line about its last run.
fn run_info_of(sc: &ScriptInfo) -> (r: String)
    ensures
        r@ == run_info(*sc),
{
    proof {
        crate::draw::lemma_byte_len_empty(sc.last_run@);
    }
    if byte_length(sc.last_run.as_str()) == 0 {
        return owned(" [not run]");
    }
    let mut l = owned(" [");
    crate::text::push_str(&mut l, if sc.success { "*" } else { "x" });
    let mut d = owned("");
    if sc.duration_ms > 0 {
        d = owned(" ");
        push_decimal(&mut d, sc.duration_ms);
        crate::text::push_str(&mut d, "ms");
    }
    let mut o = owned("");
    if sc.output_size > 0 {
        o = owned(" out:");
        push_decimal(&mut o, sc.output_size);
    }
    crate::text::push_str(&mut l, d.as_str());
    crate::text::push_str(&mut l, o.as_str());
    crate::text::push_str(&mut l, "]");
    l
}

/// The list line of a script.
fn script_line_of(sc: &ScriptInfo, selected: bool) -> (r: String)
    ensures
        r@ == script_line(*sc, selected),
{
    let mut l = owned(if selected { ">>" } else { "  " });
    crate::text::push_str(&mut l, " ");
    crate::text::push_str(&mut l, sc.file.as_str());
    crate::text::push_str(&mut l, " -> ");
    crate::text::push_str(&mut l, sc.function.as_str());
    let info = run_info_of(sc);
    crate::text::push_str(&mut l, info.as_str());
    l
}

/// The parameters line under a script: `     params: [a, b]`.
pub open spec fn params_line(sc: ScriptInfo) -> Seq<char> {
    "     params: ["@ + crate::pipeline_view::joined(crate::json::views(sc.params@), ", "@) + "]"@
}

/// The parameters line under a script.
fn params_line_of(sc: &ScriptInfo) -> (r: String)
    ensures
        r@ == params_line(*sc),
{
    let ghost vs = crate::json::views(sc.params@);
    let mut l = owned("     params: [");
    let ghost head = l@;
    let mut i: usize = 0;
    while i < sc.params.len()
        invariant
            i <= sc.params@.len(),
            vs == crate::json::views(sc.params@),
            vs.len() == sc.params@.len(),
            l@ == head + crate::pipeline_view::joined(vs.take(i as int), ", "@),
        decreases sc.params@.len() - i,
    {
        if i > 0 {
            crate::text::push_str(&mut l, ", ");
        }
        crate::text::push_str(&mut l, sc.params[i].as_str());
        assert(vs.take(i + 1).drop_last() =~= vs.take(i as int));
        if i == 0 {
            assert(crate::pipeline_view::joined(vs.take(1), ", "@) == vs[0]);
        }
        assert(l@ =~= head + crate::pipeline_view::joined(vs.take(i + 1), ", "@));
        i += 1;
    }
    assert(vs.take(vs.len() as int) =~= vs);
    crate::text::push_str(&mut l, "]");
    l
}

/// Metric `i` of `stage` as the detail measures it: `label:value `.
pub open spec fn metric_entry(stage: StageInfo, i: int) -> Seq<char> {
    stage.metrics.entries@[i].0@ + ":"@ + stage.metrics.entries@[i].1@ + " "@
}

/// Whether metric `i`, when the last one ended before column `mx`, goes on
/// the next row: it would reach the right edge of `area`. (Its length is
/// taken as a `u16`, as the detail takes it.)
pub open spec fn metric_wraps(stage: StageInfo, area: Area, i: int, mx: int) -> bool {
    mx + (byte_len(metric_entry(stage, i)) as u16) >= area.right_edge()
}

/// The metrics from the `i`-th on, the next at column `mx` of row `y` or,
/// when it does not fit there, at column 9 of the next row while that is in
/// `area`: its label, a colon and its value.
pub open spec fn metric_marks(stage: StageInfo, area: Area, i: int, y: int, mx: int) -> Seq<Mark>
    decreases stage.metrics.entries@.len() - i,
{
    if 0 <= i < stage.metrics.entries@.len() {
        let wrap = metric_wraps(stage, area, i, mx);
        let y1 = if wrap { y + 1 } else { y };
        let kx = if wrap { area.x + 9 } else { mx };
        if y1 >= area.bottom_edge() {
            Seq::empty()
        } else {
            let label = stage.metrics.entries@[i].0@;
            let value = stage.metrics.entries@[i].1@;
            let cx = kx + (byte_len(label) as u16);
            seq![
                text_mark(kx as u16, y1 as u16, label, plain_in(Color::Rgb(140, 100, 200))),
                text_mark(cx as u16, y1 as u16, ":"@, plain_in(Color::DarkGray)),
                text_mark((cx + 1) as u16, y1 as u16, value, bold_in(Color::Rgb(200, 180, 255))),
            ] + metric_marks(stage, area, i + 1, y1, cx + 1 + (byte_len(value) as u16) + 2)
        }
    } else {
        Seq::empty()
    }
}

/// The row the metrics from the `i`-th on end on (as in `metric_marks`).
pub open spec fn metrics_end(stage: StageInfo, area: Area, i: int, y: int, mx: int) -> int
    decreases stage.metrics.entries@.len() - i,
{
    if 0 <= i < stage.metrics.entries@.len() {
        let wrap = metric_wraps(stage, area, i, mx);
        let y1 = if wrap { y + 1 } else { y };
        let kx = if wrap { area.x + 9 } else { mx };
        if y1 >= area.bottom_edge() {
            y1
        } else {
            let cx = kx + (byte_len(stage.metrics.entries@[i].0@) as u16);
            metrics_end(stage, area, i + 1, y1, cx + 1 + (byte_len(stage.metrics.entries@[i].1@) as u16) + 2)
        }
    } else {
        y
    }
}

/// The metrics end no higher than they start.
proof fn lemma_metrics_end_below(stage: StageInfo, area: Area, i: int, y: int, mx: int)
    ensures
        metrics_end(stage, area, i, y, mx) >= y,
    decreases stage.metrics.entries@.len() - i,
{
    if 0 <= i < stage.metrics.entries@.len() {
        let wrap = metric_wraps(stage, area, i, mx);
        let y1 = if wrap { y + 1 } else { y };
        let kx = if wrap { area.x + 9 } else { mx };
        if y1 < area.bottom_edge() {
            let cx = kx + (byte_len(stage.metrics.entries@[i].0@) as u16);
            lemma_metrics_end_below(stage, area, i + 1, y1, cx + 1 + (byte_len(stage.metrics.entries@[i].1@) as u16) + 2);
        }
    }
}

/// Whether the detail of `stage` over `area` shows its metrics: it has
/// some, and a row is left under the progress bar.
pub open spec fn shows_metrics(stage: StageInfo, area: Area) -> bool {
    stage.metrics.entries@.len() > 0 && area.y + 3 < area.bottom_edge()
}

/// The row of the separator under the top of the detail of `stage`.
pub open spec fn separator_row(stage: StageInfo, area: Area) -> int {
    if shows_metrics(stage, area) { metrics_end(stage, area, 0, area.y + 2, area.x + 9) + 1 } else { area.y + 2 }
}

/// The top of the detail of `stage` over `area`: its header cut to the
/// width of `area`, `Progress: ` and its progress bar, its metrics (when it
/// has some and there is room) under the heading `METRICS `, and a rule of
/// `-` at most 60 wide.
pub open spec fn stage_top_marks(stage: StageInfo, status: Seq<char>, area: Area) -> Seq<Mark> {
    let fr = stage_fraction(stage, status);
    let color = status_color(status);
    seq![
        Mark::Text { x: area.x, y: area.y, bytes: cut_bytes(utf8(stage_header(stage, status)), area.width as int)->0,
            style: bold_in(color) },
        text_mark((area.x + 1) as u16, (area.y + 1) as u16, "Progress: "@, plain_in(Color::Gray)),
        Mark::Progress {
            x: (area.x + 11) as u16,
            y: (area.y + 1) as u16,
            width: if 30 < sat_sub(area.width as int, 13) { 30u16 } else { sat_sub(area.width as int, 13) as u16 },
            done: fr.0 as u64,
            total: fr.1 as u64,
            style: plain_in(color),
        },
    ] + (if shows_metrics(stage, area) {
        seq![text_mark((area.x + 1) as u16, (area.y + 2) as u16, "METRICS "@, bold_in(Color::Rgb(180, 140, 255)))]
            + metric_marks(stage, area, 0, area.y + 2, area.x + 9)
    } else {
        Seq::empty()
    }) + seq![text_mark(area.x, separator_row(stage, area) as u16,
        crate::draw::repeated('-', if area.width < 60 { area.width as nat } else { 60 }), plain_in(Color::DarkGray))]
}

/// `lines` from the `i`-th on, one per row from row `y` on while the row is
/// above `stop`, each cut to `tw` bytes, at column `x` in `style`.
pub open spec fn line_marks(lines: Seq<Seq<char>>, x: u16, i: int, y: int, stop: int, tw: int, style: Style) -> Seq<Mark>
    decreases lines.len() - i,
{
    if 0 <= i < lines.len() && y < stop {
        seq![Mark::Text { x, y: y as u16, bytes: cut_bytes(utf8(lines[i]), tw)->0, style }]
            + line_marks(lines, x, i + 1, y + 1, stop, tw, style)
    } else {
        Seq::empty()
    }
}

/// The row after `n` lines from the `i`-th on drawn as in `line_marks`.
pub open spec fn lines_end(n: int, i: int, y: int, stop: int) -> int
    decreases n - i,
{
    if 0 <= i < n && y < stop { lines_end(n, i + 1, y + 1, stop) } else { y }
}

/// The line of the outputs of a stage in the detail of one of its processes.
pub open spec fn outputs_detail_line(stage: StageInfo) -> Seq<char> {
    "  outputs:     "@ + quoted_list(crate::json::views(stage.outputs@))
}

/// The detail of the selected item from row `y` of `area`: `GROUND TRUTH`,
/// then the lines of the selected process (and, after them, the stage's
/// outputs when it has some and there is room) or script, above the last
/// row, in dark gray.
pub open spec fn ground_truth_marks(plane: PaperPipelinePlane, stage: StageInfo, status: Seq<char>, area: Area, y: int) -> Seq<Mark> {
    let sel = plane.selected_item as int;
    let np = stage.processes@.len() as int;
    let last = sat_sub(area.bottom_edge() as int, 1);
    let gray = plain_in(Color::DarkGray);
    seq![text_mark((area.x + 1) as u16, y as u16, "GROUND TRUTH"@, bold_in(Color::Yellow))] + if sel < np {
        let y1 = lines_end(5, 0, y + 1, last);
        line_marks(process_detail_lines(stage, status, sel), area.x, 0, y + 1, last, area.width as int, gray)
            + (if stage.outputs@.len() > 0 && y1 < last {
                seq![Mark::Text { x: area.x, y: y1 as u16, bytes: cut_bytes(utf8(outputs_detail_line(stage)), area.width as int)->0, style: gray }]
            } else {
                Seq::empty()
            })
    } else if sel - np < stage.scripts@.len() {
        line_marks(script_detail_lines(stage.scripts@[sel - np]), area.x, 0, y + 1, last, area.width as int, gray)
    } else {
        Seq::empty()
    }
}

/// The style of the line of process `i` of `n`.
pub open spec fn process_style(selected: bool, status: Seq<char>, i: int, n: int) -> Style {
    if selected {
        highlight_in(Color::White, Color::Rgb(50, 20, 60))
    } else if status == "done"@ || (status == "active"@ && i < n / 2) {
        plain_in(Color::Green)
    } else if status == "active"@ {
        plain_in(Color::Yellow)
    } else {
        plain_in(Color::DarkGray)
    }
}

/// The lines of the processes from the `i`-th on, from row `y` of `area`
/// on while the row is above its last two, each cut to the width of `area`.
pub open spec fn process_row_marks(plane: PaperPipelinePlane, stage: StageInfo, status: Seq<char>, area: Area, i: int, y: int) -> Seq<Mark>
    decreases stage.processes@.len() - i,
{
    let n = stage.processes@.len() as int;
    if 0 <= i < n && y < sat_sub(area.bottom_edge() as int, 2) {
        let selected = plane.selected_item as int == i;
        seq![Mark::Text {
            x: area.x,
            y: y as u16,
            bytes: cut_bytes(utf8(process_bullet(selected, status, i, n, stage.processes@[i]@)), area.width as int)->0,
            style: process_style(selected, status, i, n),
        }] + process_row_marks(plane, stage, status, area, i + 1, y + 1)
    } else {
        Seq::empty()
    }
}

/// The `PROCESSES` section from row `y` of `area`: its heading and the
/// lines of the processes.
pub open spec fn process_section_marks(plane: PaperPipelinePlane, stage: StageInfo, status: Seq<char>, area: Area, y: int) -> Seq<Mark> {
    seq![text_mark((area.x + 1) as u16, y as u16, "PROCESSES"@, heading_in(Color::Rgb(100, 200, 255)))]
        + process_row_marks(plane, stage, status, area, 0, y + 1)
}

/// The row after the `PROCESSES` section from row `y`, and an empty row.
pub open spec fn process_section_end(stage: StageInfo, area: Area, y: int) -> int {
    lines_end(stage.processes@.len() as int, 0, y + 1, sat_sub(area.bottom_edge() as int, 2)) + 1
}

/// The rows of script `i` from row `y` of `area`: its line, and its
/// parameters line when it has parameters and the row is above the last two.
pub open spec fn script_row(plane: PaperPipelinePlane, stage: StageInfo, area: Area, i: int, y: int) -> Seq<Mark> {
    let sc = stage.scripts@[i];
    let selected = plane.selected_item as int == stage.processes@.len() + i;
    seq![Mark::Text {
        x: area.x,
        y: y as u16,
        bytes: cut_bytes(utf8(script_line(sc, selected)), area.width as int)->0,
        style: if selected { highlight_in(Color::White, Color::Rgb(30, 50, 30)) } else { plain_in(Color::Rgb(120, 200, 120)) },
    }] + (if sc.params@.len() > 0 && y + 1 < sat_sub(area.bottom_edge() as int, 2) {
        seq![Mark::Text {
            x: area.x,
            y: (y + 1) as u16,
            bytes: cut_bytes(utf8(params_line(sc)), area.width as int)->0,
            style: if selected { plain_in(Color::Rgb(150, 220, 150)) } else { plain_in(Color::Rgb(60, 120, 60)) },
        }]
    } else {
        Seq::empty()
    })
}

/// The row after the rows of script `i` from row `y`.
pub open spec fn script_row_next(stage: StageInfo, area: Area, i: int, y: int) -> int {
    if stage.scripts@[i].params@.len() > 0 && y + 1 < sat_sub(area.bottom_edge() as int, 2) { y + 2 } else { y + 1 }
}

/// The rows of the scripts from the `i`-th on, from row `y` on while two
/// rows are left above the last two of `area`.
pub open spec fn script_row_marks(plane: PaperPipelinePlane, stage: StageInfo, area: Area, i: int, y: int) -> Seq<Mark>
    decreases stage.scripts@.len() - i,
{
    if 0 <= i < stage.scripts@.len() && y + 2 < sat_sub(area.bottom_edge() as int, 2) {
        script_row(plane, stage, area, i, y) + script_row_marks(plane, stage, area, i + 1, script_row_next(stage, area, i, y))
    } else {
        Seq::empty()
    }
}

/// The row after the rows of the scripts from the `i`-th on.
pub open spec fn script_rows_end(stage: StageInfo, area: Area, i: int, y: int) -> int
    decreases stage.scripts@.len() - i,
{
    if 0 <= i < stage.scripts@.len() && y + 2 < sat_sub(area.bottom_edge() as int, 2) {
        script_rows_end(stage, area, i + 1, script_row_next(stage, area, i, y))
    } else {
        y
    }
}

/// Whether the `SCRIPTS` section shows from row `y`: the stage has scripts
/// and two rows are left above the last two of `area`.
pub open spec fn shows_scripts(stage: StageInfo, area: Area, y: int) -> bool {
    y + 2 < sat_sub(area.bottom_edge() as int, 2) && stage.scripts@.len() > 0
}

/// The `SCRIPTS` section from row `y`, when it shows: its heading and the
/// rows of the scripts.
pub open spec fn script_section_marks(plane: PaperPipelinePlane, stage: StageInfo, area: Area, y: int) -> Seq<Mark> {
    if shows_scripts(stage, area, y) {
        seq![text_mark((area.x + 1) as u16, y as u16, "SCRIPTS"@, heading_in(Color::Rgb(120, 200, 120)))]
            + script_row_marks(plane, stage, area, 0, y + 1)
    } else {
        Seq::empty()
    }
}

/// The row after the `SCRIPTS` section from row `y` (and an empty row when it shows).
pub open spec fn script_section_end(stage: StageInfo, area: Area, y: int) -> int {
    if shows_scripts(stage, area, y) { script_rows_end(stage, area, 0, y + 1) + 1 } else { y }
}

/// The lines of the outputs of a stage: `  => ` and each output.
pub open spec fn output_lines(stage: StageInfo) -> Seq<Seq<char>> {
    Seq::new(stage.outputs@.len(), |k: int| "  => "@ + stage.outputs@[k]@)
}

/// The `OUTPUTS` section from row `y`, when the stage has outputs and two
/// rows are left above the last of `area`: its heading and the lines of the
/// outputs above the last row.
pub open spec fn output_section_marks(stage: StageInfo, area: Area, y: int) -> Seq<Mark> {
    let stop = sat_sub(area.bottom_edge() as int, 1);
    if y + 2 < stop && stage.outputs@.len() > 0 {
        seq![text_mark((area.x + 1) as u16, y as u16, "OUTPUTS"@, heading_in(Color::Rgb(200, 200, 100)))]
            + line_marks(output_lines(stage), area.x, 0, y + 1, stop, area.width as int, plain_in(Color::Rgb(200, 200, 100)))
    } else {
        Seq::empty()
    }
}

/// Whether the metrics from the `i`-th on (as in `metric_marks`) can be
/// drawn: every column they reach stays within `u16`.
pub open spec fn metrics_ok(stage: StageInfo, area: Area, i: int, y: int, mx: int) -> bool
    decreases stage.metrics.entries@.len() - i,
{
    if 0 <= i < stage.metrics.entries@.len() {
        let wrap = metric_wraps(stage, area, i, mx);
        let y1 = if wrap { y + 1 } else { y };
        let kx = if wrap { area.x + 9 } else { mx };
        let cx = kx + (byte_len(stage.metrics.entries@[i].0@) as u16);
        let next = cx + 1 + (byte_len(stage.metrics.entries@[i].1@) as u16) + 2;
        &&& mx + (byte_len(metric_entry(stage, i)) as u16) <= u16::MAX
        &&& y1 < area.bottom_edge() ==> next <= u16::MAX && metrics_ok(stage, area, i + 1, y1, next)
    } else {
        true
    }
}

/// Whether the top of the detail of `stage` can be drawn: its header cuts
/// between characters, an active stage's processes and scripts can be
/// counted in a `usize`, and the columns of its progress bar and metrics and
/// the row after its separator stay within `u16`.
pub open spec fn stage_top_ok(stage: StageInfo, status: Seq<char>, area: Area) -> bool {
    &&& area.x + 11 <= u16::MAX
    &&& separator_row(stage, area) + 1 <= u16::MAX
    &&& cut_bytes(utf8(stage_header(stage, status)), area.width as int) is Some
    &&& status == "active"@ ==> stage.processes@.len() + stage.scripts@.len() <= usize::MAX
    &&& shows_metrics(stage, area) ==> metrics_ok(stage, area, 0, area.y + 2, area.x + 9)
}

/// Whether `lines` from the `i`-th on, drawn as in `line_marks`, all cut
/// between characters.
pub open spec fn lines_ok(lines: Seq<Seq<char>>, i: int, y: int, stop: int, tw: int) -> bool
    decreases lines.len() - i,
{
    if 0 <= i < lines.len() && y < stop {
        cut_bytes(utf8(lines[i]), tw) is Some && lines_ok(lines, i + 1, y + 1, stop, tw)
    } else {
        true
    }
}

/// Whether the detail of the selected item from row `y` can be drawn.
pub open spec fn ground_truth_ok(plane: PaperPipelinePlane, stage: StageInfo, status: Seq<char>, area: Area, y: int) -> bool {
    let sel = plane.selected_item as int;
    let np = stage.processes@.len() as int;
    let last = sat_sub(area.bottom_edge() as int, 1);
    &&& y + 1 <= u16::MAX
    &&& if sel < np {
        &&& lines_ok(process_detail_lines(stage, status, sel), 0, y + 1, last, area.width as int)
        &&& (stage.outputs@.len() > 0 && lines_end(5, 0, y + 1, last) < last) ==>
                cut_bytes(utf8(outputs_detail_line(stage)), area.width as int) is Some
    } else if sel - np < stage.scripts@.len() {
        lines_ok(script_detail_lines(stage.scripts@[sel - np]), 0, y + 1, last, area.width as int)
    } else {
        true
    }
}

/// Whether the lines of the processes from the `i`-th on, from row `y` on,
/// cut between characters.
pub open spec fn process_rows_ok(plane: PaperPipelinePlane, stage: StageInfo, status: Seq<char>, area: Area, i: int, y: int) -> bool
    decreases stage.processes@.len() - i,
{
    let n = stage.processes@.len() as int;
    if 0 <= i < n && y < sat_sub(area.bottom_edge() as int, 2) {
        &&& cut_bytes(utf8(process_bullet(plane.selected_item as int == i, status, i, n, stage.processes@[i]@)),
                area.width as int) is Some
        &&& process_rows_ok(plane, stage, status, area, i + 1, y + 1)
    } else {
        true
    }
}

/// Whether the rows of the scripts from the `i`-th on, from row `y` on, cut
/// between characters.
pub open spec fn script_rows_ok(plane: PaperPipelinePlane, stage: StageInfo, area: Area, i: int, y: int) -> bool
    decreases stage.scripts@.len() - i,
{
    if 0 <= i < stage.scripts@.len() && y + 2 < sat_sub(area.bottom_edge() as int, 2) {
        let sc = stage.scripts@[i];
        &&& cut_bytes(utf8(script_line(sc, plane.selected_item as int == stage.processes@.len() + i)), area.width as int) is Some
        &&& (sc.params@.len() > 0 && y + 1 < sat_sub(area.bottom_edge() as int, 2)) ==>
                cut_bytes(utf8(params_line(sc)), area.width as int) is Some
        &&& script_rows_ok(plane, stage, area, i + 1, script_row_next(stage, area, i, y))
    } else {
        true
    }
}

/// Whether the list of the items of `stage` from row `y` can be drawn.
pub open spec fn stage_list_ok(plane: PaperPipelinePlane, stage: StageInfo, status: Seq<char>, area: Area, y: int) -> bool {
    let y1 = process_section_end(stage, area, y);
    let y2 = script_section_end(stage, area, y1);
    let stop = sat_sub(area.bottom_edge() as int, 1);
    &&& y + 2 <= u16::MAX
    &&& process_rows_ok(plane, stage, status, area, 0, y + 1)
    &&& shows_scripts(stage, area, y1) ==> script_rows_ok(plane, stage, area, 0, y1 + 1)
    &&& (y2 + 2 < stop && stage.outputs@.len() > 0) ==> lines_ok(output_lines(stage), 0, y2 + 1, stop, area.width as int)
}

/// Whether the detail of `stage` over `area` can be drawn.
pub open spec fn stage_detail_ok(plane: PaperPipelinePlane, stage: StageInfo, status: Seq<char>, area: Area) -> bool {
    let y = separator_row(stage, area) + 1;
    &&& stage_top_ok(stage, status, area)
    &&& if plane.show_item_detail {
        ground_truth_ok(plane, stage, status, area, y)
    } else {
        stage_list_ok(plane, stage, status, area, y)
    }
}

/// The list of the items of `stage` from row `y` of `area`: its
/// `PROCESSES`, `SCRIPTS` and `OUTPUTS` sections, one under the other.
pub open spec fn stage_list_marks(plane: PaperPipelinePlane, stage: StageInfo, status: Seq<char>, area: Area, y: int) -> Seq<Mark> {
    let y1 = process_section_end(stage, area, y);
    process_section_marks(plane, stage, status, area, y) + script_section_marks(plane, stage, area, y1)
        + output_section_marks(stage, area, script_section_end(stage, area, y1))
}

/// The detail of `stage` over `area` for a paper whose status for it is
/// `status`: its top; then the detail of the selected item, or the
/// processes, scripts and outputs; and the hint centred on the last row.
pub open spec fn stage_detail_marks(plane: PaperPipelinePlane, stage: StageInfo, status: Seq<char>, area: Area) -> Seq<Mark> {
    let y = separator_row(stage, area) + 1;
    let hint = stage_hint(plane.show_item_detail);
    stage_top_marks(stage, status, area) + (if plane.show_item_detail {
        ground_truth_marks(plane, stage, status, area, y)
    } else {
        stage_list_marks(plane, stage, status, area, y)
    }) + seq![text_mark((area.x + sat_sub(area.width as int, byte_len(hint) as int) / 2) as u16,
        sat_sub(area.bottom_edge() as int, 1) as u16, hint, italic_in(Color::DarkGray))]
}

impl PaperPipelinePlane {
    /// The `PROCESSES` section: a check-marked line per process while it
    /// fits above the last two rows, the selected one highlighted.
    fn process_rows(&self, stage: &StageInfo, status: &str, area: Area, y0: u16, ops: &mut Vec<Draw>) -> (r: Option<u16>)
        requires
            fits_u16(area),
            area.x + 11 <= u16::MAX,
            area.y <= y0 <= area.bottom_edge() + 4,
            near_area(old(ops)@, 0, area),
        ensures
            near_area(final(ops)@, 0, area),
            r matches Some(y) ==> area.y <= y <= area.bottom_edge() + 6,
            r matches Some(y) ==> y == process_section_end(*stage, area, y0 as int),
            r is Some ==> marks(final(ops)@) == marks(old(ops)@) + process_section_marks(*self, *stage, status@, area, y0 as int),
            r is Some <==> (y0 + 2 <= u16::MAX && process_rows_ok(*self, *stage, status@, area, 0, y0 + 1)),
            !self.show_item_detail && stage_fits(*self, *stage, status@, area.width as int) && y0 + 2 <= u16::MAX ==> r is Some,
    {
        let ghost fits = !self.show_item_detail && stage_fits(*self, *stage, status@, area.width as int);
        let ghost top = sat_sub(area.y as int, 1);
        let ghost bot = area.bottom_edge() + 8;
        let ghost target = marks(ops@) + process_section_marks(*self, *stage, status@, area, y0 as int);
        let bottom = area.bottom();
        let tw: usize = area.width as usize;
        let stop: u16 = if bottom >= 2 { bottom - 2 } else { 0 };
        if y0 > u16::MAX - 2 {
            return None;
        }
        let mut y = y0;
        push_text_in(ops, area.x + 1, y, "PROCESSES", Style::heading(Color::Rgb(100, 200, 255)), Ghost(0), Ghost(area.x as int), Ghost(top), Ghost(bot));
        y = y + 1;
        let n = stage.processes.len();
        let done = str_eq(status, "done");
        let active = str_eq(status, "active");
        let mut i: usize = 0;
        assert(marks(ops@) + process_row_marks(*self, *stage, status@, area, 0, y as int) =~= target);
        while i < n && y < stop
            invariant
                fits_u16(area),
                n == stage.processes@.len(),
                bottom == area.bottom_edge(),
                stop <= bottom,
                top == sat_sub(area.y as int, 1),
                bot == area.bottom_edge() + 8,
                area.y <= y <= area.bottom_edge() + 5,
                y + 1 <= u16::MAX,
                near_area(ops@, 0, area),
                tw == area.width,
                fits == (!self.show_item_detail && stage_fits(*self, *stage, status@, area.width as int)),
                done == (status@ == "done"@),
                active == (status@ == "active"@),
                stop == sat_sub(area.bottom_edge() as int, 2),
                marks(ops@) + process_row_marks(*self, *stage, status@, area, i as int, y as int) == target,
                lines_end(n as int, i as int, y as int, stop as int) == lines_end(n as int, 0, y0 + 1, stop as int),
                process_rows_ok(*self, *stage, status@, area, i as int, y as int)
                    == process_rows_ok(*self, *stage, status@, area, 0, y0 + 1),
            decreases n - i,
        {
            let ghost before = marks(ops@);
            let selected = self.selected_item == i;
            let check = if done { "[*]" } else if active && i < n / 2 { "[*]" } else if active { "[>]" } else { "[ ]" };
            let mut bullet = owned(if selected { ">>" } else { "  " });
            crate::text::push_str(&mut bullet, " ");
            crate::text::push_str(&mut bullet, check);
            crate::text::push_str(&mut bullet, " ");
            crate::text::push_str(&mut bullet, stage.processes[i].as_str());
            proof {
                assert(bullet@ =~= process_bullet(selected, status@, i as int, n as int, stage.processes@[i as int]@));
                if fits {
                    assert(cuts_cleanly(process_bullet(self.selected_item as int == i as int, status@, i as int, n as int, stage.processes@[i as int]@), tw as int));
                }
            }
            let style = if selected {
                Style::highlight(Color::White, Color::Rgb(50, 20, 60))
            } else if done || active && i < n / 2 {
                Style::fg(Color::Green)
            } else if active {
                Style::fg(Color::Yellow)
            } else {
                Style::fg(Color::DarkGray)
            };
            if !push_fitted_in(ops, area.x, y, bullet.as_str(), tw, style, Ghost(0), Ghost(area.x as int), Ghost(top), Ghost(bot)) {
                return None;
            }
            proof {
                let more = process_row_marks(*self, *stage, status@, area, i + 1, y + 1);
                assert(before + (marks(ops@).subrange(before.len() as int, marks(ops@).len() as int) + more) =~= marks(ops@) + more);
            }
            y = y + 1;
            i += 1;
        }
        assert(marks(ops@) =~= target);
        assert(process_rows_ok(*self, *stage, status@, area, i as int, y as int));
        Some(y + 1)
    }

    /// The `SCRIPTS` section, when there are scripts and room: per script a
    /// line with its file, function and last run, and a line of its
    /// parameters, while they fit, the selected one highlighted.
    fn script_rows(&self, stage: &StageInfo, area: Area, y0: u16, ops: &mut Vec<Draw>) -> (r: Option<u16>)
        requires
            fits_u16(area),
            area.x + 11 <= u16::MAX,
            area.y <= y0 <= area.bottom_edge() + 6,
            near_area(old(ops)@, 0, area),
        ensures
            near_area(final(ops)@, 0, area),
            r matches Some(y) ==> area.y <= y <= area.bottom_edge() + 6,
            r matches Some(y) ==> y == script_section_end(*stage, area, y0 as int),
            r is Some ==> marks(final(ops)@) == marks(old(ops)@) + script_section_marks(*self, *stage, area, y0 as int),
            r is Some <==> (shows_scripts(*stage, area, y0 as int) ==> script_rows_ok(*self, *stage, area, 0, y0 + 1)),
            forall|st: Seq<char>| !self.show_item_detail && #[trigger] stage_fits(*self, *stage, st, area.width as int) ==> r is Some,
    {
        let ghost fits = exists|st: Seq<char>| !self.show_item_detail && #[trigger] stage_fits(*self, *stage, st, area.width as int);
        let ghost top = sat_sub(area.y as int, 1);
        let ghost bot = area.bottom_edge() + 8;
        let ghost target = marks(ops@) + script_section_marks(*self, *stage, area, y0 as int);
        let bottom = area.bottom();
        let tw: usize = area.width as usize;
        let stop: u16 = if bottom >= 2 { bottom - 2 } else { 0 };
        let mut y = y0;
        if !((y as u32) + 2 < stop as u32 && stage.scripts.len() > 0) {
            assert(marks(ops@) =~= target);
            return Some(y);
        }
        push_text_in(ops, area.x + 1, y, "SCRIPTS", Style::heading(Color::Rgb(120, 200, 120)), Ghost(0), Ghost(area.x as int), Ghost(top), Ghost(bot));
        y = y + 1;
        let proc_count = stage.processes.len();
        let mut i: usize = 0;
        assert(marks(ops@) + script_row_marks(*self, *stage, area, 0, y as int) =~= target);
        while i < stage.scripts.len() && y + 2 < stop
            invariant
                fits_u16(area),
                bottom == area.bottom_edge(),
                stop <= bottom,
                top == sat_sub(area.y as int, 1),
                bot == area.bottom_edge() + 8,
                area.y <= y <= stop,
                proc_count == stage.processes@.len(),
                near_area(ops@, 0, area),
                tw == area.width,
                fits == exists|st: Seq<char>| !self.show_item_detail && #[trigger] stage_fits(*self, *stage, st, area.width as int),
                stop == sat_sub(area.bottom_edge() as int, 2),
                y0 + 2 < stop,
                stage.scripts@.len() > 0,
                marks(ops@) + script_row_marks(*self, *stage, area, i as int, y as int) == target,
                script_rows_end(*stage, area, i as int, y as int) == script_rows_end(*stage, area, 0, y0 + 1),
                script_rows_ok(*self, *stage, area, i as int, y as int) == script_rows_ok(*self, *stage, area, 0, y0 + 1),
            decreases stage.scripts@.len() - i,
        {
            let ghost (before, yi) = (marks(ops@), y as int);
            let sc = &stage.scripts[i];
            let selected = match proc_count.checked_add(i) {
                Some(idx) => self.selected_item == idx,
                None => false,
            };
            proof {
                if fits {
                    let st = choose|st: Seq<char>| !self.show_item_detail && #[trigger] stage_fits(*self, *stage, st, area.width as int);
                    assert(stage_fits(*self, *stage, st, area.width as int));
                    assert(stage.processes@.len() + stage.scripts@.len() <= usize::MAX);
                    assert(cuts_cleanly(script_line(stage.scripts@[i as int], self.selected_item as int == proc_count + i), tw as int));
                    assert(cuts_cleanly(params_line(stage.scripts@[i as int]), tw as int));
                    assert(selected == (self.selected_item as int == proc_count + i));
                }
            }
            let line = script_line_of(sc, selected);
            let style = if selected {
                Style::highlight(Color::White, Color::Rgb(30, 50, 30))
            } else {
                Style::fg(Color::Rgb(120, 200, 120))
            };
            if !push_fitted_in(ops, area.x, y, line.as_str(), tw, style, Ghost(0), Ghost(area.x as int), Ghost(top), Ghost(bot)) {
                return None;
            }
            y = y + 1;
            if sc.params.len() > 0 && y < stop {
                let pl = params_line_of(sc);
                let pstyle = if selected { Style::fg(Color::Rgb(150, 220, 150)) } else { Style::fg(Color::Rgb(60, 120, 60)) };
                if !push_fitted_in(ops, area.x, y, pl.as_str(), tw, pstyle, Ghost(0), Ghost(area.x as int), Ghost(top), Ghost(bot)) {
                    return None;
                }
                y = y + 1;
            }
            proof {
                let more = script_row_marks(*self, *stage, area, i + 1, y as int);
                let mine = marks(ops@).subrange(before.len() as int, marks(ops@).len() as int);
                assert(marks(ops@) =~= before + mine);
                assert(y == script_row_next(*stage, area, i as int, yi));
                assert(mine =~= script_row(*self, *stage, area, i as int, yi));
                assert(before + (mine + more) =~= marks(ops@) + more);
            }
            i += 1;
        }
        assert(marks(ops@) =~= target);
        assert(script_rows_ok(*self, *stage, area, i as int, y as int));
        Some(y + 1)
    }

    /// The `OUTPUTS` section, when there are outputs and room: a line per
    /// output while it fits above the last row.
    fn output_rows(&self, stage: &StageInfo, area: Area, y0: u16, ops: &mut Vec<Draw>) -> (r: Option<u16>)
        requires
            fits_u16(area),
            area.x + 11 <= u16::MAX,
            area.y <= y0 <= area.bottom_edge() + 6,
            near_area(old(ops)@, 0, area),
        ensures
            near_area(final(ops)@, 0, area),
            r matches Some(y) ==> area.y <= y <= area.bottom_edge() + 6,
            (forall|i: int| 0 <= i < stage.outputs@.len() ==> cuts_cleanly("  => "@ + (#[trigger] stage.outputs@[i])@, area.width as int)) ==> r is Some,
            r is Some ==> marks(final(ops)@) == marks(old(ops)@) + output_section_marks(*stage, area, y0 as int),
            r is Some <==> ((y0 + 2 < sat_sub(area.bottom_edge() as int, 1) && stage.outputs@.len() > 0)
                ==> lines_ok(output_lines(*stage), 0, y0 + 1, sat_sub(area.bottom_edge() as int, 1), area.width as int)),
    {
        let ghost top = sat_sub(area.y as int, 1);
        let ghost bot = area.bottom_edge() + 8;
        let ghost m0 = marks(ops@);
        let bottom = area.bottom();
        let tw: usize = area.width as usize;
        let stop: u16 = if bottom >= 1 { bottom - 1 } else { 0 };
        let mut y = y0;
        if !((y as u32) + 2 < stop as u32 && stage.outputs.len() > 0) {
            assert(marks(ops@) =~= m0 + output_section_marks(*stage, area, y0 as int));
            return Some(y);
        }
        push_text_in(ops, area.x + 1, y, "OUTPUTS", Style::heading(Color::Rgb(200, 200, 100)), Ghost(0), Ghost(area.x as int), Ghost(top), Ghost(bot));
        y = y + 1;
        let mut lines: Vec<String> = Vec::new();
        let mut i: usize = 0;
        while i < stage.outputs.len()
            invariant
                i <= stage.outputs@.len(),
                lines@.len() == i,
                forall|k: int| 0 <= k < i ==> (#[trigger] lines@[k])@ == "  => "@ + stage.outputs@[k]@,
            decreases stage.outputs@.len() - i,
        {
            let mut l = owned("  => ");
            crate::text::push_str(&mut l, stage.outputs[i].as_str());
            lines.push(l);
            i += 1;
        }
        proof {
            if forall|i: int| 0 <= i < stage.outputs@.len() ==> cuts_cleanly("  => "@ + (#[trigger] stage.outputs@[i])@, area.width as int) {
                assert forall|k: int| 0 <= k < lines@.len() implies cuts_cleanly(#[trigger] lines@[k]@, tw as int) by {
                    assert(cuts_cleanly("  => "@ + stage.outputs@[k]@, area.width as int));
                }
            }
        }
        assert(crate::json::views(lines@) =~= output_lines(*stage));
        let r = rows_of_lines(&lines, area, y, stop, tw, Style::fg(Color::Rgb(200, 200, 100)), ops);
        assert(r is Some ==> marks(ops@) =~= m0 + output_section_marks(*stage, area, y0 as int));
        r
    }

    /// The list of the items of `stage` from row `y0`: its processes,
    /// scripts and outputs; false where a line is cut inside a character.
    #[verifier::spinoff_prover]
    #[verifier::rlimit(40)]
    fn list_rows(&self, stage: &StageInfo, status: &str, area: Area, y0: u16, ops: &mut Vec<Draw>) -> (ok: bool)
        requires
            fits_u16(area),
            area.x + 11 <= u16::MAX,
            area.y <= y0 <= area.bottom_edge() + 4,
            near_area(old(ops)@, 0, area),
        ensures
            near_area(final(ops)@, 0, area),
            ok ==> marks(final(ops)@) == marks(old(ops)@) + stage_list_marks(*self, *stage, status@, area, y0 as int),
            ok == stage_list_ok(*self, *stage, status@, area, y0 as int),
            !self.show_item_detail && stage_fits(*self, *stage, status@, area.width as int) && y0 + 2 <= u16::MAX ==> ok,
    {
        let ghost m0 = marks(ops@);
        let y = match self.process_rows(stage, status, area, y0, ops) {
            Some(y) => y,
            None => {
                return false;
            },
        };
        proof {
            if !self.show_item_detail && stage_fits(*self, *stage, status@, area.width as int) && y0 + 2 <= u16::MAX {
                assert(stage_fits(*self, *stage, status@, area.width as int));
            }
        }
        let y = match self.script_rows(stage, area, y, ops) {
            Some(y) => y,
            None => {
                return false;
            },
        };
        if self.output_rows(stage, area, y, ops).is_none() {
            return false;
        }
        assert(marks(ops@) =~= m0 + stage_list_marks(*self, *stage, status@, area, y0 as int));
        true
    }

    /// Draws the detail of `stage` over `area`, for a paper whose status for
    /// the stage is `prop_status` (pending when it has none): its header and
    /// progress bar, its metrics and a separator; then either the detail of
    /// the selected item, or its processes, scripts and outputs, as many as
    /// fit; and a hint on the last row. Nothing where a text would be cut
    /// inside a character or a column or row would pass `u16::MAX`.
    #[verifier::spinoff_prover]
    #[verifier::rlimit(40)]
    pub fn render_stage_detail(&self, stage: &StageInfo, prop_status: Option<&str>, area: Area) -> (r: Option<Vec<Draw>>)
        requires
            fits_u16(area),
        ensures
            r matches Some(ops) ==> stage_detail_drawn(ops@, *self, *stage,
                status_or_pending(match prop_status { Some(s) => Some(s@), None => None }), area),
            r matches Some(ops) ==> marks(ops@) == stage_detail_marks(*self, *stage,
                status_or_pending(match prop_status { Some(s) => Some(s@), None => None }), area),
            r is Some <==> stage_detail_ok(*self, *stage,
                status_or_pending(match prop_status { Some(s) => Some(s@), None => None }), area),
    {
        let ghost top = sat_sub(area.y as int, 1);
        let ghost bot = area.bottom_edge() + 8;
        let status: &str = match prop_status {
            Some(s) => s,
            None => "pending",
        };
        proof {
            reveal_strlit("pending");
        }
        let mut ops: Vec<Draw> = Vec::new();
        let y = match self.stage_top(stage, status, area, &mut ops) {
            Some(y) => y,
            None => {
                return None;
            },
        };
        let mut rest: Vec<Draw> = Vec::new();
        let hint: &str = if self.show_item_detail {
            if self.ground_truth_rows(stage, status, area, y, &mut rest).is_none() {
                return None;
            }
            "<-/-> stage  |  up/down item  |  Enter close detail  |  ESC close"
        } else {
            if !self.list_rows(stage, status, area, y, &mut rest) {
                return None;
            }
            "<-/-> stage  |  up/down item  |  Enter ground truth  |  ESC close"
        };
        let bottom = area.bottom();
        let hlen: u16 = byte_length(hint) as u16;
        proof {
            if self.show_item_detail {
                reveal_strlit("<-/-> stage  |  up/down item  |  Enter close detail  |  ESC close");
            } else {
                reveal_strlit("<-/-> stage  |  up/down item  |  Enter ground truth  |  ESC close");
            }
            crate::draw::lemma_ascii_byte_len(hint@);
        }
        let hx = area.x + (if area.width > hlen { area.width - hlen } else { 0 }) / 2;
        let hy: u16 = if bottom >= 1 { bottom - 1 } else { 0 };
        push_text_in(&mut rest, hx, hy, hint, Style::italic(Color::DarkGray), Ghost(0), Ghost(area.x as int), Ghost(top), Ghost(bot));
        let ghost (t0, r0) = (ops@, rest@);
        ops.append(&mut rest);
        proof {
            assert(ops@ =~= t0 + r0);
            crate::draw::lemma_drawn_within_append(t0, r0, 0, area.x as int, top, bot, top, bot);
            crate::draw::lemma_marks_append(t0, r0);
            assert(marks(ops@) =~= stage_detail_marks(*self, *stage, status@, area));
        }
        Some(ops)
    }
}


/// The line under the overall progress: code, source, priority and last activity.
pub open spec fn paper_info(p: crate::pipeline::ActivePaper) -> Seq<char> {
    "  "@ + p.code@ + " | "@ + p.source@ + " | P:"@ + p.priority.whole_text@ + " | "@ + p.last_activity@
}

/// Whether `ops` is the stage detail view over `area` (which has room for
/// it) once the status file was read: the box; the flow of the first paper
/// with the selected stage highlighted; its overall progress, its info line
/// and a separator; then the detail of the selected stage, if there is one.
pub open spec fn detail_view_drawn(ops: Seq<Draw>, plane: PaperPipelinePlane, area: Area) -> bool {
    let inner = inside_borders(area);
    &&& ops.len() >= 1
    &&& frame_at(ops[0], area, " Research Pipeline -- Stage Detail View "@, title_style(), screen_border_style())
    &&& plane.data.papers@.len() == 0 ==> ops.len() == 1
    &&& plane.data.papers@.len() > 0 ==> exists|m: int, rows: u16| {
        let p = plane.data.papers@[0];
        let y = inner.y + rows + 1;
        let info = utf8(paper_info(p));
        &&& #[trigger] flow_drawn(ops.subrange(1, 1 + m), rows, plane.data.papers@[0], inside_borders(area).x,
                inside_borders(area).right_edge(), inside_borders(area).y, Some(plane.selected_stage))
        &&& ops.len() >= 5 + m
        &&& text_at(ops[1 + m], (inner.x + 1) as u16, y as u16, "Overall: "@,
                Style { fg: Some(Color::White), bg: None, bold: true, italic: false, underlined: false })
        &&& ops[2 + m] == (Draw::Progress {
                x: (inner.x + 10) as u16,
                y: y as u16,
                width: if 40 < inner.width - 12 { 40u16 } else { (inner.width - 12) as u16 },
                done: done_count(p.stages@) as u64,
                total: if p.stages@.len() > 1 { p.stages@.len() as u64 } else { 1u64 },
                style: Style { fg: Some(Color::Magenta), bg: None, bold: false, italic: false, underlined: false },
            })
        &&& text_bytes_at(ops[3 + m], inner.x, (y + 1) as u16,
                cut_bytes(info, if info.len() < inner.width { info.len() as int } else { inner.width as int })->0,
                Style { fg: Some(Color::DarkGray), bg: None, bold: false, italic: false, underlined: false })
        &&& text_at(ops[4 + m], inner.x, (y + 3) as u16, crate::draw::repeated('=', inner.width as nat),
                Style { fg: Some(Color::Rgb(80, 40, 100)), bg: None, bold: false, italic: false, underlined: false })
        &&& plane.selected_stage >= plane.data.stages@.len() ==> ops.len() == 5 + m
        &&& plane.selected_stage < plane.data.stages@.len() ==> stage_detail_drawn(ops.skip(5 + m), plane,
                plane.data.stages@[plane.selected_stage as int],
                status_or_pending(if plane.selected_stage < p.stages@.len() {
                    Some(p.stages@[plane.selected_stage as int].1.status@)
                } else {
                    None
                }),
                crate::draw::area_new((inner.x + 1) as u16, (y + 4) as u16, sat_sub(inner.width as int, 2) as u16,
                    sat_sub(inner.bottom_edge() as int, y + 4) as u16))
        &&& plane.selected_stage < plane.data.stages@.len() ==> marks(ops.skip(5 + m)) == stage_detail_marks(plane,
                plane.data.stages@[plane.selected_stage as int],
                status_or_pending(if plane.selected_stage < p.stages@.len() {
                    Some(p.stages@[plane.selected_stage as int].1.status@)
                } else {
                    None
                }),
                crate::draw::area_new((inner.x + 1) as u16, (y + 4) as u16, sat_sub(inner.width as int, 2) as u16,
                    sat_sub(inner.bottom_edge() as int, y + 4) as u16))
    }
}

/// Whether the stage detail view over `area` (which has room for it) can be
/// drawn once the status file was read: the first paper's flow header and
/// info line cut between characters, and the selected stage's detail can be
/// drawn.
pub open spec fn detail_view_ok(plane: PaperPipelinePlane, area: Area) -> bool {
    let inner = inside_borders(area);
    plane.data.papers@.len() > 0 ==> {
        let p = plane.data.papers@[0];
        let sel = plane.selected_stage as int;
        let y = inner.y + crate::pipeline_view::flow_rows(p) + 1;
        &&& crate::pipeline_view::flow_header_cut(p, inner.width as int) is Some
        &&& cut_bytes(utf8(paper_info(p)), if byte_len(paper_info(p)) < inner.width { byte_len(paper_info(p)) as int }
                else { inner.width as int }) is Some
        &&& sel < plane.data.stages@.len() ==> stage_detail_ok(plane, plane.data.stages@[sel],
                status_or_pending(if sel < p.stages@.len() { Some(p.stages@[sel].1.status@) } else { None }),
                crate::draw::area_new((inner.x + 1) as u16, (y + 4) as u16, sat_sub(inner.width as int, 2) as u16,
                    sat_sub(inner.bottom_edge() as int, y + 4) as u16))
    }
}

/// The info line of a paper.
fn paper_info_of(p: &crate::pipeline::ActivePaper) -> (r: String)
    ensures
        r@ == paper_info(*p),
{
    let mut l = owned("  ");
    crate::text::push_str(&mut l, p.code.as_str());
    crate::text::push_str(&mut l, " | ");
    crate::text::push_str(&mut l, p.source.as_str());
    crate::text::push_str(&mut l, " | P:");
    crate::text::push_str(&mut l, p.priority.whole_text.as_str());
    crate::text::push_str(&mut l, " | ");
    crate::text::push_str(&mut l, p.last_activity.as_str());
    l
}

impl PaperPipelinePlane {
    /// Draws the stage detail view over `area`: the pipeline screen instead
    /// before the status file was read or when the area is smaller than 40
    /// by 10. Nothing where a text would be cut inside a character or a
    /// column or row would pass `u16::MAX`.
    #[verifier::rlimit(40)]
    #[verifier::spinoff_prover]
    pub fn render_detail(&self, area: Area) -> (r: Option<Vec<Draw>>)
        requires
            fits_u16(area),
        ensures
            !self.loaded || area.height < 10 || area.width < 40 ==> pipeline_screen_drawn(r, *self, area),
            !(!self.loaded || area.height < 10 || area.width < 40) ==> (r matches Some(ops) ==> detail_view_drawn(ops@, *self, area)),
            !(!self.loaded || area.height < 10 || area.width < 40) ==> (r is Some <==> detail_view_ok(*self, area)),
            (!self.loaded || area.height < 10 || area.width < 40) ==> (r is Some <==> crate::pipeline_view::pipeline_ok(*self, area)),
    {
        if !self.loaded || area.height < 10 || area.width < 40 {
            return self.render(area);
        }
        let mut ops: Vec<Draw> = Vec::new();
        push_frame(&mut ops, area, owned(" Research Pipeline -- Stage Detail View "), Style::bold(Color::Magenta), Style::fg(Color::Rgb(80, 40, 100)));
        let inner = bordered_inner(area);
        if self.data.papers.len() == 0 {
            return Some(ops);
        }
        let paper = &self.data.papers[0];
        assert(inner.right_edge() - inner.x == inner.width);
        let (mut flow, rows) = match self.render_pipeline_flow(paper, inner.left(), inner.right(), inner.top(), Some(self.selected_stage)) {
            Some(f) => f,
            None => {
                return None;
            },
        };
        let ghost m = flow@.len() as int;
        let ghost f0 = flow@;
        ops.append(&mut flow);
        let y = inner.top() + rows + 1;
        let mut tail: Vec<Draw> = Vec::new();
        crate::draw::push_text(&mut tail, inner.left() + 1, y, "Overall: ", Style::bold(Color::White));
        let ghost op0 = tail@[0];
        let done = crate::pipeline_view::count_done_of(&paper.stages);
        let n = paper.stages.len();
        let total: u64 = if n > 1 { n as u64 } else { 1 };
        let bw: u16 = if 40 < inner.width - 12 { 40 } else { inner.width - 12 };
        tail.push(Draw::Progress { x: inner.left() + 10, y, width: bw, done: done as u64, total, style: Style::fg(Color::Magenta) });
        let ghost op1 = tail@[1];
        assert(tail@[0] == op0);
        let info = paper_info_of(paper);
        let ilen = byte_length(info.as_str());
        let icut: usize = if ilen < inner.width as usize { ilen } else { inner.width as usize };
        if !crate::draw::push_cut_text(&mut tail, inner.left(), y + 1, info.as_str(), icut, Style::fg(Color::DarkGray)) {
            return None;
        }
        assert(tail@[0] == tail@.take(2)[0]);
        assert(tail@[1] == tail@.take(2)[1]);
        let ghost op2 = tail@[2];
        let sep = crate::draw::repeat_char('=', inner.width as usize);
        crate::draw::push_text(&mut tail, inner.left(), y + 3, sep.as_str(), Style::fg(Color::Rgb(80, 40, 100)));
        assert(tail@[0] == tail@.take(3)[0]);
        assert(tail@[1] == tail@.take(3)[1]);
        assert(tail@[2] == tail@.take(3)[2]);
        let ghost t0 = tail@;
        assert(t0.len() == 4);
        let y = y + 4;
        let sel = self.selected_stage;
        let mut detail: Vec<Draw> = Vec::new();
        if sel < self.data.stages.len() {
            let prop_status: Option<&str> = if sel < paper.stages.len() { Some(paper.stages[sel].1.status.as_str()) } else { None };
            let bottom = inner.bottom();
            let darea = new_area(inner.left() + 1, y, if inner.width >= 2 { inner.width - 2 } else { 0 },
                if bottom >= y { bottom - y } else { 0 });
            detail = match self.render_stage_detail(&self.data.stages[sel], prop_status, darea) {
                Some(d) => d,
                None => {
                    return None;
                },
            };
        }
        let ghost d0 = detail@;
        let ghost before = ops@;
        ops.append(&mut tail);
        ops.append(&mut detail);
        proof {
            assert(before == seq![before[0]] + f0);
            assert(ops@ =~= before + t0 + d0);
            assert(ops@.subrange(1, 1 + m) =~= f0);
            assert(ops@.skip(5 + m) =~= d0);
            assert(ops@[1 + m] == t0[0]);
            assert(ops@[2 + m] == t0[1]);
            assert(ops@[3 + m] == t0[2]);
            assert(ops@[4 + m] == t0[3]);
            assert(flow_drawn(ops@.subrange(1, 1 + m), rows, *paper, inner.x, inner.right_edge(), inner.y,
                Some(self.selected_stage)));
            let ops_s = ops@;
            let pp = self.data.papers@[0];
            let yy = inner.y + rows + 1;
            let info_b = utf8(paper_info(pp));
            assert(ops_s.len() >= 5 + m);
            assert(text_at(ops_s[1 + m], (inner.x + 1) as u16, yy as u16, "Overall: "@,
                Style { fg: Some(Color::White), bg: None, bold: true, italic: false, underlined: false }));
            assert(text_bytes_at(ops_s[3 + m], inner.x, (yy + 1) as u16,
                cut_bytes(info_b, if info_b.len() < inner.width { info_b.len() as int } else { inner.width as int })->0,
                Style { fg: Some(Color::DarkGray), bg: None, bold: false, italic: false, underlined: false }));
            assert(text_at(ops_s[4 + m], inner.x, (yy + 3) as u16, crate::draw::repeated('=', inner.width as nat),
                Style { fg: Some(Color::Rgb(80, 40, 100)), bg: None, bold: false, italic: false, underlined: false }));
        }
        Some(ops)
    }
}

} // verus!
