use vstd::prelude::*;

use crate::draw::{
    append, bordered_inner, byte_len, byte_length, cut_bytes, decimal, drawn_within, frame_at,
    inside_borders, marks, push_cut_text, push_decimal, push_frame, push_repeated, push_text, repeated,
    sat_sub, spaces, text_at, text_bytes_at, text_mark, Area, Draw, Mark,
};
use crate::json::views;
use crate::pipeline::{ActivePaper, ComponentInfo, PaperPipelinePlane, PipelineData};
use crate::style::{bold_in, italic_in, plain_in, Color, Style};
use crate::text::{owned, push_char, str_eq, utf8};

verus! {

/// The color of a stage status: done green, active yellow, pending dark
/// gray, anything else gray.
pub open spec fn status_color(status: Seq<char>) -> Color {
    if status == "done"@ {
        Color::Green
    } else if status == "active"@ {
        Color::Yellow
    } else if status == "pending"@ {
        Color::DarkGray
    } else {
        Color::Gray
    }
}

/// The one-character icon of a stage status: `*` done, `>` active, `o`
/// pending, `?` anything else.
pub open spec fn status_icon(status: Seq<char>) -> Seq<char> {
    if status == "done"@ {
        "*"@
    } else if status == "active"@ {
        ">"@
    } else if status == "pending"@ {
        "o"@
    } else {
        "?"@
    }
}

/// The short name under which the flow shows a stage.
pub open spec fn short_stage_label(id: Seq<char>) -> Seq<char> {
    if id == "SCOUT"@ {
        "SCOUT"@
    } else if id == "EVALUATE"@ {
        "EVAL"@
    } else if id == "READ"@ {
        "READ"@
    } else if id == "PROTOTYPE"@ {
        "PROTO"@
    } else if id == "INTEGRATE"@ {
        "INTEG"@
    } else if id == "DOCUMENT"@ {
        "DOC"@
    } else if id == "VERIFY"@ {
        "VERFY"@
    } else if id == "YBR_DOCS"@ {
        "YBR"@
    } else {
        id
    }
}

impl PaperPipelinePlane {
    /// The color of a stage status.
    pub fn stage_color(status: &str) -> (r: Color)
        ensures
            r == status_color(status@),
    {
        if str_eq(status, "done") {
            Color::Green
        } else if str_eq(status, "active") {
            Color::Yellow
        } else if str_eq(status, "pending") {
            Color::DarkGray
        } else {
            Color::Gray
        }
    }

    /// The icon of a stage status.
    pub fn stage_icon(status: &str) -> (r: &'static str)
        ensures
            r@ == status_icon(status@),
    {
        if str_eq(status, "done") {
            "*"
        } else if str_eq(status, "active") {
            ">"
        } else if str_eq(status, "pending") {
            "o"
        } else {
            "?"
        }
    }
}

/// The short name of a stage.
pub fn stage_label_of(id: &str) -> (r: String)
    ensures
        r@ == short_stage_label(id@),
{
    if str_eq(id, "SCOUT") {
        owned("SCOUT")
    } else if str_eq(id, "EVALUATE") {
        owned("EVAL")
    } else if str_eq(id, "READ") {
        owned("READ")
    } else if str_eq(id, "PROTOTYPE") {
        owned("PROTO")
    } else if str_eq(id, "INTEGRATE") {
        owned("INTEG")
    } else if str_eq(id, "DOCUMENT") {
        owned("DOC")
    } else if str_eq(id, "VERIFY") {
        owned("VERFY")
    } else if str_eq(id, "YBR_DOCS") {
        owned("YBR")
    } else {
        owned(id)
    }
}

// ---------------------------------------------------------------------------
// The flow of a paper through the stages:
//
//  [code] name (P:priority)
//  +-------+   +-------+
//  |*SCOUT |==>| >EVAL |==> ...
//  +-------+   +-------+

/// The width inside the borders of each box of a flow of `n` boxes across
/// `tw` columns: what is left after the arrows and a margin, shared out, and
/// kept between 5 and 9.
pub open spec fn box_inner_width(n: int, tw: int) -> int {
    let q = sat_sub(tw, (n - 1) * 3 + 2) / n;
    if q < 5 { 5 } else if q > 9 { 9 } else { q }
}

/// The column of box `i` of a flow that starts at column `left`: one column
/// in, then a box of `outer` columns and an arrow of three per box before it.
pub open spec fn box_column(left: int, outer: int, i: int) -> int
    decreases i,
{
    if i <= 0 { left + 1 } else { box_column(left, outer, i - 1) + outer + 3 }
}

/// Every box starts right of the flow's left column.
pub proof fn lemma_box_column_right_of_left(left: int, outer: int, i: int)
    requires
        outer >= 0,
    ensures
        box_column(left, outer, i) >= left + 1,
    decreases i,
{
    if i > 0 {
        lemma_box_column_right_of_left(left, outer, i - 1);
    }
}

/// Whether box `i` of the flow ends within column `right`.
pub open spec fn box_fits(left: int, right: int, outer: int, i: int) -> bool {
    box_column(left, outer, i) + outer <= right
}

/// Whether `k` of `n` boxes are shown: the first boxes up to the first that
/// would not fit.
pub open spec fn boxes_shown(k: int, n: int, left: int, right: int, outer: int) -> bool {
    &&& 0 <= k <= n
    &&& forall|i: int| 0 <= i < k ==> #[trigger] box_fits(left, right, outer, i)
    &&& k < n ==> !box_fits(left, right, outer, k)
}

/// The top and bottom border of a box: `+---+`.
pub open spec fn border_text(inner: nat) -> Seq<char> {
    seq!['+'] + repeated('-', inner) + seq!['+']
}

/// The style of a box border: white and bold for the highlighted box.
pub open spec fn border_style(highlighted: bool) -> Style {
    if highlighted {
        Style { fg: Some(Color::White), bg: None, bold: true, italic: false, underlined: false }
    } else {
        Style { fg: Some(Color::DarkGray), bg: None, bold: false, italic: false, underlined: false }
    }
}

/// The middle line of a box: the status icon and the stage's short name,
/// centred between bars (any odd space going to the right).
pub open spec fn cell_text(status: Seq<char>, label: Seq<char>, inner: int) -> Seq<char> {
    let content = status_icon(status) + label;
    let pad = sat_sub(inner, byte_len(content) as int);
    seq!['|'] + spaces((pad / 2) as nat) + content + spaces((pad - pad / 2) as nat) + seq!['|']
}

/// The style of the middle line of a box.
pub open spec fn cell_style(highlighted: bool, status: Seq<char>) -> Style {
    if highlighted {
        Style { fg: Some(Color::White), bg: Some(Color::Rgb(50, 20, 60)), bold: true, italic: false, underlined: false }
    } else if status == "active"@ {
        Style { fg: Some(status_color(status)), bg: None, bold: true, italic: false, underlined: false }
    } else {
        Style { fg: Some(status_color(status)), bg: None, bold: false, italic: false, underlined: false }
    }
}

/// The style of the arrow after a box: green after a finished stage.
pub open spec fn arrow_style(status: Seq<char>) -> Style {
    Style {
        fg: Some(if status == "done"@ { Color::Green } else { Color::DarkGray }),
        bg: None,
        bold: false,
        italic: false,
        underlined: false,
    }
}

/// The paper's name as the flow header shows it across `tw` columns: cut
/// and marked with `..` when it is too long (nothing where the cut falls
/// inside a character).
pub open spec fn flow_name_bytes(name: Seq<char>, tw: int) -> Option<Seq<u8>> {
    if byte_len(name) > sat_sub(tw, 20) {
        let n = if sat_sub(tw, 22) < byte_len(name) { sat_sub(tw, 22) } else { byte_len(name) as int };
        match cut_bytes(utf8(name), n) {
            Some(b) => Some(b + utf8(".."@)),
            None => None,
        }
    } else {
        Some(utf8(name))
    }
}

/// The flow header before it is cut to the width: ` [code] name (P:priority)`.
pub open spec fn flow_header_bytes(p: ActivePaper, tw: int) -> Option<Seq<u8>> {
    match flow_name_bytes(p.name@, tw) {
        Some(nb) => Some(utf8(" ["@) + utf8(p.code@) + utf8("] "@) + nb + utf8(" (P:"@)
            + utf8(p.priority.whole_text@) + utf8(")"@)),
        None => None,
    }
}

/// The flow header as drawn: cut to the width.
pub open spec fn flow_header_cut(p: ActivePaper, tw: int) -> Option<Seq<u8>> {
    match flow_header_bytes(p, tw) {
        Some(h) => cut_bytes(h, if (h.len() as int) < tw { h.len() as int } else { tw }),
        None => None,
    }
}

/// Whether `ops` draws, after the header, the first `k` boxes of the flow
/// of `p` at rows `y + 1` to `y + 3`: the top borders, the middle lines
/// each followed by its arrow when another stage follows, the bottom
/// borders.
pub open spec fn flow_boxes_with(
    ops: Seq<Draw>,
    p: ActivePaper,
    left: int,
    right: int,
    y: int,
    highlight: Option<usize>,
    k: int,
) -> bool {
    let n = p.stages@.len() as int;
    let inner = box_inner_width(n, right - left);
    let outer = inner + 2;
    let arrows = if n == 0 { 0 } else { n - 1 };
    let mid = k + if k < arrows { k } else { arrows };
    &&& boxes_shown(k, n, left, right, outer)
    &&& ops.len() == 1 + k + mid + k
    &&& forall|i: int| 0 <= i < k ==> {
        let x = box_column(left, outer, i) as u16;
        let hl = highlight == Some(i as usize);
        let status = (#[trigger] p.stages@[i]).1.status@;
        &&& text_at(ops[1 + i], x, (y + 1) as u16, border_text(inner as nat), border_style(hl))
        &&& text_at(ops[1 + k + 2 * i], x, (y + 2) as u16,
                cell_text(status, short_stage_label(p.stages@[i].0@), inner), cell_style(hl, status))
        &&& i < arrows ==> text_at(ops[1 + k + 2 * i + 1], (box_column(left, outer, i) + outer) as u16,
                (y + 2) as u16, "==>"@, arrow_style(status))
        &&& text_at(ops[1 + k + mid + i], x, (y + 3) as u16, border_text(inner as nat), border_style(hl))
    }
}

/// Whether `ops` draws the boxes of the flow of `p` at rows `y + 1` to
/// `y + 3`, after the header: each row shows the first `k` boxes, for the
/// `k` boxes that fit.
pub open spec fn flow_boxes_drawn(
    ops: Seq<Draw>,
    p: ActivePaper,
    left: int,
    right: int,
    y: int,
    highlight: Option<usize>,
) -> bool {
    exists|k: int| #[trigger] flow_boxes_with(ops, p, left, right, y, highlight, k)
}

/// The header line of a flow: the paper's code, name and priority, cut to
/// the width, at column `left` of row `y`.
fn flow_header(p: &ActivePaper, left: u16, y: u16, tw: usize) -> (r: Option<Draw>)
    ensures
        r is Some <==> flow_header_cut(*p, tw as int) is Some,
        r matches Some(op) ==> text_bytes_at(op, left, y, flow_header_cut(*p, tw as int)->0,
            Style { fg: Some(Color::Magenta), bg: None, bold: true, italic: false, underlined: false }),
{
    let name_len = byte_length(p.name.as_str());
    let limit_full: usize = if tw >= 20 { tw - 20 } else { 0 };
    let mut header = owned(" [");
    append(&mut header, p.code.as_str());
    append(&mut header, "] ");
    if name_len > limit_full {
        let keep: usize = if tw >= 22 { tw - 22 } else { 0 };
        let keep: usize = if keep < name_len { keep } else { name_len };
        match crate::draw::byte_prefix(p.name.as_str(), keep) {
            Some(cut) => {
                append(&mut header, cut.as_str());
                append(&mut header, "..");
            },
            None => {
                return None;
            },
        }
    } else {
        append(&mut header, p.name.as_str());
    }
    append(&mut header, " (P:");
    append(&mut header, p.priority.whole_text.as_str());
    append(&mut header, ")");
    assert(flow_header_bytes(*p, tw as int) == Some(utf8(header@)));
    let hlen = byte_length(header.as_str());
    let hcut: usize = if hlen < tw { hlen } else { tw };
    let mut ops: Vec<Draw> = Vec::new();
    if !push_cut_text(&mut ops, left, y, header.as_str(), hcut, Style::bold(Color::Magenta)) {
        return None;
    }
    Some(ops.pop().unwrap())
}

/// How many boxes of `outer` columns fit between `left` and `right`, of `n`.
fn boxes_that_fit(n: usize, left: u16, right: u16, outer: usize) -> (k: usize)
    requires
        left <= right,
        7 <= outer <= 11,
    ensures
        boxes_shown(k as int, n as int, left as int, right as int, outer as int),
{
    let mut k: usize = 0;
    let mut x: usize = left as usize + 1;
    while k < n && x + outer <= right as usize
        invariant
            k <= n,
            x as int == box_column(left as int, outer as int, k as int),
            x <= right + 3,
            7 <= outer <= 11,
            forall|j: int| 0 <= j < k ==> #[trigger] box_fits(left as int, right as int, outer as int, j),
        decreases n - k,
    {
        x = x + outer + 3;
        k += 1;
    }
    k
}

/// The top or bottom borders of the first `k` boxes, at row `y`.
fn border_row(k: usize, n: usize, left: u16, right: u16, outer: usize, y: u16, highlight: Option<usize>) -> (r: Vec<Draw>)
    requires
        left <= right,
        7 <= outer <= 11,
        boxes_shown(k as int, n as int, left as int, right as int, outer as int),
    ensures
        r@.len() == k,
        forall|j: int| 0 <= j < k ==> text_at(#[trigger] r@[j], box_column(left as int, outer as int, j) as u16, y,
            border_text((outer - 2) as nat), border_style(highlight == Some(j as usize))),
        drawn_within(r@, 0, left as int, y as int, y + 1),
{
    let mut border = String::new();
    push_char(&mut border, '+');
    push_repeated(&mut border, '-', outer - 2);
    push_char(&mut border, '+');
    assert(border@ =~= border_text((outer - 2) as nat));
    let mut ops: Vec<Draw> = Vec::new();
    let mut i: usize = 0;
    let mut x: usize = left as usize + 1;
    while i < k
        invariant
            i <= k <= n,
            boxes_shown(k as int, n as int, left as int, right as int, outer as int),
            x as int == box_column(left as int, outer as int, i as int),
            7 <= outer <= 11,
            border@ == border_text((outer - 2) as nat),
            ops@.len() == i,
            forall|j: int| 0 <= j < i ==> text_at(#[trigger] ops@[j], box_column(left as int, outer as int, j) as u16, y,
                border_text((outer - 2) as nat), border_style(highlight == Some(j as usize))),
        decreases k - i,
    {
        assert(box_fits(left as int, right as int, outer as int, i as int));
        let hl = match highlight { Some(h) => h == i, None => false };
        let style = if hl { Style::bold(Color::White) } else { Style::fg(Color::DarkGray) };
        let ghost before = ops@;
        crate::draw::push_text(&mut ops, x as u16, y, border.as_str(), style);
        assert forall|j: int| 0 <= j < i + 1 implies text_at(#[trigger] ops@[j], box_column(left as int, outer as int, j) as u16, y,
            border_text((outer - 2) as nat), border_style(highlight == Some(j as usize))) by {
            if j < i {
                assert(ops@[j] == ops@.take(i as int)[j]);
            }
        }
        x = x + outer + 3;
        i += 1;
    }
    assert forall|j: int| 0 <= j < ops@.len() implies left <= (#[trigger] ops@[j]).column() && y <= ops@[j].row() < y + 1 by {
        lemma_box_column_right_of_left(left as int, outer as int, j);
        assert(box_fits(left as int, right as int, outer as int, j));
    }
    ops
}

/// The middle line of a box, for a stage with `status` and short name `label`.
fn flow_cell(status: &str, id: &str, inner: usize) -> (r: String)
    ensures
        r@ == cell_text(status@, short_stage_label(id@), inner as int),
{
    let mut content = owned(PaperPipelinePlane::stage_icon(status));
    let label = stage_label_of(id);
    append(&mut content, label.as_str());
    let clen = byte_length(content.as_str());
    let pad: usize = if inner > clen { inner - clen } else { 0 };
    let mut cell = String::new();
    push_char(&mut cell, '|');
    push_repeated(&mut cell, ' ', pad / 2);
    crate::text::push_str(&mut cell, content.as_str());
    push_repeated(&mut cell, ' ', pad - pad / 2);
    push_char(&mut cell, '|');
    assert(cell@ =~= cell_text(status@, short_stage_label(id@), inner as int));
    cell
}

/// Whether `ops` holds, from position `2 * j` on, the label of box `j` of
/// the flow of `p` at row `y`, then the arrow to the next box when there is
/// a next stage.
pub open spec fn label_entry(ops: Seq<Draw>, p: ActivePaper, j: int, left: int, outer: int, y: u16, highlight: Option<usize>) -> bool {
    let status = p.stages@[j].1.status@;
    let hl = highlight == Some(j as usize);
    &&& text_at(ops[2 * j], box_column(left, outer, j) as u16, y,
        cell_text(status, short_stage_label(p.stages@[j].0@), outer - 2), cell_style(hl, status))
    &&& j < p.stages@.len() - 1 ==> text_at(ops[2 * j + 1], (box_column(left, outer, j) + outer) as u16, y, "==>"@,
        arrow_style(status))
}

/// Whether `ops` holds the middle line of the first `k` boxes of the flow of
/// `p` at row `y`: for each box its label, then the arrow to the next box
/// when there is a next stage.
pub open spec fn label_row_drawn(ops: Seq<Draw>, p: ActivePaper, k: int, left: int, outer: int, y: u16, highlight: Option<usize>) -> bool {
    let arrows = p.stages@.len() - 1;
    &&& ops.len() == k + if k < arrows { k } else { arrows }
    &&& forall|j: int| 0 <= j < k ==> #[trigger] label_entry(ops, p, j, left, outer, y, highlight)
}

/// The middle line of the first `k` boxes of the flow of `p`, at row `y`.
fn label_row(p: &ActivePaper, k: usize, left: u16, right: u16, outer: usize, y: u16, highlight: Option<usize>) -> (r: Vec<Draw>)
    requires
        left <= right,
        7 <= outer <= 11,
        p.stages@.len() > 0,
        boxes_shown(k as int, p.stages@.len() as int, left as int, right as int, outer as int),
    ensures
        label_row_drawn(r@, *p, k as int, left as int, outer as int, y, highlight),
        drawn_within(r@, 0, left as int, y as int, y + 1),
{
    let n = p.stages.len();
    let ghost arrows: int = n - 1;
    let mut ops: Vec<Draw> = Vec::new();
    let mut i: usize = 0;
    let mut x: usize = left as usize + 1;
    while i < k
        invariant
            n == p.stages@.len(),
            i <= k <= n,
            arrows == n - 1,
            boxes_shown(k as int, n as int, left as int, right as int, outer as int),
            x as int == box_column(left as int, outer as int, i as int),
            7 <= outer <= 11,
            ops@.len() == i + if (i as int) < arrows { i as int } else { arrows },
            forall|j: int| 0 <= j < i ==> #[trigger] label_entry(ops@, *p, j, left as int, outer as int, y, highlight),
        decreases k - i,
    {
        assert(box_fits(left as int, right as int, outer as int, i as int));
        let status = p.stages[i].1.status.as_str();
        let hl = match highlight { Some(h) => h == i, None => false };
        let color = PaperPipelinePlane::stage_color(status);
        let cell = flow_cell(status, p.stages[i].0.as_str(), outer - 2);
        let style = if hl {
            Style::highlight(Color::White, Color::Rgb(50, 20, 60))
        } else if str_eq(status, "active") {
            Style::bold(color)
        } else {
            Style::fg(color)
        };
        let ghost before = ops@;
        crate::draw::push_text(&mut ops, x as u16, y, cell.as_str(), style);
        if i < n - 1 {
            let acolor = if str_eq(status, "done") { Color::Green } else { Color::DarkGray };
            crate::draw::push_text(&mut ops, (x + outer) as u16, y, "==>", Style::fg(acolor));
        }
        proof {
            assert(ops@.take(before.len() as int) =~= before) by {
                if i < n - 1 {
                    assert(ops@.take(before.len() as int) == ops@.take((before.len() + 1) as int).take(before.len() as int));
                }
            }
            assert forall|j: int| 0 <= j < i + 1 implies #[trigger] label_entry(ops@, *p, j, left as int, outer as int, y, highlight) by {
                if j < i {
                    assert(label_entry(before, *p, j, left as int, outer as int, y, highlight));
                    assert(ops@[2 * j] == ops@.take(before.len() as int)[2 * j]);
                    if j < arrows {
                        assert(ops@[2 * j + 1] == ops@.take(before.len() as int)[2 * j + 1]);
                    }
                }
            }
        }
        x = x + outer + 3;
        i += 1;
    }
    assert forall|j: int| 0 <= j < ops@.len() implies left <= (#[trigger] ops@[j]).column() && y <= ops@[j].row() < y + 1 by {
        let b = j / 2;
        assert(0 <= b < k);
        assert(label_entry(ops@, *p, b, left as int, outer as int, y, highlight));
        lemma_box_column_right_of_left(left as int, outer as int, b);
        assert(box_fits(left as int, right as int, outer as int, b));
        if j == 2 * b {
        } else {
            assert(j == 2 * b + 1);
        }
    }
    ops
}

/// Whether `ops`, taking `rows` rows, is the flow of paper `p` between
/// columns `left` and `right` from row `y`, with box `highlight` highlighted.
pub open spec fn flow_drawn(ops: Seq<Draw>, rows: u16, p: ActivePaper, left: u16, right: u16, y: u16, highlight: Option<usize>) -> bool {
    &&& rows == if p.stages@.len() == 0 { 1u16 } else { 4u16 }
    &&& ops.len() >= 1
    &&& text_bytes_at(ops[0], left, y, flow_header_cut(p, right - left)->0,
            Style { fg: Some(Color::Magenta), bg: None, bold: true, italic: false, underlined: false })
    &&& p.stages@.len() == 0 ==> ops.len() == 1
    &&& p.stages@.len() > 0 ==> flow_boxes_drawn(ops, p, left as int, right as int, y as int, highlight)
    &&& drawn_within(ops, 0, left as int, y as int, y + rows)
}

/// Only one number of boxes is shown.
pub proof fn lemma_boxes_shown_unique(k1: int, k2: int, n: int, left: int, right: int, outer: int)
    requires
        boxes_shown(k1, n, left, right, outer),
        boxes_shown(k2, n, left, right, outer),
    ensures
        k1 == k2,
{
    if k1 < k2 {
        assert(box_fits(left, right, outer, k1));
    } else if k2 < k1 {
        assert(box_fits(left, right, outer, k2));
    }
}

/// How many of the `n` boxes of a flow are shown (as in `boxes_shown`).
pub open spec fn boxes_count(n: int, left: int, right: int, outer: int) -> int {
    choose|k: int| boxes_shown(k, n, left, right, outer)
}

/// The flow of paper `p` between columns `left` and `right` from row `y`,
/// box `highlight` highlighted: its header cut to the width; when it has
/// stages, the top borders of the boxes shown, their middle lines each with
/// the arrow after it when another stage follows, and their bottom borders.
pub open spec fn flow_marks(p: ActivePaper, left: u16, right: u16, y: u16, highlight: Option<usize>) -> Seq<Mark> {
    let n = p.stages@.len() as int;
    let header = Mark::Text { x: left, y, bytes: flow_header_cut(p, right - left)->0, style: bold_in(Color::Magenta) };
    if n == 0 {
        seq![header]
    } else {
        let inner = box_inner_width(n, right - left);
        let outer = inner + 2;
        let k = boxes_count(n, left as int, right as int, outer);
        let arrows = n - 1;
        let mid = k + if k < arrows { k } else { arrows };
        seq![header]
            + Seq::new(k as nat, |i: int| text_mark(box_column(left as int, outer, i) as u16, (y + 1) as u16,
                border_text(inner as nat), border_style(highlight == Some(i as usize))))
            + Seq::new(mid as nat, |j: int| {
                let i = j / 2;
                let status = p.stages@[i].1.status@;
                if j % 2 == 0 {
                    text_mark(box_column(left as int, outer, i) as u16, (y + 2) as u16,
                        cell_text(status, short_stage_label(p.stages@[i].0@), inner),
                        cell_style(highlight == Some(i as usize), status))
                } else {
                    text_mark((box_column(left as int, outer, i) + outer) as u16, (y + 2) as u16, "==>"@, arrow_style(status))
                }
            })
            + Seq::new(k as nat, |i: int| text_mark(box_column(left as int, outer, i) as u16, (y + 3) as u16,
                border_text(inner as nat), border_style(highlight == Some(i as usize))))
    }
}

/// What `flow_drawn` says of a drawing fixes its marks.
#[verifier::rlimit(40)]
pub proof fn lemma_flow_marks(ops: Seq<Draw>, rows: u16, p: ActivePaper, left: u16, right: u16, y: u16, highlight: Option<usize>)
    requires
        flow_drawn(ops, rows, p, left, right, y, highlight),
    ensures
        marks(ops) == flow_marks(p, left, right, y, highlight),
{
    let n = p.stages@.len() as int;
    if n == 0 {
        assert(marks(ops) =~= flow_marks(p, left, right, y, highlight));
    } else {
        let inner = box_inner_width(n, right - left);
        let outer = inner + 2;
        let arrows = n - 1;
        let k = choose|k: int| flow_boxes_with(ops, p, left as int, right as int, y as int, highlight, k);
        let kk = boxes_count(n, left as int, right as int, outer);
        lemma_boxes_shown_unique(k, kk, n, left as int, right as int, outer);
        let mid = k + if k < arrows { k } else { arrows };
        let fm = flow_marks(p, left, right, y, highlight);
        assert(fm.len() == ops.len());
        assert forall|j: int| 0 <= j < ops.len() implies #[trigger] marks(ops)[j] == fm[j] by {
            if j == 0 {
            } else if j < 1 + k {
                let i = j - 1;
                assert(0 <= p.stages@[i].1.status@.len());
            } else if j < 1 + k + mid {
                let t = j - 1 - k;
                let i = t / 2;
                assert(0 <= i < k);
                assert(0 <= p.stages@[i].1.status@.len());
                if t % 2 == 0 {
                    assert(j == 1 + k + 2 * i);
                } else {
                    assert(j == 1 + k + 2 * i + 1);
                    assert(i < arrows);
                }
            } else {
                let i = j - 1 - k - mid;
                assert(0 <= p.stages@[i].1.status@.len());
            }
        }
        assert(marks(ops) =~= fm);
    }
}

impl PaperPipelinePlane {
    /// Draws the flow of paper `p` through the stages between columns `left`
    /// and `right` from row `y_start` on: a header with the paper's code,
    /// name and priority, then one box per stage joined by arrows, as many
    /// as fit, the box of stage `highlight` highlighted. Gives the drawing
    /// and the rows it takes: one, or four when the paper has stages; nothing
    /// where the header would be cut inside a character.
    #[verifier::rlimit(40)]
    #[verifier::spinoff_prover]
    pub fn render_pipeline_flow(
        &self,
        p: &ActivePaper,
        left: u16,
        right: u16,
        y_start: u16,
        highlight: Option<usize>,
    ) -> (r: Option<(Vec<Draw>, u16)>)
        requires
            left <= right,
            y_start + flow_rows(*p) <= u16::MAX,
        ensures
            r is Some <==> flow_header_cut(*p, right - left) is Some,
            r matches Some((ops, rows)) ==> flow_drawn(ops@, rows, *p, left, right, y_start, highlight),
    {
        let tw: usize = (right - left) as usize;
        let header = match flow_header(p, left, y_start, tw) {
            Some(h) => h,
            None => {
                return None;
            },
        };
        let mut ops: Vec<Draw> = Vec::new();
        ops.push(header);
        let n = p.stages.len();
        if n == 0 {
            assert(drawn_within(ops@, 0, left as int, y_start as int, y_start + 1));
            return Some((ops, 1));
        }
        let sub: usize = match (n - 1).checked_mul(3) {
            Some(a) => if a <= usize::MAX - 2 { a + 2 } else { usize::MAX },
            None => usize::MAX,
        };
        let avail: usize = if tw > sub { tw - sub } else { 0 };
        let q: usize = avail / n;
        let inner: usize = if q < 5 { 5 } else if q > 9 { 9 } else { q };
        assert(inner == box_inner_width(n as int, (right - left) as int));
        let outer: usize = inner + 2;
        let k = boxes_that_fit(n, left, right, outer);
        let mut top = border_row(k, n, left, right, outer, y_start + 1, highlight);
        let mut mid = label_row(p, k, left, right, outer, y_start + 2, highlight);
        let mut bottom = border_row(k, n, left, right, outer, y_start + 3, highlight);
        let ghost (h0, t0, m0, b0) = (ops@, top@, mid@, bottom@);
        ops.append(&mut top);
        ops.append(&mut mid);
        ops.append(&mut bottom);
        assert(ops@ == h0 + t0 + m0 + b0);
        proof {
            assert(drawn_within(h0, 0, left as int, y_start as int, y_start + 4));
            crate::draw::lemma_drawn_within_append(h0, t0, 0, left as int, y_start as int, y_start + 4, y_start + 1, y_start + 2);
            crate::draw::lemma_drawn_within_append(h0 + t0, m0, 0, left as int, y_start as int, y_start + 4, y_start + 2, y_start + 3);
            crate::draw::lemma_drawn_within_append(h0 + t0 + m0, b0, 0, left as int, y_start as int, y_start + 4, y_start + 3, y_start + 4);
        }
        assert(flow_boxes_drawn(ops@, *p, left as int, right as int, y_start as int, highlight)) by {
            let kk = k as int;
            let arrows = n - 1;
            let mm = kk + if kk < arrows { kk } else { arrows };
            assert(ops@.len() == 1 + kk + mm + kk);
            assert forall|j: int| 0 <= j < kk implies {
                let x = box_column(left as int, outer as int, j) as u16;
                let hl = highlight == Some(j as usize);
                let status = (#[trigger] p.stages@[j]).1.status@;
                &&& text_at(ops@[1 + j], x, (y_start + 1) as u16, border_text(inner as nat), border_style(hl))
                &&& text_at(ops@[1 + kk + 2 * j], x, (y_start + 2) as u16,
                        cell_text(status, short_stage_label(p.stages@[j].0@), inner as int), cell_style(hl, status))
                &&& j < arrows ==> text_at(ops@[1 + kk + 2 * j + 1], (box_column(left as int, outer as int, j) + outer) as u16,
                        (y_start + 2) as u16, "==>"@, arrow_style(status))
                &&& text_at(ops@[1 + kk + mm + j], x, (y_start + 3) as u16, border_text(inner as nat), border_style(hl))
            } by {
                assert(ops@[1 + j] == t0[j]);
                assert(label_entry(m0, *p, j, left as int, outer as int, (y_start + 2) as u16, highlight));
                assert(ops@[1 + kk + 2 * j] == m0[2 * j]);
                if j < arrows {
                    assert(ops@[1 + kk + 2 * j + 1] == m0[2 * j + 1]);
                }
                assert(ops@[1 + kk + mm + j] == b0[j]);
            }
            assert(flow_boxes_with(ops@, *p, left as int, right as int, y_start as int, highlight, kk));
        }
        Some((ops, 4))
    }
}


// ---------------------------------------------------------------------------
// The pipeline screen.

/// How many of `cs` are active.
pub open spec fn active_count(cs: Seq<ComponentInfo>) -> nat
    decreases cs.len(),
{
    if cs.len() == 0 {
        0
    } else {
        active_count(cs.drop_last()) + if cs.last().status@ == "active"@ { 1nat } else { 0nat }
    }
}

/// How many of a paper's stages are done.
pub open spec fn done_count(st: Seq<(String, crate::pipeline::PaperStageStatus)>) -> nat
    decreases st.len(),
{
    if st.len() == 0 {
        0
    } else {
        done_count(st.drop_last()) + if st.last().1.status@ == "done"@ { 1nat } else { 0nat }
    }
}

/// The title of the pipeline screen: version, active tools and papers.
pub open spec fn main_title(d: PipelineData) -> Seq<char> {
    " Research Pipeline v"@ + d.engine_version@ + "  |  "@ + decimal(active_count(d.components@)) + "/"@
        + decimal(d.components@.len()) + " tools  |  "@ + decimal(d.papers@.len()) + " papers tracked "@
}

/// The title style of every screen: bold magenta.
pub open spec fn title_style() -> Style {
    Style { fg: Some(Color::Magenta), bg: None, bold: true, italic: false, underlined: false }
}

/// The border style of every screen.
pub open spec fn screen_border_style() -> Style {
    Style { fg: Some(Color::Rgb(80, 40, 100)), bg: None, bold: false, italic: false, underlined: false }
}

/// The short name of a problem a paper addresses.
pub open spec fn short_problem(p: Seq<char>) -> Seq<char> {
    if p == "identity_drift"@ {
        "ident"@
    } else if p == "self_improvement"@ {
        "self"@
    } else if p == "memory_persistence"@ {
        "mem"@
    } else if p == "retrieval_quality"@ {
        "retr"@
    } else if p == "planning_execution"@ {
        "plan"@
    } else if p == "reasoning_chain_loss"@ {
        "reason"@
    } else if p == "emotional_intelligence"@ {
        "emot"@
    } else {
        p
    }
}

/// The problems the status file names by a known id.
pub open spec fn known_problem(p: Seq<char>) -> bool {
    ||| p == "identity_drift"@
    ||| p == "self_improvement"@
    ||| p == "memory_persistence"@
    ||| p == "retrieval_quality"@
    ||| p == "planning_execution"@
    ||| p == "reasoning_chain_loss"@
    ||| p == "emotional_intelligence"@
}

/// A problem's short name is the start of its id: never longer than the id,
/// and the id begins with it; a known problem's short name is shorter than
/// its id and no longer than six characters.
pub proof fn lemma_short_problem_is_prefix(p: Seq<char>)
    ensures
        short_problem(p).len() <= p.len(),
        p.subrange(0, short_problem(p).len() as int) == short_problem(p),
        known_problem(p) ==> short_problem(p).len() < p.len() && short_problem(p).len() <= 6,
{
    reveal_strlit("identity_drift");
    reveal_strlit("ident");
    reveal_strlit("self_improvement");
    reveal_strlit("self");
    reveal_strlit("memory_persistence");
    reveal_strlit("mem");
    reveal_strlit("retrieval_quality");
    reveal_strlit("retr");
    reveal_strlit("planning_execution");
    reveal_strlit("plan");
    reveal_strlit("reasoning_chain_loss");
    reveal_strlit("reason");
    reveal_strlit("emotional_intelligence");
    reveal_strlit("emot");
    let sp = short_problem(p);
    assert(p.subrange(0, sp.len() as int) =~= sp);
}

/// Different known problems get different short names.
pub proof fn lemma_short_problems_differ(p: Seq<char>, q: Seq<char>)
    requires
        known_problem(p),
        known_problem(q),
        p != q,
    ensures
        short_problem(p) != short_problem(q),
{
    reveal_strlit("identity_drift");
    reveal_strlit("ident");
    reveal_strlit("self_improvement");
    reveal_strlit("self");
    reveal_strlit("memory_persistence");
    reveal_strlit("mem");
    reveal_strlit("retrieval_quality");
    reveal_strlit("retr");
    reveal_strlit("planning_execution");
    reveal_strlit("plan");
    reveal_strlit("reasoning_chain_loss");
    reveal_strlit("reason");
    reveal_strlit("emotional_intelligence");
    reveal_strlit("emot");
    let (sp, sq) = (short_problem(p), short_problem(q));
    if sp == sq {
        assert(sp.len() == sq.len() && sp[0] == sq[0]);
    }
}

/// `parts` joined with `sep` between them.
pub open spec fn joined(parts: Seq<Seq<char>>, sep: Seq<char>) -> Seq<char>
    decreases parts.len(),
{
    if parts.len() == 0 {
        Seq::empty()
    } else if parts.len() == 1 {
        parts[0]
    } else {
        joined(parts.drop_last(), sep) + sep + parts.last()
    }
}

/// The short names of a paper's problems.
pub open spec fn short_problems(ps: Seq<Seq<char>>) -> Seq<Seq<char>> {
    ps.map_values(|p: Seq<char>| short_problem(p))
}

/// The line under a paper's flow: stages done, problems and last activity.
pub open spec fn paper_detail(p: ActivePaper) -> Seq<char> {
    "  "@ + decimal(done_count(p.stages@)) + "/"@ + decimal(p.stages@.len()) + " stages | "@
        + joined(short_problems(views(p.problems@)), " "@) + " | "@ + p.last_activity@
}

/// The short name of a tool: a known three-letter code, or the first three
/// bytes of its name (nothing where that cut falls inside a character).
pub open spec fn tool_code(name: Seq<char>) -> Option<Seq<u8>> {
    let known = tool_code_known(name);
    if known.len() > 0 {
        Some(utf8(known))
    } else {
        cut_bytes(utf8(name), if byte_len(name) < 3 { byte_len(name) as int } else { 3 })
    }
}

/// The three-letter code of a known tool, or nothing.
pub open spec fn tool_code_known(name: Seq<char>) -> Seq<char> {
    if name == "scout"@ { "SCT"@ }
    else if name == "evaluator"@ { "EVL"@ }
    else if name == "reader"@ { "RDR"@ }
    else if name == "tracker"@ { "TRK"@ }
    else if name == "pipeline"@ { "PIP"@ }
    else if name == "prototype_runner"@ { "PRT"@ }
    else if name == "integrator"@ { "INT"@ }
    else if name == "citation_engine"@ { "CIT"@ }
    else if name == "figure_engine"@ { "FIG"@ }
    else if name == "adversarial_reviewer"@ { "ADV"@ }
    else if name == "humanizer"@ { "HUM"@ }
    else if name == "gpt_checker"@ { "GPT"@ }
    else if name == "qa_auditor"@ { "QAA"@ }
    else if name == "ybr_documenter"@ { "YBR"@ }
    else if name == "chart_builder"@ { "CHT"@ }
    else if name == "research_web"@ { "WEB"@ }
    else if name == "doc_compiler"@ { "DOC"@ }
    else if name == "data_collector"@ { "DAT"@ }
    else if name == "experiment_runner"@ { "EXP"@ }
    else if name == "analysis"@ { "ANL"@ }
    else if name == "reproducibility_checker"@ { "RPR"@ }
    else if name == "ablation_runner"@ { "ABL"@ }
    else if name == "quality_scorer"@ { "QSC"@ }
    else if name == "benchmark_extractor"@ { "BEX"@ }
    else if name == "benchmark_runner"@ { "BRN"@ }
    else if name == "benchmark_comparator"@ { "BCM"@ }
    else { ""@ }
}

/// How many components are active.
fn count_active(cs: &Vec<ComponentInfo>) -> (r: usize)
    ensures
        r == active_count(cs@),
{
    let mut c: usize = 0;
    let mut i: usize = 0;
    while i < cs.len()
        invariant
            i <= cs@.len(),
            c == active_count(cs@.take(i as int)),
            c <= i,
        decreases cs@.len() - i,
    {
        assert(cs@.take(i + 1).drop_last() =~= cs@.take(i as int));
        if str_eq(cs[i].status.as_str(), "active") {
            c += 1;
        }
        i += 1;
    }
    assert(cs@.take(cs@.len() as int) =~= cs@);
    c
}

/// How many of a paper's stages are done.
pub(crate) fn count_done_of(st: &Vec<(String, crate::pipeline::PaperStageStatus)>) -> (r: usize)
    ensures
        r == done_count(st@),
{
    count_done(st)
}

/// How many of a paper's stages are done.
fn count_done(st: &Vec<(String, crate::pipeline::PaperStageStatus)>) -> (r: usize)
    ensures
        r == done_count(st@),
{
    let mut c: usize = 0;
    let mut i: usize = 0;
    while i < st.len()
        invariant
            i <= st@.len(),
            c == done_count(st@.take(i as int)),
            c <= i,
        decreases st@.len() - i,
    {
        assert(st@.take(i + 1).drop_last() =~= st@.take(i as int));
        if str_eq(st[i].1.status.as_str(), "done") {
            c += 1;
        }
        i += 1;
    }
    assert(st@.take(st@.len() as int) =~= st@);
    c
}

/// The title of the pipeline screen.
fn main_title_of(d: &PipelineData) -> (r: String)
    ensures
        r@ == main_title(*d),
{
    let mut t = owned(" Research Pipeline v");
    crate::text::push_str(&mut t, d.engine_version.as_str());
    crate::text::push_str(&mut t, "  |  ");
    push_decimal(&mut t, count_active(&d.components) as u64);
    crate::text::push_str(&mut t, "/");
    push_decimal(&mut t, d.components.len() as u64);
    crate::text::push_str(&mut t, " tools  |  ");
    push_decimal(&mut t, d.papers.len() as u64);
    crate::text::push_str(&mut t, " papers tracked ");
    t
}

/// The short name of a problem.
fn short_problem_of(p: &str) -> (r: String)
    ensures
        r@ == short_problem(p@),
{
    if str_eq(p, "identity_drift") {
        owned("ident")
    } else if str_eq(p, "self_improvement") {
        owned("self")
    } else if str_eq(p, "memory_persistence") {
        owned("mem")
    } else if str_eq(p, "retrieval_quality") {
        owned("retr")
    } else if str_eq(p, "planning_execution") {
        owned("plan")
    } else if str_eq(p, "reasoning_chain_loss") {
        owned("reason")
    } else if str_eq(p, "emotional_intelligence") {
        owned("emot")
    } else {
        owned(p)
    }
}

/// The line under a paper's flow.
fn paper_detail_of(p: &ActivePaper) -> (r: String)
    ensures
        r@ == paper_detail(*p),
{
    let mut t = owned("  ");
    push_decimal(&mut t, count_done(&p.stages) as u64);
    crate::text::push_str(&mut t, "/");
    push_decimal(&mut t, p.stages.len() as u64);
    crate::text::push_str(&mut t, " stages | ");
    let ghost head = t@;
    let ghost shorts = short_problems(views(p.problems@));
    let mut i: usize = 0;
    while i < p.problems.len()
        invariant
            i <= p.problems@.len(),
            shorts == short_problems(views(p.problems@)),
            shorts.len() == p.problems@.len(),
            t@ == head + joined(shorts.take(i as int), " "@),
        decreases p.problems@.len() - i,
    {
        let ghost before = t@;
        if i > 0 {
            crate::text::push_str(&mut t, " ");
        }
        let sp = short_problem_of(p.problems[i].as_str());
        crate::text::push_str(&mut t, sp.as_str());
        assert(shorts.take(i + 1).drop_last() =~= shorts.take(i as int));
        assert(shorts[i as int] == sp@);
        if i == 0 {
            assert(joined(shorts.take(1), " "@) == shorts[0]);
        }
        assert(t@ =~= head + joined(shorts.take(i + 1), " "@));
        i += 1;
    }
    assert(shorts.take(shorts.len() as int) =~= shorts);
    crate::text::push_str(&mut t, " | ");
    crate::text::push_str(&mut t, p.last_activity.as_str());
    assert(t@ =~= paper_detail(*p));
    t
}

/// The short name of a tool.
fn tool_code_of(name: &str) -> (r: Option<String>)
    ensures
        match r {
            Some(c) => tool_code(name@) == Some(utf8(c@)) && byte_len(c@) <= 3,
            None => tool_code(name@) is None,
        },
{
    let known = if str_eq(name, "scout") { "SCT" }
        else if str_eq(name, "evaluator") { "EVL" }
        else if str_eq(name, "reader") { "RDR" }
        else if str_eq(name, "tracker") { "TRK" }
        else if str_eq(name, "pipeline") { "PIP" }
        else if str_eq(name, "prototype_runner") { "PRT" }
        else if str_eq(name, "integrator") { "INT" }
        else if str_eq(name, "citation_engine") { "CIT" }
        else if str_eq(name, "figure_engine") { "FIG" }
        else if str_eq(name, "adversarial_reviewer") { "ADV" }
        else if str_eq(name, "humanizer") { "HUM" }
        else if str_eq(name, "gpt_checker") { "GPT" }
        else if str_eq(name, "qa_auditor") { "QAA" }
        else if str_eq(name, "ybr_documenter") { "YBR" }
        else if str_eq(name, "chart_builder") { "CHT" }
        else if str_eq(name, "research_web") { "WEB" }
        else if str_eq(name, "doc_compiler") { "DOC" }
        else if str_eq(name, "data_collector") { "DAT" }
        else if str_eq(name, "experiment_runner") { "EXP" }
        else if str_eq(name, "analysis") { "ANL" }
        else if str_eq(name, "reproducibility_checker") { "RPR" }
        else if str_eq(name, "ablation_runner") { "ABL" }
        else if str_eq(name, "quality_scorer") { "QSC" }
        else if str_eq(name, "benchmark_extractor") { "BEX" }
        else if str_eq(name, "benchmark_runner") { "BRN" }
        else if str_eq(name, "benchmark_comparator") { "BCM" }
        else { "" };
    assert(known@ == tool_code_known(name@));
    proof {
        crate::draw::lemma_byte_len_empty(known@);
        reveal_strlit("");
        reveal_strlit("SCT");
        reveal_strlit("EVL");
        reveal_strlit("RDR");
        reveal_strlit("TRK");
        reveal_strlit("PIP");
        reveal_strlit("PRT");
        reveal_strlit("INT");
        reveal_strlit("CIT");
        reveal_strlit("FIG");
        reveal_strlit("ADV");
        reveal_strlit("HUM");
        reveal_strlit("GPT");
        reveal_strlit("QAA");
        reveal_strlit("YBR");
        reveal_strlit("CHT");
        reveal_strlit("WEB");
        reveal_strlit("DOC");
        reveal_strlit("DAT");
        reveal_strlit("EXP");
        reveal_strlit("ANL");
        reveal_strlit("RPR");
        reveal_strlit("ABL");
        reveal_strlit("QSC");
        reveal_strlit("BEX");
        reveal_strlit("BRN");
        reveal_strlit("BCM");
        crate::draw::lemma_ascii_byte_len(known@);
    }
    if byte_length(known) > 0 {
        Some(owned(known))
    } else {
        let n = byte_length(name);
        crate::draw::byte_prefix(name, if n < 3 { n } else { 3 })
    }
}


/// Whether the header and the line under the flow of each of the first
/// three papers can be cut to `tw` bytes.
pub open spec fn papers_fit(d: PipelineData, tw: int) -> bool {
    forall|i: int| 0 <= i < d.papers@.len() && i < 3 ==> {
        &&& (#[trigger] flow_header_cut(d.papers@[i], tw)) is Some
        &&& cut_bytes(utf8(paper_detail(d.papers@[i])), tw) is Some
    }
}

/// Whether `a` lies within the range of `u16` coordinates: its right and
/// bottom edges are at most `u16::MAX`, as for every `Rect`.
pub open spec fn fits_u16(a: Area) -> bool {
    a.x + a.width <= u16::MAX && a.y + a.height <= u16::MAX
}

impl PaperPipelinePlane {
    /// The flows of the first papers (three when there are more than twenty
    /// rows, else two), each with a line of its stages done, problems and last
    /// activity under it, as many as fit from the top of `inner`; gives the
    /// row after them, or nothing where a text is cut inside a character.
    #[verifier::spinoff_prover]
    #[verifier::rlimit(40)]
    fn papers_section(&self, inner: Area, ops: &mut Vec<Draw>) -> (r: Option<u16>)
        requires
            fits_u16(inner),
            old(ops)@.len() >= 1,
            drawn_within(old(ops)@, 1, inner.x as int, inner.y as int, inner.bottom_edge() as int),
        ensures
            final(ops)@.len() >= 1,
            final(ops)@[0] == old(ops)@[0],
            drawn_within(final(ops)@, 1, inner.x as int, inner.y as int, inner.bottom_edge() as int),
            r matches Some(y) ==> inner.y <= y <= inner.bottom_edge(),
            r matches Some(y) ==> y == papers_end(self.data, inner, 0, inner.y as int),
            r is Some ==> marks(final(ops)@) == marks(old(ops)@) + paper_marks(self.data, inner, 0, inner.y as int),
            r is Some <==> papers_ok(self.data, inner, 0, inner.y as int),
            papers_fit(self.data, inner.width as int) ==> r is Some,
    {
        let ghost first = ops@[0];
        let ghost target = marks(ops@) + paper_marks(self.data, inner, 0, inner.y as int);
        let bottom = inner.bottom();
        let tw: usize = inner.width as usize;
        let max_papers: usize = if inner.height > 20 { 3 } else { 2 };
        let mut y: u16 = inner.top();
        let mut i: usize = 0;
        while i < self.data.papers.len() && i < max_papers && (y as u32) + 6 < bottom as u32
            invariant
                fits_u16(inner),
                bottom == inner.bottom_edge(),
                tw == inner.width,
                inner.y <= y <= bottom,
                ops@.len() >= 1,
                ops@[0] == first,
                first == old(ops)@[0],
                drawn_within(ops@, 1, inner.x as int, inner.y as int, bottom as int),
                i <= max_papers <= 3,
                max_papers == if inner.height > 20 { 3usize } else { 2usize },
                marks(ops@) + paper_marks(self.data, inner, i as int, y as int) == target,
                papers_end(self.data, inner, i as int, y as int) == papers_end(self.data, inner, 0, inner.y as int),
                papers_ok(self.data, inner, i as int, y as int) == papers_ok(self.data, inner, 0, inner.y as int),
            decreases self.data.papers@.len() - i,
        {
            let ghost (m_before, yi) = (marks(ops@), y as int);
            let paper = &self.data.papers[i];
            proof {
                if papers_fit(self.data, inner.width as int) {
                    assert(flow_header_cut(self.data.papers@[i as int], inner.width as int) is Some);
                }
                assert(inner.right_edge() - inner.x == inner.width);
            }
            let (mut flow, rows) = match self.render_pipeline_flow(paper, inner.left(), inner.right(), y, None) {
                Some(f) => f,
                None => {
                    return None;
                },
            };
            let ghost before = ops@;
            let ghost f0 = flow@;
            ops.append(&mut flow);
            proof {
                crate::draw::lemma_drawn_within_append(before, f0, 1, inner.x as int, inner.y as int, bottom as int,
                    y as int, y + rows);
                assert(ops@[0] == before[0]);
                lemma_flow_marks(f0, rows, *paper, inner.x, inner.right_edge(), y, None);
                crate::draw::lemma_marks_append(before, f0);
                assert(ops@ == before + f0);
            }
            y = y + rows;
            let detail = paper_detail_of(paper);
            let dlen = byte_length(detail.as_str());
            let dcut: usize = if dlen < tw { dlen } else { tw };
            let ghost before = ops@;
            if !push_cut_text(ops, inner.left(), y, detail.as_str(), dcut, Style::fg(Color::DarkGray)) {
                return None;
            }
            proof {
                assert(ops@ == before.push(ops@.last()));
                crate::draw::lemma_drawn_within_push(before, ops@.last(), 1, inner.x as int, inner.y as int, bottom as int);
                assert(ops@[0] == before[0]);
                let b = utf8(detail@);
                assert(cut_bytes(b, dcut as int) == cut_bytes(b, inner.width as int));
                let more = paper_marks(self.data, inner, i + 1, y + 2);
                let mine = marks(ops@).subrange(m_before.len() as int, marks(ops@).len() as int);
                assert(marks(ops@) =~= m_before + mine);
                assert(mine =~= flow_marks(*paper, inner.x, inner.right_edge(), yi as u16, None) + seq![Mark::Text {
                    x: inner.x,
                    y: y,
                    bytes: cut_bytes(utf8(paper_detail(*paper)), inner.width as int)->0,
                    style: plain_in(Color::DarkGray),
                }]);
                assert(m_before + (mine + more) =~= marks(ops@) + more);
            }
            y = y + 2;
            i += 1;
        }
        assert(marks(ops@) =~= target);
        assert(papers_ok(self.data, inner, i as int, y as int));
        Some(y)
    }

    /// The row of tool codes from row `y` on: `TOOLS:`, then an icon and the
    /// short code of each tool, wrapping onto the next rows while there are
    /// rows left; false where a code would be cut inside a character or a
    /// column would pass `u16::MAX`.
    #[verifier::spinoff_prover]
    #[verifier::rlimit(40)]
    fn tools_section(&self, inner: Area, y0: u16, ops: &mut Vec<Draw>) -> (ok: bool)
        requires
            fits_u16(inner),
            inner.width >= 18,
            inner.y <= y0 < inner.bottom_edge(),
            old(ops)@.len() >= 1,
            drawn_within(old(ops)@, 1, inner.x as int, inner.y as int, inner.bottom_edge() as int),
        ensures
            final(ops)@.len() >= 1,
            final(ops)@[0] == old(ops)@[0],
            drawn_within(final(ops)@, 1, inner.x as int, inner.y as int, inner.bottom_edge() as int),
            ok ==> marks(final(ops)@) == marks(old(ops)@)
                + seq![text_mark((inner.x + 1) as u16, y0, "TOOLS:"@, bold_in(Color::White))]
                + tool_marks(self.data, inner, 0, y0 as int, inner.x + 8),
            ok == tools_ok(self.data, inner, 0, y0 as int, inner.x + 8),
    {
        let ghost first = ops@[0];
        let bottom = inner.bottom();
        let right = inner.right();
        let mut y = y0;
        let ghost before = ops@;
        push_text(ops, inner.left() + 1, y, "TOOLS:", Style::bold(Color::White));
        proof {
            assert(ops@ == before.push(ops@.last()));
            assert(ops@[0] == before[0]);
            crate::draw::lemma_drawn_within_push(before, ops@.last(), 1, inner.x as int, inner.y as int, bottom as int);
        }
        assert(marks(ops@) =~= marks(old(ops)@) + seq![text_mark((inner.x + 1) as u16, y0, "TOOLS:"@, bold_in(Color::White))]);
        let ghost target = marks(ops@) + tool_marks(self.data, inner, 0, y0 as int, inner.x + 8);
        let mut x: u16 = inner.left() + 8;
        let mut i: usize = 0;
        while i < self.data.components.len()
            invariant
                fits_u16(inner),
                bottom == inner.bottom_edge(),
                right == inner.right_edge(),
                inner.width >= 18,
                inner.y <= y < bottom,
                inner.x + 8 <= x <= right,
                ops@.len() >= 1,
                ops@[0] == first,
                first == old(ops)@[0],
                drawn_within(ops@, 1, inner.x as int, inner.y as int, bottom as int),
                marks(ops@) + tool_marks(self.data, inner, i as int, y as int, x as int) == target,
                target == marks(old(ops)@) + seq![text_mark((inner.x + 1) as u16, y0, "TOOLS:"@, bold_in(Color::White))]
                    + tool_marks(self.data, inner, 0, y0 as int, inner.x + 8),
                tools_ok(self.data, inner, i as int, y as int, x as int) == tools_ok(self.data, inner, 0, y0 as int, inner.x + 8),
            decreases self.data.components@.len() - i,
        {
            let ghost (m_before, yi, xi) = (marks(ops@), y as int, x as int);
            let c = &self.data.components[i];
            let short = match tool_code_of(c.name.as_str()) {
                Some(code) => code,
                None => {
                    return false;
                },
            };
            let sl: u16 = byte_length(short.as_str()) as u16;
            let reach: u16 = match x.checked_add(sl) {
                Some(v) => match v.checked_add(3) {
                    Some(w) => w,
                    None => {
                        return false;
                    },
                },
                None => {
                    return false;
                },
            };
            assert(utf8(short@).len() == byte_len(short@));
            if reach >= right {
                y = y + 1;
                x = inner.left() + 8;
                if y >= bottom {
                    assert(marks(ops@) =~= target);
                    return true;
                }
            }
            let active = str_eq(c.status.as_str(), "active");
            let mut tag = if active { owned("*") } else { owned("o") };
            crate::text::push_str(&mut tag, short.as_str());
            let color = if active { Color::Green } else { Color::DarkGray };
            let ghost before = ops@;
            push_text(ops, x, y, tag.as_str(), Style::fg(color));
            proof {
                assert(ops@ == before.push(ops@.last()));
                assert(ops@[0] == before[0]);
                crate::draw::lemma_drawn_within_push(before, ops@.last(), 1, inner.x as int, inner.y as int, bottom as int);
            }
            x = match x.checked_add(sl) {
                Some(v) => match v.checked_add(2) {
                    Some(w) => w,
                    None => {
                        return false;
                    },
                },
                None => {
                    return false;
                },
            };
            proof {
                reveal_strlit("*");
                reveal_strlit("o");
                crate::draw::lemma_utf8_concat(if active { "*"@ } else { "o"@ }, short@);
                let more = tool_marks(self.data, inner, i + 1, y as int, x as int);
                assert(marks(ops@) =~= m_before.push(marks(ops@).last()));
                assert(tool_marks(self.data, inner, i as int, yi, xi) == seq![marks(ops@).last()] + more);
                assert(m_before + (seq![marks(ops@).last()] + more) =~= marks(ops@) + more);
            }
            i += 1;
        }
        assert(marks(ops@) =~= target);
        assert(tools_ok(self.data, inner, i as int, y as int, x as int));
        true
    }
}


/// The rows the flow of `p` takes: its header, and three rows of boxes when
/// it has stages.
pub open spec fn flow_rows(p: ActivePaper) -> int {
    if p.stages@.len() == 0 { 1 } else { 4 }
}

/// Whether the `i`-th paper gets its flow from row `y` of `inner`: it is
/// one of the first three (two when `inner` has at most twenty rows), and
/// six rows are left under `y`.
pub open spec fn paper_shown(d: PipelineData, inner: Area, i: int, y: int) -> bool {
    &&& 0 <= i < d.papers@.len()
    &&& i < if inner.height > 20 { 3int } else { 2int }
    &&& y + 6 < inner.bottom_edge()
}

/// The papers from the `i`-th on, from row `y` of `inner` on: each its flow
/// across `inner`, the line of its stages done, problems and last activity
/// under it cut to the width, and an empty row.
pub open spec fn paper_marks(d: PipelineData, inner: Area, i: int, y: int) -> Seq<Mark>
    decreases d.papers@.len() - i,
{
    if paper_shown(d, inner, i, y) {
        let p = d.papers@[i];
        let y1 = y + flow_rows(p);
        flow_marks(p, inner.x, inner.right_edge(), y as u16, None)
            + seq![Mark::Text {
                x: inner.x,
                y: y1 as u16,
                bytes: cut_bytes(utf8(paper_detail(p)), inner.width as int)->0,
                style: plain_in(Color::DarkGray),
            }]
            + paper_marks(d, inner, i + 1, y1 + 2)
    } else {
        Seq::empty()
    }
}

/// The row after the papers from the `i`-th on, from row `y` on.
pub open spec fn papers_end(d: PipelineData, inner: Area, i: int, y: int) -> int
    decreases d.papers@.len() - i,
{
    if paper_shown(d, inner, i, y) { papers_end(d, inner, i + 1, y + flow_rows(d.papers@[i]) + 2) } else { y }
}

/// Whether tool `i`, when the last one ended before column `x`, goes on the
/// next row: its code and three more columns would reach the right edge.
pub open spec fn tool_wraps(d: PipelineData, inner: Area, i: int, x: int) -> bool {
    x + tool_code(d.components@[i].name@)->0.len() + 3 >= inner.right_edge()
}

/// The tools from the `i`-th on, the next at column `x` of row `y` or, when
/// it does not fit there, at column 8 of the next row while that is in
/// `inner`: `*` and its code in green when it is active, else `o` and its
/// code in dark gray.
pub open spec fn tool_marks(d: PipelineData, inner: Area, i: int, y: int, x: int) -> Seq<Mark>
    decreases d.components@.len() - i,
{
    if 0 <= i < d.components@.len() {
        let c = d.components@[i];
        let code = tool_code(c.name@)->0;
        let wrap = tool_wraps(d, inner, i, x);
        let y1 = if wrap { y + 1 } else { y };
        let x1 = if wrap { inner.x + 8 } else { x };
        if y1 >= inner.bottom_edge() {
            Seq::empty()
        } else {
            let active = c.status@ == "active"@;
            seq![Mark::Text {
                x: x1 as u16,
                y: y1 as u16,
                bytes: utf8(if active { "*"@ } else { "o"@ }) + code,
                style: plain_in(if active { Color::Green } else { Color::DarkGray }),
            }] + tool_marks(d, inner, i + 1, y1, x1 + code.len() + 2)
        }
    } else {
        Seq::empty()
    }
}

/// Whether the papers from the `i`-th on, from row `y` on, can be drawn:
/// the flow header and the line under it of each shown paper cut between
/// characters.
pub open spec fn papers_ok(d: PipelineData, inner: Area, i: int, y: int) -> bool
    decreases d.papers@.len() - i,
{
    if paper_shown(d, inner, i, y) {
        let p = d.papers@[i];
        &&& flow_header_cut(p, inner.width as int) is Some
        &&& cut_bytes(utf8(paper_detail(p)), inner.width as int) is Some
        &&& papers_ok(d, inner, i + 1, y + flow_rows(p) + 2)
    } else {
        true
    }
}

/// Whether the tools from the `i`-th on (as in `tool_marks`) can be drawn:
/// each code can be cut from its tool's name, and the columns stay within
/// `u16`.
pub open spec fn tools_ok(d: PipelineData, inner: Area, i: int, y: int, x: int) -> bool
    decreases d.components@.len() - i,
{
    if 0 <= i < d.components@.len() {
        let code = tool_code(d.components@[i].name@);
        let wrap = tool_wraps(d, inner, i, x);
        let y1 = if wrap { y + 1 } else { y };
        let x1 = if wrap { inner.x + 8 } else { x };
        &&& code is Some
        &&& x + code->0.len() + 3 <= u16::MAX
        &&& y1 < inner.bottom_edge() ==> x1 + code->0.len() + 2 <= u16::MAX
            && tools_ok(d, inner, i + 1, y1, x1 + code->0.len() + 2)
    } else {
        true
    }
}

/// Whether the pipeline screen over `area` can be drawn: always before the
/// status file was read; after, when its papers and its tools can.
pub open spec fn pipeline_ok(plane: PaperPipelinePlane, area: Area) -> bool {
    let inner = inside_borders(area);
    let bottom = inner.bottom_edge() as int;
    let y = papers_end(plane.data, inner, 0, inner.y as int);
    let y2 = if y < bottom { y + 1 } else { y };
    (area.height < 3 || area.width < 20) || !plane.loaded || (papers_ok(plane.data, inner, 0, inner.y as int)
        && (y2 < bottom ==> tools_ok(plane.data, inner, 0, y2, inner.x + 8)))
}

/// The pipeline screen over `area`: nothing when it is smaller than 20 by 3;
/// else the titled box; inside it, before the status file was read, the
/// waiting message centred when there are more than two rows; after, the
/// papers, a rule of `-` when a row is left, and `TOOLS:` with the tools
/// when a row is left.
pub open spec fn pipeline_marks(plane: PaperPipelinePlane, area: Area) -> Seq<Mark> {
    let inner = inside_borders(area);
    let bottom = inner.bottom_edge() as int;
    let frame = seq![Mark::Frame {
        area,
        title: main_title(plane.data),
        title_style: title_style(),
        border_style: screen_border_style(),
    }];
    if area.height < 3 || area.width < 20 {
        Seq::empty()
    } else if !plane.loaded {
        frame + if inner.height > 2 {
            seq![text_mark((inner.x + sat_sub(inner.width as int, byte_len(no_data_message()) as int) / 2) as u16,
                (inner.y + inner.height / 2) as u16, no_data_message(), italic_in(Color::DarkGray))]
        } else {
            Seq::empty()
        }
    } else {
        let y = papers_end(plane.data, inner, 0, inner.y as int);
        let y2 = if y < bottom { y + 1 } else { y };
        frame + paper_marks(plane.data, inner, 0, inner.y as int)
            + (if y < bottom {
                seq![text_mark(inner.x, y as u16, repeated('-', inner.width as nat), plain_in(Color::DarkGray))]
            } else {
                Seq::empty()
            })
            + (if y2 < bottom {
                seq![text_mark((inner.x + 1) as u16, y2 as u16, "TOOLS:"@, bold_in(Color::White))]
                    + tool_marks(plane.data, inner, 0, y2, inner.x + 8)
            } else {
                Seq::empty()
            })
    }
}

/// What the pipeline screen says before it has read the status file.
pub open spec fn no_data_message() -> Seq<char> {
    "No data -- waiting for .paper_pipeline.json"@
}

/// Whether `ops` is the pipeline screen over `area` before the status file
/// was read: the box, and the message centred inside it when there is room.
pub open spec fn waiting_screen(ops: Seq<Draw>, area: Area, d: PipelineData) -> bool {
    let inner = inside_borders(area);
    &&& frame_at(ops[0], area, main_title(d), title_style(), screen_border_style())
    &&& if inner.height > 2 {
        &&& ops.len() == 2
        &&& text_at(ops[1], (inner.x + sat_sub(inner.width as int, byte_len(no_data_message()) as int) / 2) as u16,
                (inner.y + inner.height / 2) as u16, no_data_message(),
                Style { fg: Some(Color::DarkGray), bg: None, bold: false, italic: true, underlined: false })
    } else {
        ops.len() == 1
    }
}

/// Whether `r` is the pipeline screen over `area`: nothing when the area is
/// smaller than 20 by 3; else the titled box first and everything else inside
/// it (the waiting message before the status file was read). Only a read
/// status file can make it fail.
pub open spec fn pipeline_screen_drawn(r: Option<Vec<Draw>>, plane: PaperPipelinePlane, area: Area) -> bool {
    &&& area.height < 3 || area.width < 20 ==> r is Some && r->0@.len() == 0
    &&& !(area.height < 3 || area.width < 20) ==> match r {
        Some(ops) => {
            &&& ops@.len() >= 1
            &&& frame_at(ops@[0], area, main_title(plane.data), title_style(), screen_border_style())
            &&& drawn_within(ops@, 1, inside_borders(area).x as int, inside_borders(area).y as int,
                    inside_borders(area).bottom_edge() as int)
            &&& !plane.loaded ==> waiting_screen(ops@, area, plane.data)
        },
        None => plane.loaded,
    }
    &&& r matches Some(ops) ==> marks(ops@) == pipeline_marks(plane, area)
}

impl PaperPipelinePlane {
    /// Draws the pipeline screen over `area`: nothing when it is smaller than
    /// 20 by 3; else a box titled with the engine version, the active and all
    /// tools and the papers tracked; inside it, before the status file was
    /// read, a centred message; after, the flows of the first papers, a
    /// separator and the row of tools, all within the box. Nothing where a
    /// text would be cut inside a character or a column would pass
    /// `u16::MAX`.
    #[verifier::spinoff_prover]
    #[verifier::rlimit(40)]
    pub fn render(&self, area: Area) -> (r: Option<Vec<Draw>>)
        requires
            fits_u16(area),
        ensures
            pipeline_screen_drawn(r, *self, area),
            r is Some <==> pipeline_ok(*self, area),
    {
        let mut ops: Vec<Draw> = Vec::new();
        if area.height < 3 || area.width < 20 {
            assert(marks(ops@) =~= pipeline_marks(*self, area));
            return Some(ops);
        }
        push_frame(&mut ops, area, main_title_of(&self.data), Style::bold(Color::Magenta), Style::fg(Color::Rgb(80, 40, 100)));
        let inner = bordered_inner(area);
        let bottom = inner.bottom();
        let ghost frame = marks(ops@);
        if !self.loaded {
            if inner.height > 2 {
                let msg = "No data -- waiting for .paper_pipeline.json";
                let mlen = byte_length(msg) as u16;
                proof {
                    assert(byte_len(msg@) < 100) by {
                        reveal_strlit("No data -- waiting for .paper_pipeline.json");
                        crate::draw::lemma_ascii_byte_len(msg@);
                    }
                }
                let x = inner.left() + (if inner.width > mlen { inner.width - mlen } else { 0 }) / 2;
                push_text(&mut ops, x, inner.top() + inner.height / 2, msg, Style::italic(Color::DarkGray));
            }
            assert(marks(ops@) =~= pipeline_marks(*self, area));
            return Some(ops);
        }
        let tw = inner.width;
        let y = match self.papers_section(inner, &mut ops) {
            Some(y) => y,
            None => {
                return None;
            },
        };
        let ghost m1 = marks(ops@);
        let mut y = y;
        if y < bottom {
            let sep = crate::draw::repeat_char('-', tw as usize);
            let ghost before = ops@;
            push_text(&mut ops, inner.left(), y, sep.as_str(), Style::fg(Color::DarkGray));
            proof {
                assert(ops@ == before.push(ops@.last()));
                crate::draw::lemma_drawn_within_push(before, ops@.last(), 1, inner.x as int, inner.y as int, bottom as int);
                assert(ops@[0] == before[0]);
            }
            y = y + 1;
        }
        let ghost m2 = marks(ops@);
        if y < bottom {
            if !self.tools_section(inner, y, &mut ops) {
                return None;
            }
        }
        proof {
            let y0 = papers_end(self.data, inner, 0, inner.y as int);
            assert(m2 =~= m1 + (if y0 < bottom {
                seq![text_mark(inner.x, y0 as u16, repeated('-', inner.width as nat), plain_in(Color::DarkGray))]
            } else {
                Seq::empty()
            }));
            assert(marks(ops@) =~= pipeline_marks(*self, area));
        }
        Some(ops)
    }
}

} // verus!
