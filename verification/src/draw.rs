use vstd::prelude::*;

use crate::style::Style;
use crate::text::{push_str, utf8};

verus! {

/// A rectangle of terminal cells: its top-left cell and its size.
#[derive(Debug, Clone, Copy, PartialEq, Eq, Structural)]
pub struct Area {
    pub x: u16,
    pub y: u16,
    pub width: u16,
    pub height: u16,
}

/// `a + b`, stopping at `u16::MAX`.
pub open spec fn sat_add(a: u16, b: u16) -> u16 {
    if a + b > u16::MAX { u16::MAX } else { (a + b) as u16 }
}

/// `a - b`, stopping at zero.
pub open spec fn sat_sub(a: int, b: int) -> int {
    if a < b { 0 } else { a - b }
}

impl Area {
    /// One past the last column, or `u16::MAX`.
    pub open spec fn right_edge(self) -> u16 {
        sat_add(self.x, self.width)
    }

    /// One past the last row, or `u16::MAX`.
    pub open spec fn bottom_edge(self) -> u16 {
        sat_add(self.y, self.height)
    }

    /// The first column.
    pub fn left(&self) -> (r: u16)
        ensures
            r == self.x,
    {
        self.x
    }

    /// The first row.
    pub fn top(&self) -> (r: u16)
        ensures
            r == self.y,
    {
        self.y
    }

    /// One past the last column, or `u16::MAX`.
    pub fn right(&self) -> (r: u16)
        ensures
            r == self.right_edge(),
    {
        if self.width > u16::MAX - self.x { u16::MAX } else { self.x + self.width }
    }

    /// One past the last row, or `u16::MAX`.
    pub fn bottom(&self) -> (r: u16)
        ensures
            r == self.bottom_edge(),
    {
        if self.height > u16::MAX - self.y { u16::MAX } else { self.y + self.height }
    }
}

/// What a screen draws: a titled box, a run of text from a cell onward, or a
/// progress bar. Text that reaches past the edge of the terminal is cut
/// there.
pub enum Draw {
    /// A box with borders all round and `title` on its top border.
    Frame { area: Area, title: String, title_style: Style, border_style: Style },
    /// `text` written from column `x` of row `y` onward.
    Text { x: u16, y: u16, text: String, style: Style },
    /// A bar `[###...] NN%` of `width` cells between the brackets at column
    /// `x` of row `y`, showing the fraction `done / total` (a whole bar for one
    /// or more).
    Progress { x: u16, y: u16, width: u16, done: u64, total: u64, style: Style },
}

impl Draw {
    /// The row a piece of drawing starts on.
    pub open spec fn row(self) -> int {
        match self {
            Draw::Frame { area, .. } => area.y as int,
            Draw::Text { y, .. } => y as int,
            Draw::Progress { y, .. } => y as int,
        }
    }

    /// The column a piece of drawing starts on.
    pub open spec fn column(self) -> int {
        match self {
            Draw::Frame { area, .. } => area.x as int,
            Draw::Text { x, .. } => x as int,
            Draw::Progress { x, .. } => x as int,
        }
    }
}

/// What a piece of drawing shows, as plain values: a box by its area, title
/// and styles; a run of text by its UTF-8 bytes; a progress bar.
pub enum Mark {
    Frame { area: Area, title: Seq<char>, title_style: Style, border_style: Style },
    Text { x: u16, y: u16, bytes: Seq<u8>, style: Style },
    Progress { x: u16, y: u16, width: u16, done: u64, total: u64, style: Style },
}

impl View for Draw {
    type V = Mark;

    open spec fn view(&self) -> Mark {
        match self {
            Draw::Frame { area, title, title_style, border_style } =>
                Mark::Frame { area: *area, title: title@, title_style: *title_style, border_style: *border_style },
            Draw::Text { x, y, text, style } => Mark::Text { x: *x, y: *y, bytes: utf8(text@), style: *style },
            Draw::Progress { x, y, width, done, total, style } =>
                Mark::Progress { x: *x, y: *y, width: *width, done: *done, total: *total, style: *style },
        }
    }
}

/// What a drawing shows, piece by piece.
pub open spec fn marks(ops: Seq<Draw>) -> Seq<Mark> {
    ops.map_values(|d: Draw| d@)
}

/// Text `t` at column `x` of row `y` in `style`.
pub open spec fn text_mark(x: u16, y: u16, t: Seq<char>, style: Style) -> Mark {
    Mark::Text { x, y, bytes: utf8(t), style }
}

/// A drawing with one more piece shows one more mark.
pub proof fn lemma_marks_push(before: Seq<Draw>, after: Seq<Draw>)
    requires
        after.len() == before.len() + 1,
        after.take(before.len() as int) == before,
    ensures
        marks(after) == marks(before).push(after.last()@),
{
    assert forall|i: int| 0 <= i < before.len() implies after[i] == before[i] by {
        assert(after.take(before.len() as int)[i] == after[i]);
    }
    assert(marks(after) =~= marks(before).push(after.last()@));
}

/// Two drawings one after the other show the marks of each in turn.
pub proof fn lemma_marks_append(a: Seq<Draw>, b: Seq<Draw>)
    ensures
        marks(a + b) == marks(a) + marks(b),
{
    assert(marks(a + b) =~= marks(a) + marks(b));
}

/// Whether every piece of `ops` after the first `skip` starts on a row of
/// `rows` at or right of column `left`.
pub open spec fn drawn_within(ops: Seq<Draw>, skip: int, left: int, top: int, bottom: int) -> bool {
    forall|i: int| skip <= i < ops.len() ==> left <= (#[trigger] ops[i]).column() && top <= ops[i].row() < bottom
}

/// The number of UTF-8 bytes of a character sequence: what `str::len` counts.
pub open spec fn byte_len(s: Seq<char>) -> nat {
    utf8(s).len()
}

/// `n` copies of `c`.
pub open spec fn repeated(c: char, n: nat) -> Seq<char> {
    Seq::new(n, |i: int| c)
}

/// `n` spaces.
pub open spec fn spaces(n: nat) -> Seq<char> {
    repeated(' ', n)
}

/// `s` padded with spaces at the end to `width` characters, as `{:<width}`
/// and `{:width}` format a string.
pub open spec fn padded(s: Seq<char>, width: nat) -> Seq<char> {
    if s.len() < width { s + spaces((width - s.len()) as nat) } else { s }
}

/// The decimal digits of `n`, as `{}` formats an integer.
pub open spec fn decimal(n: nat) -> Seq<char>
    decreases n,
{
    if n < 10 {
        seq![digit(n)]
    } else {
        decimal(n / 10).push(digit(n % 10))
    }
}

/// The digit character of a number below ten.
pub open spec fn digit(d: nat) -> char {
    if d == 0 { '0' }
    else if d == 1 { '1' }
    else if d == 2 { '2' }
    else if d == 3 { '3' }
    else if d == 4 { '4' }
    else if d == 5 { '5' }
    else if d == 6 { '6' }
    else if d == 7 { '7' }
    else if d == 8 { '8' }
    else { '9' }
}

/// The UTF-8 bytes of two sequences one after the other are the bytes of
/// each, one after the other.
pub proof fn lemma_utf8_concat(a: Seq<char>, b: Seq<char>)
    ensures
        utf8(a + b) == utf8(a) + utf8(b),
    decreases a.len(),
{
    if a.len() == 0 {
        assert(a + b =~= b);
        assert(utf8(a) =~= Seq::<u8>::empty());
        assert(utf8(a) + utf8(b) =~= utf8(b));
    } else {
        lemma_utf8_concat(a.drop_first(), b);
        assert((a + b).drop_first() =~= a.drop_first() + b);
        assert((a + b)[0] == a[0]);
        assert(utf8(a + b) == vstd::utf8::encode_scalar(a[0] as u32) + utf8(a.drop_first() + b));
        assert(utf8(a) == vstd::utf8::encode_scalar(a[0] as u32) + utf8(a.drop_first()));
        assert(utf8(a + b) =~= utf8(a) + utf8(b));
    }
}

/// A character sequence has no UTF-8 bytes exactly when it is empty.
pub proof fn lemma_byte_len_empty(s: Seq<char>)
    ensures
        (byte_len(s) == 0) == (s.len() == 0),
{
    if s.len() > 0 {
        let c = s[0] as u32;
        assert(vstd::utf8::encode_scalar(c).len() > 0);
        assert(utf8(s) == vstd::utf8::encode_scalar(c) + utf8(s.drop_first()));
    } else {
        assert(utf8(s) =~= Seq::<u8>::empty());
    }
}

/// A sequence of characters below 128 takes one byte per character.
pub proof fn lemma_ascii_byte_len(s: Seq<char>)
    requires
        forall|i: int| 0 <= i < s.len() ==> (#[trigger] s[i] as u32) < 128,
    ensures
        byte_len(s) == s.len(),
    decreases s.len(),
{
    if s.len() > 0 {
        let c = s[0] as u32;
        assert(vstd::utf8::has_width_1_encoding(c));
        assert(vstd::utf8::encode_scalar(c).len() == 1);
        assert(utf8(s) == vstd::utf8::encode_scalar(c) + utf8(s.drop_first()));
        lemma_ascii_byte_len(s.drop_first());
    } else {
        assert(utf8(s) =~= Seq::<u8>::empty());
    }
}

/// Appends `n` copies of `c` to `s`.
pub fn push_repeated(s: &mut String, c: char, n: usize)
    ensures
        final(s)@ == old(s)@ + repeated(c, n as nat),
{
    let ghost start = s@;
    let mut i: usize = 0;
    while i < n
        invariant
            i <= n,
            s@ == start + repeated(c, i as nat),
        decreases n - i,
    {
        crate::text::push_char(s, c);
        i += 1;
        assert(s@ =~= start + repeated(c, i as nat));
    }
}

/// `n` copies of `c`, as `str::repeat` makes them.
pub fn repeat_char(c: char, n: usize) -> (r: String)
    ensures
        r@ == repeated(c, n as nat),
{
    let mut s = String::new();
    push_repeated(&mut s, c, n);
    assert(s@ =~= repeated(c, n as nat));
    s
}

/// The digit character of `d`.
fn digit_char(d: u64) -> (c: char)
    requires
        d < 10,
    ensures
        c == digit(d as nat),
{
    if d == 0 { '0' }
    else if d == 1 { '1' }
    else if d == 2 { '2' }
    else if d == 3 { '3' }
    else if d == 4 { '4' }
    else if d == 5 { '5' }
    else if d == 6 { '6' }
    else if d == 7 { '7' }
    else if d == 8 { '8' }
    else { '9' }
}

/// Appends the decimal digits of `n` to `s`.
pub fn push_decimal(s: &mut String, n: u64)
    ensures
        final(s)@ == old(s)@ + decimal(n as nat),
    decreases n,
{
    if n < 10 {
        crate::text::push_char(s, digit_char(n));
        assert(decimal(n as nat) =~= seq![digit(n as nat)]);
    } else {
        let ghost start = s@;
        push_decimal(s, n / 10);
        crate::text::push_char(s, digit_char(n % 10));
        assert(s@ =~= start + decimal(n as nat));
    }
}

/// The decimal digits of `n`.
pub fn decimal_string(n: u64) -> (r: String)
    ensures
        r@ == decimal(n as nat),
{
    let mut s = String::new();
    push_decimal(&mut s, n);
    assert(s@ =~= decimal(n as nat));
    s
}

/// Appends `t` to `s`, padded with spaces at the end to `width` characters.
pub fn push_padded(s: &mut String, t: &str, width: usize)
    ensures
        final(s)@ == old(s)@ + padded(t@, width as nat),
{
    let n = crate::text::chars_of(t).len();
    push_str(s, t);
    if n < width {
        push_repeated(s, ' ', width - n);
    }
    assert(final(s)@ =~= old(s)@ + padded(t@, width as nat));
}

/// The first `n` bytes of `b` (all of them when there are fewer), as
/// `&s[..n]` slices a string with bytes `b`; nothing when byte `n` falls
/// inside a character, where that slice panics.
pub open spec fn cut_bytes(b: Seq<u8>, n: int) -> Option<Seq<u8>> {
    if n >= b.len() {
        Some(b)
    } else if vstd::utf8::is_char_boundary(b, n) {
        Some(b.take(n))
    } else {
        None
    }
}

/// The first `n` bytes of `s` (all of it when it is shorter), as `&s[..n]`
/// slices it; nothing when byte `n` falls inside a character, where the
/// slice would panic.
pub fn byte_prefix(s: &str, n: usize) -> (r: Option<String>)
    ensures
        match r {
            Some(p) => cut_bytes(utf8(s@), n as int) == Some(utf8(p@)),
            None => cut_bytes(utf8(s@), n as int) is None,
        },
{
    let len = s.as_bytes().len();
    if n >= len {
        return Some(crate::text::owned(s));
    }
    if !s.is_char_boundary(n) {
        return None;
    }
    let (a, _b) = s.split_at(n);
    let p = crate::text::owned(a);
    assert(utf8(p@) =~= utf8(s@).take(n as int));
    Some(p)
}

} // verus!

verus! {

/// The number of UTF-8 bytes of `s`: its `len()`.
pub fn byte_length(s: &str) -> (r: usize)
    ensures
        r == byte_len(s@),
{
    s.as_bytes().len()
}

/// Appends `t` to `s`.
pub fn append(s: &mut String, t: &str)
    ensures
        final(s)@ == old(s)@ + t@,
        utf8(final(s)@) == utf8(old(s)@) + utf8(t@),
{
    push_str(s, t);
    proof {
        lemma_utf8_concat(old(s)@, t@);
    }
}

/// Adds text `t` cut to its first `n` bytes at column `x` of row `y`, as a
/// screen writes `&t[..n]`; says whether the cut fell between characters
/// (where it did not, nothing is added).
pub fn push_cut_text(ops: &mut Vec<Draw>, x: u16, y: u16, t: &str, n: usize, style: Style) -> (ok: bool)
    ensures
        ok == cut_bytes(utf8(t@), n as int) is Some,
        ok ==> final(ops)@.len() == old(ops)@.len() + 1
            && final(ops)@.take(old(ops)@.len() as int) == old(ops)@
            && text_bytes_at(final(ops)@.last(), x, y, cut_bytes(utf8(t@), n as int)->0, style),
        ok ==> marks(final(ops)@) == marks(old(ops)@).push(
            Mark::Text { x, y, bytes: cut_bytes(utf8(t@), n as int)->0, style }),
        !ok ==> final(ops)@ == old(ops)@,
{
    match byte_prefix(t, n) {
        Some(p) => {
            ops.push(Draw::Text { x, y, text: p, style });
            assert(ops@.take(old(ops)@.len() as int) =~= old(ops)@);
            proof { lemma_marks_push(old(ops)@, ops@); }
            true
        },
        None => false,
    }
}

/// Whether `op` is the text `t` at column `x` of row `y` in `style`.
pub open spec fn text_at(op: Draw, x: u16, y: u16, t: Seq<char>, style: Style) -> bool {
    &&& op is Text
    &&& op->Text_x == x
    &&& op->Text_y == y
    &&& op->Text_text@ == t
    &&& op->Text_style == style
}

/// Whether `op` is a text with UTF-8 bytes `b` at column `x` of row `y` in `style`.
pub open spec fn text_bytes_at(op: Draw, x: u16, y: u16, b: Seq<u8>, style: Style) -> bool {
    &&& op is Text
    &&& op->Text_x == x
    &&& op->Text_y == y
    &&& utf8(op->Text_text@) == b
    &&& op->Text_style == style
}

/// Adds text `t` at column `x` of row `y`.
pub fn push_text(ops: &mut Vec<Draw>, x: u16, y: u16, t: &str, style: Style)
    ensures
        final(ops)@.len() == old(ops)@.len() + 1,
        final(ops)@.take(old(ops)@.len() as int) == old(ops)@,
        text_at(final(ops)@.last(), x, y, t@, style),
        marks(final(ops)@) == marks(old(ops)@).push(text_mark(x, y, t@, style)),
{
    ops.push(Draw::Text { x, y, text: crate::text::owned(t), style });
    assert(ops@.take(old(ops)@.len() as int) =~= old(ops)@);
    proof { lemma_marks_push(old(ops)@, ops@); }
}

} // verus!

verus! {

/// Whether `op` is a box over `area` with title `title`.
pub open spec fn frame_at(op: Draw, area: Area, title: Seq<char>, title_style: Style, border_style: Style) -> bool {
    &&& op is Frame
    &&& op->Frame_area == area
    &&& op->Frame_title@ == title
    &&& op->Frame_title_style == title_style
    &&& op->Frame_border_style == border_style
}

/// The cells inside a box with borders all round over `area`: one cell in
/// from each edge, as `Block::inner` computes it for such a box.
pub open spec fn inside_borders(a: Area) -> Area {
    let x1 = if sat_add(a.x, 1) < a.right_edge() { sat_add(a.x, 1) } else { a.right_edge() };
    let y1 = if sat_add(a.y, 1) < a.bottom_edge() { sat_add(a.y, 1) } else { a.bottom_edge() };
    Area { x: x1, y: y1, width: sat_sub(a.width as int, 2) as u16, height: sat_sub(a.height as int, 2) as u16 }
}

/// Calls `Block::inner` of ratatui on a block with borders all round: the
/// area inside the borders, one cell in from each edge (the block has no
/// padding, and with a top border its title takes no row of its own).
#[verifier::external_body]
pub(crate) fn bordered_inner(area: Area) -> (r: Area)
    ensures
        r == inside_borders(area),
{
    let rect = ratatui::layout::Rect { x: area.x, y: area.y, width: area.width, height: area.height };
    let inner = ratatui::widgets::Block::default().borders(ratatui::widgets::Borders::ALL).inner(rect);
    Area { x: inner.x, y: inner.y, width: inner.width, height: inner.height }
}

/// The area that `Rect::new` of ratatui makes: the width and height cut so
/// that the right and bottom edges stay within `u16`.
pub open spec fn area_new(x: u16, y: u16, width: u16, height: u16) -> Area {
    Area {
        x,
        y,
        width: if width > u16::MAX - x { (u16::MAX - x) as u16 } else { width },
        height: if height > u16::MAX - y { (u16::MAX - y) as u16 } else { height },
    }
}

/// Calls `Rect::new` of ratatui.
#[verifier::external_body]
pub(crate) fn new_area(x: u16, y: u16, width: u16, height: u16) -> (r: Area)
    ensures
        r == area_new(x, y, width, height),
{
    let rect = ratatui::layout::Rect::new(x, y, width, height);
    Area { x: rect.x, y: rect.y, width: rect.width, height: rect.height }
}

/// Adds a box with borders all round over `area`, with a title.
pub fn push_frame(ops: &mut Vec<Draw>, area: Area, title: String, title_style: Style, border_style: Style)
    ensures
        final(ops)@.len() == old(ops)@.len() + 1,
        final(ops)@.take(old(ops)@.len() as int) == old(ops)@,
        frame_at(final(ops)@.last(), area, title@, title_style, border_style),
        marks(final(ops)@) == marks(old(ops)@).push(Mark::Frame { area, title: title@, title_style, border_style }),
{
    ops.push(Draw::Frame { area, title, title_style, border_style });
    assert(ops@.take(old(ops)@.len() as int) =~= old(ops)@);
    proof { lemma_marks_push(old(ops)@, ops@); }
}

} // verus!

verus! {

/// Drawing within some rows stays within any rows around them, after more
/// drawing within them is added.
pub proof fn lemma_drawn_within_append(
    a: Seq<Draw>,
    b: Seq<Draw>,
    skip: int,
    left: int,
    top: int,
    bottom: int,
    btop: int,
    bbottom: int,
)
    requires
        drawn_within(a, skip, left, top, bottom),
        drawn_within(b, 0, left, btop, bbottom),
        top <= btop,
        bbottom <= bottom,
        0 <= skip <= a.len(),
    ensures
        drawn_within(a + b, skip, left, top, bottom),
{
    assert forall|i: int| skip <= i < (a + b).len() implies left <= (#[trigger] (a + b)[i]).column() && top <= (a + b)[i].row() < bottom by {
        if i < a.len() {
            assert((a + b)[i] == a[i]);
        } else {
            assert((a + b)[i] == b[i - a.len()]);
        }
    }
}

/// Drawing within some rows stays within them after one more piece within them.
pub proof fn lemma_drawn_within_push(a: Seq<Draw>, op: Draw, skip: int, left: int, top: int, bottom: int)
    requires
        drawn_within(a, skip, left, top, bottom),
        left <= op.column(),
        top <= op.row() < bottom,
        0 <= skip <= a.len(),
    ensures
        drawn_within(a.push(op), skip, left, top, bottom),
{
    assert forall|i: int| skip <= i < a.push(op).len() implies left <= (#[trigger] a.push(op)[i]).column() && top <= a.push(op)[i].row() < bottom by {
        if i < a.len() {
            assert(a.push(op)[i] == a[i]);
        }
    }
}

} // verus!

verus! {

/// Adds text `t` at column `x` of row `y`, inside the rows and right of the
/// column that the drawing so far keeps to.
pub(crate) fn push_text_in(
    ops: &mut Vec<Draw>,
    x: u16,
    y: u16,
    t: &str,
    style: Style,
    Ghost(skip): Ghost<int>,
    Ghost(left): Ghost<int>,
    Ghost(top): Ghost<int>,
    Ghost(bottom): Ghost<int>,
)
    requires
        drawn_within(old(ops)@, skip, left, top, bottom),
        0 <= skip <= old(ops)@.len(),
        left <= x,
        top <= y < bottom,
    ensures
        drawn_within(final(ops)@, skip, left, top, bottom),
        final(ops)@.len() == old(ops)@.len() + 1,
        final(ops)@.take(old(ops)@.len() as int) == old(ops)@,
        text_at(final(ops)@.last(), x, y, t@, style),
        marks(final(ops)@) == marks(old(ops)@).push(text_mark(x, y, t@, style)),
{
    let ghost before = ops@;
    push_text(ops, x, y, t, style);
    proof {
        assert(ops@ =~= before.push(ops@.last()));
        lemma_drawn_within_push(before, ops@.last(), skip, left, top, bottom);
    }
}

/// Adds text `t` cut to its first `n` bytes at column `x` of row `y`, inside
/// the rows and right of the column that the drawing so far keeps to; says
/// whether the cut fell between characters.
pub(crate) fn push_cut_text_in(
    ops: &mut Vec<Draw>,
    x: u16,
    y: u16,
    t: &str,
    n: usize,
    style: Style,
    Ghost(skip): Ghost<int>,
    Ghost(left): Ghost<int>,
    Ghost(top): Ghost<int>,
    Ghost(bottom): Ghost<int>,
) -> (ok: bool)
    requires
        drawn_within(old(ops)@, skip, left, top, bottom),
        0 <= skip <= old(ops)@.len(),
        left <= x,
        top <= y < bottom,
    ensures
        drawn_within(final(ops)@, skip, left, top, bottom),
        ok == cut_bytes(utf8(t@), n as int) is Some,
        ok ==> final(ops)@.len() == old(ops)@.len() + 1
            && final(ops)@.take(old(ops)@.len() as int) == old(ops)@
            && text_bytes_at(final(ops)@.last(), x, y, cut_bytes(utf8(t@), n as int)->0, style),
        ok ==> marks(final(ops)@) == marks(old(ops)@).push(
            Mark::Text { x, y, bytes: cut_bytes(utf8(t@), n as int)->0, style }),
        !ok ==> final(ops)@ == old(ops)@,
{
    let ghost before = ops@;
    let ok = push_cut_text(ops, x, y, t, n, style);
    proof {
        if ok {
            assert(ops@ =~= before.push(ops@.last()));
            lemma_drawn_within_push(before, ops@.last(), skip, left, top, bottom);
        }
    }
    ok
}

/// Adds text `t` cut to at most `width` bytes (`&t[..t.len().min(width)]`).
pub(crate) fn push_fitted_in(
    ops: &mut Vec<Draw>,
    x: u16,
    y: u16,
    t: &str,
    width: usize,
    style: Style,
    Ghost(skip): Ghost<int>,
    Ghost(left): Ghost<int>,
    Ghost(top): Ghost<int>,
    Ghost(bottom): Ghost<int>,
) -> (ok: bool)
    requires
        drawn_within(old(ops)@, skip, left, top, bottom),
        0 <= skip <= old(ops)@.len(),
        left <= x,
        top <= y < bottom,
    ensures
        drawn_within(final(ops)@, skip, left, top, bottom),
        ok == cut_bytes(utf8(t@), width as int) is Some,
        ok ==> final(ops)@.len() == old(ops)@.len() + 1
            && final(ops)@.take(old(ops)@.len() as int) == old(ops)@
            && text_bytes_at(final(ops)@.last(), x, y, cut_bytes(utf8(t@), width as int)->0, style),
        ok ==> marks(final(ops)@) == marks(old(ops)@).push(
            Mark::Text { x, y, bytes: cut_bytes(utf8(t@), width as int)->0, style }),
        !ok ==> final(ops)@ == old(ops)@,
{
    let n = byte_length(t);
    let m: usize = if n < width { n } else { width };
    assert(cut_bytes(utf8(t@), m as int) == cut_bytes(utf8(t@), width as int));
    push_cut_text_in(ops, x, y, t, m, style, Ghost(skip), Ghost(left), Ghost(top), Ghost(bottom))
}

} // verus!

verus! {

/// Bytes `a` to `b` of a string with bytes `bytes`, as `&s[a..b]` slices
/// it (for `a <= b <= len`); nothing when either end falls inside a
/// character, where that slice panics.
pub open spec fn slice_bytes(bytes: Seq<u8>, a: int, b: int) -> Option<Seq<u8>> {
    if vstd::utf8::is_char_boundary(bytes, a) && vstd::utf8::is_char_boundary(bytes, b) {
        Some(bytes.subrange(a, b))
    } else {
        None
    }
}

/// A character boundary at or after another stays one in the bytes from
/// the other on.
proof fn slice_boundary(bytes: Seq<u8>, a: int, b: int)
    requires
        vstd::utf8::valid_utf8(bytes),
        0 <= a <= b <= bytes.len(),
        vstd::utf8::is_char_boundary(bytes, a),
        vstd::utf8::is_char_boundary(bytes, b),
    ensures
        vstd::utf8::valid_utf8(bytes.subrange(a, bytes.len() as int)),
        vstd::utf8::is_char_boundary(bytes.subrange(a, bytes.len() as int), b - a),
{
    let rest = bytes.subrange(a, bytes.len() as int);
    vstd::utf8::valid_utf8_split(bytes, a);
    if b == bytes.len() {
        vstd::utf8::is_char_boundary_start_end_of_seq(rest);
        assert(rest.len() == b - a);
    } else if b == a {
        vstd::utf8::is_char_boundary_start_end_of_seq(rest);
    } else {
        vstd::utf8::is_char_boundary_iff_not_is_continuation_byte(bytes, b);
        vstd::utf8::is_char_boundary_iff_not_is_continuation_byte(rest, b - a);
        assert(rest[b - a] == bytes[b]);
    }
}

/// Bytes `a` to `b` of `s`, as `&s[a..b]` slices it; nothing when either
/// end falls inside a character, where the slice would panic.
pub fn byte_slice(s: &str, a: usize, b: usize) -> (r: Option<String>)
    requires
        a <= b <= byte_len(s@),
    ensures
        match r {
            Some(p) => slice_bytes(utf8(s@), a as int, b as int) == Some(utf8(p@)),
            None => slice_bytes(utf8(s@), a as int, b as int) is None,
        },
{
    if !s.is_char_boundary(a) || !s.is_char_boundary(b) {
        return None;
    }
    let (_x, rest) = s.split_at(a);
    proof {
        vstd::utf8::encode_utf8_valid_utf8(s@);
        assert(utf8(rest@) =~= utf8(s@).subrange(a as int, utf8(s@).len() as int));
        assert(vstd::utf8::is_char_boundary(utf8(rest@), (b - a) as int)) by {
            slice_boundary(utf8(s@), a as int, b as int);
        }
    }
    let (mid, _y) = rest.split_at(b - a);
    let p = crate::text::owned(mid);
    assert(utf8(p@) =~= utf8(s@).subrange(a as int, b as int));
    Some(p)
}

} // verus!
