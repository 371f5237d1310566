use vstd::prelude::*;

use crate::app::{App, InputSlot, ProjectConfig, Screen};
use crate::order::{stable_sort, stably_sorted};
use crate::draw::{
    bordered_inner, byte_len, byte_length, cut_bytes, drawn_within, frame_at, inside_borders, marks, new_area,
    push_decimal, push_fitted_in, push_frame, push_padded, push_text_in, repeated, sat_sub, text_at, text_mark,
    Area, Draw, Mark,
};
use crate::paths::{path_eq, plain_absolute, same_path};
use crate::pipeline_view::{fits_u16, screen_border_style, title_style};
use crate::stage_view::{line_marks, lines_end, lines_ok};
use crate::style::{bold_in, highlight_in, italic_in, plain_in, Color, Style};
use crate::text::{insert_char, owned, push_str, remove_char, utf8};

verus! {

/// The project name field.
pub const FIELD_NAME: usize = 0;
/// The target venue field.
pub const FIELD_VENUE: usize = 1;
/// The first input slot row.
pub const FIELD_SLOT_FIRST: usize = 2;
/// The last input slot row.
pub const FIELD_SLOT_LAST: usize = 5;
/// The start button.
pub const FIELD_START: usize = 6;
/// The number of rows on the input screen.
pub const TOTAL_FIELDS: usize = 7;

/// What a read of one directory found: its parent directory, if it has one,
/// and the paths of its subdirectories and of its other entries, in any order.
pub struct DirListing {
    pub parent: Option<String>,
    pub dirs: Vec<String>,
    pub files: Vec<String>,
}

/// A minimal file browser for choosing input files.
pub struct FileBrowser {
    pub dir: String,
    pub entries: Vec<String>,
    pub selected: usize,
    pub scroll_offset: usize,
}

/// The parent entry of a listing, if there is one.
pub open spec fn parent_entry(parent: Option<String>) -> Seq<String> {
    match parent {
        Some(p) => seq![p],
        None => Seq::empty(),
    }
}

/// `entries` lists a directory as the browser shows it: the parent directory
/// first, then the subdirectories sorted, then the other entries sorted.
pub open spec fn browser_entries(listing: DirListing, entries: Seq<String>) -> bool {
    exists|dirs: Seq<String>, files: Seq<String>|
        #[trigger] stably_sorted(listing.dirs@, dirs) && #[trigger] stably_sorted(listing.files@, files)
            && entries == parent_entry(listing.parent) + dirs + files
}

/// The browser after moving up one entry.
pub open spec fn browser_up(b: FileBrowser) -> FileBrowser {
    if b.selected > 0 {
        let s = (b.selected - 1) as usize;
        FileBrowser { selected: s, scroll_offset: if s < b.scroll_offset { s } else { b.scroll_offset }, ..b }
    } else {
        b
    }
}

/// The browser after moving down one entry.
pub open spec fn browser_down(b: FileBrowser) -> FileBrowser {
    if b.selected + 1 < b.entries@.len() {
        FileBrowser { selected: (b.selected + 1) as usize, ..b }
    } else {
        b
    }
}

fn listed_entries(listing: DirListing) -> (r: Vec<String>)
    ensures
        browser_entries(listing, r@),
{
    let ghost l = listing;
    let DirListing { parent, dirs, files } = listing;
    let ghost (d0, f0) = (dirs@, files@);
    let mut entries: Vec<String> = Vec::new();
    match parent {
        Some(p) => entries.push(p),
        None => {},
    }
    let mut dirs = stable_sort(dirs);
    let mut files = stable_sort(files);
    let ghost (d1, f1) = (dirs@, files@);
    entries.append(&mut dirs);
    entries.append(&mut files);
    proof {
        assert(stably_sorted(l.dirs@, d1) && stably_sorted(l.files@, f1));
        assert(entries@ =~= parent_entry(l.parent) + d1 + f1);
    }
    entries
}

impl FileBrowser {
    /// A browser showing `dir`, whose listing is `listing`, with the first entry selected.
    pub fn new(dir: String, listing: DirListing) -> (r: Self)
        ensures
            r.dir == dir,
            browser_entries(listing, r.entries@),
            r.selected == 0,
            r.scroll_offset == 0,
    {
        FileBrowser { dir, entries: listed_entries(listing), selected: 0, scroll_offset: 0 }
    }

    /// Shows the directory `path`, whose listing is `listing`, from its first entry.
    pub fn enter_dir(&mut self, path: &str, listing: DirListing)
        ensures
            final(self).dir@ == path@,
            browser_entries(listing, final(self).entries@),
            final(self).selected == 0,
            final(self).scroll_offset == 0,
    {
        self.dir = owned(path);
        self.entries = listed_entries(listing);
        self.selected = 0;
        self.scroll_offset = 0;
    }

    /// Selects the entry above, scrolling up to it when it is above the view.
    pub fn move_up(&mut self)
        ensures
            *final(self) == browser_up(*old(self)),
    {
        if self.selected > 0 {
            self.selected -= 1;
            if self.selected < self.scroll_offset {
                self.scroll_offset = self.selected;
            }
        }
    }

    /// Selects the entry below, if any.
    pub fn move_down(&mut self)
        ensures
            *final(self) == browser_down(*old(self)),
    {
        if self.entries.len() > 0 && self.selected < self.entries.len() - 1 {
            self.selected += 1;
        }
    }

    /// The selected entry.
    pub fn selected_path(&self) -> (r: Option<String>)
        ensures
            match r {
                Some(p) => self.selected < self.entries@.len() && p == self.entries@[self.selected as int],
                None => self.selected >= self.entries@.len(),
            },
    {
        if self.selected < self.entries.len() {
            Some(self.entries[self.selected].clone())
        } else {
            None
        }
    }
}

/// What the input screen asks of the file system after a key press.
pub enum BrowseRequest {
    /// Nothing.
    Nothing,
    /// Open the file browser on the current directory: list it and give the
    /// browser to `open_browser`.
    ListCurrentDir,
    /// Enter the selected directory: list it and give it to the browser's `enter_dir`.
    ListDir(String),
}

/// Screen 2: the project name, the venue, the four input slots and the start button.
pub struct InputFilesState {
    /// 0 is the name, 1 the venue, 2 to 5 the input slots, 6 the start button.
    pub selected: usize,
    /// Whether a text field is being edited.
    pub editing: bool,
    /// The text being edited.
    pub edit_buf: String,
    /// The byte position of the cursor in `edit_buf`.
    pub cursor_pos: usize,
    /// Whether the file browser is open.
    pub browsing: bool,
    pub browser: FileBrowser,
}

impl InputFilesState {
    /// The states the screen can reach: a row of the screen is selected, the
    /// browser is open only for an input slot, only a text field is edited,
    /// and never both at once.
    pub open spec fn wf(self) -> bool {
        &&& self.selected < TOTAL_FIELDS
        &&& self.browsing ==> FIELD_SLOT_FIRST <= self.selected <= FIELD_SLOT_LAST
        &&& self.editing ==> self.selected <= FIELD_VENUE
        &&& !(self.editing && self.browsing)
    }
}

/// The input screen after the up key.
pub open spec fn input_up(s: InputFilesState) -> InputFilesState {
    if s.browsing {
        InputFilesState { browser: browser_up(s.browser), ..s }
    } else if !s.editing && s.selected > 0 {
        InputFilesState { selected: (s.selected - 1) as usize, ..s }
    } else {
        s
    }
}

/// The input screen after the down key.
pub open spec fn input_down(s: InputFilesState) -> InputFilesState {
    if s.browsing {
        InputFilesState { browser: browser_down(s.browser), ..s }
    } else if !s.editing && s.selected + 1 < TOTAL_FIELDS {
        InputFilesState { selected: (s.selected + 1) as usize, ..s }
    } else {
        s
    }
}

/// The slot list after choosing the file `p` for slot `k`: the file is added
/// unless the slot already holds it (among plainly written absolute paths,
/// unless it holds the same text, so a file of the same name from another
/// directory is added); a slot that does not exist is left alone.
pub open spec fn slots_with_file(old_slots: Seq<InputSlot>, new_slots: Seq<InputSlot>, k: int, p: String) -> bool {
    &&& new_slots.len() == old_slots.len()
    &&& forall|j: int| 0 <= j < new_slots.len() && j != k ==> #[trigger] new_slots[j] == old_slots[j]
    &&& 0 <= k < old_slots.len() ==> {
        let (o, n) = (old_slots[k], new_slots[k]);
        &&& n.label == o.label && n.description == o.description && n.kind == o.kind
        &&& n.path == o.path && n.required == o.required
        &&& n.files@ == if has_path(o.files@, p@) { o.files@ } else { o.files@.push(p) }
        &&& all_plain(o.files@, p@) ==> n.files@ == if holds_text(o.files@, p@) { o.files@ } else { o.files@.push(p) }
    }
}

/// The bytes `b` with the UTF-8 encoding of `ch` spliced in at byte `i`.
pub open spec fn spliced_in(b: Seq<u8>, i: int, ch: char) -> Seq<u8> {
    b.subrange(0, i) + utf8(seq![ch]) + b.subrange(i, b.len() as int)
}

/// The bytes `b` without the character that starts at byte `i`.
pub open spec fn cut_out(b: Seq<u8>, i: int) -> Seq<u8> {
    let w = vstd::utf8::length_of_first_scalar(b.subrange(i, b.len() as int));
    b.subrange(0, i) + b.subrange(i + w, b.len() as int)
}

/// Typing can go ahead: while editing, the cursor stands on a character boundary.
pub open spec fn can_type(s: InputFilesState) -> bool {
    s.editing ==> vstd::utf8::is_char_boundary(utf8(s.edit_buf@), s.cursor_pos as int)
        && s.cursor_pos < usize::MAX
}

/// Backspace can go ahead: while editing with the cursor after the start, the
/// byte before the cursor starts a character.
pub open spec fn can_backspace(s: InputFilesState) -> bool {
    s.editing && s.cursor_pos > 0 ==> {
        let b = utf8(s.edit_buf@);
        &&& s.cursor_pos - 1 < b.len()
        &&& vstd::utf8::is_char_boundary(b, s.cursor_pos - 1)
    }
}

/// `t` is `s` after typing `ch`: while editing, the character is inserted at
/// the cursor and the cursor moves one byte right; otherwise nothing changes.
pub open spec fn typed(s: InputFilesState, t: InputFilesState, ch: char) -> bool {
    if s.editing {
        &&& t == (InputFilesState { edit_buf: t.edit_buf, cursor_pos: (s.cursor_pos + 1) as usize, ..s })
        &&& utf8(t.edit_buf@) == spliced_in(utf8(s.edit_buf@), s.cursor_pos as int, ch)
    } else {
        t == s
    }
}

/// `t` is `s` after backspace: while editing with the cursor after the start,
/// the cursor moves one byte left and the character there is removed;
/// otherwise nothing changes.
pub open spec fn backspaced(s: InputFilesState, t: InputFilesState) -> bool {
    if s.editing && s.cursor_pos > 0 {
        &&& t == (InputFilesState { edit_buf: t.edit_buf, cursor_pos: (s.cursor_pos - 1) as usize, ..s })
        &&& utf8(t.edit_buf@) == cut_out(utf8(s.edit_buf@), s.cursor_pos - 1)
    } else {
        t == s
    }
}

/// `t` and `b` are the input screen and the app after the Enter key on `s`
/// and `a`, and `r` is what the screen asks of the file system.
pub open spec fn entered(s: InputFilesState, t: InputFilesState, a: App, b: App, selected_is_dir: bool, r: BrowseRequest) -> bool {
    &&& (s.wf() ==> t.wf())
    &&& (b.recents == a.recents)
    &&& (b.should_quit == a.should_quit)
    // The browser is open.
    &&& (s.browsing && s.browser.selected >= s.browser.entries@.len() ==> {
            &&& t == s && b == a
            &&& r is Nothing
        })
    &&& (s.browsing && s.browser.selected < s.browser.entries@.len() && selected_is_dir ==> {
            &&& t == s && b == a
            &&& r matches BrowseRequest::ListDir(p) && p == s.browser.entries@[s.browser.selected as int]
        })
    &&& (s.browsing && s.browser.selected < s.browser.entries@.len() && !selected_is_dir ==> {
            &&& t == (InputFilesState { browsing: false, ..s })
            &&& b.screen == a.screen
            &&& b.config.name == a.config.name
            &&& b.config.venue == a.config.venue
            &&& b.config.project_dir == a.config.project_dir
            &&& b.config.output_dir == a.config.output_dir
            &&& slots_with_file(a.config.slots@, b.config.slots@,
                s.selected - FIELD_SLOT_FIRST,
                s.browser.entries@[s.browser.selected as int])
            &&& r is Nothing
        })
    // A text field is being edited.
    &&& (!s.browsing && s.editing ==> {
            &&& t == (InputFilesState { editing: false, ..s })
            &&& b.screen == a.screen
            &&& b.config == (if s.selected == FIELD_NAME {
                ProjectConfig { name: s.edit_buf, ..a.config }
            } else if s.selected == FIELD_VENUE {
                ProjectConfig { venue: s.edit_buf, ..a.config }
            } else {
                a.config
            })
            &&& r is Nothing
        })
    // A row is selected.
    &&& (!s.browsing && !s.editing && s.selected <= FIELD_VENUE ==> {
            let text = if s.selected == FIELD_NAME { a.config.name } else { a.config.venue };
            &&& t == (InputFilesState {
                editing: true,
                edit_buf: text,
                cursor_pos: utf8(text@).len() as usize,
                ..s
            })
            &&& b == a
            &&& r is Nothing
        })
    &&& (!s.browsing && !s.editing && FIELD_SLOT_FIRST <= s.selected <= FIELD_SLOT_LAST ==> {
            &&& t == (InputFilesState { browsing: true, ..s })
            &&& b == a
            &&& r is ListCurrentDir
        })
    &&& (!s.browsing && !s.editing && s.selected > FIELD_START ==> t == s && b == a && r is Nothing)
    &&& (!s.browsing && !s.editing && s.selected == FIELD_START ==> {
            &&& t == s
            &&& b == if a.config.name@.len() > 0 {
                App { screen: Screen::PipelineExecution, ..a }
            } else {
                a
            }
            &&& r is Nothing
        })
}

/// `t` and `b` are the input screen and the app after the Escape key on `s` and `a`.
pub open spec fn escaped(s: InputFilesState, t: InputFilesState, a: App, b: App) -> bool {
    &&& (s.browsing ==> t == (InputFilesState { browsing: false, ..s })
            && b == a)
    &&& (!s.browsing && s.editing ==> t == (InputFilesState { editing: false, ..s })
            && b == a)
    &&& (!s.browsing && !s.editing ==> t == s
            && b == (App { screen: Screen::ProjectSelect, ..a }))
    &&& (s.wf() ==> t.wf())
}

/// `t` and `b` are the input screen and the app after the delete-file key on `s` and `a`.
pub open spec fn file_deleted(s: InputFilesState, t: InputFilesState, a: App, b: App) -> bool {
    &&& (t == s)
    &&& (b.screen == a.screen)
    &&& (b.recents == a.recents)
    &&& (b.should_quit == a.should_quit)
    &&& (b.config.name == a.config.name)
    &&& (b.config.venue == a.config.venue)
    &&& (b.config.project_dir == a.config.project_dir)
    &&& (b.config.output_dir == a.config.output_dir)
    &&& (b.config.slots@.len() == a.config.slots@.len())
    &&& (forall|j: int| 0 <= j < a.config.slots@.len() ==> {
            let (o, n) = (a.config.slots@[j], #[trigger] b.config.slots@[j]);
            if FIELD_SLOT_FIRST <= s.selected <= FIELD_SLOT_LAST && !s.editing
                && j == s.selected - FIELD_SLOT_FIRST {
                &&& n.label == o.label && n.description == o.description && n.kind == o.kind
                &&& n.path == o.path && n.required == o.required
                &&& n.files@ == if o.files@.len() > 0 { o.files@.drop_last() } else { o.files@ }
            } else {
                n == o
            }
        })
}

/// Whether `files` holds a path equal to `p`.
pub open spec fn has_path(files: Seq<String>, p: Seq<char>) -> bool {
    exists|j: int| 0 <= j < files.len() && same_path(#[trigger] files[j]@, p)
}

/// Whether `files` and `p` are all plainly written absolute paths.
pub open spec fn all_plain(files: Seq<String>, p: Seq<char>) -> bool {
    &&& plain_absolute(p)
    &&& forall|j: int| 0 <= j < files.len() ==> plain_absolute(#[trigger] files[j]@)
}

/// Whether `files` holds, as text, the path `p`.
pub open spec fn holds_text(files: Seq<String>, p: Seq<char>) -> bool {
    exists|j: int| 0 <= j < files.len() && #[trigger] files[j]@ == p
}

/// Choosing a file for a slot adds it when the slot does not hold its path
/// as text, all paths being plainly written absolute paths: a file with the
/// name of one the slot holds, from another directory, is added.
pub proof fn lemma_other_directory_file_is_added(old_slots: Seq<InputSlot>, new_slots: Seq<InputSlot>, k: int, p: String)
    requires
        slots_with_file(old_slots, new_slots, k, p),
        0 <= k < old_slots.len(),
        all_plain(old_slots[k].files@, p@),
        forall|j: int| 0 <= j < old_slots[k].files@.len() ==> #[trigger] old_slots[k].files@[j]@ != p@,
    ensures
        new_slots[k].files@ == old_slots[k].files@.push(p),
{
}

/// Choosing a file a slot already holds, as text, leaves the slot's files
/// as they were, all paths being plainly written absolute paths.
pub proof fn lemma_held_file_is_not_added_again(old_slots: Seq<InputSlot>, new_slots: Seq<InputSlot>, k: int, p: String, j: int)
    requires
        slots_with_file(old_slots, new_slots, k, p),
        0 <= k < old_slots.len(),
        all_plain(old_slots[k].files@, p@),
        0 <= j < old_slots[k].files@.len(),
        old_slots[k].files@[j]@ == p@,
    ensures
        new_slots[k].files@ == old_slots[k].files@,
{
    assert(holds_text(old_slots[k].files@, p@));
}

/// Whether `files` holds a path equal to `p`: among plainly written
/// absolute paths, exactly when it holds `p` as text.
fn contains_path(files: &Vec<String>, p: &str) -> (r: bool)
    ensures
        r == has_path(files@, p@),
        all_plain(files@, p@) ==> (r <==> holds_text(files@, p@)),
{
    let mut i: usize = 0;
    while i < files.len()
        invariant
            i <= files@.len(),
            forall|j: int| 0 <= j < i ==> !same_path(#[trigger] files@[j]@, p@),
            all_plain(files@, p@) ==> forall|j: int| 0 <= j < i ==> #[trigger] files@[j]@ != p@,
        decreases files@.len() - i,
    {
        if path_eq(files[i].as_str(), p) {
            return true;
        }
        i += 1;
    }
    false
}

impl InputFilesState {
    /// The screen with the name field selected and `browser` ready.
    pub fn new(browser: FileBrowser) -> (r: Self)
        ensures
            r.selected == FIELD_NAME,
            !r.editing,
            r.edit_buf@.len() == 0,
            r.cursor_pos == 0,
            !r.browsing,
            r.browser == browser,
            r.wf(),
    {
        InputFilesState {
            selected: 0,
            editing: false,
            edit_buf: String::new(),
            cursor_pos: 0,
            browsing: false,
            browser,
        }
    }

    /// Moves up in the browser when it is open, else to the row above unless editing.
    pub fn move_up(&mut self)
        ensures
            *final(self) == input_up(*old(self)),
            old(self).wf() ==> final(self).wf(),
    {
        if self.browsing {
            self.browser.move_up();
        } else if !self.editing && self.selected > 0 {
            self.selected -= 1;
        }
    }

    /// Moves down in the browser when it is open, else to the row below unless editing.
    pub fn move_down(&mut self)
        ensures
            *final(self) == input_down(*old(self)),
            old(self).wf() ==> final(self).wf(),
    {
        if self.browsing {
            self.browser.move_down();
        } else if !self.editing && self.selected < TOTAL_FIELDS - 1 {
            self.selected += 1;
        }
    }

    /// Acts on the Enter key.
    ///
    /// With the browser open, a selected directory is entered (the caller lists
    /// it, as the returned request says) and a selected file is added to the
    /// current slot, unless the slot holds it already, and the browser closes.
    /// While editing, the text is committed to the name or venue. Otherwise the
    /// name or venue field starts editing with the cursor at the end, a slot
    /// row opens the browser on the current directory (the caller lists it),
    /// and the start button moves to the pipeline screen once the project has
    /// a name. `selected_is_dir` says whether the browser's selected entry is a
    /// directory.
    pub fn enter(&mut self, app: &mut App, selected_is_dir: bool) -> (r: BrowseRequest)
        requires
            old(self).browsing ==> old(self).selected >= FIELD_SLOT_FIRST,
        ensures
            entered(*old(self), *final(self), *old(app), *final(app), selected_is_dir, r),
    {
        if self.browsing {
            match self.browser.selected_path() {
                Some(path) => {
                    if selected_is_dir {
                        return BrowseRequest::ListDir(path);
                    }
                    let slot_idx = self.selected - FIELD_SLOT_FIRST;
                    if slot_idx < app.config.slots.len() {
                        let mut slot = app.config.slots.remove(slot_idx);
                        if !contains_path(&slot.files, path.as_str()) {
                            slot.files.push(path);
                        }
                        app.config.slots.insert(slot_idx, slot);
                        assert(app.config.slots@ =~= app.config.slots@);
                    }
                    self.browsing = false;
                },
                None => {},
            }
            return BrowseRequest::Nothing;
        }
        if self.editing {
            if self.selected == FIELD_NAME {
                app.config.name = self.edit_buf.clone();
            } else if self.selected == FIELD_VENUE {
                app.config.venue = self.edit_buf.clone();
            }
            self.editing = false;
            return BrowseRequest::Nothing;
        }
        if self.selected == FIELD_NAME {
            self.editing = true;
            self.edit_buf = app.config.name.clone();
            self.cursor_pos = self.edit_buf.as_str().len();
            BrowseRequest::Nothing
        } else if self.selected == FIELD_VENUE {
            self.editing = true;
            self.edit_buf = app.config.venue.clone();
            self.cursor_pos = self.edit_buf.as_str().len();
            BrowseRequest::Nothing
        } else if FIELD_SLOT_FIRST <= self.selected && self.selected <= FIELD_SLOT_LAST {
            self.browsing = true;
            BrowseRequest::ListCurrentDir
        } else {
            if self.selected == FIELD_START && !app.config.name.as_str().is_empty() {
                app.screen = Screen::PipelineExecution;
            }
            BrowseRequest::Nothing
        }
    }

    /// Types a character into the field being edited, at the cursor.
    pub fn type_char(&mut self, ch: char)
        requires
            can_type(*old(self)),
        ensures
            typed(*old(self), *final(self), ch),
            old(self).wf() ==> final(self).wf(),
    {
        if self.editing {
            insert_char(&mut self.edit_buf, self.cursor_pos, ch);
            self.cursor_pos += 1;
        }
    }

    /// Deletes the character before the cursor in the field being edited.
    pub fn backspace(&mut self)
        requires
            can_backspace(*old(self)),
        ensures
            backspaced(*old(self), *final(self)),
            old(self).wf() ==> final(self).wf(),
    {
        if self.editing && self.cursor_pos > 0 {
            self.cursor_pos -= 1;
            remove_char(&mut self.edit_buf, self.cursor_pos);
        }
    }

    /// Closes the browser, else stops editing, else returns to the project-select screen.
    pub fn escape(&mut self, app: &mut App)
        ensures
            escaped(*old(self), *final(self), *old(app), *final(app)),
    {
        if self.browsing {
            self.browsing = false;
        } else if self.editing {
            self.editing = false;
        } else {
            app.screen = Screen::ProjectSelect;
        }
    }

    /// Removes the last file of the selected input slot, unless editing.
    pub fn delete_file(&mut self, app: &mut App)
        ensures
            file_deleted(*old(self), *final(self), *old(app), *final(app)),
    {
        if self.selected >= FIELD_SLOT_FIRST && self.selected <= FIELD_SLOT_LAST && !self.editing {
            let slot_idx = self.selected - FIELD_SLOT_FIRST;
            if slot_idx < app.config.slots.len() {
                let mut slot = app.config.slots.remove(slot_idx);
                slot.files.pop();
                app.config.slots.insert(slot_idx, slot);
            }
        }
    }

    /// Hands the browser opened on the current directory to the screen.
    pub fn open_browser(&mut self, browser: FileBrowser)
        ensures
            *final(self) == (InputFilesState { browser, ..*old(self) }),
            old(self).wf() ==> final(self).wf(),
    {
        self.browser = browser;
    }
}


/// Backspace undoes typing an ASCII character: the text and the cursor are
/// back where they were (and backspace can go ahead after typing).
pub proof fn lemma_backspace_undoes_typing(s: InputFilesState, t: InputFilesState, u: InputFilesState, ch: char)
    requires
        s.editing,
        can_type(s),
        (ch as u32) < 128,
        typed(s, t, ch),
        backspaced(t, u),
    ensures
        can_backspace(t),
        u.edit_buf@ == s.edit_buf@,
        u == (InputFilesState { edit_buf: u.edit_buf, ..s }),
{
    let b = utf8(s.edit_buf@);
    let c = s.cursor_pos as int;
    let e = utf8(seq![ch]);
    assert(vstd::utf8::is_ascii_chars(seq![ch]));
    vstd::utf8::is_ascii_chars_encode_utf8(seq![ch]);
    assert(e.len() == 1);
    let tb = utf8(t.edit_buf@);
    vstd::utf8::encode_utf8_valid_utf8(t.edit_buf@);
    vstd::utf8::encode_utf8_valid_utf8(s.edit_buf@);
    assert(vstd::utf8::is_char_boundary(b, c));
    assert(0 <= c <= b.len()) by {
        reveal_with_fuel(vstd::utf8::is_char_boundary, 1);
    }
    assert(tb == b.subrange(0, c) + e + b.subrange(c, b.len() as int));
    assert(tb.len() == b.len() + 1);
    assert(tb[c] == e[0]);
    assert(e[0] == ch as u8);
    assert(vstd::utf8::is_leading_byte_width_1(tb[c]));
    vstd::utf8::is_char_boundary_iff_is_leading_byte(tb, c);
    let rest = tb.subrange(c, tb.len() as int);
    assert(rest[0] == tb[c]);
    assert(vstd::utf8::length_of_first_scalar(rest) == 1);
    assert(cut_out(tb, c) =~= b);
    crate::text::lemma_utf8_injective(u.edit_buf@, s.edit_buf@);
}


/// The style of a field label: white and bold when selected.
pub open spec fn label_style(selected: bool) -> Style {
    if selected {
        Style { fg: Some(Color::White), bg: None, bold: true, italic: false, underlined: false }
    } else {
        Style { fg: Some(Color::Gray), bg: None, bold: false, italic: false, underlined: false }
    }
}

/// The style of a field value: highlighted while it is edited, lighter when
/// selected.
pub open spec fn value_style(selected: bool, editing: bool) -> Style {
    if editing {
        Style { fg: Some(Color::Yellow), bg: Some(Color::Rgb(40, 40, 20)), bold: true, italic: false, underlined: false }
    } else if selected {
        Style { fg: Some(Color::Rgb(200, 180, 255)), bg: None, bold: false, italic: false, underlined: false }
    } else {
        Style { fg: Some(Color::Rgb(180, 140, 255)), bg: None, bold: false, italic: false, underlined: false }
    }
}

/// The style of a field label.
pub fn style_label(selected: bool) -> (r: Style)
    ensures
        r == label_style(selected),
{
    if selected { Style::bold(Color::White) } else { Style::fg(Color::Gray) }
}

/// The style of a field value.
pub fn style_value(selected: bool, editing: bool) -> (r: Style)
    ensures
        r == value_style(selected, editing),
{
    if editing {
        Style::highlight(Color::Yellow, Color::Rgb(40, 40, 20))
    } else if selected {
        Style::fg(Color::Rgb(200, 180, 255))
    } else {
        Style::fg(Color::Rgb(180, 140, 255))
    }
}

/// What a text field shows: the edit buffer with a cursor while it is
/// edited, a placeholder while it is empty, else its value.
pub open spec fn field_value(editing: bool, edit_buf: Seq<char>, value: Seq<char>, placeholder: Seq<char>) -> Seq<char> {
    if editing {
        "["@ + edit_buf + "|]"@
    } else if value.len() == 0 {
        placeholder
    } else {
        value
    }
}

/// Draws a text field at row `y`: its label, then its value cut to
/// `field_w` bytes.
fn text_field(
    state: &InputFilesState,
    index: usize,
    label_text: &str,
    value: &str,
    placeholder: &str,
    area: Area,
    y: u16,
    field_w: usize,
    ops: &mut Vec<Draw>,
) -> (ok: bool)
    requires
        fits_u16(area),
        area.width >= 20,
        area.y <= y < area.bottom_edge(),
        byte_len(label_text@) + 4 < area.width,
        drawn_within(old(ops)@, 0, area.x as int, area.y as int, area.bottom_edge() as int),
    ensures
        drawn_within(final(ops)@, 0, area.x as int, area.y as int, area.bottom_edge() as int),
        crate::stage_view::cuts_cleanly(field_value(state.editing && state.selected == index, state.edit_buf@, value@,
            placeholder@), field_w as int) ==> ok,
        ok ==> marks(final(ops)@) == marks(old(ops)@)
            + field_marks(*state, index, label_text@, value@, placeholder@, area, y as int, field_w as int),
        ok == (cut_bytes(utf8(field_value(state.editing && state.selected == index, state.edit_buf@, value@, placeholder@)),
            field_w as int) is Some),
{
    let ghost (l, t, b) = (area.x as int, area.y as int, area.bottom_edge() as int);
    let x = area.left() + 2;
    let selected = state.selected == index;
    let editing = state.editing && selected;
    let mut label = owned(if selected { ">>" } else { "  " });
    push_str(&mut label, label_text);
    let shown = if editing {
        let mut v = owned("[");
        push_str(&mut v, state.edit_buf.as_str());
        push_str(&mut v, "|]");
        v
    } else if byte_length(value) == 0 {
        owned(placeholder)
    } else {
        owned(value)
    };
    proof {
        crate::draw::lemma_byte_len_empty(value@);
        assert(shown@ =~= field_value(editing, state.edit_buf@, value@, placeholder@));
    }
    push_text_in(ops, x, y, label.as_str(), style_label(selected), Ghost(0), Ghost(l), Ghost(t), Ghost(b));
    let lw: u16 = byte_length(label.as_str()) as u16;
    proof {
        reveal_strlit(">>");
        reveal_strlit("  ");
        crate::draw::lemma_ascii_byte_len((if selected { ">>"@ } else { "  "@ }));
        crate::draw::lemma_utf8_concat(if selected { ">>"@ } else { "  "@ }, label_text@);
    }
    let ok = push_fitted_in(ops, x + lw, y, shown.as_str(), field_w, style_value(selected, editing), Ghost(0), Ghost(l), Ghost(t), Ghost(b));
    assert(ok ==> marks(ops@) =~= marks(old(ops)@)
        + field_marks(*state, index, label_text@, value@, placeholder@, area, y as int, field_w as int));
    ok
}

/// The status of an input slot: how many files it has, or `empty`.
pub open spec fn slot_status(n: nat) -> Seq<char> {
    if n > 0 {
        crate::draw::decimal(n) + " file"@ + (if n > 1 { "s"@ } else { ""@ }) + " loaded"@
    } else {
        "empty"@
    }
}

/// The line of input slot `i`.
pub open spec fn slot_line(selected: bool, slot: InputSlot, i: int) -> Seq<char> {
    (if selected { ">>"@ } else { "  "@ }) + (if slot.required { "*"@ } else { " "@ }) + " "@
        + crate::draw::decimal((i + 1) as nat) + ". "@ + crate::draw::padded(slot.label@, 24) + " [Browse...]  "@
        + slot_status(slot.files@.len())
}

/// The line of a chosen file: its name, or the whole path when it has none.
pub open spec fn chosen_file_line(f: Seq<char>) -> Seq<char> {
    "         > "@ + match crate::paths::final_component(f) {
        Some(n) => n,
        None => f,
    }
}

/// Whether the lines of input slot `i` cut cleanly to `w` bytes.
pub open spec fn slot_fits(state: InputFilesState, slot: InputSlot, i: int, w: int) -> bool {
    &&& crate::stage_view::cuts_cleanly(slot_line(state.selected as int == i + 2, slot, i), w)
    &&& crate::stage_view::cuts_cleanly("       "@ + slot.description@, w)
    &&& forall|k: int| 0 <= k < slot.files@.len() ==>
            crate::stage_view::cuts_cleanly(chosen_file_line((#[trigger] slot.files@[k])@), w)
}

/// The rows of input slot `i` from row `y0`: its line, its description and
/// its files while they fit; gives the row after them.
fn slot_rows(state: &InputFilesState, slot: &InputSlot, i: usize, area: Area, y0: u16, ops: &mut Vec<Draw>) -> (r: Option<u16>)
    requires
        fits_u16(area),
        area.width >= 20,
        i < usize::MAX,
        area.y <= y0,
        y0 + 3 < area.bottom_edge(),
        drawn_within(old(ops)@, 0, area.x as int, area.y as int, area.bottom_edge() as int),
    ensures
        drawn_within(final(ops)@, 0, area.x as int, area.y as int, area.bottom_edge() as int),
        r matches Some(y) ==> area.y <= y <= area.bottom_edge(),
        r matches Some(y) ==> y == slot_end(*slot, area, y0 as int),
        r is Some ==> marks(final(ops)@) == marks(old(ops)@) + slot_marks(*state, *slot, i as int, area, y0 as int),
        r is Some <==> slot_ok(*state, *slot, i as int, area, y0 as int),
        i + 2 <= usize::MAX && slot_fits(*state, *slot, i as int, area.width - 2) ==> r is Some,
{
    let ghost (l, t, b) = (area.x as int, area.y as int, area.bottom_edge() as int);
    let ghost fits = i + 2 <= usize::MAX && slot_fits(*state, *slot, i as int, area.width - 2);
    let ghost m0 = marks(ops@);
    let ghost lines = chosen_file_lines(*slot);
    let x = area.left() + 2;
    let bottom = area.bottom();
    let w: usize = area.width as usize - 2;
    let index = match i.checked_add(FIELD_SLOT_FIRST) {
        Some(v) => v,
        None => {
            return None;
        },
    };
    let selected = state.selected == index;
    let n = slot.files.len();
    let mut line = owned(if selected { ">>" } else { "  " });
    push_str(&mut line, if slot.required { "*" } else { " " });
    push_str(&mut line, " ");
    push_decimal(&mut line, (i + 1) as u64);
    push_str(&mut line, ". ");
    push_padded(&mut line, slot.label, 24);
    push_str(&mut line, " [Browse...]  ");
    if n > 0 {
        push_decimal(&mut line, n as u64);
        push_str(&mut line, " file");
        push_str(&mut line, if n > 1 { "s" } else { "" });
        push_str(&mut line, " loaded");
    } else {
        push_str(&mut line, "empty");
    }
    assert(line@ =~= slot_line(selected, *slot, i as int));
    let mut y = y0;
    if !push_fitted_in(ops, x, y, line.as_str(), w, style_label(selected), Ghost(0), Ghost(l), Ghost(t), Ghost(b)) {
        return None;
    }
    y = y + 1;
    let mut dl = owned("       ");
    push_str(&mut dl, slot.description);
    if !push_fitted_in(ops, x, y, dl.as_str(), w, Style::fg(Color::DarkGray), Ghost(0), Ghost(l), Ghost(t), Ghost(b)) {
        return None;
    }
    y = y + 1;
    let stop: u16 = if bottom >= 3 { bottom - 3 } else { 0 };
    let mut k: usize = 0;
    assert(marks(ops@) =~= m0 + seq![
        Mark::Text { x, y: y0, bytes: cut_bytes(utf8(slot_line(selected, *slot, i as int)), w as int)->0, style: label_style(selected) },
        Mark::Text { x, y: (y0 + 1) as u16, bytes: cut_bytes(utf8("       "@ + slot.description@), w as int)->0,
            style: plain_in(Color::DarkGray) },
    ]);
    let ghost m1 = marks(ops@);
    while k < n && y < stop
        invariant
            fits_u16(area),
            area.width >= 20,
            x == area.x + 2,
            w == area.width - 2,
            n == slot.files@.len(),
            bottom == area.bottom_edge(),
            stop == if bottom >= 3 { bottom - 3 } else { 0 },
            l == area.x, t == area.y, b == area.bottom_edge(),
            area.y <= y < bottom,
            drawn_within(ops@, 0, l, t, b),
            fits == (i + 2 <= usize::MAX && slot_fits(*state, *slot, i as int, area.width - 2)),
            lines == chosen_file_lines(*slot),
            stop == sat_sub(area.bottom_edge() as int, 3),
            marks(ops@) + line_marks(lines, x, k as int, y as int, stop as int, w as int, plain_in(Color::Green))
                == m1 + line_marks(lines, x, 0, y0 + 2, stop as int, w as int, plain_in(Color::Green)),
            lines_end(n as int, k as int, y as int, stop as int) == lines_end(n as int, 0, y0 + 2, stop as int),
            lines_ok(lines, k as int, y as int, stop as int, w as int) == lines_ok(lines, 0, y0 + 2, stop as int, w as int),
            i + 2 <= usize::MAX,
            cut_bytes(utf8(slot_line(state.selected as int == i + 2, *slot, i as int)), w as int) is Some,
            cut_bytes(utf8("       "@ + slot.description@), w as int) is Some,
        decreases n - k,
    {
        let ghost before = marks(ops@);
        let f = slot.files[k].as_str();
        let mut fl = owned("         > ");
        match crate::paths::file_name(f) {
            Some(nm) => push_str(&mut fl, nm.as_str()),
            None => push_str(&mut fl, f),
        }
        proof {
            assert(fl@ =~= chosen_file_line(slot.files@[k as int]@));
            if fits {
                assert(crate::stage_view::cuts_cleanly(chosen_file_line(slot.files@[k as int]@), area.width - 2));
            }
        }
        if !push_fitted_in(ops, x, y, fl.as_str(), w, Style::fg(Color::Green), Ghost(0), Ghost(l), Ghost(t), Ghost(b)) {
            return None;
        }
        proof {
            assert(lines[k as int] == fl@);
            let more = line_marks(lines, x, k + 1, y + 1, stop as int, w as int, plain_in(Color::Green));
            assert(before + (seq![marks(ops@).last()] + more) =~= marks(ops@) + more);
        }
        y = y + 1;
        k += 1;
    }
    assert(marks(ops@) =~= m0 + slot_marks(*state, *slot, i as int, area, y0 as int));
    assert(lines_ok(lines, k as int, y as int, stop as int, w as int));
    Some(y + 1)
}

/// The width of the value of a text field in an area `w` wide.
pub open spec fn field_width(w: int) -> int {
    let f = sat_sub(w, 6);
    if f < 60 { f } else { 60 }
}

/// Whether every line the input fields can show cuts cleanly.
pub open spec fn fields_fit(state: InputFilesState, app: App, w: int) -> bool {
    &&& crate::stage_view::cuts_cleanly(field_value(state.editing && state.selected == FIELD_NAME, state.edit_buf@,
            app.config.name@, "(enter name)"@), field_width(w))
    &&& crate::stage_view::cuts_cleanly(field_value(state.editing && state.selected == FIELD_VENUE, state.edit_buf@,
            app.config.venue@, "(e.g. IEEE SMC 2026)"@), field_width(w))
    &&& app.config.slots@.len() + 2 <= usize::MAX
    &&& forall|i: int| 0 <= i < app.config.slots@.len() ==> slot_fits(state, #[trigger] app.config.slots@[i], i, w - 2)
}

/// The hint at the bottom of the input fields.
pub open spec fn fields_hint() -> Seq<char> {
    "Up/Down navigate | Enter edit/browse | d delete file | Esc back"@
}

/// Text field `index` at row `y` of `area`: its label after the marker,
/// then what it shows cut to `field_w` bytes.
pub open spec fn field_marks(
    state: InputFilesState,
    index: usize,
    label_text: Seq<char>,
    value: Seq<char>,
    placeholder: Seq<char>,
    area: Area,
    y: int,
    field_w: int,
) -> Seq<Mark> {
    let selected = state.selected == index;
    let editing = state.editing && selected;
    let label = (if selected { ">>"@ } else { "  "@ }) + label_text;
    let x = area.x + 2;
    seq![
        text_mark(x as u16, y as u16, label, label_style(selected)),
        Mark::Text {
            x: (x + byte_len(label)) as u16,
            y: y as u16,
            bytes: cut_bytes(utf8(field_value(editing, state.edit_buf@, value, placeholder)), field_w)->0,
            style: value_style(selected, editing),
        },
    ]
}

/// The lines of the files chosen for a slot.
pub open spec fn chosen_file_lines(slot: InputSlot) -> Seq<Seq<char>> {
    Seq::new(slot.files@.len(), |k: int| chosen_file_line(slot.files@[k]@))
}

/// The rows of input slot `i` from row `y` of `area`: its line and its
/// description, cut to the width of `area` less two, then its files while
/// they are above the last three rows.
pub open spec fn slot_marks(state: InputFilesState, slot: InputSlot, i: int, area: Area, y: int) -> Seq<Mark> {
    let x = (area.x + 2) as u16;
    let w = area.width - 2;
    let selected = state.selected as int == i + 2;
    seq![
        Mark::Text { x, y: y as u16, bytes: cut_bytes(utf8(slot_line(selected, slot, i)), w)->0, style: label_style(selected) },
        Mark::Text { x, y: (y + 1) as u16, bytes: cut_bytes(utf8("       "@ + slot.description@), w)->0,
            style: plain_in(Color::DarkGray) },
    ] + line_marks(chosen_file_lines(slot), x, 0, y + 2, sat_sub(area.bottom_edge() as int, 3), w, plain_in(Color::Green))
}

/// The row after the rows of an input slot from row `y`, and an empty row.
pub open spec fn slot_end(slot: InputSlot, area: Area, y: int) -> int {
    lines_end(slot.files@.len() as int, 0, y + 2, sat_sub(area.bottom_edge() as int, 3)) + 1
}

/// The input slots from the `i`-th on, from row `y` on while four rows are
/// left in `area`.
pub open spec fn slots_marks(state: InputFilesState, slots: Seq<InputSlot>, area: Area, i: int, y: int) -> Seq<Mark>
    decreases slots.len() - i,
{
    if 0 <= i < slots.len() && y + 3 < area.bottom_edge() {
        slot_marks(state, slots[i], i, area, y) + slots_marks(state, slots, area, i + 1, slot_end(slots[i], area, y))
    } else {
        Seq::empty()
    }
}

/// The row after the input slots from the `i`-th on, from row `y` on.
pub open spec fn slots_end(slots: Seq<InputSlot>, area: Area, i: int, y: int) -> int
    decreases slots.len() - i,
{
    if 0 <= i < slots.len() && y + 3 < area.bottom_edge() {
        slots_end(slots, area, i + 1, slot_end(slots[i], area, y))
    } else {
        y
    }
}

/// Whether the rows of input slot `i` from row `y` can be drawn: its row
/// number fits in a `usize`, and its line, its description and its shown
/// files cut between characters.
pub open spec fn slot_ok(state: InputFilesState, slot: InputSlot, i: int, area: Area, y: int) -> bool {
    let w = area.width - 2;
    &&& i + 2 <= usize::MAX
    &&& cut_bytes(utf8(slot_line(state.selected as int == i + 2, slot, i)), w) is Some
    &&& cut_bytes(utf8("       "@ + slot.description@), w) is Some
    &&& lines_ok(chosen_file_lines(slot), 0, y + 2, sat_sub(area.bottom_edge() as int, 3), w)
}

/// Whether the input slots from the `i`-th on, from row `y` on, can be drawn.
pub open spec fn slots_ok(state: InputFilesState, slots: Seq<InputSlot>, area: Area, i: int, y: int) -> bool
    decreases slots.len() - i,
{
    if 0 <= i < slots.len() && y + 3 < area.bottom_edge() {
        slot_ok(state, slots[i], i, area, y) && slots_ok(state, slots, area, i + 1, slot_end(slots[i], area, y))
    } else {
        true
    }
}

/// Whether the two text fields over `area` can be drawn: what they show
/// cuts between characters at the field width.
pub open spec fn fields_top_ok(area: Area, state: InputFilesState, app: App) -> bool {
    let fw = field_width(area.width as int);
    &&& cut_bytes(utf8(field_value(state.editing && state.selected == FIELD_NAME, state.edit_buf@, app.config.name@,
            "(enter name)"@)), fw) is Some
    &&& cut_bytes(utf8(field_value(state.editing && state.selected == FIELD_VENUE, state.edit_buf@, app.config.venue@,
            "(e.g. IEEE SMC 2026)"@)), fw) is Some
}

/// Whether the input fields over `area` can be drawn.
pub open spec fn fields_ok(area: Area, state: InputFilesState, app: App) -> bool {
    fields_top_ok(area, state, app) && slots_ok(state, app.config.slots@, area, 0, area.y + 6)
}

/// The top edge of the start button.
pub open spec fn start_top() -> Seq<char> {
    "\u{256d}\u{2500}\u{2500}\u{2500}\u{2500}\u{2500}\u{2500}\u{2500}\u{2500}\u{2500}\u{2500}\u{2500}\u{2500}\u{2500}\u{2500}\u{2500}\u{2500}\u{2500}\u{2500}\u{256e}"@
}

/// The bottom edge of the start button.
pub open spec fn start_bottom() -> Seq<char> {
    "\u{2570}\u{2500}\u{2500}\u{2500}\u{2500}\u{2500}\u{2500}\u{2500}\u{2500}\u{2500}\u{2500}\u{2500}\u{2500}\u{2500}\u{2500}\u{2500}\u{2500}\u{2500}\u{2500}\u{256f}"@
}

/// The middle of the start button: ready once the project has a name.
pub open spec fn start_middle(can_start: bool) -> Seq<char> {
    if can_start { "\u{2502} START PIPELINE   \u{2502}"@ } else { "\u{2502}(enter name first)\u{2502}"@ }
}

/// The start button from row `y` of `area`, when three rows are left:
/// dark gray until the project has a name, then green, white and
/// highlighted when selected.
pub open spec fn start_marks(state: InputFilesState, app: App, area: Area, y: int) -> Seq<Mark> {
    let selected = state.selected == FIELD_START;
    let can_start = app.config.name@.len() > 0;
    let marker = if selected { ">>"@ } else { "  "@ };
    let color = if !can_start { Color::DarkGray } else if selected { Color::White } else { Color::Green };
    let style = if selected && can_start { highlight_in(color, Color::Rgb(20, 60, 20)) } else { plain_in(color) };
    let x = (area.x + 2) as u16;
    if y + 2 < area.bottom_edge() {
        seq![
            text_mark(x, y as u16, marker + start_top(), style),
            text_mark(x, (y + 1) as u16, marker + start_middle(can_start), style),
            text_mark(x, (y + 2) as u16, marker + start_bottom(), style),
        ]
    } else {
        Seq::empty()
    }
}

/// The input fields over `area`: the project name and the target venue two
/// rows apart from its second row, a rule of `─` under them, the input
/// slots, the start button, and the hint centred on the last row.
pub open spec fn fields_marks(area: Area, state: InputFilesState, app: App) -> Seq<Mark> {
    let y_slots = area.y + 6;
    fields_top_marks(area, state, app)
        + slots_marks(state, app.config.slots@, area, 0, y_slots)
        + start_marks(state, app, area, slots_end(app.config.slots@, area, 0, y_slots))
        + seq![text_mark((area.x + sat_sub(area.width as int, byte_len(fields_hint()) as int) / 2) as u16,
            (area.bottom_edge() - 1) as u16, fields_hint(), italic_in(Color::DarkGray))]
}

/// The input slots from row `y0` while four rows are left in `area`; gives
/// the row after them, or nothing where a line is cut inside a character.
fn slots_rows(state: &InputFilesState, app: &App, area: Area, y0: u16, ops: &mut Vec<Draw>) -> (r: Option<u16>)
    requires
        fits_u16(area),
        area.width >= 20,
        area.height >= 8,
        area.y <= y0 <= area.bottom_edge(),
        drawn_within(old(ops)@, 0, area.x as int, area.y as int, area.bottom_edge() as int),
    ensures
        drawn_within(final(ops)@, 0, area.x as int, area.y as int, area.bottom_edge() as int),
        r matches Some(y) ==> area.y <= y <= area.bottom_edge() && y == slots_end(app.config.slots@, area, 0, y0 as int),
        r is Some ==> marks(final(ops)@) == marks(old(ops)@) + slots_marks(*state, app.config.slots@, area, 0, y0 as int),
        r is Some <==> slots_ok(*state, app.config.slots@, area, 0, y0 as int),
        fields_fit(*state, *app, area.width as int) ==> r is Some,
{
    let ghost fits = fields_fit(*state, *app, area.width as int);
    let ghost (l, t, b) = (area.x as int, area.y as int, area.bottom_edge() as int);
    let ghost m_sep = marks(ops@);
    let ghost y_slots = y0 as int;
    let bottom = area.bottom();
    let mut y = y0;
    let mut i: usize = 0;
    while i < app.config.slots.len() && (y as u32) + 3 < bottom as u32
        invariant
            fits_u16(area),
            area.width >= 20,
            area.height >= 8,
            bottom == area.bottom_edge(),
            l == area.x, t == area.y, b == area.bottom_edge(),
            area.y <= y <= bottom,
            drawn_within(ops@, 0, l, t, b),
            fits == fields_fit(*state, *app, area.width as int),
            marks(ops@) + slots_marks(*state, app.config.slots@, area, i as int, y as int)
                == m_sep + slots_marks(*state, app.config.slots@, area, 0, y_slots),
            slots_end(app.config.slots@, area, i as int, y as int) == slots_end(app.config.slots@, area, 0, y_slots),
            slots_ok(*state, app.config.slots@, area, i as int, y as int) == slots_ok(*state, app.config.slots@, area, 0, y_slots),
            y_slots == y0,
        decreases app.config.slots@.len() - i,
    {
        let ghost (before, yi) = (marks(ops@), y as int);
        proof {
            if fits {
                assert(slot_fits(*state, app.config.slots@[i as int], i as int, area.width - 2));
            }
        }
        y = match slot_rows(state, &app.config.slots[i], i, area, y, ops) {
            Some(y) => y,
            None => {
                assert(!slot_ok(*state, app.config.slots@[i as int], i as int, area, yi));
                assert(!slots_ok(*state, app.config.slots@, area, i as int, yi));
                return None;
            },
        };
        proof {
            let more = slots_marks(*state, app.config.slots@, area, i + 1, y as int);
            let mine = slot_marks(*state, app.config.slots@[i as int], i as int, area, yi);
            assert(before + (mine + more) =~= marks(ops@) + more);
        }
        i += 1;
    }
    assert(marks(ops@) =~= m_sep + slots_marks(*state, app.config.slots@, area, 0, y_slots));
    assert(slots_ok(*state, app.config.slots@, area, i as int, y as int));
    Some(y)
}

/// The start button from row `y`, when three rows are left in `area`.
fn start_button(state: &InputFilesState, app: &App, area: Area, y0: u16, ops: &mut Vec<Draw>)
    requires
        fits_u16(area),
        area.width >= 20,
        area.y <= y0 <= area.bottom_edge(),
        drawn_within(old(ops)@, 0, area.x as int, area.y as int, area.bottom_edge() as int),
    ensures
        drawn_within(final(ops)@, 0, area.x as int, area.y as int, area.bottom_edge() as int),
        marks(final(ops)@) == marks(old(ops)@) + start_marks(*state, *app, area, y0 as int),
{
    let ghost (l, t, b) = (area.x as int, area.y as int, area.bottom_edge() as int);
    let bottom = area.bottom();
    let x = area.left() + 2;
    let mut y = y0;
    if (y as u32) + 2 < bottom as u32 {
        let selected = state.selected == FIELD_START;
        let can_start = byte_length(app.config.name.as_str()) > 0;
        let marker = if selected { ">>" } else { "  " };
        let mut top_line = owned(marker);
        push_str(&mut top_line, "\u{256d}\u{2500}\u{2500}\u{2500}\u{2500}\u{2500}\u{2500}\u{2500}\u{2500}\u{2500}\u{2500}\u{2500}\u{2500}\u{2500}\u{2500}\u{2500}\u{2500}\u{2500}\u{2500}\u{256e}");
        let mut bot_line = owned(marker);
        push_str(&mut bot_line, "\u{2570}\u{2500}\u{2500}\u{2500}\u{2500}\u{2500}\u{2500}\u{2500}\u{2500}\u{2500}\u{2500}\u{2500}\u{2500}\u{2500}\u{2500}\u{2500}\u{2500}\u{2500}\u{2500}\u{256f}");
        let mut mid = owned(marker);
        push_str(&mut mid, if can_start { "\u{2502} START PIPELINE   \u{2502}" } else { "\u{2502}(enter name first)\u{2502}" });
        let color = if !can_start { Color::DarkGray } else if selected { Color::White } else { Color::Green };
        let style = if selected && can_start { Style::highlight(color, Color::Rgb(20, 60, 20)) } else { Style::fg(color) };
        push_text_in(ops, x, y, top_line.as_str(), style, Ghost(0), Ghost(l), Ghost(t), Ghost(b));
        y = y + 1;
        push_text_in(ops, x, y, mid.as_str(), style, Ghost(0), Ghost(l), Ghost(t), Ghost(b));
        y = y + 1;
        push_text_in(ops, x, y, bot_line.as_str(), style, Ghost(0), Ghost(l), Ghost(t), Ghost(b));
        proof {
            crate::draw::lemma_byte_len_empty(app.config.name@);
        }
    }
    assert(marks(ops@) =~= marks(old(ops)@) + start_marks(*state, *app, area, y0 as int));
}

/// The top of the input fields: the project name and the target venue two
/// rows apart from the second row of `area`, and the rule under them.
pub open spec fn fields_top_marks(area: Area, state: InputFilesState, app: App) -> Seq<Mark> {
    let fw = field_width(area.width as int);
    let rule_len = sat_sub(area.width as int, 4);
    field_marks(state, FIELD_NAME, " Project name: "@, app.config.name@, "(enter name)"@, area, area.y + 1, fw)
        + field_marks(state, FIELD_VENUE, " Target venue: "@, app.config.venue@, "(e.g. IEEE SMC 2026)"@, area, area.y + 3, fw)
        + seq![text_mark((area.x + 2) as u16, (area.y + 5) as u16,
            repeated('\u{2500}', if rule_len < 80 { rule_len as nat } else { 80 }), plain_in(Color::DarkGray))]
}

/// Draws the top of the input fields; false where a value is cut inside a
/// character.
#[verifier::spinoff_prover]
#[verifier::rlimit(40)]
fn fields_top(state: &InputFilesState, app: &App, area: Area, ops: &mut Vec<Draw>) -> (ok: bool)
    requires
        fits_u16(area),
        area.width >= 20,
        area.height >= 8,
        old(ops)@.len() == 0,
    ensures
        drawn_within(final(ops)@, 0, area.x as int, area.y as int, area.bottom_edge() as int),
        ok ==> marks(final(ops)@) == fields_top_marks(area, *state, *app),
        ok == fields_top_ok(area, *state, *app),
        fields_fit(*state, *app, area.width as int) ==> ok,
{
    let ghost (l, t, b) = (area.x as int, area.y as int, area.bottom_edge() as int);
    let tw: usize = area.width as usize;
    let x = area.left() + 2;
    let fw0: usize = if tw >= 6 { tw - 6 } else { 0 };
    let field_w: usize = if fw0 < 60 { fw0 } else { 60 };
    let mut y = area.top() + 1;
    proof {
        reveal_strlit(" Project name: ");
        reveal_strlit(" Target venue: ");
        crate::draw::lemma_ascii_byte_len(" Project name: "@);
        crate::draw::lemma_ascii_byte_len(" Target venue: "@);
    }
    if !text_field(state, FIELD_NAME, " Project name: ", app.config.name.as_str(), "(enter name)", area, y, field_w, ops) {
        return false;
    }
    y = y + 2;
    if !text_field(state, FIELD_VENUE, " Target venue: ", app.config.venue.as_str(), "(e.g. IEEE SMC 2026)", area, y, field_w, ops) {
        return false;
    }
    y = y + 2;
    let n: usize = if tw >= 4 { tw - 4 } else { 0 };
    let sep = crate::draw::repeat_char('\u{2500}', if n < 80 { n } else { 80 });
    push_text_in(ops, x, y, sep.as_str(), Style::fg(Color::DarkGray), Ghost(0), Ghost(l), Ghost(t), Ghost(b));
    assert(marks(ops@) =~= fields_top_marks(area, *state, *app));
    true
}

/// Draws the input fields over `area`: the project name and venue, a
/// separator, the input slots while they fit, the start button when there
/// is room, and a hint on the last row.
#[verifier::spinoff_prover]
#[verifier::rlimit(40)]
pub fn render_fields(area: Area, state: &InputFilesState, app: &App) -> (r: Option<Vec<Draw>>)
    requires
        fits_u16(area),
        area.width >= 20,
        area.height >= 8,
    ensures
        r matches Some(ops) ==> {
            &&& ops@.len() >= 1
            &&& drawn_within(ops@, 0, area.x as int, area.y as int, area.bottom_edge() as int)
            &&& text_at(ops@.last(), (area.x + sat_sub(area.width as int, byte_len(fields_hint()) as int) / 2) as u16,
                    (area.bottom_edge() - 1) as u16, fields_hint(),
                    Style { fg: Some(Color::DarkGray), bg: None, bold: false, italic: true, underlined: false })
        },
        r matches Some(ops) ==> marks(ops@) == fields_marks(area, *state, *app),
        r is Some <==> fields_ok(area, *state, *app),
        fields_fit(*state, *app, area.width as int) ==> r is Some,
{
    let ghost (l, t, b) = (area.x as int, area.y as int, area.bottom_edge() as int);
    let bottom = area.bottom();
    let mut ops: Vec<Draw> = Vec::new();
    if !fields_top(state, app, area, &mut ops) {
        return None;
    }
    let y = area.top() + 6;
    let y = match slots_rows(state, app, area, y, &mut ops) {
        Some(y) => y,
        None => {
            return None;
        },
    };
    start_button(state, app, area, y, &mut ops);
    let ghost m_start = marks(ops@);
    let hint = "Up/Down navigate | Enter edit/browse | d delete file | Esc back";
    let hl: u16 = byte_length(hint) as u16;
    proof {
        reveal_strlit("Up/Down navigate | Enter edit/browse | d delete file | Esc back");
        crate::draw::lemma_ascii_byte_len(hint@);
    }
    let hx = area.left() + (if area.width > hl { area.width - hl } else { 0 }) / 2;
    push_text_in(&mut ops, hx, bottom - 1, hint, Style::italic(Color::DarkGray), Ghost(0), Ghost(l), Ghost(t), Ghost(b));
    proof {
        let sl = slots_marks(*state, app.config.slots@, area, 0, area.y + 6);
        let st = start_marks(*state, *app, area, slots_end(app.config.slots@, area, 0, area.y + 6));
        let hm = seq![text_mark((area.x + sat_sub(area.width as int, byte_len(fields_hint()) as int) / 2) as u16,
            (area.bottom_edge() - 1) as u16, fields_hint(), italic_in(Color::DarkGray))];
        let top = fields_top_marks(area, *state, *app);
        assert(marks(ops@) =~= top + sl + st + hm);
        assert(fields_marks(area, *state, *app) =~= top + sl + st + hm);
    }
    Some(ops)
}

/// Whether `ops` is the file browser over `area`: its titled box, the
/// current directory, a separator, the entries from the first shown that fit
/// above the last row, and the hint on the last row.
pub open spec fn browser_drawn(ops: Seq<Draw>, area: Area) -> bool {
    let inner = inside_borders(area);
    &&& ops.len() >= 3
    &&& frame_at(ops[0], area, " File Browser "@,
            Style { fg: Some(Color::Yellow), bg: None, bold: true, italic: false, underlined: false },
            Style { fg: Some(Color::Yellow), bg: None, bold: false, italic: false, underlined: false })
    &&& drawn_within(ops, 1, inner.x as int, inner.y as int, inner.bottom_edge() as int)
    &&& text_at(ops.last(), (inner.x + 1) as u16, (inner.bottom_edge() - 1) as u16, "Enter select | Esc cancel"@,
            Style { fg: Some(Color::DarkGray), bg: None, bold: false, italic: true, underlined: false })
}

/// The line of browser entry `i` at path `entry` in directory `dir`: marker,
/// a slash for a directory, and `..` for the parent or the entry's name.
pub open spec fn browser_line(selected: bool, is_dir: bool, i: int, entry: Seq<char>, dir: Seq<char>) -> Seq<char> {
    let is_parent = i == 0 && crate::paths::has_parent_path(entry) && !same_path(entry, dir);
    (if selected { ">>"@ } else { "  "@ }) + " "@ + (if is_dir { "/"@ } else { " "@ })
        + if is_parent {
            ".."@
        } else {
            match crate::paths::final_component(entry) {
                Some(n) => n,
                None => entry,
            }
        }
}

/// Whether every line the file browser can show cuts cleanly to `tw` bytes.
pub open spec fn browser_fits(b: FileBrowser, is_dir: Seq<bool>, tw: int) -> bool {
    &&& crate::stage_view::cuts_cleanly(" "@ + b.dir@, tw)
    &&& b.selected < usize::MAX
    &&& forall|i: int| 0 <= i < b.entries@.len() ==> crate::stage_view::cuts_cleanly(
            browser_line(i == b.selected, i < is_dir.len() && is_dir[i], i, (#[trigger] b.entries@[i])@, b.dir@), tw)
}

/// The style of a browser entry: highlighted when selected, bold light blue
/// for a directory, else gray.
pub open spec fn entry_style(selected: bool, is_dir: bool) -> Style {
    if selected {
        highlight_in(Color::White, Color::Rgb(60, 40, 20))
    } else if is_dir {
        bold_in(Color::Rgb(100, 200, 255))
    } else {
        plain_in(Color::Gray)
    }
}

/// The entries of the browser from the `i`-th on, from row `y` of `inner`
/// on while the row is above its last: each line cut to its width.
pub open spec fn entry_marks(b: FileBrowser, is_dir: Seq<bool>, inner: Area, i: int, y: int) -> Seq<Mark>
    decreases b.entries@.len() - i,
{
    if 0 <= i < b.entries@.len() && y < inner.bottom_edge() - 1 {
        let selected = i == b.selected as int;
        let dir = i < is_dir.len() && is_dir[i];
        seq![Mark::Text {
            x: inner.x,
            y: y as u16,
            bytes: cut_bytes(utf8(browser_line(selected, dir, i, b.entries@[i]@, b.dir@)), inner.width as int)->0,
            style: entry_style(selected, dir),
        }] + entry_marks(b, is_dir, inner, i + 1, y + 1)
    } else {
        Seq::empty()
    }
}

/// The first entry the browser shows: enough are skipped for the selected
/// one to be on the last of the `visible` rows.
pub open spec fn first_shown(selected: int, visible: int) -> int {
    if selected >= visible { selected - visible + 1 } else { 0 }
}

/// Whether the entries of the browser from the `i`-th on, from row `y` on,
/// cut between characters.
pub open spec fn entries_ok(b: FileBrowser, is_dir: Seq<bool>, inner: Area, i: int, y: int) -> bool
    decreases b.entries@.len() - i,
{
    if 0 <= i < b.entries@.len() && y < inner.bottom_edge() - 1 {
        &&& cut_bytes(utf8(browser_line(i == b.selected as int, i < is_dir.len() && is_dir[i], i, b.entries@[i]@, b.dir@)),
                inner.width as int) is Some
        &&& entries_ok(b, is_dir, inner, i + 1, y + 1)
    } else {
        true
    }
}

/// Whether the file browser over `area` can be drawn: its directory line
/// and its shown entries cut between characters, and its first shown entry
/// can be computed in a `usize`.
pub open spec fn browser_ok(area: Area, b: FileBrowser, is_dir: Seq<bool>) -> bool {
    let inner = inside_borders(area);
    let visible = sat_sub(inner.bottom_edge() - (inner.y + 2), 1);
    &&& cut_bytes(utf8(" "@ + b.dir@), inner.width as int) is Some
    &&& b.selected >= visible ==> b.selected - visible + 1 <= usize::MAX
    &&& entries_ok(b, is_dir, inner, first_shown(b.selected as int, visible), inner.y + 2)
}

/// The file browser over `area`: its titled box; inside it the current
/// directory cut to the width, a rule of `─`, the entries from the first
/// shown, and the hint on the last row.
pub open spec fn browser_marks(area: Area, b: FileBrowser, is_dir: Seq<bool>) -> Seq<Mark> {
    let inner = inside_borders(area);
    let visible = sat_sub(inner.bottom_edge() - (inner.y + 2), 1);
    seq![
        Mark::Frame { area, title: " File Browser "@, title_style: bold_in(Color::Yellow), border_style: plain_in(Color::Yellow) },
        Mark::Text { x: inner.x, y: inner.y, bytes: cut_bytes(utf8(" "@ + b.dir@), inner.width as int)->0, style: bold_in(Color::Yellow) },
        text_mark(inner.x, (inner.y + 1) as u16, repeated('\u{2500}', inner.width as nat), plain_in(Color::DarkGray)),
    ] + entry_marks(b, is_dir, inner, first_shown(b.selected as int, visible), inner.y + 2)
        + seq![text_mark((inner.x + 1) as u16, (inner.bottom_edge() - 1) as u16, "Enter select | Esc cancel"@,
            italic_in(Color::DarkGray))]
}

/// Draws the file browser over `area`; `entry_is_dir` says which of its
/// entries are directories on disk. Nothing where a line would be cut
/// inside a character.
#[verifier::spinoff_prover]
#[verifier::rlimit(40)]
pub fn render_browser(area: Area, browser: &FileBrowser, entry_is_dir: &Vec<bool>) -> (r: Option<Vec<Draw>>)
    requires
        fits_u16(area),
        area.height >= 4,
        inside_borders(area).x < u16::MAX,
    ensures
        r matches Some(ops) ==> browser_drawn(ops@, area),
        r matches Some(ops) ==> marks(ops@) == browser_marks(area, *browser, entry_is_dir@),
        r is Some <==> browser_ok(area, *browser, entry_is_dir@),
        browser_fits(*browser, entry_is_dir@, inside_borders(area).width as int) ==> r is Some,
{
    let ghost fits = browser_fits(*browser, entry_is_dir@, inside_borders(area).width as int);
    let mut ops: Vec<Draw> = Vec::new();
    push_frame(&mut ops, area, owned(" File Browser "), Style::bold(Color::Yellow), Style::fg(Color::Yellow));
    let inner = bordered_inner(area);
    let ghost (l, t, b) = (inner.x as int, inner.y as int, inner.bottom_edge() as int);
    let tw: usize = inner.width as usize;
    let bottom = inner.bottom();
    let mut body: Vec<Draw> = Vec::new();
    let mut y = inner.top();
    let mut dir_line = owned(" ");
    push_str(&mut dir_line, browser.dir.as_str());
    if !push_fitted_in(&mut body, inner.left(), y, dir_line.as_str(), tw, Style::bold(Color::Yellow), Ghost(0), Ghost(l), Ghost(t), Ghost(b)) {
        return None;
    }
    y = y + 1;
    let sep = crate::draw::repeat_char('\u{2500}', tw);
    push_text_in(&mut body, inner.left(), y, sep.as_str(), Style::fg(Color::DarkGray), Ghost(0), Ghost(l), Ghost(t), Ghost(b));
    y = y + 1;
    let visible: usize = (if bottom - y >= 1 { bottom - y - 1 } else { 0 }) as usize;
    let start: usize = if browser.selected >= visible {
        match (browser.selected - visible).checked_add(1) {
            Some(v) => v,
            None => {
                return None;
            },
        }
    } else {
        0
    };
    let stop: u16 = bottom - 1;
    let mut i: usize = start;
    let ghost (m_head, y_list) = (marks(body@), y as int);
    proof {
        reveal_strlit(" File Browser ");
        assert(start == first_shown(browser.selected as int, sat_sub(inner.bottom_edge() - (inner.y + 2), 1)));
    }
    while i < browser.entries.len() && y < stop
        invariant
            fits_u16(inner),
            bottom == inner.bottom_edge(),
            stop == bottom - 1,
            tw == inner.width,
            l == inner.x, t == inner.y, b == inner.bottom_edge(),
            inner.y <= y <= bottom,
            body@.len() >= 2,
            drawn_within(body@, 0, l, t, b),
            fits == browser_fits(*browser, entry_is_dir@, inner.width as int),
            inner == inside_borders(area),
            marks(body@) + entry_marks(*browser, entry_is_dir@, inner, i as int, y as int)
                == m_head + entry_marks(*browser, entry_is_dir@, inner, start as int, y_list),
            entries_ok(*browser, entry_is_dir@, inner, i as int, y as int)
                == entries_ok(*browser, entry_is_dir@, inner, start as int, y_list),
            browser_ok(area, *browser, entry_is_dir@) == entries_ok(*browser, entry_is_dir@, inner, start as int, y_list),
        decreases browser.entries@.len() - i,
    {
        let ghost before = marks(body@);
        let entry = browser.entries[i].as_str();
        let selected = i == browser.selected;
        let is_dir = i < entry_is_dir.len() && entry_is_dir[i];
        let is_parent = i == 0 && crate::paths::has_parent(entry) && !path_eq(entry, browser.dir.as_str());
        let mut line = owned(if selected { ">>" } else { "  " });
        push_str(&mut line, " ");
        push_str(&mut line, if is_dir { "/" } else { " " });
        if is_parent {
            push_str(&mut line, "..");
        } else {
            match crate::paths::file_name(entry) {
                Some(nm) => push_str(&mut line, nm.as_str()),
                None => push_str(&mut line, entry),
            }
        }
        proof {
            assert(line@ =~= browser_line(selected, is_dir, i as int, browser.entries@[i as int]@, browser.dir@));
            assert(selected == (i as int == browser.selected as int));
            assert(is_dir == (i < entry_is_dir@.len() && entry_is_dir@[i as int]));
            if fits {
                assert(crate::stage_view::cuts_cleanly(browser_line(i as int == browser.selected as int,
                    i < entry_is_dir@.len() && entry_is_dir@[i as int], i as int, browser.entries@[i as int]@, browser.dir@),
                    inner.width as int));
            }
        }
        let style = if selected {
            Style::highlight(Color::White, Color::Rgb(60, 40, 20))
        } else if is_dir {
            Style::bold(Color::Rgb(100, 200, 255))
        } else {
            Style::fg(Color::Gray)
        };
        if !push_fitted_in(&mut body, inner.left(), y, line.as_str(), tw, style, Ghost(0), Ghost(l), Ghost(t), Ghost(b)) {
            return None;
        }
        proof {
            let more = entry_marks(*browser, entry_is_dir@, inner, i + 1, y + 1);
            assert(before + (seq![marks(body@).last()] + more) =~= marks(body@) + more);
        }
        y = y + 1;
        i += 1;
    }
    assert(marks(body@) =~= m_head + entry_marks(*browser, entry_is_dir@, inner, start as int, y_list));
    assert(entries_ok(*browser, entry_is_dir@, inner, i as int, y as int));
    push_text_in(&mut body, inner.left() + 1, bottom - 1, "Enter select | Esc cancel", Style::italic(Color::DarkGray), Ghost(0), Ghost(l), Ghost(t), Ghost(b));
    let ghost (f0, b0) = (ops@, body@);
    ops.append(&mut body);
    proof {
        assert(ops@ =~= f0 + b0);
        crate::draw::lemma_marks_append(f0, b0);
        assert(marks(ops@) =~= browser_marks(area, *browser, entry_is_dir@));
        assert(drawn_within(f0, 1, l, t, b));
        crate::draw::lemma_drawn_within_append(f0, b0, 1, l, t, b, t, b);
        assert(ops@.last() == b0.last());
        assert(ops@.len() >= 3);
        assert(frame_at(ops@[0], area, " File Browser "@,
            Style { fg: Some(Color::Yellow), bg: None, bold: true, italic: false, underlined: false },
            Style { fg: Some(Color::Yellow), bg: None, bold: false, italic: false, underlined: false }));
        assert(text_at(ops@.last(), (inner.x + 1) as u16, (inner.bottom_edge() - 1) as u16, "Enter select | Esc cancel"@,
            Style { fg: Some(Color::DarkGray), bg: None, bold: false, italic: true, underlined: false }));
    }
    Some(ops)
}

/// Whether `ops` is the input screen over `area`: the titled box, only
/// that when its inside is smaller than 40 by 8; else the fields inside it,
/// on its left half with the file browser on its right half while browsing.
pub open spec fn input_screen_drawn(ops: Seq<Draw>, area: Area, browsing: bool) -> bool {
    let inner = inside_borders(area);
    &&& ops.len() >= 1
    &&& frame_at(ops[0], area, " Research Pipeline -- Input Files "@, title_style(), screen_border_style())
    &&& (inner.height < 8 || inner.width < 40) ==> ops.len() == 1
    &&& !(inner.height < 8 || inner.width < 40) ==> {
        &&& ops.len() >= 2
        &&& drawn_within(ops, 1, inner.x as int, inner.y as int, inner.bottom_edge() as int)
        &&& browsing ==> exists|m: int| 1 < m < ops.len() && #[trigger] browser_drawn(ops.skip(m),
                crate::draw::area_new((inner.x + inner.width / 2) as u16, inner.y, (inner.width - inner.width / 2) as u16,
                    inner.height))
    }
}

/// The input screen over `area`: its titled box; inside it, when it is at
/// least 40 by 8, the input fields, over its left half with the file browser
/// over its right half while browsing.
pub open spec fn input_marks(area: Area, state: InputFilesState, app: App, is_dir: Seq<bool>) -> Seq<Mark> {
    let inner = inside_borders(area);
    let frame = seq![Mark::Frame {
        area,
        title: " Research Pipeline -- Input Files "@,
        title_style: title_style(),
        border_style: screen_border_style(),
    }];
    if inner.height < 8 || inner.width < 40 {
        frame
    } else if state.browsing {
        let lw = inner.width / 2;
        frame + fields_marks(crate::draw::area_new(inner.x, inner.y, lw, inner.height), state, app)
            + browser_marks(crate::draw::area_new((inner.x + lw) as u16, inner.y, (inner.width - lw) as u16, inner.height),
                state.browser, is_dir)
    } else {
        frame + fields_marks(inner, state, app)
    }
}

/// Whether the input screen over `area` can be drawn.
pub open spec fn input_ok(area: Area, state: InputFilesState, app: App, is_dir: Seq<bool>) -> bool {
    let inner = inside_borders(area);
    let lw = inner.width / 2;
    (inner.height < 8 || inner.width < 40) || if state.browsing {
        fields_ok(crate::draw::area_new(inner.x, inner.y, lw, inner.height), state, app)
            && browser_ok(crate::draw::area_new((inner.x + lw) as u16, inner.y, (inner.width - lw) as u16, inner.height),
                state.browser, is_dir)
    } else {
        fields_ok(inner, state, app)
    }
}

/// Draws the input screen over `area`; `entry_is_dir` says which entries of
/// the file browser are directories on disk. Nothing where a line would be
/// cut inside a character.
#[verifier::spinoff_prover]
#[verifier::rlimit(40)]
pub fn render(area: Area, state: &InputFilesState, app: &App, entry_is_dir: &Vec<bool>) -> (r: Option<Vec<Draw>>)
    requires
        fits_u16(area),
    ensures
        r matches Some(ops) ==> input_screen_drawn(ops@, area, state.browsing),
        r matches Some(ops) ==> marks(ops@) == input_marks(area, *state, *app, entry_is_dir@),
        r is Some <==> input_ok(area, *state, *app, entry_is_dir@),
        ({
            let inner = inside_borders(area);
            let lw = (inner.width / 2) as int;
            if state.browsing {
                fields_fit(*state, *app, lw) && browser_fits(state.browser, entry_is_dir@, sat_sub(inner.width - lw, 2))
            } else {
                fields_fit(*state, *app, inner.width as int)
            }
        }) ==> r is Some,
{
    let mut ops: Vec<Draw> = Vec::new();
    push_frame(&mut ops, area, owned(" Research Pipeline -- Input Files "), Style::bold(Color::Magenta), Style::fg(Color::Rgb(80, 40, 100)));
    let inner = bordered_inner(area);
    proof {
        reveal_strlit(" Research Pipeline -- Input Files ");
    }
    if inner.height < 8 || inner.width < 40 {
        assert(marks(ops@) =~= input_marks(area, *state, *app, entry_is_dir@));
        return Some(ops);
    }
    let ghost (l, t, b) = (inner.x as int, inner.y as int, inner.bottom_edge() as int);
    if state.browsing {
        let left_w = inner.width / 2;
        let left_area = new_area(inner.left(), inner.top(), left_w, inner.height);
        let right_area = new_area(inner.left() + left_w, inner.top(), inner.width - left_w, inner.height);
        let mut fields = match render_fields(left_area, state, app) {
            Some(f) => f,
            None => {
                return None;
            },
        };
        let mut browser = match render_browser(right_area, &state.browser, entry_is_dir) {
            Some(f) => f,
            None => {
                return None;
            },
        };
        let ghost (f0, a0, b0) = (ops@, fields@, browser@);
        proof {
            assert forall|i: int| 0 <= i < b0.len() implies l <= (#[trigger] b0[i]).column() && t <= b0[i].row() < b by {
                if i == 0 {
                } else {
                    assert(drawn_within(b0, 1, inside_borders(right_area).x as int, inside_borders(right_area).y as int,
                        inside_borders(right_area).bottom_edge() as int));
                }
            }
        }
        ops.append(&mut fields);
        let ghost m = ops@.len() as int;
        ops.append(&mut browser);
        proof {
            assert(ops@ =~= f0 + a0 + b0);
            assert(drawn_within(f0, 1, l, t, b));
            crate::draw::lemma_drawn_within_append(f0, a0, 1, l, t, b, t, b);
            crate::draw::lemma_drawn_within_append(f0 + a0, b0, 1, l, t, b, t, b);
            assert(ops@.skip(m) =~= b0);
            crate::draw::lemma_marks_append(f0, a0);
            crate::draw::lemma_marks_append(f0 + a0, b0);
            assert(marks(ops@) =~= input_marks(area, *state, *app, entry_is_dir@));
        }
        return Some(ops);
    }
    let mut fields = match render_fields(inner, state, app) {
        Some(f) => f,
        None => {
            return None;
        },
    };
    let ghost (f0, a0) = (ops@, fields@);
    ops.append(&mut fields);
    proof {
        assert(ops@ =~= f0 + a0);
        assert(drawn_within(f0, 1, l, t, b));
        crate::draw::lemma_drawn_within_append(f0, a0, 1, l, t, b, t, b);
        crate::draw::lemma_marks_append(f0, a0);
        assert(marks(ops@) =~= input_marks(area, *state, *app, entry_is_dir@));
    }
    Some(ops)
}


/// Moving through the input screen keeps it in a state it can reach, with
/// the browser's selection on an entry and never above its scroll offset.
pub proof fn lemma_input_moves_stay_valid(s: InputFilesState)
    requires
        s.wf(),
        s.browser.entries@.len() <= usize::MAX,
        s.browser.scroll_offset <= s.browser.selected,
        s.browser.entries@.len() > 0 ==> s.browser.selected < s.browser.entries@.len(),
    ensures
        input_up(s).wf(),
        input_down(s).wf(),
        input_up(s).browser.scroll_offset <= input_up(s).browser.selected,
        input_down(s).browser.scroll_offset <= input_down(s).browser.selected,
        s.browser.entries@.len() > 0 ==> input_up(s).browser.selected < s.browser.entries@.len(),
        s.browser.entries@.len() > 0 ==> input_down(s).browser.selected < s.browser.entries@.len(),
{
}

/// Moving down and back up returns to the same field, while nothing is
/// edited or browsed and there is a field below.
pub proof fn lemma_input_down_up(s: InputFilesState)
    requires
        !s.editing,
        !s.browsing,
        s.selected + 1 < TOTAL_FIELDS,
    ensures
        input_up(input_down(s)) == s,
{
}

/// In the browser, moving down and back up returns to the same entry when
/// there is an entry below, and the scroll offset stays where it was when it
/// was at or above the selection.
pub proof fn lemma_browser_down_up(b: FileBrowser)
    requires
        b.entries@.len() <= usize::MAX,
        b.selected + 1 < b.entries@.len(),
        b.scroll_offset <= b.selected,
    ensures
        browser_up(browser_down(b)) == b,
{
}

} // verus!
