use vstd::prelude::*;

use crate::app::{App, Screen};
use crate::pipeline::{arrowed, item_count, scrolled, PaperPipelinePlane};
use crate::screen_input::{
    backspaced, can_backspace, can_type, entered, escaped, file_deleted, input_down, input_up,
    typed, BrowseRequest, InputFilesState,
};
use crate::screen_output::{output_entered, row_above, row_below, OutputState};
use crate::screen_select::{select_down, select_entered, select_up, ProjectSelectState};

verus! {

/// A key as the terminal reports it.
pub enum KeyCode {
    Char(char),
    Up,
    Down,
    Left,
    Right,
    Enter,
    Esc,
    Backspace,
    Other,
}

/// A key press: the key, and whether Control was held.
pub struct KeyPress {
    pub code: KeyCode,
    pub control: bool,
}

/// The state of every screen of the app.
pub struct Screens {
    pub select: ProjectSelectState,
    pub input: InputFilesState,
    pub plane: PaperPipelinePlane,
    /// Whether the pipeline screen shows its stage detail view.
    pub pipeline_detail: bool,
    pub output: OutputState,
}

/// What the app does after a key press.
pub enum KeyOutcome {
    /// Goes on.
    Continue,
    /// Quits.
    Quit,
    /// Goes on once the file system request of the input screen is served.
    Browse(BrowseRequest),
}

/// Control-C quits from every screen.
pub open spec fn is_interrupt(key: KeyPress) -> bool {
    key.control && key.code == KeyCode::Char('c')
}

/// The key press can be handled without fault: on the input screen the
/// screen's state is one it can reach, typing and backspace meet their
/// conditions, and on the pipeline screen the item selection can move.
pub open spec fn key_allowed(a: App, sc: Screens, key: KeyPress) -> bool {
    &&& a.screen == Screen::InputFiles && !is_interrupt(key) ==> {
        &&& sc.input.wf()
        &&& (key.code is Char && sc.input.editing) ==> can_type(sc.input)
        &&& key.code is Backspace ==> can_backspace(sc.input)
    }
    &&& a.screen == Screen::PipelineExecution && !is_interrupt(key) && (key.code is Up || key.code is Down) ==> {
        let p = sc.plane;
        p.selected_stage < p.data.stages@.len() ==> {
            let m = item_count(p.data.stages@[p.selected_stage as int]);
            m > 0 ==> m <= usize::MAX && (m as usize) as i32 >= 0
                && (key.code is Down ==> (p.selected_item as i32) < i32::MAX)
                && (key.code is Up ==> (p.selected_item as i32) > i32::MIN)
        }
    }
}


/// The screens other than `which` are unchanged from `sc` to `t`.
pub open spec fn others_unchanged(sc: Screens, t: Screens, which: int) -> bool {
    &&& which != 0 ==> t.select == sc.select
    &&& which != 1 ==> t.input == sc.input
    &&& which != 2 ==> t.plane == sc.plane && t.pipeline_detail == sc.pipeline_detail
    &&& which != 3 ==> t.output == sc.output
}

/// Handles one key press on the current screen, as the app's event loop
/// does, and says whether to go on, to quit, or to serve a file system
/// request of the input screen first. `selected_is_dir` says whether the
/// file browser's selected entry is a directory.
pub fn handle_key(app: &mut App, sc: &mut Screens, key: KeyPress, selected_is_dir: bool) -> (r: KeyOutcome)
    requires
        key_allowed(*old(app), *old(sc), key),
    ensures
        is_interrupt(key) ==> r is Quit && *final(app) == *old(app) && *final(sc) == *old(sc),
        // Project select.
        !is_interrupt(key) && old(app).screen == Screen::ProjectSelect ==> {
            &&& others_unchanged(*old(sc), *final(sc), 0)
            &&& match key.code {
                KeyCode::Char('q') => r is Quit && *final(app) == *old(app) && final(sc).select == old(sc).select,
                KeyCode::Up => r is Continue && *final(app) == *old(app) && final(sc).select == select_up(old(sc).select),
                KeyCode::Down => r is Continue && *final(app) == *old(app) && final(sc).select == select_down(old(sc).select),
                KeyCode::Enter => r is Continue && final(sc).select == old(sc).select
                    && select_entered(old(sc).select, *old(app), *final(app)),
                _ => r is Continue && *final(app) == *old(app) && final(sc).select == old(sc).select,
            }
        },
        // Input files.
        !is_interrupt(key) && old(app).screen == Screen::InputFiles ==> {
            &&& others_unchanged(*old(sc), *final(sc), 1)
            &&& final(sc).input.wf()
            &&& match key.code {
                KeyCode::Up => r is Continue && *final(app) == *old(app) && final(sc).input == input_up(old(sc).input),
                KeyCode::Down => r is Continue && *final(app) == *old(app) && final(sc).input == input_down(old(sc).input),
                KeyCode::Enter => r matches KeyOutcome::Browse(req)
                    && entered(old(sc).input, final(sc).input, *old(app), *final(app), selected_is_dir, req),
                KeyCode::Esc => r is Continue && escaped(old(sc).input, final(sc).input, *old(app), *final(app)),
                KeyCode::Backspace => r is Continue && *final(app) == *old(app)
                    && backspaced(old(sc).input, final(sc).input),
                KeyCode::Char(c) => r is Continue && if c == 'd' && !old(sc).input.editing && !old(sc).input.browsing {
                    file_deleted(old(sc).input, final(sc).input, *old(app), *final(app))
                } else if old(sc).input.editing {
                    *final(app) == *old(app) && typed(old(sc).input, final(sc).input, c)
                } else {
                    *final(app) == *old(app) && final(sc).input == old(sc).input
                },
                _ => r is Continue && *final(app) == *old(app) && final(sc).input == old(sc).input,
            }
        },
        // Pipeline.
        !is_interrupt(key) && old(app).screen == Screen::PipelineExecution ==> {
            let (p, d) = (old(sc).plane, old(sc).pipeline_detail);
            &&& others_unchanged(*old(sc), *final(sc), 2)
            &&& r is Continue
            &&& match key.code {
                KeyCode::Char('q') | KeyCode::Esc => if d {
                    *final(app) == *old(app) && final(sc).plane == p && !final(sc).pipeline_detail
                } else {
                    *final(app) == (App { screen: Screen::ProjectSelect, ..*old(app) })
                        && final(sc).plane == p && final(sc).pipeline_detail == d
                },
                KeyCode::Enter => *final(app) == *old(app) && if d {
                    final(sc).pipeline_detail && final(sc).plane == (PaperPipelinePlane { show_item_detail: !p.show_item_detail, ..p })
                } else {
                    final(sc).pipeline_detail && final(sc).plane == p
                },
                KeyCode::Left => *final(app) == *old(app) && final(sc).pipeline_detail == d
                    && if d { arrowed(p, final(sc).plane, false, p.data.stages@.len() > 0) } else { final(sc).plane == p },
                KeyCode::Right => *final(app) == *old(app) && final(sc).pipeline_detail == d
                    && if d { arrowed(p, final(sc).plane, true, p.data.stages@.len() > 0) } else { final(sc).plane == p },
                KeyCode::Up => *final(app) == *old(app) && final(sc).pipeline_detail == d && scrolled(p, final(sc).plane, -1),
                KeyCode::Down => *final(app) == *old(app) && final(sc).pipeline_detail == d && scrolled(p, final(sc).plane, 1),
                KeyCode::Char('d') => *final(app) == *old(app) && final(sc).plane == p && final(sc).pipeline_detail == !d,
                KeyCode::Char('o') => *final(app) == (App { screen: Screen::Output, ..*old(app) })
                    && final(sc).plane == p && final(sc).pipeline_detail == d,
                _ => *final(app) == *old(app) && final(sc).plane == p && final(sc).pipeline_detail == d,
            }
        },
        // Output.
        !is_interrupt(key) && old(app).screen == Screen::Output ==> {
            &&& others_unchanged(*old(sc), *final(sc), 3)
            &&& match key.code {
                KeyCode::Char('q') => r is Quit && *final(app) == *old(app) && final(sc).output == old(sc).output,
                KeyCode::Esc => r is Continue && final(sc).output == old(sc).output
                    && *final(app) == (App { screen: Screen::PipelineExecution, ..*old(app) }),
                KeyCode::Up => r is Continue && *final(app) == *old(app)
                    && final(sc).output.selected == row_above(old(sc).output.selected),
                KeyCode::Down => r is Continue && *final(app) == *old(app)
                    && final(sc).output.selected == row_below(old(sc).output.selected),
                KeyCode::Enter => r is Continue && final(sc).output == old(sc).output
                    && output_entered(old(sc).output, *old(app), *final(app)),
                _ => r is Continue && *final(app) == *old(app) && final(sc).output == old(sc).output,
            }
        },
{
    match key.code {
        KeyCode::Char(c) => {
            if c == 'c' && key.control {
                return KeyOutcome::Quit;
            }
        },
        _ => {},
    }
    match app.screen {
        Screen::ProjectSelect => match key.code {
            KeyCode::Char('q') => KeyOutcome::Quit,
            KeyCode::Up => {
                sc.select.move_up();
                KeyOutcome::Continue
            },
            KeyCode::Down => {
                sc.select.move_down();
                KeyOutcome::Continue
            },
            KeyCode::Enter => {
                sc.select.enter(app);
                KeyOutcome::Continue
            },
            _ => KeyOutcome::Continue,
        },
        Screen::InputFiles => match key.code {
            KeyCode::Up => {
                sc.input.move_up();
                KeyOutcome::Continue
            },
            KeyCode::Down => {
                sc.input.move_down();
                KeyOutcome::Continue
            },
            KeyCode::Enter => KeyOutcome::Browse(sc.input.enter(app, selected_is_dir)),
            KeyCode::Esc => {
                sc.input.escape(app);
                KeyOutcome::Continue
            },
            KeyCode::Backspace => {
                sc.input.backspace();
                KeyOutcome::Continue
            },
            KeyCode::Char(c) => {
                if c == 'd' && !sc.input.editing && !sc.input.browsing {
                    sc.input.delete_file(app);
                } else if sc.input.editing {
                    sc.input.type_char(c);
                }
                KeyOutcome::Continue
            },
            _ => KeyOutcome::Continue,
        },
        Screen::PipelineExecution => {
            match key.code {
                KeyCode::Char('q') | KeyCode::Esc => {
                    if sc.pipeline_detail {
                        sc.pipeline_detail = false;
                    } else {
                        app.screen = Screen::ProjectSelect;
                    }
                },
                KeyCode::Enter => {
                    if sc.pipeline_detail {
                        sc.plane.handle_enter();
                    } else {
                        sc.pipeline_detail = true;
                    }
                },
                KeyCode::Left => {
                    if sc.pipeline_detail {
                        let taken = sc.plane.handle_arrow(false);
                    }
                },
                KeyCode::Right => {
                    if sc.pipeline_detail {
                        let taken = sc.plane.handle_arrow(true);
                    }
                },
                KeyCode::Up => sc.plane.scroll_by(-1),
                KeyCode::Down => sc.plane.scroll_by(1),
                KeyCode::Char('d') => {
                    sc.pipeline_detail = !sc.pipeline_detail;
                },
                KeyCode::Char('o') => {
                    app.screen = Screen::Output;
                },
                _ => {},
            }
            KeyOutcome::Continue
        },
        Screen::Output => match key.code {
            KeyCode::Char('q') => KeyOutcome::Quit,
            KeyCode::Esc => {
                app.screen = Screen::PipelineExecution;
                KeyOutcome::Continue
            },
            KeyCode::Up => {
                sc.output.move_up();
                KeyOutcome::Continue
            },
            KeyCode::Down => {
                sc.output.move_down();
                KeyOutcome::Continue
            },
            KeyCode::Enter => {
                sc.output.enter(app);
                KeyOutcome::Continue
            },
            _ => KeyOutcome::Continue,
        },
    }
}

} // verus!
