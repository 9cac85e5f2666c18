//! The orchestrator: the dashboard's state and how each key event and each
//! runner message moves it.
//!
//! The event loop around the library owns the terminal, the timer and the
//! channels; every decision it takes — what a key does in each mode, what
//! lands in the output log, what must be spawned or forwarded — is a
//! verified function here.

use vstd::prelude::*;

use crate::action::{action_name, Action};
use crate::layout::{
    actions_area_of, output_area_of, pane_layout, projects_area_of, splittable, OutputBorder,
    PaneRect,
};
use crate::list_box::state::ListBoxState;
use crate::list_box::{BorderKind, ListBox, ListPane};
use crate::project::{Project, TargetEntry};
use crate::runner::{ChunkModel, MsgModel, OutputChunk, RunnerMsg};
use crate::stateful_list::{next_index, prev_index, SelectionCursor, StatefulList};

verus! {

/// Relies on `String::push`: appends the given character to the end of the
/// string.
pub assume_specification[ String::push ](s: &mut String, ch: char)
    ensures
        final(s)@ == old(s)@.push(ch),
;

/// A keyboard key, as the event loop hands it to the library.
#[derive(Clone, Copy, Debug)]
pub enum KeyCode {
    Up,
    Down,
    Enter,
    Char(char),
    Other,
}

/// The modifier held together with a key; any combination of several
/// modifiers counts as `Other`.
#[derive(Clone, Copy, Debug, PartialEq, Eq, Structural)]
pub enum KeyModifier {
    Plain,
    Control,
    Alt,
    Shift,
    Other,
}

/// One key press.
#[derive(Clone, Copy, Debug)]
pub struct KeyEvent {
    pub code: KeyCode,
    pub modifier: KeyModifier,
}

/// What the event loop must do after a key event: nothing, reload the
/// catalog, start an invocation, forward text to the running child, or
/// drop the child's input channel.
pub enum Effect {
    Idle,
    Refresh,
    Start { action: Action, project: Project },
    Forward { text: String },
    StopForwarding,
}

/// The specification-level value of an effect.
pub enum EffectModel {
    Idle,
    Refresh,
    Start { action: Action, target: TargetEntry },
    Forward { text: Seq<char> },
    StopForwarding,
}

impl View for Effect {
    type V = EffectModel;

    open spec fn view(&self) -> EffectModel {
        match self {
            Effect::Idle => EffectModel::Idle,
            Effect::Refresh => EffectModel::Refresh,
            Effect::Start { action, project } => EffectModel::Start {
                action: *action,
                target: project@,
            },
            Effect::Forward { text } => EffectModel::Forward { text: text@ },
            Effect::StopForwarding => EffectModel::StopForwarding,
        }
    }
}

/// The specification-level state of one list pane.
#[verifier::ext_equal]
pub struct PaneModel<T> {
    pub items: Seq<T>,
    pub selected: Option<int>,
    pub active: bool,
}

/// The specification-level state of the dashboard.
#[verifier::ext_equal]
pub struct AppModel {
    pub projects: PaneModel<TargetEntry>,
    pub actions: PaneModel<Action>,
    pub path: Seq<char>,
    pub output: Seq<ChunkModel>,
    pub in_sink: bool,
    pub offset: u16,
    pub exit: bool,
    pub input: bool,
}

/// A cursor position as a specification integer.
pub open spec fn opt_int(o: Option<usize>) -> Option<int> {
    match o {
        Some(i) => Some(i as int),
        None => None,
    }
}

/// The item a cursor points at, if it points inside the list.
pub open spec fn selected_item<T>(items: Seq<T>, sel: Option<int>) -> Option<T> {
    match sel {
        Some(i) => if 0 <= i < items.len() {
            Some(items[i])
        } else {
            None
        },
        None => None,
    }
}

/// One backward cursor step over `n` items; an empty list changes nothing.
pub open spec fn cursor_prev(sel: Option<int>, n: int) -> Option<int> {
    if n == 0 {
        sel
    } else {
        Some(
            match sel {
                Some(i) => prev_index(i as nat, n as nat) as int,
                None => 0,
            },
        )
    }
}

/// One forward cursor step over `n` items; an empty list changes nothing.
pub open spec fn cursor_next(sel: Option<int>, n: int) -> Option<int> {
    if n == 0 {
        sel
    } else {
        Some(
            match sel {
                Some(i) => next_index(i as nat, n as nat) as int,
                None => 0,
            },
        )
    }
}

/// An offset bump that stops at the top of the range.
pub open spec fn saturating_inc(v: u16) -> u16 {
    if v < u16::MAX {
        (v + 1) as u16
    } else {
        v
    }
}

/// An offset drop that stops at zero.
pub open spec fn saturating_dec(v: u16) -> u16 {
    if v > 0 {
        (v - 1) as u16
    } else {
        0
    }
}

/// The text a key press stands for while forwarding: the character itself,
/// a newline for the enter key, nothing for the rest.
pub open spec fn echo_text(code: KeyCode) -> Seq<char> {
    match code {
        KeyCode::Char(c) => seq![c],
        KeyCode::Enter => seq!['\n'],
        _ => Seq::empty(),
    }
}

/// The log entry one runner message becomes: a chunk as itself, an error
/// as a failure-styled notice.
pub open spec fn message_chunk(m: MsgModel) -> ChunkModel {
    match m {
        MsgModel::Chunk(c) => c,
        MsgModel::Error(message) => ChunkModel::Notice { message },
    }
}

/// How one key event moves the dashboard, and what the event loop must do
/// about it.
///
/// While forwarding: the toggle combination leaves forwarding and drops
/// the input channel; with a live channel, control-j and control-k scroll
/// the output pane, and any other key whose text is non-empty is echoed
/// into the log and forwarded. Otherwise: the quit combination sets the
/// exit flag; the refresh key asks for a reload; the focus key flips which
/// pane is active; up and down move the active pane's cursor cyclically;
/// enter, with a target and an action selected, clears the log and starts
/// an invocation; j and k scroll; the toggle combination enters
/// forwarding.
pub open spec fn key_transition(m: AppModel, k: KeyEvent) -> (AppModel, EffectModel) {
    if m.input {
        if k.code is Char && k.code->0 == 'i' && k.modifier == KeyModifier::Alt {
            (AppModel { input: false, in_sink: false, ..m }, EffectModel::StopForwarding)
        } else if m.in_sink {
            if k.modifier == KeyModifier::Control {
                if k.code is Char && k.code->0 == 'j' {
                    (AppModel { offset: saturating_inc(m.offset), ..m }, EffectModel::Idle)
                } else if k.code is Char && k.code->0 == 'k' {
                    (AppModel { offset: saturating_dec(m.offset), ..m }, EffectModel::Idle)
                } else {
                    (m, EffectModel::Idle)
                }
            } else {
                let txt = echo_text(k.code);
                if txt.len() > 0 {
                    let out2 = if m.output.len() > 0 {
                        m.output.push(ChunkModel::Echo { text: txt })
                    } else {
                        m.output
                    };
                    (AppModel { output: out2, ..m }, EffectModel::Forward { text: txt })
                } else {
                    (m, EffectModel::Idle)
                }
            }
        } else {
            (m, EffectModel::Idle)
        }
    } else {
        match k.code {
            KeyCode::Char(c) => {
                if c == 'c' && k.modifier == KeyModifier::Control {
                    (AppModel { exit: true, ..m }, EffectModel::Idle)
                } else if c == 'r' && k.modifier == KeyModifier::Shift {
                    (m, EffectModel::Refresh)
                } else if c == 'a' {
                    (
                        AppModel {
                            projects: PaneModel { active: !m.projects.active, ..m.projects },
                            actions: PaneModel { active: !m.actions.active, ..m.actions },
                            ..m
                        },
                        EffectModel::Idle,
                    )
                } else if c == 'j' {
                    (AppModel { offset: saturating_inc(m.offset), ..m }, EffectModel::Idle)
                } else if c == 'k' {
                    (AppModel { offset: saturating_dec(m.offset), ..m }, EffectModel::Idle)
                } else if c == 'i' && k.modifier == KeyModifier::Alt {
                    (AppModel { input: true, ..m }, EffectModel::Idle)
                } else {
                    (m, EffectModel::Idle)
                }
            },
            KeyCode::Up => {
                if m.projects.active {
                    (
                        AppModel {
                            projects: PaneModel {
                                selected: cursor_prev(
                                    m.projects.selected,
                                    m.projects.items.len() as int,
                                ),
                                ..m.projects
                            },
                            ..m
                        },
                        EffectModel::Idle,
                    )
                } else if m.actions.active {
                    (
                        AppModel {
                            actions: PaneModel {
                                selected: cursor_prev(
                                    m.actions.selected,
                                    m.actions.items.len() as int,
                                ),
                                ..m.actions
                            },
                            ..m
                        },
                        EffectModel::Idle,
                    )
                } else {
                    (m, EffectModel::Idle)
                }
            },
            KeyCode::Down => {
                if m.projects.active {
                    (
                        AppModel {
                            projects: PaneModel {
                                selected: cursor_next(
                                    m.projects.selected,
                                    m.projects.items.len() as int,
                                ),
                                ..m.projects
                            },
                            ..m
                        },
                        EffectModel::Idle,
                    )
                } else if m.actions.active {
                    (
                        AppModel {
                            actions: PaneModel {
                                selected: cursor_next(
                                    m.actions.selected,
                                    m.actions.items.len() as int,
                                ),
                                ..m.actions
                            },
                            ..m
                        },
                        EffectModel::Idle,
                    )
                } else {
                    (m, EffectModel::Idle)
                }
            },
            KeyCode::Enter => {
                match (selected_item(m.actions.items, m.actions.selected), selected_item(
                    m.projects.items,
                    m.projects.selected,
                )) {
                    (Some(a), Some(p)) => (
                        AppModel { output: Seq::empty(), in_sink: true, ..m },
                        EffectModel::Start { action: a, target: p },
                    ),
                    _ => (m, EffectModel::Idle),
                }
            },
            KeyCode::Other => (m, EffectModel::Idle),
        }
    }
}

/// One frame, ready to draw: the three pane areas, the two described list
/// panes, the output pane's border, and the scroll offset.
pub struct RenderModel {
    pub projects_area: PaneRect,
    pub actions_area: PaneRect,
    pub output_area: PaneRect,
    pub projects: ListPane,
    pub actions: ListPane,
    pub output_border: OutputBorder,
    pub scroll: u16,
}

/// The dashboard: the two list panes, the project path, the output log,
/// and the mode flags of the event loop.
pub struct App {
    pub projects: ListBoxState<Project>,
    pub actions: ListBoxState<Action>,
    pub path: String,
    pub output: Vec<OutputChunk>,
    pub in_sink: bool,
    pub offset: u16,
    pub exit: bool,
    pub input: bool,
}

impl App {
    /// The specification-level state of the dashboard.
    pub open spec fn model(&self) -> AppModel {
        AppModel {
            projects: PaneModel {
                items: self.projects.list.items@.map_values(|p: Project| p@),
                selected: opt_int(self.projects.list.state.selected),
                active: self.projects.active,
            },
            actions: PaneModel {
                items: self.actions.list.items@,
                selected: opt_int(self.actions.list.state.selected),
                active: self.actions.active,
            },
            path: self.path@,
            output: self.output@.map_values(|c: OutputChunk| c@),
            in_sink: self.in_sink,
            offset: self.offset,
            exit: self.exit,
            input: self.input,
        }
    }

    /// A dashboard over the given project path: an empty, active target
    /// pane, the three actions in their pane with the first selected, an
    /// empty log, and the event loop idle and navigating.
    pub fn new(path: String) -> (r: Self)
        ensures
            r.model() == (AppModel {
                projects: PaneModel { items: Seq::empty(), selected: None, active: true },
                actions: PaneModel {
                    items: seq![Action::Run, Action::Build, Action::Debug],
                    selected: Some(0),
                    active: false,
                },
                path: path@,
                output: Seq::empty(),
                in_sink: false,
                offset: 0,
                exit: false,
                input: false,
            }),
            r.projects.list.wf(),
            r.actions.list.wf(),
    {
        let mut action_items: Vec<Action> = Vec::new();
        action_items.push(Action::Run);
        action_items.push(Action::Build);
        action_items.push(Action::Debug);
        let r = App {
            projects: Default::default(),
            actions: ListBoxState {
                list: StatefulList {
                    state: SelectionCursor { selected: Some(0) },
                    items: action_items,
                },
                active: false,
            },
            path,
            output: Vec::new(),
            in_sink: false,
            offset: 0,
            exit: false,
            input: false,
        };
        proof {
            assert(r.model() =~= (AppModel {
                projects: PaneModel { items: Seq::empty(), selected: None, active: true },
                actions: PaneModel {
                    items: seq![Action::Run, Action::Build, Action::Debug],
                    selected: Some(0),
                    active: false,
                },
                path: r.path@,
                output: Seq::empty(),
                in_sink: false,
                offset: 0,
                exit: false,
                input: false,
            }));
        }
        r
    }

    /// Feed one key event to the dashboard: the new state and the returned
    /// effect follow `key_transition`.
    pub fn handle_key_event(&mut self, key: KeyEvent) -> (eff: Effect)
        ensures
            final(self).model() == key_transition(old(self).model(), key).0,
            eff@ == key_transition(old(self).model(), key).1,
    {
        let ghost m0 = self.model();
        if self.input {
            match (key.code, key.modifier) {
                (KeyCode::Char('i'), KeyModifier::Alt) => {
                    self.input = false;
                    self.in_sink = false;
                    proof {
                        assert(self.model() =~= key_transition(m0, key).0);
                    }
                    return Effect::StopForwarding;
                },
                _ => {},
            }
            if !self.in_sink {
                proof {
                    assert(self.model() =~= key_transition(m0, key).0);
                }
                return Effect::Idle;
            }
            if matches!(key.modifier, KeyModifier::Control) {
                match key.code {
                    KeyCode::Char('j') => {
                        self.offset = if self.offset < u16::MAX {
                            self.offset + 1
                        } else {
                            self.offset
                        };
                    },
                    KeyCode::Char('k') => {
                        self.offset = if self.offset > 0 {
                            self.offset - 1
                        } else {
                            0
                        };
                    },
                    _ => {},
                }
                proof {
                    assert(self.model() =~= key_transition(m0, key).0);
                }
                return Effect::Idle;
            }
            let text = echo_string(&key.code);
            if text.as_str().is_empty() {
                proof {
                    assert(text@.len() == 0);
                    assert(self.model() =~= key_transition(m0, key).0);
                }
                return Effect::Idle;
            }
            if self.output.len() > 0 {
                self.output.push(OutputChunk::Echo { text: text.clone() });
            }
            proof {
                assert(self.model() =~= key_transition(m0, key).0);
            }
            return Effect::Forward { text };
        }
        match key.code {
            KeyCode::Char(c) => {
                if c == 'c' && matches!(key.modifier, KeyModifier::Control) {
                    self.exit = true;
                    proof {
                        assert(self.model() =~= key_transition(m0, key).0);
                    }
                    Effect::Idle
                } else if c == 'r' && matches!(key.modifier, KeyModifier::Shift) {
                    proof {
                        assert(self.model() =~= key_transition(m0, key).0);
                    }
                    Effect::Refresh
                } else if c == 'a' {
                    self.projects.active = !self.projects.active;
                    self.actions.active = !self.actions.active;
                    proof {
                        assert(self.model() =~= key_transition(m0, key).0);
                    }
                    Effect::Idle
                } else if c == 'j' {
                    self.offset = if self.offset < u16::MAX {
                        self.offset + 1
                    } else {
                        self.offset
                    };
                    proof {
                        assert(self.model() =~= key_transition(m0, key).0);
                    }
                    Effect::Idle
                } else if c == 'k' {
                    self.offset = if self.offset > 0 {
                        self.offset - 1
                    } else {
                        0
                    };
                    proof {
                        assert(self.model() =~= key_transition(m0, key).0);
                    }
                    Effect::Idle
                } else if c == 'i' && matches!(key.modifier, KeyModifier::Alt) {
                    self.input = true;
                    proof {
                        assert(self.model() =~= key_transition(m0, key).0);
                    }
                    Effect::Idle
                } else {
                    proof {
                        assert(self.model() =~= key_transition(m0, key).0);
                    }
                    Effect::Idle
                }
            },
            KeyCode::Up => {
                if self.projects.active {
                    self.projects.prev();
                } else if self.actions.active {
                    self.actions.prev();
                }
                proof {
                    assert(self.model() =~= key_transition(m0, key).0);
                }
                Effect::Idle
            },
            KeyCode::Down => {
                if self.projects.active {
                    self.projects.next();
                } else if self.actions.active {
                    self.actions.next();
                }
                proof {
                    assert(self.model() =~= key_transition(m0, key).0);
                }
                Effect::Idle
            },
            KeyCode::Enter => {
                let act: Option<Action> = match self.actions.get_selected() {
                    Some(a) => Some(*a),
                    None => None,
                };
                let proj: Option<Project> = match self.projects.get_selected() {
                    Some(p) => Some(p.clone()),
                    None => None,
                };
                match (act, proj) {
                    (Some(action), Some(project)) => {
                        self.output.clear();
                        self.in_sink = true;
                        proof {
                            assert(self.model() =~= key_transition(m0, key).0);
                        }
                        Effect::Start { action, project }
                    },
                    _ => {
                        proof {
                            assert(self.model() =~= key_transition(m0, key).0);
                        }
                        Effect::Idle
                    },
                }
            },
            KeyCode::Other => {
                proof {
                    assert(self.model() =~= key_transition(m0, key).0);
                }
                Effect::Idle
            },
        }
    }

    /// Append one runner message to the output log: a chunk as itself, an
    /// error as a failure-styled notice. Nothing else moves.
    pub fn push_message(&mut self, msg: RunnerMsg)
        ensures
            final(self).model() == (AppModel {
                output: old(self).model().output.push(message_chunk(msg@)),
                ..old(self).model()
            }),
    {
        let ghost m0 = self.model();
        match msg {
            RunnerMsg::Chunk(c) => {
                self.output.push(c);
            },
            RunnerMsg::Error(message) => {
                self.output.push(OutputChunk::Notice { message });
            },
        }
        proof {
            assert(self.model() =~= (AppModel {
                output: m0.output.push(message_chunk(msg@)),
                ..m0
            }));
        }
    }

    /// Describe one frame, purely from current state: the three pane
    /// areas, the two list panes with their borders, labels and cursors,
    /// the output pane's border, and the scroll offset. Drawing it has no
    /// further decisions to take.
    pub fn render_model(&self, area: &PaneRect) -> (r: RenderModel)
        requires
            splittable(*area),
        ensures
            r.projects_area == projects_area_of(*area),
            r.actions_area == actions_area_of(*area),
            r.output_area == output_area_of(*area),
            r.projects.title@ == " Projects "@,
            r.projects.border == (if self.projects.active {
                BorderKind::Active
            } else {
                BorderKind::Inactive
            }),
            r.projects.labels@.len() == self.projects.list.items@.len(),
            forall|i: int|
                0 <= i < r.projects.labels@.len() ==> r.projects.labels@[i]@
                    == self.projects.list.items@[i].target@,
            r.projects.selected == self.projects.list.state.selected,
            r.actions.title@ == " Actions "@,
            r.actions.border == (if self.actions.active {
                BorderKind::Active
            } else {
                BorderKind::Inactive
            }),
            r.actions.labels@.len() == self.actions.list.items@.len(),
            forall|i: int|
                0 <= i < r.actions.labels@.len() ==> r.actions.labels@[i]@ == action_name(
                    self.actions.list.items@[i],
                ),
            r.actions.selected == self.actions.list.state.selected,
            r.output_border == (if self.input {
                OutputBorder::Forwarding
            } else {
                OutputBorder::Normal
            }),
            r.scroll == self.offset,
    {
        let (projects_area, actions_area, output_area) = pane_layout(area);
        let projects = ListBox::<Project>::new(" Projects ").render_model(&self.projects);
        let actions = ListBox::<Action>::new(" Actions ").render_model(&self.actions);
        let output_border = if self.input {
            OutputBorder::Forwarding
        } else {
            OutputBorder::Normal
        };
        RenderModel {
            projects_area,
            actions_area,
            output_area,
            projects,
            actions,
            output_border,
            scroll: self.offset,
        }
    }

    /// Replace the target list after a catalog reload; the cursor is
    /// re-established as `StatefulList::set_items` says, and nothing else
    /// moves.
    pub fn set_projects(&mut self, items: Vec<Project>)
        ensures
            final(self).projects.list.items == items,
            final(self).projects.list.wf(),
            final(self).projects.list.state.selected == (if items.len() == 0 {
                None::<usize>
            } else {
                match old(self).projects.list.state.selected {
                    Some(i) => if i < items.len() {
                        Some(i)
                    } else {
                        Some(0usize)
                    },
                    None => Some(0usize),
                }
            }),
            final(self).projects.active == old(self).projects.active,
            final(self).actions == old(self).actions,
            final(self).path == old(self).path,
            final(self).output == old(self).output,
            final(self).in_sink == old(self).in_sink,
            final(self).offset == old(self).offset,
            final(self).exit == old(self).exit,
            final(self).input == old(self).input,
    {
        self.projects.list.set_items(items);
    }
}

/// The text a key press stands for while forwarding, as an owned string.
fn echo_string(code: &KeyCode) -> (r: String)
    ensures
        r@ == echo_text(*code),
        r@.len() == echo_text(*code).len(),
{
    match code {
        KeyCode::Char(c) => {
            let mut s = String::new();
            s.push(*c);
            proof {
                assert(s@ =~= seq![*c]);
            }
            s
        },
        KeyCode::Enter => {
            let s = "\n".to_owned();
            proof {
                reveal_strlit("\n");
                assert(s@ =~= seq!['\n']);
            }
            s
        },
        _ => String::new(),
    }
}

} // verus!

