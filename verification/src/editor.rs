//! The editor/history state machine: the command buffer and cursor, history
//! traversal, the interrupt-key confirmation protocol, key-repeat debouncing,
//! and the completion state the renderer displays.
//!
//! [`ConsoleState`] owns no terminal handle and performs no I/O: time comes
//! in as an argument, and redraw work leaves as a list of
//! [`crate::render::DrawOp`]s for the caller to execute.

use vstd::prelude::*;

use crate::tab::{
    add_completion_spec, items_of_described_texts, items_of_texts, register_spec,
    result_candidates, tree_wf, trigger_of_context, CandView, CompletionCandidate, MatchStrategy,
    TabTree, TreeView,
};
use crate::render::{
    clear_line_ops, clear_ops_spec, echo_line, hint_line_ops, hint_ops_spec, visual_col_spec,
    visual_cursor_col, DrawOp, OpView,
};
use crate::text::{
    all_space, is_blank, lemma_vec_deep_view_concat, lemma_vec_deep_view_push, push_char,
};

verus! {

/// A second interrupt press within this window (in milliseconds) confirms
/// the exit.
pub const CTRL_C_CONFIRM_WINDOW_MS: u64 = 5000;

/// No modifier key held.
pub const MOD_NONE: u8 = 0;

/// The shift-modifier bit.
pub const MOD_SHIFT: u8 = 1;

/// The control-modifier bit.
pub const MOD_CONTROL: u8 = 2;

/// The alt-modifier bit.
pub const MOD_ALT: u8 = 4;

/// The keys the editor reacts to. Keys it ignores all map to `Other`.
#[derive(Clone, Copy, Debug, PartialEq, Eq, Structural)]
pub enum KeyCode {
    Char(char),
    Up,
    Down,
    Left,
    Right,
    Tab,
    Enter,
    Backspace,
    Other,
}

/// Whether a key event is a press, an auto-repeat, or a release.
#[derive(Clone, Copy, Debug, PartialEq, Eq, Structural)]
pub enum KeyKind {
    Press,
    Repeat,
    Release,
}

/// One decoded key event: the key, a modifier bit set, and the event kind.
#[derive(Clone, Copy, Debug, PartialEq, Eq, Structural)]
pub struct KeyInput {
    pub code: KeyCode,
    pub modifiers: u8,
    pub kind: KeyKind,
}

/// The two interrupt keys, which are exempt from debouncing and always
/// processed: control-c and control-d.
pub open spec fn is_interrupt_key(ev: KeyInput) -> bool {
    ev.modifiers == MOD_CONTROL && (ev.code == KeyCode::Char('c') || ev.code == KeyCode::Char('d'))
}

/// What the confirm-to-exit protocol answers to an interrupt press.
#[derive(Clone, Copy, Debug, PartialEq, Eq, Structural)]
pub enum CtrlCMessage {
    /// The buffer held text: it was cleared, press again to exit.
    InputCleared,
    /// The buffer was empty and no confirmation was pending: press again to
    /// exit.
    PressAgain,
    /// The confirming second press: the session ends.
    Exiting,
}

/// The editor, history, completion and render state of one console session.
pub struct ConsoleState {
    /// Previously submitted lines, oldest first.
    pub command_history: Vec<String>,
    /// The editable command buffer.
    pub current_input: String,
    /// Which history entry the buffer currently shows; `None` when not
    /// browsing history.
    pub history_index: Option<usize>,
    /// When the confirm-to-exit timer was armed, in milliseconds on the
    /// caller's monotonic clock.
    pub last_ctrl_c: Option<u64>,
    /// The cursor, as an index into the buffer's characters.
    pub cursor_position: usize,
    /// An externally set exit flag, reported on submission.
    pub should_exit: bool,
    last_key_event: Option<KeyInput>,
    tab_tree: Option<TabTree>,
    current_completions: Vec<CompletionCandidate>,
    hints_rendered: bool,
    selected_completion_index: usize,
}

/// The mathematical content of a [`ConsoleState`].
#[verifier::ext_equal]
pub ghost struct ConsoleView {
    pub history: Seq<Seq<char>>,
    pub input: Seq<char>,
    pub history_index: Option<usize>,
    pub last_interrupt: Option<u64>,
    pub cursor: int,
    pub should_exit: bool,
    pub last_key: Option<KeyInput>,
    pub tree: Option<TreeView>,
    pub completions: Seq<CandView>,
    pub hints_rendered: bool,
    pub selected: int,
}

impl View for ConsoleState {
    type V = ConsoleView;

    closed spec fn view(&self) -> ConsoleView {
        ConsoleView {
            history: self.command_history.deep_view(),
            input: self.current_input@,
            history_index: self.history_index,
            last_interrupt: self.last_ctrl_c,
            cursor: self.cursor_position as int,
            should_exit: self.should_exit,
            last_key: self.last_key_event,
            tree: match &self.tab_tree {
                Some(t) => Some(t@),
                None => None,
            },
            completions: self.current_completions.deep_view(),
            hints_rendered: self.hints_rendered,
            selected: self.selected_completion_index as int,
        }
    }
}

/// The registry after a registration call, when completion is enabled at
/// all; the cache is untouched.
pub open spec fn tree_after_register(
    t: Option<TreeView>,
    trigger: Option<Seq<char>>,
    items: Seq<crate::tab::ItemView>,
    strategy: MatchStrategy,
) -> Option<TreeView> {
    match t {
        Some(tv) => Some(
            TreeView { nodes: register_spec(tv.nodes, trigger, items, strategy), ..tv },
        ),
        None => None,
    }
}

impl ConsoleState {
    /// Well-formedness: the cursor stays inside the buffer, a browsed
    /// history index exists, the selected candidate exists (or is 0 for an
    /// empty candidate list), and the completion registry is well formed.
    pub open spec fn wf(self) -> bool {
        &&& 0 <= self@.cursor <= self@.input.len()
        &&& (self@.history_index matches Some(i) ==> (i as int) < self@.history.len())
        &&& (self@.completions.len() == 0 ==> self@.selected == 0)
        &&& (self@.completions.len() > 0 ==> 0 <= self@.selected < self@.completions.len())
        &&& (self@.tree matches Some(t) ==> tree_wf(t))
    }

    /// A fresh session: empty buffer and history, no pending interrupt, no
    /// completion registry.
    pub fn new() -> (r: Self)
        ensures
            r.wf(),
            r@ == (ConsoleView {
                history: Seq::<Seq<char>>::empty(),
                input: Seq::<char>::empty(),
                history_index: None,
                last_interrupt: None,
                cursor: 0,
                should_exit: false,
                last_key: None,
                tree: None,
                completions: Seq::<CandView>::empty(),
                hints_rendered: false,
                selected: 0,
            }),
    {
        let r = ConsoleState {
            command_history: Vec::new(),
            current_input: String::new(),
            history_index: None,
            last_ctrl_c: None,
            cursor_position: 0,
            should_exit: false,
            last_key_event: None,
            tab_tree: None,
            current_completions: Vec::new(),
            hints_rendered: false,
            selected_completion_index: 0,
        };
        proof {
            assert(r@.history =~~= Seq::<Seq<char>>::empty());
            assert(r@.completions =~~= Seq::<CandView>::empty());
            assert(r@ =~~= (ConsoleView {
                history: Seq::<Seq<char>>::empty(),
                input: Seq::<char>::empty(),
                history_index: None,
                last_interrupt: None,
                cursor: 0,
                should_exit: false,
                last_key: None,
                tree: None,
                completions: Seq::<CandView>::empty(),
                hints_rendered: false,
                selected: 0,
            }));
        }
        r
    }

    /// Turns tab completion on with a fresh, empty registry.
    pub fn enable_tab_completion(&mut self)
        requires
            old(self).wf(),
        ensures
            final(self).wf(),
            final(self)@ == (ConsoleView {
                tree: Some(
                    TreeView {
                        nodes: seq![
                            crate::tab::NodeView {
                                trigger: None,
                                items: Seq::empty(),
                                strategy: MatchStrategy::Prefix,
                            },
                        ],
                        last_input: Seq::<char>::empty(),
                        cache: Seq::<CandView>::empty(),
                    },
                ),
                ..old(self)@
            }),
    {
        self.tab_tree = Some(TabTree::new());
        proof {
            assert(self@ =~~= (ConsoleView {
                tree: Some(
                    TreeView {
                        nodes: seq![
                            crate::tab::NodeView {
                                trigger: None,
                                items: Seq::empty(),
                                strategy: MatchStrategy::Prefix,
                            },
                        ],
                        last_input: Seq::<char>::empty(),
                        cache: Seq::<CandView>::empty(),
                    },
                ),
                ..old(self)@
            }));
        }
    }

    /// Whether tab completion has been enabled.
    pub fn is_tab_completion_enabled(&self) -> (r: bool)
        ensures
            r == (self@.tree is Some),
    {
        match &self.tab_tree {
            Some(_) => true,
            None => false,
        }
    }

    /// Registers plain completion texts under `context`; does nothing while
    /// tab completion is disabled.
    pub fn register_tab_completions(&mut self, context: &str, completions: &[&str])
        requires
            old(self).wf(),
        ensures
            final(self).wf(),
            final(self)@ == (ConsoleView {
                tree: tree_after_register(
                    old(self)@.tree,
                    trigger_of_context(context@),
                    items_of_texts(completions.deep_view()),
                    MatchStrategy::Prefix,
                ),
                ..old(self)@
            }),
    {
        match &mut self.tab_tree {
            Some(tree) => {
                tree.register_completions(context, completions);
            },
            None => {},
        }
        proof {
            assert(self@ =~~= (ConsoleView {
                tree: tree_after_register(
                    old(self)@.tree,
                    trigger_of_context(context@),
                    items_of_texts(completions.deep_view()),
                    MatchStrategy::Prefix,
                ),
                ..old(self)@
            }));
        }
    }

    /// Registers text/description pairs under `context`; does nothing while
    /// tab completion is disabled.
    pub fn register_tab_completions_with_desc(&mut self, context: &str, items: &[(&str, &str)])
        requires
            old(self).wf(),
        ensures
            final(self).wf(),
            final(self)@ == (ConsoleView {
                tree: tree_after_register(
                    old(self)@.tree,
                    trigger_of_context(context@),
                    items_of_described_texts(items.deep_view()),
                    MatchStrategy::Prefix,
                ),
                ..old(self)@
            }),
    {
        match &mut self.tab_tree {
            Some(tree) => {
                tree.register_completions_with_desc(context, items);
            },
            None => {},
        }
        proof {
            assert(self@ =~~= (ConsoleView {
                tree: tree_after_register(
                    old(self)@.tree,
                    trigger_of_context(context@),
                    items_of_described_texts(items.deep_view()),
                    MatchStrategy::Prefix,
                ),
                ..old(self)@
            }));
        }
    }

    /// Adds a single completion item under `context`; does nothing while tab
    /// completion is disabled.
    pub fn add_tab_completion(&mut self, context: &str, text: &str, description: Option<&str>)
        requires
            old(self).wf(),
        ensures
            final(self).wf(),
            final(self)@ == (ConsoleView {
                tree: match old(self)@.tree {
                    Some(tv) => Some(
                        TreeView {
                            nodes: add_completion_spec(
                                tv.nodes,
                                trigger_of_context(context@),
                                crate::tab::ItemView {
                                    text: text@,
                                    description: description.deep_view(),
                                    priority: 0u32,
                                },
                            ),
                            ..tv
                        },
                    ),
                    None => None,
                },
                ..old(self)@
            }),
    {
        match &mut self.tab_tree {
            Some(tree) => {
                tree.add_completion(context, text, description);
            },
            None => {},
        }
        proof {
            assert(self@ =~~= (ConsoleView {
                tree: match old(self)@.tree {
                    Some(tv) => Some(
                        TreeView {
                            nodes: add_completion_spec(
                                tv.nodes,
                                trigger_of_context(context@),
                                crate::tab::ItemView {
                                    text: text@,
                                    description: description.deep_view(),
                                    priority: 0u32,
                                },
                            ),
                            ..tv
                        },
                    ),
                    None => None,
                },
                ..old(self)@
            }));
        }
    }
}

impl Default for ConsoleState {
    /// Same as [`ConsoleState::new`].
    fn default() -> (r: Self)
        ensures
            r.wf(),
            r@ == (ConsoleView {
                history: Seq::<Seq<char>>::empty(),
                input: Seq::<char>::empty(),
                history_index: None,
                last_interrupt: None,
                cursor: 0,
                should_exit: false,
                last_key: None,
                tree: None,
                completions: Seq::<CandView>::empty(),
                hints_rendered: false,
                selected: 0,
            }),
    {
        ConsoleState::new()
    }
}

/// The state after recomputing the completion candidates for the current
/// buffer: with completion enabled, the candidate list becomes the query
/// result (served from the cache when the buffer equals the previous query),
/// the selection resets to 0 and the registry caches the result; with
/// completion disabled, nothing changes.
pub open spec fn update_completions_f(v: ConsoleView) -> ConsoleView {
    match v.tree {
        Some(t) => {
            let cs = result_candidates(t, v.input);
            ConsoleView {
                completions: cs,
                selected: 0,
                tree: Some(TreeView { nodes: t.nodes, last_input: v.input, cache: cs }),
                ..v
            }
        },
        None => v,
    }
}

/// The state showing history entry `i`: the buffer holds the entry, the
/// cursor sits at its end.
pub open spec fn load_entry_f(v: ConsoleView, i: int) -> ConsoleView {
    ConsoleView {
        history_index: Some(i as usize),
        input: v.history[i],
        cursor: v.history[i].len() as int,
        ..v
    }
}

/// The history-up transition: on empty history or at the oldest entry,
/// nothing; otherwise the previous entry (the most recent one when not yet
/// browsing) is loaded and the candidates recomputed.
pub open spec fn up_key_f(v: ConsoleView) -> ConsoleView {
    if v.history.len() == 0 {
        v
    } else {
        match v.history_index {
            Some(idx) => if idx > 0 {
                update_completions_f(load_entry_f(v, idx as int - 1))
            } else {
                v
            },
            None => update_completions_f(load_entry_f(v, v.history.len() as int - 1)),
        }
    }
}

/// The history-down transition: when not browsing, nothing; before the
/// newest entry, the next entry is loaded; at the newest entry, browsing
/// stops and the buffer clears. Either way the candidates are recomputed.
pub open spec fn down_key_f(v: ConsoleView) -> ConsoleView {
    match v.history_index {
        None => v,
        Some(idx) => if (idx as int) < v.history.len() - 1 {
            update_completions_f(load_entry_f(v, idx as int + 1))
        } else {
            update_completions_f(
                ConsoleView { history_index: None, input: Seq::empty(), cursor: 0, ..v },
            )
        },
    }
}

/// The character-insert transition: the character goes in at the cursor
/// (clamped to the buffer length first) and the cursor advances past it.
pub open spec fn insert_char_f(v: ConsoleView, c: char) -> ConsoleView {
    let cl = if v.cursor <= v.input.len() {
        v.cursor
    } else {
        v.input.len() as int
    };
    ConsoleView { input: v.input.insert(cl, c), cursor: cl + 1, ..v }
}

/// The backspace transition: with the cursor at 0, nothing; otherwise the
/// character before the cursor disappears, the cursor moves back, and the
/// candidates are recomputed.
pub open spec fn backspace_f(v: ConsoleView) -> ConsoleView {
    if v.cursor > 0 {
        update_completions_f(
            ConsoleView { input: v.input.remove(v.cursor - 1), cursor: v.cursor - 1, ..v },
        )
    } else {
        v
    }
}

/// The submit transition: a buffer with any non-whitespace character is
/// pushed onto the history raw and the buffer, cursor, browsing state and
/// candidates reset; a blank buffer only clears the candidates.
pub open spec fn enter_f(v: ConsoleView) -> ConsoleView {
    if !all_space(v.input) {
        ConsoleView {
            history: v.history.push(v.input),
            input: Seq::empty(),
            cursor: 0,
            history_index: None,
            completions: Seq::empty(),
            selected: 0,
            ..v
        }
    } else {
        ConsoleView { completions: Seq::empty(), selected: 0, ..v }
    }
}

/// What a submission returns: the raw buffer when it is not blank.
pub open spec fn submitted_of(v: ConsoleView) -> Option<Seq<char>> {
    if !all_space(v.input) {
        Some(v.input)
    } else {
        None
    }
}

/// The soft-exit interrupt: buffer, cursor and candidates clear, and the
/// session ends regardless of buffer content.
pub open spec fn ctrl_d_f(v: ConsoleView) -> ConsoleView {
    ConsoleView {
        input: Seq::empty(),
        cursor: 0,
        completions: Seq::empty(),
        selected: 0,
        ..v
    }
}

/// The confirm-to-exit interrupt at time `now` (milliseconds, monotonic):
/// a non-empty buffer is cleared and the confirmation timer armed (not
/// exiting); an empty buffer with the timer armed less than
/// [`CTRL_C_CONFIRM_WINDOW_MS`] ago confirms the exit; otherwise the timer
/// is (re-)armed (not exiting). Returns the state, the exit decision and
/// the message kind.
pub open spec fn ctrl_c_f(v: ConsoleView, now: u64) -> (ConsoleView, bool, CtrlCMessage) {
    if v.input.len() > 0 {
        (
            ConsoleView {
                input: Seq::empty(),
                cursor: 0,
                completions: Seq::empty(),
                selected: 0,
                last_interrupt: Some(now),
                ..v
            },
            false,
            CtrlCMessage::InputCleared,
        )
    } else if v.last_interrupt matches Some(t) && now - t < CTRL_C_CONFIRM_WINDOW_MS {
        (v, true, CtrlCMessage::Exiting)
    } else {
        (ConsoleView { last_interrupt: Some(now), ..v }, false, CtrlCMessage::PressAgain)
    }
}

/// The tab transition: the selected candidate's full text (or, without
/// candidates, the best match for the buffer) replaces the buffer, the
/// cursor moves to its end and the candidates are recomputed. A best-match
/// query caches like any query even when it returns nothing.
pub open spec fn tab_key_f(v: ConsoleView) -> ConsoleView {
    if v.completions.len() > 0 {
        let full = v.completions[v.selected].full_text;
        update_completions_f(ConsoleView { input: full, cursor: full.len() as int, ..v })
    } else {
        match v.tree {
            Some(t) => {
                let cs = result_candidates(t, v.input);
                let t2 = TreeView { nodes: t.nodes, last_input: v.input, cache: cs };
                if cs.len() > 0 {
                    update_completions_f(
                        ConsoleView {
                            input: cs[0].full_text,
                            cursor: cs[0].full_text.len() as int,
                            tree: Some(t2),
                            ..v
                        },
                    )
                } else {
                    ConsoleView { tree: Some(t2), ..v }
                }
            },
            None => v,
        }
    }
}

impl ConsoleState {
    /// Recomputes the completion candidates for the current buffer and
    /// resets the selection (see [`update_completions_f`]).
    fn update_completions(&mut self)
        requires
            old(self).wf(),
        ensures
            final(self).wf(),
            final(self)@ == update_completions_f(old(self)@),
    {
        match &mut self.tab_tree {
            Some(tree) => {
                let cands = tree.get_candidates(self.current_input.as_str());
                self.current_completions = cands;
                self.selected_completion_index = 0;
                proof {
                    assert(self@ =~~= update_completions_f(old(self)@));
                }
            },
            None => {},
        }
    }

    /// Inserts `c` at the cursor and advances the cursor (see
    /// [`insert_char_f`]). The candidates are not recomputed here;
    /// [`ConsoleState::process_event`] does that after an insertion.
    pub fn handle_char_input(&mut self, c: char)
        requires
            old(self).wf(),
            old(self)@.input.len() < usize::MAX,
        ensures
            final(self).wf(),
            final(self)@ == insert_char_f(old(self)@, c),
    {
        let char_count = self.current_input.as_str().unicode_len();
        let cl = if self.cursor_position > char_count {
            char_count
        } else {
            self.cursor_position
        };
        let s = self.current_input.as_str();
        let mut out = String::from_str(s.substring_char(0, cl));
        push_char(&mut out, c);
        out.append(s.substring_char(cl, char_count));
        self.current_input = out;
        self.cursor_position = cl + 1;
        proof {
            assert(self@.input =~= old(self)@.input.insert(cl as int, c));
            assert(self@ =~~= insert_char_f(old(self)@, c));
        }
    }

    /// Removes the character at index `index`, when there is one (see the
    /// backspace handling in [`ConsoleState::process_event`]).
    fn remove_char_at(&mut self, index: usize)
        ensures
            final(self)@ == (ConsoleView {
                input: if (index as int) < old(self)@.input.len() {
                    old(self)@.input.remove(index as int)
                } else {
                    old(self)@.input
                },
                ..old(self)@
            }),
    {
        let char_count = self.current_input.as_str().unicode_len();
        if index < char_count {
            let s = self.current_input.as_str();
            let out = String::from_str(s.substring_char(0, index)).concat(
                s.substring_char(index + 1, char_count),
            );
            self.current_input = out;
            proof {
                assert(self@.input =~= old(self)@.input.remove(index as int));
                assert(self@ =~~= (ConsoleView {
                    input: old(self)@.input.remove(index as int),
                    ..old(self)@
                }));
            }
        } else {
            proof {
                assert(self@ =~~= (ConsoleView { input: old(self)@.input, ..old(self)@ }));
            }
        }
    }

    /// History up: loads the previous (or most recent) entry (see
    /// [`up_key_f`]).
    pub fn handle_up_key(&mut self)
        requires
            old(self).wf(),
        ensures
            final(self).wf(),
            final(self)@ == up_key_f(old(self)@),
    {
        if self.command_history.len() == 0 {
            return;
        }
        let new_index: usize = match self.history_index {
            Some(idx) => {
                if idx > 0 {
                    idx - 1
                } else {
                    return;
                }
            },
            None => self.command_history.len() - 1,
        };
        self.history_index = Some(new_index);
        self.current_input = self.command_history[new_index].clone();
        self.cursor_position = self.current_input.as_str().unicode_len();
        proof {
            assert(old(self)@.history[new_index as int] == self.command_history@[
                new_index as int]@);
            assert(self@ =~~= load_entry_f(old(self)@, new_index as int));
        }
        self.update_completions();
    }

    /// History down: loads the next entry, or stops browsing and clears the
    /// buffer at the newest one (see [`down_key_f`]).
    pub fn handle_down_key(&mut self)
        requires
            old(self).wf(),
        ensures
            final(self).wf(),
            final(self)@ == down_key_f(old(self)@),
    {
        let idx = match self.history_index {
            Some(idx) => idx,
            None => {
                return;
            },
        };
        if idx < self.command_history.len() - 1 {
            let new_index = idx + 1;
            self.history_index = Some(new_index);
            self.current_input = self.command_history[new_index].clone();
            self.cursor_position = self.current_input.as_str().unicode_len();
            proof {
                assert(old(self)@.history[new_index as int] == self.command_history@[
                    new_index as int]@);
                assert(self@ =~~= load_entry_f(old(self)@, new_index as int));
            }
            self.update_completions();
        } else {
            self.history_index = None;
            self.current_input = String::new();
            self.cursor_position = 0;
            proof {
                assert(self@ =~~= (ConsoleView {
                    history_index: None,
                    input: Seq::<char>::empty(),
                    cursor: 0,
                    ..old(self)@
                }));
            }
            self.update_completions();
        }
    }

    /// Submits the buffer (see [`enter_f`]): returns the exit flag and the
    /// raw submitted text when the buffer was not blank.
    pub fn handle_enter_key(&mut self) -> (r: (bool, Option<String>))
        requires
            old(self).wf(),
        ensures
            final(self).wf(),
            final(self)@ == enter_f(old(self)@),
            r.0 == old(self)@.should_exit,
            r.1.deep_view() == submitted_of(old(self)@),
    {
        if !is_blank(self.current_input.as_str()) {
            let submitted = self.current_input.clone();
            self.command_history.push(self.current_input.clone());
            self.current_completions = Vec::new();
            self.selected_completion_index = 0;
            self.current_input = String::new();
            self.cursor_position = 0;
            self.history_index = None;
            proof {
                lemma_vec_deep_view_push(
                    old(self).command_history,
                    self.command_history,
                    self.command_history@.last(),
                );
                assert(self@.completions =~~= Seq::<CandView>::empty());
                assert(self@ =~~= enter_f(old(self)@));
            }
            (self.should_exit, Some(submitted))
        } else {
            self.current_completions = Vec::new();
            self.selected_completion_index = 0;
            proof {
                assert(self@.completions =~~= Seq::<CandView>::empty());
                assert(self@ =~~= enter_f(old(self)@));
            }
            (self.should_exit, None)
        }
    }

    /// The soft-exit interrupt (see [`ctrl_d_f`]): clears the buffer and
    /// candidates and reports that the session should end.
    pub fn handle_ctrl_d(&mut self) -> (r: bool)
        requires
            old(self).wf(),
        ensures
            final(self).wf(),
            final(self)@ == ctrl_d_f(old(self)@),
            r == true,
    {
        self.current_input = String::new();
        self.cursor_position = 0;
        self.current_completions = Vec::new();
        self.selected_completion_index = 0;
        proof {
            assert(self@.completions =~~= Seq::<CandView>::empty());
            assert(self@ =~~= ctrl_d_f(old(self)@));
        }
        true
    }

    /// The confirm-to-exit interrupt (see [`ctrl_c_f`]). `now_ms` is the
    /// caller's monotonic clock in milliseconds and may not run backwards
    /// past the armed confirmation timer.
    pub fn handle_ctrl_c(&mut self, now_ms: u64) -> (r: (bool, CtrlCMessage))
        requires
            old(self).wf(),
            old(self)@.last_interrupt matches Some(t) ==> t <= now_ms,
        ensures
            final(self).wf(),
            (final(self)@, r.0, r.1) == ctrl_c_f(old(self)@, now_ms),
    {
        if !self.current_input.as_str().is_empty() {
            self.current_input = String::new();
            self.cursor_position = 0;
            self.current_completions = Vec::new();
            self.selected_completion_index = 0;
            self.last_ctrl_c = Some(now_ms);
            proof {
                assert(self@.completions =~~= Seq::<CandView>::empty());
                assert(self@ =~~= ctrl_c_f(old(self)@, now_ms).0);
            }
            return (false, CtrlCMessage::InputCleared);
        }
        if let Some(last_time) = self.last_ctrl_c {
            if now_ms - last_time < CTRL_C_CONFIRM_WINDOW_MS {
                return (true, CtrlCMessage::Exiting);
            }
        }
        self.last_ctrl_c = Some(now_ms);
        proof {
            assert(self@ =~~= ctrl_c_f(old(self)@, now_ms).0);
        }
        (false, CtrlCMessage::PressAgain)
    }

    /// Applies the selected completion, or the best match for the buffer
    /// (see [`tab_key_f`]).
    pub fn handle_tab_key(&mut self)
        requires
            old(self).wf(),
        ensures
            final(self).wf(),
            final(self)@ == tab_key_f(old(self)@),
    {
        if self.current_completions.len() > 0 && self.selected_completion_index
            < self.current_completions.len() {
            let full = self.current_completions[self.selected_completion_index].full_text.clone();
            let flen = full.as_str().unicode_len();
            proof {
                assert(old(self)@.completions[old(self)@.selected] == self.current_completions@[
                    self.selected_completion_index as int]@);
            }
            self.current_input = full;
            self.cursor_position = flen;
            proof {
                assert(self@ =~~= (ConsoleView {
                    input: old(self)@.completions[old(self)@.selected].full_text,
                    cursor: old(self)@.completions[old(self)@.selected].full_text.len() as int,
                    ..old(self)@
                }));
            }
            self.update_completions();
        } else {
            match &mut self.tab_tree {
                Some(tree) => {
                    let m = tree.get_best_match(self.current_input.as_str());
                    match m {
                        Some(completion) => {
                            let flen = completion.as_str().unicode_len();
                            self.current_input = completion;
                            self.cursor_position = flen;
                            proof {
                                let t = old(self)@.tree->0;
                                let cs = result_candidates(t, old(self)@.input);
                                assert(self@ =~~= (ConsoleView {
                                    input: cs[0].full_text,
                                    cursor: cs[0].full_text.len() as int,
                                    tree: Some(
                                        TreeView {
                                            nodes: t.nodes,
                                            last_input: old(self)@.input,
                                            cache: cs,
                                        },
                                    ),
                                    ..old(self)@
                                }));
                            }
                            self.update_completions();
                        },
                        None => {
                            proof {
                                let t = old(self)@.tree->0;
                                let cs = result_candidates(t, old(self)@.input);
                                assert(self@ =~~= (ConsoleView {
                                    tree: Some(
                                        TreeView {
                                            nodes: t.nodes,
                                            last_input: old(self)@.input,
                                            cache: cs,
                                        },
                                    ),
                                    ..old(self)@
                                }));
                            }
                        },
                    }
                },
                None => {},
            }
        }
    }
}

/// The operations that draw the prompt, the buffer, the hint line (when
/// there are candidates) and finally place and show the cursor.
pub open spec fn content_ops_spec(v: ConsoleView) -> Seq<OpView> {
    seq![OpView::Print(seq!['>', ' ']), OpView::Print(v.input)] + (if v.completions.len() > 0 {
        hint_ops_spec(v.completions, v.selected)
    } else {
        Seq::empty()
    }) + seq![OpView::MoveToColumn(visual_col_spec(v.input, v.cursor)), OpView::ShowCursor]
}

/// The state after a full redraw: the hint-line flag records whether a hint
/// line was drawn.
pub open spec fn render_f(v: ConsoleView) -> ConsoleView {
    ConsoleView { hints_rendered: v.completions.len() > 0, ..v }
}

/// A full redraw: hide the cursor, erase the line(s), draw the content.
pub open spec fn render_line_ops_spec(v: ConsoleView) -> Seq<OpView> {
    seq![OpView::HideCursor] + clear_ops_spec(v.hints_rendered) + content_ops_spec(v)
}

/// A redraw on a fresh line (nothing to erase): hide the cursor, go to
/// column 0, draw the content.
pub open spec fn render_no_clear_ops_spec(v: ConsoleView) -> Seq<OpView> {
    seq![OpView::HideCursor, OpView::MoveToColumn(0)] + content_ops_spec(v)
}

/// A log line interleaved with the edit line: erase the edit line(s), print
/// the log line and a newline, then redraw the edit line on the fresh line
/// below.
pub open spec fn log_entry_ops_spec(v: ConsoleView, line: Seq<char>) -> Seq<OpView> {
    clear_ops_spec(v.hints_rendered) + seq![
        OpView::Print(line),
        OpView::Print(seq!['\n']),
        OpView::MoveToColumn(0),
    ] + render_no_clear_ops_spec(v)
}

impl ConsoleState {
    /// The terminal column the cursor belongs at: the prompt width plus the
    /// display widths of the buffer characters before the cursor.
    pub fn calculate_visual_cursor_pos(&self) -> (r: usize)
        requires
            self.wf(),
        ensures
            r as int == visual_col_spec(self@.input, self@.cursor),
    {
        visual_cursor_col(self.current_input.as_str(), self.cursor_position)
    }

    /// The operations that erase the input line and, when one is drawn, the
    /// hint line below it; the hint-line flag resets.
    pub fn clear_input_line(&mut self) -> (ops: Vec<DrawOp>)
        requires
            old(self).wf(),
        ensures
            final(self).wf(),
            final(self)@ == (ConsoleView { hints_rendered: false, ..old(self)@ }),
            ops.deep_view() == clear_ops_spec(old(self)@.hints_rendered),
    {
        let ops = clear_line_ops(self.hints_rendered);
        self.hints_rendered = false;
        proof {
            assert(self@ =~~= (ConsoleView { hints_rendered: false, ..old(self)@ }));
        }
        ops
    }

    /// Draws prompt, buffer and hint line and repositions the cursor (see
    /// [`content_ops_spec`]); records whether a hint line was drawn.
    fn render_input_content(&mut self) -> (ops: Vec<DrawOp>)
        requires
            old(self).wf(),
        ensures
            final(self).wf(),
            final(self)@ == (ConsoleView {
                hints_rendered: if old(self)@.completions.len() > 0 {
                    true
                } else {
                    old(self)@.hints_rendered
                },
                ..old(self)@
            }),
            ops.deep_view() == content_ops_spec(old(self)@),
    {
        let ghost v = self@;
        let mut ops: Vec<DrawOp> = Vec::new();
        proof {
            reveal_strlit("> ");
            assert("> "@ =~= seq!['>', ' ']);
        }
        let prompt = DrawOp::Print(String::from_str("> "));
        let ghost ops0 = ops;
        ops.push(prompt);
        proof {
            lemma_vec_deep_view_push(ops0, ops, ops@.last());
        }
        let buffer_text = DrawOp::Print(self.current_input.clone());
        let ghost ops1 = ops;
        ops.push(buffer_text);
        proof {
            lemma_vec_deep_view_push(ops1, ops, ops@.last());
            assert(ops.deep_view() =~~= seq![OpView::Print(seq!['>', ' ']), OpView::Print(v.input)]);
        }
        if self.current_completions.len() > 0 {
            let mut hints = hint_line_ops(&self.current_completions, self.selected_completion_index);
            let ghost ops2 = ops;
            let ghost hints0 = hints;
            ops.append(&mut hints);
            proof {
                lemma_vec_deep_view_concat(ops2, hints0, ops);
            }
            self.hints_rendered = true;
        }
        proof {
            assert(ops.deep_view() =~~= seq![
                OpView::Print(seq!['>', ' ']),
                OpView::Print(v.input),
            ] + (if v.completions.len() > 0 {
                hint_ops_spec(v.completions, v.selected)
            } else {
                Seq::<OpView>::empty()
            }));
        }
        let col = visual_cursor_col(self.current_input.as_str(), self.cursor_position);
        let ghost ops3 = ops;
        ops.push(DrawOp::MoveToColumn(col));
        proof {
            lemma_vec_deep_view_push(ops3, ops, ops@.last());
        }
        let ghost ops4 = ops;
        ops.push(DrawOp::ShowCursor);
        proof {
            lemma_vec_deep_view_push(ops4, ops, ops@.last());
            assert(ops.deep_view() =~~= content_ops_spec(v));
            assert(self@ =~~= (ConsoleView {
                hints_rendered: if v.completions.len() > 0 {
                    true
                } else {
                    v.hints_rendered
                },
                ..v
            }));
        }
        ops
    }

    /// A full redraw of the input line (and hint line): hide the cursor,
    /// erase, draw (see [`render_line_ops_spec`]).
    pub fn render_input_line(&mut self) -> (ops: Vec<DrawOp>)
        requires
            old(self).wf(),
        ensures
            final(self).wf(),
            final(self)@ == render_f(old(self)@),
            ops.deep_view() == render_line_ops_spec(old(self)@),
    {
        let ghost v = self@;
        let mut ops: Vec<DrawOp> = Vec::new();
        ops.push(DrawOp::HideCursor);
        let mut cl = self.clear_input_line();
        let ghost ops0 = ops;
        let ghost cl0 = cl;
        ops.append(&mut cl);
        proof {
            lemma_vec_deep_view_concat(ops0, cl0, ops);
            assert(ops0.deep_view() =~~= seq![OpView::HideCursor]);
        }
        let mut content = self.render_input_content();
        let ghost ops1 = ops;
        let ghost content0 = content;
        ops.append(&mut content);
        proof {
            lemma_vec_deep_view_concat(ops1, content0, ops);
            assert(content_ops_spec(ConsoleView { hints_rendered: false, ..v }) =~~=
                content_ops_spec(v));
            assert(ops.deep_view() =~~= render_line_ops_spec(v));
            assert(self@ =~~= render_f(v));
        }
        ops
    }

    /// A redraw that does not erase first, for use when the cursor already
    /// sits on a fresh line (see [`render_no_clear_ops_spec`]).
    pub fn render_input_line_no_clear(&mut self) -> (ops: Vec<DrawOp>)
        requires
            old(self).wf(),
        ensures
            final(self).wf(),
            final(self)@ == (ConsoleView {
                hints_rendered: if old(self)@.completions.len() > 0 {
                    true
                } else {
                    old(self)@.hints_rendered
                },
                ..old(self)@
            }),
            ops.deep_view() == render_no_clear_ops_spec(old(self)@),
    {
        let ghost v = self@;
        let mut ops: Vec<DrawOp> = Vec::new();
        ops.push(DrawOp::HideCursor);
        ops.push(DrawOp::MoveToColumn(0));
        let mut content = self.render_input_content();
        let ghost ops0 = ops;
        let ghost content0 = content;
        ops.append(&mut content);
        proof {
            lemma_vec_deep_view_concat(ops0, content0, ops);
            assert(ops0.deep_view() =~~= seq![OpView::HideCursor, OpView::MoveToColumn(0)]);
            assert(ops.deep_view() =~~= render_no_clear_ops_spec(v));
        }
        ops
    }

    /// The operations that print one log line without disturbing the edit
    /// line: erase it, print the log line on its own line, redraw the edit
    /// line beneath (see [`log_entry_ops_spec`]).
    pub fn print_log_entry(&mut self, log_line: &str) -> (ops: Vec<DrawOp>)
        requires
            old(self).wf(),
        ensures
            final(self).wf(),
            final(self)@ == render_f(old(self)@),
            ops.deep_view() == log_entry_ops_spec(old(self)@, log_line@),
    {
        let ghost v = self@;
        let mut ops = self.clear_input_line();
        let ghost ops0 = ops;
        ops.push(DrawOp::Print(String::from_str(log_line)));
        proof {
            lemma_vec_deep_view_push(ops0, ops, ops@.last());
            reveal_strlit("\n");
            assert("\n"@ =~= seq!['\n']);
        }
        let ghost ops1 = ops;
        ops.push(DrawOp::Print(String::from_str("\n")));
        proof {
            lemma_vec_deep_view_push(ops1, ops, ops@.last());
        }
        let ghost ops2 = ops;
        ops.push(DrawOp::MoveToColumn(0));
        proof {
            lemma_vec_deep_view_push(ops2, ops, ops@.last());
        }
        let mut tail = self.render_input_line_no_clear();
        let ghost ops3 = ops;
        let ghost tail0 = tail;
        ops.append(&mut tail);
        proof {
            lemma_vec_deep_view_concat(ops3, tail0, ops);
            assert(content_ops_spec(ConsoleView { hints_rendered: false, ..v }) =~~=
                content_ops_spec(v));
            assert(render_no_clear_ops_spec(ConsoleView { hints_rendered: false, ..v }) =~~=
                render_no_clear_ops_spec(v));
            assert(ops.deep_view() =~~= log_entry_ops_spec(v, log_line@));
            assert(self@ =~~= render_f(v));
        }
        ops
    }
}

/// Executable test for [`is_interrupt_key`].
pub fn is_interrupt(ev: KeyInput) -> (r: bool)
    ensures
        r == is_interrupt_key(ev),
{
    ev.modifiers == MOD_CONTROL && (ev.code == KeyCode::Char('c') || ev.code == KeyCode::Char('d'))
}

/// Everything one key event causes: the next state, the exit decision, a
/// message to log, the submitted line, and the draw operations to perform.
#[verifier::ext_equal]
pub ghost struct EventEffect {
    pub post: ConsoleView,
    pub quit: bool,
    pub message: Option<CtrlCMessage>,
    pub submitted: Option<Seq<char>>,
    pub ops: Seq<OpView>,
}

/// An event that changes the state but triggers no redraw and no exit.
pub open spec fn silent_effect(post: ConsoleView) -> EventEffect {
    EventEffect { post, quit: false, message: None, submitted: None, ops: Seq::empty() }
}

/// An event whose new state is redrawn in place.
pub open spec fn redraw_effect(mid: ConsoleView) -> EventEffect {
    EventEffect {
        post: render_f(mid),
        quit: false,
        message: None,
        submitted: None,
        ops: render_line_ops_spec(mid),
    }
}

/// The full dispatch of one key event at time `now`.
///
/// Releases are ignored. A press identical (code, modifiers and kind) to the
/// immediately preceding processed event is dropped, except for the two
/// interrupt keys, which are always processed. A processed press becomes the
/// new "preceding event" and is routed to its handler; handlers that change
/// what is on screen redraw the line.
pub open spec fn process_event_f(pre: ConsoleView, ev: KeyInput, now: u64) -> EventEffect {
    if ev.kind == KeyKind::Release {
        silent_effect(pre)
    } else if pre.last_key == Some(ev) && !is_interrupt_key(ev) {
        silent_effect(pre)
    } else {
        let v = ConsoleView { last_key: Some(ev), ..pre };
        if ev.modifiers == MOD_CONTROL && ev.code == KeyCode::Char('d') {
            EventEffect {
                post: ConsoleView { hints_rendered: false, ..ctrl_d_f(v) },
                quit: true,
                message: None,
                submitted: None,
                ops: clear_ops_spec(v.hints_rendered),
            }
        } else if ev.modifiers == MOD_CONTROL && ev.code == KeyCode::Char('c') {
            let r = ctrl_c_f(v, now);
            EventEffect {
                post: r.0,
                quit: r.1,
                message: Some(r.2),
                submitted: None,
                ops: Seq::empty(),
            }
        } else {
            match ev.code {
                KeyCode::Up => redraw_effect(up_key_f(v)),
                KeyCode::Down => redraw_effect(down_key_f(v)),
                KeyCode::Left => if ev.modifiers == MOD_ALT {
                    if v.completions.len() > 0 && v.selected > 0 {
                        redraw_effect(ConsoleView { selected: v.selected - 1, ..v })
                    } else {
                        silent_effect(v)
                    }
                } else if v.cursor > 0 {
                    redraw_effect(ConsoleView { cursor: v.cursor - 1, ..v })
                } else {
                    silent_effect(v)
                },
                KeyCode::Right => if ev.modifiers == MOD_ALT {
                    if v.completions.len() > 0 && v.selected < v.completions.len() - 1 {
                        redraw_effect(ConsoleView { selected: v.selected + 1, ..v })
                    } else {
                        silent_effect(v)
                    }
                } else if v.cursor < v.input.len() {
                    redraw_effect(ConsoleView { cursor: v.cursor + 1, ..v })
                } else {
                    silent_effect(v)
                },
                KeyCode::Tab => redraw_effect(tab_key_f(v)),
                KeyCode::Enter => {
                    let cleared = ConsoleView { hints_rendered: false, ..enter_f(v) };
                    let echo_ops: Seq<OpView> = match submitted_of(v) {
                        Some(line) => seq![
                            OpView::Print(seq!['>', ' '] + line),
                            OpView::Print(seq!['\n']),
                        ],
                        None => Seq::empty(),
                    };
                    EventEffect {
                        post: render_f(cleared),
                        quit: v.should_exit,
                        message: None,
                        submitted: submitted_of(v),
                        ops: clear_ops_spec(v.hints_rendered) + echo_ops + render_line_ops_spec(
                            cleared,
                        ),
                    }
                },
                KeyCode::Char(c) => redraw_effect(update_completions_f(insert_char_f(v, c))),
                KeyCode::Backspace => if v.cursor > 0 {
                    redraw_effect(backspace_f(v))
                } else {
                    silent_effect(v)
                },
                KeyCode::Other => silent_effect(v),
            }
        }
    }
}

/// What [`ConsoleState::process_event`] hands back to the event loop.
pub struct EventOutcome {
    /// The session should end.
    pub should_quit: bool,
    /// Draw operations to execute, in order.
    pub ops: Vec<DrawOp>,
    /// An interrupt-protocol message to log, when an interrupt was pressed.
    pub message: Option<CtrlCMessage>,
    /// The submitted line, when this event submitted one.
    pub submitted: Option<String>,
}

/// A key press identical to the immediately preceding processed press is
/// dropped whole — same state, nothing drawn, no exit — unless it is one of
/// the two interrupt keys, which [`process_event_f`] always routes to their
/// handlers.
pub proof fn lemma_debounce_drops_identical_press(pre: ConsoleView, ev: KeyInput, now: u64)
    requires
        ev.kind != KeyKind::Release,
        pre.last_key == Some(ev),
        !is_interrupt_key(ev),
    ensures
        process_event_f(pre, ev, now) == silent_effect(pre),
{
}

/// Processing any non-release event records it as the preceding event (or
/// drops it, leaving the record unchanged), so the identical non-interrupt
/// press right after is always dropped.
pub proof fn lemma_debounce_second_press(pre: ConsoleView, ev: KeyInput, now1: u64, now2: u64)
    requires
        ev.kind != KeyKind::Release,
        !is_interrupt_key(ev),
    ensures
        ({
            let e1 = process_event_f(pre, ev, now1);
            process_event_f(e1.post, ev, now2) == silent_effect(e1.post)
        }),
{
    let e1 = process_event_f(pre, ev, now1);
    if pre.last_key == Some(ev) {
        assert(e1.post == pre);
    } else {
        let v = ConsoleView { last_key: Some(ev), ..pre };
        assert(v.last_key == Some(ev));
        assert(e1.post.last_key == Some(ev));
    }
}

impl ConsoleState {
    /// Routes one key event (see [`process_event_f`]): debounces repeats,
    /// dispatches to the editor and completion handlers, and returns the
    /// exit decision, any interrupt message, any submitted line, and the
    /// draw operations to execute. The caller formats and logs the
    /// interrupt message itself (via [`ConsoleState::print_log_entry`]).
    #[verifier::rlimit(100)]
    pub fn process_event(&mut self, ev: KeyInput, now_ms: u64) -> (r: EventOutcome)
        requires
            old(self).wf(),
            old(self)@.input.len() < usize::MAX,
            old(self)@.last_interrupt matches Some(t) ==> t <= now_ms,
        ensures
            final(self).wf(),
            ({
                let e = process_event_f(old(self)@, ev, now_ms);
                &&& final(self)@ == e.post
                &&& r.should_quit == e.quit
                &&& r.message == e.message
                &&& r.submitted.deep_view() == e.submitted
                &&& r.ops.deep_view() == e.ops
            }),
    {
        let ghost pre = self@;
        if ev.kind == KeyKind::Release {
            return EventOutcome {
                should_quit: false,
                ops: Vec::new(),
                message: None,
                submitted: None,
            };
        }
        let dropped = match self.last_key_event {
            Some(last) => last == ev && !is_interrupt(ev),
            None => false,
        };
        if dropped {
            return EventOutcome {
                should_quit: false,
                ops: Vec::new(),
                message: None,
                submitted: None,
            };
        }
        self.last_key_event = Some(ev);
        let ghost v = self@;
        proof {
            assert(v =~~= (ConsoleView { last_key: Some(ev), ..pre }));
        }

        if ev.modifiers == MOD_CONTROL && ev.code == KeyCode::Char('d') {
            let quit = self.handle_ctrl_d();
            let ops = self.clear_input_line();
            return EventOutcome { should_quit: quit, ops, message: None, submitted: None };
        }
        if ev.modifiers == MOD_CONTROL && ev.code == KeyCode::Char('c') {
            let (quit, message) = self.handle_ctrl_c(now_ms);
            return EventOutcome {
                should_quit: quit,
                ops: Vec::new(),
                message: Some(message),
                submitted: None,
            };
        }

        match ev.code {
            KeyCode::Up => {
                self.handle_up_key();
                let ops = self.render_input_line();
                EventOutcome { should_quit: false, ops, message: None, submitted: None }
            },
            KeyCode::Down => {
                self.handle_down_key();
                let ops = self.render_input_line();
                EventOutcome { should_quit: false, ops, message: None, submitted: None }
            },
            KeyCode::Left => {
                if ev.modifiers == MOD_ALT {
                    if self.current_completions.len() > 0 && self.selected_completion_index > 0 {
                        self.selected_completion_index -= 1;
                        proof {
                            assert(self@ =~~= (ConsoleView { selected: v.selected - 1, ..v }));
                        }
                        let ops = self.render_input_line();
                        EventOutcome { should_quit: false, ops, message: None, submitted: None }
                    } else {
                        EventOutcome {
                            should_quit: false,
                            ops: Vec::new(),
                            message: None,
                            submitted: None,
                        }
                    }
                } else if self.cursor_position > 0 {
                    self.cursor_position -= 1;
                    proof {
                        assert(self@ =~~= (ConsoleView { cursor: v.cursor - 1, ..v }));
                    }
                    let ops = self.render_input_line();
                    EventOutcome { should_quit: false, ops, message: None, submitted: None }
                } else {
                    EventOutcome {
                        should_quit: false,
                        ops: Vec::new(),
                        message: None,
                        submitted: None,
                    }
                }
            },
            KeyCode::Right => {
                if ev.modifiers == MOD_ALT {
                    if self.current_completions.len() > 0 && self.selected_completion_index
                        < self.current_completions.len() - 1 {
                        self.selected_completion_index += 1;
                        proof {
                            assert(self@ =~~= (ConsoleView { selected: v.selected + 1, ..v }));
                        }
                        let ops = self.render_input_line();
                        EventOutcome { should_quit: false, ops, message: None, submitted: None }
                    } else {
                        EventOutcome {
                            should_quit: false,
                            ops: Vec::new(),
                            message: None,
                            submitted: None,
                        }
                    }
                } else if self.cursor_position < self.current_input.as_str().unicode_len() {
                    self.cursor_position += 1;
                    proof {
                        assert(self@ =~~= (ConsoleView { cursor: v.cursor + 1, ..v }));
                    }
                    let ops = self.render_input_line();
                    EventOutcome { should_quit: false, ops, message: None, submitted: None }
                } else {
                    EventOutcome {
                        should_quit: false,
                        ops: Vec::new(),
                        message: None,
                        submitted: None,
                    }
                }
            },
            KeyCode::Tab => {
                self.handle_tab_key();
                let ops = self.render_input_line();
                EventOutcome { should_quit: false, ops, message: None, submitted: None }
            },
            KeyCode::Enter => {
                let (quit, submitted) = self.handle_enter_key();
                let mut ops = self.clear_input_line();
                match &submitted {
                    Some(s) => {
                        let ghost ops0 = ops;
                        ops.push(DrawOp::Print(echo_line("> ", s.as_str())));
                        proof {
                            lemma_vec_deep_view_push(ops0, ops, ops@.last());
                            reveal_strlit("> ");
                            reveal_strlit("\n");
                            assert("> "@ =~= seq!['>', ' ']);
                            assert("\n"@ =~= seq!['\n']);
                        }
                        let ghost ops1 = ops;
                        ops.push(DrawOp::Print(String::from_str("\n")));
                        proof {
                            lemma_vec_deep_view_push(ops1, ops, ops@.last());
                        }
                    },
                    None => {},
                }
                let mut tail = self.render_input_line();
                let ghost ops2 = ops;
                let ghost tail0 = tail;
                ops.append(&mut tail);
                proof {
                    lemma_vec_deep_view_concat(ops2, tail0, ops);
                    let e = process_event_f(pre, ev, now_ms);
                    assert(ops.deep_view() =~~= e.ops);
                }
                EventOutcome { should_quit: quit, ops, message: None, submitted }
            },
            KeyCode::Char(c) => {
                self.handle_char_input(c);
                self.update_completions();
                let ops = self.render_input_line();
                EventOutcome { should_quit: false, ops, message: None, submitted: None }
            },
            KeyCode::Backspace => {
                if self.cursor_position > 0 {
                    self.remove_char_at(self.cursor_position - 1);
                    self.cursor_position -= 1;
                    proof {
                        assert(self@ =~~= (ConsoleView {
                            input: v.input.remove(v.cursor - 1),
                            cursor: v.cursor - 1,
                            ..v
                        }));
                    }
                    self.update_completions();
                    let ops = self.render_input_line();
                    EventOutcome { should_quit: false, ops, message: None, submitted: None }
                } else {
                    EventOutcome {
                        should_quit: false,
                        ops: Vec::new(),
                        message: None,
                        submitted: None,
                    }
                }
            },
            KeyCode::Other => EventOutcome {
                should_quit: false,
                ops: Vec::new(),
                message: None,
                submitted: None,
            },
        }
    }
}

} // verus!
