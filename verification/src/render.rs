//! The render reconciler's vocabulary and pure building blocks: terminal
//! draw operations, the completion-hint display window, display widths, and
//! the hint line itself.
//!
//! Nothing here touches a terminal. Callers execute the returned operations
//! in order against their terminal of choice.

use vstd::prelude::*;

use unicode_width::UnicodeWidthChar;

use crate::tab::{CandView, CompletionCandidate};
use crate::text::{decimal_spec, lemma_vec_deep_view_push, usize_to_string};

verus! {

/// At most this many completion candidates are shown on the hint line.
pub const MAX_HINT_DISPLAY: usize = 5;

/// The two colors the hint line uses: the selected candidate is cyan, the
/// rest dark grey.
#[derive(Clone, Copy, Debug, PartialEq, Eq, Structural)]
pub enum HintColor {
    Cyan,
    DarkGrey,
}

/// One terminal draw operation. Columns count from 0; moves are by one line.
#[derive(Clone, Debug, PartialEq, Eq)]
pub enum DrawOp {
    MoveToColumn(usize),
    ClearCurrentLine,
    ClearUntilNewline,
    MoveDown,
    MoveUp,
    HideCursor,
    ShowCursor,
    SavePosition,
    RestorePosition,
    Print(String),
    SetForegroundColor(HintColor),
    ResetColor,
}

/// The mathematical content of a [`DrawOp`].
#[verifier::ext_equal]
pub ghost enum OpView {
    MoveToColumn(int),
    ClearCurrentLine,
    ClearUntilNewline,
    MoveDown,
    MoveUp,
    HideCursor,
    ShowCursor,
    SavePosition,
    RestorePosition,
    Print(Seq<char>),
    SetForegroundColor(HintColor),
    ResetColor,
}

impl View for DrawOp {
    type V = OpView;

    open spec fn view(&self) -> OpView {
        match self {
            DrawOp::MoveToColumn(c) => OpView::MoveToColumn(*c as int),
            DrawOp::ClearCurrentLine => OpView::ClearCurrentLine,
            DrawOp::ClearUntilNewline => OpView::ClearUntilNewline,
            DrawOp::MoveDown => OpView::MoveDown,
            DrawOp::MoveUp => OpView::MoveUp,
            DrawOp::HideCursor => OpView::HideCursor,
            DrawOp::ShowCursor => OpView::ShowCursor,
            DrawOp::SavePosition => OpView::SavePosition,
            DrawOp::RestorePosition => OpView::RestorePosition,
            DrawOp::Print(s) => OpView::Print(s@),
            DrawOp::SetForegroundColor(c) => OpView::SetForegroundColor(*c),
            DrawOp::ResetColor => OpView::ResetColor,
        }
    }
}

impl DeepView for DrawOp {
    type V = OpView;

    open spec fn deep_view(&self) -> OpView {
        self@
    }
}

/// The operations that erase the input line: clear the current line and,
/// when a hint line is below it, that line too, ending at column 0 of the
/// input line.
pub open spec fn clear_ops_spec(hints_rendered: bool) -> Seq<OpView> {
    if hints_rendered {
        seq![
            OpView::MoveToColumn(0),
            OpView::ClearCurrentLine,
            OpView::MoveDown,
            OpView::ClearCurrentLine,
            OpView::MoveUp,
            OpView::MoveToColumn(0),
        ]
    } else {
        seq![OpView::MoveToColumn(0), OpView::ClearCurrentLine]
    }
}

/// Builds the line-erasing operations for a given hint state.
pub fn clear_line_ops(hints_rendered: bool) -> (r: Vec<DrawOp>)
    ensures
        r.deep_view() == clear_ops_spec(hints_rendered),
{
    let mut r: Vec<DrawOp> = Vec::new();
    r.push(DrawOp::MoveToColumn(0));
    r.push(DrawOp::ClearCurrentLine);
    if hints_rendered {
        r.push(DrawOp::MoveDown);
        r.push(DrawOp::ClearCurrentLine);
        r.push(DrawOp::MoveUp);
        r.push(DrawOp::MoveToColumn(0));
    }
    proof {
        assert forall|j: int| 0 <= j < r@.len() implies r.deep_view()[j] == clear_ops_spec(
            hints_rendered,
        )[j] by {
            assert(r.deep_view()[j] == r@[j]@);
        }
        assert(r.deep_view() =~~= clear_ops_spec(hints_rendered));
    }
    r
}

/// The half-open window `[start, end)` of candidate indices shown on the
/// hint line: all of them when they fit; otherwise a window of
/// [`MAX_HINT_DISPLAY`] containing the selected index, centered when
/// possible and clamped at both ends.
pub open spec fn hint_window_spec(total: int, selected: int) -> (int, int) {
    if total <= 5 {
        (0, total)
    } else {
        let half = 2int;
        let start = if selected <= half {
            0
        } else if selected >= total - half {
            total - 5
        } else {
            selected - half
        };
        (start, start + 5)
    }
}

/// Computes the hint display window. The selected index is always inside
/// the returned window.
pub fn hint_window(total: usize, selected: usize) -> (r: (usize, usize))
    requires
        selected < total,
    ensures
        (r.0 as int, r.1 as int) == hint_window_spec(total as int, selected as int),
        r.0 <= selected < r.1 <= total,
        r.1 - r.0 <= MAX_HINT_DISPLAY,
{
    let max_display = MAX_HINT_DISPLAY;
    if total <= max_display {
        (0, total)
    } else {
        let half = max_display / 2;
        let start = if selected <= half {
            0
        } else if selected >= total - half {
            total - max_display
        } else {
            selected - half
        };
        (start, start + max_display)
    }
}

/// The display width of a character, named after the result of
/// `unicode_width`'s lookup: a function of the character alone.
pub uninterp spec fn display_width(c: char) -> nat;

/// Relies on `unicode_width::UnicodeWidthChar::width`: the character's
/// displayed width in columns, taken as 0 for control characters (which the
/// crate reports as `None`). The result depends on the character alone.
#[verifier::external_body]
pub fn char_width(c: char) -> (w: usize)
    ensures
        w as nat == display_width(c),
{
    UnicodeWidthChar::width(c).unwrap_or(0)
}

/// The sum of the display widths of all characters of `s`.
pub open spec fn widths_sum(s: Seq<char>) -> nat
    decreases s.len(),
{
    if s.len() == 0 {
        0
    } else {
        widths_sum(s.drop_last()) + display_width(s.last())
    }
}

/// The terminal column of the cursor: the 2-column prompt plus the summed
/// display widths of the first `k` characters, saturated at `usize::MAX`.
pub open spec fn visual_col_spec(s: Seq<char>, k: int) -> int {
    let total = 2 + widths_sum(s.subrange(0, k));
    if total > usize::MAX {
        usize::MAX as int
    } else {
        total as int
    }
}

/// Computes the terminal column for a cursor sitting before character index
/// `cursor` of `s`, behind a 2-column prompt.
pub fn visual_cursor_col(s: &str, cursor: usize) -> (r: usize)
    requires
        cursor <= s@.len(),
    ensures
        r as int == visual_col_spec(s@, cursor as int),
{
    let mut col: usize = 2;
    let mut i: usize = 0;
    proof {
        assert(s@.subrange(0, 0) =~= Seq::<char>::empty());
    }
    while i < cursor
        invariant
            0 <= i <= cursor <= s@.len(),
            col as int == visual_col_spec(s@, i as int),
        decreases cursor - i,
    {
        let w = char_width(s.get_char(i));
        proof {
            let sub1 = s@.subrange(0, i + 1);
            assert(sub1.drop_last() =~= s@.subrange(0, i as int));
            assert(sub1.last() == s@[i as int]);
        }
        if col <= usize::MAX - w {
            col = col + w;
        } else {
            col = usize::MAX;
        }
        i += 1;
    }
    col
}

/// The text of one hint entry: `[completion]`, or `[completion: description]`.
pub open spec fn hint_text_spec(c: CandView) -> Seq<char> {
    seq!['['] + c.completion + (match c.description {
        Some(d) => seq![':', ' '] + d,
        None => Seq::<char>::empty(),
    }) + seq![']']
}

/// Builds the text of one hint entry.
fn hint_text(c: &CompletionCandidate) -> (r: String)
    ensures
        r@ == hint_text_spec(c@),
{
    proof {
        reveal_strlit("[");
        reveal_strlit("]");
        reveal_strlit(": ");
        assert("["@ =~= seq!['[']);
        assert("]"@ =~= seq![']']);
        assert(": "@ =~= seq![':', ' ']);
    }
    let mut t = String::from_str("[");
    t.append(c.completion.as_str());
    match &c.description {
        Some(d) => {
            t.append(": ");
            t.append(d.as_str());
        },
        None => {},
    }
    t.append("]");
    proof {
        assert(t@ =~= hint_text_spec(c@));
    }
    t
}

/// The truncation note appended when the window hides candidates:
/// `(+left/+right)` with counts hidden on both sides, `(+left<-)` for the
/// left only, `(->+right)` for the right only — the arrows being the usual
/// arrow characters.
pub open spec fn truncation_text_spec(hidden_left: int, hidden_right: int) -> Seq<char> {
    if hidden_left > 0 && hidden_right > 0 {
        seq![' ', ' ', '(', '+'] + decimal_spec(hidden_left as nat) + seq!['/', '+']
            + decimal_spec(hidden_right as nat) + seq![')']
    } else if hidden_left > 0 {
        seq![' ', ' ', '(', '+'] + decimal_spec(hidden_left as nat) + seq!['\u{2190}', ')']
    } else {
        seq![' ', ' ', '(', '\u{2192}', '+'] + decimal_spec(hidden_right as nat) + seq![')']
    }
}

/// Builds the truncation note.
fn truncation_text(hidden_left: usize, hidden_right: usize) -> (r: String)
    requires
        hidden_left > 0 || hidden_right > 0,
    ensures
        r@ == truncation_text_spec(hidden_left as int, hidden_right as int),
{
    proof {
        reveal_strlit("  (+");
        reveal_strlit("/+");
        reveal_strlit(")");
        reveal_strlit("\u{2190})");
        reveal_strlit("  (\u{2192}+");
        assert("  (+"@ =~= seq![' ', ' ', '(', '+']);
        assert("/+"@ =~= seq!['/', '+']);
        assert(")"@ =~= seq![')']);
        assert("\u{2190})"@ =~= seq!['\u{2190}', ')']);
        assert("  (\u{2192}+"@ =~= seq![' ', ' ', '(', '\u{2192}', '+']);
    }
    if hidden_left > 0 && hidden_right > 0 {
        let mut t = String::from_str("  (+");
        t.append(usize_to_string(hidden_left).as_str());
        t.append("/+");
        t.append(usize_to_string(hidden_right).as_str());
        t.append(")");
        proof {
            assert(t@ =~= truncation_text_spec(hidden_left as int, hidden_right as int));
        }
        t
    } else if hidden_left > 0 {
        let mut t = String::from_str("  (+");
        t.append(usize_to_string(hidden_left).as_str());
        t.append("\u{2190})");
        proof {
            assert(t@ =~= truncation_text_spec(hidden_left as int, hidden_right as int));
        }
        t
    } else {
        let mut t = String::from_str("  (\u{2192}+");
        t.append(usize_to_string(hidden_right).as_str());
        t.append(")");
        proof {
            assert(t@ =~= truncation_text_spec(hidden_left as int, hidden_right as int));
        }
        t
    }
}

/// The operations drawing the hint entry at index `idx` of the window that
/// starts at `start`: a two-space separator between entries, the entry's
/// color, then its text.
pub open spec fn hint_item_ops_spec(
    cs: Seq<CandView>,
    selected: int,
    start: int,
    idx: int,
) -> Seq<OpView> {
    let sep: Seq<OpView> = if idx > start {
        seq![OpView::Print(seq![' ', ' '])]
    } else {
        Seq::empty()
    };
    sep + seq![
        OpView::SetForegroundColor(
            if idx == selected {
                HintColor::Cyan
            } else {
                HintColor::DarkGrey
            },
        ),
        OpView::Print(hint_text_spec(cs[idx])),
    ]
}

/// The operations drawing the hint entries of indices `[start, k)`.
pub open spec fn hint_items_ops_spec(
    cs: Seq<CandView>,
    selected: int,
    start: int,
    k: int,
) -> Seq<OpView>
    decreases k - start,
{
    if k <= start {
        Seq::empty()
    } else {
        hint_items_ops_spec(cs, selected, start, k - 1) + hint_item_ops_spec(
            cs,
            selected,
            start,
            k - 1,
        )
    }
}

/// The truncation-note operations: empty when the window covers everything.
pub open spec fn truncation_ops_spec(total: int, start: int, end: int) -> Seq<OpView> {
    if start > 0 || end < total {
        seq![OpView::Print(truncation_text_spec(start, total - end))]
    } else {
        Seq::empty()
    }
}

/// The whole hint line: saved cursor, a fresh line below, the visible window
/// of entries, a truncation note when something is hidden, then reset color,
/// clear to end of line and the cursor restored onto the input line.
pub open spec fn hint_ops_spec(cs: Seq<CandView>, selected: int) -> Seq<OpView> {
    let w = hint_window_spec(cs.len() as int, selected);
    seq![OpView::SavePosition, OpView::Print(seq!['\n']), OpView::MoveToColumn(0)]
        + hint_items_ops_spec(cs, selected, w.0, w.1) + truncation_ops_spec(
        cs.len() as int,
        w.0,
        w.1,
    ) + seq![OpView::ResetColor, OpView::ClearUntilNewline, OpView::RestorePosition]
}

/// Builds the hint line for the given candidates and selected index.
pub fn hint_line_ops(completions: &Vec<CompletionCandidate>, selected: usize) -> (r: Vec<DrawOp>)
    requires
        selected < completions@.len(),
    ensures
        r.deep_view() == hint_ops_spec(completions.deep_view(), selected as int),
{
    let ghost cs = completions.deep_view();
    let total = completions.len();
    let w = hint_window(total, selected);
    let start = w.0;
    let end = w.1;

    let mut r: Vec<DrawOp> = Vec::new();
    r.push(DrawOp::SavePosition);
    proof {
        reveal_strlit("\n");
        assert("\n"@ =~= seq!['\n']);
    }
    r.push(DrawOp::Print(String::from_str("\n")));
    r.push(DrawOp::MoveToColumn(0));
    let ghost header = seq![
        OpView::SavePosition,
        OpView::Print(seq!['\n']),
        OpView::MoveToColumn(0),
    ];
    proof {
        assert forall|j: int| 0 <= j < 3 implies r.deep_view()[j] == header[j] by {
            assert(r.deep_view()[j] == r@[j]@);
        }
        assert(r.deep_view() =~~= header + hint_items_ops_spec(
            cs,
            selected as int,
            start as int,
            start as int,
        ));
    }

    let mut idx = start;
    while idx < end
        invariant
            start <= idx <= end,
            end <= completions@.len(),
            cs == completions.deep_view(),
            (start as int, end as int) == hint_window_spec(cs.len() as int, selected as int),
            header == seq![
                OpView::SavePosition,
                OpView::Print(seq!['\n']),
                OpView::MoveToColumn(0),
            ],
            r.deep_view() == header + hint_items_ops_spec(
                cs,
                selected as int,
                start as int,
                idx as int,
            ),
        decreases end - idx,
    {
        let ghost r0 = r;
        if idx > start {
            proof {
                reveal_strlit("  ");
                assert("  "@ =~= seq![' ', ' ']);
            }
            let sep = DrawOp::Print(String::from_str("  "));
            let ghost sep_view = sep@;
            let ghost r_pre = r;
            r.push(sep);
            proof {
                assert(r@.last()@ == sep_view);
                lemma_vec_deep_view_push(r_pre, r, r@.last());
            }
        }
        let color = if idx == selected {
            HintColor::Cyan
        } else {
            HintColor::DarkGrey
        };
        let ghost r_pre2 = r;
        r.push(DrawOp::SetForegroundColor(color));
        proof {
            lemma_vec_deep_view_push(r_pre2, r, DrawOp::SetForegroundColor(color));
        }
        let text = hint_text(&completions[idx]);
        let ghost text_view = text@;
        let ghost r_pre3 = r;
        r.push(DrawOp::Print(text));
        proof {
            assert(completions.deep_view()[idx as int] == completions@[idx as int]@);
            lemma_vec_deep_view_push(r_pre3, r, DrawOp::Print(text));
            assert(r.deep_view() =~~= r0.deep_view() + hint_item_ops_spec(
                cs,
                selected as int,
                start as int,
                idx as int,
            ));
            assert(r.deep_view() =~~= header + hint_items_ops_spec(
                cs,
                selected as int,
                start as int,
                idx + 1,
            ));
        }
        idx += 1;
    }

    if start > 0 || end < total {
        let note = truncation_text(start, total - end);
        let ghost r_pre4 = r;
        r.push(DrawOp::Print(note));
        proof {
            lemma_vec_deep_view_push(r_pre4, r, DrawOp::Print(note));
        }
    }
    proof {
        assert(r.deep_view() =~~= header + hint_items_ops_spec(
            cs,
            selected as int,
            start as int,
            end as int,
        ) + truncation_ops_spec(cs.len() as int, start as int, end as int));
    }

    let ghost r_pre5 = r;
    r.push(DrawOp::ResetColor);
    proof {
        lemma_vec_deep_view_push(r_pre5, r, DrawOp::ResetColor);
    }
    let ghost r_pre6 = r;
    r.push(DrawOp::ClearUntilNewline);
    proof {
        lemma_vec_deep_view_push(r_pre6, r, DrawOp::ClearUntilNewline);
    }
    let ghost r_pre7 = r;
    r.push(DrawOp::RestorePosition);
    proof {
        lemma_vec_deep_view_push(r_pre7, r, DrawOp::RestorePosition);
        assert(r.deep_view() =~~= hint_ops_spec(cs, selected as int));
    }
    r
}

/// The echoed line a submission prints: the prompt prefix followed by the
/// raw submitted text.
pub fn echo_line(prefix: &str, line: &str) -> (r: String)
    ensures
        r@ == prefix@ + line@,
{
    let mut t = String::from_str(prefix);
    t.append(line);
    t
}

} // verus!
