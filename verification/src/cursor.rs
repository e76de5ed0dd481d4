//! Caret movement over bidirectional text: visual steps, smart home, word
//! steps and vertical moves with a sticky column.

use crate::bidi::{BidiError, BidiParagraph};
use crate::unicode::{grapheme_clusters, split_graphemes, texts};
use vstd::prelude::*;
use vstd::string::StringExecFns;

verus! {

/// The ways a caret can be asked to move.
#[derive(Debug, Clone, Copy, PartialEq, Eq, Structural)]
pub enum MovementDirection {
    Left,
    Right,
    Up,
    Down,
    Home,
    End,
    WordLeft,
    WordRight,
}

/// Where a vertical move lands, with the sticky column to remember for the
/// next one.
#[derive(Debug, Clone, Copy, PartialEq, Eq, Structural)]
pub struct TextPosition {
    pub line: usize,
    pub column: usize,
    pub sticky_column: Option<usize>,
}

/// The first visual column at or after `v` that shows a cluster which is not
/// white space, or the length of the text if there is none.
pub open spec fn first_visible(p: BidiParagraph, v: nat) -> int
    decreases p.len_view() - v,
{
    if v >= p.len_view() {
        p.len_view()
    } else if !p.blanks_view()[p.logical_spec(v as int)] {
        v as int
    } else {
        first_visible(p, v + 1)
    }
}

/// Where Home takes a caret at `pos`: to the first cluster of the visual line
/// that is not white space, and from there (or when the line is blank) to
/// visual column 0.
pub open spec fn home_target(p: BidiParagraph, pos: int) -> int {
    let first = first_visible(p, 0);
    if first >= p.len_view() || pos == p.logical_spec(first) {
        p.logical_spec(0)
    } else {
        p.logical_spec(first)
    }
}

/// The first word stop at or after boundary `k`; the end of the text is one.
pub open spec fn next_stop(stops: Seq<bool>, k: nat) -> int
    decreases stops.len() - k,
{
    if k >= stops.len() - 1 {
        stops.len() - 1
    } else if stops[k as int] {
        k as int
    } else {
        next_stop(stops, k + 1)
    }
}

/// The last word stop at or before boundary `k`; the start of the text is
/// one.
pub open spec fn prev_stop(stops: Seq<bool>, k: int) -> int
    decreases k,
{
    if k <= 0 {
        0
    } else if k < stops.len() && stops[k] {
        k
    } else {
        prev_stop(stops, k - 1)
    }
}

/// Where a move within one paragraph lands, from the position `pos` clamped
/// to the text. `None` stands for the moves that one paragraph cannot answer.
pub open spec fn visual_move(p: BidiParagraph, pos: int, direction: MovementDirection) -> Option<
    int,
> {
    let n = p.len_view();
    let at = if pos > n {
        n
    } else {
        pos
    };
    let column = p.visual_spec(at);
    match direction {
        MovementDirection::Left => Some(
            p.logical_spec(
                if column > 0 {
                    column - 1
                } else {
                    0
                },
            ),
        ),
        MovementDirection::Right => Some(
            p.logical_spec(
                if column < n {
                    column + 1
                } else {
                    n
                },
            ),
        ),
        MovementDirection::Home => Some(home_target(p, at)),
        MovementDirection::End => Some(n),
        MovementDirection::WordLeft => Some(prev_stop(p.stops_view(), at - 1)),
        MovementDirection::WordRight => Some(next_stop(p.stops_view(), (at + 1) as nat)),
        MovementDirection::Up | MovementDirection::Down => None,
    }
}

/// The line on which a vertical move from `line` lands in a text of `count`
/// lines: the neighbouring line, or `line` itself at the first and last line.
pub open spec fn vertical_line(count: int, line: int, direction: MovementDirection) -> int {
    if direction == MovementDirection::Up {
        if line > 0 {
            line - 1
        } else {
            line
        }
    } else {
        if line + 1 < count {
            line + 1
        } else {
            line
        }
    }
}

/// The column on which a caret lands on a line of `len` clusters: the sticky
/// column if the line reaches that far, else the current column, clamped to
/// the line.
pub open spec fn landing_column(len: int, column: int, sticky: Option<usize>) -> int {
    match sticky {
        Some(s) if s <= len => s as int,
        _ => if column <= len {
            column
        } else {
            len
        },
    }
}

/// The column that was asked for: the sticky column if there is one, else the
/// current column.
pub open spec fn requested_column(column: int, sticky: Option<usize>) -> int {
    match sticky {
        Some(s) => s as int,
        None => column,
    }
}

/// Where a caret that moves to line `line` of `len` clusters lands, and the
/// sticky column to record: the larger of the column asked for and the column
/// reached.
pub open spec fn landing(line: usize, len: int, column: int, sticky: Option<usize>) -> TextPosition {
    let reached = landing_column(len, column, sticky);
    let asked = requested_column(column, sticky);
    TextPosition {
        line,
        column: reached as usize,
        sticky_column: Some(
            if asked >= reached {
                asked as usize
            } else {
                reached as usize
            },
        ),
    }
}

/// A caret that cannot move further up or down stays where it is; the sticky
/// column to record is the larger of the column asked for and its own.
pub open spec fn staying(line: usize, column: usize, sticky: Option<usize>) -> TextPosition {
    let asked = requested_column(column as int, sticky);
    TextPosition {
        line,
        column,
        sticky_column: Some(
            if asked >= column {
                asked as usize
            } else {
                column
            },
        ),
    }
}

/// One logical step in a text of `len` clusters.
pub open spec fn logical_step(len: int, pos: int, forward: bool) -> int {
    if forward {
        if pos + 1 <= len {
            pos + 1
        } else {
            len
        }
    } else {
        if pos > 0 {
            pos - 1
        } else {
            0
        }
    }
}

/// Caret movement. The functions take the text they move over and hold no
/// state of their own.
pub struct CursorMovement;

impl CursorMovement {
    /// Moves a caret within one paragraph. Left and Right step one visual
    /// column; Home goes to the first cluster that is not white space, and on
    /// to visual column 0 when the caret is already there; End goes to the
    /// end; WordLeft and WordRight go to the nearest word stop strictly before
    /// or after the caret. A position beyond the text counts as its end.
    /// Up and Down are refused: one paragraph has no lines to move between.
    pub fn move_visual(
        paragraph: &BidiParagraph,
        logical_pos: usize,
        direction: MovementDirection,
    ) -> (r: Result<usize, BidiError>)
        requires
            paragraph.wf(),
        ensures
            match visual_move(*paragraph, logical_pos as int, direction) {
                Some(target) => r == Ok::<usize, BidiError>(target as usize) && 0 <= target
                    <= paragraph.len_view(),
                None => r matches Err(BidiError::ProcessingError(m)) && m@
                    == "Vertical movement not implemented for single paragraph"@,
            },
    {
        let n: usize = paragraph.len();
        let at: usize = if logical_pos > n {
            n
        } else {
            logical_pos
        };
        match direction {
            MovementDirection::Left => {
                let column: usize = paragraph.logical_to_visual(at);
                let target: usize = if column > 0 {
                    column - 1
                } else {
                    0
                };
                Ok(paragraph.visual_to_logical(target))
            },
            MovementDirection::Right => {
                let column: usize = paragraph.logical_to_visual(at);
                let target: usize = if column < n {
                    column + 1
                } else {
                    n
                };
                Ok(paragraph.visual_to_logical(target))
            },
            MovementDirection::Home => Ok(CursorMovement::smart_home(paragraph, at)),
            MovementDirection::End => Ok(n),
            MovementDirection::WordLeft => Ok(CursorMovement::word_stop_before(paragraph, at)),
            MovementDirection::WordRight => Ok(CursorMovement::word_stop_after(paragraph, at)),
            MovementDirection::Up | MovementDirection::Down => Err(
                BidiError::ProcessingError(
                    String::from_str("Vertical movement not implemented for single paragraph"),
                ),
            ),
        }
    }

    /// Where Home takes a caret at `pos`.
    pub fn smart_home(paragraph: &BidiParagraph, pos: usize) -> (r: usize)
        requires
            paragraph.wf(),
        ensures
            r == home_target(*paragraph, pos as int),
            r <= paragraph.len_view(),
    {
        let n: usize = paragraph.len();
        let mut v: usize = 0;
        while v < n
            invariant
                paragraph.wf(),
                n == paragraph.len_view(),
                v <= n,
                first_visible(*paragraph, v as nat) == first_visible(*paragraph, 0),
            decreases n - v,
        {
            let i: usize = paragraph.visual_to_logical(v);
            if !paragraph.is_blank_at(i) {
                if pos == i {
                    return paragraph.visual_to_logical(0);
                } else {
                    return i;
                }
            }
            v = v + 1;
        }
        paragraph.visual_to_logical(0)
    }

    /// The nearest word stop strictly before `pos`, or the start of the text.
    pub fn word_stop_before(paragraph: &BidiParagraph, pos: usize) -> (r: usize)
        requires
            paragraph.wf(),
            pos <= paragraph.len_view(),
        ensures
            r == prev_stop(paragraph.stops_view(), pos - 1),
            r <= pos,
            pos > 0 ==> r < pos,
    {
        if pos == 0 {
            return 0;
        }
        let mut k: usize = pos - 1;
        while k > 0 && !paragraph.is_word_stop_at(k)
            invariant
                paragraph.wf(),
                k < pos <= paragraph.len_view(),
                prev_stop(paragraph.stops_view(), k as int) == prev_stop(
                    paragraph.stops_view(),
                    pos - 1,
                ),
            decreases k,
        {
            k = k - 1;
        }
        k
    }

    /// The nearest word stop strictly after `pos`, or the end of the text.
    pub fn word_stop_after(paragraph: &BidiParagraph, pos: usize) -> (r: usize)
        requires
            paragraph.wf(),
            pos <= paragraph.len_view(),
        ensures
            r == next_stop(paragraph.stops_view(), (pos + 1) as nat),
            pos <= r <= paragraph.len_view(),
            pos < paragraph.len_view() ==> pos < r,
    {
        let n: usize = paragraph.len();
        if pos >= n {
            return n;
        }
        let mut k: usize = pos + 1;
        while k < n && !paragraph.is_word_stop_at(k)
            invariant
                paragraph.wf(),
                n == paragraph.len_view(),
                pos < k <= n,
                next_stop(paragraph.stops_view(), k as nat) == next_stop(
                    paragraph.stops_view(),
                    (pos + 1) as nat,
                ),
            decreases n - k,
        {
            k = k + 1;
        }
        k
    }

    /// Where a caret that moves to line `line` of `len` clusters lands.
    pub fn land_on_line(line: usize, len: usize, column: usize, sticky: Option<usize>) -> (r:
        TextPosition)
        ensures
            r == landing(line, len as int, column as int, sticky),
            r.column <= len,
    {
        let asked: usize = match sticky {
            Some(s) => s,
            None => column,
        };
        let reached: usize = match sticky {
            Some(s) if s <= len => s,
            _ => if column <= len {
                column
            } else {
                len
            },
        };
        let remembered: usize = if asked >= reached {
            asked
        } else {
            reached
        };
        TextPosition { line, column: reached, sticky_column: Some(remembered) }
    }

    /// Moves a caret up or down in a text given as its lines. The caret lands
    /// on the neighbouring line, on the sticky column if that line reaches so
    /// far and else on its own column, clamped to the line; at the first and
    /// last line it stays where it is. Other directions are refused here, and
    /// so is a line that the text does not have.
    pub fn move_vertical(
        lines: &Vec<String>,
        line: usize,
        column: usize,
        direction: MovementDirection,
        sticky_column: Option<usize>,
    ) -> (r: Result<TextPosition, BidiError>)
        ensures
            direction != MovementDirection::Up && direction != MovementDirection::Down ==> (
            r matches Err(BidiError::ProcessingError(m)) && m@
                == "Only vertical movement is implemented for lines"@),
            (direction == MovementDirection::Up || direction == MovementDirection::Down) && line
                >= lines@.len() ==> r == Err::<TextPosition, BidiError>(
                BidiError::InvalidParagraph(line),
            ),
            (direction == MovementDirection::Up || direction == MovementDirection::Down) && line
                < lines@.len() ==> {
                let target = vertical_line(lines@.len() as int, line as int, direction);
                r == Ok::<TextPosition, BidiError>(
                    if target == line {
                        staying(line, column, sticky_column)
                    } else {
                        landing(
                            target as usize,
                            grapheme_clusters(lines@[target]@).len() as int,
                            column as int,
                            sticky_column,
                        )
                    },
                )
            },
    {
        match direction {
            MovementDirection::Up | MovementDirection::Down => {},
            _ => {
                return Err(
                    BidiError::ProcessingError(
                        String::from_str("Only vertical movement is implemented for lines"),
                    ),
                );
            },
        }
        if line >= lines.len() {
            return Err(BidiError::InvalidParagraph(line));
        }
        let target: usize = match direction {
            MovementDirection::Up => if line > 0 {
                line - 1
            } else {
                line
            },
            _ => if line + 1 < lines.len() {
                line + 1
            } else {
                line
            },
        };
        if target == line {
            let asked: usize = match sticky_column {
                Some(s) => s,
                None => column,
            };
            let remembered: usize = if asked >= column {
                asked
            } else {
                column
            };
            return Ok(TextPosition { line, column, sticky_column: Some(remembered) });
        }
        let clusters = split_graphemes(lines[target].as_str());
        assert(texts(clusters@).len() == clusters@.len());
        Ok(CursorMovement::land_on_line(target, clusters.len(), column, sticky_column))
    }

    /// One logical step in a text of `len` clusters: forward to the next
    /// position, at most to the end; backward to the one before, at least to
    /// the start.
    pub fn step_logical(len: usize, logical_pos: usize, forward: bool) -> (r: usize)
        ensures
            r == logical_step(len as int, logical_pos as int, forward),
    {
        if forward {
            if logical_pos < len {
                logical_pos + 1
            } else {
                len
            }
        } else {
            if logical_pos > 0 {
                logical_pos - 1
            } else {
                0
            }
        }
    }

    /// Moves a caret one grapheme cluster forward or backward in `text`.
    pub fn move_logical(text: &str, logical_pos: usize, forward: bool) -> (r: usize)
        ensures
            r == logical_step(
                grapheme_clusters(text@).len() as int,
                logical_pos as int,
                forward,
            ),
    {
        let clusters = split_graphemes(text);
        assert(texts(clusters@).len() == clusters@.len());
        CursorMovement::step_logical(clusters.len(), logical_pos, forward)
    }
}

} // verus!
