//! The escape-sequence interpreter and its virtual screen: a cursor-addressed
//! grid of styled cells, fed by a decoded text stream that may contain CSI,
//! OSC and other ESC-introduced control sequences.
//!
//! The interpreter is specified as a deterministic state machine:
//! `spec_step` gives the effect of one character on the whole state, and
//! `spec_run` folds it over a text. Every exec entry point is proved to
//! implement that machine exactly.

use vstd::prelude::*;
use crate::style::{Style, spec_default_style, default_style, spec_apply_sgr, apply_sgr};
use crate::params::{is_digit_char, parse_uint, parse_uint_chars, split_semis, split_params};
use crate::strutil::{chars_of, string_from_chars};

verus! {

/// One cell of the virtual screen.
#[derive(Clone, Copy, Debug, PartialEq, Eq, Structural)]
#[verifier::ext_equal]
pub struct Cell {
    pub ch: char,
    pub style: Style,
}

/// Where the interpreter stands inside an escape sequence.
#[derive(Clone, Copy, Debug, PartialEq, Eq, Structural)]
pub enum ParseMode {
    /// Ordinary text.
    Normal,
    /// An ESC byte has been seen.
    Escape,
    /// Inside `ESC [`, collecting parameter characters.
    Csi,
    /// Inside `ESC ]`, skipping to BEL or `ESC \`.
    Osc,
    /// After `ESC (` or `ESC )`, one character-set byte still to discard.
    Charset,
}

/// The mathematical state of the interpreter: grid, cursor, current style and
/// parser mode.
#[verifier::ext_equal]
pub ghost struct TermModel {
    pub lines: Seq<Seq<Cell>>,
    pub row: int,
    pub col: int,
    pub style: Style,
    pub max_cols: int,
    pub mode: ParseMode,
    pub params: Seq<char>,
    pub osc_esc: bool,
}

impl TermModel {
    /// Well-formedness: at least one column, and the cursor column in range.
    pub open spec fn wf(self) -> bool {
        &&& 1 <= self.max_cols <= usize::MAX as int
        &&& 0 <= self.col < self.max_cols
        &&& 0 <= self.row <= usize::MAX as int
    }
}

/// The state of a freshly created screen.
pub open spec fn init_model(max_cols: int) -> TermModel {
    TermModel {
        lines: Seq::empty(),
        row: 0,
        col: 0,
        style: spec_default_style(),
        max_cols: max_cols,
        mode: ParseMode::Normal,
        params: Seq::empty(),
        osc_esc: false,
    }
}

/// Control characters as Unicode defines them: C0, DEL and C1.
pub open spec fn spec_is_control(c: char) -> bool {
    (c as u32) < 32 || (127 <= c as u32 && c as u32 <= 159)
}

/// Addition on a row index, saturating at the machine limit as the
/// implementation must.
pub open spec fn sat_row(x: int) -> int {
    if x > usize::MAX as int {
        usize::MAX as int
    } else {
        x
    }
}

/// A column clamped to the last column of the screen; `c` is assumed
/// non-negative.
pub open spec fn clamp_col(c: int, max_cols: int) -> int {
    if c < max_cols {
        c
    } else {
        max_cols - 1
    }
}

/// The grid grown with empty rows until row `row` exists.
pub open spec fn grow_rows(lines: Seq<Seq<Cell>>, row: int) -> Seq<Seq<Cell>> {
    if lines.len() > row {
        lines
    } else {
        lines + Seq::new((row + 1 - lines.len()) as nat, |i: int| Seq::<Cell>::empty())
    }
}

/// A row padded with styled blanks until column `col` exists.
pub open spec fn pad_line(line: Seq<Cell>, col: int, st: Style) -> Seq<Cell> {
    if line.len() > col {
        line
    } else {
        line + Seq::new((col + 1 - line.len()) as nat, |i: int| Cell { ch: ' ', style: st })
    }
}

/// Writing one printable character at the cursor: the row is materialized,
/// the line padded up to the cursor column, the cell overwritten with the
/// current style, and the cursor advances one column, clamped to the right
/// edge.
pub open spec fn spec_put(m: TermModel, ch: char) -> TermModel {
    let lines = grow_rows(m.lines, m.row);
    let line2 = pad_line(lines[m.row], m.col, m.style).update(m.col, Cell { ch, style: m.style });
    TermModel {
        lines: lines.update(m.row, line2),
        col: if m.col + 1 < m.max_cols {
            m.col + 1
        } else {
            m.max_cols - 1
        },
        ..m
    }
}

/// `n` spaces written one after the other.
pub open spec fn spec_put_spaces(m: TermModel, n: nat) -> TermModel
    decreases n,
{
    if n == 0 {
        m
    } else {
        spec_put_spaces(spec_put(m, ' '), (n - 1) as nat)
    }
}

/// The numeric value of a parameter string, or `d` where it does not parse as
/// a `usize`.
pub open spec fn num_or(params: Seq<char>, d: int) -> int {
    match parse_uint(params, usize::MAX as int) {
        Some(v) => v,
        None => d,
    }
}

pub open spec fn part_or_empty(parts: Seq<Seq<char>>, i: int) -> Seq<char> {
    if 0 <= i < parts.len() {
        parts[i]
    } else {
        Seq::empty()
    }
}

/// A 1-based parameter turned into a 0-based coordinate.
pub open spec fn one_based(n: int) -> int {
    if n >= 1 {
        n - 1
    } else {
        0
    }
}

/// The effect of a complete CSI sequence with parameter text `params` and
/// command character `cmd` on the screen state.
pub open spec fn spec_csi(m: TermModel, params: Seq<char>, cmd: char) -> TermModel {
    if cmd == 'm' {
        TermModel { style: spec_apply_sgr(params, m.style), ..m }
    } else if cmd == 'H' || cmd == 'f' {
        let parts = split_semis(params);
        let r = one_based(num_or(part_or_empty(parts, 0), 1));
        let c = one_based(num_or(part_or_empty(parts, 1), 1));
        TermModel { row: r, col: clamp_col(c, m.max_cols), ..m }
    } else if cmd == 'A' {
        let n = num_or(params, 1);
        TermModel { row: if m.row - n >= 0 { m.row - n } else { 0 }, ..m }
    } else if cmd == 'B' {
        let n = num_or(params, 1);
        TermModel { row: sat_row(m.row + n), ..m }
    } else if cmd == 'C' {
        let n = num_or(params, 1);
        TermModel { col: clamp_col(m.col + n, m.max_cols), ..m }
    } else if cmd == 'D' {
        let n = num_or(params, 1);
        TermModel { col: if m.col - n >= 0 { m.col - n } else { 0 }, ..m }
    } else if cmd == 'G' {
        let c = one_based(num_or(params, 1));
        TermModel { col: clamp_col(c, m.max_cols), ..m }
    } else if cmd == 'd' {
        let r = one_based(num_or(params, 1));
        TermModel { row: r, ..m }
    } else if cmd == 'J' {
        let mode = num_or(params, 0);
        if mode == 0 {
            if 0 <= m.row < m.lines.len() {
                let trunc = m.lines[m.row].take(
                    if m.col < m.lines[m.row].len() {
                        m.col
                    } else {
                        m.lines[m.row].len() as int
                    },
                );
                TermModel {
                    lines: Seq::new(
                        m.lines.len(),
                        |j: int|
                            if j < m.row {
                                m.lines[j]
                            } else if j == m.row {
                                trunc
                            } else {
                                Seq::<Cell>::empty()
                            },
                    ),
                    ..m
                }
            } else {
                m
            }
        } else if mode == 2 {
            TermModel {
                lines: Seq::new(m.lines.len(), |j: int| Seq::<Cell>::empty()),
                row: 0,
                col: 0,
                ..m
            }
        } else {
            m
        }
    } else if cmd == 'K' {
        let mode = num_or(params, 0);
        if 0 <= m.row < m.lines.len() {
            let line = m.lines[m.row];
            if mode == 0 {
                let trunc = line.take(
                    if m.col < line.len() {
                        m.col
                    } else {
                        line.len() as int
                    },
                );
                TermModel { lines: m.lines.update(m.row, trunc), ..m }
            } else if mode == 1 {
                let blanked = Seq::new(
                    line.len(),
                    |j: int|
                        if j <= m.col {
                            Cell { ch: ' ', style: m.style }
                        } else {
                            line[j]
                        },
                );
                TermModel { lines: m.lines.update(m.row, blanked), ..m }
            } else if mode == 2 {
                TermModel { lines: m.lines.update(m.row, Seq::<Cell>::empty()), ..m }
            } else {
                m
            }
        } else {
            m
        }
    } else {
        m
    }
}

/// The effect of one character of the input stream on the interpreter state.
pub open spec fn spec_step(m: TermModel, c: char) -> TermModel {
    match m.mode {
        ParseMode::Normal => {
            if c == '\u{1b}' {
                TermModel { mode: ParseMode::Escape, ..m }
            } else if c == '\n' {
                TermModel { row: sat_row(m.row + 1), col: 0, ..m }
            } else if c == '\r' {
                TermModel { col: 0, ..m }
            } else if c == '\u{8}' {
                TermModel { col: if m.col > 0 { m.col - 1 } else { 0 }, ..m }
            } else if c == '\t' {
                spec_put_spaces(m, (8 - (m.col % 8)) as nat)
            } else if spec_is_control(c) {
                m
            } else {
                spec_put(m, c)
            }
        },
        ParseMode::Escape => {
            if c == '[' {
                TermModel { mode: ParseMode::Csi, params: Seq::empty(), ..m }
            } else if c == ']' {
                TermModel { mode: ParseMode::Osc, osc_esc: false, ..m }
            } else if c == '(' || c == ')' {
                TermModel { mode: ParseMode::Charset, ..m }
            } else {
                TermModel { mode: ParseMode::Normal, ..m }
            }
        },
        ParseMode::Csi => {
            if is_digit_char(c) || c == ';' || c == '?' {
                TermModel { params: m.params.push(c), ..m }
            } else {
                spec_csi(
                    TermModel { mode: ParseMode::Normal, params: Seq::empty(), ..m },
                    m.params,
                    c,
                )
            }
        },
        ParseMode::Osc => {
            if c == '\u{7}' || (m.osc_esc && c == '\\') {
                TermModel { mode: ParseMode::Normal, osc_esc: false, ..m }
            } else {
                TermModel { osc_esc: c == '\u{1b}', ..m }
            }
        },
        ParseMode::Charset => TermModel { mode: ParseMode::Normal, ..m },
    }
}

/// The interpreter run over a whole text, character by character.
pub open spec fn spec_run(m: TermModel, s: Seq<char>) -> TermModel
    decreases s.len(),
{
    if s.len() == 0 {
        m
    } else {
        spec_run(spec_step(m, s[0]), s.drop_first())
    }
}

/// Running one more character is stepping after the run so far.
pub proof fn lemma_run_snoc(m: TermModel, s: Seq<char>, c: char)
    ensures
        spec_run(m, s.push(c)) == spec_step(spec_run(m, s), c),
    decreases s.len(),
{
    if s.len() == 0 {
        assert(s.push(c)[0] == c);
        assert(s.push(c).drop_first() =~= Seq::<char>::empty());
        assert(spec_run(spec_step(m, c), Seq::<char>::empty()) == spec_step(m, c));
    } else {
        assert(s.push(c)[0] == s[0]);
        assert(s.push(c).drop_first() =~= s.drop_first().push(c));
        lemma_run_snoc(spec_step(m, s[0]), s.drop_first(), c);
        assert(spec_run(m, s) == spec_run(spec_step(m, s[0]), s.drop_first()));
        assert(spec_run(m, s.push(c)) == spec_run(spec_step(m, s[0]), s.drop_first().push(c)));
    }
}

/// The view of the concrete grid.
pub open spec fn rows_view(lines: Seq<Vec<Cell>>) -> Seq<Seq<Cell>> {
    lines.map_values(|v: Vec<Cell>| v@)
}

/// The virtual screen: a lazily grown grid of styled cells with a cursor, a
/// current style, and the state of the escape-sequence parser.
pub struct TerminalBuffer {
    lines: Vec<Vec<Cell>>,
    cursor_row: usize,
    cursor_col: usize,
    current_style: Style,
    max_cols: usize,
    mode: ParseMode,
    params: Vec<char>,
    osc_esc: bool,
}

impl View for TerminalBuffer {
    type V = TermModel;

    closed spec fn view(&self) -> TermModel {
        TermModel {
            lines: rows_view(self.lines@),
            row: self.cursor_row as int,
            col: self.cursor_col as int,
            style: self.current_style,
            max_cols: self.max_cols as int,
            mode: self.mode,
            params: self.params@,
            osc_esc: self.osc_esc,
        }
    }
}

/// Pads `line` with `fill` up to column `col`, then writes `cell` there.
fn pad_and_set(line: &mut Vec<Cell>, col: usize, cell: Cell, st: Style)
    requires
        col < usize::MAX,
    ensures
        final(line)@ == pad_line(old(line)@, col as int, st).update(col as int, cell),
{
    let fill = Cell { ch: ' ', style: st };
    let ghost padded = pad_line(old(line)@, col as int, st);
    while line.len() <= col
        invariant
            col < usize::MAX,
            old(line)@.len() <= line@.len() <= padded.len(),
            padded == pad_line(old(line)@, col as int, st),
            fill == (Cell { ch: ' ', style: st }),
            line@ =~= padded.take(line@.len() as int),
        decreases col + 1 - line@.len(),
    {
        proof {
            assert(old(line)@.len() <= col);
            assert(padded.len() == col + 1);
            assert(padded[line@.len() as int] == fill);
            assert(padded.take(line@.len() as int + 1) =~= padded.take(line@.len() as int).push(
                fill,
            ));
        }
        line.push(fill);
    }
    proof {
        assert(line@ =~= padded);
    }
    line.set(col, cell);
}

impl TerminalBuffer {
    /// A fresh screen with the given width; `max_lines` is a capacity hint
    /// for the number of rows the session is expected to keep.
    pub fn new(max_cols: usize, max_lines: usize) -> (r: TerminalBuffer)
        requires
            max_cols >= 1,
        ensures
            r@ == init_model(max_cols as int),
            r@.wf(),
    {
        let r = TerminalBuffer {
            lines: Vec::with_capacity(max_lines),
            cursor_row: 0,
            cursor_col: 0,
            current_style: default_style(),
            max_cols,
            mode: ParseMode::Normal,
            params: Vec::new(),
            osc_esc: false,
        };
        proof {
            assert(rows_view(r.lines@) =~= Seq::<Seq<Cell>>::empty());
            assert(r@ =~= init_model(max_cols as int));
        }
        r
    }

    /// Grows the grid so that the cursor row exists.
    fn ensure_line(&mut self)
        requires
            old(self)@.wf(),
        ensures
            final(self)@ == (TermModel {
                lines: grow_rows(old(self)@.lines, old(self)@.row),
                ..old(self)@
            }),
            final(self)@.wf(),
            final(self)@.lines.len() > final(self)@.row,
    {
        let ghost target = grow_rows(rows_view(old(self).lines@), old(self).cursor_row as int);
        proof {
            assert(target.len() == if rows_view(old(self).lines@).len() > old(self).cursor_row as int {
                rows_view(old(self).lines@).len() as int
            } else {
                old(self).cursor_row + 1
            });
        }
        while self.lines.len() <= self.cursor_row
            invariant
                target == grow_rows(rows_view(old(self).lines@), old(self).cursor_row as int),
                self.cursor_row == old(self).cursor_row,
                self.cursor_col == old(self).cursor_col,
                self.current_style == old(self).current_style,
                self.max_cols == old(self).max_cols,
                self.mode == old(self).mode,
                self.params == old(self).params,
                self.osc_esc == old(self).osc_esc,
                rows_view(old(self).lines@).len() <= self.lines@.len() <= target.len(),
                rows_view(self.lines@) =~= target.take(self.lines@.len() as int),
            decreases self.cursor_row + 1 - self.lines@.len(),
        {
            let ghost prev = self.lines@;
            let empty_row: Vec<Cell> = Vec::new();
            self.lines.push(empty_row);
            proof {
                assert(target[prev.len() as int] =~= Seq::<Cell>::empty());
                assert(rows_view(self.lines@) =~= target.take(self.lines@.len() as int));
            }
        }
        proof {
            assert(rows_view(self.lines@) =~= target);
            assert(self@ =~= TermModel { lines: target, ..old(self)@ });
        }
    }

    /// Writes one printable character at the cursor, as `spec_put` describes.
    fn write_char(&mut self, ch: char)
        requires
            old(self)@.wf(),
        ensures
            final(self)@ == spec_put(old(self)@, ch),
            final(self)@.wf(),
    {
        self.ensure_line();
        let ghost grown = self@;
        let row = self.cursor_row;
        let col = self.cursor_col;
        let st = self.current_style;
        let cell = Cell { ch, style: st };
        let line = &mut self.lines[row];
        pad_and_set(line, col, cell, st);
        proof {
            assert(rows_view(self.lines@) =~= grown.lines.update(
                row as int,
                pad_line(grown.lines[row as int], col as int, st).update(col as int, cell),
            ));
        }
        self.cursor_col = if col + 1 < self.max_cols {
            col + 1
        } else {
            self.max_cols - 1
        };
        proof {
            assert(self@ =~= spec_put(old(self)@, ch));
        }
    }

    /// Takes the collected CSI parameter characters out of the parser state.
    fn take_params(&mut self) -> (r: Vec<char>)
        ensures
            r@ == old(self)@.params,
            final(self)@ == (TermModel { params: Seq::empty(), ..old(self)@ }),
    {
        let mut tmp: Vec<char> = Vec::new();
        core::mem::swap(&mut tmp, &mut self.params);
        proof {
            assert(self@ =~= (TermModel { params: Seq::empty(), ..old(self)@ }));
        }
        tmp
    }

    /// Applies a complete CSI sequence, as `spec_csi` describes.
    fn handle_csi(&mut self, params: &Vec<char>, cmd: char)
        requires
            old(self)@.wf(),
        ensures
            final(self)@ == spec_csi(old(self)@, params@, cmd),
            final(self)@.wf(),
    {
        if cmd == 'm' {
            self.current_style = apply_sgr(params, self.current_style);
            proof {
                assert(self@ =~= spec_csi(old(self)@, params@, cmd));
            }
        } else if cmd == 'H' || cmd == 'f' {
            let parts = split_params(params);
            let r = num_or_part(&parts, 0, 1);
            let c = num_or_part(&parts, 1, 1);
            self.cursor_row = if r >= 1 { r - 1 } else { 0 };
            let col0 = if c >= 1 { c - 1 } else { 0 };
            self.cursor_col = if col0 < self.max_cols { col0 } else { self.max_cols - 1 };
            proof {
                assert(self@ =~= spec_csi(old(self)@, params@, cmd));
            }
        } else if cmd == 'A' {
            let n = num_or_whole(params, 1);
            self.cursor_row = if self.cursor_row >= n { self.cursor_row - n } else { 0 };
            proof {
                assert(self@ =~= spec_csi(old(self)@, params@, cmd));
            }
        } else if cmd == 'B' {
            let n = num_or_whole(params, 1);
            self.cursor_row = if self.cursor_row <= usize::MAX - n {
                self.cursor_row + n
            } else {
                usize::MAX
            };
            proof {
                assert(self@ =~= spec_csi(old(self)@, params@, cmd));
            }
        } else if cmd == 'C' {
            let n = num_or_whole(params, 1);
            let t = if self.cursor_col <= usize::MAX - n { self.cursor_col + n } else { usize::MAX };
            self.cursor_col = if t < self.max_cols { t } else { self.max_cols - 1 };
            proof {
                assert(self@ =~= spec_csi(old(self)@, params@, cmd));
            }
        } else if cmd == 'D' {
            let n = num_or_whole(params, 1);
            self.cursor_col = if self.cursor_col >= n { self.cursor_col - n } else { 0 };
            proof {
                assert(self@ =~= spec_csi(old(self)@, params@, cmd));
            }
        } else if cmd == 'G' {
            let n = num_or_whole(params, 1);
            let col0 = if n >= 1 { n - 1 } else { 0 };
            self.cursor_col = if col0 < self.max_cols { col0 } else { self.max_cols - 1 };
            proof {
                assert(self@ =~= spec_csi(old(self)@, params@, cmd));
            }
        } else if cmd == 'd' {
            let n = num_or_whole(params, 1);
            self.cursor_row = if n >= 1 { n - 1 } else { 0 };
            proof {
                assert(self@ =~= spec_csi(old(self)@, params@, cmd));
            }
        } else if cmd == 'J' {
            let mode = num_or_whole(params, 0);
            if mode == 0 {
                if self.cursor_row < self.lines.len() {
                    let row = self.cursor_row;
                    let col = self.cursor_col;
                    let ghost old_rows = rows_view(self.lines@);
                    let ghost trunc = spec_csi(old(self)@, params@, cmd).lines[row as int];
                    let line = &mut self.lines[row];
                    truncate_line(line, col);
                    proof {
                        assert(rows_view(self.lines@) =~= old_rows.update(row as int, trunc));
                    }
                    let mut i = row + 1;
                    while i < self.lines.len()
                        invariant
                            row < i <= self.lines@.len(),
                            self.lines@.len() == old_rows.len(),
                            self.cursor_row == row,
                            self.cursor_col == col,
                            self.current_style == old(self).current_style,
                            self.max_cols == old(self).max_cols,
                            self.mode == old(self).mode,
                            self.params == old(self).params,
                            self.osc_esc == old(self).osc_esc,
                            forall|j: int|
                                0 <= j < old_rows.len() && j != row as int ==> rows_view(
                                    self.lines@,
                                )[j] == (if (row as int) < j && j < (i as int) {
                                    Seq::<Cell>::empty()
                                } else {
                                    old_rows[j]
                                }),
                            rows_view(self.lines@)[row as int] == trunc,
                        decreases self.lines@.len() - i,
                    {
                        let ghost prev = rows_view(self.lines@);
                        let l = &mut self.lines[i];
                        l.clear();
                        proof {
                            assert(rows_view(self.lines@) =~= prev.update(
                                i as int,
                                Seq::<Cell>::empty(),
                            ));
                        }
                        i = i + 1;
                    }
                    proof {
                        assert(self@ =~= spec_csi(old(self)@, params@, cmd));
                    }
                } else {
                    proof {
                        assert(self@ =~= spec_csi(old(self)@, params@, cmd));
                    }
                }
            } else if mode == 2 {
                let ghost old_rows = rows_view(self.lines@);
                let mut i: usize = 0;
                while i < self.lines.len()
                    invariant
                        i <= self.lines@.len(),
                        self.lines@.len() == old_rows.len(),
                        self.cursor_row == old(self).cursor_row,
                        self.cursor_col == old(self).cursor_col,
                        self.current_style == old(self).current_style,
                        self.max_cols == old(self).max_cols,
                        self.mode == old(self).mode,
                        self.params == old(self).params,
                        self.osc_esc == old(self).osc_esc,
                        forall|j: int|
                            0 <= j < old_rows.len() ==> rows_view(self.lines@)[j] == (if j
                                < i as int {
                                Seq::<Cell>::empty()
                            } else {
                                old_rows[j]
                            }),
                    decreases self.lines@.len() - i,
                {
                    let ghost prev = rows_view(self.lines@);
                    let l = &mut self.lines[i];
                    l.clear();
                    proof {
                        assert(rows_view(self.lines@) =~= prev.update(
                            i as int,
                            Seq::<Cell>::empty(),
                        ));
                    }
                    i = i + 1;
                }
                self.cursor_row = 0;
                self.cursor_col = 0;
                proof {
                    assert(self@ =~= spec_csi(old(self)@, params@, cmd));
                }
            } else {
                proof {
                    assert(self@ =~= spec_csi(old(self)@, params@, cmd));
                }
            }
        } else if cmd == 'K' {
            let mode = num_or_whole(params, 0);
            if self.cursor_row < self.lines.len() {
                let row = self.cursor_row;
                let col = self.cursor_col;
                let st = self.current_style;
                let ghost old_rows = rows_view(self.lines@);
                if mode == 0 {
                    let line = &mut self.lines[row];
                    truncate_line(line, col);
                    proof {
                        assert(rows_view(self.lines@) =~= spec_csi(
                            old(self)@,
                            params@,
                            cmd,
                        ).lines);
                        assert(self@ =~= spec_csi(old(self)@, params@, cmd));
                    }
                } else if mode == 1 {
                    let line = &mut self.lines[row];
                    blank_prefix(line, col, Cell { ch: ' ', style: st });
                    proof {
                        assert(rows_view(self.lines@) =~= spec_csi(
                            old(self)@,
                            params@,
                            cmd,
                        ).lines);
                        assert(self@ =~= spec_csi(old(self)@, params@, cmd));
                    }
                } else if mode == 2 {
                    let line = &mut self.lines[row];
                    line.clear();
                    proof {
                        assert(rows_view(self.lines@) =~= spec_csi(
                            old(self)@,
                            params@,
                            cmd,
                        ).lines);
                        assert(self@ =~= spec_csi(old(self)@, params@, cmd));
                    }
                } else {
                    proof {
                        assert(self@ =~= spec_csi(old(self)@, params@, cmd));
                    }
                }
            } else {
                proof {
                    assert(self@ =~= spec_csi(old(self)@, params@, cmd));
                }
            }
        } else {
            proof {
                assert(self@ =~= spec_csi(old(self)@, params@, cmd));
            }
        }
    }

    /// Feeds one character of the stream to the interpreter, as `spec_step`
    /// describes.
    pub fn step(&mut self, c: char)
        requires
            old(self)@.wf(),
        ensures
            final(self)@ == spec_step(old(self)@, c),
            final(self)@.wf(),
    {
        match self.mode {
            ParseMode::Normal => {
                if c == '\u{1b}' {
                    self.mode = ParseMode::Escape;
                    proof {
                        assert(self@ =~= spec_step(old(self)@, c));
                    }
                } else if c == '\n' {
                    self.cursor_row = if self.cursor_row < usize::MAX {
                        self.cursor_row + 1
                    } else {
                        usize::MAX
                    };
                    self.cursor_col = 0;
                    proof {
                        assert(self@ =~= spec_step(old(self)@, c));
                    }
                } else if c == '\r' {
                    self.cursor_col = 0;
                    proof {
                        assert(self@ =~= spec_step(old(self)@, c));
                    }
                } else if c == '\u{8}' {
                    if self.cursor_col > 0 {
                        self.cursor_col = self.cursor_col - 1;
                    }
                    proof {
                        assert(self@ =~= spec_step(old(self)@, c));
                    }
                } else if c == '\t' {
                    let n: usize = 8 - self.cursor_col % 8;
                    let ghost m0 = self@;
                    let mut k: usize = 0;
                    while k < n
                        invariant
                            k <= n,
                            self@.wf(),
                            spec_put_spaces(self@, (n - k) as nat) == spec_put_spaces(
                                m0,
                                n as nat,
                            ),
                        decreases n - k,
                    {
                        self.write_char(' ');
                        k = k + 1;
                    }
                    proof {
                        assert(self@ =~= spec_step(old(self)@, c));
                    }
                } else {
                    let u = c as u32;
                    if u < 32 || (127 <= u && u <= 159) {
                        proof {
                            assert(self@ =~= spec_step(old(self)@, c));
                        }
                    } else {
                        self.write_char(c);
                        proof {
                            assert(self@ =~= spec_step(old(self)@, c));
                        }
                    }
                }
            },
            ParseMode::Escape => {
                if c == '[' {
                    self.mode = ParseMode::Csi;
                    self.params.clear();
                } else if c == ']' {
                    self.mode = ParseMode::Osc;
                    self.osc_esc = false;
                } else if c == '(' || c == ')' {
                    self.mode = ParseMode::Charset;
                } else {
                    self.mode = ParseMode::Normal;
                }
                proof {
                    assert(self@ =~= spec_step(old(self)@, c));
                }
            },
            ParseMode::Csi => {
                if ('0' <= c && c <= '9') || c == ';' || c == '?' {
                    self.params.push(c);
                    proof {
                        assert(self@ =~= spec_step(old(self)@, c));
                    }
                } else {
                    let ps = self.take_params();
                    self.mode = ParseMode::Normal;
                    self.handle_csi(&ps, c);
                    proof {
                        assert(self@ =~= spec_step(old(self)@, c));
                    }
                }
            },
            ParseMode::Osc => {
                if c == '\u{7}' || (self.osc_esc && c == '\\') {
                    self.mode = ParseMode::Normal;
                    self.osc_esc = false;
                } else {
                    self.osc_esc = c == '\u{1b}';
                }
                proof {
                    assert(self@ =~= spec_step(old(self)@, c));
                }
            },
            ParseMode::Charset => {
                self.mode = ParseMode::Normal;
                proof {
                    assert(self@ =~= spec_step(old(self)@, c));
                }
            },
        }
    }

    /// Feeds a whole decoded text to the interpreter, character by character.
    pub fn process(&mut self, text: &str)
        requires
            old(self)@.wf(),
        ensures
            final(self)@ == spec_run(old(self)@, text@),
            final(self)@.wf(),
    {
        let chars = chars_of(text);
        let ghost m0 = self@;
        let mut i: usize = 0;
        while i < chars.len()
            invariant
                i <= chars.len(),
                self@.wf(),
                chars@ == text@,
                self@ == spec_run(m0, chars@.take(i as int)),
            decreases chars.len() - i,
        {
            let c = chars[i];
            proof {
                assert(chars@.take(i as int + 1) =~= chars@.take(i as int).push(c));
                lemma_run_snoc(m0, chars@.take(i as int), c);
            }
            self.step(c);
            i = i + 1;
        }
        proof {
            assert(chars@.take(chars.len() as int) =~= chars@);
        }
    }
}

/// Truncates a line at column `col`, leaving it unchanged where it is
/// already that short.
fn truncate_line(line: &mut Vec<Cell>, col: usize)
    ensures
        final(line)@ == old(line)@.take(
            if (col as int) < old(line)@.len() {
                col as int
            } else {
                old(line)@.len() as int
            },
        ),
{
    line.truncate(col);
    proof {
        if col as int <= old(line)@.len() {
            assert(line@ =~= old(line)@.take(col as int));
        } else {
            assert(line@ =~= old(line)@.take(old(line)@.len() as int));
        }
    }
}

/// Blanks the columns up to and including `col` (as far as the line reaches)
/// with the given cell, keeping the line's length.
fn blank_prefix(line: &mut Vec<Cell>, col: usize, blank: Cell)
    requires
        col < usize::MAX,
    ensures
        final(line)@ == Seq::new(
            old(line)@.len(),
            |j: int| if j <= col as int { blank } else { old(line)@[j] },
        ),
{
    let mut i: usize = 0;
    while i < line.len() && i <= col
        invariant
            i <= line@.len() || i <= col + 1,
            line@.len() == old(line)@.len(),
            forall|j: int| 0 <= j < i as int && j < line@.len() ==> line@[j] == blank,
            forall|j: int| i as int <= j < line@.len() ==> line@[j] == old(line)@[j],
            i <= col + 1,
        decreases line@.len() - i,
    {
        line.set(i, blank);
        i = i + 1;
    }
    proof {
        assert(final(line)@ =~= Seq::new(
            old(line)@.len(),
            |j: int| if j <= col as int { blank } else { old(line)@[j] },
        ));
    }
}

/// The numeric value of the whole parameter string, or `d` where it does not
/// parse.
fn num_or_whole(params: &Vec<char>, d: usize) -> (r: usize)
    ensures
        r as int == num_or(params@, d as int),
{
    match parse_uint_chars(params, usize::MAX as u64) {
        Some(v) => v as usize,
        None => d,
    }
}

/// The numeric value of the `i`-th `;`-separated part, or `d` where the part
/// is missing or does not parse.
fn num_or_part(parts: &Vec<Vec<char>>, i: usize, d: usize) -> (r: usize)
    ensures
        r as int == num_or(
            part_or_empty(parts@.map_values(|p: Vec<char>| p@), i as int),
            d as int,
        ),
{
    if i < parts.len() {
        proof {
            assert(parts@.map_values(|p: Vec<char>| p@)[i as int] == parts@[i as int]@);
        }
        num_or_whole(&parts[i], d)
    } else {
        d
    }
}

/// One styled run of consecutive same-style characters within a line.
pub struct TermSpan {
    pub text: String,
    pub style: Style,
}

/// One rendered line record: its styled runs in order.
pub struct TermLine {
    pub spans: Vec<TermSpan>,
}

/// A cell holding `ch` under style `st`.
pub open spec fn mk_cell(ch: char, st: Style) -> Cell {
    Cell { ch, style: st }
}

/// The cells a run stands for: its characters, each under the run's style.
pub open spec fn span_cells(text: Seq<char>, st: Style) -> Seq<Cell>
    decreases text.len(),
{
    if text.len() == 0 {
        Seq::empty()
    } else {
        span_cells(text.drop_last(), st).push(mk_cell(text.last(), st))
    }
}

/// The cells a sequence of runs stands for, concatenated.
pub open spec fn spans_cells_of(spans: Seq<TermSpan>) -> Seq<Cell>
    decreases spans.len(),
{
    if spans.len() == 0 {
        Seq::empty()
    } else {
        spans_cells_of(spans.drop_last()) + span_cells(spans.last().text@, spans.last().style)
    }
}

/// The cells a line record stands for.
pub open spec fn line_cells(l: TermLine) -> Seq<Cell> {
    spans_cells_of(l.spans@)
}

/// A well-coalesced line record: at least one run, no empty run, and no two
/// adjacent runs with the same style.
pub open spec fn line_coalesced(l: TermLine) -> bool {
    &&& l.spans@.len() > 0
    &&& forall|i: int| 0 <= i < l.spans@.len() ==> (#[trigger] l.spans@[i]).text@.len() > 0
    &&& forall|i: int|
        0 <= i < l.spans@.len() - 1 ==> (#[trigger] l.spans@[i]).style != l.spans@[i + 1].style
}

/// The rows of a grid that are rendered: exactly the non-empty ones, in
/// order. Rows never written (or cleared) are omitted.
pub open spec fn visible_rows(lines: Seq<Seq<Cell>>) -> Seq<Seq<Cell>>
    decreases lines.len(),
{
    if lines.len() == 0 {
        Seq::empty()
    } else {
        let rest = visible_rows(lines.drop_last());
        if lines.last().len() > 0 {
            rest.push(lines.last())
        } else {
            rest
        }
    }
}

/// Coalesces one non-empty row into styled runs whose cells are exactly the
/// row's.
fn coalesce_row(row: &Vec<Cell>) -> (spans: Vec<TermSpan>)
    requires
        row@.len() > 0,
    ensures
        spans_cells_of(spans@) == row@,
        spans@.len() > 0,
        forall|i: int| 0 <= i < spans@.len() ==> (#[trigger] spans@[i]).text@.len() > 0,
        forall|i: int|
            0 <= i < spans@.len() - 1 ==> (#[trigger] spans@[i]).style != spans@[i + 1].style,
{
    let mut spans: Vec<TermSpan> = Vec::new();
    let mut cur_text: Vec<char> = Vec::new();
    let mut cur_style = row[0].style;
    cur_text.push(row[0].ch);
    proof {
        assert(cur_text@.drop_last() =~= Seq::<char>::empty());
        assert(span_cells(Seq::<char>::empty(), cur_style) =~= Seq::<Cell>::empty());
        assert(row@[0] =~= (Cell { ch: row@[0].ch, style: row@[0].style }));
        assert(span_cells(cur_text@, cur_style) =~= seq![row@[0]]);
        assert(spans_cells_of(spans@) + span_cells(cur_text@, cur_style) =~= row@.take(1));
    }
    let mut j: usize = 1;
    while j < row.len()
        invariant
            1 <= j <= row@.len(),
            cur_text@.len() > 0,
            spans_cells_of(spans@) + span_cells(cur_text@, cur_style) =~= row@.take(j as int),
            forall|i: int| 0 <= i < spans@.len() ==> (#[trigger] spans@[i]).text@.len() > 0,
            forall|i: int|
                0 <= i < spans@.len() - 1 ==> (#[trigger] spans@[i]).style != spans@[i
                    + 1].style,
            spans@.len() > 0 ==> spans@.last().style != cur_style,
        decreases row@.len() - j,
    {
        let c = row[j];
        if c.style == cur_style {
            let ghost prev_text = cur_text@;
            cur_text.push(c.ch);
            proof {
                assert(c =~= (Cell { ch: c.ch, style: cur_style }));
                assert(cur_text@.drop_last() =~= prev_text);
                assert(span_cells(cur_text@, cur_style) == span_cells(
                    prev_text,
                    cur_style,
                ).push(c));
                assert(spans_cells_of(spans@) + span_cells(cur_text@, cur_style) =~= (
                spans_cells_of(spans@) + span_cells(prev_text, cur_style)).push(c));
                assert(row@.take(j as int + 1) =~= row@.take(j as int).push(c));
            }
        } else {
            let text = string_from_chars(&cur_text);
            let span = TermSpan { text, style: cur_style };
            let ghost gspan = span;
            let ghost prev_spans = spans@;
            let ghost prev_text = cur_text@;
            spans.push(span);
            proof {
                assert(spans@.drop_last() =~= prev_spans);
                assert(spans@.last() == gspan);
                assert(spans_cells_of(spans@) == spans_cells_of(prev_spans) + span_cells(
                    prev_text,
                    cur_style,
                ));
            }
            cur_text = Vec::new();
            cur_text.push(c.ch);
            cur_style = c.style;
            proof {
                assert(c =~= (Cell { ch: c.ch, style: c.style }));
                assert(cur_text@.drop_last() =~= Seq::<char>::empty());
                assert(span_cells(Seq::<char>::empty(), cur_style) =~= Seq::<Cell>::empty());
                assert(span_cells(cur_text@, cur_style) =~= seq![c]);
                assert(row@.take(j as int + 1) =~= row@.take(j as int).push(c));
                assert(spans_cells_of(spans@) + span_cells(cur_text@, cur_style) =~= row@.take(
                    j as int + 1,
                ));
            }
        }
        j = j + 1;
    }
    let text = string_from_chars(&cur_text);
    let span = TermSpan { text, style: cur_style };
    let ghost gspan = span;
    let ghost prev_spans = spans@;
    let ghost prev_text = cur_text@;
    spans.push(span);
    proof {
        assert(spans@.drop_last() =~= prev_spans);
        assert(spans@.last() == gspan);
        assert(spans_cells_of(spans@) == spans_cells_of(prev_spans) + span_cells(
            prev_text,
            cur_style,
        ));
        assert(row@.take(row@.len() as int) =~= row@);
    }
    spans
}

impl TerminalBuffer {
    /// Converts the grid into styled line records: exactly the non-empty rows
    /// in order, each coalesced into maximal same-style runs.
    pub fn to_lines(&self) -> (r: Vec<TermLine>)
        ensures
            r@.map_values(|l: TermLine| line_cells(l)) == visible_rows(self@.lines),
            forall|i: int| 0 <= i < r@.len() ==> line_coalesced(#[trigger] r@[i]),
    {
        let mut r: Vec<TermLine> = Vec::new();
        let mut i: usize = 0;
        proof {
            assert(r@.map_values(|l: TermLine| line_cells(l)) =~= visible_rows(
                self@.lines.take(0),
            ));
        }
        while i < self.lines.len()
            invariant
                i <= self.lines@.len(),
                r@.map_values(|l: TermLine| line_cells(l)) =~= visible_rows(
                    rows_view(self.lines@).take(i as int),
                ),
                forall|k: int| 0 <= k < r@.len() ==> line_coalesced(#[trigger] r@[k]),
            decreases self.lines@.len() - i,
        {
            let ghost rows = rows_view(self.lines@);
            proof {
                assert(rows.take(i as int + 1).drop_last() =~= rows.take(i as int));
                assert(rows.take(i as int + 1).last() == rows[i as int]);
                assert(rows[i as int] == self.lines@[i as int]@);
            }
            let line = &self.lines[i];
            if line.len() > 0 {
                let spans = coalesce_row(line);
                let tl = TermLine { spans };
                let ghost gtl = tl;
                let ghost prev = r@;
                r.push(tl);
                proof {
                    assert(line_cells(gtl) == rows[i as int]);
                    assert(r@.map_values(|l: TermLine| line_cells(l)) =~= prev.map_values(
                        |l: TermLine| line_cells(l),
                    ).push(line_cells(gtl)));
                }
            }
            i = i + 1;
        }
        proof {
            assert(rows_view(self.lines@).take(self.lines@.len() as int) =~= rows_view(
                self.lines@,
            ));
        }
        r
    }

    /// The number of rows the grid holds.
    pub fn row_count(&self) -> (r: usize)
        ensures
            r == self@.lines.len(),
    {
        self.lines.len()
    }

    /// The cursor position, row then column.
    pub fn cursor(&self) -> (r: (usize, usize))
        ensures
            r.0 == self@.row,
            r.1 == self@.col,
    {
        (self.cursor_row, self.cursor_col)
    }

    /// The cell at a position, where the grid holds one.
    pub fn cell(&self, row: usize, col: usize) -> (r: Option<Cell>)
        ensures
            r == (if row < self@.lines.len() && col < self@.lines[row as int].len() {
                Some(self@.lines[row as int][col as int])
            } else {
                Option::<Cell>::None
            }),
    {
        if row < self.lines.len() {
            let line = &self.lines[row];
            proof {
                assert(rows_view(self.lines@)[row as int] == self.lines@[row as int]@);
            }
            if col < line.len() {
                Some(line[col])
            } else {
                None
            }
        } else {
            None
        }
    }
}

/// Interprets a decoded text on a fresh 200-column screen with a thousand
/// rows of expected history, and returns its styled line records.
pub fn parse_ansi_output(text: &str) -> (r: Vec<TermLine>)
    ensures
        ({
            let m = spec_run(init_model(200), text@);
            &&& r@.map_values(|l: TermLine| line_cells(l)) == visible_rows(m.lines)
            &&& forall|i: int| 0 <= i < r@.len() ==> line_coalesced(#[trigger] r@[i])
        }),
{
    let mut buffer = TerminalBuffer::new(200, 1000);
    buffer.process(text);
    buffer.to_lines()
}

} // verus!
