//! Interpreter laws: what the virtual screen shows for whole classes of
//! input, proved from the state machine alone.

use vstd::prelude::*;
use crate::style::spec_default_style;
use crate::ssh::{find_first, lemma_find_first_at, lemma_find_first_none};
use crate::terminal::{
    TermModel, ParseMode, init_model, spec_step, spec_run, spec_put, spec_is_control, span_cells,
    visible_rows, sat_row, grow_rows, pad_line, Cell, mk_cell,
};

verus! {

/// A text split on `\n`: always at least one segment, one more than there
/// are newlines.
pub open spec fn split_nl(s: Seq<char>) -> Seq<Seq<char>>
    decreases s.len(),
{
    let i = find_first(s, '\n');
    if i < 0 || i >= s.len() {
        seq![s]
    } else {
        seq![s.take(i)] + split_nl(s.skip(i + 1))
    }
}

proof fn lemma_split_nl_len(s: Seq<char>)
    ensures
        split_nl(s).len() >= 1,
    decreases s.len(),
{
    let i = find_first(s, '\n');
    if 0 <= i < s.len() {
        lemma_split_nl_snoc_bound(s, i);
        lemma_split_nl_len(s.skip(i + 1));
    }
}

/// A split has at most one segment more than the text has characters.
proof fn lemma_split_nl_count(s: Seq<char>)
    ensures
        split_nl(s).len() <= s.len() + 1,
    decreases s.len(),
{
    let i = find_first(s, '\n');
    if 0 <= i < s.len() {
        lemma_split_nl_count(s.skip(i + 1));
    }
}

proof fn lemma_split_nl_snoc_bound(s: Seq<char>, i: int)
    requires
        0 <= i < s.len(),
    ensures
        s.skip(i + 1).len() < s.len(),
{
}

/// Appending a plain character extends the last segment.
proof fn lemma_split_nl_snoc_char(s: Seq<char>, c: char)
    requires
        c != '\n',
    ensures
        split_nl(s.push(c)) == split_nl(s).update(
            split_nl(s).len() - 1,
            split_nl(s).last().push(c),
        ),
    decreases s.len(),
{
    lemma_split_nl_len(s);
    let t = s.push(c);
    let i = find_first(s, '\n');
    if i < 0 {
        assert(forall|k: int| 0 <= k < s.len() ==> s[k] != '\n') by {
            lemma_find_first_gives_none(s, '\n');
        }
        assert(forall|k: int| 0 <= k < t.len() ==> t[k] != '\n');
        lemma_find_first_none(t, '\n');
        assert(split_nl(t) =~= seq![t]);
        assert(split_nl(s) =~= seq![s]);
        assert(split_nl(s).update(0, s.push(c)) =~= seq![t]);
    } else {
        lemma_find_first_gives_at(s, '\n', i);
        assert(t[i] == '\n');
        assert(forall|k: int| 0 <= k < i ==> t[k] == s[k] && t[k] != '\n');
        lemma_find_first_at(t, '\n', i);
        assert(t.take(i) =~= s.take(i));
        assert(t.skip(i + 1) =~= s.skip(i + 1).push(c));
        lemma_split_nl_snoc_char(s.skip(i + 1), c);
        lemma_split_nl_len(s.skip(i + 1));
        assert(split_nl(t) == seq![s.take(i)] + split_nl(s.skip(i + 1)).update(
            split_nl(s.skip(i + 1)).len() - 1,
            split_nl(s.skip(i + 1)).last().push(c),
        ));
        assert(split_nl(t) =~= split_nl(s).update(
            split_nl(s).len() - 1,
            split_nl(s).last().push(c),
        ));
    }
}

/// Appending a newline opens a new, empty segment.
proof fn lemma_split_nl_snoc_nl(s: Seq<char>)
    ensures
        split_nl(s.push('\n')) == split_nl(s).push(Seq::<char>::empty()),
    decreases s.len(),
{
    lemma_split_nl_len(s);
    let t = s.push('\n');
    let i = find_first(s, '\n');
    if i < 0 {
        assert(forall|k: int| 0 <= k < s.len() ==> s[k] != '\n') by {
            lemma_find_first_gives_none(s, '\n');
        }
        assert(t[s.len() as int] == '\n');
        assert(forall|k: int| 0 <= k < s.len() ==> t[k] == s[k] && t[k] != '\n');
        lemma_find_first_at(t, '\n', s.len() as int);
        assert(t.take(s.len() as int) =~= s);
        assert(t.skip(s.len() as int + 1) =~= Seq::<char>::empty());
        lemma_find_first_none(Seq::<char>::empty(), '\n');
        assert(split_nl(Seq::<char>::empty()) =~= seq![Seq::<char>::empty()]);
        assert(split_nl(t) =~= seq![s, Seq::<char>::empty()]);
        assert(split_nl(s) =~= seq![s]);
        assert(split_nl(s).push(Seq::<char>::empty()) =~= seq![s, Seq::<char>::empty()]);
    } else {
        lemma_find_first_gives_at(s, '\n', i);
        assert(t[i] == '\n');
        assert(forall|k: int| 0 <= k < i ==> t[k] == s[k] && t[k] != '\n');
        lemma_find_first_at(t, '\n', i);
        assert(t.take(i) =~= s.take(i));
        assert(t.skip(i + 1) =~= s.skip(i + 1).push('\n'));
        lemma_split_nl_snoc_nl(s.skip(i + 1));
        assert(split_nl(t) =~= split_nl(s).push(Seq::<char>::empty()));
    }
}

/// What a non-negative `find_first` means.
proof fn lemma_find_first_gives_at(s: Seq<char>, c: char, i: int)
    requires
        find_first(s, c) == i,
        0 <= i,
    ensures
        i < s.len(),
        s[i] == c,
        forall|k: int| 0 <= k < i ==> s[k] != c,
    decreases s.len(),
{
    if s.len() == 0 {
        assert(find_first(s, c) == -1);
    } else if s[0] != c {
        let d = s.drop_first();
        assert(find_first(d, c) == i - 1);
        lemma_find_first_gives_at(d, c, i - 1);
        assert(d[i - 1] == s[i]);
        assert forall|k: int| 0 <= k < i implies s[k] != c by {
            if k > 0 {
                assert(d[k - 1] != c);
                assert(d[k - 1] == s[k]);
            }
        }
    }
}

/// What a negative `find_first` means.
proof fn lemma_find_first_gives_none(s: Seq<char>, c: char)
    requires
        find_first(s, c) < 0,
    ensures
        forall|k: int| 0 <= k < s.len() ==> s[k] != c,
    decreases s.len(),
{
    if s.len() > 0 {
        assert(s[0] != c);
        let d = s.drop_first();
        assert(find_first(d, c) < 0);
        lemma_find_first_gives_none(d, c);
        assert forall|k: int| 0 <= k < s.len() implies s[k] != c by {
            if k > 0 {
                assert(d[k - 1] != c);
                assert(d[k - 1] == s[k]);
            }
        }
    }
}

/// A text is plain when every character is a newline or printable: no other
/// control characters and no escape sequences.
pub open spec fn plain_text(s: Seq<char>) -> bool {
    forall|i: int| 0 <= i < s.len() ==> (s[i] == '\n' || !spec_is_control(#[trigger] s[i]))
}

/// The grid a plain text produces: one row per segment, written in the
/// default style; a trailing empty segment has no row.
pub open spec fn plain_grid_shape(m: TermModel, segs: Seq<Seq<char>>) -> bool {
    &&& m.lines.len() == (if segs.last().len() == 0 {
        segs.len() - 1
    } else {
        segs.len() as int
    })
    &&& forall|k: int|
        0 <= k < m.lines.len() ==> #[trigger] m.lines[k] == span_cells(
            segs[k],
            spec_default_style(),
        )
}

proof fn lemma_span_cells_len(text: Seq<char>, st: crate::style::Style)
    ensures
        span_cells(text, st).len() == text.len(),
    decreases text.len(),
{
    if text.len() > 0 {
        lemma_span_cells_len(text.drop_last(), st);
        assert(span_cells(text, st) == span_cells(text.drop_last(), st).push(
            mk_cell(text.last(), st)));
    } else {
        assert(span_cells(text, st) =~= Seq::<Cell>::empty());
    }
}

proof fn lemma_span_cells_snoc(text: Seq<char>, c: char, st: crate::style::Style)
    ensures
        span_cells(text.push(c), st) == span_cells(text, st).push(mk_cell(c, st)),
{
    assert(text.push(c).drop_last() =~= text);
}

/// Running the interpreter over a plain text from a fresh screen: the
/// parser stays in ordinary-text mode, the style stays default, the cursor
/// stands at the end of the last segment, and the grid holds exactly the
/// segments, in order, in the default style — the input split on `\n`.
pub proof fn lemma_plain_text_grid(text: Seq<char>, max_cols: int)
    requires
        max_cols >= 1,
        text.len() <= usize::MAX as int,
        plain_text(text),
        forall|k: int|
            0 <= k < split_nl(text).len() ==> (#[trigger] split_nl(text)[k]).len() < max_cols,
        forall|k: int|
            0 <= k < split_nl(text).len() - 1 ==> (#[trigger] split_nl(text)[k]).len() > 0,
    ensures
        ({
            let m = spec_run(init_model(max_cols), text);
            let segs = split_nl(text);
            &&& m.mode == ParseMode::Normal
            &&& m.style == spec_default_style()
            &&& m.max_cols == max_cols
            &&& m.row == segs.len() - 1
            &&& m.col == segs.last().len()
            &&& plain_grid_shape(m, segs)
        }),
    decreases text.len(),
{
    let m0 = init_model(max_cols);
    lemma_split_nl_len(text);
    if text.len() == 0 {
        lemma_find_first_none(text, '\n');
        assert(split_nl(text) =~= seq![text]);
        assert(spec_run(m0, text) == m0);
    } else {
        let t = text.drop_last();
        let c = text.last();
        assert(text =~= t.push(c));
        let segs_t = split_nl(t);
        lemma_split_nl_len(t);
        // the prefix is plain and its segments fit, by the snoc lemmas
        assert(plain_text(t));
        if c == '\n' {
            lemma_split_nl_snoc_nl(t);
            assert(split_nl(text) == segs_t.push(Seq::<char>::empty()));
            assert(forall|k: int|
                0 <= k < segs_t.len() ==> (#[trigger] segs_t[k]).len() < max_cols
                    && (k < segs_t.len() - 1 ==> segs_t[k].len() > 0)) by {
                assert(forall|k: int|
                    0 <= k < segs_t.len() ==> segs_t[k] == split_nl(text)[k]);
            }
            assert(segs_t.last() == split_nl(text)[segs_t.len() - 1]);
            assert(segs_t.last().len() > 0);
            lemma_plain_text_grid(t, max_cols);
            let mt = spec_run(m0, t);
            crate::terminal::lemma_run_snoc(m0, t, c);
            let m = spec_step(mt, c);
            assert(m.row == sat_row(mt.row + 1));
            lemma_split_nl_count(t);
            assert(mt.row + 1 <= text.len());
            assert(m.row == mt.row + 1);
            assert(m.col == 0);
            assert(m.lines == mt.lines);
            let segs = split_nl(text);
            assert(segs.last().len() == 0);
            assert(segs.len() - 1 == segs_t.len());
            assert(m.lines.len() == (if segs_t.last().len() == 0 {
                segs_t.len() - 1
            } else {
                segs_t.len() as int
            }));
            assert(m.lines.len() == segs_t.len());
            assert(m.row == segs.len() - 1);
            assert(forall|k: int|
                0 <= k < m.lines.len() ==> #[trigger] m.lines[k] == span_cells(
                    segs[k],
                    spec_default_style(),
                ));
        } else {
            lemma_split_nl_snoc_char(t, c);
            let segs = split_nl(text);
            assert(segs == segs_t.update(segs_t.len() - 1, segs_t.last().push(c)));
            assert(segs.len() == segs_t.len());
            assert(forall|k: int|
                0 <= k < segs_t.len() - 1 ==> segs_t[k] == segs[k]);
            assert(segs.last() == segs_t.last().push(c));
            assert(forall|k: int|
                0 <= k < segs_t.len() ==> (#[trigger] segs_t[k]).len() < max_cols) by {
                assert(segs_t.last().len() < segs.last().len());
                assert(forall|k: int|
                    0 <= k < segs_t.len() - 1 ==> segs_t[k] == segs[k]);
            }
            assert(forall|k: int|
                0 <= k < segs_t.len() - 1 ==> (#[trigger] segs_t[k]).len() > 0) by {
                assert(forall|k: int|
                    0 <= k < segs_t.len() - 1 ==> segs_t[k] == segs[k]);
            }
            lemma_plain_text_grid(t, max_cols);
            let mt = spec_run(m0, t);
            crate::terminal::lemma_run_snoc(m0, t, c);
            let m = spec_step(mt, c);
            assert(!spec_is_control(c));
            assert(c != '\u{1b}' && c != '\r' && c != '\u{8}' && c != '\t');
            assert(m == spec_put(mt, c));
            let st = spec_default_style();
            let old_seg = segs_t.last();
            lemma_span_cells_len(old_seg, st);
            // the row the cursor stands on, materialized
            let lines1 = grow_rows(mt.lines, mt.row);
            if old_seg.len() == 0 {
                assert(mt.lines.len() == segs_t.len() - 1);
                assert(mt.row == mt.lines.len());
                assert(lines1.len() == mt.lines.len() + 1);
                assert(lines1[mt.row] =~= Seq::<Cell>::empty());
            } else {
                assert(mt.lines.len() == segs_t.len());
                assert(mt.row == mt.lines.len() - 1);
                assert(lines1 == mt.lines);
                assert(lines1[mt.row] == span_cells(old_seg, st));
            }
            assert(lines1[mt.row].len() == mt.col);
            let padded = pad_line(lines1[mt.row], mt.col, st);
            assert(padded.len() == mt.col + 1);
            assert(padded =~= lines1[mt.row].push(mk_cell(' ', st)));
            let line2 = padded.update(mt.col, mk_cell(c, st));
            assert(line2 =~= lines1[mt.row].push(mk_cell(c, st)));
            lemma_span_cells_snoc(old_seg, c, st);
            assert(line2 == span_cells(segs.last(), st));
            assert(m.lines == lines1.update(mt.row, line2));
            assert(m.lines.len() == segs.len());
            assert(segs.last().len() > 0);
            assert(forall|k: int|
                0 <= k < m.lines.len() ==> #[trigger] m.lines[k] == span_cells(
                    segs[k],
                    spec_default_style(),
                )) by {
                assert(forall|k: int|
                    0 <= k < m.lines.len() - 1 ==> m.lines[k] == lines1[k] && lines1[k]
                        == mt.lines[k]);
            }
            assert(m.col == (if mt.col + 1 < max_cols {
                mt.col + 1
            } else {
                max_cols - 1
            }));
            assert(segs.last().len() < max_cols);
            assert(m.col == segs.last().len());
            assert(m.row == segs.len() - 1);
        }
    }
}

/// Every row of a plain text's grid is non-empty when no interior segment is
/// empty, so the rendered lines are exactly the input split on `\n` (with a
/// trailing empty segment, from a final newline, shown as no row).
pub proof fn lemma_plain_text_lines(text: Seq<char>, max_cols: int)
    requires
        max_cols >= 1,
        text.len() <= usize::MAX as int,
        plain_text(text),
        forall|k: int|
            0 <= k < split_nl(text).len() ==> (#[trigger] split_nl(text)[k]).len() < max_cols,
        forall|k: int|
            0 <= k < split_nl(text).len() - 1 ==> (#[trigger] split_nl(text)[k]).len() > 0,
    ensures
        ({
            let m = spec_run(init_model(max_cols), text);
            let segs = split_nl(text);
            let shown = if segs.last().len() == 0 {
                segs.drop_last()
            } else {
                segs
            };
            &&& visible_rows(m.lines).len() == shown.len()
            &&& forall|k: int|
                0 <= k < shown.len() ==> #[trigger] visible_rows(m.lines)[k] == span_cells(
                    shown[k],
                    spec_default_style(),
                )
        }),
{
    lemma_plain_text_grid(text, max_cols);
    lemma_split_nl_len(text);
    let m = spec_run(init_model(max_cols), text);
    let segs = split_nl(text);
    assert(forall|k: int| 0 <= k < m.lines.len() ==> (#[trigger] m.lines[k]).len() > 0) by {
        assert(forall|k: int|
            0 <= k < m.lines.len() ==> m.lines[k] == span_cells(
                segs[k],
                spec_default_style(),
            ));
        assert(forall|k: int| 0 <= k < m.lines.len() ==> (#[trigger] segs[k]).len() > 0) by {
            assert(forall|k: int|
                0 <= k < segs.len() - 1 ==> (#[trigger] segs[k]).len() > 0);
        }
        assert(forall|k: int|
            0 <= k < m.lines.len() ==> (#[trigger] m.lines[k]).len() == segs[k].len()) by {
            assert(forall|k: int|
                0 <= k < m.lines.len() ==> m.lines[k] == span_cells(
                    segs[k],
                    spec_default_style(),
                ));
            assert forall|k: int| 0 <= k < m.lines.len() implies (#[trigger] m.lines[k]).len()
                == segs[k].len() by {
                lemma_span_cells_len(segs[k], spec_default_style());
            }
        }
    }
    lemma_visible_rows_all_nonempty(m.lines);
}

/// Where every row is non-empty, rendering hides nothing.
proof fn lemma_visible_rows_all_nonempty(lines: Seq<Seq<Cell>>)
    requires
        forall|k: int| 0 <= k < lines.len() ==> (#[trigger] lines[k]).len() > 0,
    ensures
        visible_rows(lines) == lines,
    decreases lines.len(),
{
    if lines.len() > 0 {
        lemma_visible_rows_all_nonempty(lines.drop_last());
        assert(visible_rows(lines) =~= lines);
    }
}

/// A carriage return only moves the cursor to column zero: the grid and the
/// current style are untouched, and no visible character is added.
pub proof fn lemma_cr_resets_column(m: TermModel)
    requires
        m.mode == ParseMode::Normal,
    ensures
        spec_step(m, '\r').col == 0,
        spec_step(m, '\r').lines == m.lines,
        spec_step(m, '\r').row == m.row,
        spec_step(m, '\r').style == m.style,
{
}

/// Processing nothing changes nothing: the run over the empty text is the
/// identity on interpreter states.
pub proof fn lemma_empty_input_identity(m: TermModel)
    ensures
        spec_run(m, Seq::<char>::empty()) == m,
{
}

} // verus!
