use crate::terminal_grid::TerminalCell;
use vstd::prelude::*;

verus! {

/// The text a cell contributes to extracted text: nothing for the right half
/// of a double-width character, its characters otherwise.
pub open spec fn cell_text(cell: TerminalCell) -> Seq<char> {
    if cell.wide_spacer {
        Seq::empty()
    } else {
        cell.text@
    }
}

/// The text of a run of cells.
pub open spec fn cells_text(cells: Seq<TerminalCell>) -> Seq<char>
    decreases cells.len(),
{
    if cells.len() == 0 {
        Seq::empty()
    } else {
        cells_text(cells.drop_last()) + cell_text(cells.last())
    }
}

/// The text of several rows joined with newlines.
pub open spec fn lines_text(lines: Seq<Seq<TerminalCell>>) -> Seq<char>
    decreases lines.len(),
{
    if lines.len() == 0 {
        Seq::empty()
    } else if lines.len() == 1 {
        cells_text(lines[0])
    } else {
        lines_text(lines.drop_last()) + seq!['\n'] + cells_text(lines.last())
    }
}

pub fn push_cell_text(out: &mut String, cell: &TerminalCell)
    ensures
        final(out)@ == old(out)@ + cell_text(*cell),
{
    if is_wide_spacer(cell) {
        assert(old(out)@ + cell_text(*cell) =~= old(out)@);
        return ;
    }
    crate::text::push_str(out, cell.text.as_str());
}

pub fn cells_to_text(cells: &[TerminalCell]) -> (s: String)
    ensures
        s@ == cells_text(cells@),
{
    let mut out = String::new();
    let mut i: usize = 0;
    while i < cells.len()
        invariant
            i <= cells@.len(),
            out@ == cells_text(cells@.subrange(0, i as int)),
        decreases cells.len() - i,
    {
        push_cell_text(&mut out, &cells[i]);
        proof {
            let next = cells@.subrange(0, i + 1);
            assert(next.drop_last() =~= cells@.subrange(0, i as int));
        }
        i = i + 1;
    }
    assert(cells@.subrange(0, i as int) =~= cells@);
    out
}

pub fn lines_to_text(lines: &[Vec<TerminalCell>]) -> (s: String)
    ensures
        s@ == lines_text(lines@.map_values(|l: Vec<TerminalCell>| l@)),
{
    let ghost all = lines@.map_values(|l: Vec<TerminalCell>| l@);
    let mut out = String::new();
    let mut i: usize = 0;
    while i < lines.len()
        invariant
            i <= lines@.len(),
            all == lines@.map_values(|l: Vec<TerminalCell>| l@),
            out@ == lines_text(all.subrange(0, i as int)),
        decreases lines.len() - i,
    {
        let text = cells_to_text(lines[i].as_slice());
        if i > 0 {
            crate::text::push_char(&mut out, '\n');
        }
        crate::text::push_str(&mut out, text.as_str());
        proof {
            let next = all.subrange(0, i + 1);
            assert(next.drop_last() =~= all.subrange(0, i as int));
            assert(next.last() == lines@[i as int]@);
            if i == 0 {
                assert(out@ =~= lines_text(next));
            } else {
                assert(out@ =~= lines_text(next));
            }
        }
        i = i + 1;
    }
    assert(all.subrange(0, i as int) =~= all);
    out
}

pub fn is_wide_spacer(cell: &TerminalCell) -> (r: bool)
    ensures
        r == cell.wide_spacer,
{
    cell.wide_spacer
}

} // verus!
