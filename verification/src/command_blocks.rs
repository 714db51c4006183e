use crate::terminal_grid::{meta, metadata_at, row_count, TerminalContent, TerminalSemanticPrompt};
use vstd::prelude::*;

verus! {

/// Which neighbouring command block a shortcut selects.
#[derive(Clone, Copy, Debug, PartialEq, Eq, Structural)]
pub enum CommandBlockDirection {
    Previous,
    Next,
}

/// A command block of the terminal: its prompt rows (from the prompt mark
/// through the continuation rows right after it) and the output rows up to
/// the next prompt.
#[derive(Clone, Debug, PartialEq, Eq, Structural)]
pub struct CommandBlock {
    pub prompt_start_row: usize,
    pub prompt_end_row: usize,
    pub end_row: usize,
}

impl CommandBlock {
    /// The first output row, when the block has output rows.
    pub fn output_start_row(&self) -> (r: Option<usize>)
        ensures
            r == (if self.prompt_end_row < self.end_row {
                Some((self.prompt_end_row + 1) as usize)
            } else {
                None
            }),
    {
        if self.prompt_end_row < self.end_row {
            Some(self.prompt_end_row + 1)
        } else {
            None
        }
    }

    /// The last output row, when the block has output rows.
    pub fn output_end_row(&self) -> (r: Option<usize>)
        ensures
            r == (if self.prompt_end_row < self.end_row {
                Some(self.end_row)
            } else {
                None
            }),
    {
        match self.output_start_row() {
            Some(_) => Some(self.end_row),
            None => None,
        }
    }
}

/// Where a block's rows lie: prompt start, prompt end and end in order.
pub open spec fn block_ordered(b: CommandBlock) -> bool {
    b.prompt_start_row <= b.prompt_end_row <= b.end_row
}

/// The blocks closed so far and the block still open after scanning the
/// first `upto` rows: a prompt row closes the open block on the row above
/// and opens a new one; a continuation row right after the prompt rows
/// extends them; any other row extends the open block's output.
pub open spec fn scan_blocks(c: TerminalContent, upto: int) -> (Seq<CommandBlock>, Option<CommandBlock>)
    decreases upto,
{
    if upto <= 0 {
        (Seq::empty(), None)
    } else {
        let row = upto - 1;
        let (blocks, current) = scan_blocks(c, row);
        match meta(c, row).semantic_prompt {
            TerminalSemanticPrompt::Prompt => (
                match current {
                    Some(b) => blocks.push(
                        CommandBlock {
                            end_row: (if row > 0 {
                                row - 1
                            } else {
                                0
                            }) as usize,
                            ..b
                        },
                    ),
                    None => blocks,
                },
                Some(
                    CommandBlock {
                        prompt_start_row: row as usize,
                        prompt_end_row: row as usize,
                        end_row: row as usize,
                    },
                ),
            ),
            TerminalSemanticPrompt::Continuation => (
                blocks,
                match current {
                    Some(b) => Some(
                        CommandBlock {
                            prompt_end_row: if b.prompt_end_row + 1 == row {
                                row as usize
                            } else {
                                b.prompt_end_row
                            },
                            end_row: row as usize,
                            ..b
                        },
                    ),
                    None => None,
                },
            ),
            TerminalSemanticPrompt::Unmarked => (
                blocks,
                match current {
                    Some(b) => Some(CommandBlock { end_row: row as usize, ..b }),
                    None => None,
                },
            ),
        }
    }
}

/// The command blocks of a snapshot, in row order.
pub open spec fn blocks_spec(c: TerminalContent) -> Seq<CommandBlock> {
    let (blocks, current) = scan_blocks(c, row_count(c));
    match current {
        Some(b) => blocks.push(b),
        None => blocks,
    }
}

/// Blocks in row order, each starting on a prompt row, each ordered within,
/// and each ending before the next one starts.
pub open spec fn blocks_well_laid(c: TerminalContent, blocks: Seq<CommandBlock>) -> bool {
    &&& forall|i: int|
        0 <= i < blocks.len() ==> block_ordered(#[trigger] blocks[i]) && meta(
            c,
            blocks[i].prompt_start_row as int,
        ).semantic_prompt == TerminalSemanticPrompt::Prompt
    &&& forall|i: int, j: int|
        0 <= i < j < blocks.len() ==> (#[trigger] blocks[i]).end_row < (#[trigger] blocks[j]).prompt_start_row
}

proof fn lemma_scan_blocks(c: TerminalContent, upto: int)
    requires
        0 <= upto <= row_count(c),
        row_count(c) <= usize::MAX,
    ensures
        blocks_well_laid(c, scan_blocks(c, upto).0),
        scan_blocks(c, upto).1 matches Some(b) ==> block_ordered(b) && b.end_row < upto && meta(
            c,
            b.prompt_start_row as int,
        ).semantic_prompt == TerminalSemanticPrompt::Prompt && forall|i: int|
            0 <= i < scan_blocks(c, upto).0.len() ==> (#[trigger] scan_blocks(c, upto).0[i]).end_row
                < b.prompt_start_row,
        scan_blocks(c, upto).1 is None ==> forall|i: int|
            0 <= i < scan_blocks(c, upto).0.len() ==> (#[trigger] scan_blocks(c, upto).0[i]).end_row
                < upto,
    decreases upto,
{
    if upto > 0 {
        lemma_scan_blocks(c, upto - 1);
    }
}

/// The command blocks of a snapshot, found from the OSC 133 prompt marks of
/// its rows; none where the shell marks no prompt.
pub fn command_blocks(content: &TerminalContent) -> (r: Vec<CommandBlock>)
    ensures
        r@ == blocks_spec(*content),
        blocks_well_laid(*content, r@),
        blocks_tile_rows(*content, r@),
{
    let ghost c = *content;
    let n = content.lines.len();
    let mut blocks: Vec<CommandBlock> = Vec::new();
    let mut current: Option<CommandBlock> = None;
    let mut row: usize = 0;
    while row < n
        invariant
            c == *content,
            n == row_count(c),
            row <= n,
            (blocks@, current) == scan_blocks(c, row as int),
        decreases n - row,
    {
        proof {
            lemma_scan_blocks(c, row as int);
        }
        let semantic_prompt = metadata_at(content, row).semantic_prompt;
        match semantic_prompt {
            TerminalSemanticPrompt::Prompt => {
                match current {
                    Some(b) => {
                        let end_row = if row > 0 {
                            row - 1
                        } else {
                            0
                        };
                        blocks.push(CommandBlock { end_row, ..b });
                    },
                    None => {},
                }
                current = Some(CommandBlock { prompt_start_row: row, prompt_end_row: row, end_row: row });
            },
            TerminalSemanticPrompt::Continuation => {
                current = match current {
                    Some(b) => Some(
                        CommandBlock {
                            prompt_end_row: if b.prompt_end_row + 1 == row {
                                row
                            } else {
                                b.prompt_end_row
                            },
                            end_row: row,
                            ..b
                        },
                    ),
                    None => None,
                };
            },
            TerminalSemanticPrompt::Unmarked => {
                current = match current {
                    Some(b) => Some(CommandBlock { end_row: row, ..b }),
                    None => None,
                };
            },
        }
        row = row + 1;
    }
    proof {
        lemma_scan_blocks(c, n as int);
        law_blocks_tile_rows(c);
    }
    match current {
        Some(b) => blocks.push(b),
        None => {},
    }
    blocks
}

/// Whether a row starts one of the blocks, or the block still open.
pub open spec fn starts_a_block(blocks: Seq<CommandBlock>, current: Option<CommandBlock>, row: int) -> bool {
    (exists|i: int| 0 <= i < blocks.len() && (#[trigger] blocks[i]).prompt_start_row == row) || (
    current matches Some(b) && b.prompt_start_row == row)
}

proof fn lemma_scan_starts(c: TerminalContent, upto: int, row: int)
    requires
        0 <= upto <= row_count(c),
        row_count(c) <= usize::MAX,
    ensures
        starts_a_block(scan_blocks(c, upto).0, scan_blocks(c, upto).1, row) <==> (0 <= row < upto
            && meta(c, row).semantic_prompt == TerminalSemanticPrompt::Prompt),
    decreases upto,
{
    if upto > 0 {
        let last = upto - 1;
        lemma_scan_starts(c, last, row);
        lemma_scan_blocks(c, last);
        let (blocks, current) = scan_blocks(c, last);
        let (after, open) = scan_blocks(c, upto);
        match meta(c, last).semantic_prompt {
            TerminalSemanticPrompt::Prompt => {
                match current {
                    Some(b) => {
                        let closed = CommandBlock {
                            end_row: (if last > 0 {
                                last - 1
                            } else {
                                0
                            }) as usize,
                            ..b
                        };
                        assert(after == blocks.push(closed));
                        if starts_a_block(blocks, current, row) {
                            if b.prompt_start_row == row {
                                assert(after[blocks.len() as int].prompt_start_row == row);
                            } else {
                                let i = choose|i: int|
                                    0 <= i < blocks.len() && (#[trigger] blocks[i]).prompt_start_row
                                        == row;
                                assert(after[i] == blocks[i]);
                            }
                        }
                        if exists|i: int|
                            0 <= i < after.len() && (#[trigger] after[i]).prompt_start_row == row {
                            let i = choose|i: int|
                                0 <= i < after.len() && (#[trigger] after[i]).prompt_start_row == row;
                            if i < blocks.len() {
                                assert(blocks[i] == after[i]);
                            }
                        }
                    },
                    None => {},
                }
            },
            _ => {},
        }
    }
}

/// The blocks of a snapshot start exactly at its prompt rows: every row
/// the shell marked as a prompt starts a block, and no other row does. A
/// snapshot without prompt marks has no blocks.
pub proof fn law_blocks_start_at_prompt_rows(c: TerminalContent, row: int)
    requires
        row_count(c) <= usize::MAX,
    ensures
        (exists|i: int|
            0 <= i < blocks_spec(c).len() && (#[trigger] blocks_spec(c)[i]).prompt_start_row == row)
            <==> (0 <= row < row_count(c) && meta(c, row).semantic_prompt
            == TerminalSemanticPrompt::Prompt),
{
    lemma_scan_starts(c, row_count(c), row);
    let (blocks, current) = scan_blocks(c, row_count(c));
    let all = blocks_spec(c);
    match current {
        Some(b) => {
            assert(all == blocks.push(b));
            if starts_a_block(blocks, current, row) {
                if b.prompt_start_row == row {
                    assert(all[blocks.len() as int].prompt_start_row == row);
                } else {
                    let i = choose|i: int|
                        0 <= i < blocks.len() && (#[trigger] blocks[i]).prompt_start_row == row;
                    assert(all[i] == blocks[i]);
                }
            }
            if exists|i: int| 0 <= i < all.len() && (#[trigger] all[i]).prompt_start_row == row {
                let i = choose|i: int| 0 <= i < all.len() && (#[trigger] all[i]).prompt_start_row == row;
                if i < blocks.len() {
                    assert(blocks[i] == all[i]);
                }
            }
        },
        None => {},
    }
}

/// The rows after a block's prompt row, through its prompt end, are all
/// continuation rows.
pub open spec fn prompt_continues(c: TerminalContent, b: CommandBlock) -> bool {
    forall|r: int|
        b.prompt_start_row < r <= b.prompt_end_row ==> #[trigger] meta(c, r).semantic_prompt
            == TerminalSemanticPrompt::Continuation
}

/// Each block ends on the row just before the next one starts.
pub open spec fn blocks_adjacent(blocks: Seq<CommandBlock>) -> bool {
    forall|i: int|
        0 <= i < blocks.len() - 1 ==> (#[trigger] blocks[i]).end_row + 1 == blocks[i + 1].prompt_start_row
}

/// The blocks tile the rows from the first prompt on: each is ordered
/// within and ends inside the snapshot, its prompt rows after the first are
/// continuation rows, each ends right before the next starts, and the last
/// ends on the last row.
pub open spec fn blocks_tile_rows(c: TerminalContent, blocks: Seq<CommandBlock>) -> bool {
    &&& forall|i: int|
        0 <= i < blocks.len() ==> block_ordered(#[trigger] blocks[i]) && blocks[i].end_row < row_count(c)
            && prompt_continues(c, blocks[i])
    &&& blocks_adjacent(blocks)
    &&& blocks.len() > 0 ==> blocks.last().end_row == row_count(c) - 1
}

proof fn lemma_scan_tiles(c: TerminalContent, upto: int)
    requires
        0 <= upto <= row_count(c),
        row_count(c) <= usize::MAX,
    ensures
        forall|i: int|
            0 <= i < scan_blocks(c, upto).0.len() ==> block_ordered(#[trigger] scan_blocks(c, upto).0[i])
                && scan_blocks(c, upto).0[i].end_row < upto && prompt_continues(c, scan_blocks(c, upto).0[i]),
        blocks_adjacent(scan_blocks(c, upto).0),
        scan_blocks(c, upto).1 is None ==> scan_blocks(c, upto).0.len() == 0,
        scan_blocks(c, upto).1 matches Some(b) ==> block_ordered(b) && b.end_row == upto - 1
            && prompt_continues(c, b) && (scan_blocks(c, upto).0.len() > 0 ==> scan_blocks(
            c,
            upto,
        ).0.last().end_row + 1 == b.prompt_start_row),
    decreases upto,
{
    if upto > 0 {
        let row = upto - 1;
        lemma_scan_tiles(c, row);
        let (blocks, current) = scan_blocks(c, row);
        let (after, open) = scan_blocks(c, upto);
        match meta(c, row).semantic_prompt {
            TerminalSemanticPrompt::Prompt => {
                match current {
                    Some(b) => {
                        let closed = CommandBlock {
                            end_row: (if row > 0 {
                                row - 1
                            } else {
                                0
                            }) as usize,
                            ..b
                        };
                        assert(closed == b);
                        assert(after == blocks.push(b));
                        assert forall|i: int| 0 <= i < after.len() - 1 implies (#[trigger] after[i]).end_row
                            + 1 == after[i + 1].prompt_start_row by {
                            if i + 1 < blocks.len() {
                                assert(after[i] == blocks[i]);
                                assert(after[i + 1] == blocks[i + 1]);
                            } else {
                                assert(after[i] == blocks.last());
                                assert(after[i + 1] == b);
                            }
                        }
                        assert forall|i: int| 0 <= i < after.len() implies block_ordered(
                            #[trigger] after[i],
                        ) && after[i].end_row < upto && prompt_continues(c, after[i]) by {
                            if i < blocks.len() {
                                assert(after[i] == blocks[i]);
                            }
                        }
                        assert(after.last() == b);
                    },
                    None => {},
                }
                let nb = open->0;
                assert forall|r: int|
                    nb.prompt_start_row < r <= nb.prompt_end_row implies #[trigger] meta(c, r).semantic_prompt
                    == TerminalSemanticPrompt::Continuation by {}
            },
            TerminalSemanticPrompt::Continuation => {
                match current {
                    Some(b) => {
                        let nb = open->0;
                        assert forall|r: int|
                            nb.prompt_start_row < r <= nb.prompt_end_row implies #[trigger] meta(
                                c,
                                r,
                            ).semantic_prompt == TerminalSemanticPrompt::Continuation by {
                            if r < row {
                                assert(b.prompt_start_row < r <= b.prompt_end_row);
                            }
                        }
                    },
                    None => {},
                }
            },
            TerminalSemanticPrompt::Unmarked => {
                match current {
                    Some(b) => {
                        let nb = open->0;
                        assert forall|r: int|
                            nb.prompt_start_row < r <= nb.prompt_end_row implies #[trigger] meta(
                                c,
                                r,
                            ).semantic_prompt == TerminalSemanticPrompt::Continuation by {
                            assert(b.prompt_start_row < r <= b.prompt_end_row);
                        }
                    },
                    None => {},
                }
            },
        }
    }
}

/// The command blocks tile the rows from the first prompt mark to the end
/// of the snapshot: each block ends right before the next one starts, the
/// last one ends on the last row, and the rows after a block's prompt row
/// through its prompt end are continuation rows.
pub proof fn law_blocks_tile_rows(c: TerminalContent)
    requires
        row_count(c) <= usize::MAX,
    ensures
        blocks_tile_rows(c, blocks_spec(c)),
{
    lemma_scan_tiles(c, row_count(c));
    let (blocks, current) = scan_blocks(c, row_count(c));
    let all = blocks_spec(c);
    match current {
        Some(b) => {
            assert(all == blocks.push(b));
            assert forall|i: int| 0 <= i < all.len() - 1 implies (#[trigger] all[i]).end_row + 1
                == all[i + 1].prompt_start_row by {
                if i + 1 < blocks.len() {
                    assert(all[i] == blocks[i]);
                    assert(all[i + 1] == blocks[i + 1]);
                } else {
                    assert(all[i] == blocks.last());
                    assert(all[i + 1] == b);
                }
            }
            assert forall|i: int| 0 <= i < all.len() implies block_ordered(#[trigger] all[i])
                && all[i].end_row < row_count(c) && prompt_continues(c, all[i]) by {
                if i < blocks.len() {
                    assert(all[i] == blocks[i]);
                }
            }
        },
        None => {},
    }
}

} // verus!
