//! The output as a sequence of blocks: every command writes the lines of its
//! block, and the output of a run of commands is the text of their blocks
//! in order, each standing where the machine laws expect it.

use vstd::prelude::*;
use crate::assembly::{lemma_render_all_concat, render_all, Line};
use crate::code_writer::WriterState;
use crate::machine::stands_at;
use crate::parser::{recognize, CommandType, CommandView};
use crate::templates;
use crate::templates::Direction;
use crate::text::valid_lines;
use crate::translate::{after_command, after_commands, after_lines, translation};

verus! {

/// The lines of a `push` or `pop` in a state, if its index is there and an
/// addressing rule covers it.
pub open spec fn stack_block(
    state: WriterState,
    direction: Direction,
    command: CommandView,
) -> Seq<Line> {
    match (templates::segment(command.arg1), command.arg2) {
        (Some(segment), Some(index)) => match templates::push_pop(
            direction,
            segment,
            index as nat,
            state.base_name,
        ) {
            Some(block) => block,
            None => Seq::empty(),
        },
        _ => Seq::empty(),
    }
}

/// The lines that a command writes in a state; none where it writes
/// nothing.
pub open spec fn block_of(state: WriterState, command: CommandView) -> Seq<Line> {
    let count = match command.arg2 {
        Some(n) => n as nat,
        None => 0,
    };
    match command.kind {
        CommandType::Arithmetic => match templates::operator(command.arg1) {
            Some(op) => templates::arithmetic(op, state.label_prefix(), state.branch_index),
            None => Seq::empty(),
        },
        CommandType::Push => stack_block(state, Direction::Push, command),
        CommandType::Pop => stack_block(state, Direction::Pop, command),
        CommandType::Label => templates::label(state.label_prefix(), command.arg1),
        CommandType::Goto => templates::goto(state.label_prefix(), command.arg1),
        CommandType::If => templates::if_goto(state.label_prefix(), command.arg1),
        CommandType::Function => templates::function(command.arg1, count),
        CommandType::Call => templates::call(
            command.arg1,
            count,
            templates::return_label(state.label_prefix(), state.return_index),
        ),
        CommandType::Return => templates::return_block(),
    }
}

/// The lines that a run of commands writes, block by block.
pub open spec fn blocks_of(state: WriterState, commands: Seq<CommandView>) -> Seq<Line>
    decreases commands.len(),
{
    if commands.len() == 0 {
        Seq::empty()
    } else {
        match after_command(state, commands[0]) {
            Ok(next) => block_of(state, commands[0]) + blocks_of(next, commands.skip(1)),
            Err(_) => Seq::empty(),
        }
    }
}

/// A command that is generated appends the text of its block to the
/// output, and nothing else.
pub proof fn law_command_writes_its_block(state: WriterState, command: CommandView)
    ensures
        after_command(state, command) matches Ok(next) ==> next.output == state.output
            + render_all(block_of(state, command)),
{
    reveal(after_command);
    reveal_strlit("push");
    reveal_strlit("pop");
    assert("push"@.len() == 4 && "pop"@.len() == 3);
    assert(state.output + render_all(Seq::<Line>::empty()) == state.output);
}

/// The output of a run of commands is the output before it and then the
/// text of the commands' blocks in order.
pub proof fn law_output_is_the_blocks(state: WriterState, commands: Seq<CommandView>)
    ensures
        after_commands(state, commands) matches Ok(end) ==> end.output == state.output
            + render_all(blocks_of(state, commands)),
    decreases commands.len(),
{
    if commands.len() == 0 {
        assert(state.output + render_all(Seq::<Line>::empty()) == state.output);
    } else if let Ok(next) = after_command(state, commands[0]) {
        law_command_writes_its_block(state, commands[0]);
        law_output_is_the_blocks(next, commands.skip(1));
        let first = block_of(state, commands[0]);
        let rest = blocks_of(next, commands.skip(1));
        lemma_render_all_concat(first, rest);
        if let Ok(end) = after_commands(state, commands) {
            assert(end.output == state.output + (render_all(first) + render_all(rest)));
        }
    }
}

proof fn lemma_blocks_split(state: WriterState, commands: Seq<CommandView>, k: int)
    requires
        0 <= k <= commands.len(),
        after_commands(state, commands.take(k)) is Ok,
    ensures
        blocks_of(state, commands) == blocks_of(state, commands.take(k)) + blocks_of(
            after_commands(state, commands.take(k)).unwrap(),
            commands.skip(k),
        ),
    decreases k,
{
    if k == 0 {
        assert(commands.take(0) == Seq::<CommandView>::empty());
        assert(commands.skip(0) == commands);
        assert(Seq::<Line>::empty() + blocks_of(state, commands) == blocks_of(state, commands));
    } else {
        assert(commands.take(k)[0] == commands[0]);
        assert(commands.take(k).skip(1) == commands.skip(1).take(k - 1));
        assert(commands.skip(1).skip(k - 1) == commands.skip(k));
        let next = after_command(state, commands[0]).unwrap();
        lemma_blocks_split(next, commands.skip(1), k - 1);
        let first = block_of(state, commands[0]);
        let middle = blocks_of(next, commands.skip(1).take(k - 1));
        let last = blocks_of(
            after_commands(state, commands.take(k)).unwrap(),
            commands.skip(k),
        );
        assert(first + (middle + last) == (first + middle) + last);
    }
}

/// In the lines of a run of commands, the block of each command that is
/// generated stands right behind the blocks of the commands before it.
pub proof fn law_blocks_stand_in_order(state: WriterState, commands: Seq<CommandView>, i: int)
    requires
        0 <= i < commands.len(),
        after_commands(state, commands.take(i + 1)) is Ok,
    ensures
        after_commands(state, commands.take(i)) is Ok,
        stands_at(
            blocks_of(state, commands),
            blocks_of(state, commands.take(i)).len() as int,
            block_of(after_commands(state, commands.take(i)).unwrap(), commands[i]),
        ),
{
    let upto = commands.take(i + 1);
    crate::laws::labels::lemma_after_commands_split(state, upto, i);
    assert(upto.take(i) == commands.take(i));
    let before = after_commands(state, commands.take(i)).unwrap();
    assert(upto.skip(i)[0] == commands[i]);
    lemma_blocks_split(state, commands, i);
    let head = blocks_of(state, commands.take(i));
    let tail = blocks_of(before, commands.skip(i));
    assert(commands.skip(i)[0] == commands[i]);
    let block = block_of(before, commands[i]);
    let rest = blocks_of(after_command(before, commands[i]).unwrap(), commands.skip(i).skip(1));
    assert(tail == block + rest);
    let code = blocks_of(state, commands);
    assert forall|p: int| head.len() <= p < head.len() + block.len() implies #[trigger] code[p]
        == block[p - head.len()] by {
        assert(code[p] == tail[p - head.len()]);
    }
}

/// The commands of lines that are all recognized.
pub open spec fn commands_of(lines: Seq<Seq<char>>) -> Seq<CommandView> {
    lines.map_values(|line: Seq<char>| recognize(line).unwrap())
}

proof fn lemma_lines_run_as_commands(state: WriterState, lines: Seq<Seq<char>>)
    requires
        after_lines(state, lines) is Ok,
    ensures
        forall|i: int| 0 <= i < lines.len() ==> recognize(#[trigger] lines[i]) is Some,
        after_commands(state, commands_of(lines)) == after_lines(state, lines),
    decreases lines.len(),
{
    if lines.len() > 0 {
        let next = after_command(state, recognize(lines[0]).unwrap()).unwrap();
        lemma_lines_run_as_commands(next, lines.skip(1));
        assert(commands_of(lines).skip(1) == commands_of(lines.skip(1)));
        assert forall|i: int| 0 <= i < lines.len() implies recognize(#[trigger] lines[i]) is Some by {
            if i > 0 {
                assert(lines[i] == lines.skip(1)[i - 1]);
            }
        }
    }
}

/// The assembly of a unit is the text of the blocks of its commands, in the
/// order of its command lines, written from a fresh generator.
pub proof fn law_unit_is_its_blocks(base_name: Seq<char>, text: Seq<char>)
    ensures
        translation(base_name, text) matches Ok(output) ==> ({
            let lines = valid_lines(text);
            &&& forall|i: int| 0 <= i < lines.len() ==> recognize(#[trigger] lines[i]) is Some
            &&& output == render_all(blocks_of(WriterState::fresh(base_name), commands_of(lines)))
        }),
{
    let start = WriterState::fresh(base_name);
    let lines = valid_lines(text);
    if after_lines(start, lines) is Ok {
        lemma_lines_run_as_commands(start, lines);
        law_output_is_the_blocks(start, commands_of(lines));
        let code = blocks_of(start, commands_of(lines));
        assert(Seq::<char>::empty() + render_all(code) == render_all(code));
    }
}

} // verus!
