//! How the output is laid out: one line feed behind every line,
//! declarations and comments in the first column, every other line behind
//! two spaces, and a comment that echoes the command ahead of every block.

use vstd::prelude::*;
use crate::assembly::{render, Line};
use crate::templates;
use crate::templates::{Direction, Operator, Segment};
use crate::text::decimal;

verus! {

/// Every line ends in a line feed. A comment starts with its marker and a
/// declaration with its bracket, both in the first column; every other
/// line starts with exactly two spaces.
pub proof fn law_line_layout(line: Line)
    ensures
        render(line).len() >= 3,
        render(line).last() == '\n',
        line is Comment ==> render(line)[0] == '/' && render(line)[1] == '/',
        line is Label ==> render(line)[0] == '(' && render(line)[render(line).len() - 2] == ')',
        !(line is Comment || line is Label) ==> render(line)[0] == ' ' && render(line)[1] == ' '
            && render(line)[2] != ' ',
{
    reveal_strlit("// ");
    reveal_strlit("\n");
    reveal_strlit("(");
    reveal_strlit(")\n");
    reveal_strlit("  @");
    reveal_strlit("  ");
    reveal_strlit("=");
    reveal_strlit(";");
    reveal_strlit("A");
    reveal_strlit("D");
    reveal_strlit("M");
    reveal_strlit("0");
    reveal_strlit("-1");
    reveal_strlit("!D");
    reveal_strlit("-D");
    reveal_strlit("D+1");
    reveal_strlit("M+1");
    reveal_strlit("M-1");
    reveal_strlit("D+A");
    reveal_strlit("D+M");
    reveal_strlit("D-A");
    reveal_strlit("M-D");
    reveal_strlit("D&M");
    reveal_strlit("D|M");
    match line {
        Line::Comment(text) => {
            let r = "// "@ + text + "\n"@;
            assert(r[0] == "// "@[0] && r[1] == "// "@[1]);
            assert(r.last() == "\n"@[0]);
        },
        Line::Label(name) => {
            let r = "("@ + name + ")\n"@;
            assert(r[0] == "("@[0]);
            assert(r[r.len() - 2] == ")\n"@[0]);
            assert(r.last() == ")\n"@[1]);
        },
        Line::Address(operand) => {
            let r = render(line);
            assert(r[0] == "  @"@[0] && r[1] == "  @"@[1] && r[2] == "  @"@[2]);
            assert(r.last() == "\n"@[0]);
        },
        Line::Assign(dest, comp) => {
            let d = crate::assembly::dest_text(dest);
            let r = "  "@ + d + "="@ + crate::assembly::comp_text(comp) + "\n"@;
            assert(d.len() == 1 && d[0] != ' ');
            assert(r[0] == "  "@[0] && r[1] == "  "@[1] && r[2] == d[0]);
            assert(r.last() == "\n"@[0]);
        },
        Line::Branch(comp, jump) => {
            let c = crate::assembly::comp_text(comp);
            let r = "  "@ + c + ";"@ + crate::assembly::jump_text(jump) + "\n"@;
            assert(c.len() >= 1 && c[0] != ' ');
            assert(r[0] == "  "@[0] && r[1] == "  "@[1] && r[2] == c[0]);
            assert(r.last() == "\n"@[0]);
        },
    }
}

/// The block of every command opens with one comment that echoes the
/// command: its keyword and its arguments, separated by single spaces.
pub proof fn law_blocks_open_with_the_command(
    op: Operator,
    direction: Direction,
    segment: Segment,
    index: nat,
    name: Seq<char>,
    prefix: Seq<char>,
    base_name: Seq<char>,
    landing: Seq<char>,
)
    ensures
        templates::arithmetic(op, prefix, index)[0] == Line::Comment(op.name()),
        templates::push_pop(direction, segment, index, base_name) matches Some(block) ==> block[0]
            == Line::Comment(
            direction.name() + " "@ + segment.name() + " "@ + decimal(index),
        ),
        templates::function(name, index)[0] == Line::Comment(
            "function "@ + name + " "@ + decimal(index),
        ),
        templates::call(name, index, landing)[0] == Line::Comment(
            "call "@ + name + " "@ + decimal(index),
        ),
        templates::label(prefix, name)[0] == Line::Comment("label "@ + name),
        templates::goto(prefix, name)[0] == Line::Comment("goto "@ + name),
        templates::if_goto(prefix, name)[0] == Line::Comment("if-goto "@ + name),
        templates::return_block()[0] == Line::Comment("return"@),
{
}

} // verus!
