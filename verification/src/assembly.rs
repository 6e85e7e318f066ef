//! The assembly vocabulary: the four kinds of output line, how each is
//! written, and the executable statements that stand for them.

use vstd::prelude::*;
use crate::text::decimal;

verus! {

/// Where a computed value goes.
#[derive(Clone, Copy, Debug, PartialEq, Eq, Structural)]
pub enum Dest {
    A,
    D,
    M,
}

/// The computations that the generated code uses. `M` is the memory cell
/// that the address register points at.
#[derive(Clone, Copy, Debug, PartialEq, Eq, Structural)]
pub enum Comp {
    Zero,
    MinusOne,
    D,
    A,
    M,
    NotD,
    NegD,
    DPlusOne,
    MPlusOne,
    MMinusOne,
    DPlusA,
    DPlusM,
    DMinusA,
    MMinusD,
    DAndM,
    DOrM,
}

/// The jump conditions, each a test of a computed value against zero.
#[derive(Clone, Copy, Debug, PartialEq, Eq, Structural)]
pub enum Jump {
    Jgt,
    Jeq,
    Jlt,
    Jne,
    Jmp,
}

/// What an address-load line loads: a number or a symbol.
pub enum Operand {
    Number(nat),
    Symbol(Seq<char>),
}

/// One line of assembly, as a mathematical value.
pub enum Line {
    /// `// text`
    Comment(Seq<char>),
    /// `(name)`: declares a jump target.
    Label(Seq<char>),
    /// `@operand`: loads the address register.
    Address(Operand),
    /// `dest=comp`
    Assign(Dest, Comp),
    /// `comp;jump`: jumps to the address in the address register if the
    /// computed value meets the condition.
    Branch(Comp, Jump),
}

/// How a destination is written.
pub open spec fn dest_text(dest: Dest) -> Seq<char> {
    match dest {
        Dest::A => "A"@,
        Dest::D => "D"@,
        Dest::M => "M"@,
    }
}

/// How a computation is written.
pub open spec fn comp_text(comp: Comp) -> Seq<char> {
    match comp {
        Comp::Zero => "0"@,
        Comp::MinusOne => "-1"@,
        Comp::D => "D"@,
        Comp::A => "A"@,
        Comp::M => "M"@,
        Comp::NotD => "!D"@,
        Comp::NegD => "-D"@,
        Comp::DPlusOne => "D+1"@,
        Comp::MPlusOne => "M+1"@,
        Comp::MMinusOne => "M-1"@,
        Comp::DPlusA => "D+A"@,
        Comp::DPlusM => "D+M"@,
        Comp::DMinusA => "D-A"@,
        Comp::MMinusD => "M-D"@,
        Comp::DAndM => "D&M"@,
        Comp::DOrM => "D|M"@,
    }
}

/// How a jump condition is written.
pub open spec fn jump_text(jump: Jump) -> Seq<char> {
    match jump {
        Jump::Jgt => "JGT"@,
        Jump::Jeq => "JEQ"@,
        Jump::Jlt => "JLT"@,
        Jump::Jne => "JNE"@,
        Jump::Jmp => "JMP"@,
    }
}

/// How an operand is written: a number in decimal, a symbol as it is.
pub open spec fn operand_text(operand: Operand) -> Seq<char> {
    match operand {
        Operand::Number(n) => decimal(n),
        Operand::Symbol(name) => name,
    }
}

/// The text of one line, with its line feed: declarations and comments start
/// in the first column, every other line is indented by two spaces.
pub open spec fn render(line: Line) -> Seq<char> {
    match line {
        Line::Comment(text) => "// "@ + text + "\n"@,
        Line::Label(name) => "("@ + name + ")\n"@,
        Line::Address(operand) => "  @"@ + operand_text(operand) + "\n"@,
        Line::Assign(dest, comp) => "  "@ + dest_text(dest) + "="@ + comp_text(comp) + "\n"@,
        Line::Branch(comp, jump) => "  "@ + comp_text(comp) + ";"@ + jump_text(jump) + "\n"@,
    }
}

/// The text of a sequence of lines.
pub open spec fn render_all(lines: Seq<Line>) -> Seq<char>
    decreases lines.len(),
{
    if lines.len() == 0 {
        Seq::empty()
    } else {
        render_all(lines.drop_last()) + render(lines.last())
    }
}

/// The text of two sequences of lines, one behind the other, is the text
/// of the first and then the text of the second.
pub proof fn lemma_render_all_concat(a: Seq<Line>, b: Seq<Line>)
    ensures
        render_all(a + b) == render_all(a) + render_all(b),
    decreases b.len(),
{
    if b.len() == 0 {
        assert(a + b == a);
    } else {
        lemma_render_all_concat(a, b.drop_last());
        assert((a + b).drop_last() == a + b.drop_last());
        assert((a + b).last() == b.last());
    }
}

/// What an executable address-load statement loads.
#[derive(Debug)]
pub enum Target {
    Number(u64),
    Symbol(String),
}

/// One line of assembly, as the generator builds it.
#[derive(Debug)]
pub enum Statement {
    Comment(String),
    Label(String),
    Address(Target),
    Assign(Dest, Comp),
    Branch(Comp, Jump),
}

impl View for Target {
    type V = Operand;

    open spec fn view(&self) -> Operand {
        match self {
            Target::Number(n) => Operand::Number(*n as nat),
            Target::Symbol(name) => Operand::Symbol(name@),
        }
    }
}

impl View for Statement {
    type V = Line;

    open spec fn view(&self) -> Line {
        match self {
            Statement::Comment(text) => Line::Comment(text@),
            Statement::Label(name) => Line::Label(name@),
            Statement::Address(target) => Line::Address(target@),
            Statement::Assign(dest, comp) => Line::Assign(*dest, *comp),
            Statement::Branch(comp, jump) => Line::Branch(*comp, *jump),
        }
    }
}

/// The lines that a sequence of statements stands for.
pub open spec fn lines_of(statements: Seq<Statement>) -> Seq<Line> {
    statements.map_values(|s: Statement| s@)
}

/// How a destination is written.
pub fn dest_str(dest: Dest) -> (text: &'static str)
    ensures
        text@ == dest_text(dest),
{
    match dest {
        Dest::A => "A",
        Dest::D => "D",
        Dest::M => "M",
    }
}

/// How a computation is written.
pub fn comp_str(comp: Comp) -> (text: &'static str)
    ensures
        text@ == comp_text(comp),
{
    match comp {
        Comp::Zero => "0",
        Comp::MinusOne => "-1",
        Comp::D => "D",
        Comp::A => "A",
        Comp::M => "M",
        Comp::NotD => "!D",
        Comp::NegD => "-D",
        Comp::DPlusOne => "D+1",
        Comp::MPlusOne => "M+1",
        Comp::MMinusOne => "M-1",
        Comp::DPlusA => "D+A",
        Comp::DPlusM => "D+M",
        Comp::DMinusA => "D-A",
        Comp::MMinusD => "M-D",
        Comp::DAndM => "D&M",
        Comp::DOrM => "D|M",
    }
}

/// How a jump condition is written.
pub fn jump_str(jump: Jump) -> (text: &'static str)
    ensures
        text@ == jump_text(jump),
{
    match jump {
        Jump::Jgt => "JGT",
        Jump::Jeq => "JEQ",
        Jump::Jlt => "JLT",
        Jump::Jne => "JNE",
        Jump::Jmp => "JMP",
    }
}

/// Appends one statement to a list.
pub fn push_statement(statements: &mut Vec<Statement>, statement: Statement)
    ensures
        lines_of(final(statements)@) == lines_of(old(statements)@).push(statement@),
{
    statements.push(statement);
}

/// Appends a list of statements to another.
pub fn extend_statements(statements: &mut Vec<Statement>, more: Vec<Statement>)
    ensures
        lines_of(final(statements)@) == lines_of(old(statements)@) + lines_of(more@),
{
    let mut more = more;
    statements.append(&mut more);
}

/// `@name`
pub fn at_symbol(name: &str) -> (statement: Statement)
    ensures
        statement@ == Line::Address(Operand::Symbol(name@)),
{
    Statement::Address(Target::Symbol(String::from_str(name)))
}

/// `@n`
pub fn at_number(n: u64) -> (statement: Statement)
    ensures
        statement@ == Line::Address(Operand::Number(n as nat)),
{
    Statement::Address(Target::Number(n))
}

} // verus!
