//! The instruction sequence of each command, as mathematical sequences of
//! lines composed from a few shared templates.

use vstd::prelude::*;
use crate::assembly::{Comp, Dest, Jump, Line, Operand};
use crate::text::decimal;

verus! {

/// The arithmetic and logical operators.
#[derive(Clone, Copy, Debug, PartialEq, Eq, Structural)]
pub enum Operator {
    Add,
    Sub,
    And,
    Or,
    Neg,
    Not,
    Eq,
    Gt,
    Lt,
}

/// The two directions of a stack access.
#[derive(Clone, Copy, Debug, PartialEq, Eq, Structural)]
pub enum Direction {
    Push,
    Pop,
}

/// The memory segments.
#[derive(Clone, Copy, Debug, PartialEq, Eq, Structural)]
pub enum Segment {
    Local,
    Argument,
    This,
    That,
    Pointer,
    Temp,
    Constant,
    Static,
}

impl Operator {
    /// The operator's name in the source language.
    pub open spec fn name(self) -> Seq<char> {
        match self {
            Operator::Add => "add"@,
            Operator::Sub => "sub"@,
            Operator::And => "and"@,
            Operator::Or => "or"@,
            Operator::Neg => "neg"@,
            Operator::Not => "not"@,
            Operator::Eq => "eq"@,
            Operator::Gt => "gt"@,
            Operator::Lt => "lt"@,
        }
    }

    /// Whether the operator is a comparison, which takes a pair of labels.
    pub open spec fn is_comparison(self) -> bool {
        self == Operator::Eq || self == Operator::Gt || self == Operator::Lt
    }
}

impl Direction {
    /// The direction's keyword in the source language.
    pub open spec fn name(self) -> Seq<char> {
        match self {
            Direction::Push => "push"@,
            Direction::Pop => "pop"@,
        }
    }
}

impl Segment {
    /// The segment's name in the source language.
    pub open spec fn name(self) -> Seq<char> {
        match self {
            Segment::Local => "local"@,
            Segment::Argument => "argument"@,
            Segment::This => "this"@,
            Segment::That => "that"@,
            Segment::Pointer => "pointer"@,
            Segment::Temp => "temp"@,
            Segment::Constant => "constant"@,
            Segment::Static => "static"@,
        }
    }

    /// The register that holds the base address of a segment that has one.
    pub open spec fn base_register(self) -> Option<Seq<char>> {
        match self {
            Segment::Local => Some("LCL"@),
            Segment::Argument => Some("ARG"@),
            Segment::This => Some("THIS"@),
            Segment::That => Some("THAT"@),
            _ => None,
        }
    }
}

/// The operator that a name denotes.
pub open spec fn operator(name: Seq<char>) -> Option<Operator> {
    if name == "add"@ {
        Some(Operator::Add)
    } else if name == "sub"@ {
        Some(Operator::Sub)
    } else if name == "and"@ {
        Some(Operator::And)
    } else if name == "or"@ {
        Some(Operator::Or)
    } else if name == "neg"@ {
        Some(Operator::Neg)
    } else if name == "not"@ {
        Some(Operator::Not)
    } else if name == "eq"@ {
        Some(Operator::Eq)
    } else if name == "gt"@ {
        Some(Operator::Gt)
    } else if name == "lt"@ {
        Some(Operator::Lt)
    } else {
        None
    }
}

/// The direction that a name denotes.
pub open spec fn direction(name: Seq<char>) -> Option<Direction> {
    if name == "push"@ {
        Some(Direction::Push)
    } else if name == "pop"@ {
        Some(Direction::Pop)
    } else {
        None
    }
}

/// The segment that a name denotes.
pub open spec fn segment(name: Seq<char>) -> Option<Segment> {
    if name == "local"@ {
        Some(Segment::Local)
    } else if name == "argument"@ {
        Some(Segment::Argument)
    } else if name == "this"@ {
        Some(Segment::This)
    } else if name == "that"@ {
        Some(Segment::That)
    } else if name == "pointer"@ {
        Some(Segment::Pointer)
    } else if name == "temp"@ {
        Some(Segment::Temp)
    } else if name == "constant"@ {
        Some(Segment::Constant)
    } else if name == "static"@ {
        Some(Segment::Static)
    } else {
        None
    }
}

/// `@name`
pub open spec fn symbol(name: Seq<char>) -> Line {
    Line::Address(Operand::Symbol(name))
}

/// `@n`
pub open spec fn number(n: nat) -> Line {
    Line::Address(Operand::Number(n))
}

/// Pops the top of the stack into the data register.
pub open spec fn first_pop() -> Seq<Line> {
    seq![
        symbol("SP"@),
        Line::Assign(Dest::M, Comp::MMinusOne),
        Line::Assign(Dest::A, Comp::M),
        Line::Assign(Dest::D, Comp::M),
    ]
}

/// Removes the top of the stack and leaves the address register pointing at
/// it.
pub open spec fn second_pop() -> Seq<Line> {
    seq![symbol("SP"@), Line::Assign(Dest::M, Comp::MMinusOne), Line::Assign(Dest::A, Comp::M)]
}

/// Pushes the data register onto the stack.
pub open spec fn final_push() -> Seq<Line> {
    seq![
        symbol("SP"@),
        Line::Assign(Dest::A, Comp::M),
        Line::Assign(Dest::M, Comp::D),
        symbol("SP"@),
        Line::Assign(Dest::M, Comp::MPlusOne),
    ]
}

/// An operation on the two topmost cells: pop the upper into the data
/// register, address the lower, compute into the data register, push.
pub open spec fn binary_input(name: Seq<char>, body: Seq<Line>) -> Seq<Line> {
    seq![Line::Comment(name)] + first_pop() + second_pop() + body + final_push()
}

/// An operation on the topmost cell.
pub open spec fn unary_input(name: Seq<char>, body: Seq<Line>) -> Seq<Line> {
    seq![Line::Comment(name)] + first_pop() + body + final_push()
}

/// The target that a comparison jumps to when its condition holds.
pub open spec fn then_label(prefix: Seq<char>, index: nat) -> Seq<char> {
    prefix + "_THEN"@ + decimal(index)
}

/// The target at which both paths of a comparison meet.
pub open spec fn end_label(prefix: Seq<char>, index: nat) -> Seq<char> {
    prefix + "_END"@ + decimal(index)
}

/// The body of a comparison: the difference of the two cells, then all ones
/// where it meets the jump condition and all zeros where it does not.
pub open spec fn comparison(prefix: Seq<char>, index: nat, jump: Jump) -> Seq<Line> {
    seq![
        Line::Assign(Dest::D, Comp::MMinusD),
        symbol(then_label(prefix, index)),
        Line::Branch(Comp::D, jump),
        Line::Assign(Dest::D, Comp::Zero),
        symbol(end_label(prefix, index)),
        Line::Branch(Comp::Zero, Jump::Jmp),
        Line::Label(then_label(prefix, index)),
        Line::Assign(Dest::D, Comp::MinusOne),
        Line::Label(end_label(prefix, index)),
    ]
}

/// The jump condition of a comparison.
pub open spec fn comparison_jump(op: Operator) -> Jump {
    match op {
        Operator::Gt => Jump::Jgt,
        Operator::Lt => Jump::Jlt,
        _ => Jump::Jeq,
    }
}

/// The block of an arithmetic or logical command. With the cell pushed
/// first called x and the one on top called y: `add` is x + y, `sub` is
/// x - y, `and` and `or` work bit by bit; `neg` and `not` replace the top
/// cell by its negation or its complement; `eq`, `gt` and `lt` test x - y.
pub open spec fn arithmetic(op: Operator, prefix: Seq<char>, index: nat) -> Seq<Line> {
    match op {
        Operator::Add => binary_input(op.name(), seq![Line::Assign(Dest::D, Comp::DPlusM)]),
        Operator::Sub => binary_input(op.name(), seq![Line::Assign(Dest::D, Comp::MMinusD)]),
        Operator::And => binary_input(op.name(), seq![Line::Assign(Dest::D, Comp::DAndM)]),
        Operator::Or => binary_input(op.name(), seq![Line::Assign(Dest::D, Comp::DOrM)]),
        Operator::Neg => unary_input(op.name(), seq![Line::Assign(Dest::D, Comp::NegD)]),
        Operator::Not => unary_input(op.name(), seq![Line::Assign(Dest::D, Comp::NotD)]),
        _ => binary_input(op.name(), comparison(prefix, index, comparison_jump(op))),
    }
}

/// The name of a static variable: the file's base name, a dot, the index.
pub open spec fn static_symbol(base_name: Seq<char>, index: nat) -> Seq<char> {
    base_name + "."@ + decimal(index)
}

/// `push` or `pop`, the segment and the index, as the source wrote them.
pub open spec fn push_pop_comment(direction: Direction, segment: Segment, index: nat) -> Seq<
    char,
> {
    direction.name() + " "@ + segment.name() + " "@ + decimal(index)
}

/// With the base address of a segment in the data register: push the
/// segment's cell `index`.
pub open spec fn push_from_base(index: nat) -> Seq<Line> {
    seq![number(index), Line::Assign(Dest::A, Comp::DPlusA), Line::Assign(Dest::D, Comp::M)]
        + final_push()
}

/// With the base address of a segment in the data register: keep the
/// address of the segment's cell `index` in `R13`, pop the stack's top and
/// store it there. It takes two steps because popping uses the one working
/// register.
pub open spec fn pop_to_base(index: nat) -> Seq<Line> {
    seq![
        number(index),
        Line::Assign(Dest::D, Comp::DPlusA),
        symbol("R13"@),
        Line::Assign(Dest::M, Comp::D),
    ] + first_pop() + seq![
        symbol("R13"@),
        Line::Assign(Dest::A, Comp::M),
        Line::Assign(Dest::M, Comp::D),
    ]
}

/// Pushes the cell that a symbol names.
pub open spec fn push_named(name: Seq<char>) -> Seq<Line> {
    seq![symbol(name), Line::Assign(Dest::D, Comp::M)] + final_push()
}

/// Pops into the cell that a symbol names.
pub open spec fn pop_named(name: Seq<char>) -> Seq<Line> {
    first_pop() + seq![symbol(name), Line::Assign(Dest::M, Comp::D)]
}

/// The register that `pointer index` stands for.
pub open spec fn pointer_register(index: nat) -> Option<Seq<char>> {
    if index == 0 {
        Some("THIS"@)
    } else if index == 1 {
        Some("THAT"@)
    } else {
        None
    }
}

/// The instructions that push `segment[index]`; `None` where no addressing
/// rule covers the pair.
pub open spec fn push_body(segment: Segment, index: nat, base_name: Seq<char>) -> Option<
    Seq<Line>,
> {
    match segment {
        Segment::Pointer => match pointer_register(index) {
            Some(register) => Some(push_named(register)),
            None => None,
        },
        Segment::Temp => Some(
            seq![number(5), Line::Assign(Dest::D, Comp::A)] + push_from_base(index),
        ),
        Segment::Constant => Some(
            seq![number(index), Line::Assign(Dest::D, Comp::A)] + final_push(),
        ),
        Segment::Static => Some(push_named(static_symbol(base_name, index))),
        _ => Some(
            seq![symbol(segment.base_register().unwrap()), Line::Assign(Dest::D, Comp::M)]
                + push_from_base(index),
        ),
    }
}

/// The instructions that pop into `segment[index]`; `None` where no
/// addressing rule covers the pair.
pub open spec fn pop_body(segment: Segment, index: nat, base_name: Seq<char>) -> Option<
    Seq<Line>,
> {
    match segment {
        Segment::Pointer => match pointer_register(index) {
            Some(register) => Some(pop_named(register)),
            None => None,
        },
        Segment::Temp => Some(seq![number(5), Line::Assign(Dest::D, Comp::A)] + pop_to_base(index)),
        Segment::Constant => None,
        Segment::Static => Some(pop_named(static_symbol(base_name, index))),
        _ => Some(
            seq![symbol(segment.base_register().unwrap()), Line::Assign(Dest::D, Comp::M)]
                + pop_to_base(index),
        ),
    }
}

/// The instructions of a `push` or `pop`, without the comment.
pub open spec fn push_pop_body(
    direction: Direction,
    segment: Segment,
    index: nat,
    base_name: Seq<char>,
) -> Option<Seq<Line>> {
    match direction {
        Direction::Push => push_body(segment, index, base_name),
        Direction::Pop => pop_body(segment, index, base_name),
    }
}

/// The block of a `push` or `pop` command: its comment, then its
/// instructions; `None` where no addressing rule covers it.
pub open spec fn push_pop(
    direction: Direction,
    segment: Segment,
    index: nat,
    base_name: Seq<char>,
) -> Option<Seq<Line>> {
    match push_pop_body(direction, segment, index, base_name) {
        Some(lines) => Some(
            seq![Line::Comment(push_pop_comment(direction, segment, index))] + lines,
        ),
        None => None,
    }
}

/// Pushes one local slot holding zero.
pub open spec fn push_zero() -> Seq<Line> {
    seq![
        symbol("SP"@),
        Line::Assign(Dest::A, Comp::M),
        Line::Assign(Dest::M, Comp::Zero),
        symbol("SP"@),
        Line::Assign(Dest::M, Comp::MPlusOne),
    ]
}

/// `nvars` times `push_zero`.
pub open spec fn push_nvars(nvars: nat) -> Seq<Line>
    decreases nvars,
{
    if nvars == 0 {
        Seq::empty()
    } else {
        push_nvars((nvars - 1) as nat) + push_zero()
    }
}

/// The name and the number of a `function` or `call` command.
pub open spec fn name_and_count(keyword: Seq<char>, name: Seq<char>, nvars: nat) -> Seq<char> {
    keyword + name + " "@ + decimal(nvars)
}

/// The block of `function name nvars`: the entry label, then the locals.
pub open spec fn function(name: Seq<char>, nvars: nat) -> Seq<Line> {
    seq![Line::Comment(name_and_count("function "@, name, nvars)), Line::Label(name)] + push_nvars(
        nvars,
    )
}

/// The generated name of a user label within a scope.
pub open spec fn scoped_label(prefix: Seq<char>, label: Seq<char>) -> Seq<char> {
    prefix + "$"@ + label
}

/// The block of `label`: declares the scoped name as a jump target.
pub open spec fn label(prefix: Seq<char>, label: Seq<char>) -> Seq<Line> {
    seq![Line::Comment("label "@ + label), Line::Label(scoped_label(prefix, label))]
}

/// The block of `goto`: jumps to the scoped name.
pub open spec fn goto(prefix: Seq<char>, label: Seq<char>) -> Seq<Line> {
    seq![
        Line::Comment("goto "@ + label),
        symbol(scoped_label(prefix, label)),
        Line::Branch(Comp::Zero, Jump::Jmp),
    ]
}

/// The block of `if-goto`: pops one value and jumps to the scoped name if
/// it is not zero.
pub open spec fn if_goto(prefix: Seq<char>, label: Seq<char>) -> Seq<Line> {
    seq![Line::Comment("if-goto "@ + label)] + first_pop() + seq![
        symbol(scoped_label(prefix, label)),
        Line::Branch(Comp::D, Jump::Jne),
    ]
}

/// The landing point of the call with the given index within a scope.
pub open spec fn return_label(prefix: Seq<char>, index: nat) -> Seq<char> {
    prefix + "$ret."@ + decimal(index)
}

/// Pushes the value of a base register.
pub open spec fn push_segment(register: Seq<char>) -> Seq<Line> {
    push_named(register)
}

/// The first part of the call protocol: push the return address and the
/// caller's four base registers, in this order.
pub open spec fn save_frame(landing: Seq<char>) -> Seq<Line> {
    seq![symbol(landing), Line::Assign(Dest::D, Comp::A)] + final_push() + push_segment("LCL"@)
        + push_segment("ARG"@) + push_segment("THIS"@) + push_segment("THAT"@)
}

/// The second part of the call protocol: point `ARG` below the arguments
/// (five cells of frame and `nvars` arguments under the stack top) and `LCL`
/// at the stack top, jump to the function, and declare the landing point.
pub open spec fn enter(name: Seq<char>, nvars: nat, landing: Seq<char>) -> Seq<Line> {
    seq![
        symbol("SP"@),
        Line::Assign(Dest::D, Comp::M),
        number(5),
        Line::Assign(Dest::D, Comp::DMinusA),
        number(nvars),
        Line::Assign(Dest::D, Comp::DMinusA),
        symbol("ARG"@),
        Line::Assign(Dest::M, Comp::D),
        symbol("SP"@),
        Line::Assign(Dest::D, Comp::M),
        symbol("LCL"@),
        Line::Assign(Dest::M, Comp::D),
        symbol(name),
        Line::Branch(Comp::Zero, Jump::Jmp),
        Line::Label(landing),
    ]
}

/// The call protocol.
pub open spec fn call_protocol(name: Seq<char>, nvars: nat, landing: Seq<char>) -> Seq<Line> {
    save_frame(landing) + enter(name, nvars, landing)
}

/// The block of `call name nvars`.
pub open spec fn call(name: Seq<char>, nvars: nat, landing: Seq<char>) -> Seq<Line> {
    seq![Line::Comment(name_and_count("call "@, name, nvars))] + call_protocol(
        name,
        nvars,
        landing,
    )
}

/// Restores a base register from the cell `offset` below the frame, whose
/// address `R13` holds.
pub open spec fn recover_segment(register: Seq<char>, offset: nat) -> Seq<Line> {
    seq![
        symbol("R13"@),
        Line::Assign(Dest::D, Comp::M),
        number(offset),
        Line::Assign(Dest::D, Comp::DMinusA),
        Line::Assign(Dest::A, Comp::D),
        Line::Assign(Dest::D, Comp::M),
        symbol(register),
        Line::Assign(Dest::M, Comp::D),
    ]
}

/// Keeps the frame's address in `R13` and the return address, five cells
/// below the frame, in `R14`.
pub open spec fn keep_frame() -> Seq<Line> {
    seq![
        symbol("LCL"@),
        Line::Assign(Dest::D, Comp::M),
        symbol("R13"@),
        Line::Assign(Dest::M, Comp::D),
        number(5),
        Line::Assign(Dest::D, Comp::DMinusA),
        Line::Assign(Dest::A, Comp::D),
        Line::Assign(Dest::D, Comp::M),
        symbol("R14"@),
        Line::Assign(Dest::M, Comp::D),
    ]
}

/// With the result in the data register: stores it where `ARG` points and
/// cuts the stack back to just above it.
pub open spec fn hand_over() -> Seq<Line> {
    seq![
        symbol("ARG"@),
        Line::Assign(Dest::A, Comp::M),
        Line::Assign(Dest::M, Comp::D),
        symbol("ARG"@),
        Line::Assign(Dest::D, Comp::M),
        Line::Assign(Dest::D, Comp::DPlusOne),
        symbol("SP"@),
        Line::Assign(Dest::M, Comp::D),
    ]
}

/// Restores `THAT`, `THIS`, `ARG` and `LCL`, in this order, from the cells
/// one to four below the frame.
pub open spec fn restore_registers() -> Seq<Line> {
    recover_segment("THAT"@, 1) + recover_segment("THIS"@, 2) + recover_segment("ARG"@, 3)
        + recover_segment("LCL"@, 4)
}

/// Jumps to the address kept in `R14`.
pub open spec fn jump_back() -> Seq<Line> {
    seq![symbol("R14"@), Line::Assign(Dest::A, Comp::M), Line::Branch(Comp::Zero, Jump::Jmp)]
}

/// The block of `return`: keep the frame and the return address, pop the
/// result and hand it over, restore the caller's registers and jump back.
pub open spec fn return_block() -> Seq<Line> {
    seq![Line::Comment("return"@)] + keep_frame() + first_pop() + hand_over()
        + restore_registers() + jump_back()
}

/// The address at which the stack starts.
pub open spec fn stack_base() -> nat {
    256
}

/// The function that the bootstrap calls.
pub open spec fn entry_point() -> Seq<char> {
    "Sys.init"@
}

/// The bootstrap: set the stack pointer to the stack's base, then call the
/// entry point with no arguments.
pub open spec fn bootstrap(landing: Seq<char>) -> Seq<Line> {
    seq![
        Line::Comment("bootstrap"@),
        number(stack_base()),
        Line::Assign(Dest::D, Comp::A),
        symbol("SP"@),
        Line::Assign(Dest::M, Comp::D),
    ] + call(entry_point(), 0, landing)
}

} // verus!
