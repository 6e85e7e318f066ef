//! What the generated code does on the machine, and what holds of the
//! generated names.

use vstd::prelude::*;
use crate::assembly::{Comp, Dest, Jump, Line};
use crate::machine::{
    bits, is_word, jump_taken, places_labels, resolve, same_except, stands_at, word_and,
    word_not, word_or, wrap, Machine,
};
use crate::execution::{
    binary_operands, comparison_body_steps, lemma_assign_d, lemma_binary_operands,
    lemma_comparison_body, lemma_final_push, lemma_pass, lemma_pop_named, lemma_pop_to_base,
    lemma_predefined, lemma_push_from_base, lemma_push_named, lemma_run_split,
    lemma_stands_at_parts, lemma_unary_operand, unary_operand,
};
use crate::templates;
use crate::templates::{Direction, Operator, Segment};

verus! {

/// What a binary operator makes of x, pushed first, and y, on top.
pub open spec fn binary_result(op: Operator, x: int, y: int) -> int {
    match op {
        Operator::Add => wrap(x + y),
        Operator::Sub => wrap(x - y),
        Operator::And => word_and(x, y),
        _ => word_or(x, y),
    }
}

/// What a unary operator makes of the top cell.
pub open spec fn unary_result(op: Operator, y: int) -> int {
    match op {
        Operator::Neg => wrap(-y),
        _ => word_not(y),
    }
}

proof fn lemma_bitwise_commute(x: int, y: int)
    ensures
        word_and(x, y) == word_and(y, x),
        word_or(x, y) == word_or(y, x),
{
    let a = bits(x);
    let b = bits(y);
    assert(a & b == b & a) by (bit_vector);
    assert(a | b == b | a) by (bit_vector);
}

/// `add`, `sub`, `and` and `or` replace the two topmost cells by their
/// result, in 16-bit two's-complement arithmetic, and touch nothing else:
/// the stack is one cell lower and every other cell is as it was.
pub proof fn law_binary_operator(
    op: Operator,
    prefix: Seq<char>,
    index: nat,
    code: Seq<Line>,
    env: Map<Seq<char>, int>,
    start: Machine,
)
    requires
        op == Operator::Add || op == Operator::Sub || op == Operator::And || op == Operator::Or,
        stands_at(code, start.pc, templates::arithmetic(op, prefix, index)),
        start.stack_holds(2),
    ensures
        ({
            let block = templates::arithmetic(op, prefix, index);
            let end = start.run(code, env, block.len());
            &&& end.pc == start.pc + block.len()
            &&& end.sp() == start.sp() - 1
            &&& end.top() == binary_result(op, start.ram[start.sp() - 2], start.top())
            &&& same_except(start.ram, end.ram, set![0, start.sp() - 2])
        }),
{
    let comp = match op {
        Operator::Add => Comp::DPlusM,
        Operator::Sub => Comp::MMinusD,
        Operator::And => Comp::DAndM,
        _ => Comp::DOrM,
    };
    let body = seq![Line::Assign(Dest::D, comp)];
    assert(templates::arithmetic(op, prefix, index) == templates::binary_input(op.name(), body));
    lemma_bitwise_commute(start.ram[start.sp() - 2], start.top());
    lemma_binary_operands(op.name(), body, code, env, start);
    let operands = binary_operands(start);
    lemma_assign_d(comp, code, env, operands);
    let computed = operands.run(code, env, 1);
    lemma_final_push(code, env, computed);
    lemma_run_split(start, code, env, 8, 6);
    lemma_run_split(operands, code, env, 1, 5);
}

/// `neg` and `not` replace the topmost cell by its negation or its
/// complement and touch nothing else.
pub proof fn law_unary_operator(
    op: Operator,
    prefix: Seq<char>,
    index: nat,
    code: Seq<Line>,
    env: Map<Seq<char>, int>,
    start: Machine,
)
    requires
        op == Operator::Neg || op == Operator::Not,
        stands_at(code, start.pc, templates::arithmetic(op, prefix, index)),
        start.stack_holds(1),
    ensures
        ({
            let block = templates::arithmetic(op, prefix, index);
            let end = start.run(code, env, block.len());
            &&& end.pc == start.pc + block.len()
            &&& end.sp() == start.sp()
            &&& end.top() == unary_result(op, start.top())
            &&& same_except(start.ram, end.ram, set![0, start.sp() - 1])
        }),
{
    let comp = if op == Operator::Neg {
        Comp::NegD
    } else {
        Comp::NotD
    };
    let body = seq![Line::Assign(Dest::D, comp)];
    assert(templates::arithmetic(op, prefix, index) == templates::unary_input(op.name(), body));
    lemma_unary_operand(op.name(), body, code, env, start);
    let operand = unary_operand(start);
    lemma_assign_d(comp, code, env, operand);
    let computed = operand.run(code, env, 1);
    lemma_final_push(code, env, computed);
    lemma_run_split(start, code, env, 5, 6);
    lemma_run_split(operand, code, env, 1, 5);
}

/// Whether a comparison holds of x, pushed first, and y, on top: the test
/// is made on their 16-bit difference.
pub open spec fn comparison_holds(op: Operator, x: int, y: int) -> bool {
    jump_taken(templates::comparison_jump(op), wrap(x - y))
}

/// How many steps a comparison takes.
pub open spec fn comparison_steps(holds: bool) -> nat {
    if holds {
        19
    } else {
        20
    }
}

/// `eq`, `gt` and `lt` replace the two topmost cells by all ones (-1) where
/// the comparison holds and by all zeros where it does not, never by
/// anything else, and touch nothing else. Both paths end behind the block.
/// Of two words, `eq` holds exactly when they are equal; `gt` and `lt`
/// hold exactly when the first is greater or less than the second, as long
/// as their difference is a word itself.
pub proof fn law_comparison(
    op: Operator,
    prefix: Seq<char>,
    index: nat,
    code: Seq<Line>,
    env: Map<Seq<char>, int>,
    start: Machine,
)
    requires
        op.is_comparison(),
        stands_at(code, start.pc, templates::arithmetic(op, prefix, index)),
        places_labels(env, code),
        start.stack_holds(2),
    ensures
        ({
            let block = templates::arithmetic(op, prefix, index);
            let x = start.ram[start.sp() - 2];
            let y = start.top();
            let end = start.run(code, env, comparison_steps(comparison_holds(op, x, y)));
            &&& end.pc == start.pc + block.len()
            &&& end.sp() == start.sp() - 1
            &&& end.top() == (if comparison_holds(op, x, y) {
                -1int
            } else {
                0int
            })
            &&& same_except(start.ram, end.ram, set![0, start.sp() - 2])
            &&& op == Operator::Eq && is_word(x) && is_word(y) ==> (comparison_holds(op, x, y) <==> x
                == y)
            &&& op == Operator::Gt && is_word(x - y) ==> (comparison_holds(op, x, y) <==> x > y)
            &&& op == Operator::Lt && is_word(x - y) ==> (comparison_holds(op, x, y) <==> x < y)
        }),
{
    let jump = templates::comparison_jump(op);
    let body = templates::comparison(prefix, index, jump);
    assert(templates::arithmetic(op, prefix, index) == templates::binary_input(op.name(), body));
    lemma_binary_operands(op.name(), body, code, env, start);
    let operands = binary_operands(start);
    lemma_comparison_body(prefix, index, jump, code, env, operands);
    let holds = comparison_holds(op, start.ram[start.sp() - 2], start.top());
    let steps = comparison_body_steps(holds);
    let decided = operands.run(code, env, steps);
    lemma_final_push(code, env, decided);
    lemma_run_split(start, code, env, 8, steps + 5);
    lemma_run_split(operands, code, env, steps, 5);
}

/// The address of the cell `segment[index]`, for every segment but
/// `constant`, which has no cells.
pub open spec fn cell_address(
    segment: Segment,
    index: nat,
    base_name: Seq<char>,
    env: Map<Seq<char>, int>,
    state: Machine,
) -> int {
    match segment {
        Segment::Local => wrap(state.lcl() + index),
        Segment::Argument => wrap(state.arg() + index),
        Segment::This => wrap(state.this() + index),
        Segment::That => wrap(state.that() + index),
        Segment::Pointer => if index == 0 {
            3
        } else {
            4
        },
        Segment::Temp => wrap(5 + index as int),
        _ => resolve(env, templates::static_symbol(base_name, index)),
    }
}

/// The value that `push segment index` pushes: the index itself for
/// `constant`, else what the cell holds.
pub open spec fn pushed_value(
    segment: Segment,
    index: nat,
    base_name: Seq<char>,
    env: Map<Seq<char>, int>,
    state: Machine,
) -> int {
    if segment == Segment::Constant {
        index as int
    } else {
        state.ram[cell_address(segment, index, base_name, env, state)]
    }
}

/// The state behind `push segment index` from `start`.
pub open spec fn after_push(
    segment: Segment,
    index: nat,
    base_name: Seq<char>,
    env: Map<Seq<char>, int>,
    start: Machine,
) -> Machine {
    let value = pushed_value(segment, index, base_name, env, start);
    let block = templates::push_pop(Direction::Push, segment, index, base_name).unwrap();
    Machine {
        a: 0,
        d: value,
        ram: start.ram.insert(start.sp(), value).insert(0, start.sp() + 1),
        pc: start.pc + block.len(),
    }
}

/// Whether `start` is about to run `push segment index` with room for it.
pub open spec fn push_ready(
    segment: Segment,
    index: nat,
    base_name: Seq<char>,
    code: Seq<Line>,
    start: Machine,
) -> bool {
    &&& templates::push_pop(Direction::Push, segment, index, base_name) is Some
    &&& stands_at(
        code,
        start.pc,
        templates::push_pop(Direction::Push, segment, index, base_name).unwrap(),
    )
    &&& start.stack_holds(0)
    &&& start.sp() < 32767
}

/// The two lines that load the base address of a segment into the data
/// register.
spec fn base_load(segment: Segment) -> Seq<Line> {
    if segment == Segment::Temp {
        seq![templates::number(5), Line::Assign(Dest::D, Comp::A)]
    } else {
        seq![
            templates::symbol(segment.base_register().unwrap()),
            Line::Assign(Dest::D, Comp::M),
        ]
    }
}

/// The base address of a segment that is addressed through one.
spec fn base_address(segment: Segment, state: Machine) -> int {
    match segment {
        Segment::Local => state.lcl(),
        Segment::Argument => state.arg(),
        Segment::This => state.this(),
        Segment::That => state.that(),
        _ => 5,
    }
}

proof fn lemma_base_load(
    segment: Segment,
    code: Seq<Line>,
    env: Map<Seq<char>, int>,
    start: Machine,
)
    requires
        segment.base_register() is Some || segment == Segment::Temp,
        stands_at(code, start.pc, base_load(segment)),
    ensures
        start.run(code, env, 2).d == base_address(segment, start),
        start.run(code, env, 2).ram == start.ram,
        start.run(code, env, 2).pc == start.pc + 2,
{
    lemma_predefined();
    assert(code[start.pc] == base_load(segment)[0]);
    assert(code[start.pc + 1] == base_load(segment)[1]);
    reveal_with_fuel(Machine::run, 3);
}

proof fn lemma_push_state(
    segment: Segment,
    index: nat,
    base_name: Seq<char>,
    code: Seq<Line>,
    env: Map<Seq<char>, int>,
    start: Machine,
)
    requires
        push_ready(segment, index, base_name, code, start),
    ensures
        start.run(
            code,
            env,
            templates::push_pop(Direction::Push, segment, index, base_name).unwrap().len(),
        ) == after_push(segment, index, base_name, env, start),
{
    lemma_predefined();
    let comment = seq![
        Line::Comment(templates::push_pop_comment(Direction::Push, segment, index)),
    ];
    let body = templates::push_body(segment, index, base_name).unwrap();
    lemma_stands_at_parts(code, start.pc, comment, body);
    assert(code[start.pc] == comment[0]);
    lemma_pass(code, env, start);
    let passed = start.run(code, env, 1);
    if segment.base_register() is Some || segment == Segment::Temp {
        lemma_stands_at_parts(
            code,
            passed.pc,
            base_load(segment),
            templates::push_from_base(index),
        );
        lemma_base_load(segment, code, env, passed);
        let loaded = passed.run(code, env, 2);
        lemma_push_from_base(index, code, env, loaded);
        lemma_run_split(start, code, env, 1, 10);
        lemma_run_split(passed, code, env, 2, 8);
    } else if segment == Segment::Constant {
        let load = seq![templates::number(index), Line::Assign(Dest::D, Comp::A)];
        lemma_stands_at_parts(code, passed.pc, load, templates::final_push());
        let loaded = passed.run(code, env, 2);
        assert(loaded == (Machine {
            a: index as int,
            d: index as int,
            pc: passed.pc + 2,
            ..passed
        })) by {
            assert(code[passed.pc] == load[0]);
            assert(code[passed.pc + 1] == load[1]);
            reveal_with_fuel(Machine::run, 3);
        }
        lemma_final_push(code, env, loaded);
        lemma_run_split(start, code, env, 1, 7);
        lemma_run_split(passed, code, env, 2, 5);
    } else {
        let name = if segment == Segment::Pointer {
            templates::pointer_register(index).unwrap()
        } else {
            templates::static_symbol(base_name, index)
        };
        lemma_push_named(name, code, env, passed);
        lemma_run_split(start, code, env, 1, 7);
    }
}

/// `push segment index` puts the value on top of the stack, one cell
/// higher, and touches nothing else.
pub proof fn law_push(
    segment: Segment,
    index: nat,
    base_name: Seq<char>,
    code: Seq<Line>,
    env: Map<Seq<char>, int>,
    start: Machine,
)
    requires
        push_ready(segment, index, base_name, code, start),
    ensures
        ({
            let block = templates::push_pop(Direction::Push, segment, index, base_name).unwrap();
            let end = start.run(code, env, block.len());
            &&& end.pc == start.pc + block.len()
            &&& end.sp() == start.sp() + 1
            &&& end.top() == pushed_value(segment, index, base_name, env, start)
            &&& same_except(start.ram, end.ram, set![0, start.sp()])
        }),
{
    lemma_push_state(segment, index, base_name, code, env, start);
}

/// The state behind `pop segment index` from `start`.
pub open spec fn after_pop(
    segment: Segment,
    index: nat,
    base_name: Seq<char>,
    env: Map<Seq<char>, int>,
    start: Machine,
) -> Machine {
    let cell = cell_address(segment, index, base_name, env, start);
    let block = templates::push_pop(Direction::Pop, segment, index, base_name).unwrap();
    let kept = if segment.base_register() is Some || segment == Segment::Temp {
        start.ram.insert(13, cell)
    } else {
        start.ram
    };
    Machine {
        a: cell,
        d: start.top(),
        ram: kept.insert(0, start.sp() - 1).insert(cell, start.top()),
        pc: start.pc + block.len(),
    }
}

/// Whether `start` is about to run `pop segment index` with a cell to pop.
pub open spec fn pop_ready(
    segment: Segment,
    index: nat,
    base_name: Seq<char>,
    code: Seq<Line>,
    start: Machine,
) -> bool {
    &&& templates::push_pop(Direction::Pop, segment, index, base_name) is Some
    &&& stands_at(
        code,
        start.pc,
        templates::push_pop(Direction::Pop, segment, index, base_name).unwrap(),
    )
    &&& start.stack_holds(1)
}

proof fn lemma_pop_state(
    segment: Segment,
    index: nat,
    base_name: Seq<char>,
    code: Seq<Line>,
    env: Map<Seq<char>, int>,
    start: Machine,
)
    requires
        pop_ready(segment, index, base_name, code, start),
    ensures
        start.run(
            code,
            env,
            templates::push_pop(Direction::Pop, segment, index, base_name).unwrap().len(),
        ) == after_pop(segment, index, base_name, env, start),
{
    lemma_predefined();
    let comment = seq![Line::Comment(templates::push_pop_comment(Direction::Pop, segment, index))];
    let body = templates::pop_body(segment, index, base_name).unwrap();
    lemma_stands_at_parts(code, start.pc, comment, body);
    assert(code[start.pc] == comment[0]);
    lemma_pass(code, env, start);
    let passed = start.run(code, env, 1);
    if segment.base_register() is Some || segment == Segment::Temp {
        lemma_stands_at_parts(code, passed.pc, base_load(segment), templates::pop_to_base(index));
        lemma_base_load(segment, code, env, passed);
        let loaded = passed.run(code, env, 2);
        lemma_pop_to_base(index, code, env, loaded);
        lemma_run_split(start, code, env, 1, 13);
        lemma_run_split(passed, code, env, 2, 11);
    } else {
        let name = if segment == Segment::Pointer {
            templates::pointer_register(index).unwrap()
        } else {
            templates::static_symbol(base_name, index)
        };
        lemma_pop_named(name, code, env, passed);
        lemma_run_split(start, code, env, 1, 6);
    }
}

/// `pop segment index` moves the top of the stack into the cell, leaves
/// the stack one cell lower, and touches nothing else but the scratch
/// register `R13`. The cell must not be the stack pointer itself.
pub proof fn law_pop(
    segment: Segment,
    index: nat,
    base_name: Seq<char>,
    code: Seq<Line>,
    env: Map<Seq<char>, int>,
    start: Machine,
)
    requires
        pop_ready(segment, index, base_name, code, start),
        cell_address(segment, index, base_name, env, start) != 0,
    ensures
        ({
            let block = templates::push_pop(Direction::Pop, segment, index, base_name).unwrap();
            let cell = cell_address(segment, index, base_name, env, start);
            let end = start.run(code, env, block.len());
            &&& end.pc == start.pc + block.len()
            &&& end.sp() == start.sp() - 1
            &&& end.ram[cell] == start.top()
            &&& same_except(start.ram, end.ram, set![0, 13, cell])
        }),
{
    lemma_pop_state(segment, index, base_name, code, env, start);
}

/// For every segment and index that can be both pushed and popped: `push`
/// and then at once `pop` of the same cell leaves the stack at its height
/// and the cell with its value. Nothing changes but the scratch register
/// `R13` and the free cell above the stack.
pub proof fn law_push_then_pop(
    segment: Segment,
    index: nat,
    base_name: Seq<char>,
    code: Seq<Line>,
    env: Map<Seq<char>, int>,
    start: Machine,
)
    requires
        templates::push_pop(Direction::Push, segment, index, base_name) is Some,
        templates::push_pop(Direction::Pop, segment, index, base_name) is Some,
        stands_at(
            code,
            start.pc,
            templates::push_pop(Direction::Push, segment, index, base_name).unwrap()
                + templates::push_pop(Direction::Pop, segment, index, base_name).unwrap(),
        ),
        start.stack_holds(0),
        start.sp() < 32767,
    ensures
        ({
            let block = templates::push_pop(Direction::Push, segment, index, base_name).unwrap()
                + templates::push_pop(Direction::Pop, segment, index, base_name).unwrap();
            let cell = cell_address(segment, index, base_name, env, start);
            let end = start.run(code, env, block.len());
            &&& end.pc == start.pc + block.len()
            &&& end.sp() == start.sp()
            &&& end.ram[cell] == start.ram[cell]
            &&& same_except(start.ram, end.ram, set![13, start.sp()])
        }),
{
    let push = templates::push_pop(Direction::Push, segment, index, base_name).unwrap();
    let pop = templates::push_pop(Direction::Pop, segment, index, base_name).unwrap();
    lemma_stands_at_parts(code, start.pc, push, pop);
    lemma_push_state(segment, index, base_name, code, env, start);
    let pushed = after_push(segment, index, base_name, env, start);
    assert(cell_address(segment, index, base_name, env, pushed) == cell_address(
        segment,
        index,
        base_name,
        env,
        start,
    ));
    lemma_pop_state(segment, index, base_name, code, env, pushed);
    lemma_run_split(start, code, env, push.len(), pop.len());
}

/// `label` declares a jump target and does nothing on the machine.
pub proof fn law_label(
    prefix: Seq<char>,
    label: Seq<char>,
    code: Seq<Line>,
    env: Map<Seq<char>, int>,
    start: Machine,
)
    requires
        stands_at(code, start.pc, templates::label(prefix, label)),
    ensures
        start.run(code, env, 2) == (Machine { pc: start.pc + 2, ..start }),
{
    let block = templates::label(prefix, label);
    assert(code[start.pc] == block[0]);
    assert(code[start.pc + 1] == block[1]);
    reveal_with_fuel(Machine::run, 3);
}

/// `goto` continues at the scoped label and changes nothing but the
/// address register.
pub proof fn law_goto(
    prefix: Seq<char>,
    label: Seq<char>,
    code: Seq<Line>,
    env: Map<Seq<char>, int>,
    start: Machine,
)
    requires
        stands_at(code, start.pc, templates::goto(prefix, label)),
    ensures
        ({
            let target = resolve(env, templates::scoped_label(prefix, label));
            start.run(code, env, 3) == (Machine { a: target, pc: target, ..start })
        }),
{
    let block = templates::goto(prefix, label);
    assert(code[start.pc] == block[0]);
    assert(code[start.pc + 1] == block[1]);
    assert(code[start.pc + 2] == block[2]);
    reveal_with_fuel(Machine::run, 4);
}

/// `if-goto` pops the top of the stack and continues at the scoped label
/// if the value is not zero, behind the block if it is zero. Nothing else
/// changes.
pub proof fn law_if_goto(
    prefix: Seq<char>,
    label: Seq<char>,
    code: Seq<Line>,
    env: Map<Seq<char>, int>,
    start: Machine,
)
    requires
        stands_at(code, start.pc, templates::if_goto(prefix, label)),
        start.stack_holds(1),
    ensures
        ({
            let end = start.run(code, env, 7);
            &&& end.pc == (if start.top() != 0 {
                resolve(env, templates::scoped_label(prefix, label))
            } else {
                start.pc + 7
            })
            &&& end.sp() == start.sp() - 1
            &&& same_except(start.ram, end.ram, set![0])
        }),
{
    let comment = seq![Line::Comment("if-goto "@ + label)];
    let jump = seq![
        templates::symbol(templates::scoped_label(prefix, label)),
        Line::Branch(Comp::D, Jump::Jne),
    ];
    lemma_stands_at_parts(code, start.pc, comment + templates::first_pop(), jump);
    lemma_stands_at_parts(code, start.pc, comment, templates::first_pop());
    assert(code[start.pc] == comment[0]);
    lemma_pass(code, env, start);
    let passed = start.run(code, env, 1);
    crate::execution::lemma_first_pop(code, env, passed);
    let popped = passed.run(code, env, 4);
    assert(popped.run(code, env, 2).pc == (if start.top() != 0 {
        resolve(env, templates::scoped_label(prefix, label))
    } else {
        start.pc + 7
    }) && popped.run(code, env, 2).ram == popped.ram) by {
        assert(code[popped.pc] == jump[0]);
        assert(code[popped.pc + 1] == jump[1]);
        reveal_with_fuel(Machine::run, 3);
    }
    lemma_run_split(start, code, env, 1, 6);
    lemma_run_split(passed, code, env, 4, 2);
}

} // verus!
