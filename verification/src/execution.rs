//! How the machine runs the shared templates: the exact state behind each of
//! them, from which the laws of the whole blocks are put together.

use vstd::prelude::*;
use crate::assembly::{Comp, Dest, Jump, Line};
use crate::machine::{predefined, resolve, stands_at, wrap, Machine};
use crate::templates;

verus! {

/// The addresses of the symbols that the machine defines.
pub proof fn lemma_predefined()
    ensures
        predefined("SP"@) == Some(0int),
        predefined("LCL"@) == Some(1int),
        predefined("ARG"@) == Some(2int),
        predefined("THIS"@) == Some(3int),
        predefined("THAT"@) == Some(4int),
        predefined("R13"@) == Some(13int),
        predefined("R14"@) == Some(14int),
{
    reveal_strlit("SP");
    reveal_strlit("LCL");
    reveal_strlit("ARG");
    reveal_strlit("THIS");
    reveal_strlit("THAT");
    reveal_strlit("R13");
    reveal_strlit("R14");
    assert("SP"@.len() == 2 && "LCL"@.len() == 3 && "ARG"@.len() == 3 && "THIS"@.len() == 4);
    assert("THAT"@.len() == 4 && "R13"@.len() == 3 && "R14"@.len() == 3);
    assert("LCL"@[0] == 'L' && "ARG"@[0] == 'A' && "R13"@[0] == 'R' && "R14"@[0] == 'R');
    assert("THIS"@[2] == 'I' && "THAT"@[2] == 'A' && "R13"@[2] == '3' && "R14"@[2] == '4');
}

/// Running `first + rest` steps is running `first` steps and then `rest`.
pub proof fn lemma_run_split(
    start: Machine,
    code: Seq<Line>,
    env: Map<Seq<char>, int>,
    first: nat,
    rest: nat,
)
    ensures
        start.run(code, env, first + rest) == start.run(code, env, first).run(code, env, rest),
    decreases first,
{
    if first > 0 {
        lemma_run_split(start.step(code, env), code, env, (first - 1) as nat, rest);
    }
}

/// Where a block stands, its two parts stand one behind the other.
pub proof fn lemma_stands_at_parts(code: Seq<Line>, position: int, a: Seq<Line>, b: Seq<Line>)
    requires
        stands_at(code, position, a + b),
    ensures
        stands_at(code, position, a),
        stands_at(code, position + a.len(), b),
{
    assert forall|i: int| position <= i < position + a.len() implies #[trigger] code[i] == a[i
        - position] by {
        assert((a + b)[i - position] == a[i - position]);
    }
    assert forall|i: int| position + a.len() <= i < position + a.len() + b.len() implies #[trigger] code[i]
        == b[i - (position + a.len())] by {
        assert((a + b)[i - position] == b[i - position - a.len()]);
    }
}

/// A comment or a label declaration only passes.
pub proof fn lemma_pass(code: Seq<Line>, env: Map<Seq<char>, int>, start: Machine)
    requires
        0 <= start.pc < code.len(),
        code[start.pc] is Comment || code[start.pc] is Label,
    ensures
        start.run(code, env, 1) == (Machine { pc: start.pc + 1, ..start }),
{
    reveal_with_fuel(Machine::run, 2);
}

/// `first_pop` takes the top of the stack into the data register.
pub proof fn lemma_first_pop(code: Seq<Line>, env: Map<Seq<char>, int>, start: Machine)
    requires
        stands_at(code, start.pc, templates::first_pop()),
        start.stack_holds(1),
    ensures
        start.run(code, env, 4) == (Machine {
            a: start.sp() - 1,
            d: start.top(),
            ram: start.ram.insert(0, start.sp() - 1),
            pc: start.pc + 4,
        }),
{
    lemma_predefined();
    reveal_with_fuel(Machine::run, 5);
}

/// `second_pop` drops the top of the stack and addresses it.
pub proof fn lemma_second_pop(code: Seq<Line>, env: Map<Seq<char>, int>, start: Machine)
    requires
        stands_at(code, start.pc, templates::second_pop()),
        start.stack_holds(1),
    ensures
        start.run(code, env, 3) == (Machine {
            a: start.sp() - 1,
            d: start.d,
            ram: start.ram.insert(0, start.sp() - 1),
            pc: start.pc + 3,
        }),
{
    lemma_predefined();
    reveal_with_fuel(Machine::run, 4);
}

/// `final_push` puts the data register on top of the stack.
pub proof fn lemma_final_push(code: Seq<Line>, env: Map<Seq<char>, int>, start: Machine)
    requires
        stands_at(code, start.pc, templates::final_push()),
        start.stack_holds(0),
        start.sp() < 32767,
    ensures
        start.run(code, env, 5) == (Machine {
            a: 0,
            d: start.d,
            ram: start.ram.insert(start.sp(), start.d).insert(0, start.sp() + 1),
            pc: start.pc + 5,
        }),
{
    lemma_predefined();
    reveal_with_fuel(Machine::run, 6);
}

/// `push_named` puts the cell that the symbol names on top of the stack.
pub proof fn lemma_push_named(
    name: Seq<char>,
    code: Seq<Line>,
    env: Map<Seq<char>, int>,
    start: Machine,
)
    requires
        stands_at(code, start.pc, templates::push_named(name)),
        start.stack_holds(0),
        start.sp() < 32767,
    ensures
        start.run(code, env, 7) == (Machine {
            a: 0,
            d: start.ram[resolve(env, name)],
            ram: start.ram.insert(start.sp(), start.ram[resolve(env, name)]).insert(
                0,
                start.sp() + 1,
            ),
            pc: start.pc + 7,
        }),
{
    lemma_stands_at_parts(
        code,
        start.pc,
        seq![templates::symbol(name), Line::Assign(Dest::D, Comp::M)],
        templates::final_push(),
    );
    let loaded = start.run(code, env, 2);
    assert(loaded == (Machine {
        a: resolve(env, name),
        d: start.ram[resolve(env, name)],
        pc: start.pc + 2,
        ..start
    })) by {
        reveal_with_fuel(Machine::run, 3);
    }
    lemma_final_push(code, env, loaded);
    lemma_run_split(start, code, env, 2, 5);
}

/// `pop_named` moves the top of the stack into the cell that the symbol
/// names.
pub proof fn lemma_pop_named(
    name: Seq<char>,
    code: Seq<Line>,
    env: Map<Seq<char>, int>,
    start: Machine,
)
    requires
        stands_at(code, start.pc, templates::pop_named(name)),
        start.stack_holds(1),
    ensures
        start.run(code, env, 6) == (Machine {
            a: resolve(env, name),
            d: start.top(),
            ram: start.ram.insert(0, start.sp() - 1).insert(resolve(env, name), start.top()),
            pc: start.pc + 6,
        }),
{
    lemma_stands_at_parts(
        code,
        start.pc,
        templates::first_pop(),
        seq![templates::symbol(name), Line::Assign(Dest::M, Comp::D)],
    );
    lemma_first_pop(code, env, start);
    let popped = start.run(code, env, 4);
    assert(popped.run(code, env, 2) == (Machine {
        a: resolve(env, name),
        ram: popped.ram.insert(resolve(env, name), popped.d),
        pc: popped.pc + 2,
        ..popped
    })) by {
        reveal_with_fuel(Machine::run, 3);
    }
    lemma_run_split(start, code, env, 4, 2);
}

/// With a base address in the data register, `push_from_base` puts the
/// cell `index` behind it on top of the stack.
pub proof fn lemma_push_from_base(
    index: nat,
    code: Seq<Line>,
    env: Map<Seq<char>, int>,
    start: Machine,
)
    requires
        stands_at(code, start.pc, templates::push_from_base(index)),
        start.stack_holds(0),
        start.sp() < 32767,
    ensures
        start.run(code, env, 8) == (Machine {
            a: 0,
            d: start.ram[wrap(start.d + index)],
            ram: start.ram.insert(start.sp(), start.ram[wrap(start.d + index)]).insert(
                0,
                start.sp() + 1,
            ),
            pc: start.pc + 8,
        }),
{
    lemma_stands_at_parts(
        code,
        start.pc,
        seq![
            templates::number(index),
            Line::Assign(Dest::A, Comp::DPlusA),
            Line::Assign(Dest::D, Comp::M),
        ],
        templates::final_push(),
    );
    let loaded = start.run(code, env, 3);
    assert(loaded == (Machine {
        a: wrap(start.d + index),
        d: start.ram[wrap(start.d + index)],
        pc: start.pc + 3,
        ..start
    })) by {
        reveal_with_fuel(Machine::run, 4);
    }
    lemma_final_push(code, env, loaded);
    lemma_run_split(start, code, env, 3, 5);
}

/// With a base address in the data register, `pop_to_base` moves the top
/// of the stack into the cell `index` behind it, by way of `R13`.
pub proof fn lemma_pop_to_base(
    index: nat,
    code: Seq<Line>,
    env: Map<Seq<char>, int>,
    start: Machine,
)
    requires
        stands_at(code, start.pc, templates::pop_to_base(index)),
        start.stack_holds(1),
    ensures
        ({
            let cell = wrap(start.d + index);
            let kept = start.ram.insert(13, cell);
            start.run(code, env, 11) == (Machine {
                a: cell,
                d: start.top(),
                ram: kept.insert(0, start.sp() - 1).insert(cell, start.top()),
                pc: start.pc + 11,
            })
        }),
{
    lemma_predefined();
    let head = seq![
        templates::number(index),
        Line::Assign(Dest::D, Comp::DPlusA),
        templates::symbol("R13"@),
        Line::Assign(Dest::M, Comp::D),
    ];
    let tail = seq![
        templates::symbol("R13"@),
        Line::Assign(Dest::A, Comp::M),
        Line::Assign(Dest::M, Comp::D),
    ];
    lemma_stands_at_parts(code, start.pc, head + templates::first_pop(), tail);
    lemma_stands_at_parts(code, start.pc, head, templates::first_pop());
    let cell = wrap(start.d + index);
    let kept = start.run(code, env, 4);
    assert(kept == (Machine {
        a: 13,
        d: cell,
        ram: start.ram.insert(13, cell),
        pc: start.pc + 4,
    })) by {
        reveal_with_fuel(Machine::run, 5);
    }
    lemma_first_pop(code, env, kept);
    let popped = kept.run(code, env, 4);
    assert(popped.run(code, env, 3) == (Machine {
        a: cell,
        ram: popped.ram.insert(cell, popped.d),
        pc: popped.pc + 3,
        ..popped
    })) by {
        reveal_with_fuel(Machine::run, 4);
    }
    lemma_run_split(start, code, env, 4, 7);
    lemma_run_split(kept, code, env, 4, 3);
}

/// The state in which the body of a binary operation runs: the upper cell
/// in the data register, the lower one addressed, the stack two cells lower.
pub open spec fn binary_operands(start: Machine) -> Machine {
    Machine {
        a: start.sp() - 2,
        d: start.top(),
        ram: start.ram.insert(0, start.sp() - 1).insert(0, start.sp() - 2),
        pc: start.pc + 8,
    }
}

/// `binary_input` brings the machine to `binary_operands`.
pub proof fn lemma_binary_operands(
    name: Seq<char>,
    body: Seq<Line>,
    code: Seq<Line>,
    env: Map<Seq<char>, int>,
    start: Machine,
)
    requires
        stands_at(code, start.pc, templates::binary_input(name, body)),
        start.stack_holds(2),
    ensures
        start.run(code, env, 8) == binary_operands(start),
        stands_at(code, start.pc + 8, body),
        stands_at(code, start.pc + 8 + body.len(), templates::final_push()),
{
    let comment = seq![Line::Comment(name)];
    let first = templates::first_pop();
    let second = templates::second_pop();
    lemma_stands_at_parts(code, start.pc, comment + first + second + body, templates::final_push());
    lemma_stands_at_parts(code, start.pc, comment + first + second, body);
    lemma_stands_at_parts(code, start.pc, comment + first, second);
    lemma_stands_at_parts(code, start.pc, comment, first);
    assert(code[start.pc] == comment[0]);
    lemma_pass(code, env, start);
    let passed = start.run(code, env, 1);
    lemma_first_pop(code, env, passed);
    let popped = passed.run(code, env, 4);
    lemma_second_pop(code, env, popped);
    lemma_run_split(start, code, env, 1, 7);
    lemma_run_split(passed, code, env, 4, 3);
}

/// The state in which the body of a unary operation runs: the top cell in
/// the data register, the stack one cell lower.
pub open spec fn unary_operand(start: Machine) -> Machine {
    Machine {
        a: start.sp() - 1,
        d: start.top(),
        ram: start.ram.insert(0, start.sp() - 1),
        pc: start.pc + 5,
    }
}

/// `unary_input` brings the machine to `unary_operand`.
pub proof fn lemma_unary_operand(
    name: Seq<char>,
    body: Seq<Line>,
    code: Seq<Line>,
    env: Map<Seq<char>, int>,
    start: Machine,
)
    requires
        stands_at(code, start.pc, templates::unary_input(name, body)),
        start.stack_holds(1),
    ensures
        start.run(code, env, 5) == unary_operand(start),
        stands_at(code, start.pc + 5, body),
        stands_at(code, start.pc + 5 + body.len(), templates::final_push()),
{
    let comment = seq![Line::Comment(name)];
    let first = templates::first_pop();
    lemma_stands_at_parts(code, start.pc, comment + first + body, templates::final_push());
    lemma_stands_at_parts(code, start.pc, comment + first, body);
    lemma_stands_at_parts(code, start.pc, comment, first);
    assert(code[start.pc] == comment[0]);
    lemma_pass(code, env, start);
    let passed = start.run(code, env, 1);
    lemma_first_pop(code, env, passed);
    lemma_run_split(start, code, env, 1, 4);
}

/// One assignment to the data register.
pub proof fn lemma_assign_d(comp: Comp, code: Seq<Line>, env: Map<Seq<char>, int>, start: Machine)
    requires
        stands_at(code, start.pc, seq![Line::Assign(Dest::D, comp)]),
    ensures
        start.run(code, env, 1) == (Machine { d: start.value(comp), pc: start.pc + 1, ..start }),
{
    assert(code[start.pc] == seq![Line::Assign(Dest::D, comp)][0]);
    reveal_with_fuel(Machine::run, 2);
}

/// How many steps the body of a comparison takes.
pub open spec fn comparison_body_steps(holds: bool) -> nat {
    if holds {
        6
    } else {
        7
    }
}

/// The body of a comparison leaves all ones in the data register where the
/// difference of the addressed cell and the data register meets the jump
/// condition, all zeros where it does not; either way it ends behind
/// itself.
#[verifier::rlimit(40)]
pub proof fn lemma_comparison_body(
    prefix: Seq<char>,
    index: nat,
    jump: Jump,
    code: Seq<Line>,
    env: Map<Seq<char>, int>,
    start: Machine,
)
    requires
        stands_at(code, start.pc, templates::comparison(prefix, index, jump)),
        crate::machine::places_labels(env, code),
    ensures
        ({
            let holds = crate::machine::jump_taken(jump, wrap(start.m() - start.d));
            start.run(code, env, comparison_body_steps(holds)) == (Machine {
                a: if holds {
                    start.pc + 6
                } else {
                    start.pc + 8
                },
                d: if holds {
                    -1int
                } else {
                    0int
                },
                pc: start.pc + 9,
                ..start
            })
        }),
{
    let body = templates::comparison(prefix, index, jump);
    assert(code[start.pc + 6] == body[6]);
    assert(code[start.pc + 8] == body[8]);
    reveal_with_fuel(Machine::run, 8);
}

/// `push_zero` puts a zero on top of the stack.
pub proof fn lemma_push_zero(code: Seq<Line>, env: Map<Seq<char>, int>, start: Machine)
    requires
        stands_at(code, start.pc, templates::push_zero()),
        start.stack_holds(0),
        start.sp() < 32767,
    ensures
        start.run(code, env, 5) == (Machine {
            a: 0,
            d: start.d,
            ram: start.ram.insert(start.sp(), 0).insert(0, start.sp() + 1),
            pc: start.pc + 5,
        }),
{
    lemma_predefined();
    reveal_with_fuel(Machine::run, 6);
}

/// With the frame's address in `R13`, `recover_segment` copies the cell
/// `offset` below the frame into the register.
#[verifier::rlimit(40)]
pub proof fn lemma_recover_segment(
    register: Seq<char>,
    offset: nat,
    code: Seq<Line>,
    env: Map<Seq<char>, int>,
    start: Machine,
)
    requires
        stands_at(code, start.pc, templates::recover_segment(register, offset)),
    ensures
        ({
            let cell = wrap(start.ram[13] - offset);
            start.run(code, env, 8) == (Machine {
                a: resolve(env, register),
                d: start.ram[cell],
                ram: start.ram.insert(resolve(env, register), start.ram[cell]),
                pc: start.pc + 8,
            })
        }),
{
    lemma_predefined();
    reveal_with_fuel(Machine::run, 9);
}

} // verus!
