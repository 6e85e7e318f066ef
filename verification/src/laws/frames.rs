//! What the blocks of the calling convention do on the machine: `function`,
//! `call`, `return` and the bootstrap.

use vstd::prelude::*;
use crate::assembly::{Comp, Dest, Line};
use crate::execution::{
    lemma_final_push, lemma_first_pop, lemma_pass, lemma_predefined, lemma_push_named,
    lemma_push_zero, lemma_recover_segment, lemma_run_split, lemma_stands_at_parts,
};
use crate::machine::{resolve, same_except, stands_at, Machine};
use crate::templates;

verus! {

/// The memory after a call has saved its frame: the return address and the
/// four base registers stand on the stack, in this order.
pub open spec fn saved_frame(start: Machine, return_address: int) -> Map<int, int> {
    let sp = start.sp();
    start.ram.insert(sp, return_address).insert(0, sp + 1).insert(sp + 1, start.lcl()).insert(
        0,
        sp + 2,
    ).insert(sp + 2, start.arg()).insert(0, sp + 3).insert(sp + 3, start.this()).insert(
        0,
        sp + 4,
    ).insert(sp + 4, start.that()).insert(0, sp + 5)
}

proof fn lemma_save_frame(
    landing: Seq<char>,
    code: Seq<Line>,
    env: Map<Seq<char>, int>,
    start: Machine,
)
    requires
        stands_at(code, start.pc, templates::save_frame(landing)),
        start.stack_holds(0),
        start.sp() + 5 <= 32767,
    ensures
        start.run(code, env, 35) == (Machine {
            a: 0,
            d: start.that(),
            ram: saved_frame(start, resolve(env, landing)),
            pc: start.pc + 35,
        }),
{
    lemma_predefined();
    let load = seq![templates::symbol(landing), Line::Assign(Dest::D, Comp::A)];
    let push = templates::final_push();
    let lcl = templates::push_segment("LCL"@);
    let arg = templates::push_segment("ARG"@);
    let this = templates::push_segment("THIS"@);
    let that = templates::push_segment("THAT"@);
    lemma_stands_at_parts(code, start.pc, load + push + lcl + arg + this, that);
    lemma_stands_at_parts(code, start.pc, load + push + lcl + arg, this);
    lemma_stands_at_parts(code, start.pc, load + push + lcl, arg);
    lemma_stands_at_parts(code, start.pc, load + push, lcl);
    lemma_stands_at_parts(code, start.pc, load, push);
    let loaded = start.run(code, env, 2);
    assert(loaded == (Machine {
        a: resolve(env, landing),
        d: resolve(env, landing),
        pc: start.pc + 2,
        ..start
    })) by {
        assert(code[start.pc] == load[0]);
        assert(code[start.pc + 1] == load[1]);
        reveal_with_fuel(Machine::run, 3);
    }
    lemma_final_push(code, env, loaded);
    let m1 = loaded.run(code, env, 5);
    lemma_push_named("LCL"@, code, env, m1);
    let m2 = m1.run(code, env, 7);
    lemma_push_named("ARG"@, code, env, m2);
    let m3 = m2.run(code, env, 7);
    lemma_push_named("THIS"@, code, env, m3);
    let m4 = m3.run(code, env, 7);
    lemma_push_named("THAT"@, code, env, m4);
    lemma_run_split(start, code, env, 2, 33);
    lemma_run_split(loaded, code, env, 5, 28);
    lemma_run_split(m1, code, env, 7, 21);
    lemma_run_split(m2, code, env, 7, 14);
    lemma_run_split(m3, code, env, 7, 7);
}

#[verifier::rlimit(40)]
proof fn lemma_enter(
    name: Seq<char>,
    nvars: nat,
    landing: Seq<char>,
    code: Seq<Line>,
    env: Map<Seq<char>, int>,
    start: Machine,
)
    requires
        stands_at(code, start.pc, templates::enter(name, nvars, landing)),
        start.stack_holds(5 + nvars as int),
    ensures
        start.run(code, env, 14) == (Machine {
            a: resolve(env, name),
            d: start.sp(),
            ram: start.ram.insert(2, start.sp() - 5 - nvars).insert(1, start.sp()),
            pc: resolve(env, name),
        }),
{
    lemma_predefined();
    reveal_with_fuel(Machine::run, 15);
}

/// How many steps a call takes up to its jump.
pub open spec fn call_steps() -> nat {
    50
}

/// The state in which the called function starts.
pub open spec fn after_call(
    name: Seq<char>,
    nvars: nat,
    landing: Seq<char>,
    env: Map<Seq<char>, int>,
    start: Machine,
) -> Machine {
    Machine {
        a: resolve(env, name),
        d: start.sp() + 5,
        ram: saved_frame(start, resolve(env, landing)).insert(2, start.sp() - nvars).insert(
            1,
            start.sp() + 5,
        ),
        pc: resolve(env, name),
    }
}

/// Whether `start` is about to run `call name nvars` with its arguments on
/// the stack and room for the frame.
pub open spec fn call_ready(
    name: Seq<char>,
    nvars: nat,
    landing: Seq<char>,
    code: Seq<Line>,
    start: Machine,
) -> bool {
    &&& stands_at(code, start.pc, templates::call(name, nvars, landing))
    &&& start.stack_holds(nvars as int)
    &&& start.sp() + 5 <= 32767
}

proof fn lemma_call_state(
    name: Seq<char>,
    nvars: nat,
    landing: Seq<char>,
    code: Seq<Line>,
    env: Map<Seq<char>, int>,
    start: Machine,
)
    requires
        call_ready(name, nvars, landing, code, start),
    ensures
        start.run(code, env, call_steps()) == after_call(name, nvars, landing, env, start),
{
    let comment = seq![Line::Comment(templates::name_and_count("call "@, name, nvars))];
    lemma_stands_at_parts(code, start.pc, comment, templates::call_protocol(name, nvars, landing));
    lemma_stands_at_parts(
        code,
        start.pc + 1,
        templates::save_frame(landing),
        templates::enter(name, nvars, landing),
    );
    assert(code[start.pc] == comment[0]);
    lemma_pass(code, env, start);
    let passed = start.run(code, env, 1);
    lemma_save_frame(landing, code, env, passed);
    let saved = passed.run(code, env, 35);
    assert(templates::save_frame(landing).len() == 35);
    lemma_enter(name, nvars, landing, code, env, saved);
    lemma_run_split(start, code, env, 1, 49);
    lemma_run_split(passed, code, env, 35, 14);
}

/// `call name nvars` saves the return address and the caller's `LCL`,
/// `ARG`, `THIS` and `THAT` on the stack, points `ARG` at the first of the
/// `nvars` arguments and `LCL` at the new stack top, and continues at the
/// function. Nothing else changes.
pub proof fn law_call(
    name: Seq<char>,
    nvars: nat,
    landing: Seq<char>,
    code: Seq<Line>,
    env: Map<Seq<char>, int>,
    start: Machine,
)
    requires
        call_ready(name, nvars, landing, code, start),
    ensures
        ({
            let sp = start.sp();
            let end = start.run(code, env, call_steps());
            &&& end.pc == resolve(env, name)
            &&& end.sp() == sp + 5
            &&& end.lcl() == sp + 5
            &&& end.arg() == sp - nvars
            &&& end.this() == start.this()
            &&& end.that() == start.that()
            &&& end.ram[sp] == resolve(env, landing)
            &&& end.ram[sp + 1] == start.lcl()
            &&& end.ram[sp + 2] == start.arg()
            &&& end.ram[sp + 3] == start.this()
            &&& end.ram[sp + 4] == start.that()
            &&& same_except(start.ram, end.ram, set![0, 1, 2, sp, sp + 1, sp + 2, sp + 3, sp + 4])
        }),
{
    lemma_call_state(name, nvars, landing, code, env, start);
}

#[verifier::rlimit(40)]
proof fn lemma_keep_frame(code: Seq<Line>, env: Map<Seq<char>, int>, start: Machine)
    requires
        stands_at(code, start.pc, templates::keep_frame()),
        256 + 5 <= start.lcl() <= 32767,
    ensures
        start.run(code, env, 10) == (Machine {
            a: 14,
            d: start.ram[start.lcl() - 5],
            ram: start.ram.insert(13, start.lcl()).insert(14, start.ram[start.lcl() - 5]),
            pc: start.pc + 10,
        }),
{
    lemma_predefined();
    reveal_with_fuel(Machine::run, 11);
}

#[verifier::rlimit(40)]
proof fn lemma_hand_over(code: Seq<Line>, env: Map<Seq<char>, int>, start: Machine)
    requires
        stands_at(code, start.pc, templates::hand_over()),
        256 <= start.arg() < 32767,
    ensures
        start.run(code, env, 8) == (Machine {
            a: 0,
            d: start.arg() + 1,
            ram: start.ram.insert(start.arg(), start.d).insert(0, start.arg() + 1),
            pc: start.pc + 8,
        }),
{
    lemma_predefined();
    reveal_with_fuel(Machine::run, 9);
}

proof fn lemma_restore_registers(code: Seq<Line>, env: Map<Seq<char>, int>, start: Machine)
    requires
        stands_at(code, start.pc, templates::restore_registers()),
        256 + 5 <= start.ram[13] <= 32767,
    ensures
        ({
            let frame = start.ram[13];
            start.run(code, env, 32) == (Machine {
                a: 1,
                d: start.ram[frame - 4],
                ram: start.ram.insert(4, start.ram[frame - 1]).insert(3, start.ram[frame - 2]).insert(
                    2,
                    start.ram[frame - 3],
                ).insert(1, start.ram[frame - 4]),
                pc: start.pc + 32,
            })
        }),
{
    lemma_predefined();
    let that = templates::recover_segment("THAT"@, 1);
    let this = templates::recover_segment("THIS"@, 2);
    let arg = templates::recover_segment("ARG"@, 3);
    let lcl = templates::recover_segment("LCL"@, 4);
    lemma_stands_at_parts(code, start.pc, that + this + arg, lcl);
    lemma_stands_at_parts(code, start.pc, that + this, arg);
    lemma_stands_at_parts(code, start.pc, that, this);
    lemma_recover_segment("THAT"@, 1, code, env, start);
    let m1 = start.run(code, env, 8);
    lemma_recover_segment("THIS"@, 2, code, env, m1);
    let m2 = m1.run(code, env, 8);
    lemma_recover_segment("ARG"@, 3, code, env, m2);
    let m3 = m2.run(code, env, 8);
    lemma_recover_segment("LCL"@, 4, code, env, m3);
    lemma_run_split(start, code, env, 8, 24);
    lemma_run_split(m1, code, env, 8, 16);
    lemma_run_split(m2, code, env, 8, 8);
}

proof fn lemma_jump_back(code: Seq<Line>, env: Map<Seq<char>, int>, start: Machine)
    requires
        stands_at(code, start.pc, templates::jump_back()),
    ensures
        start.run(code, env, 3) == (Machine { a: start.ram[14], pc: start.ram[14], ..start }),
{
    lemma_predefined();
    reveal_with_fuel(Machine::run, 4);
}

/// How many steps a return takes.
pub open spec fn return_steps() -> nat {
    58
}

/// Whether `start` is about to run `return` in a well-formed frame: `LCL`
/// points at the frame, whose five cells lie above the cell that `ARG`
/// points at, and the stack holds the result.
pub open spec fn return_ready(code: Seq<Line>, start: Machine) -> bool {
    &&& stands_at(code, start.pc, templates::return_block())
    &&& start.stack_holds(1)
    &&& 256 <= start.arg()
    &&& start.arg() + 5 <= start.lcl() <= 32767
}

/// The state behind `return`.
pub open spec fn after_return(start: Machine) -> Machine {
    let frame = start.lcl();
    let back = start.ram[frame - 5];
    let kept = start.ram.insert(13, frame).insert(14, back).insert(0, start.sp() - 1);
    let cut = kept.insert(start.arg(), start.top()).insert(0, start.arg() + 1);
    Machine {
        a: back,
        d: start.ram[frame - 4],
        ram: cut.insert(4, start.ram[frame - 1]).insert(3, start.ram[frame - 2]).insert(
            2,
            start.ram[frame - 3],
        ).insert(1, start.ram[frame - 4]),
        pc: back,
    }
}

proof fn lemma_return_state(code: Seq<Line>, env: Map<Seq<char>, int>, start: Machine)
    requires
        return_ready(code, start),
    ensures
        start.run(code, env, return_steps()) == after_return(start),
{
    let comment = seq![Line::Comment("return"@)];
    let keep = templates::keep_frame();
    let pop = templates::first_pop();
    let hand = templates::hand_over();
    let restore = templates::restore_registers();
    let back = templates::jump_back();
    lemma_stands_at_parts(code, start.pc, comment + keep + pop + hand + restore, back);
    lemma_stands_at_parts(code, start.pc, comment + keep + pop + hand, restore);
    lemma_stands_at_parts(code, start.pc, comment + keep + pop, hand);
    lemma_stands_at_parts(code, start.pc, comment + keep, pop);
    lemma_stands_at_parts(code, start.pc, comment, keep);
    assert(restore.len() == 32);
    assert(code[start.pc] == comment[0]);
    lemma_pass(code, env, start);
    let m1 = start.run(code, env, 1);
    lemma_keep_frame(code, env, m1);
    let m2 = m1.run(code, env, 10);
    lemma_first_pop(code, env, m2);
    let m3 = m2.run(code, env, 4);
    lemma_hand_over(code, env, m3);
    let m4 = m3.run(code, env, 8);
    lemma_restore_registers(code, env, m4);
    let m5 = m4.run(code, env, 32);
    lemma_jump_back(code, env, m5);
    lemma_run_split(start, code, env, 1, 57);
    lemma_run_split(m1, code, env, 10, 47);
    lemma_run_split(m2, code, env, 4, 43);
    lemma_run_split(m3, code, env, 8, 35);
    lemma_run_split(m4, code, env, 32, 3);
}

/// `return` hands the top of the stack over at the cell that `ARG` points
/// at, cuts the stack back to just above it, restores `THAT`, `THIS`, `ARG`
/// and `LCL` from the frame and continues at the return address kept five
/// cells below the frame. Beyond these, only the scratch registers change.
pub proof fn law_return(code: Seq<Line>, env: Map<Seq<char>, int>, start: Machine)
    requires
        return_ready(code, start),
    ensures
        ({
            let frame = start.lcl();
            let end = start.run(code, env, return_steps());
            &&& end.pc == start.ram[frame - 5]
            &&& end.sp() == start.arg() + 1
            &&& end.top() == start.top()
            &&& end.that() == start.ram[frame - 1]
            &&& end.this() == start.ram[frame - 2]
            &&& end.arg() == start.ram[frame - 3]
            &&& end.lcl() == start.ram[frame - 4]
            &&& same_except(start.ram, end.ram, set![0, 1, 2, 3, 4, 13, 14, start.arg()])
        }),
{
    lemma_return_state(code, env, start);
}

/// Whether `back` is a state in which a function called in `called` may
/// return: its `LCL` and `ARG` are those it was called with, the five cells
/// of its frame are as the call left them, and a result is on the stack.
pub open spec fn returns_from(called: Machine, back: Machine) -> bool {
    let frame = called.lcl();
    &&& back.lcl() == frame
    &&& back.arg() == called.arg()
    &&& forall|cell: int|
        frame - 5 <= cell < frame ==> #[trigger] back.ram[cell] == called.ram[cell]
    &&& back.stack_holds(1)
}

/// A call and the matching return, whatever the function does in between:
/// the caller goes on at the call's landing point with its `LCL`, `ARG`,
/// `THIS` and `THAT` exactly as before the call, and with the function's
/// result in place of the `nvars` arguments, so that its stack is
/// `nvars - 1` cells lower than before the call.
pub proof fn law_call_then_return(
    name: Seq<char>,
    nvars: nat,
    landing: Seq<char>,
    code: Seq<Line>,
    env: Map<Seq<char>, int>,
    start: Machine,
    back: Machine,
)
    requires
        call_ready(name, nvars, landing, code, start),
        returns_from(start.run(code, env, call_steps()), back),
        stands_at(code, back.pc, templates::return_block()),
    ensures
        ({
            let end = back.run(code, env, return_steps());
            &&& end.pc == resolve(env, landing)
            &&& end.sp() == start.sp() - nvars + 1
            &&& end.top() == back.top()
            &&& end.lcl() == start.lcl()
            &&& end.arg() == start.arg()
            &&& end.this() == start.this()
            &&& end.that() == start.that()
        }),
{
    lemma_call_state(name, nvars, landing, code, env, start);
    let called = after_call(name, nvars, landing, env, start);
    let frame = called.lcl();
    assert(back.ram[frame - 1] == called.ram[frame - 1]);
    assert(back.ram[frame - 2] == called.ram[frame - 2]);
    assert(back.ram[frame - 3] == called.ram[frame - 3]);
    assert(back.ram[frame - 4] == called.ram[frame - 4]);
    assert(back.ram[frame - 5] == called.ram[frame - 5]);
    lemma_return_state(code, env, back);
}

/// The stack pointer and the `cells` cells from `from` on.
pub open spec fn pointer_and_cells(from: int, cells: nat) -> Set<int> {
    Set::new(|k: int| k == 0 || from <= k < from + cells)
}

proof fn lemma_push_nvars_len(nvars: nat)
    ensures
        templates::push_nvars(nvars).len() == 5 * nvars,
    decreases nvars,
{
    if nvars > 0 {
        lemma_push_nvars_len((nvars - 1) as nat);
    }
}

proof fn lemma_push_nvars(nvars: nat, code: Seq<Line>, env: Map<Seq<char>, int>, start: Machine)
    requires
        stands_at(code, start.pc, templates::push_nvars(nvars)),
        start.stack_holds(0),
        start.sp() + nvars <= 32767,
    ensures
        ({
            let end = start.run(code, env, 5 * nvars);
            &&& end.pc == start.pc + 5 * nvars
            &&& end.sp() == start.sp() + nvars
            &&& forall|k: int| start.sp() <= k < start.sp() + nvars ==> #[trigger] end.ram[k] == 0
            &&& same_except(start.ram, end.ram, pointer_and_cells(start.sp(), nvars))
        }),
    decreases nvars,
{
    if nvars > 0 {
        let before = (nvars - 1) as nat;
        lemma_push_nvars_len(before);
        lemma_stands_at_parts(
            code,
            start.pc,
            templates::push_nvars(before),
            templates::push_zero(),
        );
        lemma_push_nvars(before, code, env, start);
        let middle = start.run(code, env, 5 * before);
        lemma_push_zero(code, env, middle);
        lemma_run_split(start, code, env, 5 * before, 5);
        let end = start.run(code, env, 5 * nvars);
        assert forall|k: int| !pointer_and_cells(start.sp(), nvars).contains(k) implies #[trigger] end.ram[k]
            == start.ram[k] by {
            assert(!pointer_and_cells(start.sp(), before).contains(k));
            assert(middle.ram[k] == start.ram[k]);
        }
    }
}

/// How many steps `function name nvars` takes.
pub open spec fn function_steps(nvars: nat) -> nat {
    2 + 5 * nvars
}

/// `function name nvars` pushes `nvars` cells that hold zero, the
/// function's local variables, and touches nothing else.
pub proof fn law_function(
    name: Seq<char>,
    nvars: nat,
    code: Seq<Line>,
    env: Map<Seq<char>, int>,
    start: Machine,
)
    requires
        stands_at(code, start.pc, templates::function(name, nvars)),
        start.stack_holds(0),
        start.sp() + nvars <= 32767,
    ensures
        ({
            let end = start.run(code, env, function_steps(nvars));
            &&& end.pc == start.pc + templates::function(name, nvars).len()
            &&& end.sp() == start.sp() + nvars
            &&& forall|k: int| start.sp() <= k < start.sp() + nvars ==> #[trigger] end.ram[k] == 0
            &&& same_except(start.ram, end.ram, pointer_and_cells(start.sp(), nvars))
        }),
{
    let head = seq![
        Line::Comment(templates::name_and_count("function "@, name, nvars)),
        Line::Label(name),
    ];
    lemma_push_nvars_len(nvars);
    lemma_stands_at_parts(code, start.pc, head, templates::push_nvars(nvars));
    assert(code[start.pc] == head[0]);
    assert(code[start.pc + 1] == head[1]);
    lemma_pass(code, env, start);
    let m1 = start.run(code, env, 1);
    lemma_pass(code, env, m1);
    let m2 = m1.run(code, env, 1);
    lemma_push_nvars(nvars, code, env, m2);
    lemma_run_split(start, code, env, 1, 1 + 5 * nvars);
    lemma_run_split(m1, code, env, 1, 5 * nvars);
}

/// How many steps the bootstrap takes up to its jump.
pub open spec fn bootstrap_steps() -> nat {
    55
}

/// From any state, the bootstrap sets the stack pointer to the stack's
/// base, saves a frame there as a call without arguments does, and
/// continues at the entry point.
pub proof fn law_bootstrap(
    landing: Seq<char>,
    code: Seq<Line>,
    env: Map<Seq<char>, int>,
    start: Machine,
)
    requires
        stands_at(code, start.pc, templates::bootstrap(landing)),
    ensures
        ({
            let end = start.run(code, env, bootstrap_steps());
            &&& end.pc == resolve(env, templates::entry_point())
            &&& end.sp() == templates::stack_base() + 5
            &&& end.lcl() == templates::stack_base() + 5
            &&& end.arg() == templates::stack_base()
            &&& end.ram[templates::stack_base() as int] == resolve(env, landing)
        }),
{
    lemma_predefined();
    let head = seq![
        Line::Comment("bootstrap"@),
        templates::number(templates::stack_base()),
        Line::Assign(Dest::D, Comp::A),
        templates::symbol("SP"@),
        Line::Assign(Dest::M, Comp::D),
    ];
    lemma_stands_at_parts(
        code,
        start.pc,
        head,
        templates::call(templates::entry_point(), 0, landing),
    );
    let based = start.run(code, env, 5);
    let expected = Machine { a: 0, d: 256, ram: start.ram.insert(0, 256), pc: start.pc + 5 };
    assert(based == expected) by {
        assert(code[start.pc] == head[0]);
        assert(code[start.pc + 1] == head[1]);
        assert(code[start.pc + 2] == head[2]);
        assert(code[start.pc + 3] == head[3]);
        assert(code[start.pc + 4] == head[4]);
        reveal_with_fuel(Machine::run, 6);
    }
    lemma_call_state(templates::entry_point(), 0, landing, code, env, based);
    lemma_run_split(start, code, env, 5, 50);
}

} // verus!
