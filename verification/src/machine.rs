//! The target machine, as far as the generated code uses it: a data
//! register, an address register, a memory of 16-bit words and a position in
//! the code. Its steps give the generated blocks their meaning.
//!
//! The model runs lines, not encoded instructions. A position counts every
//! line, comments and label declarations included, and these only pass; the
//! symbol environment gives a label the position of its declaration. An
//! assembler that drops those lines and numbers the instructions alone
//! renumbers the positions and changes nothing that an instruction computes.
//! Numbers are loaded as they are written, and every computed value is a
//! 16-bit two's-complement word.

use vstd::prelude::*;
use crate::assembly::{Comp, Dest, Jump, Line, Operand};

verus! {

/// The 16-bit two's-complement word that an integer reduces to.
pub open spec fn wrap(x: int) -> int {
    (x + 32768) % 65536 - 32768
}

/// Whether an integer is a 16-bit two's-complement word.
pub open spec fn is_word(x: int) -> bool {
    -32768 <= x <= 32767
}

/// The bits of a word, as an unsigned number.
pub open spec fn bits(x: int) -> u16 {
    (x % 65536) as u16
}

/// The bitwise conjunction of two words.
pub open spec fn word_and(x: int, y: int) -> int {
    wrap((bits(x) & bits(y)) as int)
}

/// The bitwise disjunction of two words.
pub open spec fn word_or(x: int, y: int) -> int {
    wrap((bits(x) | bits(y)) as int)
}

/// The bitwise complement of a word.
pub open spec fn word_not(x: int) -> int {
    wrap(-x - 1)
}

/// A state of the machine. `pc` is the position of the next line in the
/// code that runs; memory cells hold words and are addressed by numbers.
pub struct Machine {
    pub a: int,
    pub d: int,
    pub ram: Map<int, int>,
    pub pc: int,
}

/// The address of a symbol that the machine defines itself.
pub open spec fn predefined(name: Seq<char>) -> Option<int> {
    if name == "SP"@ {
        Some(0)
    } else if name == "LCL"@ {
        Some(1)
    } else if name == "ARG"@ {
        Some(2)
    } else if name == "THIS"@ {
        Some(3)
    } else if name == "THAT"@ {
        Some(4)
    } else if name == "R13"@ {
        Some(13)
    } else if name == "R14"@ {
        Some(14)
    } else {
        None
    }
}

/// What a symbol stands for: its own address if the machine defines it, else
/// what `env` gives it (the address of a variable, the position of a label).
pub open spec fn resolve(env: Map<Seq<char>, int>, name: Seq<char>) -> int {
    match predefined(name) {
        Some(address) => address,
        None => env[name],
    }
}

impl Machine {
    /// The cell that the address register points at.
    pub open spec fn m(self) -> int {
        self.ram[self.a]
    }

    /// The stack pointer: the address of the first free cell above the stack.
    pub open spec fn sp(self) -> int {
        self.ram[0]
    }

    /// The base address of the `local` segment.
    pub open spec fn lcl(self) -> int {
        self.ram[1]
    }

    /// The base address of the `argument` segment.
    pub open spec fn arg(self) -> int {
        self.ram[2]
    }

    /// The base address of the `this` segment.
    pub open spec fn this(self) -> int {
        self.ram[3]
    }

    /// The base address of the `that` segment.
    pub open spec fn that(self) -> int {
        self.ram[4]
    }

    /// The topmost cell of the stack.
    pub open spec fn top(self) -> int {
        self.ram[self.sp() - 1]
    }

    /// Whether the stack holds at least `cells` cells above its base, with
    /// its pointer still a valid address.
    pub open spec fn stack_holds(self, cells: int) -> bool {
        256 + cells <= self.sp() <= 32767
    }

    /// The value that a computation yields in this state.
    pub open spec fn value(self, comp: Comp) -> int {
        match comp {
            Comp::Zero => 0,
            Comp::MinusOne => -1,
            Comp::D => self.d,
            Comp::A => self.a,
            Comp::M => self.m(),
            Comp::NotD => word_not(self.d),
            Comp::NegD => wrap(-self.d),
            Comp::DPlusOne => wrap(self.d + 1),
            Comp::MPlusOne => wrap(self.m() + 1),
            Comp::MMinusOne => wrap(self.m() - 1),
            Comp::DPlusA => wrap(self.d + self.a),
            Comp::DPlusM => wrap(self.d + self.m()),
            Comp::DMinusA => wrap(self.d - self.a),
            Comp::MMinusD => wrap(self.m() - self.d),
            Comp::DAndM => word_and(self.d, self.m()),
            Comp::DOrM => word_or(self.d, self.m()),
        }
    }

    /// This state with `value` stored in `dest`.
    pub open spec fn store(self, dest: Dest, value: int) -> Machine {
        match dest {
            Dest::A => Machine { a: value, ..self },
            Dest::D => Machine { d: value, ..self },
            Dest::M => Machine { ram: self.ram.insert(self.a, value), ..self },
        }
    }

    /// The state after the line at `pc`. Comments and label declarations
    /// only pass; a branch whose condition holds continues at the position
    /// that the address register names.
    pub open spec fn step(self, code: Seq<Line>, env: Map<Seq<char>, int>) -> Machine {
        let next = Machine { pc: self.pc + 1, ..self };
        match code[self.pc] {
            Line::Comment(_) => next,
            Line::Label(_) => next,
            Line::Address(Operand::Number(n)) => Machine { a: n as int, ..next },
            Line::Address(Operand::Symbol(name)) => Machine { a: resolve(env, name), ..next },
            Line::Assign(dest, comp) => next.store(dest, self.value(comp)),
            Line::Branch(comp, jump) => if jump_taken(jump, self.value(comp)) {
                Machine { pc: self.a, ..self }
            } else {
                next
            },
        }
    }

    /// The state after `steps` steps.
    pub open spec fn run(self, code: Seq<Line>, env: Map<Seq<char>, int>, steps: nat) -> Machine
        decreases steps,
    {
        if steps == 0 {
            self
        } else {
            self.step(code, env).run(code, env, (steps - 1) as nat)
        }
    }
}

/// Whether the lines of `block` stand in `code` from `position` on.
pub open spec fn stands_at(code: Seq<Line>, position: int, block: Seq<Line>) -> bool {
    &&& 0 <= position
    &&& position + block.len() <= code.len()
    &&& forall|i: int|
        position <= i < position + block.len() ==> #[trigger] code[i] == block[i - position]
}

/// Whether `env` gives every label that `code` declares its position.
pub open spec fn places_labels(env: Map<Seq<char>, int>, code: Seq<Line>) -> bool {
    forall|i: int|
        0 <= i < code.len() ==> (#[trigger] code[i] matches Line::Label(name) ==> resolve(
            env,
            name,
        ) == i)
}

/// Whether two memories agree on every cell outside `cells`.
pub open spec fn same_except(before: Map<int, int>, after: Map<int, int>, cells: Set<int>) -> bool {
    forall|k: int| !cells.contains(k) ==> #[trigger] after[k] == before[k]
}

/// Whether a jump condition holds of a value.
pub open spec fn jump_taken(jump: Jump, value: int) -> bool {
    match jump {
        Jump::Jgt => value > 0,
        Jump::Jeq => value == 0,
        Jump::Jlt => value < 0,
        Jump::Jne => value != 0,
        Jump::Jmp => true,
    }
}

} // verus!
