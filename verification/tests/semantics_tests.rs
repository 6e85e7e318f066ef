//! Runs the generated assembly on a small model of the target machine and
//! checks what it computes.

use std::collections::HashMap;
use vm_translator::translate::{translate_program, translate_source, SourceFile};

enum Instruction {
    Address(String),
    Compute { dest: String, comp: String, jump: String },
}

struct Computer {
    ram: Vec<i16>,
    a: i16,
    d: i16,
    pc: usize,
    rom: Vec<Instruction>,
    symbols: HashMap<String, i16>,
    next_variable: i16,
}

impl Computer {
    fn load(assembly: &str) -> Computer {
        let mut symbols: HashMap<String, i16> = HashMap::new();
        for (name, address) in
            [("SP", 0), ("LCL", 1), ("ARG", 2), ("THIS", 3), ("THAT", 4), ("SCREEN", 16384), ("KBD", 24576)]
        {
            symbols.insert(name.to_string(), address);
        }
        for register in 0..16 {
            symbols.insert(format!("R{}", register), register);
        }
        let mut rom = Vec::new();
        for raw in assembly.lines() {
            let line = raw.split("//").next().unwrap().trim();
            if line.is_empty() {
                continue;
            }
            if line.starts_with('(') {
                let name = &line[1..line.len() - 1];
                assert!(
                    symbols.insert(name.to_string(), rom.len() as i16).is_none(),
                    "label {} is declared twice",
                    name
                );
            } else if let Some(operand) = line.strip_prefix('@') {
                rom.push(Instruction::Address(operand.to_string()));
            } else {
                let (dest, rest) = match line.split_once('=') {
                    Some((dest, rest)) => (dest.to_string(), rest),
                    None => (String::new(), line),
                };
                let (comp, jump) = match rest.split_once(';') {
                    Some((comp, jump)) => (comp.to_string(), jump.to_string()),
                    None => (rest.to_string(), String::new()),
                };
                rom.push(Instruction::Compute { dest, comp, jump });
            }
        }
        Computer { ram: vec![0; 32768], a: 0, d: 0, pc: 0, rom, symbols, next_variable: 16 }
    }

    fn address_of(&mut self, operand: &str) -> i16 {
        if let Ok(number) = operand.parse::<i16>() {
            return number;
        }
        if let Some(address) = self.symbols.get(operand) {
            return *address;
        }
        let address = self.next_variable;
        self.next_variable += 1;
        self.symbols.insert(operand.to_string(), address);
        address
    }

    fn step(&mut self) {
        let (dest, comp, jump) = match &self.rom[self.pc] {
            Instruction::Address(operand) => {
                let operand = operand.clone();
                self.a = self.address_of(&operand);
                self.pc += 1;
                return;
            }
            Instruction::Compute { dest, comp, jump } => (dest.clone(), comp.clone(), jump.clone()),
        };
        let m = self.ram[self.a as u16 as usize & 0x7fff];
        let (a, d) = (self.a, self.d);
        let value: i16 = match comp.as_str() {
            "0" => 0,
            "-1" => -1,
            "D" => d,
            "A" => a,
            "M" => m,
            "!D" => !d,
            "-D" => d.wrapping_neg(),
            "D+1" => d.wrapping_add(1),
            "M+1" => m.wrapping_add(1),
            "M-1" => m.wrapping_sub(1),
            "D+A" => d.wrapping_add(a),
            "D+M" => d.wrapping_add(m),
            "D-A" => d.wrapping_sub(a),
            "M-D" => m.wrapping_sub(d),
            "D&M" => d & m,
            "D|M" => d | m,
            other => panic!("unknown computation {}", other),
        };
        let target = self.a as u16 as usize & 0x7fff;
        for register in dest.chars() {
            match register {
                'A' => self.a = value,
                'D' => self.d = value,
                'M' => self.ram[target] = value,
                other => panic!("unknown destination {}", other),
            }
        }
        let taken = match jump.as_str() {
            "" => false,
            "JGT" => value > 0,
            "JEQ" => value == 0,
            "JLT" => value < 0,
            "JNE" => value != 0,
            "JMP" => true,
            other => panic!("unknown jump {}", other),
        };
        if taken {
            self.pc = a as u16 as usize;
        } else {
            self.pc += 1;
        }
    }

    /// Runs until the code is left behind or `limit` steps have been made.
    fn run(&mut self, limit: usize) {
        let mut steps = 0;
        while self.pc < self.rom.len() && steps < limit {
            self.step();
            steps += 1;
        }
    }

    /// Runs until the next instruction is the one behind the label.
    fn run_to(&mut self, label: &str, limit: usize) {
        let target = self.symbols[label] as usize;
        let mut steps = 0;
        while self.pc != target && steps < limit {
            self.step();
            steps += 1;
        }
        assert_eq!(self.pc, target, "{} was not reached", label);
    }

    fn sp(&self) -> i16 {
        self.ram[0]
    }

    fn top(&self) -> i16 {
        self.ram[self.sp() as usize - 1]
    }
}

/// Runs the assembly of one unit from a machine whose stack is empty and
/// whose segments lie at fixed places.
fn run_unit(source: &str) -> Computer {
    let assembly = translate_source("Unit", source).unwrap();
    let mut computer = Computer::load(&assembly);
    computer.ram[0] = 256;
    computer.ram[1] = 300;
    computer.ram[2] = 400;
    computer.ram[3] = 3000;
    computer.ram[4] = 3010;
    computer.run(100_000);
    assert_eq!(computer.pc, computer.rom.len());
    computer
}

#[test]
fn test_sub_takes_the_upper_cell_from_the_lower() {
    let computer = run_unit("push constant 7\npush constant 2\nsub");
    assert_eq!(computer.sp(), 257);
    assert_eq!(computer.top(), 5);
}

#[test]
fn test_add_of_a_negative_number() {
    let computer = run_unit("push constant 3\nneg\npush constant 5\nadd");
    assert_eq!(computer.sp(), 257);
    assert_eq!(computer.top(), 2);
}

#[test]
fn test_arithmetic_wraps_at_sixteen_bits() {
    let computer = run_unit("push constant 32767\npush constant 1\nadd");
    assert_eq!(computer.top(), -32768);
    let computer = run_unit("push constant 0\npush constant 1\nsub");
    assert_eq!(computer.top(), -1);
    let computer = run_unit("push constant 32767\nneg\npush constant 2\nsub");
    assert_eq!(computer.top(), 32767);
}

#[test]
fn test_neg_and_not() {
    let computer = run_unit("push constant 5\nneg");
    assert_eq!((computer.sp(), computer.top()), (257, -5));
    let computer = run_unit("push constant 5\nnot");
    assert_eq!((computer.sp(), computer.top()), (257, -6));
    let computer = run_unit("push constant 0\nnot");
    assert_eq!(computer.top(), -1);
}

#[test]
fn test_and_and_or_work_bit_by_bit() {
    let computer = run_unit("push constant 12\npush constant 10\nand");
    assert_eq!((computer.sp(), computer.top()), (257, 8));
    let computer = run_unit("push constant 12\npush constant 10\nor");
    assert_eq!((computer.sp(), computer.top()), (257, 14));
}

#[test]
fn test_comparisons_yield_all_ones_or_all_zeros() {
    let cases: [(&str, i16, i16, i16); 9] = [
        ("eq", 7, 7, -1),
        ("eq", 7, 2, 0),
        ("eq", 2, 7, 0),
        ("gt", 7, 2, -1),
        ("gt", 2, 7, 0),
        ("gt", 7, 7, 0),
        ("lt", 2, 7, -1),
        ("lt", 7, 2, 0),
        ("lt", 7, 7, 0),
    ];
    for (op, x, y, expected) in cases {
        let source = format!("push constant {}\npush constant {}\n{}", x, y, op);
        let computer = run_unit(&source);
        assert_eq!(computer.sp(), 257, "{} {} {}", x, op, y);
        assert_eq!(computer.top(), expected, "{} {} {}", x, op, y);
    }
}

#[test]
fn test_several_comparisons_in_one_unit() {
    let source = "push constant 1\npush constant 1\neq\npush constant 1\npush constant 2\neq\n\
                  push constant 3\npush constant 2\ngt\npush constant 3\npush constant 2\nlt";
    let computer = run_unit(source);
    assert_eq!(computer.sp(), 260);
    assert_eq!(&computer.ram[256..260], &[-1, 0, -1, 0]);
}

#[test]
fn test_push_then_pop_leaves_stack_and_cell_as_they_were() {
    let cells: [(&str, i32, usize); 9] = [
        ("local", 2, 302),
        ("argument", 0, 400),
        ("this", 5, 3005),
        ("that", 9, 3019),
        ("temp", 0, 5),
        ("temp", 7, 12),
        ("pointer", 0, 3),
        ("pointer", 1, 4),
        ("static", 4, 16),
    ];
    for (segment, index, address) in cells {
        let source = format!("push {} {}\npop {} {}", segment, index, segment, index);
        let assembly = translate_source("Unit", &source).unwrap();
        let mut computer = Computer::load(&assembly);
        computer.ram[0] = 256;
        computer.ram[1] = 300;
        computer.ram[2] = 400;
        computer.ram[3] = 3000;
        computer.ram[4] = 3010;
        if address > 4 {
            computer.ram[address] = 1234;
        }
        let before = computer.ram.clone();
        computer.run(10_000);
        assert_eq!(computer.pc, computer.rom.len());
        assert_eq!(computer.sp(), 256, "{} {}", segment, index);
        assert_eq!(computer.ram[address], before[address], "{} {}", segment, index);
        for cell in 0..32768 {
            if cell != 13 && cell != 256 {
                assert_eq!(computer.ram[cell], before[cell], "{} {} at {}", segment, index, cell);
            }
        }
    }
}

#[test]
fn test_pop_stores_the_top_in_the_cell() {
    let computer = run_unit(
        "push constant 9\npop local 1\npush constant 8\npop argument 2\npush constant 7\npop this 3\n\
         push constant 6\npop that 4\npush constant 5\npop temp 6\npush constant 4\npop static 2",
    );
    assert_eq!(computer.sp(), 256);
    assert_eq!(computer.ram[301], 9);
    assert_eq!(computer.ram[402], 8);
    assert_eq!(computer.ram[3003], 7);
    assert_eq!(computer.ram[3014], 6);
    assert_eq!(computer.ram[11], 5);
    assert_eq!(computer.ram[16], 4);
}

#[test]
fn test_pointer_moves_the_this_and_that_segments() {
    let computer = run_unit(
        "push constant 2000\npop pointer 0\npush constant 2100\npop pointer 1\n\
         push constant 11\npop this 1\npush constant 22\npop that 2\npush pointer 0\npush pointer 1\nadd",
    );
    assert_eq!(computer.ram[3], 2000);
    assert_eq!(computer.ram[4], 2100);
    assert_eq!(computer.ram[2001], 11);
    assert_eq!(computer.ram[2102], 22);
    assert_eq!(computer.top(), 4100);
}

#[test]
fn test_static_cells_are_shared_within_a_unit() {
    let computer = run_unit("push constant 5\npop static 3\npush static 3\npush static 3\nadd");
    assert_eq!((computer.sp(), computer.top()), (257, 10));
}

#[test]
fn test_if_goto_and_goto_make_a_loop() {
    // Adds up 5 + 4 + 3 + 2 + 1 in local 0, counting down in local 1.
    let source = "push constant 0\npop local 0\npush constant 5\npop local 1\n\
                  label LOOP\npush local 1\nif-goto BODY\ngoto DONE\n\
                  label BODY\npush local 0\npush local 1\nadd\npop local 0\n\
                  push local 1\npush constant 1\nsub\npop local 1\ngoto LOOP\n\
                  label DONE\npush local 0";
    let computer = run_unit(source);
    assert_eq!((computer.sp(), computer.top()), (257, 15));
}

#[test]
fn test_function_makes_zeroed_locals() {
    let assembly = translate_source("Unit", "function Unit.f 3").unwrap();
    let mut computer = Computer::load(&assembly);
    computer.ram[0] = 256;
    for cell in 256..260 {
        computer.ram[cell] = 77;
    }
    computer.run(1000);
    assert_eq!(computer.sp(), 259);
    assert_eq!(&computer.ram[256..260], &[0, 0, 0, 77]);
}

fn unit(base_name: &str, text: &str) -> SourceFile {
    SourceFile { base_name: base_name.to_string(), text: text.to_string() }
}

#[test]
fn test_call_and_return_restore_the_caller() {
    let sys = "function Sys.init 0\n\
               push constant 3000\npop pointer 0\npush constant 4000\npop pointer 1\n\
               push constant 11\npush constant 3\npush constant 4\n\
               call Math.sum 2\n\
               label HALT\ngoto HALT";
    let math = "function Math.sum 2\n\
                push constant 9\npop pointer 0\npush constant 8\npop pointer 1\n\
                push argument 0\npop local 0\npush argument 1\npop local 1\n\
                push local 0\npush local 1\nadd\nreturn";
    let units = vec![unit("Sys", sys), unit("Math", math)];
    let assembly = translate_program("Program", true, &units).unwrap();
    let mut computer = Computer::load(&assembly);
    for cell in 0..5 {
        computer.ram[cell] = -1;
    }
    computer.run(100_000);
    // The bootstrap: stack at 256, a five-cell frame, then Sys.init.
    // Before the call the stack holds 11, 3 and 4: height 264; behind it the
    // result stands in place of the two arguments.
    assert_eq!(computer.sp(), 264 - 2 + 1);
    assert_eq!(computer.top(), 7);
    assert_eq!(computer.ram[261], 11);
    assert_eq!(computer.ram[1], 261);
    assert_eq!(computer.ram[2], 256);
    assert_eq!(computer.ram[3], 3000);
    assert_eq!(computer.ram[4], 4000);
}

#[test]
fn test_call_without_arguments() {
    let sys = "function Sys.init 1\ncall Lib.five 0\ncall Lib.five 0\nadd\npop local 0\n\
               label HALT\ngoto HALT";
    let lib = "function Lib.five 0\npush constant 5\nreturn";
    let units = vec![unit("Sys", sys), unit("Lib", lib)];
    let assembly = translate_program("Program", true, &units).unwrap();
    let mut computer = Computer::load(&assembly);
    computer.run(100_000);
    assert_eq!(computer.ram[1], 261);
    assert_eq!(computer.ram[2], 256);
    assert_eq!(computer.sp(), 262);
    assert_eq!(computer.ram[261], 10);
}

#[test]
fn test_recursive_calls() {
    // Sys.init computes Math.triangle(4) = 4 + 3 + 2 + 1.
    let sys = "function Sys.init 0\npush constant 4\ncall Math.triangle 1\nlabel HALT\ngoto HALT";
    let math = "function Math.triangle 0\n\
                push argument 0\nif-goto MORE\npush constant 0\nreturn\n\
                label MORE\n\
                push argument 0\npush argument 0\npush constant 1\nsub\ncall Math.triangle 1\nadd\nreturn";
    let units = vec![unit("Sys", sys), unit("Math", math)];
    let assembly = translate_program("Program", true, &units).unwrap();
    let mut computer = Computer::load(&assembly);
    computer.run(1_000_000);
    assert_eq!(computer.sp(), 262);
    assert_eq!(computer.top(), 10);
    assert_eq!(computer.ram[1], 261);
    assert_eq!(computer.ram[2], 256);
}

#[test]
fn test_same_label_in_two_functions() {
    let sys = "function Sys.init 0\ncall A.one 0\ncall B.two 0\nadd\nlabel END\ngoto END";
    let a = "function A.one 0\npush constant 1\nif-goto END\npush constant 100\nreturn\nlabel END\npush constant 1\nreturn";
    let b = "function B.two 0\npush constant 1\nif-goto END\npush constant 100\nreturn\nlabel END\npush constant 2\nreturn";
    let units = vec![unit("Sys", sys), unit("A", a), unit("B", b)];
    let assembly = translate_program("Program", true, &units).unwrap();
    assert!(assembly.contains("(Sys.init$END)"));
    assert!(assembly.contains("(A.one$END)"));
    assert!(assembly.contains("(B.two$END)"));
    let mut computer = Computer::load(&assembly);
    computer.run(100_000);
    assert_eq!(computer.top(), 3);
}

#[test]
fn test_statics_of_two_units_are_apart() {
    let sys = "function Sys.init 0\npush constant 1\npop static 0\ncall Other.set 0\npop temp 0\npush static 0\nlabel END\ngoto END";
    let other = "function Other.set 0\npush constant 2\npop static 0\npush static 0\nreturn";
    let units = vec![unit("Sys", sys), unit("Other", other)];
    let assembly = translate_program("Program", true, &units).unwrap();
    assert!(assembly.contains("@Sys.0"));
    assert!(assembly.contains("@Other.0"));
    let mut computer = Computer::load(&assembly);
    computer.run(100_000);
    assert_eq!(computer.top(), 1);
    assert_eq!(computer.ram[5], 2);
}

#[test]
fn test_call_builds_the_frame() {
    let source = "push constant 10\npush constant 20\npush constant 30\ncall Unit.f 2\n\
                  label HALT\ngoto HALT\nfunction Unit.f 2\nlabel HALT\ngoto HALT";
    let assembly = translate_source("Unit", source).unwrap();
    let mut computer = Computer::load(&assembly);
    computer.ram[0] = 256;
    computer.ram[1] = 1111;
    computer.ram[2] = 2222;
    computer.ram[3] = 3333;
    computer.ram[4] = 4444;
    computer.run_to("Unit.f", 10_000);
    // Before the call the stack pointer is 259; the frame takes five cells.
    let landing = computer.symbols["Unit$ret.1"];
    assert_eq!(&computer.ram[256..264], &[10, 20, 30, landing, 1111, 2222, 3333, 4444]);
    assert_eq!(computer.sp(), 264);
    assert_eq!(computer.ram[1], 264);
    assert_eq!(computer.ram[2], 259 - 2);
    assert_eq!(computer.ram[3], 3333);
    assert_eq!(computer.ram[4], 4444);
    computer.run_to("Unit.f$HALT", 10_000);
    assert_eq!(computer.sp(), 266);
    assert_eq!(&computer.ram[264..266], &[0, 0]);
}

#[test]
fn test_bootstrap_enters_the_entry_point() {
    let units = vec![unit("Sys", "function Sys.init 0\nlabel HALT\ngoto HALT")];
    let assembly = translate_program("Program", true, &units).unwrap();
    let mut computer = Computer::load(&assembly);
    computer.ram[0] = 9999;
    computer.run_to("Sys.init", 10_000);
    assert_eq!(computer.sp(), 261);
    assert_eq!(computer.ram[1], 261);
    assert_eq!(computer.ram[2], 256);
    assert_eq!(computer.ram[256], computer.symbols["Program$ret.1"]);
}
