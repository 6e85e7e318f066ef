use vm_translator::code_writer::CodeWriter;
use vm_translator::parser::Command;
use vm_translator::text::{is_whitespace, push_decimal};
use vm_translator::translate::{translate_program, translate_source, SourceFile};
use vm_translator::{CommandType, Parser, TranslateError};

#[test]
fn test_recognizer_given_push_constant() {
    let command = Command::new("push constant 17").unwrap();
    assert!(matches!(command.get_command_type(), CommandType::Push));
    assert_eq!(command.get_arg1(), "constant");
    assert_eq!(command.get_arg2(), Some(17));
}

#[test]
fn test_recognizer_given_bare_operator() {
    let command = Command::new("add").unwrap();
    assert!(matches!(command.get_command_type(), CommandType::Arithmetic));
    assert_eq!(command.get_arg1(), "add");
    assert_eq!(command.get_arg2(), None);
}

#[test]
fn test_recognizer_given_four_tokens() {
    assert_eq!(Command::new("foo bar baz qux").err(), Some(TranslateError::MalformedCommand));
}

#[test]
fn test_recognizer_given_no_token() {
    assert_eq!(Command::new("").err(), Some(TranslateError::MalformedCommand));
    assert_eq!(Command::new("   \t ").err(), Some(TranslateError::MalformedCommand));
}

#[test]
fn test_recognizer_given_each_shape() {
    let cases: [(&str, CommandType, &str, Option<i32>); 14] = [
        ("label", CommandType::Arithmetic, "label", None),
        ("goto", CommandType::Arithmetic, "goto", None),
        ("push local 2", CommandType::Push, "local", Some(2)),
        ("pop that 0", CommandType::Pop, "that", Some(0)),
        ("label LOOP", CommandType::Label, "LOOP", None),
        ("goto LOOP", CommandType::Goto, "LOOP", None),
        ("if-goto LOOP", CommandType::If, "LOOP", None),
        ("function Main.main 3", CommandType::Function, "Main.main", Some(3)),
        ("call Main.main 0", CommandType::Call, "Main.main", Some(0)),
        ("return", CommandType::Return, "", None),
        ("neg", CommandType::Arithmetic, "neg", None),
        ("push", CommandType::Arithmetic, "push", None),
        ("frobnicate", CommandType::Arithmetic, "frobnicate", None),
        ("  push \t constant   5  ", CommandType::Push, "constant", Some(5)),
    ];
    for (line, kind, arg1, arg2) in cases {
        let command = Command::new(line).unwrap();
        assert_eq!(*command.get_command_type(), kind, "{}", line);
        assert_eq!(command.get_arg1(), arg1, "{}", line);
        assert_eq!(command.get_arg2(), arg2, "{}", line);
    }
}

#[test]
fn test_recognizer_given_wrong_shapes() {
    for line in [
        "push constant",
        "pop local",
        "label A B",
        "goto A B",
        "if-goto A B",
        "label A 1",
        "function f",
        "call f",
        "return 1",
        "add 1",
        "add 1 2",
        "eq eq",
        "push constant 1 2",
    ] {
        assert_eq!(Command::new(line).err(), Some(TranslateError::MalformedCommand), "{}", line);
    }
}

#[test]
fn test_recognizer_given_numbers() {
    let cases: [(&str, Option<i32>); 14] = [
        ("0", Some(0)),
        ("007", Some(7)),
        ("+5", Some(5)),
        ("-0", Some(0)),
        ("2147483647", Some(2147483647)),
        ("2147483648", None),
        ("99999999999999999999", None),
        ("-1", None),
        ("-", None),
        ("+", None),
        ("1x", None),
        ("x1", None),
        ("1.5", None),
        ("١", None),
    ];
    for (token, expected) in cases {
        let command = Command::new(&format!("push constant {}", token)).unwrap();
        assert_eq!(command.get_arg2(), expected, "{}", token);
    }
}

#[test]
fn test_scanner_given_comments_and_blank_lines() {
    let mut parser = Parser::new(
        "// a comment\n\n   \t\n  push constant 1 // trailing\r\n\tadd// close\n//\n/\n",
    );
    let mut seen: Vec<String> = Vec::new();
    while parser.has_more_lines() {
        parser.advance().unwrap();
        seen.push(parser.arg1().to_string());
    }
    assert_eq!(seen, vec!["constant", "add", "/"]);
}

#[test]
fn test_scanner_keeps_the_order_of_lines() {
    let mut parser = Parser::new("label A\nlabel B\n// x\nlabel C\n\nlabel D");
    let mut seen = String::new();
    while parser.has_more_lines() {
        parser.advance().unwrap();
        seen.push_str(parser.arg1());
    }
    assert_eq!(seen, "ABCD");
}

#[test]
fn test_valid_text_of_single_lines() {
    assert_eq!(Parser::get_valid_text("  push local 2  // note"), "push local 2");
    assert_eq!(Parser::get_valid_text("// only a comment"), "");
    assert_eq!(Parser::get_valid_text("   \t  "), "");
    assert_eq!(Parser::get_valid_text("a / b"), "a / b");
    assert_eq!(Parser::get_valid_text("a /"), "a /");
    assert_eq!(Parser::get_valid_text("a///b"), "a");
    assert_eq!(Parser::get_valid_text("\u{3000}x\u{a0}"), "x");
    assert_eq!(Parser::get_valid_lines("a\n\n b //c\n//d\ne"), vec!["a", "b", "e"]);
}

#[test]
fn test_advance_given_malformed_line() {
    let mut parser = Parser::new("add\nfoo bar baz qux\nsub");
    parser.advance().unwrap();
    assert_eq!(parser.advance(), Err(TranslateError::MalformedCommand));
    assert!(parser.has_more_lines());
    assert_eq!(parser.arg1(), "add");
}

#[test]
fn test_whitespace_classes() {
    for c in [' ', '\t', '\n', '\r', '\u{b}', '\u{c}', '\u{85}', '\u{a0}', '\u{1680}', '\u{2000}',
        '\u{200a}', '\u{2028}', '\u{2029}', '\u{202f}', '\u{205f}', '\u{3000}']
    {
        assert!(is_whitespace(c), "{:?}", c);
        assert!(c.is_whitespace());
    }
    for c in ['a', '0', '/', '\u{8}', '\u{e}', '\u{200b}', '\u{feff}', '\u{180e}', '\u{2060}'] {
        assert!(!is_whitespace(c), "{:?}", c);
        assert!(!c.is_whitespace());
    }
    for code in 0..0x3100u32 {
        if let Some(c) = char::from_u32(code) {
            assert_eq!(is_whitespace(c), c.is_whitespace(), "{:x}", code);
        }
    }
}

#[test]
fn test_push_decimal() {
    for n in [0u64, 1, 9, 10, 11, 99, 100, 101, 256, 32767, 65535, 4294967295, 18446744073709551615] {
        let mut text = String::from("n=");
        push_decimal(&mut text, n);
        assert_eq!(text, format!("n={}", n));
    }
}

#[test]
fn test_translate_source_given_stack_commands() {
    let output = translate_source("Add", "// adds\npush constant 7\npush constant 8\nadd\n").unwrap();
    let expected = "// push constant 7\n  @7\n  D=A\n  @SP\n  A=M\n  M=D\n  @SP\n  M=M+1\n\
                    // push constant 8\n  @8\n  D=A\n  @SP\n  A=M\n  M=D\n  @SP\n  M=M+1\n\
                    // add\n  @SP\n  M=M-1\n  A=M\n  D=M\n  @SP\n  M=M-1\n  A=M\n  D=D+M\n  @SP\n  A=M\n  M=D\n  @SP\n  M=M+1\n";
    assert_eq!(output, expected);
}

#[test]
fn test_translate_source_is_what_the_writer_writes() {
    let source = "function Main.f 1\npush argument 0\npush static 1\nlt\nif-goto A\ngoto B\nlabel A\n\
                  call Main.g 1\npop local 0\nlabel B\neq\nnot\nreturn";
    let mut writer = CodeWriter::with_base_name("Main");
    writer.write_function("Main.f", 1);
    writer.write_push_pop("push", "argument", 0).unwrap();
    writer.write_push_pop("push", "static", 1).unwrap();
    writer.write_arithmetic("lt");
    writer.write_if("A");
    writer.write_goto("B");
    writer.write_label("A");
    writer.write_call("Main.g", 1);
    writer.write_push_pop("pop", "local", 0).unwrap();
    writer.write_label("B");
    writer.write_arithmetic("eq");
    writer.write_arithmetic("not");
    writer.write_return();
    assert_eq!(translate_source("Main", source).unwrap(), writer.output());
}

#[test]
fn test_translate_source_given_empty_text() {
    assert_eq!(translate_source("Empty", "").unwrap(), "");
    assert_eq!(translate_source("Empty", "// nothing\n\n").unwrap(), "");
}

#[test]
fn test_translate_source_given_malformed_command() {
    assert_eq!(
        translate_source("Bad", "push constant 1\nfoo bar baz qux\nadd"),
        Err(TranslateError::MalformedCommand)
    );
}

#[test]
fn test_translate_source_given_missing_argument() {
    for source in ["push constant x", "pop local -1", "function f many", "call f 1.0"] {
        assert_eq!(translate_source("Bad", source), Err(TranslateError::MissingArgument), "{}", source);
    }
}

#[test]
fn test_translate_source_given_unsupported_operands() {
    for source in ["push pointer 2", "pop pointer 7", "pop constant 1", "push heap 0", "pop nowhere 0"] {
        assert_eq!(
            translate_source("Bad", source),
            Err(TranslateError::UnsupportedOperandCombination),
            "{}",
            source
        );
    }
}

#[test]
fn test_translate_source_reports_the_first_failure() {
    assert_eq!(
        translate_source("Bad", "push pointer 2\nfoo bar baz qux"),
        Err(TranslateError::UnsupportedOperandCombination)
    );
    assert_eq!(
        translate_source("Bad", "foo bar baz qux\npush pointer 2"),
        Err(TranslateError::MalformedCommand)
    );
}

fn unit(base_name: &str, text: &str) -> SourceFile {
    SourceFile { base_name: base_name.to_string(), text: text.to_string() }
}

#[test]
fn test_translate_program_given_bootstrap() {
    let units = vec![unit("Main", "push constant 1"), unit("Sys", "function Sys.init 0")];
    let with = translate_program("Dir", true, &units).unwrap();
    let without = translate_program("Dir", false, &units).unwrap();
    let mut bootstrap = CodeWriter::with_base_name("Dir");
    bootstrap.write_bootstrap();
    assert_eq!(with, bootstrap.output().to_string() + &without);
    assert!(with.starts_with("// bootstrap\n  @256\n  D=A\n  @SP\n  M=D\n// call Sys.init 0\n  @Dir$ret.1\n"));
    assert_eq!(with.matches("// bootstrap").count(), 1);
    assert_eq!(with.matches("  @Sys.init\n  0;JMP\n").count(), 1);
    assert_eq!(without.matches("// bootstrap").count(), 0);
    let expected = "// > Main.asm\n".to_string()
        + &translate_source("Main", "push constant 1").unwrap()
        + "// > Sys.asm\n"
        + &translate_source("Sys", "function Sys.init 0").unwrap();
    assert_eq!(without, expected);
}

#[test]
fn test_translate_program_given_no_units() {
    assert_eq!(translate_program("Dir", false, &Vec::new()).unwrap(), "");
    let mut bootstrap = CodeWriter::with_base_name("Dir");
    bootstrap.write_bootstrap();
    assert_eq!(translate_program("Dir", true, &Vec::new()).unwrap(), bootstrap.output());
}

#[test]
fn test_translate_program_given_failing_unit() {
    let units = vec![unit("A", "add"), unit("B", "push pointer 9"), unit("C", "foo bar baz qux")];
    assert_eq!(
        translate_program("Dir", true, &units),
        Err(TranslateError::UnsupportedOperandCombination)
    );
}

#[test]
fn test_translate_program_counts_labels_per_unit() {
    let units = vec![unit("A", "eq\ncall f 0"), unit("B", "eq\ncall f 0")];
    let output = translate_program("Dir", true, &units).unwrap();
    for label in ["(Dir$ret.1)", "(A_THEN1)", "(A_END1)", "(A$ret.1)", "(B_THEN1)", "(B_END1)", "(B$ret.1)"] {
        assert_eq!(output.matches(label).count(), 1, "{}", label);
    }
}

#[test]
fn test_error_messages() {
    assert_eq!(TranslateError::MalformedCommand.message(), "Invalid command!!");
    assert_eq!(TranslateError::MissingArgument.message(), "Not available");
    assert_eq!(
        TranslateError::UnsupportedOperandCombination.message(),
        "Unsupported operand combination"
    );
}

/// Lays statements out as the output holds them.
fn layout(statements: &[String]) -> String {
    let mut text = String::new();
    for statement in statements {
        if !(statement.starts_with('(') || statement.starts_with('/')) {
            text.push_str("  ");
        }
        text.push_str(statement);
        text.push('\n');
    }
    text
}

fn strings(statements: &[&str]) -> Vec<String> {
    statements.iter().map(|s| s.to_string()).collect()
}

fn expected_push_constant(value: u32) -> String {
    let mut statements = vec![format!("// push constant {}", value), format!("@{}", value)];
    statements.extend(strings(&["D=A", "@SP", "A=M", "M=D", "@SP", "M=M+1"]));
    layout(&statements)
}

fn expected_comparison(name: &str, prefix: &str, index: u32, jump: &str) -> String {
    let mut statements = vec![format!("// {}", name)];
    statements.extend(strings(&["@SP", "M=M-1", "A=M", "D=M", "@SP", "M=M-1", "A=M", "D=M-D"]));
    statements.push(format!("@{}_THEN{}", prefix, index));
    statements.push(format!("D;{}", jump));
    statements.push("D=0".to_string());
    statements.push(format!("@{}_END{}", prefix, index));
    statements.push("0;JMP".to_string());
    statements.push(format!("({}_THEN{})", prefix, index));
    statements.push("D=-1".to_string());
    statements.push(format!("({}_END{})", prefix, index));
    statements.extend(strings(&["@SP", "A=M", "M=D", "@SP", "M=M+1"]));
    layout(&statements)
}

#[test]
fn test_main_given_stack_commands() {
    let source = "// Pushes and adds two constants.\npush constant 7\npush constant 8\nadd\n";
    let expected = expected_push_constant(7)
        + &expected_push_constant(8)
        + &layout(&strings(&[
            "// add", "@SP", "M=M-1", "A=M", "D=M", "@SP", "M=M-1", "A=M", "D=D+M", "@SP", "A=M",
            "M=D", "@SP", "M=M+1",
        ]));
    assert_eq!(translate_source("Add", source).unwrap(), expected);
}

#[test]
fn test_main_given_control_commands() {
    let source = "label LOOP\npush constant 1\nif-goto LOOP\ngoto END\nlabel END\n";
    let expected = layout(&strings(&["// label LOOP", "(Control$LOOP)"]))
        + &expected_push_constant(1)
        + &layout(&strings(&[
            "// if-goto LOOP", "@SP", "M=M-1", "A=M", "D=M", "@Control$LOOP", "D;JNE",
            "// goto END", "@Control$END", "0;JMP", "// label END", "(Control$END)",
        ]));
    assert_eq!(translate_source("Control", source).unwrap(), expected);
}

#[test]
fn test_main_given_folder() {
    let units = vec![
        unit("Class1", "function Class1.set 0\npush constant 1\nreturn"),
        unit("Class2", "push constant 2"),
    ];
    let output = translate_program("TestFolder", false, &units).unwrap();
    let mut class1 = CodeWriter::with_base_name("Class1");
    class1.write_function("Class1.set", 0);
    class1.write_push_pop("push", "constant", 1).unwrap();
    class1.write_return();
    let expected = "// > Class1.asm\n".to_string()
        + class1.output()
        + "// > Class2.asm\n"
        + &expected_push_constant(2);
    assert_eq!(output, expected);
}

#[test]
fn test_main_given_multi_comparison_commands() {
    let units = vec![unit("First", "eq\nlt"), unit("Second", "function Second.f 0\ngt\neq")];
    let output = translate_program("TestInternalSymbol", false, &units).unwrap();
    let expected = "// > First.asm\n".to_string()
        + &expected_comparison("eq", "First", 1, "JEQ")
        + &expected_comparison("lt", "First", 2, "JLT")
        + "// > Second.asm\n"
        + "// function Second.f 0\n(Second.f)\n"
        + &expected_comparison("gt", "Second.f", 1, "JGT")
        + &expected_comparison("eq", "Second.f", 2, "JEQ");
    assert_eq!(output, expected);
}
