use vm_translator::code_writer::CodeWriter;
use vm_translator::TranslateError;

/// Lays statements out as the output holds them: declarations and comments in
/// the first column, everything else behind two spaces, one per line.
fn block(statements: &[&str]) -> String {
    let mut text = String::new();
    for statement in statements {
        if statement.starts_with('(') || statement.starts_with('/') {
            text.push_str(statement);
        } else {
            text.push_str("  ");
            text.push_str(statement);
        }
        text.push('\n');
    }
    text
}

const FIRST_POP: [&str; 4] = ["@SP", "M=M-1", "A=M", "D=M"];
const SECOND_POP: [&str; 3] = ["@SP", "M=M-1", "A=M"];
const FINAL_PUSH: [&str; 5] = ["@SP", "A=M", "M=D", "@SP", "M=M+1"];

fn binary(name: &str, body: &[&str]) -> String {
    let mut statements: Vec<String> = vec![format!("// {}", name)];
    statements.extend(FIRST_POP.iter().map(|s| s.to_string()));
    statements.extend(SECOND_POP.iter().map(|s| s.to_string()));
    statements.extend(body.iter().map(|s| s.to_string()));
    statements.extend(FINAL_PUSH.iter().map(|s| s.to_string()));
    let refs: Vec<&str> = statements.iter().map(|s| s.as_str()).collect();
    block(&refs)
}

fn unary(name: &str, body: &[&str]) -> String {
    let mut statements: Vec<String> = vec![format!("// {}", name)];
    statements.extend(FIRST_POP.iter().map(|s| s.to_string()));
    statements.extend(body.iter().map(|s| s.to_string()));
    statements.extend(FINAL_PUSH.iter().map(|s| s.to_string()));
    let refs: Vec<&str> = statements.iter().map(|s| s.as_str()).collect();
    block(&refs)
}

fn comparison(name: &str, prefix: &str, index: u32, jump: &str) -> String {
    let body = vec![
        "D=M-D".to_string(),
        format!("@{}_THEN{}", prefix, index),
        format!("D;{}", jump),
        "D=0".to_string(),
        format!("@{}_END{}", prefix, index),
        "0;JMP".to_string(),
        format!("({}_THEN{})", prefix, index),
        "D=-1".to_string(),
        format!("({}_END{})", prefix, index),
    ];
    let refs: Vec<&str> = body.iter().map(|s| s.as_str()).collect();
    binary(name, &refs)
}

fn written_arithmetic(out_file: &str, commands: &[&str]) -> String {
    let mut code_writer = CodeWriter::new(out_file).unwrap();
    for command in commands {
        code_writer.write_arithmetic(command);
    }
    code_writer.output().to_string()
}

fn written_push_pop(out_file: &str, commands: &[(&str, &str, i32)]) -> String {
    let mut code_writer = CodeWriter::new(out_file).unwrap();
    for (command, segment, index) in commands {
        code_writer.write_push_pop(command, segment, *index).unwrap();
    }
    code_writer.output().to_string()
}

#[test]
fn test_write_arithmetic_given_add() {
    assert_eq!(written_arithmetic("add.asm", &["add"]), binary("add", &["D=D+M"]));
}

#[test]
fn test_write_arithmetic_given_sub() {
    assert_eq!(written_arithmetic("sub.asm", &["sub"]), binary("sub", &["D=M-D"]));
}

#[test]
fn test_write_arithmetic_given_and() {
    assert_eq!(written_arithmetic("and.asm", &["and"]), binary("and", &["D=D&M"]));
}

#[test]
fn test_write_arithmetic_given_or() {
    assert_eq!(written_arithmetic("or.asm", &["or"]), binary("or", &["D=D|M"]));
}

#[test]
fn test_write_arithmetic_given_neg() {
    assert_eq!(written_arithmetic("neg.asm", &["neg"]), unary("neg", &["D=-D"]));
}

#[test]
fn test_write_arithmetic_given_not() {
    assert_eq!(written_arithmetic("not.asm", &["not"]), unary("not", &["D=!D"]));
}

#[test]
fn test_write_arithmetic_given_eq() {
    assert_eq!(written_arithmetic("eq.asm", &["eq"]), comparison("eq", "eq", 1, "JEQ"));
}

#[test]
fn test_write_arithmetic_given_gt() {
    assert_eq!(written_arithmetic("gt.asm", &["gt"]), comparison("gt", "gt", 1, "JGT"));
}

#[test]
fn test_write_arithmetic_given_lt() {
    assert_eq!(written_arithmetic("lt.asm", &["lt"]), comparison("lt", "lt", 1, "JLT"));
}

#[test]
fn test_write_arithmetic_given_ltgt() {
    let expected = comparison("lt", "ltgt", 1, "JLT") + &comparison("gt", "ltgt", 2, "JGT");
    assert_eq!(written_arithmetic("ltgt.asm", &["lt", "gt"]), expected);
}

#[test]
fn test_write_arithmetic_given_add_literally() {
    let expected = "// add\n  @SP\n  M=M-1\n  A=M\n  D=M\n  @SP\n  M=M-1\n  A=M\n  D=D+M\n  @SP\n  A=M\n  M=D\n  @SP\n  M=M+1\n";
    assert_eq!(written_arithmetic("add.asm", &["add"]), expected);
}

#[test]
fn test_write_arithmetic_given_eq_literally() {
    let expected = "// eq\n  @SP\n  M=M-1\n  A=M\n  D=M\n  @SP\n  M=M-1\n  A=M\n  D=M-D\n  @Foo_THEN1\n  D;JEQ\n  D=0\n  @Foo_END1\n  0;JMP\n(Foo_THEN1)\n  D=-1\n(Foo_END1)\n  @SP\n  A=M\n  M=D\n  @SP\n  M=M+1\n";
    assert_eq!(written_arithmetic("out/Foo.asm", &["eq"]), expected);
}

#[test]
fn test_write_arithmetic_given_unknown_operator() {
    assert_eq!(written_arithmetic("x.asm", &["mul"]), "");
    assert_eq!(written_arithmetic("x.asm", &[""]), "");
}

fn push_through_base(segment: &str, register: &str, index: i32) -> String {
    let mut statements = vec![
        format!("// push {} {}", segment, index),
        format!("@{}", register),
        "D=M".to_string(),
        format!("@{}", index),
        "A=D+A".to_string(),
        "D=M".to_string(),
    ];
    statements.extend(FINAL_PUSH.iter().map(|s| s.to_string()));
    let refs: Vec<&str> = statements.iter().map(|s| s.as_str()).collect();
    block(&refs)
}

fn pop_through_base(segment: &str, register: &str, index: i32) -> String {
    let statements = vec![
        format!("// pop {} {}", segment, index),
        format!("@{}", register),
        "D=M".to_string(),
        format!("@{}", index),
        "D=D+A".to_string(),
        "@R13".to_string(),
        "M=D".to_string(),
        "@SP".to_string(),
        "M=M-1".to_string(),
        "A=M".to_string(),
        "D=M".to_string(),
        "@R13".to_string(),
        "A=M".to_string(),
        "M=D".to_string(),
    ];
    let refs: Vec<&str> = statements.iter().map(|s| s.as_str()).collect();
    block(&refs)
}

#[test]
fn test_write_push_pop_given_push_local() {
    assert_eq!(
        written_push_pop("pushlocal2.asm", &[("push", "local", 2)]),
        push_through_base("local", "LCL", 2)
    );
}

#[test]
fn test_write_push_pop_given_push_argument() {
    assert_eq!(
        written_push_pop("pushargument2.asm", &[("push", "argument", 2)]),
        push_through_base("argument", "ARG", 2)
    );
}

#[test]
fn test_write_push_pop_given_push_this() {
    assert_eq!(
        written_push_pop("pushthis2.asm", &[("push", "this", 2)]),
        push_through_base("this", "THIS", 2)
    );
}

#[test]
fn test_write_push_pop_given_push_that() {
    assert_eq!(
        written_push_pop("pushthat2.asm", &[("push", "that", 2)]),
        push_through_base("that", "THAT", 2)
    );
}

#[test]
fn test_write_push_pop_given_pop_local() {
    assert_eq!(
        written_push_pop("poplocal2.asm", &[("pop", "local", 2)]),
        pop_through_base("local", "LCL", 2)
    );
}

#[test]
fn test_write_push_pop_given_pop_argument() {
    assert_eq!(
        written_push_pop("popargument2.asm", &[("pop", "argument", 2)]),
        pop_through_base("argument", "ARG", 2)
    );
}

#[test]
fn test_write_push_pop_given_pop_this() {
    assert_eq!(
        written_push_pop("popthis2.asm", &[("pop", "this", 2)]),
        pop_through_base("this", "THIS", 2)
    );
}

#[test]
fn test_write_push_pop_given_pop_that() {
    assert_eq!(
        written_push_pop("popthat2.asm", &[("pop", "that", 2)]),
        pop_through_base("that", "THAT", 2)
    );
}

#[test]
fn test_write_push_pop_given_push_pointer() {
    let expected = block(&[
        "// push pointer 0", "@THIS", "D=M", "@SP", "A=M", "M=D", "@SP", "M=M+1",
        "// push pointer 1", "@THAT", "D=M", "@SP", "A=M", "M=D", "@SP", "M=M+1",
    ]);
    assert_eq!(
        written_push_pop("pushpointer.asm", &[("push", "pointer", 0), ("push", "pointer", 1)]),
        expected
    );
}

#[test]
fn test_write_push_pop_given_pop_pointer() {
    let expected = block(&[
        "// pop pointer 0", "@SP", "M=M-1", "A=M", "D=M", "@THIS", "M=D",
        "// pop pointer 1", "@SP", "M=M-1", "A=M", "D=M", "@THAT", "M=D",
    ]);
    assert_eq!(
        written_push_pop("poppointer.asm", &[("pop", "pointer", 0), ("pop", "pointer", 1)]),
        expected
    );
}

#[test]
fn test_write_push_pop_given_push_temp() {
    let expected = block(&[
        "// push temp 2", "@5", "D=A", "@2", "A=D+A", "D=M", "@SP", "A=M", "M=D", "@SP", "M=M+1",
    ]);
    assert_eq!(written_push_pop("pushtemp2.asm", &[("push", "temp", 2)]), expected);
}

#[test]
fn test_write_push_pop_given_pop_temp() {
    let expected = block(&[
        "// pop temp 2", "@5", "D=A", "@2", "D=D+A", "@R13", "M=D", "@SP", "M=M-1", "A=M", "D=M",
        "@R13", "A=M", "M=D",
    ]);
    assert_eq!(written_push_pop("poptemp2.asm", &[("pop", "temp", 2)]), expected);
}

#[test]
fn test_write_push_pop_given_push_constant() {
    let expected = "// push constant 2\n  @2\n  D=A\n  @SP\n  A=M\n  M=D\n  @SP\n  M=M+1\n";
    assert_eq!(written_push_pop("pushconstant2.asm", &[("push", "constant", 2)]), expected);
}

#[test]
fn test_write_push_pop_given_push_static() {
    let expected =
        block(&["// push static 2", "@pushstatic2.2", "D=M", "@SP", "A=M", "M=D", "@SP", "M=M+1"]);
    assert_eq!(written_push_pop("pushstatic2.asm", &[("push", "static", 2)]), expected);
}

#[test]
fn test_write_push_pop_given_pop_static() {
    let expected =
        block(&["// pop static 2", "@SP", "M=M-1", "A=M", "D=M", "@popstatic2.2", "M=D"]);
    assert_eq!(written_push_pop("popstatic2.asm", &[("pop", "static", 2)]), expected);
}

#[test]
fn test_write_push_pop_given_large_index() {
    let expected = "// push constant 32767\n  @32767\n  D=A\n  @SP\n  A=M\n  M=D\n  @SP\n  M=M+1\n";
    assert_eq!(written_push_pop("a.asm", &[("push", "constant", 32767)]), expected);
    let expected = "// push constant 0\n  @0\n  D=A\n  @SP\n  A=M\n  M=D\n  @SP\n  M=M+1\n";
    assert_eq!(written_push_pop("a.asm", &[("push", "constant", 0)]), expected);
    let expected =
        "// push constant 2147483647\n  @2147483647\n  D=A\n  @SP\n  A=M\n  M=D\n  @SP\n  M=M+1\n";
    assert_eq!(written_push_pop("a.asm", &[("push", "constant", 2147483647)]), expected);
}

#[test]
fn test_write_push_pop_given_unsupported_combination() {
    let cases: [(&str, &str, i32); 7] = [
        ("push", "pointer", 2),
        ("pop", "pointer", 2),
        ("pop", "constant", 0),
        ("push", "heap", 0),
        ("pop", "", 1),
        ("peek", "local", 0),
        ("", "local", 0),
    ];
    for (command, segment, index) in cases {
        let mut code_writer = CodeWriter::new("Unsupported.asm").unwrap();
        code_writer.write_label("BEFORE");
        let before = code_writer.output().to_string();
        assert_eq!(
            code_writer.write_push_pop(command, segment, index),
            Err(TranslateError::UnsupportedOperandCombination)
        );
        assert_eq!(code_writer.output(), before);
    }
}

fn function_block(name: &str, nvars: usize) -> String {
    let mut statements = vec![format!("// function {} {}", name, nvars), format!("({})", name)];
    for _ in 0..nvars {
        for s in ["@SP", "A=M", "M=0", "@SP", "M=M+1"] {
            statements.push(s.to_string());
        }
    }
    let refs: Vec<&str> = statements.iter().map(|s| s.as_str()).collect();
    block(&refs)
}

#[test]
fn test_write_function_given_no_vars() {
    let mut code_writer = CodeWriter::new("function0.asm").unwrap();
    code_writer.write_function("Main.test", 0);
    assert_eq!(code_writer.output(), "// function Main.test 0\n(Main.test)\n");
}

#[test]
fn test_write_function_given_2_vars() {
    let mut code_writer = CodeWriter::new("function2.asm").unwrap();
    code_writer.write_function("Main.test", 2);
    assert_eq!(code_writer.output(), function_block("Main.test", 2));
    assert_eq!(
        code_writer.output(),
        "// function Main.test 2\n(Main.test)\n  @SP\n  A=M\n  M=0\n  @SP\n  M=M+1\n  @SP\n  A=M\n  M=0\n  @SP\n  M=M+1\n"
    );
}

#[test]
fn test_write_label_given_file() {
    let mut code_writer = CodeWriter::new("LabelInFile.asm").unwrap();
    code_writer.write_label("LABEL");
    assert_eq!(code_writer.output(), "// label LABEL\n(LabelInFile$LABEL)\n");
}

#[test]
fn test_write_label_given_function() {
    let mut code_writer = CodeWriter::new("LabelInFunction.asm").unwrap();
    code_writer.write_function("LabelInFunction.test", 0);
    code_writer.write_label("LABEL");
    assert_eq!(
        code_writer.output(),
        function_block("LabelInFunction.test", 0) + "// label LABEL\n(LabelInFunction.test$LABEL)\n"
    );
}

#[test]
fn test_write_goto_given_file() {
    let mut code_writer = CodeWriter::new("GotoInFile.asm").unwrap();
    code_writer.write_goto("LABEL");
    assert_eq!(code_writer.output(), "// goto LABEL\n  @GotoInFile$LABEL\n  0;JMP\n");
}

#[test]
fn test_write_goto_given_function() {
    let mut code_writer = CodeWriter::new("GotoInFunction.asm").unwrap();
    code_writer.write_function("GotoInFunction.test", 0);
    code_writer.write_goto("LABEL");
    assert_eq!(
        code_writer.output(),
        function_block("GotoInFunction.test", 0)
            + "// goto LABEL\n  @GotoInFunction.test$LABEL\n  0;JMP\n"
    );
}

#[test]
fn test_write_if_given_file() {
    let mut code_writer = CodeWriter::new("IfInFile.asm").unwrap();
    code_writer.write_if("LABEL");
    assert_eq!(
        code_writer.output(),
        "// if-goto LABEL\n  @SP\n  M=M-1\n  A=M\n  D=M\n  @IfInFile$LABEL\n  D;JNE\n"
    );
}

#[test]
fn test_write_if_given_function() {
    let mut code_writer = CodeWriter::new("IfInFunction.asm").unwrap();
    code_writer.write_function("IfInFunction.test", 0);
    code_writer.write_if("LABEL");
    assert_eq!(
        code_writer.output(),
        function_block("IfInFunction.test", 0)
            + "// if-goto LABEL\n  @SP\n  M=M-1\n  A=M\n  D=M\n  @IfInFunction.test$LABEL\n  D;JNE\n"
    );
}

fn call_block(name: &str, nvars: u32, landing: &str) -> String {
    let mut statements =
        vec![format!("// call {} {}", name, nvars), format!("@{}", landing), "D=A".to_string()];
    statements.extend(FINAL_PUSH.iter().map(|s| s.to_string()));
    for register in ["LCL", "ARG", "THIS", "THAT"] {
        statements.push(format!("@{}", register));
        statements.push("D=M".to_string());
        statements.extend(FINAL_PUSH.iter().map(|s| s.to_string()));
    }
    for s in ["@SP", "D=M", "@5", "D=D-A"] {
        statements.push(s.to_string());
    }
    statements.push(format!("@{}", nvars));
    for s in ["D=D-A", "@ARG", "M=D", "@SP", "D=M", "@LCL", "M=D"] {
        statements.push(s.to_string());
    }
    statements.push(format!("@{}", name));
    statements.push("0;JMP".to_string());
    statements.push(format!("({})", landing));
    let refs: Vec<&str> = statements.iter().map(|s| s.as_str()).collect();
    block(&refs)
}

#[test]
fn test_write_call_given_file() {
    let mut code_writer = CodeWriter::new("CallInFile.asm").unwrap();
    code_writer.write_call("Math.add", 2);
    assert_eq!(code_writer.output(), call_block("Math.add", 2, "CallInFile$ret.1"));
    let literal = "// call Math.add 2\n  @CallInFile$ret.1\n  D=A\n  @SP\n  A=M\n  M=D\n  @SP\n  M=M+1\n  @LCL\n  D=M\n  @SP\n  A=M\n  M=D\n  @SP\n  M=M+1\n  @ARG\n  D=M\n  @SP\n  A=M\n  M=D\n  @SP\n  M=M+1\n  @THIS\n  D=M\n  @SP\n  A=M\n  M=D\n  @SP\n  M=M+1\n  @THAT\n  D=M\n  @SP\n  A=M\n  M=D\n  @SP\n  M=M+1\n  @SP\n  D=M\n  @5\n  D=D-A\n  @2\n  D=D-A\n  @ARG\n  M=D\n  @SP\n  D=M\n  @LCL\n  M=D\n  @Math.add\n  0;JMP\n(CallInFile$ret.1)\n";
    assert_eq!(code_writer.output(), literal);
}

#[test]
fn test_write_call_given_function() {
    let mut code_writer = CodeWriter::new("CallInFunction.asm").unwrap();
    code_writer.write_function("CallInFunction.test", 0);
    code_writer.write_call("Math.add", 2);
    assert_eq!(
        code_writer.output(),
        function_block("CallInFunction.test", 0)
            + &call_block("Math.add", 2, "CallInFunction.test$ret.1")
    );
}

#[test]
fn test_write_call_given_multi_calls() {
    let mut code_writer = CodeWriter::new("CallGivenMultiCalls.asm").unwrap();
    code_writer.write_function("CallGivenMultiCalls.test", 0);
    code_writer.write_call("Math.add", 2);
    code_writer.write_call("Math.sum", 0);
    assert_eq!(
        code_writer.output(),
        function_block("CallGivenMultiCalls.test", 0)
            + &call_block("Math.add", 2, "CallGivenMultiCalls.test$ret.1")
            + &call_block("Math.sum", 0, "CallGivenMultiCalls.test$ret.2")
    );
}

fn return_text() -> String {
    let mut statements: Vec<&str> = vec![
        "// return", "@LCL", "D=M", "@R13", "M=D", "@5", "D=D-A", "A=D", "D=M", "@R14", "M=D",
        "@SP", "M=M-1", "A=M", "D=M", "@ARG", "A=M", "M=D", "@ARG", "D=M", "D=D+1", "@SP", "M=D",
    ];
    for (register, offset) in [("@THAT", "@1"), ("@THIS", "@2"), ("@ARG", "@3"), ("@LCL", "@4")] {
        statements.extend(["@R13", "D=M", offset, "D=D-A", "A=D", "D=M", register, "M=D"]);
    }
    statements.extend(["@R14", "A=M", "0;JMP"]);
    block(&statements)
}

#[test]
fn test_write_return() {
    let mut code_writer = CodeWriter::new("Return.asm").unwrap();
    code_writer.write_return();
    assert_eq!(code_writer.output(), return_text());
}

#[test]
fn test_write_bootstrap() {
    let mut code_writer = CodeWriter::new("dir/Program.asm").unwrap();
    code_writer.write_bootstrap();
    let expected = block(&["// bootstrap", "@256", "D=A", "@SP", "M=D"])
        + &call_block("Sys.init", 0, "Program$ret.1");
    assert_eq!(code_writer.output(), expected);
    code_writer.write_call("Main.main", 0);
    assert_eq!(code_writer.output(), expected + &call_block("Main.main", 0, "Program$ret.2"));
}

#[test]
fn test_new_takes_the_stem_of_the_path() {
    let mut code_writer = CodeWriter::new("some/folder/Unit.tar.asm").unwrap();
    code_writer.write_label("L");
    assert_eq!(code_writer.output(), "// label L\n(Unit.tar$L)\n");
    assert!(CodeWriter::new("").is_none());
    assert!(CodeWriter::new("folder/..").is_none());
}

#[test]
fn test_with_base_name_takes_the_name_as_it_is() {
    let mut code_writer = CodeWriter::with_base_name("Unit.asm");
    code_writer.write_push_pop("push", "static", 7).unwrap();
    code_writer.write_label("L");
    assert_eq!(
        code_writer.output(),
        "// push static 7\n  @Unit.asm.7\n  D=M\n  @SP\n  A=M\n  M=D\n  @SP\n  M=M+1\n// label L\n(Unit.asm$L)\n"
    );
}

#[test]
fn test_scope_persists_after_return() {
    let mut code_writer = CodeWriter::with_base_name("File");
    code_writer.write_label("A");
    code_writer.write_function("F", 0);
    code_writer.write_return();
    code_writer.write_label("A");
    code_writer.write_function("G", 0);
    code_writer.write_label("A");
    let expected = "// label A\n(File$A)\n".to_string()
        + &function_block("F", 0)
        + &return_text()
        + "// label A\n(F$A)\n"
        + &function_block("G", 0)
        + "// label A\n(G$A)\n";
    assert_eq!(code_writer.output(), expected);
}

#[test]
fn test_comparison_counter_is_shared_and_never_reused() {
    let mut code_writer = CodeWriter::with_base_name("File");
    code_writer.write_arithmetic("eq");
    code_writer.write_function("F", 0);
    code_writer.write_arithmetic("add");
    code_writer.write_arithmetic("gt");
    code_writer.write_arithmetic("lt");
    let expected = comparison("eq", "File", 1, "JEQ")
        + &function_block("F", 0)
        + &binary("add", &["D=D+M"])
        + &comparison("gt", "F", 2, "JGT")
        + &comparison("lt", "F", 3, "JLT");
    assert_eq!(code_writer.output(), expected);
}

#[test]
fn test_many_comparisons_take_distinct_labels() {
    let mut code_writer = CodeWriter::with_base_name("File");
    let mut expected = String::new();
    for index in 1..=12 {
        code_writer.write_arithmetic("eq");
        expected += &comparison("eq", "File", index, "JEQ");
    }
    assert_eq!(code_writer.output(), expected);
    assert!(expected.contains("(File_THEN10)"));
    assert!(expected.contains("(File_END12)"));
}
