//! The code generator: takes one command at a time and appends its block of
//! assembly to the output, keeping the label counters and the scope.

use vstd::prelude::*;
use crate::assembly::{
    at_number, at_symbol, comp_str, dest_str, extend_statements, jump_str, lines_of, push_statement,
    render, render_all, Comp, Dest, Jump, Line, Statement, Target,
};
use crate::error::TranslateError;
use crate::templates;
use crate::templates::{Direction, Operator, Segment};
use crate::text::{push_decimal, same_text};

verus! {

/// The scope that qualifies generated labels, as a mathematical value.
pub enum ScopeView {
    /// Outside any function: labels are qualified by the file's base name.
    File,
    /// After `function name`: labels are qualified by that name.
    Function(Seq<char>),
}

/// A generator as a mathematical value.
pub struct WriterState {
    /// The base name of the source file.
    pub base_name: Seq<char>,
    pub scope: ScopeView,
    /// The index that the next comparison takes for its pair of labels.
    pub branch_index: nat,
    /// The index that the next call takes for its landing point.
    pub return_index: nat,
    /// The text emitted so far.
    pub output: Seq<char>,
}

impl WriterState {
    /// The state of a generator that has emitted nothing.
    pub open spec fn fresh(base_name: Seq<char>) -> WriterState {
        WriterState {
            base_name,
            scope: ScopeView::File,
            branch_index: 1,
            return_index: 1,
            output: Seq::empty(),
        }
    }

    /// The qualifier of the labels generated in the current scope.
    pub open spec fn label_prefix(self) -> Seq<char> {
        match self.scope {
            ScopeView::File => self.base_name,
            ScopeView::Function(name) => name,
        }
    }

    /// The state after these lines have been written.
    pub open spec fn emit(self, lines: Seq<Line>) -> WriterState {
        WriterState { output: self.output + render_all(lines), ..self }
    }

    /// The state after an arithmetic or logical command: its block written,
    /// and the comparison counter moved on if it took a pair of labels. A name
    /// that is no operator leaves the state as it is.
    pub open spec fn after_arithmetic(self, name: Seq<char>) -> WriterState {
        match templates::operator(name) {
            Some(op) => WriterState {
                branch_index: if op.is_comparison() {
                    self.branch_index + 1
                } else {
                    self.branch_index
                },
                ..self.emit(templates::arithmetic(op, self.label_prefix(), self.branch_index))
            },
            None => self,
        }
    }

    /// The state after a `push` or `pop`; `None` where no addressing rule
    /// covers the command.
    pub open spec fn after_push_pop(
        self,
        command: Seq<char>,
        segment: Seq<char>,
        index: nat,
    ) -> Option<WriterState> {
        match (templates::direction(command), templates::segment(segment)) {
            (Some(direction), Some(segment)) => match templates::push_pop(
                direction,
                segment,
                index,
                self.base_name,
            ) {
                Some(lines) => Some(self.emit(lines)),
                None => None,
            },
            _ => None,
        }
    }

    /// The state after `function name nvars`: the block written, and the
    /// scope set to the function.
    pub open spec fn after_function(self, name: Seq<char>, nvars: nat) -> WriterState {
        WriterState {
            scope: ScopeView::Function(name),
            ..self.emit(templates::function(name, nvars))
        }
    }

    /// The state after `label`: the block written, with the label qualified
    /// by the current scope, as for `goto` and `if-goto`.
    pub open spec fn after_label(self, label: Seq<char>) -> WriterState {
        self.emit(templates::label(self.label_prefix(), label))
    }

    /// The state after `goto`.
    pub open spec fn after_goto(self, label: Seq<char>) -> WriterState {
        self.emit(templates::goto(self.label_prefix(), label))
    }

    /// The state after `if-goto`.
    pub open spec fn after_if(self, label: Seq<char>) -> WriterState {
        self.emit(templates::if_goto(self.label_prefix(), label))
    }

    /// The state after `call name nvars`: the block written with a fresh
    /// landing point, and the counter moved on.
    pub open spec fn after_call(self, name: Seq<char>, nvars: nat) -> WriterState {
        WriterState {
            return_index: self.return_index + 1,
            ..self.emit(
                templates::call(
                    name,
                    nvars,
                    templates::return_label(self.label_prefix(), self.return_index),
                ),
            )
        }
    }

    /// The state after `return`: the block written. The scope stays.
    pub open spec fn after_return(self) -> WriterState {
        self.emit(templates::return_block())
    }

    /// The state after the bootstrap, which takes a landing point as a call
    /// does.
    pub open spec fn after_bootstrap(self) -> WriterState {
        WriterState {
            return_index: self.return_index + 1,
            ..self.emit(
                templates::bootstrap(
                    templates::return_label(self.label_prefix(), self.return_index),
                ),
            )
        }
    }
}

/// The scope that qualifies generated labels.
#[derive(Debug)]
pub enum Scope {
    File,
    Function(String),
}

impl View for Scope {
    type V = ScopeView;

    open spec fn view(&self) -> ScopeView {
        match self {
            Scope::File => ScopeView::File,
            Scope::Function(name) => ScopeView::Function(name@),
        }
    }
}

/// The stem that `std::path::Path::file_stem` extracts from a path, by the
/// path rules of the platform that the library is built for.
pub uninterp spec fn path_file_stem(path: Seq<char>) -> Option<Seq<char>>;

/// `std::path::Path::file_stem` on the path that `path` spells: the file
/// name without its extension, or nothing where the path has no file name.
/// The contract only gives the outcome its name.
#[verifier::external_body]
fn file_stem(path: &str) -> (stem: Option<String>)
    ensures
        match stem {
            Some(s) => path_file_stem(path@) == Some(s@),
            None => path_file_stem(path@) is None,
        },
{
    match std::path::Path::new(path).file_stem() {
        Some(stem) => Some(stem.to_string_lossy().into_owned()),
        None => None,
    }
}

/// The generator of one unit: the output so far, the two label counters,
/// the scope and the base name of the source file.
pub struct CodeWriter {
    file_base_name: String,
    scope: Scope,
    branch_count: u64,
    return_count: u64,
    output: String,
}

impl View for CodeWriter {
    type V = WriterState;

    closed spec fn view(&self) -> WriterState {
        WriterState {
            base_name: self.file_base_name@,
            scope: self.scope@,
            branch_index: (self.branch_count + 1) as nat,
            return_index: (self.return_count + 1) as nat,
            output: self.output@,
        }
    }
}

impl CodeWriter {
    /// A generator for the unit whose output goes to `file_path_str`: the
    /// file's stem becomes the base name. `None` where the path names no
    /// file.
    pub fn new(file_path_str: &str) -> (writer: Option<CodeWriter>)
        ensures
            match writer {
                Some(w) => path_file_stem(file_path_str@) is Some && w@ == WriterState::fresh(
                    path_file_stem(file_path_str@).unwrap(),
                ),
                None => path_file_stem(file_path_str@) is None,
            },
    {
        match file_stem(file_path_str) {
            Some(stem) => Some(CodeWriter::with_base_name(stem.as_str())),
            None => None,
        }
    }

    /// A generator for the unit with the given base name.
    pub fn with_base_name(file_base_name: &str) -> (writer: CodeWriter)
        ensures
            writer@ == WriterState::fresh(file_base_name@),
    {
        CodeWriter {
            file_base_name: String::from_str(file_base_name),
            scope: Scope::File,
            branch_count: 0,
            return_count: 0,
            output: String::new(),
        }
    }

    /// The text emitted so far.
    pub fn output(&self) -> (text: &str)
        ensures
            text@ == self@.output,
    {
        self.output.as_str()
    }

    /// Writes the block of an arithmetic or logical command. The operators
    /// are `add`, `sub`, `and`, `or`, `neg`, `not`, `eq`, `gt` and `lt`; any
    /// other name writes nothing.
    pub fn write_arithmetic(&mut self, command: &str)
        requires
            (templates::operator(command@) matches Some(op) && op.is_comparison()) ==> old(
                self,
            )@.branch_index <= u64::MAX,
        ensures
            final(self)@ == old(self)@.after_arithmetic(command@),
    {
        let statements = match operator_of(command) {
            Some(Operator::Add) => self.get_binary_input_asm(
                command,
                single(Dest::D, Comp::DPlusM),
            ),
            Some(Operator::Sub) => self.get_binary_input_asm(
                command,
                single(Dest::D, Comp::MMinusD),
            ),
            Some(Operator::And) => self.get_binary_input_asm(
                command,
                single(Dest::D, Comp::DAndM),
            ),
            Some(Operator::Or) => self.get_binary_input_asm(command, single(Dest::D, Comp::DOrM)),
            Some(Operator::Neg) => self.get_unary_input_asm(command, single(Dest::D, Comp::NegD)),
            Some(Operator::Not) => self.get_unary_input_asm(command, single(Dest::D, Comp::NotD)),
            Some(Operator::Eq) => {
                let command_statements = self.get_comparison_asm(Jump::Jeq);
                self.get_binary_input_asm(command, command_statements)
            },
            Some(Operator::Gt) => {
                let command_statements = self.get_comparison_asm(Jump::Jgt);
                self.get_binary_input_asm(command, command_statements)
            },
            Some(Operator::Lt) => {
                let command_statements = self.get_comparison_asm(Jump::Jlt);
                self.get_binary_input_asm(command, command_statements)
            },
            None => {
                return ;
            },
        };
        self.write_statements(statements);
    }

    fn write_statements(&mut self, statements: Vec<Statement>)
        ensures
            final(self)@ == old(self)@.emit(lines_of(statements@)),
    {
        let ghost lines = lines_of(statements@);
        let mut i: usize = 0;
        assert(lines.take(0) == Seq::<Line>::empty());
        while i < statements.len()
            invariant
                i <= statements.len(),
                lines == lines_of(statements@),
                self@ == old(self)@.emit(lines.take(i as int)),
            decreases statements.len() - i,
        {
            let line = CodeWriter::post_process(&statements[i]);
            let ghost written = lines.take(i as int);
            assert(lines.take(i + 1).drop_last() == written);
            assert(lines.take(i + 1).last() == statements@[i as int]@);
            assert(render_all(lines.take(i + 1)) == render_all(written) + line@);
            self.output.append(line.as_str());
            assert(self@.output == old(self)@.output + render_all(lines.take(i + 1)));
            i += 1;
        }
        assert(lines.take(statements.len() as int) == lines);
    }

    /// The text of one statement as it stands in the output.
    pub fn post_process(statement: &Statement) -> (line: String)
        ensures
            line@ == render(statement@),
    {
        match statement {
            Statement::Comment(text) => {
                let mut line = String::from_str("// ");
                line.append(text.as_str());
                line.append("\n");
                line
            },
            Statement::Label(name) => {
                let mut line = String::from_str("(");
                line.append(name.as_str());
                line.append(")\n");
                line
            },
            Statement::Address(target) => {
                let mut line = String::from_str("  @");
                match target {
                    Target::Number(n) => {
                        push_decimal(&mut line, *n);
                    },
                    Target::Symbol(name) => {
                        line.append(name.as_str());
                    },
                }
                line.append("\n");
                line
            },
            Statement::Assign(dest, comp) => {
                let mut line = String::from_str("  ");
                line.append(dest_str(*dest));
                line.append("=");
                line.append(comp_str(*comp));
                line.append("\n");
                line
            },
            Statement::Branch(comp, jump) => {
                let mut line = String::from_str("  ");
                line.append(comp_str(*comp));
                line.append(";");
                line.append(jump_str(*jump));
                line.append("\n");
                line
            },
        }
    }

    fn get_binary_input_asm(
        &self,
        command_name: &str,
        command_statements: Vec<Statement>,
    ) -> (statements: Vec<Statement>)
        ensures
            lines_of(statements@) == templates::binary_input(
                command_name@,
                lines_of(command_statements@),
            ),
    {
        let mut statements: Vec<Statement> = Vec::new();
        push_statement(&mut statements, Statement::Comment(String::from_str(command_name)));
        extend_statements(&mut statements, first_pop());
        extend_statements(&mut statements, second_pop());
        extend_statements(&mut statements, command_statements);
        extend_statements(&mut statements, final_push());
        statements
    }

    fn get_unary_input_asm(
        &self,
        command_name: &str,
        command_statements: Vec<Statement>,
    ) -> (statements: Vec<Statement>)
        ensures
            lines_of(statements@) == templates::unary_input(
                command_name@,
                lines_of(command_statements@),
            ),
    {
        let mut statements: Vec<Statement> = Vec::new();
        push_statement(&mut statements, Statement::Comment(String::from_str(command_name)));
        extend_statements(&mut statements, first_pop());
        extend_statements(&mut statements, command_statements);
        extend_statements(&mut statements, final_push());
        statements
    }

    fn get_comparison_asm(&mut self, jump: Jump) -> (statements: Vec<Statement>)
        requires
            old(self)@.branch_index <= u64::MAX,
        ensures
            lines_of(statements@) == templates::comparison(
                old(self)@.label_prefix(),
                old(self)@.branch_index,
                jump,
            ),
            final(self)@ == (WriterState {
                branch_index: old(self)@.branch_index + 1,
                ..old(self)@
            }),
    {
        let index: u64 = self.branch_count + 1;
        let mut statements: Vec<Statement> = Vec::new();
        push_statement(&mut statements, Statement::Assign(Dest::D, Comp::MMinusD));
        push_statement(&mut statements, Statement::Address(self.numbered_symbol("_THEN", index)));
        push_statement(&mut statements, Statement::Branch(Comp::D, jump));
        push_statement(&mut statements, Statement::Assign(Dest::D, Comp::Zero));
        push_statement(&mut statements, Statement::Address(self.numbered_symbol("_END", index)));
        push_statement(&mut statements, Statement::Branch(Comp::Zero, Jump::Jmp));
        push_statement(&mut statements, Statement::Label(self.numbered_name("_THEN", index)));
        push_statement(&mut statements, Statement::Assign(Dest::D, Comp::MinusOne));
        push_statement(&mut statements, Statement::Label(self.numbered_name("_END", index)));
        self.branch_count += 1;
        statements
    }

    /// The current scope's qualifier, a mark and a number: the shape of
    /// every generated label that is counted.
    fn numbered_name(&self, mark: &str, index: u64) -> (name: String)
        ensures
            name@ == self@.label_prefix() + mark@ + crate::text::decimal(index as nat),
    {
        let mut name = String::from_str(self.get_label_prefix());
        name.append(mark);
        push_decimal(&mut name, index);
        name
    }

    fn numbered_symbol(&self, mark: &str, index: u64) -> (target: Target)
        ensures
            target@ == crate::assembly::Operand::Symbol(
                self@.label_prefix() + mark@ + crate::text::decimal(index as nat),
            ),
    {
        Target::Symbol(self.numbered_name(mark, index))
    }

    /// Writes the block of `push segment index` or `pop segment index`
    /// (`command` is `push` or `pop`). A command that no addressing rule
    /// covers is refused, and nothing is written.
    pub fn write_push_pop(&mut self, command: &str, segment: &str, index: i32) -> (result: Result<
        (),
        TranslateError,
    >)
        requires
            index >= 0,
        ensures
            match result {
                Ok(_) => Some(final(self)@) == old(self)@.after_push_pop(
                    command@,
                    segment@,
                    index as nat,
                ),
                Err(e) => e == TranslateError::UnsupportedOperandCombination && old(
                    self,
                )@.after_push_pop(command@, segment@, index as nat) is None && final(self)@ == old(
                    self,
                )@,
            },
    {
        let direction = match direction_of(command) {
            Some(direction) => direction,
            None => {
                return Err(TranslateError::UnsupportedOperandCombination);
            },
        };
        let place = match segment_of(segment) {
            Some(place) => place,
            None => {
                return Err(TranslateError::UnsupportedOperandCombination);
            },
        };
        let body = match direction {
            Direction::Push => self.get_push_asm(place, index as u64),
            Direction::Pop => self.get_pop_asm(place, index as u64),
        };
        match body {
            Some(body) => {
                let mut text = String::from_str(command);
                text.append(" ");
                text.append(segment);
                text.append(" ");
                push_decimal(&mut text, index as u64);
                let mut statements: Vec<Statement> = Vec::new();
                push_statement(&mut statements, Statement::Comment(text));
                extend_statements(&mut statements, body);
                assert(Some(lines_of(statements@)) == templates::push_pop(
                    direction,
                    place,
                    index as nat,
                    self@.base_name,
                ));
                self.write_statements(statements);
                Ok(())
            },
            None => Err(TranslateError::UnsupportedOperandCombination),
        }
    }

    fn get_push_asm(&self, segment: Segment, index: u64) -> (body: Option<Vec<Statement>>)
        ensures
            match body {
                Some(statements) => Some(lines_of(statements@)) == templates::push_body(
                    segment,
                    index as nat,
                    self@.base_name,
                ),
                None => templates::push_body(segment, index as nat, self@.base_name) is None,
            },
    {
        let mut statements: Vec<Statement> = Vec::new();
        match segment {
            Segment::Pointer => {
                return match pointer_register(index) {
                    Some(register) => Some(self.get_push_segment_asm(register)),
                    None => None,
                };
            },
            Segment::Temp => {
                push_statement(&mut statements, at_number(5));
                push_statement(&mut statements, Statement::Assign(Dest::D, Comp::A));
                extend_statements(&mut statements, push_from_base(index));
            },
            Segment::Constant => {
                push_statement(&mut statements, at_number(index));
                push_statement(&mut statements, Statement::Assign(Dest::D, Comp::A));
                extend_statements(&mut statements, final_push());
            },
            Segment::Static => {
                return Some(self.get_push_segment_asm(self.static_symbol(index).as_str()));
            },
            Segment::Local | Segment::Argument | Segment::This | Segment::That => {
                push_statement(&mut statements, at_symbol(base_register(segment)));
                push_statement(&mut statements, Statement::Assign(Dest::D, Comp::M));
                extend_statements(&mut statements, push_from_base(index));
            },
        }
        Some(statements)
    }

    fn get_pop_asm(&self, segment: Segment, index: u64) -> (body: Option<Vec<Statement>>)
        ensures
            match body {
                Some(statements) => Some(lines_of(statements@)) == templates::pop_body(
                    segment,
                    index as nat,
                    self@.base_name,
                ),
                None => templates::pop_body(segment, index as nat, self@.base_name) is None,
            },
    {
        let mut statements: Vec<Statement> = Vec::new();
        match segment {
            Segment::Pointer => {
                return match pointer_register(index) {
                    Some(register) => Some(pop_named(register)),
                    None => None,
                };
            },
            Segment::Temp => {
                push_statement(&mut statements, at_number(5));
                push_statement(&mut statements, Statement::Assign(Dest::D, Comp::A));
                extend_statements(&mut statements, pop_to_base(index));
            },
            Segment::Constant => {
                return None;
            },
            Segment::Static => {
                return Some(pop_named(self.static_symbol(index).as_str()));
            },
            Segment::Local | Segment::Argument | Segment::This | Segment::That => {
                push_statement(&mut statements, at_symbol(base_register(segment)));
                push_statement(&mut statements, Statement::Assign(Dest::D, Comp::M));
                extend_statements(&mut statements, pop_to_base(index));
            },
        }
        Some(statements)
    }

    fn static_symbol(&self, index: u64) -> (name: String)
        ensures
            name@ == templates::static_symbol(self@.base_name, index as nat),
    {
        let mut name = String::from_str(self.file_base_name.as_str());
        name.append(".");
        push_decimal(&mut name, index);
        name
    }

    /// Writes the block of `function function_name nvars` and enters the
    /// function's scope.
    pub fn write_function(&mut self, function_name: &str, nvars: i32)
        requires
            nvars >= 0,
        ensures
            final(self)@ == old(self)@.after_function(function_name@, nvars as nat),
    {
        let mut statements: Vec<Statement> = Vec::new();
        push_statement(
            &mut statements,
            Statement::Comment(name_and_count("function ", function_name, nvars as u64)),
        );
        push_statement(&mut statements, Statement::Label(String::from_str(function_name)));
        extend_statements(&mut statements, self.get_push_nvars_asm(nvars));
        assert(lines_of(statements@) == templates::function(function_name@, nvars as nat));
        self.write_statements(statements);
        self.scope = Scope::Function(String::from_str(function_name));
    }

    fn get_push_nvars_asm(&self, nvars: i32) -> (statements: Vec<Statement>)
        requires
            nvars >= 0,
        ensures
            lines_of(statements@) == templates::push_nvars(nvars as nat),
    {
        let mut statements: Vec<Statement> = Vec::new();
        let mut done: i32 = 0;
        while done < nvars
            invariant
                0 <= done <= nvars,
                lines_of(statements@) == templates::push_nvars(done as nat),
            decreases nvars - done,
        {
            push_statement(&mut statements, at_symbol("SP"));
            push_statement(&mut statements, Statement::Assign(Dest::A, Comp::M));
            push_statement(&mut statements, Statement::Assign(Dest::M, Comp::Zero));
            push_statement(&mut statements, at_symbol("SP"));
            push_statement(&mut statements, Statement::Assign(Dest::M, Comp::MPlusOne));
            done += 1;
        }
        statements
    }

    /// Writes the declaration of the user label `label` in the current
    /// scope.
    pub fn write_label(&mut self, label: &str)
        ensures
            final(self)@ == old(self)@.after_label(label@),
    {
        let mut statements: Vec<Statement> = Vec::new();
        push_statement(&mut statements, Statement::Comment(prefixed("label ", label)));
        push_statement(&mut statements, Statement::Label(self.scoped_label(label)));
        assert(lines_of(statements@) == templates::label(self@.label_prefix(), label@));
        self.write_statements(statements);
    }

    /// Writes the jump to the user label `label` of the current scope.
    pub fn write_goto(&mut self, label: &str)
        ensures
            final(self)@ == old(self)@.after_goto(label@),
    {
        let mut statements: Vec<Statement> = Vec::new();
        push_statement(&mut statements, Statement::Comment(prefixed("goto ", label)));
        let target = Target::Symbol(self.scoped_label(label));
        push_statement(&mut statements, Statement::Address(target));
        push_statement(&mut statements, Statement::Branch(Comp::Zero, Jump::Jmp));
        assert(lines_of(statements@) == templates::goto(self@.label_prefix(), label@));
        self.write_statements(statements);
    }

    /// Writes the block of `if-goto label`: pop one value and jump to the
    /// user label of the current scope if it is not zero.
    pub fn write_if(&mut self, label: &str)
        ensures
            final(self)@ == old(self)@.after_if(label@),
    {
        let mut statements: Vec<Statement> = Vec::new();
        push_statement(&mut statements, Statement::Comment(prefixed("if-goto ", label)));
        extend_statements(&mut statements, first_pop());
        let target = Target::Symbol(self.scoped_label(label));
        push_statement(&mut statements, Statement::Address(target));
        push_statement(&mut statements, Statement::Branch(Comp::D, Jump::Jne));
        assert(lines_of(statements@) == templates::if_goto(self@.label_prefix(), label@));
        self.write_statements(statements);
    }

    fn scoped_label(&self, label: &str) -> (name: String)
        ensures
            name@ == templates::scoped_label(self@.label_prefix(), label@),
    {
        let mut name = String::from_str(self.get_label_prefix());
        name.append("$");
        name.append(label);
        name
    }

    /// Writes the block of `call function_name nvars`, with a landing point
    /// of its own.
    pub fn write_call(&mut self, function_name: &str, nvars: i32)
        requires
            nvars >= 0,
            old(self)@.return_index <= u64::MAX,
        ensures
            final(self)@ == old(self)@.after_call(function_name@, nvars as nat),
    {
        let mut statements: Vec<Statement> = Vec::new();
        push_statement(
            &mut statements,
            Statement::Comment(name_and_count("call ", function_name, nvars as u64)),
        );
        extend_statements(&mut statements, self.get_call_asm(function_name, nvars as u64));
        assert(lines_of(statements@) == templates::call(
            function_name@,
            nvars as nat,
            templates::return_label(self@.label_prefix(), self@.return_index),
        ));
        self.write_statements(statements);
        self.return_count += 1;
    }

    fn get_call_asm(&self, function_name: &str, nvars: u64) -> (statements: Vec<Statement>)
        requires
            self@.return_index <= u64::MAX,
        ensures
            lines_of(statements@) == templates::call_protocol(
                function_name@,
                nvars as nat,
                templates::return_label(self@.label_prefix(), self@.return_index),
            ),
    {
        let index: u64 = self.return_count + 1;
        let mut statements: Vec<Statement> = Vec::new();
        push_statement(&mut statements, Statement::Address(self.numbered_symbol("$ret.", index)));
        push_statement(&mut statements, Statement::Assign(Dest::D, Comp::A));
        extend_statements(&mut statements, final_push());
        extend_statements(&mut statements, self.get_push_segment_asm("LCL"));
        extend_statements(&mut statements, self.get_push_segment_asm("ARG"));
        extend_statements(&mut statements, self.get_push_segment_asm("THIS"));
        extend_statements(&mut statements, self.get_push_segment_asm("THAT"));
        let mut tail: Vec<Statement> = Vec::new();
        push_statement(&mut tail, at_symbol("SP"));
        push_statement(&mut tail, Statement::Assign(Dest::D, Comp::M));
        push_statement(&mut tail, at_number(5));
        push_statement(&mut tail, Statement::Assign(Dest::D, Comp::DMinusA));
        push_statement(&mut tail, at_number(nvars));
        push_statement(&mut tail, Statement::Assign(Dest::D, Comp::DMinusA));
        push_statement(&mut tail, at_symbol("ARG"));
        push_statement(&mut tail, Statement::Assign(Dest::M, Comp::D));
        push_statement(&mut tail, at_symbol("SP"));
        push_statement(&mut tail, Statement::Assign(Dest::D, Comp::M));
        push_statement(&mut tail, at_symbol("LCL"));
        push_statement(&mut tail, Statement::Assign(Dest::M, Comp::D));
        push_statement(&mut tail, at_symbol(function_name));
        push_statement(&mut tail, Statement::Branch(Comp::Zero, Jump::Jmp));
        push_statement(&mut tail, Statement::Label(self.numbered_name("$ret.", index)));
        extend_statements(&mut statements, tail);
        statements
    }

    /// Writes the block of `return`.
    pub fn write_return(&mut self)
        ensures
            final(self)@ == old(self)@.after_return(),
    {
        let mut statements: Vec<Statement> = Vec::new();
        push_statement(&mut statements, Statement::Comment(String::from_str("return")));
        push_statement(&mut statements, at_symbol("LCL"));
        push_statement(&mut statements, Statement::Assign(Dest::D, Comp::M));
        push_statement(&mut statements, at_symbol("R13"));
        push_statement(&mut statements, Statement::Assign(Dest::M, Comp::D));
        push_statement(&mut statements, at_number(5));
        push_statement(&mut statements, Statement::Assign(Dest::D, Comp::DMinusA));
        push_statement(&mut statements, Statement::Assign(Dest::A, Comp::D));
        push_statement(&mut statements, Statement::Assign(Dest::D, Comp::M));
        push_statement(&mut statements, at_symbol("R14"));
        push_statement(&mut statements, Statement::Assign(Dest::M, Comp::D));
        extend_statements(&mut statements, first_pop());
        let mut hand_over: Vec<Statement> = Vec::new();
        push_statement(&mut hand_over, at_symbol("ARG"));
        push_statement(&mut hand_over, Statement::Assign(Dest::A, Comp::M));
        push_statement(&mut hand_over, Statement::Assign(Dest::M, Comp::D));
        push_statement(&mut hand_over, at_symbol("ARG"));
        push_statement(&mut hand_over, Statement::Assign(Dest::D, Comp::M));
        push_statement(&mut hand_over, Statement::Assign(Dest::D, Comp::DPlusOne));
        push_statement(&mut hand_over, at_symbol("SP"));
        push_statement(&mut hand_over, Statement::Assign(Dest::M, Comp::D));
        extend_statements(&mut statements, hand_over);
        extend_statements(&mut statements, self.get_recover_segment_asm("THAT", 1));
        extend_statements(&mut statements, self.get_recover_segment_asm("THIS", 2));
        extend_statements(&mut statements, self.get_recover_segment_asm("ARG", 3));
        extend_statements(&mut statements, self.get_recover_segment_asm("LCL", 4));
        let mut jump_back: Vec<Statement> = Vec::new();
        push_statement(&mut jump_back, at_symbol("R14"));
        push_statement(&mut jump_back, Statement::Assign(Dest::A, Comp::M));
        push_statement(&mut jump_back, Statement::Branch(Comp::Zero, Jump::Jmp));
        extend_statements(&mut statements, jump_back);
        assert(lines_of(statements@) == templates::return_block());
        self.write_statements(statements);
    }

    fn get_recover_segment_asm(&self, segment: &str, index: u32) -> (statements: Vec<Statement>)
        ensures
            lines_of(statements@) == templates::recover_segment(segment@, index as nat),
    {
        let mut statements: Vec<Statement> = Vec::new();
        push_statement(&mut statements, at_symbol("R13"));
        push_statement(&mut statements, Statement::Assign(Dest::D, Comp::M));
        push_statement(&mut statements, at_number(index as u64));
        push_statement(&mut statements, Statement::Assign(Dest::D, Comp::DMinusA));
        push_statement(&mut statements, Statement::Assign(Dest::A, Comp::D));
        push_statement(&mut statements, Statement::Assign(Dest::D, Comp::M));
        push_statement(&mut statements, at_symbol(segment));
        push_statement(&mut statements, Statement::Assign(Dest::M, Comp::D));
        statements
    }

    fn get_push_segment_asm(&self, segment: &str) -> (statements: Vec<Statement>)
        ensures
            lines_of(statements@) == templates::push_named(segment@),
    {
        let mut statements: Vec<Statement> = Vec::new();
        push_statement(&mut statements, at_symbol(segment));
        push_statement(&mut statements, Statement::Assign(Dest::D, Comp::M));
        extend_statements(&mut statements, final_push());
        statements
    }

    /// Writes the bootstrap: the stack pointer set to the stack's base, then
    /// a call of the entry point. It opens a unit: the generator must not
    /// have written anything yet.
    pub fn write_bootstrap(&mut self)
        requires
            old(self)@ == WriterState::fresh(old(self)@.base_name),
        ensures
            final(self)@ == old(self)@.after_bootstrap(),
    {
        let mut statements: Vec<Statement> = Vec::new();
        push_statement(&mut statements, Statement::Comment(String::from_str("bootstrap")));
        push_statement(&mut statements, at_number(256));
        push_statement(&mut statements, Statement::Assign(Dest::D, Comp::A));
        push_statement(&mut statements, at_symbol("SP"));
        push_statement(&mut statements, Statement::Assign(Dest::M, Comp::D));
        push_statement(
            &mut statements,
            Statement::Comment(name_and_count("call ", "Sys.init", 0)),
        );
        extend_statements(&mut statements, self.get_call_asm("Sys.init", 0));
        assert(lines_of(statements@) == templates::bootstrap(
            templates::return_label(self@.label_prefix(), self@.return_index),
        ));
        self.write_statements(statements);
        self.return_count += 1;
    }

    fn get_label_prefix(&self) -> (prefix: &str)
        ensures
            prefix@ == self@.label_prefix(),
    {
        match &self.scope {
            Scope::File => self.file_base_name.as_str(),
            Scope::Function(name) => name.as_str(),
        }
    }
}

/// A body of one assignment.
fn single(dest: Dest, comp: Comp) -> (statements: Vec<Statement>)
    ensures
        lines_of(statements@) == seq![Line::Assign(dest, comp)],
{
    let mut statements: Vec<Statement> = Vec::new();
    push_statement(&mut statements, Statement::Assign(dest, comp));
    statements
}

fn first_pop() -> (statements: Vec<Statement>)
    ensures
        lines_of(statements@) == templates::first_pop(),
{
    let mut statements: Vec<Statement> = Vec::new();
    push_statement(&mut statements, at_symbol("SP"));
    push_statement(&mut statements, Statement::Assign(Dest::M, Comp::MMinusOne));
    push_statement(&mut statements, Statement::Assign(Dest::A, Comp::M));
    push_statement(&mut statements, Statement::Assign(Dest::D, Comp::M));
    statements
}

fn second_pop() -> (statements: Vec<Statement>)
    ensures
        lines_of(statements@) == templates::second_pop(),
{
    let mut statements: Vec<Statement> = Vec::new();
    push_statement(&mut statements, at_symbol("SP"));
    push_statement(&mut statements, Statement::Assign(Dest::M, Comp::MMinusOne));
    push_statement(&mut statements, Statement::Assign(Dest::A, Comp::M));
    statements
}

fn final_push() -> (statements: Vec<Statement>)
    ensures
        lines_of(statements@) == templates::final_push(),
{
    let mut statements: Vec<Statement> = Vec::new();
    push_statement(&mut statements, at_symbol("SP"));
    push_statement(&mut statements, Statement::Assign(Dest::A, Comp::M));
    push_statement(&mut statements, Statement::Assign(Dest::M, Comp::D));
    push_statement(&mut statements, at_symbol("SP"));
    push_statement(&mut statements, Statement::Assign(Dest::M, Comp::MPlusOne));
    statements
}

} // verus!

verus! {

/// The operator that a name denotes.
fn operator_of(name: &str) -> (op: Option<Operator>)
    ensures
        op == templates::operator(name@),
{
    if same_text(name, "add") {
        Some(Operator::Add)
    } else if same_text(name, "sub") {
        Some(Operator::Sub)
    } else if same_text(name, "and") {
        Some(Operator::And)
    } else if same_text(name, "or") {
        Some(Operator::Or)
    } else if same_text(name, "neg") {
        Some(Operator::Neg)
    } else if same_text(name, "not") {
        Some(Operator::Not)
    } else if same_text(name, "eq") {
        Some(Operator::Eq)
    } else if same_text(name, "gt") {
        Some(Operator::Gt)
    } else if same_text(name, "lt") {
        Some(Operator::Lt)
    } else {
        None
    }
}

/// The direction that a name denotes.
fn direction_of(name: &str) -> (direction: Option<Direction>)
    ensures
        direction == templates::direction(name@),
{
    if same_text(name, "push") {
        Some(Direction::Push)
    } else if same_text(name, "pop") {
        Some(Direction::Pop)
    } else {
        None
    }
}

/// The segment that a name denotes.
fn segment_of(name: &str) -> (segment: Option<Segment>)
    ensures
        segment == templates::segment(name@),
{
    if same_text(name, "local") {
        Some(Segment::Local)
    } else if same_text(name, "argument") {
        Some(Segment::Argument)
    } else if same_text(name, "this") {
        Some(Segment::This)
    } else if same_text(name, "that") {
        Some(Segment::That)
    } else if same_text(name, "pointer") {
        Some(Segment::Pointer)
    } else if same_text(name, "temp") {
        Some(Segment::Temp)
    } else if same_text(name, "constant") {
        Some(Segment::Constant)
    } else if same_text(name, "static") {
        Some(Segment::Static)
    } else {
        None
    }
}

/// The register that holds the base address of a segment that has one.
fn base_register(segment: Segment) -> (register: &'static str)
    requires
        segment.base_register() is Some,
    ensures
        segment.base_register() == Some(register@),
{
    match segment {
        Segment::Local => "LCL",
        Segment::Argument => "ARG",
        Segment::This => "THIS",
        _ => "THAT",
    }
}

/// The register that `pointer index` stands for.
fn pointer_register(index: u64) -> (register: Option<&'static str>)
    ensures
        match register {
            Some(name) => templates::pointer_register(index as nat) == Some(name@),
            None => templates::pointer_register(index as nat) is None,
        },
{
    if index == 0 {
        Some("THIS")
    } else if index == 1 {
        Some("THAT")
    } else {
        None
    }
}

fn push_from_base(index: u64) -> (statements: Vec<Statement>)
    ensures
        lines_of(statements@) == templates::push_from_base(index as nat),
{
    let mut statements: Vec<Statement> = Vec::new();
    push_statement(&mut statements, at_number(index));
    push_statement(&mut statements, Statement::Assign(Dest::A, Comp::DPlusA));
    push_statement(&mut statements, Statement::Assign(Dest::D, Comp::M));
    extend_statements(&mut statements, final_push());
    statements
}

fn pop_to_base(index: u64) -> (statements: Vec<Statement>)
    ensures
        lines_of(statements@) == templates::pop_to_base(index as nat),
{
    let mut statements: Vec<Statement> = Vec::new();
    push_statement(&mut statements, at_number(index));
    push_statement(&mut statements, Statement::Assign(Dest::D, Comp::DPlusA));
    push_statement(&mut statements, at_symbol("R13"));
    push_statement(&mut statements, Statement::Assign(Dest::M, Comp::D));
    extend_statements(&mut statements, first_pop());
    let mut store: Vec<Statement> = Vec::new();
    push_statement(&mut store, at_symbol("R13"));
    push_statement(&mut store, Statement::Assign(Dest::A, Comp::M));
    push_statement(&mut store, Statement::Assign(Dest::M, Comp::D));
    extend_statements(&mut statements, store);
    statements
}

fn pop_named(name: &str) -> (statements: Vec<Statement>)
    ensures
        lines_of(statements@) == templates::pop_named(name@),
{
    let mut statements = first_pop();
    push_statement(&mut statements, at_symbol(name));
    push_statement(&mut statements, Statement::Assign(Dest::M, Comp::D));
    statements
}

/// `keyword`, then `rest`.
fn prefixed(keyword: &str, rest: &str) -> (text: String)
    ensures
        text@ == keyword@ + rest@,
{
    let mut text = String::from_str(keyword);
    text.append(rest);
    text
}

/// `keyword`, the name, a space and the number.
fn name_and_count(keyword: &str, name: &str, count: u64) -> (text: String)
    ensures
        text@ == templates::name_and_count(keyword@, name@, count as nat),
{
    let mut text = String::from_str(keyword);
    text.append(name);
    text.append(" ");
    push_decimal(&mut text, count);
    text
}

} // verus!
