//! The drivers: one source text to the assembly of its unit, and several
//! units to one program.

use vstd::prelude::*;
use crate::code_writer::{CodeWriter, WriterState};
use crate::error::TranslateError;
use crate::parser::{recognize, CommandType, CommandView, Parser};
use crate::text::valid_lines;

verus! {

/// The state after a `push` or `pop` command, which needs its index and an
/// addressing rule that covers it.
pub open spec fn after_stack_command(
    state: WriterState,
    keyword: Seq<char>,
    command: CommandView,
) -> Result<WriterState, TranslateError> {
    match command.arg2 {
        None => Err(TranslateError::MissingArgument),
        Some(index) => match state.after_push_pop(keyword, command.arg1, index as nat) {
            Some(next) => Ok(next),
            None => Err(TranslateError::UnsupportedOperandCombination),
        },
    }
}

/// The generator's state after one command, or why the command cannot be
/// generated: a `push`, `pop`, `function` or `call` without its number, or a
/// `push` or `pop` that no addressing rule covers. (Kept from unfolding by
/// itself: proofs that need its cases reveal it.)
#[verifier::opaque]
pub open spec fn after_command(state: WriterState, command: CommandView) -> Result<
    WriterState,
    TranslateError,
> {
    match command.kind {
        CommandType::Arithmetic => Ok(state.after_arithmetic(command.arg1)),
        CommandType::Push => after_stack_command(state, "push"@, command),
        CommandType::Pop => after_stack_command(state, "pop"@, command),
        CommandType::Label => Ok(state.after_label(command.arg1)),
        CommandType::Goto => Ok(state.after_goto(command.arg1)),
        CommandType::If => Ok(state.after_if(command.arg1)),
        CommandType::Function => match command.arg2 {
            Some(nvars) => Ok(state.after_function(command.arg1, nvars as nat)),
            None => Err(TranslateError::MissingArgument),
        },
        CommandType::Call => match command.arg2 {
            Some(nvars) => Ok(state.after_call(command.arg1, nvars as nat)),
            None => Err(TranslateError::MissingArgument),
        },
        CommandType::Return => Ok(state.after_return()),
    }
}

/// The generator's state after the commands of these lines, in order, or the
/// first failure among them.
pub open spec fn after_lines(state: WriterState, lines: Seq<Seq<char>>) -> Result<
    WriterState,
    TranslateError,
>
    decreases lines.len(),
{
    if lines.len() == 0 {
        Ok(state)
    } else {
        match recognize(lines[0]) {
            None => Err(TranslateError::MalformedCommand),
            Some(command) => match after_command(state, command) {
                Ok(next) => after_lines(next, lines.skip(1)),
                Err(e) => Err(e),
            },
        }
    }
}

/// The generator's state after these commands, in order, or the first
/// failure among them.
pub open spec fn after_commands(state: WriterState, commands: Seq<CommandView>) -> Result<
    WriterState,
    TranslateError,
>
    decreases commands.len(),
{
    if commands.len() == 0 {
        Ok(state)
    } else {
        match after_command(state, commands[0]) {
            Ok(next) => after_commands(next, commands.skip(1)),
            Err(e) => Err(e),
        }
    }
}

/// The assembly of the unit with the given base name and source text.
pub open spec fn translation(base_name: Seq<char>, text: Seq<char>) -> Result<
    Seq<char>,
    TranslateError,
> {
    match after_lines(WriterState::fresh(base_name), valid_lines(text)) {
        Ok(state) => Ok(state.output),
        Err(e) => Err(e),
    }
}

/// Generates the command under the scanner's cursor.
fn write_current(parser: &Parser, writer: &mut CodeWriter) -> (result: Result<(), TranslateError>)
    requires
        parser@.current is Some,
        old(writer)@.branch_index <= u64::MAX,
        old(writer)@.return_index <= u64::MAX,
    ensures
        match result {
            Ok(_) => after_command(old(writer)@, parser@.current.unwrap()) == Ok::<
                WriterState,
                TranslateError,
            >(final(writer)@),
            Err(e) => after_command(old(writer)@, parser@.current.unwrap()) == Err::<
                WriterState,
                TranslateError,
            >(e),
        },
        final(writer)@.branch_index <= old(writer)@.branch_index + 1,
        final(writer)@.return_index <= old(writer)@.return_index + 1,
{
    reveal(after_command);
    let kind = *parser.command_type();
    match kind {
        CommandType::Arithmetic => {
            writer.write_arithmetic(parser.arg1());
            Ok(())
        },
        CommandType::Push => {
            if !parser.has_arg2() {
                return Err(TranslateError::MissingArgument);
            }
            writer.write_push_pop("push", parser.arg1(), parser.arg2())
        },
        CommandType::Pop => {
            if !parser.has_arg2() {
                return Err(TranslateError::MissingArgument);
            }
            writer.write_push_pop("pop", parser.arg1(), parser.arg2())
        },
        CommandType::Label => {
            writer.write_label(parser.arg1());
            Ok(())
        },
        CommandType::Goto => {
            writer.write_goto(parser.arg1());
            Ok(())
        },
        CommandType::If => {
            writer.write_if(parser.arg1());
            Ok(())
        },
        CommandType::Function => {
            if !parser.has_arg2() {
                return Err(TranslateError::MissingArgument);
            }
            writer.write_function(parser.arg1(), parser.arg2());
            Ok(())
        },
        CommandType::Call => {
            if !parser.has_arg2() {
                return Err(TranslateError::MissingArgument);
            }
            writer.write_call(parser.arg1(), parser.arg2());
            Ok(())
        },
        CommandType::Return => {
            writer.write_return();
            Ok(())
        },
    }
}

/// The assembly of the unit with the given base name and source text: the
/// blocks of its commands in order. The first line that is no command, or
/// command that cannot be generated, fails the whole unit.
pub fn translate_source(file_base_name: &str, source_text: &str) -> (result: Result<
    String,
    TranslateError,
>)
    ensures
        match result {
            Ok(output) => translation(file_base_name@, source_text@) == Ok::<
                Seq<char>,
                TranslateError,
            >(output@),
            Err(e) => translation(file_base_name@, source_text@) == Err::<
                Seq<char>,
                TranslateError,
            >(e),
        },
{
    let mut parser = Parser::new(source_text);
    let mut writer = CodeWriter::with_base_name(file_base_name);
    let ghost lines = valid_lines(source_text@);
    let ghost start = WriterState::fresh(file_base_name@);
    assert(lines.skip(0) == lines);
    while parser.has_more_lines()
        invariant
            lines == valid_lines(source_text@),
            start == WriterState::fresh(file_base_name@),
            parser@.lines == lines,
            parser@.position <= lines.len(),
            after_lines(start, lines) == after_lines(writer@, lines.skip(parser@.position as int)),
            writer@.branch_index <= 1 + parser@.position,
            writer@.return_index <= 1 + parser@.position,
        decreases lines.len() - parser@.position,
    {
        let ghost rest = lines.skip(parser@.position as int);
        assert(rest[0] == lines[parser@.position as int]);
        assert(rest.skip(1) == lines.skip(parser@.position as int + 1));
        match parser.advance() {
            Ok(_) => {},
            Err(e) => {
                return Err(e);
            },
        }
        match write_current(&parser, &mut writer) {
            Ok(_) => {},
            Err(e) => {
                return Err(e);
            },
        }
    }
    Ok(String::from_str(writer.output()))
}

/// One source file of a program: its base name and its text.
pub struct SourceFile {
    pub base_name: String,
    pub text: String,
}

/// A source file as a mathematical value.
pub struct SourceFileView {
    pub base_name: Seq<char>,
    pub text: Seq<char>,
}

impl View for SourceFile {
    type V = SourceFileView;

    open spec fn view(&self) -> SourceFileView {
        SourceFileView { base_name: self.base_name@, text: self.text@ }
    }
}

/// The views of a sequence of source files.
pub open spec fn unit_views(units: Seq<SourceFile>) -> Seq<SourceFileView> {
    units.map_values(|unit: SourceFile| unit@)
}

/// The comment line that opens a unit's section of a program.
pub open spec fn section_header(base_name: Seq<char>) -> Seq<char> {
    "// > "@ + base_name + ".asm\n"@
}

/// The sections of the units, in order: each a header and the unit's
/// assembly. The first unit that fails, fails them all.
pub open spec fn sections(units: Seq<SourceFileView>) -> Result<Seq<char>, TranslateError>
    decreases units.len(),
{
    if units.len() == 0 {
        Ok(Seq::empty())
    } else {
        match sections(units.drop_last()) {
            Err(e) => Err(e),
            Ok(before) => match translation(units.last().base_name, units.last().text) {
                Ok(body) => Ok(before + section_header(units.last().base_name) + body),
                Err(e) => Err(e),
            },
        }
    }
}

/// The text of the bootstrap of the program with the given name.
pub open spec fn bootstrap_text(program_name: Seq<char>) -> Seq<char> {
    WriterState::fresh(program_name).after_bootstrap().output
}

/// The assembly of a program: the bootstrap if it is asked for, then the
/// sections of the units.
pub open spec fn program(
    program_name: Seq<char>,
    need_bootstrap: bool,
    units: Seq<SourceFileView>,
) -> Result<Seq<char>, TranslateError> {
    match sections(units) {
        Ok(body) => Ok(
            if need_bootstrap {
                bootstrap_text(program_name) + body
            } else {
                body
            },
        ),
        Err(e) => Err(e),
    }
}

/// The assembly of a program made of several units, each generated on its
/// own and given a section of the output in the order of `units`. With
/// `need_bootstrap` the bootstrap comes first, once, before every section.
pub fn translate_program(
    program_name: &str,
    need_bootstrap: bool,
    units: &Vec<SourceFile>,
) -> (result: Result<String, TranslateError>)
    ensures
        match result {
            Ok(output) => program(program_name@, need_bootstrap, unit_views(units@)) == Ok::<
                Seq<char>,
                TranslateError,
            >(output@),
            Err(e) => program(program_name@, need_bootstrap, unit_views(units@)) == Err::<
                Seq<char>,
                TranslateError,
            >(e),
        },
{
    let mut writer = CodeWriter::with_base_name(program_name);
    if need_bootstrap {
        writer.write_bootstrap();
    }
    let mut output = String::from_str(writer.output());
    let mut body = String::new();
    let ghost all = unit_views(units@);
    let mut i: usize = 0;
    assert(all.take(0) == Seq::<SourceFileView>::empty());
    while i < units.len()
        invariant
            i <= units.len(),
            all == unit_views(units@),
            sections(all.take(i as int)) == Ok::<Seq<char>, TranslateError>(body@),
        decreases units.len() - i,
    {
        let unit = &units[i];
        assert(all.take(i + 1).drop_last() == all.take(i as int));
        assert(all.take(i + 1).last() == unit@);
        match translate_source(unit.base_name.as_str(), unit.text.as_str()) {
            Ok(unit_body) => {
                let ghost before = body@;
                body.append("// > ");
                body.append(unit.base_name.as_str());
                body.append(".asm\n");
                body.append(unit_body.as_str());
                assert(body@ == before + section_header(unit@.base_name) + unit_body@);
            },
            Err(e) => {
                proof {
                    lemma_sections_failure(all, i + 1);
                }
                return Err(e);
            },
        }
        i += 1;
    }
    assert(all.take(units.len() as int) == all);
    output.append(body.as_str());
    Ok(output)
}

/// Once a unit has failed, the units after it change nothing.
proof fn lemma_sections_failure(units: Seq<SourceFileView>, k: int)
    requires
        0 <= k <= units.len(),
        sections(units.take(k)) is Err,
    ensures
        sections(units) == sections(units.take(k)),
    decreases units.len() - k,
{
    if k < units.len() {
        assert(units.take(k + 1).drop_last() == units.take(k));
        lemma_sections_failure(units, k + 1);
    } else {
        assert(units.take(k) == units);
    }
}

/// The bootstrap, when it is asked for, stands exactly once in the
/// program, ahead of everything else: the program is the text of the
/// bootstrap block and then precisely what the program is without it. The
/// block is the one that sets the stack pointer and calls the entry point,
/// written by a generator that has written nothing before.
pub proof fn law_bootstrap_first(program_name: Seq<char>, units: Seq<SourceFileView>)
    ensures
        match program(program_name, false, units) {
            Ok(rest) => program(program_name, true, units) == Ok::<Seq<char>, TranslateError>(
                bootstrap_text(program_name) + rest,
            ),
            Err(e) => program(program_name, true, units) == Err::<Seq<char>, TranslateError>(e),
        },
        bootstrap_text(program_name) == crate::assembly::render_all(
            crate::templates::bootstrap(crate::templates::return_label(program_name, 1)),
        ),
{
    assert(bootstrap_text(program_name) =~= crate::assembly::render_all(
        crate::templates::bootstrap(crate::templates::return_label(program_name, 1)),
    ));
}

} // verus!
