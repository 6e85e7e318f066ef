//! The source scanner: the command lines of a text and a cursor over them.

use vstd::prelude::*;
use crate::error::TranslateError;
use crate::text::{chars_of, line_len, texts, trimmed_code, valid_lines, valid_text};

pub mod command;

pub use command::{recognize, Command, CommandType, CommandView};

verus! {

/// The scanner of one source text.
pub struct Parser {
    lines: Vec<String>,
    next_line: usize,
    current_command: Option<Command>,
}

/// A scanner as a mathematical value: its command lines, how many of them the
/// cursor has passed, and the command under the cursor once it has moved.
pub struct ParserView {
    pub lines: Seq<Seq<char>>,
    pub position: nat,
    pub current: Option<CommandView>,
}

impl View for Parser {
    type V = ParserView;

    closed spec fn view(&self) -> ParserView {
        ParserView {
            lines: texts(self.lines@),
            position: self.next_line as nat,
            current: match self.current_command {
                Some(command) => Some(command@),
                None => None,
            },
        }
    }
}

impl Parser {
    /// A scanner over the command lines of `file_text`, its cursor before the
    /// first of them.
    pub fn new(file_text: &str) -> (parser: Parser)
        ensures
            parser@ == (ParserView {
                lines: valid_lines(file_text@),
                position: 0,
                current: None,
            }),
    {
        Parser { lines: Parser::get_valid_lines(file_text), next_line: 0, current_command: None }
    }

    /// The command lines of a text: every line without its comment and the
    /// whitespace around it, the empty ones left out.
    pub fn get_valid_lines(file_text: &str) -> (lines: Vec<String>)
        ensures
            texts(lines@) == valid_lines(file_text@),
    {
        let chars = chars_of(file_text);
        let n: usize = chars.len();
        let mut lines: Vec<String> = Vec::new();
        let mut start: usize = 0;
        assert(chars@.skip(0) == chars@);
        while start < n
            invariant
                start <= n == chars.len(),
                chars@ == file_text@,
                texts(lines@) + valid_lines(chars@.skip(start as int)) == valid_lines(chars@),
            decreases n - start,
        {
            let ghost rest = chars@.skip(start as int);
            let mut end: usize = start;
            assert(chars@.skip(start as int) == rest);
            while end < n && chars[end] != '\n'
                invariant
                    start <= end <= n == chars.len(),
                    rest == chars@.skip(start as int),
                    line_len(rest) == (end - start) + line_len(chars@.skip(end as int)),
                decreases n - end,
            {
                assert(chars@.skip(end as int)[0] == chars@[end as int]);
                assert(chars@.skip(end as int).skip(1) == chars@.skip(end + 1));
                end += 1;
            }
            assert(line_len(rest) == end - start) by {
                if end < n {
                    assert(chars@.skip(end as int)[0] == chars@[end as int]);
                }
            }
            assert(rest.take(end - start) == chars@.subrange(start as int, end as int));
            let line = trimmed_code(&chars, start, end);
            let ghost before = texts(lines@);
            if line.as_str().unicode_len() != 0 {
                lines.push(line);
                assert(texts(lines@) == before + seq![valid_text(rest.take(end - start))]);
            }
            if end < n {
                assert(rest.skip(end - start + 1) == chars@.skip(end + 1));
                start = end + 1;
            } else {
                start = n;
            }
        }
        assert(valid_lines(chars@.skip(n as int)) == Seq::<Seq<char>>::empty());
        lines
    }

    /// What one line holds before its comment, trimmed.
    pub fn get_valid_text(text: &str) -> (valid: String)
        ensures
            valid@ == valid_text(text@),
    {
        let chars = chars_of(text);
        assert(chars@.subrange(0, chars.len() as int) == chars@);
        trimmed_code(&chars, 0, chars.len())
    }

    /// Whether a command line is left behind the cursor.
    pub fn has_more_lines(&self) -> (more: bool)
        ensures
            more == (self@.position < self@.lines.len()),
            more ==> self@.position < usize::MAX,
    {
        self.next_line < self.lines.len()
    }

    /// Moves the cursor to the next line and recognizes its command. A line
    /// of no command's shape is refused, and the scanner stays as it was.
    pub fn advance(&mut self) -> (result: Result<(), TranslateError>)
        requires
            old(self)@.position < old(self)@.lines.len(),
        ensures
            match result {
                Ok(_) => recognize(old(self)@.lines[old(self)@.position as int]) is Some
                    && final(self)@ == (ParserView {
                    lines: old(self)@.lines,
                    position: old(self)@.position + 1,
                    current: recognize(old(self)@.lines[old(self)@.position as int]),
                }),
                Err(e) => e == TranslateError::MalformedCommand && recognize(
                    old(self)@.lines[old(self)@.position as int],
                ) is None && final(self)@ == old(self)@,
            },
    {
        assert(self.next_line < self.lines.len());
        match Command::new(self.lines[self.next_line].as_str()) {
            Ok(command) => {
                self.next_line += 1;
                self.current_command = Some(command);
                Ok(())
            },
            Err(e) => Err(e),
        }
    }

    /// The kind of the command under the cursor.
    pub fn command_type(&self) -> (kind: &CommandType)
        requires
            self@.current is Some,
        ensures
            *kind == self@.current.unwrap().kind,
    {
        self.current_command.as_ref().unwrap().get_command_type()
    }

    /// The first argument of the command under the cursor: the operator of
    /// an arithmetic command, else the segment or the name.
    pub fn arg1(&self) -> (arg1: &str)
        requires
            self@.current is Some,
        ensures
            arg1@ == self@.current.unwrap().arg1,
    {
        self.current_command.as_ref().unwrap().get_arg1()
    }

    /// Whether the command under the cursor carries a number.
    pub fn has_arg2(&self) -> (has: bool)
        ensures
            has == (self@.current is Some && self@.current.unwrap().arg2 is Some),
    {
        match &self.current_command {
            Some(command) => command.get_arg2().is_some(),
            None => false,
        }
    }

    /// The number that the command under the cursor carries. To ask for it
    /// where there is none breaks the contract.
    pub fn arg2(&self) -> (arg2: i32)
        requires
            self@.current is Some,
            self@.current.unwrap().arg2 is Some,
        ensures
            arg2 == self@.current.unwrap().arg2.unwrap(),
            arg2 >= 0,
    {
        self.current_command.as_ref().unwrap().get_arg2().unwrap()
    }
}

} // verus!
