//! The command recognizer: one comment-free, trimmed line in, one typed
//! command out.

use vstd::prelude::*;
use crate::error::TranslateError;
use crate::text::{
    all_digits, chars_of, digit_value, digits_value, is_digit, is_whitespace, same_text,
    string_from, texts, token_len, tokens,
};

verus! {

/// The kinds of command.
#[derive(Clone, Copy, Debug, PartialEq, Eq, Structural)]
pub enum CommandType {
    Arithmetic,
    Push,
    Pop,
    Label,
    Goto,
    If,
    Function,
    Return,
    Call,
}

/// A command as a mathematical value: its kind, its first argument (the
/// operator of an arithmetic command, else the segment or the name; empty for
/// `return`) and the number it carries, if any.
pub struct CommandView {
    pub kind: CommandType,
    pub arg1: Seq<char>,
    pub arg2: Option<int>,
}

/// One recognized command: a value without identity beyond its content.
#[derive(Debug)]
pub struct Command {
    command_type: CommandType,
    arg1: String,
    arg2: Option<i32>,
}

/// The number that a token denotes as a numeric argument: an optional sign and
/// decimal digits, of a value from 0 to `i32::MAX`.
pub open spec fn numeric_argument(token: Seq<char>) -> Option<int> {
    let signed = token.len() > 0 && (token[0] == '+' || token[0] == '-');
    let digits = if signed {
        token.skip(1)
    } else {
        token
    };
    if digits.len() > 0 && all_digits(digits) && digits_value(digits) <= i32::MAX && (token[0]
        == '-' ==> digits_value(digits) == 0) {
        Some(digits_value(digits) as int)
    } else {
        None
    }
}

/// The command that a line denotes, by the number of its tokens and its first
/// token; `None` for a line of no command's shape.
pub open spec fn recognize(line: Seq<char>) -> Option<CommandView> {
    let t = tokens(line);
    if t.len() == 3 && t[0] == "push"@ {
        Some(CommandView { kind: CommandType::Push, arg1: t[1], arg2: numeric_argument(t[2]) })
    } else if t.len() == 3 && t[0] == "pop"@ {
        Some(CommandView { kind: CommandType::Pop, arg1: t[1], arg2: numeric_argument(t[2]) })
    } else if t.len() == 2 && t[0] == "label"@ {
        Some(CommandView { kind: CommandType::Label, arg1: t[1], arg2: None })
    } else if t.len() == 2 && t[0] == "goto"@ {
        Some(CommandView { kind: CommandType::Goto, arg1: t[1], arg2: None })
    } else if t.len() == 2 && t[0] == "if-goto"@ {
        Some(CommandView { kind: CommandType::If, arg1: t[1], arg2: None })
    } else if t.len() == 3 && t[0] == "function"@ {
        Some(
            CommandView { kind: CommandType::Function, arg1: t[1], arg2: numeric_argument(t[2]) },
        )
    } else if t.len() == 3 && t[0] == "call"@ {
        Some(CommandView { kind: CommandType::Call, arg1: t[1], arg2: numeric_argument(t[2]) })
    } else if t.len() == 1 && t[0] == "return"@ {
        Some(CommandView { kind: CommandType::Return, arg1: Seq::empty(), arg2: None })
    } else if t.len() == 1 {
        Some(CommandView { kind: CommandType::Arithmetic, arg1: t[0], arg2: None })
    } else {
        None
    }
}

proof fn lemma_digits_value_prefix(s: Seq<char>, k: int)
    requires
        0 <= k <= s.len(),
        all_digits(s),
    ensures
        digits_value(s.take(k)) <= digits_value(s),
    decreases s.len() - k,
{
    if k < s.len() {
        lemma_digits_value_prefix(s, k + 1);
        assert(s.take(k + 1).drop_last() == s.take(k));
        assert(is_digit(s[k]));
    } else {
        assert(s.take(k) == s);
    }
}

/// The tokens of a line.
pub fn split_tokens(text: &str) -> (out: Vec<String>)
    ensures
        texts(out@) == tokens(text@),
{
    let chars = chars_of(text);
    let n: usize = chars.len();
    let mut out: Vec<String> = Vec::new();
    let mut i: usize = 0;
    assert(chars@.skip(0) == chars@);
    while i < n
        invariant
            i <= n == chars.len(),
            chars@ == text@,
            texts(out@) + tokens(chars@.skip(i as int)) == tokens(chars@),
        decreases n - i,
    {
        let ghost rest = chars@.skip(i as int);
        assert(rest[0] == chars@[i as int]);
        if is_whitespace(chars[i]) {
            assert(rest.skip(1) == chars@.skip(i + 1));
            i += 1;
        } else {
            let mut j: usize = i + 1;
            assert(rest.skip(1) == chars@.skip(i + 1));
            while j < n && !is_whitespace(chars[j])
                invariant
                    i < j <= n == chars.len(),
                    rest == chars@.skip(i as int),
                    token_len(rest) == (j - i) + token_len(chars@.skip(j as int)),
                decreases n - j,
            {
                assert(chars@.skip(j as int)[0] == chars@[j as int]);
                assert(chars@.skip(j as int).skip(1) == chars@.skip(j + 1));
                j += 1;
            }
            assert(token_len(rest) == j - i) by {
                if j < n {
                    assert(chars@.skip(j as int)[0] == chars@[j as int]);
                }
            }
            let token = string_from(&chars, i, j);
            assert(token@ == rest.take(j - i));
            assert(rest.skip(j - i) == chars@.skip(j as int));
            let ghost before = texts(out@);
            out.push(token);
            assert(texts(out@) == before + seq![rest.take(j - i)]);
            i = j;
        }
    }
    assert(tokens(chars@.skip(n as int)) == Seq::<Seq<char>>::empty());
    out
}

/// The numeric argument that a token denotes, if it denotes one.
pub fn parse_index(token: &str) -> (index: Option<i32>)
    ensures
        match index {
            Some(v) => numeric_argument(token@) == Some(v as int),
            None => numeric_argument(token@) is None,
        },
{
    let chars = chars_of(token);
    let n: usize = chars.len();
    if n == 0 {
        return None;
    }
    let negative: bool = chars[0] == '-';
    let start: usize = if chars[0] == '+' || chars[0] == '-' {
        1
    } else {
        0
    };
    if start == n {
        return None;
    }
    let ghost digits = chars@.skip(start as int);
    let mut value: i32 = 0;
    let mut i: usize = start;
    assert(digits.take(0) == Seq::<char>::empty());
    assert(chars@.skip(0) == chars@);
    while i < n
        invariant
            start <= i <= n == chars.len(),
            start < n,
            chars@ == token@,
            negative == (chars@[0] == '-'),
            start == (if chars@[0] == '+' || chars@[0] == '-' {
                1usize
            } else {
                0usize
            }),
            digits == chars@.skip(start as int),
            start == 0 ==> digits == chars@,
            all_digits(digits.take(i - start)),
            value == digits_value(digits.take(i - start)),
            negative ==> value == 0,
        decreases n - i,
    {
        let c: char = chars[i];
        let ghost next = digits.take(i + 1 - start);
        assert(next.drop_last() == digits.take(i - start));
        assert(next.last() == c);
        if !('0' <= c && c <= '9') {
            assert(!is_digit(digits[i - start]));
            return None;
        }
        let d: i32 = (c as u32 - 48) as i32;
        assert(d == digit_value(c));
        assert(all_digits(next)) by {
            assert forall|k: int| 0 <= k < next.len() implies is_digit(#[trigger] next[k]) by {
                if k < next.len() - 1 {
                    assert(next[k] == digits.take(i - start)[k]);
                }
            }
        }
        if (negative && d != 0) || value > (i32::MAX - d) / 10 {
            proof {
                if all_digits(digits) {
                    lemma_digits_value_prefix(digits, i + 1 - start);
                }
            }
            return None;
        }
        value = value * 10 + d;
        i += 1;
    }
    assert(digits.take(n - start) == digits);
    Some(value)
}

impl View for Command {
    type V = CommandView;

    closed spec fn view(&self) -> CommandView {
        CommandView {
            kind: self.command_type,
            arg1: self.arg1@,
            arg2: match self.arg2 {
                Some(v) => Some(v as int),
                None => None,
            },
        }
    }
}

impl Command {
    #[verifier::type_invariant]
    spec fn carries_no_negative_number(&self) -> bool {
        self.arg2 matches Some(v) ==> v >= 0
    }

    /// Recognizes the command of one line, by the shapes of `recognize`.
    pub fn new(text: &str) -> (result: Result<Command, TranslateError>)
        ensures
            match result {
                Ok(command) => recognize(text@) == Some(command@),
                Err(e) => e == TranslateError::MalformedCommand && recognize(text@) is None,
            },
    {
        let mut parts = split_tokens(text);
        let ghost t = tokens(text@);
        assert(forall|k: int| 0 <= k < parts.len() ==> t[k] == #[trigger] parts@[k]@);
        let count: usize = parts.len();
        if count == 3 {
            let number = parts.pop().unwrap();
            let arg1 = parts.pop().unwrap();
            let arg2 = parse_index(number.as_str());
            let keyword = parts[0].as_str();
            let command_type = if same_text(keyword, "push") {
                CommandType::Push
            } else if same_text(keyword, "pop") {
                CommandType::Pop
            } else if same_text(keyword, "function") {
                CommandType::Function
            } else if same_text(keyword, "call") {
                CommandType::Call
            } else {
                return Err(TranslateError::MalformedCommand);
            };
            Ok(Command { command_type, arg1, arg2 })
        } else if count == 2 {
            let arg1 = parts.pop().unwrap();
            let keyword = parts[0].as_str();
            let command_type = if same_text(keyword, "label") {
                CommandType::Label
            } else if same_text(keyword, "goto") {
                CommandType::Goto
            } else if same_text(keyword, "if-goto") {
                CommandType::If
            } else {
                return Err(TranslateError::MalformedCommand);
            };
            Ok(Command { command_type, arg1, arg2: None })
        } else if count == 1 {
            let arg1 = parts.pop().unwrap();
            if same_text(arg1.as_str(), "return") {
                Ok(Command { command_type: CommandType::Return, arg1: String::new(), arg2: None })
            } else {
                Ok(Command { command_type: CommandType::Arithmetic, arg1, arg2: None })
            }
        } else {
            Err(TranslateError::MalformedCommand)
        }
    }

    /// The command's kind.
    pub fn get_command_type(&self) -> (kind: &CommandType)
        ensures
            *kind == self@.kind,
    {
        &self.command_type
    }

    /// The command's first argument: the operator of an arithmetic command,
    /// else the segment or the name; empty for `return`.
    pub fn get_arg1(&self) -> (arg1: &str)
        ensures
            arg1@ == self@.arg1,
    {
        self.arg1.as_str()
    }

    /// The number the command carries: present at most for `push`, `pop`,
    /// `function` and `call`, and never negative.
    pub fn get_arg2(&self) -> (arg2: Option<i32>)
        ensures
            match arg2 {
                Some(v) => self@.arg2 == Some(v as int) && v >= 0,
                None => self@.arg2 is None,
            },
    {
        proof {
            use_type_invariant(self);
        }
        self.arg2
    }
}

} // verus!
