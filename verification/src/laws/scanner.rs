//! What the scanner lets through: nothing of blank lines and comments, and
//! of every other line its trimmed code.

use vstd::prelude::*;
use crate::parser::{recognize, CommandType};
use crate::text::{
    code_len, is_space, line_len, strip_comment, token_len, tokens, trim, trim_end, trim_start,
    valid_lines, valid_text,
};

verus! {

/// Whether `s` holds whitespace only.
pub open spec fn is_blank(s: Seq<char>) -> bool {
    forall|i: int| 0 <= i < s.len() ==> is_space(#[trigger] s[i])
}

/// Whether `s` holds no line feed.
pub open spec fn is_one_line(s: Seq<char>) -> bool {
    forall|i: int| 0 <= i < s.len() ==> #[trigger] s[i] != '\n'
}

proof fn lemma_trim_start_blank(s: Seq<char>)
    requires
        is_blank(s),
    ensures
        trim_start(s).len() == 0,
    decreases s.len(),
{
    if s.len() > 0 {
        assert(is_space(s[0]));
        assert forall|i: int| 0 <= i < s.skip(1).len() implies is_space(#[trigger] s.skip(1)[i]) by {
            assert(s.skip(1)[i] == s[i + 1]);
        }
        lemma_trim_start_blank(s.skip(1));
    }
}

/// The code of a text that starts with whitespace and a comment marker is
/// that whitespace.
proof fn lemma_code_before_marker(blank: Seq<char>, comment: Seq<char>)
    requires
        is_blank(blank),
    ensures
        code_len(blank + "//"@ + comment) == blank.len(),
    decreases blank.len(),
{
    reveal_strlit("//");
    let s = blank + "//"@ + comment;
    if blank.len() == 0 {
        assert(s[0] == '/' && s[1] == '/');
    } else {
        assert(s[0] == blank[0]);
        assert(is_space(blank[0]));
        let rest = blank.skip(1);
        assert forall|i: int| 0 <= i < rest.len() implies is_space(#[trigger] rest[i]) by {
            assert(rest[i] == blank[i + 1]);
        }
        assert(s.skip(1) == rest + "//"@ + comment);
        lemma_code_before_marker(rest, comment);
    }
}

/// The code of a text without a slash is the whole text.
proof fn lemma_code_without_slash(s: Seq<char>)
    requires
        forall|i: int| 0 <= i < s.len() ==> #[trigger] s[i] != '/',
    ensures
        code_len(s) == s.len(),
    decreases s.len(),
{
    if s.len() >= 2 {
        assert(s[0] != '/');
        assert forall|i: int| 0 <= i < s.skip(1).len() implies #[trigger] s.skip(1)[i] != '/' by {
            assert(s.skip(1)[i] == s[i + 1]);
        }
        lemma_code_without_slash(s.skip(1));
    }
}

proof fn lemma_line_len_of_one_line(s: Seq<char>)
    requires
        is_one_line(s),
    ensures
        line_len(s) == s.len(),
    decreases s.len(),
{
    if s.len() > 0 {
        assert(s[0] != '\n');
        assert forall|i: int| 0 <= i < s.skip(1).len() implies #[trigger] s.skip(1)[i] != '\n' by {
            assert(s.skip(1)[i] == s[i + 1]);
        }
        lemma_line_len_of_one_line(s.skip(1));
    }
}

/// A line of whitespace only has no code.
pub proof fn law_blank_line(line: Seq<char>)
    requires
        is_blank(line),
    ensures
        valid_text(line).len() == 0,
{
    assert forall|i: int| 0 <= i < line.len() implies #[trigger] line[i] != '/' by {
        assert(is_space(line[i]));
    }
    lemma_code_without_slash(line);
    assert(strip_comment(line) == line);
    lemma_trim_start_blank(line);
}

/// A line that holds only a comment, behind whitespace or not, has no code.
pub proof fn law_comment_line(blank: Seq<char>, comment: Seq<char>)
    requires
        is_blank(blank),
    ensures
        valid_text(blank + "//"@ + comment).len() == 0,
{
    let line = blank + "//"@ + comment;
    lemma_code_before_marker(blank, comment);
    assert(strip_comment(line) == blank);
    lemma_trim_start_blank(blank);
}

/// A line without code yields no command line: the scanner passes over it.
pub proof fn law_line_without_code(line: Seq<char>)
    requires
        is_one_line(line),
        valid_text(line).len() == 0,
    ensures
        valid_lines(line).len() == 0,
{
    lemma_line_len_of_one_line(line);
    assert(line.take(line.len() as int) == line);
}

/// A blank line and a line that holds only a comment yield no command.
pub proof fn law_blank_and_comment_lines_yield_nothing(blank: Seq<char>, comment: Seq<char>)
    requires
        is_blank(blank),
        is_one_line(blank),
        is_one_line(comment),
    ensures
        valid_lines(blank).len() == 0,
        valid_lines(blank + "//"@ + comment).len() == 0,
{
    reveal_strlit("//");
    law_blank_line(blank);
    law_line_without_code(blank);
    law_comment_line(blank, comment);
    let line = blank + "//"@ + comment;
    assert forall|i: int| 0 <= i < line.len() implies #[trigger] line[i] != '\n' by {
        if i < blank.len() {
            assert(line[i] == blank[i]);
        } else if i < blank.len() + 2 {
            assert(line[i] == "//"@[i - blank.len()]);
        } else {
            assert(line[i] == comment[i - blank.len() - 2]);
        }
    }
    law_line_without_code(line);
}

proof fn lemma_trim_start_shape(s: Seq<char>)
    ensures
        trim_start(s).len() > 0 ==> !is_space(trim_start(s)[0]),
    decreases s.len(),
{
    if s.len() > 0 && is_space(s[0]) {
        lemma_trim_start_shape(s.skip(1));
    }
}

proof fn lemma_trim_end_shape(s: Seq<char>)
    ensures
        trim_end(s).len() <= s.len(),
        trim_end(s) == s.take(trim_end(s).len() as int),
        trim_end(s).len() > 0 ==> !is_space(trim_end(s).last()),
    decreases s.len(),
{
    if s.len() > 0 && is_space(s.last()) {
        lemma_trim_end_shape(s.drop_last());
        let kept = trim_end(s).len() as int;
        assert(s.drop_last().take(kept) == s.take(kept));
    } else {
        assert(s.take(s.len() as int) == s);
    }
}

/// What is left of a trimmed text, if anything, starts and ends with a
/// character that is no whitespace.
pub proof fn law_trimmed(s: Seq<char>)
    ensures
        trim(s).len() > 0 ==> !is_space(trim(s)[0]) && !is_space(trim(s).last()),
{
    lemma_trim_start_shape(s);
    lemma_trim_end_shape(trim_start(s));
}

/// Every line that the scanner yields holds code: it is not empty, and it
/// starts and ends with a character that is no whitespace.
pub proof fn law_scanned_lines_hold_code(text: Seq<char>, i: int)
    requires
        0 <= i < valid_lines(text).len(),
    ensures
        valid_lines(text)[i].len() > 0,
        !is_space(valid_lines(text)[i][0]),
        !is_space(valid_lines(text)[i].last()),
    decreases text.len(),
{
    let n = line_len(text) as int;
    let line = valid_text(text.take(n));
    law_trimmed(strip_comment(text.take(n)));
    crate::text::lemma_line_len_bound(text);
    if line.len() == 0 {
        law_scanned_lines_hold_code(text.skip(n + 1), i);
    } else if i > 0 {
        law_scanned_lines_hold_code(text.skip(n + 1), i - 1);
    }
}

/// A text that starts with a character that is no whitespace has a first
/// token: a line that the scanner yields never reaches the recognizer
/// without one.
pub proof fn law_code_has_a_token(line: Seq<char>)
    requires
        line.len() > 0,
        !is_space(line[0]),
    ensures
        tokens(line).len() >= 1,
        tokens(line)[0] == line.take(token_len(line) as int),
{
    crate::text::lemma_token_len_bound(line);
}

/// The number that a recognized command carries is never negative, and only
/// `push`, `pop`, `function` and `call` carry one.
pub proof fn law_recognized_numbers(line: Seq<char>)
    ensures
        recognize(line) matches Some(command) ==> (command.arg2 matches Some(n) ==> n >= 0 && (
        command.kind == CommandType::Push || command.kind == CommandType::Pop || command.kind
            == CommandType::Function || command.kind == CommandType::Call)),
{
}

} // verus!
