//! Character classes and the small text routines shared by the scanner, the
//! recognizer and the generator: whitespace, trimming, comment stripping,
//! tokens and decimal numerals, each with its mathematical definition.

use vstd::prelude::*;

verus! {

/// `String::push` appends the character to the end of the string.
pub assume_specification[ String::push ](s: &mut String, ch: char)
    ensures
        final(s)@ == old(s)@.push(ch),
;

/// The characters with the Unicode `White_Space` property.
pub open spec fn is_space(c: char) -> bool {
    let u = c as u32;
    ||| 0x09 <= u <= 0x0D
    ||| u == 0x20
    ||| u == 0x85
    ||| u == 0xA0
    ||| u == 0x1680
    ||| 0x2000 <= u <= 0x200A
    ||| u == 0x2028
    ||| u == 0x2029
    ||| u == 0x202F
    ||| u == 0x205F
    ||| u == 0x3000
}

/// The decimal digits.
pub open spec fn is_digit(c: char) -> bool {
    '0' <= c <= '9'
}

/// The decimal digit that stands for `d`, for `0 <= d <= 9`.
pub open spec fn digit_char(d: int) -> char {
    (d + 48) as u8 as char
}

/// The value of a decimal digit.
pub open spec fn digit_value(c: char) -> int {
    c as u32 - 48
}

/// `s` without its leading whitespace.
pub open spec fn trim_start(s: Seq<char>) -> Seq<char>
    decreases s.len(),
{
    if s.len() > 0 && is_space(s[0]) {
        trim_start(s.skip(1))
    } else {
        s
    }
}

/// `s` without its trailing whitespace.
pub open spec fn trim_end(s: Seq<char>) -> Seq<char>
    decreases s.len(),
{
    if s.len() > 0 && is_space(s.last()) {
        trim_end(s.drop_last())
    } else {
        s
    }
}

/// `s` without the whitespace that surrounds it.
pub open spec fn trim(s: Seq<char>) -> Seq<char> {
    trim_end(trim_start(s))
}

/// How many characters of `s` stand before its first comment marker `//`
/// (all of them when it has none).
pub open spec fn code_len(s: Seq<char>) -> nat
    decreases s.len(),
{
    if s.len() < 2 {
        s.len()
    } else if s[0] == '/' && s[1] == '/' {
        0
    } else {
        1 + code_len(s.skip(1))
    }
}

/// `s` up to its first comment marker.
pub open spec fn strip_comment(s: Seq<char>) -> Seq<char> {
    s.take(code_len(s) as int)
}

/// What one raw line contributes: the text before the comment, trimmed.
pub open spec fn valid_text(line: Seq<char>) -> Seq<char> {
    trim(strip_comment(line))
}

/// How many characters of `s` stand before its first line feed (all of them
/// when it has none).
pub open spec fn line_len(s: Seq<char>) -> nat
    decreases s.len(),
{
    if s.len() == 0 || s[0] == '\n' {
        0
    } else {
        1 + line_len(s.skip(1))
    }
}

/// The command lines of a source text: each line stripped of its comment and
/// trimmed, the empty ones left out, in the order of the text.
pub open spec fn valid_lines(text: Seq<char>) -> Seq<Seq<char>>
    decreases text.len(),
{
    if text.len() == 0 {
        Seq::empty()
    } else {
        let n = line_len(text) as int;
        let line = valid_text(text.take(n));
        let rest = if n < text.len() {
            valid_lines(text.skip(n + 1))
        } else {
            Seq::empty()
        };
        if line.len() == 0 {
            rest
        } else {
            seq![line] + rest
        }
    }
}

/// How many characters of `s` stand before its first whitespace character.
pub open spec fn token_len(s: Seq<char>) -> nat
    decreases s.len(),
{
    if s.len() == 0 || is_space(s[0]) {
        0
    } else {
        1 + token_len(s.skip(1))
    }
}

/// The maximal runs of non-whitespace characters of `s`, in order.
pub open spec fn tokens(s: Seq<char>) -> Seq<Seq<char>>
    decreases s.len(),
{
    if s.len() == 0 {
        Seq::empty()
    } else if is_space(s[0]) {
        tokens(s.skip(1))
    } else {
        let n = token_len(s) as int;
        if 0 < n <= s.len() {
            seq![s.take(n)] + tokens(s.skip(n))
        } else {
            Seq::empty()
        }
    }
}

/// Whether `s` holds decimal digits only.
pub open spec fn all_digits(s: Seq<char>) -> bool {
    forall|i: int| 0 <= i < s.len() ==> is_digit(#[trigger] s[i])
}

/// The number that a string of decimal digits denotes.
pub open spec fn digits_value(s: Seq<char>) -> nat
    decreases s.len(),
{
    if s.len() == 0 {
        0
    } else {
        (digits_value(s.drop_last()) * 10 + digit_value(s.last())) as nat
    }
}

/// The decimal numeral of `n`, without leading zeros.
pub open spec fn decimal(n: nat) -> Seq<char>
    decreases n,
{
    if n < 10 {
        seq![digit_char(n as int)]
    } else {
        decimal(n / 10).push(digit_char((n % 10) as int))
    }
}

/// The views of a sequence of strings.
pub open spec fn texts(v: Seq<String>) -> Seq<Seq<char>> {
    v.map_values(|s: String| s@)
}

/// A first token ends at the first whitespace character or at the end,
/// and holds no whitespace.
pub proof fn lemma_token_len_bound(s: Seq<char>)
    ensures
        token_len(s) <= s.len(),
        token_len(s) < s.len() ==> is_space(s[token_len(s) as int]),
        forall|i: int| 0 <= i < token_len(s) ==> !is_space(#[trigger] s[i]),
    decreases s.len(),
{
    if s.len() == 0 || is_space(s[0]) {
    } else {
        lemma_token_len_bound(s.skip(1));
        assert forall|i: int| 0 <= i < token_len(s) implies !is_space(#[trigger] s[i]) by {
            if i > 0 {
                assert(s[i] == s.skip(1)[i - 1]);
            }
        }
    }
}

/// A first line ends at the first line feed or at the end.
pub proof fn lemma_line_len_bound(s: Seq<char>)
    ensures
        line_len(s) <= s.len(),
        line_len(s) < s.len() ==> s[line_len(s) as int] == '\n',
    decreases s.len(),
{
    if s.len() == 0 || s[0] == '\n' {
    } else {
        lemma_line_len_bound(s.skip(1));
    }
}

/// Whether `c` has the Unicode `White_Space` property.
pub fn is_whitespace(c: char) -> (b: bool)
    ensures
        b == is_space(c),
{
    let u: u32 = c as u32;
    (0x09 <= u && u <= 0x0D) || u == 0x20 || u == 0x85 || u == 0xA0 || u == 0x1680 || (0x2000 <= u
        && u <= 0x200A) || u == 0x2028 || u == 0x2029 || u == 0x202F || u == 0x205F || u == 0x3000
}

/// The characters of a string slice, in order.
pub fn chars_of(s: &str) -> (chars: Vec<char>)
    ensures
        chars@ == s@,
{
    let mut chars: Vec<char> = Vec::new();
    for c in it: s.chars()
        invariant
            chars@ == it.seq().take(it.index() as int),
            it.seq() == s@,
    {
        chars.push(c);
    }
    chars
}

/// The string made of `chars[from..to]`.
pub fn string_from(chars: &Vec<char>, from: usize, to: usize) -> (s: String)
    requires
        from <= to <= chars.len(),
    ensures
        s@ == chars@.subrange(from as int, to as int),
{
    let mut s = String::new();
    let mut i: usize = from;
    while i < to
        invariant
            from <= i <= to <= chars.len(),
            s@ == chars@.subrange(from as int, i as int),
        decreases to - i,
    {
        s.push(chars[i]);
        i += 1;
    }
    s
}

/// Whether two string slices hold the same characters.
pub fn same_text(a: &str, b: &str) -> (same: bool)
    ensures
        same == (a@ == b@),
{
    let x = String::from_str(a);
    let y = String::from_str(b);
    x == y
}

/// Where the code of the line `chars[from..to]` ends: at its first comment
/// marker, or at `to`.
pub fn code_end(chars: &Vec<char>, from: usize, to: usize) -> (end: usize)
    requires
        from <= to <= chars.len(),
    ensures
        end == from + code_len(chars@.subrange(from as int, to as int)),
        from <= end <= to,
{
    let ghost line = chars@.subrange(from as int, to as int);
    let mut i: usize = from;
    assert(line.skip(0) == line);
    loop
        invariant
            from <= i <= to <= chars.len(),
            line == chars@.subrange(from as int, to as int),
            code_len(line) == (i - from) + code_len(line.skip(i - from)),
        ensures
            i == from + code_len(line),
            from <= i <= to,
        decreases to - i,
    {
        let ghost rest = line.skip(i - from);
        if to - i < 2 {
            i = to;
            break ;
        }
        assert(rest[0] == chars@[i as int]);
        assert(rest[1] == chars@[i + 1]);
        if chars[i] == '/' && chars[i + 1] == '/' {
            break ;
        }
        assert(rest.skip(1) == line.skip(i + 1 - from));
        i += 1;
    }
    i
}

/// The text of the line `chars[from..to]` before its comment, trimmed.
pub fn trimmed_code(chars: &Vec<char>, from: usize, to: usize) -> (s: String)
    requires
        from <= to <= chars.len(),
    ensures
        s@ == valid_text(chars@.subrange(from as int, to as int)),
{
    let ghost line = chars@.subrange(from as int, to as int);
    let end: usize = code_end(chars, from, to);
    let ghost code = strip_comment(line);
    assert(code == chars@.subrange(from as int, end as int));
    let mut i: usize = from;
    assert(code.skip(0) == code);
    while i < end && is_whitespace(chars[i])
        invariant
            from <= i <= end <= chars.len(),
            code == chars@.subrange(from as int, end as int),
            trim_start(code) == trim_start(code.skip(i - from)),
        decreases end - i,
    {
        assert(code.skip(i - from)[0] == chars@[i as int]);
        assert(code.skip(i - from).skip(1) == code.skip(i + 1 - from));
        i += 1;
    }
    let ghost body = code.skip(i - from);
    assert(body.len() > 0 ==> body[0] == chars@[i as int]);
    assert(trim_start(code) == body);
    assert(body == chars@.subrange(i as int, end as int));
    let mut j: usize = end;
    assert(body.take(end - i) == body);
    while i < j && is_whitespace(chars[j - 1])
        invariant
            i <= j <= end <= chars.len(),
            body == chars@.subrange(i as int, end as int),
            trim_end(body) == trim_end(body.take(j - i)),
        decreases j - i,
    {
        assert(body.take(j - i).last() == chars@[j - 1]);
        assert(body.take(j - i).drop_last() == body.take(j - 1 - i));
        j -= 1;
    }
    let ghost kept = body.take(j - i);
    assert(kept.len() > 0 ==> kept.last() == chars@[j - 1]);
    assert(trim_end(body) == kept);
    assert(kept == chars@.subrange(i as int, j as int));
    string_from(chars, i, j)
}

/// Appends the decimal numeral of `n` to `out`.
pub fn push_decimal(out: &mut String, n: u64)
    ensures
        final(out)@ == old(out)@ + decimal(n as nat),
    decreases n,
{
    if n >= 10 {
        push_decimal(out, n / 10);
    }
    let d: u8 = (n % 10) as u8;
    out.push((d + 48) as char);
}

} // verus!
