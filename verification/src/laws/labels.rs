//! What holds of the generated names: labels that are counted are never
//! taken twice, and user labels never collide across scopes.

use vstd::prelude::*;
use crate::code_writer::{ScopeView, WriterState};
use crate::error::TranslateError;
use crate::parser::{CommandType, CommandView};
use crate::templates;
use crate::text::{all_digits, decimal, digit_char, digit_value, digits_value, is_digit};
use crate::translate::{after_command, after_commands};

verus! {

/// A decimal numeral is made of digits, and it denotes its number.
pub proof fn lemma_decimal(n: nat)
    ensures
        decimal(n).len() > 0,
        all_digits(decimal(n)),
        digits_value(decimal(n)) == n,
    decreases n,
{
    let last = digit_char((n % 10) as int);
    assert(is_digit(last) && digit_value(last) == n % 10);
    if n >= 10 {
        lemma_decimal(n / 10);
        let front = decimal(n / 10);
        assert(front.push(last).drop_last() == front);
        assert forall|i: int| 0 <= i < decimal(n).len() implies is_digit(
            #[trigger] decimal(n)[i],
        ) by {
            if i < front.len() {
                assert(decimal(n)[i] == front[i]);
            }
        }
        assert(decimal(n) == front.push(last));
        assert(decimal(n).last() == last);
        assert(digits_value(decimal(n)) == digits_value(front) * 10 + digit_value(last));
    } else {
        assert(decimal(n) == seq![last]);
        assert(decimal(n).drop_last() == Seq::<char>::empty());
        assert(decimal(n).last() == last);
        assert(digits_value(Seq::<char>::empty()) == 0);
        assert(digits_value(decimal(n)) == digits_value(decimal(n).drop_last()) * 10 + digit_value(
            last,
        ));
    }
}

/// Two names that each end in a numeral behind a stem whose last character
/// is no digit are equal only if their stems and their numerals are.
proof fn lemma_numbered_names(x: Seq<char>, d: Seq<char>, y: Seq<char>, e: Seq<char>)
    requires
        x + d == y + e,
        x.len() > 0 && !is_digit(x.last()),
        y.len() > 0 && !is_digit(y.last()),
        all_digits(d),
        all_digits(e),
    ensures
        x == y,
        d == e,
{
    let s = x + d;
    assert(s.len() == x.len() + d.len() && s.len() == y.len() + e.len());
    if x.len() < y.len() {
        assert(s[y.len() - 1] == d[y.len() - 1 - x.len()]);
        assert((y + e)[y.len() - 1] == y.last());
    }
    if y.len() < x.len() {
        assert((y + e)[x.len() - 1] == e[x.len() - 1 - y.len()]);
        assert(s[x.len() - 1] == x.last());
    }
    assert forall|i: int| 0 <= i < x.len() implies x[i] == y[i] by {
        assert(s[i] == x[i]);
        assert((y + e)[i] == y[i]);
    }
    assert(x =~= y);
    assert forall|i: int| 0 <= i < d.len() implies d[i] == e[i] by {
        assert(s[x.len() + i] == d[i]);
        assert((y + e)[y.len() + i] == e[i]);
    }
    assert(d =~= e);
}

proof fn lemma_marks()
    ensures
        "_THEN"@.len() == 5 && "_THEN"@[4] == 'N',
        "_END"@.len() == 4 && "_END"@[3] == 'D',
        "$ret."@.len() == 5 && "$ret."@[4] == '.',
{
    reveal_strlit("_THEN");
    reveal_strlit("_END");
    reveal_strlit("$ret.");
}

/// The labels of two comparisons differ whenever their indices differ,
/// whatever their scopes; and no label of the one kind is a label of the other.
pub proof fn law_comparison_labels_distinct(
    prefix1: Seq<char>,
    index1: nat,
    prefix2: Seq<char>,
    index2: nat,
)
    ensures
        index1 != index2 ==> templates::then_label(prefix1, index1) != templates::then_label(
            prefix2,
            index2,
        ),
        index1 != index2 ==> templates::end_label(prefix1, index1) != templates::end_label(
            prefix2,
            index2,
        ),
        templates::then_label(prefix1, index1) != templates::end_label(prefix2, index2),
{
    lemma_marks();
    lemma_decimal(index1);
    lemma_decimal(index2);
    let d1 = decimal(index1);
    let d2 = decimal(index2);
    assert((prefix1 + "_THEN"@).last() == 'N' && (prefix2 + "_THEN"@).last() == 'N');
    assert((prefix1 + "_END"@).last() == 'D' && (prefix2 + "_END"@).last() == 'D');
    if templates::then_label(prefix1, index1) == templates::then_label(prefix2, index2) {
        lemma_numbered_names(prefix1 + "_THEN"@, d1, prefix2 + "_THEN"@, d2);
    }
    if templates::end_label(prefix1, index1) == templates::end_label(prefix2, index2) {
        lemma_numbered_names(prefix1 + "_END"@, d1, prefix2 + "_END"@, d2);
    }
    if templates::then_label(prefix1, index1) == templates::end_label(prefix2, index2) {
        lemma_numbered_names(prefix1 + "_THEN"@, d1, prefix2 + "_END"@, d2);
    }
}

/// The landing points of two calls differ whenever their indices differ,
/// whatever their scopes.
pub proof fn law_return_labels_distinct(
    prefix1: Seq<char>,
    index1: nat,
    prefix2: Seq<char>,
    index2: nat,
)
    requires
        index1 != index2,
    ensures
        templates::return_label(prefix1, index1) != templates::return_label(prefix2, index2),
{
    lemma_marks();
    lemma_decimal(index1);
    lemma_decimal(index2);
    assert((prefix1 + "$ret."@).last() == '.' && (prefix2 + "$ret."@).last() == '.');
    if templates::return_label(prefix1, index1) == templates::return_label(prefix2, index2) {
        lemma_numbered_names(
            prefix1 + "$ret."@,
            decimal(index1),
            prefix2 + "$ret."@,
            decimal(index2),
        );
    }
}

/// One user label in two scopes gives two names.
pub proof fn law_user_labels_scoped(prefix1: Seq<char>, prefix2: Seq<char>, label: Seq<char>)
    requires
        prefix1 != prefix2,
    ensures
        templates::scoped_label(prefix1, label) != templates::scoped_label(prefix2, label),
{
    let a = templates::scoped_label(prefix1, label);
    let b = templates::scoped_label(prefix2, label);
    if a == b {
        assert(a.len() == prefix1.len() + "$"@.len() + label.len());
        assert(b.len() == prefix2.len() + "$"@.len() + label.len());
        assert forall|i: int| 0 <= i < prefix1.len() implies prefix1[i] == prefix2[i] by {
            assert(a[i] == prefix1[i]);
            assert(b[i] == prefix2[i]);
        }
        assert(prefix1 =~= prefix2);
    }
}

/// Two user labels in one scope give two names.
pub proof fn law_user_labels_kept_apart(prefix: Seq<char>, label1: Seq<char>, label2: Seq<char>)
    requires
        label1 != label2,
    ensures
        templates::scoped_label(prefix, label1) != templates::scoped_label(prefix, label2),
{
    let a = templates::scoped_label(prefix, label1);
    let b = templates::scoped_label(prefix, label2);
    let stem = prefix + "$"@;
    if a == b {
        assert(a.len() == stem.len() + label1.len());
        assert(b.len() == stem.len() + label2.len());
        assert forall|i: int| 0 <= i < label1.len() implies label1[i] == label2[i] by {
            assert(a[stem.len() + i] == label1[i]);
            assert(b[stem.len() + i] == label2[i]);
        }
        assert(label1 =~= label2);
    }
}

/// The same label text in the bodies of two different functions is
/// declared under two different names, wherever the two functions are
/// defined.
pub proof fn law_labels_scoped_by_function(
    state1: WriterState,
    function1: Seq<char>,
    nvars1: nat,
    state2: WriterState,
    function2: Seq<char>,
    nvars2: nat,
    label: Seq<char>,
)
    requires
        function1 != function2,
    ensures
        ({
            let in1 = state1.after_function(function1, nvars1);
            let in2 = state2.after_function(function2, nvars2);
            &&& in1.label_prefix() == function1
            &&& in2.label_prefix() == function2
            &&& templates::label(in1.label_prefix(), label)[1] == crate::assembly::Line::Label(
                templates::scoped_label(function1, label),
            )
            &&& templates::scoped_label(in1.label_prefix(), label) != templates::scoped_label(
                in2.label_prefix(),
                label,
            )
        }),
{
    law_user_labels_scoped(function1, function2, label);
}

/// Whether a command is a comparison.
pub open spec fn is_comparison(command: CommandView) -> bool {
    command.kind == CommandType::Arithmetic && (templates::operator(command.arg1) matches Some(op)
        && op.is_comparison())
}

/// What one command does to the counters and the scope: neither counter
/// ever goes back; a comparison moves the comparison counter on by one and
/// a call the call counter; and only `function` changes the scope, which
/// `return` in particular leaves as it is.
pub proof fn law_counters_and_scope(state: WriterState, command: CommandView)
    ensures
        after_command(state, command) matches Ok(next) ==> ({
            &&& next.base_name == state.base_name
            &&& next.branch_index == state.branch_index + (if is_comparison(command) {
                1int
            } else {
                0int
            })
            &&& next.return_index == state.return_index + (if command.kind == CommandType::Call {
                1int
            } else {
                0int
            })
            &&& command.kind != CommandType::Function ==> next.scope == state.scope
            &&& command.kind == CommandType::Function ==> next.scope == ScopeView::Function(
                command.arg1,
            )
        }),
{
    reveal(after_command);
}

/// Over a run of commands neither counter goes back.
pub proof fn lemma_counters_grow(state: WriterState, commands: Seq<CommandView>)
    ensures
        after_commands(state, commands) matches Ok(end) ==> end.branch_index >= state.branch_index
            && end.return_index >= state.return_index,
    decreases commands.len(),
{
    if commands.len() > 0 {
        law_counters_and_scope(state, commands[0]);
        if let Ok(next) = after_command(state, commands[0]) {
            lemma_counters_grow(next, commands.skip(1));
        }
    }
}

/// A run of commands is the run of its first `k` and then the run of the
/// rest.
pub proof fn lemma_after_commands_split(state: WriterState, commands: Seq<CommandView>, k: int)
    requires
        0 <= k <= commands.len(),
    ensures
        after_commands(state, commands) == (match after_commands(state, commands.take(k)) {
            Ok(middle) => after_commands(middle, commands.skip(k)),
            Err(e) => Err(e),
        }),
    decreases k,
{
    if k == 0 {
        assert(commands.take(0) == Seq::<CommandView>::empty());
        assert(commands.skip(0) == commands);
    } else {
        assert(commands.take(k)[0] == commands[0]);
        assert(commands.take(k).skip(1) == commands.skip(1).take(k - 1));
        assert(commands.skip(1).skip(k - 1) == commands.skip(k));
        if let Ok(next) = after_command(state, commands[0]) {
            lemma_after_commands_split(next, commands.skip(1), k - 1);
        }
    }
}

/// However many comparisons one generator writes, each takes a pair of
/// labels of its own: of two comparisons in one run of commands, the later
/// takes a higher index than the earlier, so that its two labels differ
/// from both labels of the earlier.
pub proof fn law_comparisons_take_fresh_labels(
    start: WriterState,
    commands: Seq<CommandView>,
    i: int,
    j: int,
)
    requires
        0 <= i < j < commands.len(),
        is_comparison(commands[i]),
        is_comparison(commands[j]),
        after_commands(start, commands.take(j)) is Ok,
    ensures
        ({
            let earlier = after_commands(start, commands.take(i)).unwrap();
            let later = after_commands(start, commands.take(j)).unwrap();
            let then1 = templates::then_label(earlier.label_prefix(), earlier.branch_index);
            let end1 = templates::end_label(earlier.label_prefix(), earlier.branch_index);
            let then2 = templates::then_label(later.label_prefix(), later.branch_index);
            let end2 = templates::end_label(later.label_prefix(), later.branch_index);
            &&& after_commands(start, commands.take(i)) is Ok
            &&& earlier.branch_index < later.branch_index
            &&& then1 != then2 && then1 != end2 && end1 != then2 && end1 != end2
        }),
{
    let upto = commands.take(j);
    lemma_after_commands_split(start, upto, i);
    assert(upto.take(i) == commands.take(i));
    let earlier = after_commands(start, commands.take(i)).unwrap();
    let rest = upto.skip(i);
    assert(rest[0] == commands[i]);
    law_counters_and_scope(earlier, commands[i]);
    let next = after_command(earlier, commands[i]).unwrap();
    lemma_counters_grow(next, rest.skip(1));
    let later = after_commands(start, upto).unwrap();
    law_comparison_labels_distinct(
        earlier.label_prefix(),
        earlier.branch_index,
        later.label_prefix(),
        later.branch_index,
    );
    law_comparison_labels_distinct(
        later.label_prefix(),
        later.branch_index,
        earlier.label_prefix(),
        earlier.branch_index,
    );
}

/// However many calls one generator writes, each takes a landing point of
/// its own: of two calls in one run of commands, the later takes a higher
/// index than the earlier, so that their landing points differ.
pub proof fn law_calls_take_fresh_landings(
    start: WriterState,
    commands: Seq<CommandView>,
    i: int,
    j: int,
)
    requires
        0 <= i < j < commands.len(),
        commands[i].kind == CommandType::Call,
        commands[j].kind == CommandType::Call,
        after_commands(start, commands.take(j)) is Ok,
    ensures
        ({
            let earlier = after_commands(start, commands.take(i)).unwrap();
            let later = after_commands(start, commands.take(j)).unwrap();
            &&& after_commands(start, commands.take(i)) is Ok
            &&& earlier.return_index < later.return_index
            &&& templates::return_label(earlier.label_prefix(), earlier.return_index)
                != templates::return_label(later.label_prefix(), later.return_index)
        }),
{
    let upto = commands.take(j);
    lemma_after_commands_split(start, upto, i);
    assert(upto.take(i) == commands.take(i));
    let earlier = after_commands(start, commands.take(i)).unwrap();
    let rest = upto.skip(i);
    assert(rest[0] == commands[i]);
    law_counters_and_scope(earlier, commands[i]);
    let next = after_command(earlier, commands[i]).unwrap();
    lemma_counters_grow(next, rest.skip(1));
    let later = after_commands(start, upto).unwrap();
    law_return_labels_distinct(
        earlier.label_prefix(),
        earlier.return_index,
        later.label_prefix(),
        later.return_index,
    );
}

} // verus!
