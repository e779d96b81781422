//! Properties of the tokenizer and the parser that hold for all inputs.
use vstd::prelude::*;
use crate::ast::{priority_of, BinaryOperator, SpecExpression, SpecIdentifier, SpecSingleIdentifier};
use crate::parser_spec::{
    binary_operator, loc, parse_binary, parse_expression, parse_identifier, parse_identifier_rest,
    parse_operand, parse_prefix,
};
use crate::text::{decimal, digit_char, digit_value, digits_value, is_ascii_letter, is_digit, repeat};
use crate::token::{keyword_of, upper, ParsedToken, SpecToken};
use crate::tokenizer::{
    escaped, first_overflow, is_space, is_word_char, lemma_run_end_bounds, lex, lex_from, lex_number,
    lex_string, next_token, run_end, space_end, word_token, zeros_end, Lexed,
};

verus! {

/// A run that every character from `i` on satisfies ends at the end of the text.
proof fn lemma_run_to_end(s: Seq<char>, i: int, p: spec_fn(char) -> bool)
    requires
        0 <= i <= s.len(),
        forall|k: int| i <= k < s.len() ==> p(s[k]),
    ensures
        run_end(s, i, p) == s.len(),
    decreases s.len() - i,
{
    if i < s.len() {
        lemma_run_to_end(s, i + 1, p);
    }
}

/// A string literal that reads successfully ends after where it was read from.
proof fn lemma_string_advances(s: Seq<char>, i: int, text: Seq<char>)
    requires
        lex_string(s, i, text) is Ok,
    ensures
        i < lex_string(s, i, text)->Ok_0.1 <= s.len() + 1,
    decreases s.len() - i,
{
    if 0 <= i < s.len() {
        if s[i] == '\'' {
            if i + 1 < s.len() && s[i + 1] == '\'' {
                lemma_string_advances(s, i + 2, text.push('\''));
            }
        } else if s[i] == '\\' {
            if i + 1 < s.len() {
                match escaped(s[i + 1]) {
                    Some(d) => lemma_string_advances(s, i + 2, text.push(d)),
                    None => {},
                }
            }
        } else if !(s[i] == '\r' || s[i] == '\n') {
            lemma_string_advances(s, i + 1, text.push(s[i]));
        }
    }
}

/// A token read from position `i` starts at or after `i` and ends after its start.
proof fn lemma_token_advances(s: Seq<char>, i: int)
    requires
        0 <= i <= s.len(),
        next_token(s, i) is Token,
    ensures
        i <= next_token(s, i)->Token_1 < next_token(s, i)->Token_2,
{
    let j = space_end(s, i);
    lemma_run_end_bounds(s, i, |c: char| is_space(c));
    let c = s[j];
    if is_ascii_letter(c) {
        lemma_run_end_bounds(s, j + 1, |c: char| is_word_char(c));
    } else if c == '\'' {
        lemma_string_advances(s, j + 1, Seq::empty());
    } else if is_digit(c) {
        lemma_run_end_bounds(s, j + 1, |c: char| is_digit(c));
    }
}

/// The tokens read from `i` on all start at or after `i`, each after the previous one.
proof fn lemma_lex_starts(s: Seq<char>, i: int, acc: Seq<(SpecToken, int)>)
    requires
        0 <= i <= s.len(),
        lex_from(s, i, acc) is Ok,
        forall|k: int| 0 <= k < acc.len() ==> acc[k].1 < i,
        forall|k: int, l: int| 0 <= k < l < acc.len() ==> acc[k].1 < acc[l].1,
    ensures
        ({
            let r = lex_from(s, i, acc)->Ok_0;
            &&& acc.len() <= r.len()
            &&& forall|k: int| 0 <= k < acc.len() ==> r[k] == acc[k]
            &&& forall|k: int, l: int| 0 <= k < l < r.len() ==> r[k].1 < r[l].1
        }),
    decreases s.len() - i,
{
    match next_token(s, i) {
        Lexed::Token(t, start, e) => {
            if i < e <= s.len() {
                lemma_token_advances(s, i);
                lemma_lex_starts(s, e, acc.push((t, start)));
                let r = lex_from(s, i, acc)->Ok_0;
                assert forall|k: int| 0 <= k < acc.len() implies r[k] == acc[k] by {
                    assert(acc.push((t, start))[k] == acc[k]);
                }
            }
        },
        _ => {},
    }
}

/// Each token of a text starts after the one before it, so token offsets
/// strictly increase along the token stream.
pub proof fn lemma_token_starts_increase(s: Seq<char>)
    requires
        lex(s) is Ok,
    ensures
        forall|k: int, l: int| 0 <= k < l < lex(s)->Ok_0.len() ==> lex(s)->Ok_0[k].1 < lex(s)->Ok_0[l].1,
{
    lemma_lex_starts(s, 0, Seq::empty());
}

/// A lone word (a letter, then letters, digits or `_`) is one token: the
/// keyword its upper-case spelling names, or else an identifier that keeps
/// the word's own case.
pub proof fn lemma_word_is_keyword_or_identifier(w: Seq<char>)
    requires
        w.len() > 0,
        is_ascii_letter(w[0]),
        forall|i: int| 0 <= i < w.len() ==> is_word_char(#[trigger] w[i]),
    ensures
        lex(w) == Ok::<Seq<(SpecToken, int)>, (Seq<char>, int)>(seq![(word_token(w), 0int)]),
        word_token(w) == match keyword_of(upper(w)) {
            Some(k) => SpecToken::Keyword(k),
            None => SpecToken::Identifier(w),
        },
{
    lemma_run_to_end(w, 0, |c: char| is_word_char(c));
    assert(w.subrange(0, w.len() as int) =~= w);
    assert(space_end(w, 0) == 0);
    assert(next_token(w, 0) == Lexed::Token(word_token(w), 0, w.len() as int));
    assert(space_end(w, w.len() as int) == w.len());
    assert(next_token(w, w.len() as int) == Lexed::End);
    let one = Seq::<(SpecToken, int)>::empty().push((word_token(w), 0int));
    assert(one =~= seq![(word_token(w), 0int)]);
    assert(lex_from(w, w.len() as int, one) == Ok::<Seq<(SpecToken, int)>, (Seq<char>, int)>(one));
    assert(lex_from(w, 0, Seq::empty()) == lex_from(w, w.len() as int, one));
}

proof fn lemma_digit_char(d: nat)
    requires
        d < 10,
    ensures
        is_digit(digit_char(d)),
        digit_value(digit_char(d)) == d,
        d > 0 ==> digit_char(d) != '0',
{
}

/// The decimal text of `n` is made of digits, has the value `n`, and starts
/// with a non-zero digit when `n` is not zero.
proof fn lemma_decimal(n: nat)
    ensures
        decimal(n).len() > 0,
        forall|i: int| 0 <= i < decimal(n).len() ==> is_digit(#[trigger] decimal(n)[i]),
        digits_value(decimal(n)) == n,
        n > 0 ==> decimal(n)[0] != '0',
    decreases n,
{
    if n < 10 {
        lemma_digit_char(n);
        assert(decimal(n).drop_last() =~= Seq::<char>::empty());
        assert(digits_value(Seq::<char>::empty()) == 0);
        assert(decimal(n).last() == digit_char(n));
    } else {
        lemma_decimal(n / 10);
        lemma_digit_char(n % 10);
        assert(decimal(n).drop_last() =~= decimal(n / 10));
        assert(decimal(n).last() == digit_char(n % 10));
        assert(digits_value(decimal(n)) == 10 * (n / 10) + n % 10);
    }
}

/// The value of a prefix of digits is at most the value of the whole.
proof fn lemma_prefix_value(s: Seq<char>, k: int)
    requires
        0 <= k <= s.len(),
    ensures
        digits_value(s.subrange(0, k)) <= digits_value(s),
    decreases s.len() - k,
{
    if k < s.len() {
        lemma_prefix_value(s, k + 1);
        assert(s.subrange(0, k + 1).drop_last() =~= s.subrange(0, k));
    } else {
        assert(s.subrange(0, k) =~= s);
    }
}

/// No prefix of the digits overflows when the whole does not.
proof fn lemma_no_overflow(s: Seq<char>, from: int)
    requires
        1 <= from,
        digits_value(s) <= u64::MAX,
    ensures
        first_overflow(s, 0, from, s.len() as int) is None,
    decreases s.len() + 1 - from,
{
    if from <= s.len() {
        lemma_prefix_value(s, from);
        lemma_no_overflow(s, from + 1);
    }
}

/// The decimal text of a positive `n` (no leading zeros) reads as one
/// integer literal with no leading zeros and the value `n`.
pub proof fn lemma_number_fidelity(n: u64)
    requires
        n > 0,
    ensures
        lex(decimal(n as nat)) == Ok::<Seq<(SpecToken, int)>, (Seq<char>, int)>(
            seq![(SpecToken::IntegerLiteral(0, Some(n)), 0int)],
        ),
{
    let s = decimal(n as nat);
    lemma_decimal(n as nat);
    lemma_run_to_end(s, 0, |c: char| is_digit(c));
    assert(zeros_end(s, 0) == 0);
    lemma_no_overflow(s, 1);
    assert(s.subrange(0, s.len() as int) =~= s);
    assert(lex_number(s, 0) == Lexed::Token(SpecToken::IntegerLiteral(0, Some(n)), 0, s.len() as int));
    assert(space_end(s, 0) == 0);
    assert(next_token(s, 0) == lex_number(s, 0));
    assert(space_end(s, s.len() as int) == s.len());
    assert(next_token(s, s.len() as int) == Lexed::End);
    let one = Seq::<(SpecToken, int)>::empty().push((SpecToken::IntegerLiteral(0, Some(n)), 0int));
    assert(one =~= seq![(SpecToken::IntegerLiteral(0, Some(n)), 0int)]);
    assert(lex_from(s, s.len() as int, one) == Ok::<Seq<(SpecToken, int)>, (Seq<char>, int)>(one));
    assert(lex_from(s, 0, Seq::empty()) == lex_from(s, s.len() as int, one));
}

/// `k` zeros (at most `u16::MAX` of them) read as one integer literal with
/// `k` leading zeros and no value.
pub proof fn lemma_zeros_fidelity(k: u16)
    requires
        k > 0,
    ensures
        lex(repeat('0', k as nat)) == Ok::<Seq<(SpecToken, int)>, (Seq<char>, int)>(
            seq![(SpecToken::IntegerLiteral(k, None), 0int)],
        ),
{
    let s = repeat('0', k as nat);
    lemma_run_to_end(s, 0, |c: char| is_digit(c));
    lemma_run_to_end(s, 0, |c: char| c == '0');
    assert(lex_number(s, 0) == Lexed::Token(SpecToken::IntegerLiteral(k, None), 0, s.len() as int));
    assert(space_end(s, 0) == 0);
    assert(next_token(s, 0) == lex_number(s, 0));
    assert(space_end(s, s.len() as int) == s.len());
    assert(next_token(s, s.len() as int) == Lexed::End);
    let one = Seq::<(SpecToken, int)>::empty().push((SpecToken::IntegerLiteral(k, None), 0int));
    assert(one =~= seq![(SpecToken::IntegerLiteral(k, None), 0int)]);
    assert(lex_from(s, s.len() as int, one) == Ok::<Seq<(SpecToken, int)>, (Seq<char>, int)>(one));
    assert(lex_from(s, 0, Seq::empty()) == lex_from(s, s.len() as int, one));
}

/// The expression for the name token at index `k`.
pub open spec fn name_at(t: Seq<ParsedToken>, k: int) -> SpecExpression {
    SpecExpression::Identifier(SpecIdentifier::Single(SpecSingleIdentifier {
        value: t[k].token@->Identifier_0,
        leaf: loc(t, k),
    }))
}

/// A name followed by a binary operator or the end reads as that name, then
/// the binary operators from the next index.
proof fn lemma_name_operand(t: Seq<ParsedToken>, k: int, min: nat)
    requires
        0 <= k < t.len(),
        t[k].token@ is Identifier,
        k + 1 == t.len() || binary_operator(t, k + 1) is Some,
    ensures
        parse_expression(t, k, min) == parse_binary(t, k + 1, name_at(t, k), min),
{
    let single = SpecSingleIdentifier { value: t[k].token@->Identifier_0, leaf: loc(t, k) };
    assert(parse_prefix(t, k) == (None::<crate::ast::UnaryOperator>, k));
    assert(parse_identifier_rest(t, k + 1, seq![single]) == Ok::<(SpecIdentifier, int), (Seq<char>, int)>((SpecIdentifier::Single(single), k + 1)));
    assert(parse_identifier(t, k) == Ok::<(SpecIdentifier, int), (Seq<char>, int)>((SpecIdentifier::Single(single), k + 1)));
    assert(parse_operand(t, k) == Ok::<(SpecExpression, int), (Seq<char>, int)>((name_at(t, k), k + 1)));
}

/// In `a op1 b op2 c`, `op1` groups first exactly when it binds at least as
/// tightly as `op2`: equal priorities group to the left.
pub proof fn lemma_precedence(t: Seq<ParsedToken>, op1: BinaryOperator, op2: BinaryOperator)
    requires
        t.len() == 5,
        t[0].token@ is Identifier,
        t[2].token@ is Identifier,
        t[4].token@ is Identifier,
        binary_operator(t, 1) == Some(op1),
        binary_operator(t, 3) == Some(op2),
    ensures
        parse_expression(t, 0, 0) == Ok::<(SpecExpression, int), (Seq<char>, int)>((
            if priority_of(op1) >= priority_of(op2) {
                SpecExpression::Binary(
                    Box::new(SpecExpression::Binary(Box::new(name_at(t, 0)), op1, Box::new(name_at(t, 2)))),
                    op2,
                    Box::new(name_at(t, 4)),
                )
            } else {
                SpecExpression::Binary(
                    Box::new(name_at(t, 0)),
                    op1,
                    Box::new(SpecExpression::Binary(Box::new(name_at(t, 2)), op2, Box::new(name_at(t, 4)))),
                )
            },
            5int,
        )),
{
    let (a, b, c) = (name_at(t, 0), name_at(t, 2), name_at(t, 4));
    let (p1, p2) = (priority_of(op1), priority_of(op2));
    lemma_name_operand(t, 0, 0);
    lemma_name_operand(t, 2, p1);
    lemma_name_operand(t, 4, p2);
    lemma_name_operand(t, 4, 0);
    assert(binary_operator(t, 5) is None);
    assert(parse_expression(t, 4, p2) == Ok::<(SpecExpression, int), (Seq<char>, int)>((c, 5int)));
    if p1 < p2 {
        let bc = SpecExpression::Binary(Box::new(b), op2, Box::new(c));
        assert(parse_binary(t, 5, bc, p1) == Ok::<(SpecExpression, int), (Seq<char>, int)>((bc, 5int)));
        assert(parse_binary(t, 3, b, p1) == Ok::<(SpecExpression, int), (Seq<char>, int)>((bc, 5int)));
        assert(parse_expression(t, 2, p1) == Ok::<(SpecExpression, int), (Seq<char>, int)>((bc, 5int)));
        let abc = SpecExpression::Binary(Box::new(a), op1, Box::new(bc));
        assert(parse_binary(t, 5, abc, 0) == Ok::<(SpecExpression, int), (Seq<char>, int)>((abc, 5int)));
        assert(parse_binary(t, 1, a, 0) == Ok::<(SpecExpression, int), (Seq<char>, int)>((abc, 5int)));
    } else {
        assert(parse_binary(t, 3, b, p1) == Ok::<(SpecExpression, int), (Seq<char>, int)>((b, 3int)));
        assert(parse_expression(t, 2, p1) == Ok::<(SpecExpression, int), (Seq<char>, int)>((b, 3int)));
        let ab = SpecExpression::Binary(Box::new(a), op1, Box::new(b));
        let abc = SpecExpression::Binary(Box::new(ab), op2, Box::new(c));
        assert(parse_binary(t, 5, abc, 0) == Ok::<(SpecExpression, int), (Seq<char>, int)>((abc, 5int)));
        assert(parse_binary(t, 3, ab, 0) == Ok::<(SpecExpression, int), (Seq<char>, int)>((abc, 5int)));
        assert(parse_binary(t, 1, a, 0) == Ok::<(SpecExpression, int), (Seq<char>, int)>((abc, 5int)));
    }
}

/// How one character is written inside a quoted string literal: `'` doubled,
/// `\`, newline and carriage return as backslash escapes, anything else as itself.
pub open spec fn escape_char(c: char) -> Seq<char> {
    if c == '\'' {
        seq!['\'', '\'']
    } else if c == '\\' {
        seq!['\\', '\\']
    } else if c == '\n' {
        seq!['\\', 'n']
    } else if c == '\r' {
        seq!['\\', 'r']
    } else {
        seq![c]
    }
}

/// The escaped form of every character of `d`, in order.
pub open spec fn escape_text(d: Seq<char>) -> Seq<char>
    decreases d.len(),
{
    if d.len() == 0 {
        Seq::empty()
    } else {
        escape_text(d.drop_last()) + escape_char(d.last())
    }
}

/// `d` written as a string literal.
pub open spec fn quoted(d: Seq<char>) -> Seq<char> {
    seq!['\''] + escape_text(d) + seq!['\'']
}

/// The escaped form of a prefix is a prefix of the escaped form.
proof fn lemma_escape_prefix(d: Seq<char>, j: int)
    requires
        0 <= j <= d.len(),
    ensures
        escape_text(d.subrange(0, j)).len() <= escape_text(d).len(),
        escape_text(d).subrange(0, escape_text(d.subrange(0, j)).len() as int) == escape_text(d.subrange(0, j)),
    decreases d.len() - j,
{
    if j == d.len() {
        assert(d.subrange(0, j) =~= d);
        assert(escape_text(d).subrange(0, escape_text(d).len() as int) =~= escape_text(d));
    } else {
        lemma_escape_prefix(d, j + 1);
        let a = d.subrange(0, j + 1);
        assert(a.drop_last() =~= d.subrange(0, j));
        assert(escape_text(a) == escape_text(d.subrange(0, j)) + escape_char(d[j]));
        let n = escape_text(d.subrange(0, j)).len() as int;
        let m = escape_text(a).len() as int;
        assert(escape_text(d).subrange(0, n) =~= escape_text(d).subrange(0, m).subrange(0, n));
        assert(escape_text(a).subrange(0, n) =~= escape_text(d.subrange(0, j)));
    }
}

/// Reading the literal up to the escaped form of the first `k` characters
/// has decoded exactly those characters.
proof fn lemma_string_prefix(d: Seq<char>, k: int)
    requires
        0 <= k <= d.len(),
    ensures
        lex_string(quoted(d), 1, Seq::empty()) == lex_string(
            quoted(d),
            1 + escape_text(d.subrange(0, k)).len() as int,
            d.subrange(0, k),
        ),
    decreases k,
{
    let s = quoted(d);
    if k == 0 {
        assert(d.subrange(0, 0) =~= Seq::<char>::empty());
    } else {
        lemma_string_prefix(d, k - 1);
        lemma_escape_prefix(d, k);
        let prev = d.subrange(0, k - 1);
        let cur = d.subrange(0, k);
        let c = d[k - 1];
        assert(cur.drop_last() =~= prev);
        assert(escape_text(cur) == escape_text(prev) + escape_char(c));
        let e = escape_text(d);
        let p = 1 + escape_text(prev).len() as int;
        let w = escape_char(c).len() as int;
        assert(s.len() == e.len() + 2);
        assert forall|m: int| 0 <= m < w implies s[p + m] == escape_char(c)[m] by {
            assert(s[p + m] == e[p + m - 1]);
            assert(e.subrange(0, escape_text(cur).len() as int)[p + m - 1] == escape_text(cur)[p + m - 1]);
        }
        assert(p + w < s.len());
        assert(prev.push(c) =~= cur);
        if c == '\'' {
            assert(s[p] == '\'' && s[p + 1] == '\'');
        } else if c == '\\' {
            assert(s[p] == '\\' && s[p + 1] == '\\');
        } else if c == '\n' {
            assert(s[p] == '\\' && s[p + 1] == 'n');
        } else if c == '\r' {
            assert(s[p] == '\\' && s[p + 1] == 'r');
        } else {
            assert(escape_char(c) == seq![c]);
            assert(s[p + 0] == escape_char(c)[0]);
            assert(s[p] == c);
        }
        assert(lex_string(s, p, prev) == lex_string(s, p + w, cur));
    }
}

/// A string written as a literal, with quotes doubled and backslash escapes,
/// reads back as exactly that string.
pub proof fn lemma_string_round_trip(d: Seq<char>)
    ensures
        lex(quoted(d)) == Ok::<Seq<(SpecToken, int)>, (Seq<char>, int)>(
            seq![(SpecToken::StringLiteral(d), 0int)],
        ),
{
    let s = quoted(d);
    lemma_string_prefix(d, d.len() as int);
    assert(d.subrange(0, d.len() as int) =~= d);
    let p = 1 + escape_text(d).len() as int;
    assert(s[p] == '\'');
    assert(lex_string(s, p, d) == Ok::<(Seq<char>, int), (Seq<char>, int)>((d, s.len() as int)));
    assert(space_end(s, 0) == 0);
    assert(next_token(s, 0) == Lexed::Token(SpecToken::StringLiteral(d), 0, s.len() as int));
    assert(space_end(s, s.len() as int) == s.len());
    assert(next_token(s, s.len() as int) == Lexed::End);
    let one = Seq::<(SpecToken, int)>::empty().push((SpecToken::StringLiteral(d), 0int));
    assert(one =~= seq![(SpecToken::StringLiteral(d), 0int)]);
    assert(lex_from(s, s.len() as int, one) == Ok::<Seq<(SpecToken, int)>, (Seq<char>, int)>(one));
    assert(lex_from(s, 0, Seq::empty()) == lex_from(s, s.len() as int, one));
}

} // verus!
