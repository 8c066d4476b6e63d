//! The grammar of the language, as functions on sequences of characters.
//!
//! Each rule is a function from a text and a position in it to what stands
//! there and the number of characters that it takes, or to `None` where the
//! rule does not match there. Where a rule offers alternatives, the first
//! that matches is taken.
use vstd::prelude::*;
use crate::expression::{ExpressionView, Operator};
use crate::statement::StatementView;
use crate::value::ValueView;

verus! {

/// Whether a character is a decimal digit.
pub open spec fn is_digit(c: char) -> bool {
    '0' <= c && c <= '9'
}

/// Whether a name can begin with a character: a letter or an underscore.
pub open spec fn is_name_start(c: char) -> bool {
    ('a' <= c && c <= 'z') || ('A' <= c && c <= 'Z') || c == '_'
}

/// Whether a name can go on with a character: a letter, an underscore or a digit.
pub open spec fn is_name_char(c: char) -> bool {
    is_name_start(c) || is_digit(c)
}

/// Whether a character is a space, a tab, a carriage return or a line feed.
pub open spec fn is_blank(c: char) -> bool {
    c == ' ' || c == '\t' || c == '\r' || c == '\n'
}

/// The number of characters from a position to the end of the text.
pub open spec fn remaining(s: Seq<char>, at: nat) -> nat {
    if at <= s.len() {
        (s.len() - at) as nat
    } else {
        0
    }
}

/// Whether the text holds the character `c` at a position.
pub open spec fn has_char(s: Seq<char>, at: nat, c: char) -> bool {
    at < s.len() && s[at as int] == c
}

/// The `len` characters of the text from a position on.
pub open spec fn piece(s: Seq<char>, at: nat, len: nat) -> Seq<char> {
    s.subrange(at as int, (at + len) as int)
}

/// Whether the text holds the characters of `lit` from a position on.
pub open spec fn has_literal(s: Seq<char>, at: nat, lit: Seq<char>) -> bool {
    at + lit.len() <= s.len() && piece(s, at, lit.len()) == lit
}

/// The number of digits that stand at a position.
pub open spec fn digits_len(s: Seq<char>, at: nat) -> nat
    decreases remaining(s, at),
{
    if at < s.len() && is_digit(s[at as int]) {
        1 + digits_len(s, at + 1)
    } else {
        0
    }
}

/// The number of characters of a name that stand at a position.
pub open spec fn name_len(s: Seq<char>, at: nat) -> nat
    decreases remaining(s, at),
{
    if at < s.len() && is_name_char(s[at as int]) {
        1 + name_len(s, at + 1)
    } else {
        0
    }
}

/// The number of blank characters that stand at a position.
pub open spec fn blank_len(s: Seq<char>, at: nat) -> nat
    decreases remaining(s, at),
{
    if at < s.len() && is_blank(s[at as int]) {
        1 + blank_len(s, at + 1)
    } else {
        0
    }
}

/// The number of characters from a position up to the next double quote, or
/// to the end of the text.
pub open spec fn quoted_len(s: Seq<char>, at: nat) -> nat
    decreases remaining(s, at),
{
    if at < s.len() && s[at as int] != '"' {
        1 + quoted_len(s, at + 1)
    } else {
        0
    }
}

/// Whether a line feed stands among the `len` characters from a position on.
pub open spec fn newline_in(s: Seq<char>, at: nat, len: nat) -> bool {
    exists|i: int| at <= i < at + len && i < s.len() && s[i] == '\n'
}

/// The number that a digit stands for.
pub open spec fn digit_value(c: char) -> nat {
    (c as int - '0' as int) as nat
}

/// The number that a sequence of digits stands for in decimal.
pub open spec fn decimal_value(digits: Seq<char>) -> nat
    decreases digits.len(),
{
    if digits.len() == 0 {
        0
    } else {
        decimal_value(digits.drop_last()) * 10 + digit_value(digits.last())
    }
}

/// An integer literal: one or more digits, whose decimal value fits an integer.
pub open spec fn integer_at(s: Seq<char>, at: nat) -> Option<(i32, nat)> {
    let n = digits_len(s, at);
    let value = decimal_value(piece(s, at, n));
    if n > 0 && value <= i32::MAX {
        Some((value as i32, n))
    } else {
        None
    }
}

/// A string literal: a double quote, any characters but a double quote,
/// taken as they are, and a double quote.
pub open spec fn string_at(s: Seq<char>, at: nat) -> Option<(ValueView, nat)> {
    let n = quoted_len(s, at + 1);
    if has_char(s, at, '"') && has_char(s, at + 1 + n, '"') {
        Some((ValueView::Str(piece(s, at + 1, n)), n + 2))
    } else {
        None
    }
}

/// A name: a letter or an underscore, then letters, underscores and digits.
pub open spec fn name_at(s: Seq<char>, at: nat) -> Option<(Seq<char>, nat)> {
    if at < s.len() && is_name_start(s[at as int]) {
        let n = 1 + name_len(s, at + 1);
        Some((piece(s, at, n), n))
    } else {
        None
    }
}

/// Whether `lit` stands behind a position, with a space before and behind it.
pub open spec fn spaced(s: Seq<char>, at: nat, lit: Seq<char>) -> bool {
    has_char(s, at, ' ') && has_literal(s, at + 1, lit) && has_char(s, at + 1 + lit.len(), ' ')
}

/// A binary operator between two spaces: `+`, `==`, `and` or `or`.
pub open spec fn operator_at(s: Seq<char>, at: nat) -> Option<(Operator, nat)> {
    if spaced(s, at, "+"@) {
        Some((Operator::Add, 2 + "+"@.len()))
    } else if spaced(s, at, "=="@) {
        Some((Operator::Equality, 2 + "=="@.len()))
    } else if spaced(s, at, "and"@) {
        Some((Operator::And, 2 + "and"@.len()))
    } else if spaced(s, at, "or"@) {
        Some((Operator::Or, 2 + "or"@.len()))
    } else {
        None
    }
}

/// An expression: `!` and an expression, which is negated as a whole; or an
/// operand, an operator and an expression; or an operand alone.
pub open spec fn expression_at(s: Seq<char>, at: nat) -> Option<(ExpressionView, nat)>
    decreases remaining(s, at), 2nat,
{
    if at >= s.len() {
        None
    } else if has_char(s, at, '!') {
        match expression_at(s, at + 1) {
            Some((inner, n)) => Some((ExpressionView::Not(Box::new(inner)), n + 1)),
            None => None,
        }
    } else {
        match operand_at(s, at) {
            None => None,
            Some((left, n)) => match operator_at(s, at + n) {
                None => Some((left, n)),
                Some((op, k)) => match expression_at(s, at + n + k) {
                    None => Some((left, n)),
                    Some((right, m)) => Some(
                        (
                            ExpressionView::OperatorExpression(
                                Box::new(left),
                                op,
                                Box::new(right),
                            ),
                            n + k + m,
                        ),
                    ),
                },
            },
        }
    }
}

/// An operand: a name with an index; or a name and ` squanch`, the length
/// of what the name is bound to; or a name alone, a variable; or an integer
/// literal; or a string literal.
pub open spec fn operand_at(s: Seq<char>, at: nat) -> Option<(ExpressionView, nat)>
    decreases remaining(s, at), 1nat,
{
    match indexed_at(s, at) {
        Some((name, index, n)) => Some((ExpressionView::ListIndex(name, Box::new(index)), n)),
        None => match name_at(s, at) {
            Some((name, n)) => if has_literal(s, at + n, " squanch"@) {
                Some((ExpressionView::ListLength(name), n + " squanch"@.len()))
            } else {
                Some((ExpressionView::Variable(name), n))
            },
            None => match integer_at(s, at) {
                Some((i, n)) => Some((ExpressionView::Value(ValueView::Int(i)), n)),
                None => match string_at(s, at) {
                    Some((v, n)) => Some((ExpressionView::Value(v), n)),
                    None => None,
                },
            },
        },
    }
}

/// A name with an index: a name, `[`, an expression and `]`.
pub open spec fn indexed_at(s: Seq<char>, at: nat) -> Option<(Seq<char>, ExpressionView, nat)>
    decreases remaining(s, at), 0nat,
{
    match name_at(s, at) {
        None => None,
        Some((name, n)) => if has_char(s, at + n, '[') {
            match expression_at(s, at + n + 1) {
                None => None,
                Some((index, m)) => if has_char(s, at + n + 1 + m, ']') {
                    Some((name, index, n + m + 2))
                } else {
                    None
                },
            }
        } else {
            None
        },
    }
}

/// A keyword and an expression.
pub open spec fn keyword_expression_at(s: Seq<char>, at: nat, keyword: Seq<char>) -> Option<
    (ExpressionView, nat),
> {
    if has_literal(s, at, keyword) {
        match expression_at(s, at + keyword.len()) {
            Some((e, n)) => Some((e, keyword.len() + n)),
            None => None,
        }
    } else {
        None
    }
}

/// A name, a keyword and an expression.
pub open spec fn name_keyword_expression_at(s: Seq<char>, at: nat, keyword: Seq<char>) -> Option<
    (Seq<char>, ExpressionView, nat),
> {
    match name_at(s, at) {
        None => None,
        Some((name, n)) => match keyword_expression_at(s, at + n, keyword) {
            Some((e, m)) => Some((name, e, n + m)),
            None => None,
        },
    }
}

/// A print statement: `show me what you got ` and an expression.
pub open spec fn print_at(s: Seq<char>, at: nat) -> Option<(StatementView, nat)> {
    match keyword_expression_at(s, at, "show me what you got "@) {
        Some((e, n)) => Some((StatementView::Print(e), n)),
        None => None,
    }
}

/// An input statement: `portal gun ` and a name.
pub open spec fn input_at(s: Seq<char>, at: nat) -> Option<(StatementView, nat)> {
    if has_literal(s, at, "portal gun "@) {
        match name_at(s, at + "portal gun "@.len()) {
            Some((name, n)) => Some((StatementView::Input(name), "portal gun "@.len() + n)),
            None => None,
        }
    } else {
        None
    }
}

/// The deletion of an item of a list: `squanch ` and a name with an index.
pub open spec fn list_delete_at(s: Seq<char>, at: nat) -> Option<(StatementView, nat)> {
    if has_literal(s, at, "squanch "@) {
        match indexed_at(s, at + "squanch "@.len()) {
            Some((name, index, n)) => Some(
                (StatementView::ListDelete(name, index), "squanch "@.len() + n),
            ),
            None => None,
        }
    } else {
        None
    }
}

/// The deletion of a binding: `squanch ` and a name.
pub open spec fn delete_at(s: Seq<char>, at: nat) -> Option<(StatementView, nat)> {
    if has_literal(s, at, "squanch "@) {
        match name_at(s, at + "squanch "@.len()) {
            Some((name, n)) => Some((StatementView::Delete(name), "squanch "@.len() + n)),
            None => None,
        }
    } else {
        None
    }
}

/// A new list: a name and ` on a cob`.
pub open spec fn list_instantiation_at(s: Seq<char>, at: nat) -> Option<(StatementView, nat)> {
    match name_at(s, at) {
        Some((name, n)) => if has_literal(s, at + n, " on a cob"@) {
            Some((StatementView::ListNew(name), n + " on a cob"@.len()))
        } else {
            None
        },
        None => None,
    }
}

/// An append: a name, ` assimilate ` and an expression.
pub open spec fn list_append_at(s: Seq<char>, at: nat) -> Option<(StatementView, nat)> {
    match name_keyword_expression_at(s, at, " assimilate "@) {
        Some((name, e, n)) => Some((StatementView::ListAppend(name, e), n)),
        None => None,
    }
}

/// An assignment to an item of a list: a name with an index, ` squanch `
/// and an expression.
pub open spec fn list_assign_at(s: Seq<char>, at: nat) -> Option<(StatementView, nat)> {
    match indexed_at(s, at) {
        None => None,
        Some((name, index, n)) => match keyword_expression_at(s, at + n, " squanch "@) {
            Some((e, m)) => Some((StatementView::ListAssign(name, index, e), n + m)),
            None => None,
        },
    }
}

/// An assignment: a name, ` squanch ` and an expression.
pub open spec fn assignment_at(s: Seq<char>, at: nat) -> Option<(StatementView, nat)> {
    match name_keyword_expression_at(s, at, " squanch "@) {
        Some((name, e, n)) => Some((StatementView::Assignment(name, e), n)),
        None => None,
    }
}

/// A statement that holds no other statement: the first of a print, an
/// input, the deletion of an item, the deletion of a binding, a new list, an
/// append, an assignment to an item and an assignment that matches.
pub open spec fn simple_statement_at(s: Seq<char>, at: nat) -> Option<(StatementView, nat)> {
    if print_at(s, at) is Some {
        print_at(s, at)
    } else if input_at(s, at) is Some {
        input_at(s, at)
    } else if list_delete_at(s, at) is Some {
        list_delete_at(s, at)
    } else if delete_at(s, at) is Some {
        delete_at(s, at)
    } else if list_instantiation_at(s, at) is Some {
        list_instantiation_at(s, at)
    } else if list_append_at(s, at) is Some {
        list_append_at(s, at)
    } else if list_assign_at(s, at) is Some {
        list_assign_at(s, at)
    } else {
        assignment_at(s, at)
    }
}

/// A statement: the first of a loop, a conditional, a catch statement and a
/// statement that holds no other that matches.
pub open spec fn statement_at(s: Seq<char>, at: nat) -> Option<(StatementView, nat)>
    decreases remaining(s, at), 2nat,
{
    if while_loop_at(s, at) is Some {
        while_loop_at(s, at)
    } else if conditional_at(s, at) is Some {
        conditional_at(s, at)
    } else if catch_at(s, at) is Some {
        catch_at(s, at)
    } else {
        simple_statement_at(s, at)
    }
}

/// A loop: `while `, an expression, a space and a block.
pub open spec fn while_loop_at(s: Seq<char>, at: nat) -> Option<(StatementView, nat)>
    decreases remaining(s, at), 1nat,
{
    match keyword_expression_at(s, at, "while "@) {
        None => None,
        Some((cond, n)) => if has_char(s, at + n, ' ') {
            match block_at(s, at + n + 1) {
                Some((body, m)) => Some((StatementView::While(cond, body), n + 1 + m)),
                None => None,
            }
        } else {
            None
        },
    }
}

/// A conditional: `if `, an expression, a space and a block; then, where
/// it follows, an alternative.
pub open spec fn conditional_at(s: Seq<char>, at: nat) -> Option<(StatementView, nat)>
    decreases remaining(s, at), 1nat,
{
    match keyword_expression_at(s, at, "if "@) {
        None => None,
        Some((cond, n)) => if has_char(s, at + n, ' ') {
            match block_at(s, at + n + 1) {
                None => None,
                Some((body, m)) => match alternative_at(s, at + n + 1 + m) {
                    Some((other, k)) => Some(
                        (StatementView::If(cond, body, Some(other)), n + 1 + m + k),
                    ),
                    None => Some((StatementView::If(cond, body, None), n + 1 + m)),
                },
            }
        } else {
            None
        },
    }
}

/// The alternative of a conditional: ` else ` and a block.
pub open spec fn alternative_at(s: Seq<char>, at: nat) -> Option<(Seq<StatementView>, nat)>
    decreases remaining(s, at), 1nat,
{
    if has_literal(s, at, " else "@) {
        match block_at(s, at + " else "@.len()) {
            Some((other, k)) => Some((other, " else "@.len() + k)),
            None => None,
        }
    } else {
        None
    }
}

/// A catch statement: `normal plan `, a block, ` plan for failure ` and a
/// second block.
pub open spec fn catch_at(s: Seq<char>, at: nat) -> Option<(StatementView, nat)>
    decreases remaining(s, at), 1nat,
{
    if has_literal(s, at, "normal plan "@) {
        match block_at(s, at + "normal plan "@.len()) {
            None => None,
            Some((body, m)) => {
                let end = "normal plan "@.len() + m;
                if has_literal(s, at + end, " plan for failure "@) {
                    match block_at(s, at + end + " plan for failure "@.len()) {
                        Some((handler, k)) => Some(
                            (
                                StatementView::Catch(body, handler),
                                end + " plan for failure "@.len() + k,
                            ),
                        ),
                        None => None,
                    }
                } else {
                    None
                }
            },
        }
    } else {
        None
    }
}

/// A block: `:<`, blank characters, lines, and `>:`.
pub open spec fn block_at(s: Seq<char>, at: nat) -> Option<(Seq<StatementView>, nat)>
    decreases remaining(s, at), 0nat,
{
    if has_char(s, at, ':') && has_char(s, at + 1, '<') {
        let gap = blank_len(s, at + 2);
        let (body, n) = lines_at(s, at + 2 + gap);
        if has_char(s, at + 2 + gap + n, '>') && has_char(s, at + 2 + gap + n + 1, ':') {
            Some((body, 2 + gap + n + 2))
        } else {
            None
        }
    } else {
        None
    }
}

/// Lines: as many statements as stand at a position, each but the last
/// followed by blank characters with at least one line feed among them, and
/// the blank characters behind the last. Where no statement stands there,
/// there are no lines, and they take no characters.
pub open spec fn lines_at(s: Seq<char>, at: nat) -> (Seq<StatementView>, nat)
    decreases remaining(s, at), 3nat,
{
    if at >= s.len() {
        (Seq::empty(), 0)
    } else {
        match statement_at(s, at) {
            None => (Seq::empty(), 0),
            Some((first, n)) => {
                let gap = blank_len(s, at + n);
                if newline_in(s, at + n, gap) && gap > 0 {
                    let (rest, m) = lines_at(s, at + n + gap);
                    (seq![first] + rest, n + gap + m)
                } else {
                    (seq![first], n + gap)
                }
            },
        }
    }
}

/// A program: blank characters and lines.
pub open spec fn program_at(s: Seq<char>, at: nat) -> Option<(Seq<StatementView>, nat)> {
    let gap = blank_len(s, at);
    let (body, n) = lines_at(s, at + gap);
    Some((body, gap + n))
}

/// What a rule gives for a whole text: what stands at its start, where that
/// takes all of the text; else the position up to which the text was
/// matched, which is 0 where the rule does not match at all.
pub open spec fn whole<T>(matched: Option<(T, nat)>, len: nat) -> Result<T, nat> {
    match matched {
        Some((v, n)) => if n == len {
            Ok(v)
        } else {
            Err(n)
        },
        None => Err(0),
    }
}

} // verus!
