//! The parser: from the text of a program to its statements.
//!
//! Each function that parses a whole text succeeds where the rule of its
//! name matches at the start of the text and takes all of it. Else it fails
//! with the position up to which the text was matched.
use vstd::prelude::*;
use vstd::string::*;
use crate::error::ParseError;
use crate::expression::{Expression, ExpressionView, Operator};
use crate::scanner::Source;
use crate::statement::{block_view, lemma_statement_view, Statement, StatementView};
use crate::syntax::{
    alternative_at, assignment_at, block_at, catch_at, conditional_at, delete_at, expression_at, indexed_at,
    input_at, integer_at, keyword_expression_at, lines_at, list_append_at, list_assign_at,
    list_delete_at, list_instantiation_at, name_keyword_expression_at, operand_at, operator_at,
    print_at, program_at, simple_statement_at, statement_at, string_at, while_loop_at, whole,
};
use crate::value::Value;

verus! {

/// Whether what the parser found is what a rule of the grammar gives, and
/// takes no more characters than the `room` that is left.
pub open spec fn found<T: View>(
    r: Option<(T, usize)>,
    expected: Option<(T::V, nat)>,
    room: int,
) -> bool {
    match r {
        Some((x, n)) => expected == Some((x@, n as nat)) && n <= room,
        None => expected is None,
    }
}

/// As `found`, for a name with an expression.
pub open spec fn found_named(
    r: Option<(String, Expression, usize)>,
    expected: Option<(Seq<char>, ExpressionView, nat)>,
    room: int,
) -> bool {
    match r {
        Some((name, e, n)) => expected == Some((name@, e@, n as nat)) && n <= room,
        None => expected is None,
    }
}

/// As `found`, for a block.
pub open spec fn found_block(
    r: Option<(Vec<Statement>, usize)>,
    expected: Option<(Seq<StatementView>, nat)>,
    room: int,
) -> bool {
    match r {
        Some((body, n)) => expected == Some((block_view(body@), n as nat)) && n <= room,
        None => expected is None,
    }
}

/// Whether the result of parsing a whole text is what was expected of it.
pub open spec fn parsed<T: View>(r: Result<T, ParseError>, expected: Result<T::V, nat>) -> bool {
    match r {
        Ok(x) => expected == Ok::<T::V, nat>(x@),
        Err(e) => expected == Err::<T::V, nat>(e.position as nat),
    }
}

/// As `parsed`, for a block.
pub open spec fn parsed_block(
    r: Result<Vec<Statement>, ParseError>,
    expected: Result<Seq<StatementView>, nat>,
) -> bool {
    match r {
        Ok(body) => expected == Ok::<Seq<StatementView>, nat>(block_view(body@)),
        Err(e) => expected == Err::<Seq<StatementView>, nat>(e.position as nat),
    }
}

impl<'a> Source<'a> {
    /// The operator that stands at a position between two spaces, and the
    /// number of characters that it takes with them.
    pub fn operator_at(&self, at: usize) -> (r: Option<(Operator, usize)>)
        requires
            self.wf(),
            at <= self@.len(),
        ensures
            found(r, operator_at(self@, at as nat), self@.len() - at),
    {
        if let Some(n) = self.spaced(at, "+") {
            Some((Operator::Add, n))
        } else if let Some(n) = self.spaced(at, "==") {
            Some((Operator::Equality, n))
        } else if let Some(n) = self.spaced(at, "and") {
            Some((Operator::And, n))
        } else if let Some(n) = self.spaced(at, "or") {
            Some((Operator::Or, n))
        } else {
            None
        }
    }

    /// The expression that stands at a position, and the number of
    /// characters that it takes.
    pub fn expression_at(&self, at: usize) -> (r: Option<(Expression, usize)>)
        requires
            self.wf(),
            at <= self@.len(),
        ensures
            found(r, expression_at(self@, at as nat), self@.len() - at),
        decreases self@.len() - at, 2nat,
    {
        if at >= self.len() {
            return None;
        }
        if self.has_char(at, '!') {
            match self.expression_at(at + 1) {
                Some((inner, n)) => Some((Expression::Not(Box::new(inner)), n + 1)),
                None => None,
            }
        } else {
            match self.operand_at(at) {
                None => None,
                Some((left, n)) => match self.operator_at(at + n) {
                    None => Some((left, n)),
                    Some((op, k)) => match self.expression_at(at + n + k) {
                        None => Some((left, n)),
                        Some((right, m)) => Some(
                            (
                                Expression::OperatorExpression(
                                    Box::new(left),
                                    op,
                                    Box::new(right),
                                ),
                                n + k + m,
                            ),
                        ),
                    },
                },
            }
        }
    }

    /// The operand that stands at a position, and the number of characters
    /// that it takes.
    pub fn operand_at(&self, at: usize) -> (r: Option<(Expression, usize)>)
        requires
            self.wf(),
            at <= self@.len(),
        ensures
            found(r, operand_at(self@, at as nat), self@.len() - at),
        decreases self@.len() - at, 1nat,
    {
        if let Some((name, index, n)) = self.indexed_at(at) {
            return Some((Expression::ListIndex(name, Box::new(index)), n));
        }
        if let Some(n) = self.name_at(at) {
            return match self.has_literal(at + n, " squanch") {
                Some(k) => Some((Expression::ListLength(self.text(at, n)), n + k)),
                None => Some((Expression::Variable(self.text(at, n)), n)),
            };
        }
        if let Some((i, n)) = self.integer_at(at) {
            return Some((Expression::Value(Value::Int(i)), n));
        }
        match self.string_at(at) {
            Some((v, n)) => Some((Expression::Value(v), n)),
            None => None,
        }
    }

    /// The name with an index that stands at a position: the name, the
    /// index, and the number of characters that they take.
    pub fn indexed_at(&self, at: usize) -> (r: Option<(String, Expression, usize)>)
        requires
            self.wf(),
            at <= self@.len(),
        ensures
            found_named(r, indexed_at(self@, at as nat), self@.len() - at),
        decreases self@.len() - at, 0nat,
    {
        let n = match self.name_at(at) {
            Some(n) => n,
            None => return None,
        };
        if !self.has_char(at + n, '[') {
            return None;
        }
        match self.expression_at(at + n + 1) {
            None => None,
            Some((index, m)) => if self.has_char(at + n + 1 + m, ']') {
                Some((self.text(at, n), index, n + m + 2))
            } else {
                None
            },
        }
    }

    /// The expression that stands behind a keyword at a position, and the
    /// number of characters that both take.
    pub fn keyword_expression_at(&self, at: usize, keyword: &str) -> (r: Option<(Expression, usize)>)
        requires
            self.wf(),
            at <= self@.len(),
        ensures
            found(r, keyword_expression_at(self@, at as nat, keyword@), self@.len() - at),
    {
        let k = match self.has_literal(at, keyword) {
            Some(k) => k,
            None => return None,
        };
        match self.expression_at(at + k) {
            Some((e, n)) => Some((e, k + n)),
            None => None,
        }
    }

    /// The name and the expression that stand at a position with a keyword
    /// between them, and the number of characters that all three take.
    pub fn name_keyword_expression_at(&self, at: usize, keyword: &str) -> (r: Option<
        (String, Expression, usize),
    >)
        requires
            self.wf(),
            at <= self@.len(),
        ensures
            found_named(
                r,
                name_keyword_expression_at(self@, at as nat, keyword@),
                self@.len() - at,
            ),
    {
        let n = match self.name_at(at) {
            Some(n) => n,
            None => return None,
        };
        match self.keyword_expression_at(at + n, keyword) {
            Some((e, m)) => Some((self.text(at, n), e, n + m)),
            None => None,
        }
    }

    /// The print statement that stands at a position.
    pub fn print_at(&self, at: usize) -> (r: Option<(Statement, usize)>)
        requires
            self.wf(),
            at <= self@.len(),
        ensures
            found(r, print_at(self@, at as nat), self@.len() - at),
    {
        match self.keyword_expression_at(at, "show me what you got ") {
            Some((e, n)) => Some((Statement::Print(e), n)),
            None => None,
        }
    }

    /// The input statement that stands at a position.
    pub fn input_at(&self, at: usize) -> (r: Option<(Statement, usize)>)
        requires
            self.wf(),
            at <= self@.len(),
        ensures
            found(r, input_at(self@, at as nat), self@.len() - at),
    {
        let k = match self.has_literal(at, "portal gun ") {
            Some(k) => k,
            None => return None,
        };
        match self.name_at(at + k) {
            Some(n) => Some((Statement::Input(self.text(at + k, n)), k + n)),
            None => None,
        }
    }

    /// The deletion of an item of a list that stands at a position.
    pub fn list_delete_at(&self, at: usize) -> (r: Option<(Statement, usize)>)
        requires
            self.wf(),
            at <= self@.len(),
        ensures
            found(r, list_delete_at(self@, at as nat), self@.len() - at),
    {
        let k = match self.has_literal(at, "squanch ") {
            Some(k) => k,
            None => return None,
        };
        match self.indexed_at(at + k) {
            Some((name, index, n)) => Some((Statement::ListDelete(name, index), k + n)),
            None => None,
        }
    }

    /// The deletion of a binding that stands at a position.
    pub fn delete_at(&self, at: usize) -> (r: Option<(Statement, usize)>)
        requires
            self.wf(),
            at <= self@.len(),
        ensures
            found(r, delete_at(self@, at as nat), self@.len() - at),
    {
        let k = match self.has_literal(at, "squanch ") {
            Some(k) => k,
            None => return None,
        };
        match self.name_at(at + k) {
            Some(n) => Some((Statement::Delete(self.text(at + k, n)), k + n)),
            None => None,
        }
    }

    /// The statement that makes a new list and stands at a position.
    pub fn list_instantiation_at(&self, at: usize) -> (r: Option<(Statement, usize)>)
        requires
            self.wf(),
            at <= self@.len(),
        ensures
            found(r, list_instantiation_at(self@, at as nat), self@.len() - at),
    {
        let n = match self.name_at(at) {
            Some(n) => n,
            None => return None,
        };
        match self.has_literal(at + n, " on a cob") {
            Some(k) => Some((Statement::ListNew(self.text(at, n)), n + k)),
            None => None,
        }
    }

    /// The append that stands at a position.
    pub fn list_append_at(&self, at: usize) -> (r: Option<(Statement, usize)>)
        requires
            self.wf(),
            at <= self@.len(),
        ensures
            found(r, list_append_at(self@, at as nat), self@.len() - at),
    {
        match self.name_keyword_expression_at(at, " assimilate ") {
            Some((name, e, n)) => Some((Statement::ListAppend(name, e), n)),
            None => None,
        }
    }

    /// The assignment to an item of a list that stands at a position.
    pub fn list_assign_at(&self, at: usize) -> (r: Option<(Statement, usize)>)
        requires
            self.wf(),
            at <= self@.len(),
        ensures
            found(r, list_assign_at(self@, at as nat), self@.len() - at),
    {
        let (name, index, n) = match self.indexed_at(at) {
            Some(found) => found,
            None => return None,
        };
        match self.keyword_expression_at(at + n, " squanch ") {
            Some((e, m)) => Some((Statement::ListAssign(name, index, e), n + m)),
            None => None,
        }
    }

    /// The assignment that stands at a position.
    pub fn assignment_at(&self, at: usize) -> (r: Option<(Statement, usize)>)
        requires
            self.wf(),
            at <= self@.len(),
        ensures
            found(r, assignment_at(self@, at as nat), self@.len() - at),
    {
        match self.name_keyword_expression_at(at, " squanch ") {
            Some((name, e, n)) => Some((Statement::Assignment(name, e), n)),
            None => None,
        }
    }

    /// The statement that stands at a position and holds no other.
    pub fn simple_statement_at(&self, at: usize) -> (r: Option<(Statement, usize)>)
        requires
            self.wf(),
            at <= self@.len(),
        ensures
            found(r, simple_statement_at(self@, at as nat), self@.len() - at),
    {
        let r = self.print_at(at);
        if r.is_some() {
            return r;
        }
        let r = self.input_at(at);
        if r.is_some() {
            return r;
        }
        let r = self.list_delete_at(at);
        if r.is_some() {
            return r;
        }
        let r = self.delete_at(at);
        if r.is_some() {
            return r;
        }
        let r = self.list_instantiation_at(at);
        if r.is_some() {
            return r;
        }
        let r = self.list_append_at(at);
        if r.is_some() {
            return r;
        }
        let r = self.list_assign_at(at);
        if r.is_some() {
            return r;
        }
        self.assignment_at(at)
    }

    /// The statement that stands at a position, and the number of
    /// characters that it takes.
    pub fn statement_at(&self, at: usize) -> (r: Option<(Statement, usize)>)
        requires
            self.wf(),
            at <= self@.len(),
        ensures
            found(r, statement_at(self@, at as nat), self@.len() - at),
        decreases self@.len() - at, 2nat,
    {
        let r = self.while_loop_at(at);
        if r.is_some() {
            return r;
        }
        let r = self.conditional_at(at);
        if r.is_some() {
            return r;
        }
        let r = self.catch_at(at);
        if r.is_some() {
            return r;
        }
        self.simple_statement_at(at)
    }

    /// The loop that stands at a position.
    pub fn while_loop_at(&self, at: usize) -> (r: Option<(Statement, usize)>)
        requires
            self.wf(),
            at <= self@.len(),
        ensures
            found(r, while_loop_at(self@, at as nat), self@.len() - at),
        decreases self@.len() - at, 1nat,
    {
        let (cond, n) = match self.keyword_expression_at(at, "while ") {
            Some(found) => found,
            None => return None,
        };
        if !self.has_char(at + n, ' ') {
            return None;
        }
        match self.block_at(at + n + 1) {
            Some((body, m)) => {
                let r = Statement::While(cond, body);
                proof {
                    lemma_statement_view(r);
                }
                Some((r, n + 1 + m))
            },
            None => None,
        }
    }

    /// The conditional that stands at a position.
    pub fn conditional_at(&self, at: usize) -> (r: Option<(Statement, usize)>)
        requires
            self.wf(),
            at <= self@.len(),
        ensures
            found(r, conditional_at(self@, at as nat), self@.len() - at),
        decreases self@.len() - at, 1nat,
    {
        let (cond, n) = match self.keyword_expression_at(at, "if ") {
            Some(found) => found,
            None => return None,
        };
        if !self.has_char(at + n, ' ') {
            return None;
        }
        let (body, m) = match self.block_at(at + n + 1) {
            Some(found) => found,
            None => return None,
        };
        match self.alternative_at(at + n + 1 + m) {
            Some((other, k)) => {
                let r = Statement::If(cond, body, Some(other));
                proof {
                    lemma_statement_view(r);
                }
                Some((r, n + 1 + m + k))
            },
            None => {
                let r = Statement::If(cond, body, None);
                proof {
                    lemma_statement_view(r);
                }
                Some((r, n + 1 + m))
            },
        }
    }

    /// The alternative of a conditional that stands at a position.
    pub fn alternative_at(&self, at: usize) -> (r: Option<(Vec<Statement>, usize)>)
        requires
            self.wf(),
            at <= self@.len(),
        ensures
            found_block(r, alternative_at(self@, at as nat), self@.len() - at),
        decreases self@.len() - at, 1nat,
    {
        let k = match self.has_literal(at, " else ") {
            Some(k) => k,
            None => return None,
        };
        match self.block_at(at + k) {
            Some((other, j)) => Some((other, k + j)),
            None => None,
        }
    }

    /// The catch statement that stands at a position.
    pub fn catch_at(&self, at: usize) -> (r: Option<(Statement, usize)>)
        requires
            self.wf(),
            at <= self@.len(),
        ensures
            found(r, catch_at(self@, at as nat), self@.len() - at),
        decreases self@.len() - at, 1nat,
    {
        let k = match self.has_literal(at, "normal plan ") {
            Some(k) => k,
            None => return None,
        };
        let (body, m) = match self.block_at(at + k) {
            Some(found) => found,
            None => return None,
        };
        let end = k + m;
        let j = match self.has_literal(at + end, " plan for failure ") {
            Some(j) => j,
            None => return None,
        };
        match self.block_at(at + end + j) {
            Some((handler, i)) => {
                let r = Statement::Catch(body, handler);
                proof {
                    lemma_statement_view(r);
                }
                Some((r, end + j + i))
            },
            None => None,
        }
    }

    /// The block that stands at a position, and the number of characters
    /// that it takes.
    pub fn block_at(&self, at: usize) -> (r: Option<(Vec<Statement>, usize)>)
        requires
            self.wf(),
            at <= self@.len(),
        ensures
            found_block(r, block_at(self@, at as nat), self@.len() - at),
        decreases self@.len() - at, 0nat,
    {
        if !(self.has_char(at, ':') && self.has_char(at + 1, '<')) {
            return None;
        }
        let (gap, _) = self.blank_len(at + 2);
        let (body, n) = self.lines_at(at + 2 + gap);
        let end = at + 2 + gap + n;
        if self.has_char(end, '>') && self.has_char(end + 1, ':') {
            Some((body, 2 + gap + n + 2))
        } else {
            None
        }
    }

    /// The lines that stand at a position, and the number of characters
    /// that they take.
    #[verifier::loop_isolation(false)]
    pub fn lines_at(&self, at: usize) -> (r: (Vec<Statement>, usize))
        requires
            self.wf(),
            at <= self@.len(),
        ensures
            lines_at(self@, at as nat) == (block_view(r.0@), r.1 as nat),
            at + r.1 <= self@.len(),
        decreases self@.len() - at, 3nat,
    {
        let mut out: Vec<Statement> = Vec::new();
        let mut cur: usize = at;
        assert(block_view(out@) + lines_at(self@, cur as nat).0 =~= lines_at(self@, at as nat).0);
        loop
            invariant
                at <= cur <= self@.len(),
                lines_at(self@, at as nat) == (
                    block_view(out@) + lines_at(self@, cur as nat).0,
                    (cur - at + lines_at(self@, cur as nat).1) as nat,
                ),
            decreases self@.len() - cur,
        {
            if cur >= self.len() {
                assert(block_view(out@) + Seq::<StatementView>::empty() =~= block_view(out@));
                return (out, cur - at);
            }
            match self.statement_at(cur) {
                None => {
                    assert(block_view(out@) + Seq::<StatementView>::empty() =~= block_view(out@));
                    return (out, cur - at);
                },
                Some((first, n)) => {
                    let (gap, newline) = self.blank_len(cur + n);
                    let ghost before = block_view(out@);
                    let ghost rest = lines_at(self@, (cur + n + gap) as nat).0;
                    out.push(first);
                    assert(block_view(out@) =~= before + seq![first@]);
                    if newline && gap > 0 {
                        assert(before + (seq![first@] + rest) =~= block_view(out@) + rest);
                        cur = cur + n + gap;
                    } else {
                        return (out, cur - at + n + gap);
                    }
                },
            }
        }
    }

    /// The program that stands at a position: blank characters and lines.
    pub fn program_at(&self, at: usize) -> (r: Option<(Vec<Statement>, usize)>)
        requires
            self.wf(),
            at <= self@.len(),
        ensures
            found_block(r, program_at(self@, at as nat), self@.len() - at),
    {
        let (gap, _) = self.blank_len(at);
        let (body, n) = self.lines_at(at + gap);
        Some((body, gap + n))
    }
}

fn finish<T>(r: Option<(T, usize)>, len: usize) -> (out: Result<T, ParseError>)
    ensures
        out == match r {
            Some((x, n)) => if n == len {
                Ok::<T, ParseError>(x)
            } else {
                Err::<T, ParseError>(ParseError { position: n })
            },
            None => Err::<T, ParseError>(ParseError { position: 0 }),
        },
{
    match r {
        Some((x, n)) => if n == len {
            Ok(x)
        } else {
            Err(ParseError { position: n })
        },
        None => Err(ParseError { position: 0 }),
    }
}

/// Parses a text that is an integer literal.
pub fn integer(input: &str) -> (r: Result<i32, ParseError>)
    ensures
        parsed(r, whole(integer_at(input@, 0), input@.len())),
{
    let source = Source::new(input);
    finish(source.integer_at(0), source.len())
}

/// Parses a text that is a string literal.
pub fn string(input: &str) -> (r: Result<Value, ParseError>)
    ensures
        parsed(r, whole(string_at(input@, 0), input@.len())),
{
    let source = Source::new(input);
    finish(source.string_at(0), source.len())
}

/// Parses a text that is an expression.
pub fn expression(input: &str) -> (r: Result<Expression, ParseError>)
    ensures
        parsed(r, whole(expression_at(input@, 0), input@.len())),
{
    let source = Source::new(input);
    finish(source.expression_at(0), source.len())
}

/// Parses a text that is a statement that makes a new list.
pub fn list_instantiation(input: &str) -> (r: Result<Statement, ParseError>)
    ensures
        parsed(r, whole(list_instantiation_at(input@, 0), input@.len())),
{
    let source = Source::new(input);
    finish(source.list_instantiation_at(0), source.len())
}

/// Parses a text that is a loop.
pub fn while_loop(input: &str) -> (r: Result<Statement, ParseError>)
    ensures
        parsed(r, whole(while_loop_at(input@, 0), input@.len())),
{
    let source = Source::new(input);
    finish(source.while_loop_at(0), source.len())
}

/// Parses a text that is a statement.
pub fn statement(input: &str) -> (r: Result<Statement, ParseError>)
    ensures
        parsed(r, whole(statement_at(input@, 0), input@.len())),
{
    let source = Source::new(input);
    finish(source.statement_at(0), source.len())
}

/// Parses a text that is a block.
pub fn block(input: &str) -> (r: Result<Vec<Statement>, ParseError>)
    ensures
        parsed_block(r, whole(block_at(input@, 0), input@.len())),
{
    let source = Source::new(input);
    finish(source.block_at(0), source.len())
}

/// Parses a text that is a program: statements on lines of their own, with
/// any blank characters before, between and behind them.
pub fn program(input: &str) -> (r: Result<Vec<Statement>, ParseError>)
    ensures
        parsed_block(r, whole(program_at(input@, 0), input@.len())),
{
    let source = Source::new(input);
    finish(source.program_at(0), source.len())
}

} // verus!
