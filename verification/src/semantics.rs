//! The meaning of programs, as functions on mathematical models: what an
//! expression evaluates to, and what a statement does to the state.
use vstd::prelude::*;
use crate::error::{ErrorKindView, ErrorView};
use crate::expression::{ExpressionView, Operator};
use crate::statement::StatementView;
use crate::value::{text_of, kind_name, same_kind, ValueView};

verus! {

/// The value bound to a name, or the error that the name is unknown.
pub open spec fn lookup(symbols: Map<Seq<char>, ValueView>, name: Seq<char>) -> Result<
    ValueView,
    ErrorKindView,
> {
    if symbols.contains_key(name) {
        Ok(symbols[name])
    } else {
        Err(ErrorKindView::UnknownVariable(name))
    }
}

/// The sum of two integers, wrapped around into the range of an integer.
pub open spec fn wrapping_sum(a: i32, b: i32) -> i32 {
    let sum = a + b;
    if sum > i32::MAX {
        (sum - 0x1_0000_0000) as i32
    } else if sum < i32::MIN {
        (sum + 0x1_0000_0000) as i32
    } else {
        sum as i32
    }
}

/// A length as an integer value; one beyond the largest integer counts as
/// the largest integer.
pub open spec fn length_value(n: nat) -> ValueView {
    if n > i32::MAX {
        ValueView::Int(i32::MAX)
    } else {
        ValueView::Int(n as i32)
    }
}

/// The item of a list, or the character of a string as a string of its own,
/// at an index.
pub open spec fn index_into(container: ValueView, i: i32) -> Result<ValueView, ErrorKindView> {
    match container {
        ValueView::List(items) => if 0 <= i < items.len() {
            Ok(items[i as int])
        } else {
            Err(ErrorKindView::IndexOutOfBounds(container, i))
        },
        ValueView::Str(s) => if 0 <= i < s.len() {
            Ok(ValueView::Str(seq![s[i as int]]))
        } else {
            Err(ErrorKindView::IndexOutOfBounds(container, i))
        },
        _ => Err(ErrorKindView::IndexUnindexable(container)),
    }
}

/// The number of items of a list or of characters of a string.
pub open spec fn length_of(container: ValueView) -> Result<ValueView, ErrorKindView> {
    match container {
        ValueView::List(items) => Ok(length_value(items.len())),
        ValueView::Str(s) => Ok(length_value(s.len())),
        _ => Err(ErrorKindView::IndexUnindexable(container)),
    }
}

/// A value as an integer, or the error that it is none.
pub open spec fn as_int(v: ValueView) -> Result<i32, ErrorKindView> {
    match v {
        ValueView::Int(i) => Ok(i),
        _ => Err(ErrorKindView::UnexpectedType("int"@, v)),
    }
}

/// A value as a boolean, or the error that it is none.
pub open spec fn as_bool(v: ValueView) -> Result<bool, ErrorKindView> {
    match v {
        ValueView::Bool(b) => Ok(b),
        _ => Err(ErrorKindView::UnexpectedType("bool"@, v)),
    }
}

/// A binary operator applied to two values. Addition takes two integers and
/// wraps around. Conjunction and disjunction take two booleans, and look at
/// both. Of two operands of the wrong kind the left one is reported.
/// Equality takes two values of one kind, whatever it is; of two values of
/// different kinds the right one is reported, with the kind of the left one
/// as the kind expected.
pub open spec fn apply(op: Operator, left: ValueView, right: ValueView) -> Result<
    ValueView,
    ErrorKindView,
> {
    match op {
        Operator::Add => match as_int(left) {
            Err(e) => Err(e),
            Ok(a) => match as_int(right) {
                Err(e) => Err(e),
                Ok(b) => Ok(ValueView::Int(wrapping_sum(a, b))),
            },
        },
        Operator::Equality => if same_kind(left, right) {
            Ok(ValueView::Bool(left == right))
        } else {
            Err(ErrorKindView::UnexpectedType(kind_name(left), right))
        },
        Operator::And => match as_bool(left) {
            Err(e) => Err(e),
            Ok(a) => match as_bool(right) {
                Err(e) => Err(e),
                Ok(b) => Ok(ValueView::Bool(a && b)),
            },
        },
        Operator::Or => match as_bool(left) {
            Err(e) => Err(e),
            Ok(a) => match as_bool(right) {
                Err(e) => Err(e),
                Ok(b) => Ok(ValueView::Bool(a || b)),
            },
        },
    }
}

/// The value of an expression under the given bindings. An index is
/// evaluated, and must be an integer, before the name is looked up. Both
/// operands of an operator are evaluated, the left one first, before the
/// operator is applied.
pub open spec fn eval(e: ExpressionView, symbols: Map<Seq<char>, ValueView>) -> Result<
    ValueView,
    ErrorKindView,
>
    decreases e,
{
    match e {
        ExpressionView::Value(v) => Ok(v),
        ExpressionView::Variable(name) => lookup(symbols, name),
        ExpressionView::ListIndex(name, index) => match eval(*index, symbols) {
            Err(e) => Err(e),
            Ok(v) => match as_int(v) {
                Err(e) => Err(e),
                Ok(i) => match lookup(symbols, name) {
                    Err(e) => Err(e),
                    Ok(container) => index_into(container, i),
                },
            },
        },
        ExpressionView::ListLength(name) => match lookup(symbols, name) {
            Err(e) => Err(e),
            Ok(container) => length_of(container),
        },
        ExpressionView::Not(inner) => match eval(*inner, symbols) {
            Err(e) => Err(e),
            Ok(v) => match as_bool(v) {
                Err(e) => Err(e),
                Ok(b) => Ok(ValueView::Bool(!b)),
            },
        },
        ExpressionView::OperatorExpression(left, op, right) => match eval(*left, symbols) {
            Err(e) => Err(e),
            Ok(l) => match eval(*right, symbols) {
                Err(e) => Err(e),
                Ok(r) => apply(op, l, r),
            },
        },
    }
}

/// The value of an expression that must be an integer.
pub open spec fn eval_int(e: ExpressionView, symbols: Map<Seq<char>, ValueView>) -> Result<
    i32,
    ErrorKindView,
> {
    match eval(e, symbols) {
        Err(e) => Err(e),
        Ok(v) => as_int(v),
    }
}

/// The value of an expression that must be a boolean.
pub open spec fn eval_bool(e: ExpressionView, symbols: Map<Seq<char>, ValueView>) -> Result<
    bool,
    ErrorKindView,
> {
    match eval(e, symbols) {
        Err(e) => Err(e),
        Ok(v) => as_bool(v),
    }
}

/// Whether a character is white space: a character with the Unicode property
/// `White_Space`.
pub open spec fn is_space(c: char) -> bool {
    let code = c as u32;
    ||| 0x09 <= code <= 0x0D
    ||| code == 0x20
    ||| code == 0x85
    ||| code == 0xA0
    ||| code == 0x1680
    ||| 0x2000 <= code <= 0x200A
    ||| code == 0x2028
    ||| code == 0x2029
    ||| code == 0x202F
    ||| code == 0x205F
    ||| code == 0x3000
}

/// The number of white-space characters that a text begins with.
pub open spec fn leading_spaces(s: Seq<char>) -> nat
    decreases s.len(),
{
    if s.len() > 0 && is_space(s[0]) {
        1 + leading_spaces(s.skip(1))
    } else {
        0
    }
}

/// The number of white-space characters that a text ends with.
pub open spec fn trailing_spaces(s: Seq<char>) -> nat
    decreases s.len(),
{
    if s.len() > 0 && is_space(s.last()) {
        1 + trailing_spaces(s.drop_last())
    } else {
        0
    }
}

/// A text without the white space that it begins and ends with.
pub open spec fn trim(s: Seq<char>) -> Seq<char> {
    let rest = s.skip(leading_spaces(s) as int);
    rest.take(rest.len() - trailing_spaces(rest))
}

/// The mathematical model of the interpreter's state.
pub struct StateView {
    /// The value bound to each name.
    pub symbols: Map<Seq<char>, ValueView>,
    /// The lines of input that have not been read, the next one first.
    pub input: Seq<Seq<char>>,
    /// Why no line can be read once those lines are read, where reading
    /// has failed.
    pub input_failure: Option<Seq<char>>,
    /// All that has been written.
    pub output: Seq<char>,
    /// The number of loop iterations that may still begin.
    pub budget: nat,
}

impl StateView {
    /// This state with other bindings.
    pub open spec fn with_symbols(self, symbols: Map<Seq<char>, ValueView>) -> StateView {
        StateView { symbols, ..self }
    }

    /// This state with a value bound to a name.
    pub open spec fn bind(self, name: Seq<char>, v: ValueView) -> StateView {
        self.with_symbols(self.symbols.insert(name, v))
    }

    /// This state with one loop iteration less to begin.
    pub open spec fn spend(self) -> StateView {
        StateView { budget: (self.budget - 1) as nat, ..self }
    }
}

/// The state that a run left, and whether it succeeded.
pub struct Outcome {
    pub state: StateView,
    pub result: Result<(), ErrorView>,
}

/// The outcome of a run that succeeded.
pub open spec fn done(state: StateView) -> Outcome {
    Outcome { state, result: Ok(()) }
}

/// The outcome of a run in which a statement failed.
pub open spec fn failed(state: StateView, kind: ErrorKindView, place: StatementView) -> Outcome {
    Outcome { state, result: Err(ErrorView { kind, place }) }
}

/// The message of the error that an input statement gives where no line of
/// input is left and reading has not failed.
pub open spec fn no_input_message() -> Seq<char> {
    "no line of input is left"@
}

/// Whether an input statement would find no line to read, though reading
/// has not failed.
pub open spec fn starved(st: StateView) -> bool {
    st.input.len() == 0 && st.input_failure is None
}

/// The message of the error that an input statement gives where no line of
/// input is left: why reading failed, where it did.
pub open spec fn input_error(st: StateView) -> Seq<char> {
    match st.input_failure {
        Some(reason) => reason,
        None => no_input_message(),
    }
}

/// The state after a statement that holds no other statement, or why the
/// statement fails. An index is evaluated, and must be an integer, before
/// anything else; the name of a list is looked up last.
pub open spec fn effect(s: StatementView, st: StateView) -> Result<StateView, ErrorKindView> {
    match s {
        StatementView::Assignment(name, e) => match eval(e, st.symbols) {
            Err(k) => Err(k),
            Ok(v) => Ok(st.bind(name, v)),
        },
        StatementView::Print(e) => match eval(e, st.symbols) {
            Err(k) => Err(k),
            Ok(v) => Ok(StateView { output: st.output + text_of(v) + seq!['\n'], ..st }),
        },
        StatementView::Input(name) => if st.input.len() == 0 {
            Err(ErrorKindView::IOError(input_error(st)))
        } else {
            Ok(
                StateView { input: st.input.skip(1), ..st }.bind(
                    name,
                    ValueView::Str(trim(st.input[0])),
                ),
            )
        },
        StatementView::Delete(name) => if st.symbols.contains_key(name) {
            Ok(st.with_symbols(st.symbols.remove(name)))
        } else {
            Err(ErrorKindView::UnknownVariable(name))
        },
        StatementView::ListNew(name) => Ok(st.bind(name, ValueView::List(Seq::empty()))),
        StatementView::ListAppend(name, e) => match eval(e, st.symbols) {
            Err(k) => Err(k),
            Ok(v) => match lookup(st.symbols, name) {
                Err(k) => Err(k),
                Ok(ValueView::List(items)) => Ok(st.bind(name, ValueView::List(items.push(v)))),
                Ok(other) => Err(ErrorKindView::IndexUnindexable(other)),
            },
        },
        StatementView::ListAssign(name, index, e) => match eval_int(index, st.symbols) {
            Err(k) => Err(k),
            Ok(i) => match eval(e, st.symbols) {
                Err(k) => Err(k),
                Ok(v) => match lookup(st.symbols, name) {
                    Err(k) => Err(k),
                    Ok(ValueView::List(items)) => if 0 <= i < items.len() {
                        Ok(st.bind(name, ValueView::List(items.update(i as int, v))))
                    } else {
                        Err(ErrorKindView::IndexOutOfBounds(ValueView::List(items), i))
                    },
                    Ok(other) => Err(ErrorKindView::IndexUnindexable(other)),
                },
            },
        },
        StatementView::ListDelete(name, index) => match eval_int(index, st.symbols) {
            Err(k) => Err(k),
            Ok(i) => match lookup(st.symbols, name) {
                Err(k) => Err(k),
                Ok(ValueView::List(items)) => if 0 <= i < items.len() {
                    Ok(st.bind(name, ValueView::List(items.remove(i as int))))
                } else {
                    Err(ErrorKindView::IndexOutOfBounds(ValueView::List(items), i))
                },
                Ok(other) => Err(ErrorKindView::IndexUnindexable(other)),
            },
        },
        _ => Ok(st),
    }
}

/// The outcome of a statement. A statement that fails leaves the state as
/// it was when it failed, and reports itself as the place of the error. A
/// loop spends one unit of the budget for each iteration that it begins, and
/// fails where none is left.
///
/// Where one run follows another, here and in `exec_block` and `exec_while`,
/// the definition compares the budgets before and after the first. That
/// only shows that the definition is well founded: by `lemma_exec_budget` no
/// run leaves more budget than it found, so the comparison never decides,
/// and `law_block_unrolls`, `law_while_unrolls` and `law_catch` state the
/// outcomes without it.
pub open spec fn exec(s: StatementView, st: StateView) -> Outcome
    decreases st.budget, s, 0nat,
{
    match s {
        StatementView::If(cond, body, other) => match eval_bool(cond, st.symbols) {
            Err(k) => failed(st, k, s),
            Ok(true) => exec_block(body, 0, st),
            Ok(false) => match other {
                Some(b) => exec_block(b, 0, st),
                None => done(st),
            },
        },
        StatementView::While(cond, body) => exec_while(s, cond, body, st),
        StatementView::Catch(body, handler) => {
            let first = exec_block(body, 0, st);
            if first.result is Ok || first.state.budget > st.budget {
                first
            } else {
                exec_block(handler, 0, first.state)
            }
        },
        _ => match effect(s, st) {
            Err(k) => failed(st, k, s),
            Ok(after) => done(after),
        },
    }
}

/// The outcome of the statements of a block from the one at `from` on: they
/// run in order, up to the first that fails.
pub open spec fn exec_block(block: Seq<StatementView>, from: nat, st: StateView) -> Outcome
    decreases st.budget, block, block.len() - from,
{
    if from >= block.len() {
        done(st)
    } else {
        let first = exec(block[from as int], st);
        if first.result is Err || first.state.budget > st.budget {
            first
        } else {
            exec_block(block, from + 1, first.state)
        }
    }
}

/// The outcome of a loop, which is the statement `place`: the condition is
/// evaluated before each iteration, and must be a boolean.
pub open spec fn exec_while(
    place: StatementView,
    cond: ExpressionView,
    body: Seq<StatementView>,
    st: StateView,
) -> Outcome
    decreases st.budget, body, body.len() + 1,
{
    match eval_bool(cond, st.symbols) {
        Err(k) => failed(st, k, place),
        Ok(false) => done(st),
        Ok(true) => if st.budget == 0 {
            failed(st, ErrorKindView::BudgetExhausted, place)
        } else {
            let round = exec_block(body, 0, st.spend());
            if round.result is Err || round.state.budget >= st.budget {
                round
            } else {
                exec_while(place, cond, body, round.state)
            }
        },
    }
}

/// Whether a statement, or one of those that it holds, can bind a name
/// that is not bound: an assignment to the name, an input into it, or a new
/// list of that name.
pub open spec fn binds(s: StatementView, name: Seq<char>) -> bool
    decreases s, 0nat,
{
    match s {
        StatementView::Assignment(n, _) => n == name,
        StatementView::Input(n) => n == name,
        StatementView::ListNew(n) => n == name,
        StatementView::If(_, body, other) => block_binds(body, 0, name) || match other {
            Some(b) => block_binds(b, 0, name),
            None => false,
        },
        StatementView::While(_, body) => block_binds(body, 0, name),
        StatementView::Catch(body, handler) => block_binds(body, 0, name) || block_binds(
            handler,
            0,
            name,
        ),
        _ => false,
    }
}

/// Whether one of the statements of a block from the one at `from` on can
/// bind a name that is not bound.
pub open spec fn block_binds(block: Seq<StatementView>, from: nat, name: Seq<char>) -> bool
    decreases block, block.len() - from,
{
    if from >= block.len() {
        false
    } else {
        binds(block[from as int], name) || block_binds(block, from + 1, name)
    }
}

/// The outcome of a statement that holds no other statement.
pub proof fn lemma_exec_simple(s: StatementView, st: StateView)
    requires
        !(s is If),
        !(s is While),
        !(s is Catch),
    ensures
        exec(s, st) == match effect(s, st) {
            Err(k) => failed(st, k, s),
            Ok(after) => done(after),
        },
{
}

/// Nothing changes the budget but a loop, which spends it: no statement
/// leaves more of it than it found.
pub proof fn lemma_exec_budget(s: StatementView, st: StateView)
    ensures
        exec(s, st).state.budget <= st.budget,
    decreases st.budget, s, 0nat,
{
    match s {
        StatementView::If(cond, body, other) => {
            lemma_block_budget(body, 0, st);
            match other {
                Some(b) => lemma_block_budget(b, 0, st),
                None => {},
            }
        },
        StatementView::While(cond, body) => lemma_while_budget(s, cond, body, st),
        StatementView::Catch(body, handler) => {
            lemma_block_budget(body, 0, st);
            let first = exec_block(body, 0, st);
            if !(first.result is Ok) {
                lemma_block_budget(handler, 0, first.state);
            }
        },
        _ => {},
    }
}

/// No block leaves more of the budget than it found.
pub proof fn lemma_block_budget(block: Seq<StatementView>, from: nat, st: StateView)
    ensures
        exec_block(block, from, st).state.budget <= st.budget,
    decreases st.budget, block, block.len() - from,
{
    if from < block.len() {
        lemma_exec_budget(block[from as int], st);
        let first = exec(block[from as int], st);
        if first.result is Ok {
            lemma_block_budget(block, from + 1, first.state);
        }
    }
}

/// No loop leaves more of the budget than it found.
pub proof fn lemma_while_budget(
    place: StatementView,
    cond: ExpressionView,
    body: Seq<StatementView>,
    st: StateView,
)
    ensures
        exec_while(place, cond, body, st).state.budget <= st.budget,
    decreases st.budget, body, body.len() + 1,
{
    if eval_bool(cond, st.symbols) == Ok::<bool, ErrorKindView>(true) && st.budget > 0 {
        lemma_block_budget(body, 0, st.spend());
        let round = exec_block(body, 0, st.spend());
        if round.result is Ok && round.state.budget < st.budget {
            lemma_while_budget(place, cond, body, round.state);
        }
    }
}

} // verus!
