//! What holds of every program: laws of the language, proved from the
//! meaning that the semantics give to expressions and statements.
use vstd::prelude::*;
use crate::error::ErrorKindView;
use crate::expression::ExpressionView;
use crate::semantics::{
    binds, block_binds, done, effect, eval, eval_bool, eval_int, exec, exec_block, exec_while,
    lemma_block_budget, lemma_exec_budget, length_value, lookup, StateView,
};
use crate::statement::StatementView;
use crate::value::ValueView;

verus! {

/// After an item of a list is assigned at an index within the list, the
/// assignment has succeeded, the item at that index is the assigned value,
/// the items at all other indices are what they were, and the list is as
/// long as before.
pub proof fn law_assign_then_index(
    st: StateView,
    name: Seq<char>,
    items: Seq<ValueView>,
    index: ExpressionView,
    value: ExpressionView,
    i: i32,
    v: ValueView,
    again: ExpressionView,
    j: i32,
)
    requires
        lookup(st.symbols, name) == Ok::<ValueView, ErrorKindView>(ValueView::List(items)),
        0 <= i < items.len(),
        eval_int(index, st.symbols) == Ok::<i32, ErrorKindView>(i),
        eval(value, st.symbols) == Ok::<ValueView, ErrorKindView>(v),
        eval_int(again, exec(StatementView::ListAssign(name, index, value), st).state.symbols)
            == Ok::<i32, ErrorKindView>(j),
        0 <= j < items.len(),
    ensures
        ({
            let after = exec(StatementView::ListAssign(name, index, value), st);
            &&& after.result is Ok
            &&& eval(ExpressionView::ListIndex(name, Box::new(again)), after.state.symbols) == Ok::<
                ValueView,
                ErrorKindView,
            >(if j == i { v } else { items[j as int] })
            &&& eval(ExpressionView::ListLength(name), after.state.symbols) == Ok::<
                ValueView,
                ErrorKindView,
            >(length_value(items.len()))
        }),
{
}

/// After the item of a list at an index within the list is deleted, the
/// deletion has succeeded, the list is shorter by exactly one, the items
/// before the index are where they were, and each item behind it is one
/// position further down: none is skipped.
pub proof fn law_delete_shifts(
    st: StateView,
    name: Seq<char>,
    items: Seq<ValueView>,
    index: ExpressionView,
    i: i32,
    again: ExpressionView,
    j: i32,
)
    requires
        lookup(st.symbols, name) == Ok::<ValueView, ErrorKindView>(ValueView::List(items)),
        0 <= i < items.len(),
        eval_int(index, st.symbols) == Ok::<i32, ErrorKindView>(i),
        eval_int(again, exec(StatementView::ListDelete(name, index), st).state.symbols) == Ok::<
            i32,
            ErrorKindView,
        >(j),
        0 <= j < items.len() - 1,
    ensures
        ({
            let after = exec(StatementView::ListDelete(name, index), st);
            &&& after.result is Ok
            &&& lookup(after.state.symbols, name) == Ok::<ValueView, ErrorKindView>(
                ValueView::List(items.remove(i as int)),
            )
            &&& items.remove(i as int).len() == items.len() - 1
            &&& eval(ExpressionView::ListLength(name), after.state.symbols) == Ok::<
                ValueView,
                ErrorKindView,
            >(length_value((items.len() - 1) as nat))
            &&& eval(ExpressionView::ListIndex(name, Box::new(again)), after.state.symbols) == Ok::<
                ValueView,
                ErrorKindView,
            >(if j < i { items[j as int] } else { items[j + 1] })
        }),
{
}

/// Indexing a list or a string of length `n` succeeds at every index from
/// 0 up to `n`, and fails as out of bounds at every index from `n` on and
/// below 0.
pub proof fn law_index_bounds(
    symbols: Map<Seq<char>, ValueView>,
    name: Seq<char>,
    index: ExpressionView,
    i: i32,
)
    requires
        symbols.contains_key(name),
        symbols[name] is List || symbols[name] is Str,
        eval_int(index, symbols) == Ok::<i32, ErrorKindView>(i),
    ensures
        ({
            let container = symbols[name];
            let n = match container {
                ValueView::List(items) => items.len(),
                ValueView::Str(s) => s.len(),
                _ => 0,
            };
            let r = eval(ExpressionView::ListIndex(name, Box::new(index)), symbols);
            &&& 0 <= i < n ==> r is Ok
            &&& 0 <= i < n ==> (container matches ValueView::List(items) ==> r == Ok::<
                ValueView,
                ErrorKindView,
            >(items[i as int]))
            &&& 0 <= i < n ==> (container matches ValueView::Str(s) ==> r == Ok::<
                ValueView,
                ErrorKindView,
            >(ValueView::Str(seq![s[i as int]])))
            &&& (i >= n || i < 0) ==> r == Err::<ValueView, ErrorKindView>(
                ErrorKindView::IndexOutOfBounds(container, i),
            )
        }),
{
}

/// A loop whose condition is false runs its body not once: it succeeds and
/// leaves the state as it was.
pub proof fn law_while_false(
    cond: ExpressionView,
    body: Seq<StatementView>,
    st: StateView,
)
    requires
        eval_bool(cond, st.symbols) == Ok::<bool, ErrorKindView>(false),
    ensures
        exec(StatementView::While(cond, body), st) == done(st),
{
}

/// A loop whose condition is true, with budget left, runs its body once,
/// on one unit of budget less; where the body fails the loop fails with it,
/// and else the loop goes on from the state that the body left. So a loop
/// ends as soon as its body has left a state in which the condition is false.
pub proof fn law_while_unrolls(
    cond: ExpressionView,
    body: Seq<StatementView>,
    st: StateView,
)
    requires
        eval_bool(cond, st.symbols) == Ok::<bool, ErrorKindView>(true),
        st.budget > 0,
    ensures
        ({
            let round = exec_block(body, 0, st.spend());
            exec(StatementView::While(cond, body), st) == if round.result is Err {
                round
            } else {
                exec(StatementView::While(cond, body), round.state)
            }
        }),
{
    lemma_block_budget(body, 0, st.spend());
}

/// A loop whose condition is true fails where no budget is left.
pub proof fn law_while_exhausted(
    cond: ExpressionView,
    body: Seq<StatementView>,
    st: StateView,
)
    requires
        eval_bool(cond, st.symbols) == Ok::<bool, ErrorKindView>(true),
        st.budget == 0,
    ensures
        exec(StatementView::While(cond, body), st).state == st,
        exec(StatementView::While(cond, body), st).result matches Err(e) && e.kind
            == ErrorKindView::BudgetExhausted && e.place == StatementView::While(cond, body),
{
}

/// The statements of a block run in order: the outcome of a block is that of
/// its first statement where that fails, and else that of the rest of the
/// block from the state that the first statement left.
pub proof fn law_block_unrolls(block: Seq<StatementView>, from: nat, st: StateView)
    requires
        from < block.len(),
    ensures
        ({
            let first = exec(block[from as int], st);
            exec_block(block, from, st) == if first.result is Err {
                first
            } else {
                exec_block(block, from + 1, first.state)
            }
        }),
        exec_block(block, block.len(), st) == done(st),
{
    lemma_exec_budget(block[from as int], st);
}

/// Where the first body of a catch statement fails, whatever the error, the
/// error is dropped and the second body runs from the state that the first
/// one left, with all that it did before it failed: the statement's outcome
/// is that of the second body. Where the first body succeeds, the second
/// does not run.
pub proof fn law_catch(body: Seq<StatementView>, handler: Seq<StatementView>, st: StateView)
    ensures
        ({
            let first = exec_block(body, 0, st);
            exec(StatementView::Catch(body, handler), st) == if first.result is Err {
                exec_block(handler, 0, first.state)
            } else {
                first
            }
        }),
{
    lemma_block_budget(body, 0, st);
}

/// A delete statement on a bound name succeeds and leaves the name unbound
/// and every other binding as it was. On an unbound name it fails.
pub proof fn law_delete_unbinds(st: StateView, name: Seq<char>)
    ensures
        ({
            let after = exec(StatementView::Delete(name), st);
            &&& st.symbols.contains_key(name) ==> after.result is Ok
            &&& st.symbols.contains_key(name) ==> after.state.symbols == st.symbols.remove(name)
            &&& !after.state.symbols.contains_key(name)
        }),
{
}

/// Every use of a name that is not bound, because it never was or because
/// it was deleted, fails as an unknown variable: reading it, measuring it,
/// indexing it with an integer, deleting it, and appending to, assigning
/// into or deleting from it where the operands can be evaluated.
pub proof fn law_unknown_variable(
    st: StateView,
    name: Seq<char>,
    index: ExpressionView,
    value: ExpressionView,
)
    requires
        !st.symbols.contains_key(name),
    ensures
        ({
            let unknown = ErrorKindView::UnknownVariable(name);
            &&& eval(ExpressionView::Variable(name), st.symbols) == Err::<ValueView, ErrorKindView>(
                unknown,
            )
            &&& eval(ExpressionView::ListLength(name), st.symbols) == Err::<
                ValueView,
                ErrorKindView,
            >(unknown)
            &&& eval_int(index, st.symbols) is Ok ==> eval(
                ExpressionView::ListIndex(name, Box::new(index)),
                st.symbols,
            ) == Err::<ValueView, ErrorKindView>(unknown)
            &&& effect(StatementView::Delete(name), st) == Err::<StateView, ErrorKindView>(unknown)
            &&& eval(value, st.symbols) is Ok ==> effect(StatementView::ListAppend(name, value), st)
                == Err::<StateView, ErrorKindView>(unknown)
            &&& eval_int(index, st.symbols) is Ok && eval(value, st.symbols) is Ok ==> effect(
                StatementView::ListAssign(name, index, value),
                st,
            ) == Err::<StateView, ErrorKindView>(unknown)
            &&& eval_int(index, st.symbols) is Ok ==> effect(
                StatementView::ListDelete(name, index),
                st,
            ) == Err::<StateView, ErrorKindView>(unknown)
        }),
{
}

/// A name that is not bound stays unbound through every statement but an
/// assignment to it, an input into it, and a new list of that name, held at
/// whatever depth: a name is unknown until it is assigned again.
pub proof fn law_unbound_stays(s: StatementView, st: StateView, name: Seq<char>)
    requires
        !st.symbols.contains_key(name),
        !binds(s, name),
    ensures
        !exec(s, st).state.symbols.contains_key(name),
    decreases st.budget, s, 0nat,
{
    match s {
        StatementView::If(cond, body, other) => {
            law_unbound_stays_in_block(body, 0, st, name);
            match other {
                Some(b) => law_unbound_stays_in_block(b, 0, st, name),
                None => {},
            }
        },
        StatementView::While(cond, body) => law_unbound_stays_in_loop(s, cond, body, st, name),
        StatementView::Catch(body, handler) => {
            law_unbound_stays_in_block(body, 0, st, name);
            lemma_block_budget(body, 0, st);
            let first = exec_block(body, 0, st);
            if !(first.result is Ok) {
                law_unbound_stays_in_block(handler, 0, first.state, name);
            }
        },
        _ => {},
    }
}

/// A name that is not bound stays unbound through a block none of whose
/// statements binds it.
pub proof fn law_unbound_stays_in_block(
    block: Seq<StatementView>,
    from: nat,
    st: StateView,
    name: Seq<char>,
)
    requires
        !st.symbols.contains_key(name),
        !block_binds(block, from, name),
    ensures
        !exec_block(block, from, st).state.symbols.contains_key(name),
    decreases st.budget, block, block.len() - from,
{
    if from < block.len() {
        law_unbound_stays(block[from as int], st, name);
        lemma_exec_budget(block[from as int], st);
        let first = exec(block[from as int], st);
        if first.result is Ok {
            law_unbound_stays_in_block(block, from + 1, first.state, name);
        }
    }
}

/// A name that is not bound stays unbound through a loop none of whose
/// statements binds it.
pub proof fn law_unbound_stays_in_loop(
    place: StatementView,
    cond: ExpressionView,
    body: Seq<StatementView>,
    st: StateView,
    name: Seq<char>,
)
    requires
        !st.symbols.contains_key(name),
        !block_binds(body, 0, name),
    ensures
        !exec_while(place, cond, body, st).state.symbols.contains_key(name),
    decreases st.budget, body, body.len() + 1,
{
    if eval_bool(cond, st.symbols) == Ok::<bool, ErrorKindView>(true) && st.budget > 0 {
        law_unbound_stays_in_block(body, 0, st.spend(), name);
        lemma_block_budget(body, 0, st.spend());
        let round = exec_block(body, 0, st.spend());
        if round.result is Ok && round.state.budget < st.budget {
            law_unbound_stays_in_loop(place, cond, body, round.state, name);
        }
    }
}

/// An assignment whose expression can be evaluated binds the name to the
/// expression's value, whether or not the name was bound before.
pub proof fn law_assignment_binds(st: StateView, name: Seq<char>, value: ExpressionView)
    requires
        eval(value, st.symbols) is Ok,
    ensures
        ({
            let after = exec(StatementView::Assignment(name, value), st);
            &&& after.result is Ok
            &&& lookup(after.state.symbols, name) == eval(value, st.symbols)
        }),
{
}

} // verus!
