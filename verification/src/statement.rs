//! Statements: the tree and its mathematical model.
use vstd::prelude::*;
use crate::expression::{Expression, ExpressionView};

verus! {

/// The mathematical model of a statement.
pub enum StatementView {
    Assignment(Seq<char>, ExpressionView),
    Print(ExpressionView),
    Input(Seq<char>),
    Delete(Seq<char>),
    ListNew(Seq<char>),
    ListAppend(Seq<char>, ExpressionView),
    ListAssign(Seq<char>, ExpressionView, ExpressionView),
    ListDelete(Seq<char>, ExpressionView),
    If(ExpressionView, Seq<StatementView>, Option<Seq<StatementView>>),
    While(ExpressionView, Seq<StatementView>),
    Catch(Seq<StatementView>, Seq<StatementView>),
}

/// A statement, as the parser produces it.
#[derive(Debug, PartialEq, Eq)]
pub enum Statement {
    /// Binds a name to the value of an expression.
    Assignment(String, Expression),
    /// Writes the textual form of a value and a line terminator.
    Print(Expression),
    /// Reads a line of input and binds it to a name, as a string.
    Input(String),
    /// Removes the binding of a name.
    Delete(String),
    /// Binds a name to a new empty list.
    ListNew(String),
    /// Appends a value to a named list.
    ListAppend(String, Expression),
    /// Overwrites the item of a named list at an index.
    ListAssign(String, Expression, Expression),
    /// Removes the item of a named list at an index.
    ListDelete(String, Expression),
    /// Runs the first body where the condition holds, else the second, if any.
    If(Expression, Vec<Statement>, Option<Vec<Statement>>),
    /// Runs the body as long as the condition holds.
    While(Expression, Vec<Statement>),
    /// Runs the first body and, where it fails, the second.
    Catch(Vec<Statement>, Vec<Statement>),
}

impl View for Statement {
    type V = StatementView;

    open spec fn view(&self) -> StatementView
        decreases self, 0nat,
    {
        match self {
            Statement::Assignment(name, e) => StatementView::Assignment(name@, e@),
            Statement::Print(e) => StatementView::Print(e@),
            Statement::Input(name) => StatementView::Input(name@),
            Statement::Delete(name) => StatementView::Delete(name@),
            Statement::ListNew(name) => StatementView::ListNew(name@),
            Statement::ListAppend(name, e) => StatementView::ListAppend(name@, e@),
            Statement::ListAssign(name, index, e) => StatementView::ListAssign(name@, index@, e@),
            Statement::ListDelete(name, index) => StatementView::ListDelete(name@, index@),
            Statement::If(cond, body, other) => StatementView::If(
                cond@,
                leading_views(*body, body.len() as nat),
                match other {
                    Some(b) => Some(leading_views(*b, b.len() as nat)),
                    None => None,
                },
            ),
            Statement::While(cond, body) => StatementView::While(
                cond@,
                leading_views(*body, body.len() as nat),
            ),
            Statement::Catch(body, handler) => StatementView::Catch(
                leading_views(*body, body.len() as nat),
                leading_views(*handler, handler.len() as nat),
            ),
        }
    }
}

/// The models of the first `n` statements of a block, in order.
pub open spec fn leading_views(items: Vec<Statement>, n: nat) -> Seq<StatementView>
    decreases items, n,
{
    if n == 0 || n > items.len() {
        Seq::empty()
    } else {
        leading_views(items, (n - 1) as nat).push(items[n - 1]@)
    }
}

/// The model of a block: the models of its statements, in order.
pub open spec fn block_view(items: Seq<Statement>) -> Seq<StatementView> {
    Seq::new(items.len(), |i: int| items[i]@)
}

/// The model of an optional block.
pub open spec fn optional_block_view(items: Option<Vec<Statement>>) -> Option<Seq<StatementView>> {
    match items {
        Some(b) => Some(block_view(b@)),
        None => None,
    }
}

/// The model of a statement, with the bodies given as models of blocks.
pub open spec fn statement_view(s: Statement) -> StatementView {
    match s {
        Statement::If(cond, body, other) => StatementView::If(
            cond@,
            block_view(body@),
            optional_block_view(other),
        ),
        Statement::While(cond, body) => StatementView::While(cond@, block_view(body@)),
        Statement::Catch(body, handler) => StatementView::Catch(
            block_view(body@),
            block_view(handler@),
        ),
        _ => s@,
    }
}

proof fn lemma_leading_views(items: Vec<Statement>, n: nat)
    requires
        n <= items.len(),
    ensures
        leading_views(items, n) == block_view(items@).take(n as int),
    decreases n,
{
    let all = block_view(items@);
    if n > 0 {
        lemma_leading_views(items, (n - 1) as nat);
        assert(all.take(n as int) =~= all.take(n - 1).push(all[n - 1]));
        assert(all[n - 1] == items[n - 1]@);
    } else {
        assert(all.take(0) =~= Seq::<StatementView>::empty());
    }
}

proof fn lemma_all_views(items: Vec<Statement>)
    ensures
        leading_views(items, items.len() as nat) == block_view(items@),
{
    lemma_leading_views(items, items.len() as nat);
    assert(block_view(items@).take(items.len() as int) =~= block_view(items@));
}

/// The model of a statement holds the models of its bodies.
pub proof fn lemma_statement_view(s: Statement)
    ensures
        s@ == statement_view(s),
{
    match s {
        Statement::If(cond, body, other) => {
            lemma_all_views(body);
            match other {
                Some(b) => lemma_all_views(b),
                None => {},
            }
        },
        Statement::While(cond, body) => {
            lemma_all_views(body);
        },
        Statement::Catch(body, handler) => {
            lemma_all_views(body);
            lemma_all_views(handler);
        },
        _ => {},
    }
}

/// A copy of a block.
pub fn clone_block(items: &Vec<Statement>) -> (r: Vec<Statement>)
    ensures
        block_view(r@) == block_view(items@),
    decreases items,
{
    let mut out: Vec<Statement> = Vec::new();
    let mut i: usize = 0;
    while i < items.len()
        invariant
            i <= items.len(),
            out.len() == i,
            forall|j: int| 0 <= j < i ==> out[j]@ == items[j]@,
        decreases items.len() - i,
    {
        out.push(items[i].clone());
        i += 1;
    }
    assert(block_view(out@) =~= block_view(items@));
    out
}

impl Clone for Statement {
    fn clone(&self) -> (r: Statement)
        ensures
            r@ == self@,
        decreases self,
    {
        let r = match self {
            Statement::Assignment(name, e) => Statement::Assignment(name.clone(), e.clone()),
            Statement::Print(e) => Statement::Print(e.clone()),
            Statement::Input(name) => Statement::Input(name.clone()),
            Statement::Delete(name) => Statement::Delete(name.clone()),
            Statement::ListNew(name) => Statement::ListNew(name.clone()),
            Statement::ListAppend(name, e) => Statement::ListAppend(name.clone(), e.clone()),
            Statement::ListAssign(name, index, e) => Statement::ListAssign(
                name.clone(),
                index.clone(),
                e.clone(),
            ),
            Statement::ListDelete(name, index) => Statement::ListDelete(name.clone(), index.clone()),
            Statement::If(cond, body, other) => {
                let alternative = match other {
                    Some(b) => Some(clone_block(b)),
                    None => None,
                };
                Statement::If(cond.clone(), clone_block(body), alternative)
            },
            Statement::While(cond, body) => Statement::While(cond.clone(), clone_block(body)),
            Statement::Catch(body, handler) => Statement::Catch(
                clone_block(body),
                clone_block(handler),
            ),
        };
        proof {
            lemma_statement_view(r);
            lemma_statement_view(*self);
        }
        r
    }
}

} // verus!
