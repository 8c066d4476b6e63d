//! Execution step by step, for a caller that reads input and writes output
//! while the program runs.
//!
//! A machine holds a state and the work that is left, and does one step of
//! it at a time. Before an input statement that would find no line, it
//! waits: its caller supplies the line, or records that reading failed, and
//! goes on. Step by step a machine arrives at the outcome that the program
//! has as a whole.
use vstd::prelude::*;
use crate::error::{run_result, Error, ErrorKind, ErrorKindView, ErrorView, SwErResult};
use crate::expression::{Expression, ExpressionView};
use crate::semantics::{
    effect, eval_bool, exec, exec_block, exec_while, lemma_block_budget, lemma_exec_budget,
    lemma_exec_simple, starved, Outcome, StateView,
};
use crate::state::State;
use crate::statement::{block_view, lemma_statement_view, Statement, StatementView};

verus! {

/// The mathematical model of a piece of work that is left.
pub enum FrameView {
    /// The statements of a block from the one at a position on.
    Block(Seq<StatementView>, nat),
    /// A loop, before its condition is evaluated: the loop as a statement,
    /// its condition and its body.
    Loop(StatementView, ExpressionView, Seq<StatementView>),
    /// The second body of a catch statement, which runs where the work
    /// above it fails.
    Handler(Seq<StatementView>),
}

/// The mathematical model of a machine: its state, and the work that is
/// left, the piece to do next last.
pub struct MachineView {
    pub state: StateView,
    pub stack: Seq<FrameView>,
}

/// The mathematical model of what a step reports.
pub enum Status {
    /// Work is left.
    Running,
    /// The next statement reads input, and no line is there to read.
    Waiting,
    /// No work is left: the program has ended, with this result.
    Done(Result<(), ErrorView>),
}

/// The outcome of the work that is left, in a state, after work that had
/// the result `pending`. Where that failed, the work is skipped up to the
/// second body of the catch statement around it.
pub open spec fn resume(stack: Seq<FrameView>, st: StateView, pending: Result<(), ErrorView>) -> Outcome
    decreases stack.len(),
{
    if stack.len() == 0 {
        Outcome { state: st, result: pending }
    } else {
        let rest = stack.drop_last();
        match stack.last() {
            FrameView::Block(body, next) => if pending is Ok {
                let o = exec_block(body, next, st);
                resume(rest, o.state, o.result)
            } else {
                resume(rest, st, pending)
            },
            FrameView::Loop(place, cond, body) => if pending is Ok {
                let o = exec_while(place, cond, body, st);
                resume(rest, o.state, o.result)
            } else {
                resume(rest, st, pending)
            },
            FrameView::Handler(handler) => if pending is Ok {
                resume(rest, st, pending)
            } else {
                let o = exec_block(handler, 0, st);
                resume(rest, o.state, o.result)
            },
        }
    }
}

/// The outcome at which a machine arrives.
pub open spec fn outcome(m: MachineView) -> Outcome {
    resume(m.stack, m.state, Ok(()))
}

/// The machine that is about to run a program in a state.
pub open spec fn start(st: StateView, program: Seq<StatementView>) -> MachineView {
    MachineView { state: st, stack: seq![FrameView::Block(program, 0)] }
}

/// Whether a machine waits for input: its next statement reads input, and
/// no line is there to read, though reading has not failed.
pub open spec fn waits(m: MachineView) -> bool {
    &&& m.stack.len() > 0
    &&& m.stack.last() matches FrameView::Block(body, next)
    &&& next < body.len()
    &&& body[next as int] is Input
    &&& starved(m.state)
}

/// A machine that goes on with the given work in the given state.
pub open spec fn running(stack: Seq<FrameView>, st: StateView) -> (MachineView, Status) {
    (MachineView { state: st, stack }, Status::Running)
}

/// A machine after an error: the work is dropped up to the second body of
/// the catch statement around it, which is left to run as a block. Where
/// there is none, nothing is left, and the program has ended with the error.
pub open spec fn unwind(stack: Seq<FrameView>, st: StateView, e: ErrorView) -> (MachineView, Status)
    decreases stack.len(),
{
    if stack.len() == 0 {
        (MachineView { state: st, stack }, Status::Done(Err(e)))
    } else {
        match stack.last() {
            FrameView::Handler(handler) => running(
                stack.drop_last().push(FrameView::Block(handler, 0)),
                st,
            ),
            _ => unwind(stack.drop_last(), st, e),
        }
    }
}

/// A machine after one step, and what the step reports. A machine with no
/// work left has ended well, and one that waits stays as it is. Else the
/// next piece of work is taken up: the next statement of a block is
/// executed, or its bodies are put on top of the work that is left; the
/// condition of a loop is evaluated and, where it holds, a unit of the
/// budget is spent and the body put on top of the loop.
pub open spec fn step(m: MachineView) -> (MachineView, Status) {
    if m.stack.len() == 0 {
        (m, Status::Done(Ok(())))
    } else if waits(m) {
        (m, Status::Waiting)
    } else {
        let rest = m.stack.drop_last();
        let st = m.state;
        match m.stack.last() {
            FrameView::Handler(_) => running(rest, st),
            FrameView::Loop(place, cond, body) => match eval_bool(cond, st.symbols) {
                Err(k) => unwind(rest, st, ErrorView { kind: k, place }),
                Ok(false) => running(rest, st),
                Ok(true) => if st.budget == 0 {
                    unwind(rest, st, ErrorView { kind: ErrorKindView::BudgetExhausted, place })
                } else {
                    running(m.stack.push(FrameView::Block(body, 0)), st.spend())
                },
            },
            FrameView::Block(body, next) => if next >= body.len() {
                running(rest, st)
            } else {
                let s = body[next as int];
                let below = rest.push(FrameView::Block(body, next + 1));
                match s {
                    StatementView::If(cond, first, other) => match eval_bool(cond, st.symbols) {
                        Err(k) => unwind(rest, st, ErrorView { kind: k, place: s }),
                        Ok(true) => running(below.push(FrameView::Block(first, 0)), st),
                        Ok(false) => match other {
                            Some(second) => running(below.push(FrameView::Block(second, 0)), st),
                            None => running(below, st),
                        },
                    },
                    StatementView::While(cond, inner) => running(
                        below.push(FrameView::Loop(s, cond, inner)),
                        st,
                    ),
                    StatementView::Catch(first, handler) => running(
                        below.push(FrameView::Handler(handler)).push(FrameView::Block(first, 0)),
                        st,
                    ),
                    _ => match effect(s, st) {
                        Ok(after) => running(below, after),
                        Err(k) => unwind(rest, st, ErrorView { kind: k, place: s }),
                    },
                }
            },
        }
    }
}

/// The outcome of work with one more piece on top.
pub proof fn lemma_resume_push(
    rest: Seq<FrameView>,
    top: FrameView,
    st: StateView,
    pending: Result<(), ErrorView>,
)
    ensures
        resume(rest.push(top), st, pending) == match top {
            FrameView::Block(body, next) => if pending is Ok {
                let o = exec_block(body, next, st);
                resume(rest, o.state, o.result)
            } else {
                resume(rest, st, pending)
            },
            FrameView::Loop(place, cond, body) => if pending is Ok {
                let o = exec_while(place, cond, body, st);
                resume(rest, o.state, o.result)
            } else {
                resume(rest, st, pending)
            },
            FrameView::Handler(handler) => if pending is Ok {
                resume(rest, st, pending)
            } else {
                let o = exec_block(handler, 0, st);
                resume(rest, o.state, o.result)
            },
        },
{
    assert(rest.push(top).drop_last() =~= rest);
}

/// After an error a machine arrives at the outcome of the work that was
/// left when the error arose.
pub proof fn lemma_unwind(stack: Seq<FrameView>, st: StateView, e: ErrorView)
    ensures
        ({
            let (next, status) = unwind(stack, st, e);
            match status {
                Status::Running => outcome(next) == resume(stack, st, Err(e)),
                Status::Done(r) => next.stack.len() == 0 && resume(stack, st, Err(e)) == (Outcome {
                    state: next.state,
                    result: r,
                }),
                Status::Waiting => false,
            }
        }),
    decreases stack.len(),
{
    if stack.len() > 0 {
        match stack.last() {
            FrameView::Handler(handler) => {
                lemma_resume_push(stack.drop_last(), FrameView::Block(handler, 0), st, Ok(()));
            },
            _ => {
                lemma_unwind(stack.drop_last(), st, e);
            },
        }
    }
}

/// A machine that is about to run a program arrives at the outcome of the
/// program as a block.
pub proof fn law_start_outcome(st: StateView, program: Seq<StatementView>)
    ensures
        outcome(start(st, program)) == exec_block(program, 0, st),
{
    lemma_resume_push(Seq::empty(), FrameView::Block(program, 0), st, Ok(()));
    assert(seq![FrameView::Block(program, 0)] =~= Seq::<FrameView>::empty().push(
        FrameView::Block(program, 0),
    ));
}

/// A step that does not wait keeps the outcome: the machine after it
/// arrives where the machine before it did, and a step that ends the
/// program leaves the state and reports the result of that outcome.
pub proof fn law_step_keeps_outcome(m: MachineView)
    requires
        !waits(m),
    ensures
        ({
            let (next, status) = step(m);
            match status {
                Status::Running => outcome(next) == outcome(m),
                Status::Done(r) => next.stack.len() == 0 && outcome(m) == (Outcome {
                    state: next.state,
                    result: r,
                }),
                Status::Waiting => false,
            }
        }),
{
    if m.stack.len() > 0 {
        let rest = m.stack.drop_last();
        let st = m.state;
        let ok: Result<(), ErrorView> = Ok(());
        assert(m.stack =~= rest.push(m.stack.last()));
        lemma_resume_push(rest, m.stack.last(), st, ok);
        match m.stack.last() {
            FrameView::Handler(_) => {},
            FrameView::Loop(place, cond, body) => {
                match eval_bool(cond, st.symbols) {
                    Err(k) => {
                        lemma_unwind(rest, st, ErrorView { kind: k, place });
                    },
                    Ok(false) => {},
                    Ok(true) => {
                        if st.budget == 0 {
                            lemma_unwind(
                                rest,
                                st,
                                ErrorView { kind: ErrorKindView::BudgetExhausted, place },
                            );
                        } else {
                            lemma_block_budget(body, 0, st.spend());
                            let round = exec_block(body, 0, st.spend());
                            lemma_resume_push(m.stack, FrameView::Block(body, 0), st.spend(), ok);
                            lemma_resume_push(rest, m.stack.last(), round.state, round.result);
                        }
                    },
                }
            },
            FrameView::Block(body, next) => {
                if next < body.len() {
                    let s = body[next as int];
                    let upper = FrameView::Block(body, next + 1);
                    let below = rest.push(upper);
                    let first = exec(s, st);
                    lemma_exec_budget(s, st);
                    lemma_resume_push(rest, upper, first.state, first.result);
                    match s {
                        StatementView::If(cond, then, other) => {
                            match eval_bool(cond, st.symbols) {
                                Err(k) => {
                                    lemma_unwind(rest, st, ErrorView { kind: k, place: s });
                                },
                                Ok(true) => {
                                    lemma_resume_push(below, FrameView::Block(then, 0), st, ok);
                                },
                                Ok(false) => {
                                    match other {
                                        Some(second) => {
                                            lemma_resume_push(
                                                below,
                                                FrameView::Block(second, 0),
                                                st,
                                                ok,
                                            );
                                        },
                                        None => {},
                                    }
                                },
                            }
                        },
                        StatementView::While(cond, inner) => {
                            lemma_resume_push(below, FrameView::Loop(s, cond, inner), st, ok);
                        },
                        StatementView::Catch(body1, handler) => {
                            let middle = below.push(FrameView::Handler(handler));
                            let tried = exec_block(body1, 0, st);
                            lemma_block_budget(body1, 0, st);
                            lemma_resume_push(middle, FrameView::Block(body1, 0), st, ok);
                            lemma_resume_push(
                                below,
                                FrameView::Handler(handler),
                                tried.state,
                                tried.result,
                            );
                            if tried.result is Err {
                                let caught = exec_block(handler, 0, tried.state);
                                lemma_resume_push(rest, upper, caught.state, caught.result);
                            } else {
                                lemma_resume_push(rest, upper, tried.state, tried.result);
                            }
                        },
                        _ => {
                            lemma_exec_simple(s, st);
                            match effect(s, st) {
                                Ok(after) => {},
                                Err(k) => {
                                    lemma_unwind(rest, st, ErrorView { kind: k, place: s });
                                },
                            }
                        },
                    }
                }
            },
        }
    }
}

/// A piece of work that is left.
pub enum Frame<'a> {
    /// The statements of a block from the one at a position on.
    Block(&'a Vec<Statement>, usize),
    /// A loop, before its condition is evaluated: the loop as a statement,
    /// its condition and its body.
    Loop(&'a Statement, &'a Expression, &'a Vec<Statement>),
    /// The second body of a catch statement.
    Handler(&'a Vec<Statement>),
}

impl<'a> View for Frame<'a> {
    type V = FrameView;

    open spec fn view(&self) -> FrameView {
        match self {
            Frame::Block(body, next) => FrameView::Block(block_view(body@), *next as nat),
            Frame::Loop(place, cond, body) => FrameView::Loop(place@, cond@, block_view(body@)),
            Frame::Handler(handler) => FrameView::Handler(block_view(handler@)),
        }
    }
}

/// The models of the pieces of work of a stack, in order.
pub open spec fn stack_view(frames: Seq<Frame>) -> Seq<FrameView> {
    Seq::new(frames.len(), |i: int| frames[i]@)
}

/// What a step reports.
#[derive(Debug, PartialEq, Eq)]
pub enum Step {
    /// Work is left.
    Running,
    /// The next statement reads input, and no line is there to read.
    Waiting,
    /// No work is left: the program has ended, with this result.
    Done(SwErResult<()>),
}

impl View for Step {
    type V = Status;

    open spec fn view(&self) -> Status {
        match self {
            Step::Running => Status::Running,
            Step::Waiting => Status::Waiting,
            Step::Done(r) => Status::Done(run_result(*r)),
        }
    }
}

/// A program that is running: a state, and the work that is left.
pub struct Machine<'a> {
    state: State,
    stack: Vec<Frame<'a>>,
}

impl<'a> View for Machine<'a> {
    type V = MachineView;

    closed spec fn view(&self) -> MachineView {
        MachineView { state: self.state@, stack: stack_view(self.stack@) }
    }
}

impl<'a> Machine<'a> {
    /// The machine that is about to run a program in a state.
    pub fn new(state: State, program: &'a Vec<Statement>) -> (r: Self)
        ensures
            r@ == start(state@, block_view(program@)),
    {
        let mut stack: Vec<Frame<'a>> = Vec::new();
        stack.push(Frame::Block(program, 0));
        let r = Machine { state, stack };
        assert(r@.stack =~= seq![FrameView::Block(block_view(program@), 0)]);
        r
    }

    /// The state of the machine.
    pub fn state(&self) -> (r: &State)
        ensures
            r@ == self@.state,
    {
        &self.state
    }

    /// The state of the machine, which is given up.
    pub fn into_state(self) -> (r: State)
        ensures
            r@ == self@.state,
    {
        self.state
    }

    /// Whether any work is left.
    pub fn is_done(&self) -> (r: bool)
        ensures
            r == (self@.stack.len() == 0),
    {
        self.stack.len() == 0
    }

    /// Supplies a line of input, to be read after those supplied before.
    pub fn push_input(&mut self, line: String)
        ensures
            final(self)@ == (MachineView {
                state: StateView { input: old(self)@.state.input.push(line@), ..old(self)@.state },
                ..old(self)@
            }),
    {
        self.state.push_input(line);
    }

    /// Records that reading input has failed, and why.
    pub fn fail_input(&mut self, reason: String)
        ensures
            final(self)@ == (MachineView {
                state: StateView { input_failure: Some(reason@), ..old(self)@.state },
                ..old(self)@
            }),
    {
        self.state.fail_input(reason);
    }

    /// Hands out all that has been written, and forgets it.
    pub fn take_output(&mut self) -> (r: String)
        ensures
            r@ == old(self)@.state.output,
            final(self)@ == (MachineView {
                state: StateView { output: Seq::empty(), ..old(self)@.state },
                ..old(self)@
            }),
    {
        self.state.take_output()
    }

    fn push(&mut self, frame: Frame<'a>)
        ensures
            final(self)@ == (MachineView {
                stack: old(self)@.stack.push(frame@),
                ..old(self)@
            }),
    {
        self.stack.push(frame);
        assert(self@.stack =~= old(self)@.stack.push(frame@));
    }

    fn pop(&mut self) -> (r: Option<Frame<'a>>)
        ensures
            match r {
                Some(frame) => old(self)@.stack.len() > 0 && frame@ == old(self)@.stack.last()
                    && final(self)@ == (MachineView {
                    stack: old(self)@.stack.drop_last(),
                    ..old(self)@
                }),
                None => old(self)@.stack.len() == 0 && final(self)@ == old(self)@,
            },
    {
        let r = self.stack.pop();
        assert(r is Some ==> self@.stack =~= old(self)@.stack.drop_last());
        r
    }

    fn unwind(&mut self, e: Error) -> (r: Step)
        ensures
            (final(self)@, r@) == unwind(old(self)@.stack, old(self)@.state, e@),
    {
        loop
            invariant
                self@.state == old(self)@.state,
                unwind(self@.stack, self@.state, e@) == unwind(
                    old(self)@.stack,
                    old(self)@.state,
                    e@,
                ),
            decreases self@.stack.len(),
        {
            match self.pop() {
                None => {
                    return Step::Done(Err(e));
                },
                Some(Frame::Handler(handler)) => {
                    self.push(Frame::Block(handler, 0));
                    return Step::Running;
                },
                Some(_) => {},
            }
        }
    }

    /// Does one step: takes up the next piece of the work that is left.
    pub fn step(&mut self) -> (r: Step)
        ensures
            (final(self)@, r@) == step(old(self)@),
    {
        let top = match self.pop() {
            None => {
                return Step::Done(Ok(()));
            },
            Some(top) => top,
        };
        let r = match top {
            Frame::Handler(_) => Step::Running,
            Frame::Loop(place, cond, body) => {
                match cond.try_bool(&self.state) {
                    Err(k) => self.unwind(Error::new(k, place.clone())),
                    Ok(false) => Step::Running,
                    Ok(true) => {
                        if self.state.budget() == 0 {
                            self.unwind(Error::new(ErrorKind::BudgetExhausted, place.clone()))
                        } else {
                            self.state.spend();
                            self.push(Frame::Loop(place, cond, body));
                            self.push(Frame::Block(body, 0));
                            Step::Running
                        }
                    },
                }
            },
            Frame::Block(body, next) => {
                if next >= body.len() {
                    return Step::Running;
                }
                let s = &body[next];
                proof {
                    lemma_statement_view(*s);
                    if !(s@ is If) && !(s@ is While) && !(s@ is Catch) {
                        lemma_exec_simple(s@, self@.state);
                    }
                }
                match s {
                    Statement::Input(_) => {
                        if self.state.starved() {
                            self.push(Frame::Block(body, next));
                            assert(self@ == old(self)@) by {
                                assert(self@.stack =~= old(self)@.stack);
                            }
                            return Step::Waiting;
                        }
                        match self.state.execute(s) {
                            Ok(()) => {
                                self.push(Frame::Block(body, next + 1));
                                Step::Running
                            },
                            Err(e) => self.unwind(e),
                        }
                    },
                    Statement::If(cond, first, other) => {
                        match cond.try_bool(&self.state) {
                            Err(k) => self.unwind(Error::new(k, s.clone())),
                            Ok(true) => {
                                self.push(Frame::Block(body, next + 1));
                                self.push(Frame::Block(first, 0));
                                Step::Running
                            },
                            Ok(false) => {
                                self.push(Frame::Block(body, next + 1));
                                match other {
                                    Some(second) => self.push(Frame::Block(second, 0)),
                                    None => {},
                                }
                                Step::Running
                            },
                        }
                    },
                    Statement::While(cond, inner) => {
                        self.push(Frame::Block(body, next + 1));
                        self.push(Frame::Loop(s, cond, inner));
                        Step::Running
                    },
                    Statement::Catch(first, handler) => {
                        self.push(Frame::Block(body, next + 1));
                        self.push(Frame::Handler(handler));
                        self.push(Frame::Block(first, 0));
                        Step::Running
                    },
                    _ => {
                        match self.state.execute(s) {
                            Ok(()) => {
                                self.push(Frame::Block(body, next + 1));
                                Step::Running
                            },
                            Err(e) => self.unwind(e),
                        }
                    },
                }
            },
        };
        assert(self@.stack =~= step(old(self)@).0.stack);
        r
    }
}

} // verus!
