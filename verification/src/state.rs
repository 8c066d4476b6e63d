//! The interpreter: the state of a running program, and the execution of
//! statements against it.
use vstd::prelude::*;
use vstd::hash_map::StringHashMap;
use vstd::string::*;
use crate::error::{
    run_result, value_result, Error, ErrorKind, ErrorKindView, SwErResult, SwResult,
};
use crate::expression::{Expression, ExpressionView};
use crate::semantics::{
    effect, eval, exec, exec_block, exec_while, lemma_block_budget, lemma_exec_budget,
    length_value, lookup, starved, Outcome, StateView,
};
use crate::statement::{block_view, lemma_statement_view, Statement, StatementView};
use crate::text::trimmed;
use crate::value::{clone_values, lemma_list_view, values_view, Value, ValueView};

verus! {

/// The state of a running program: the value bound to each name, the lines
/// of input that were supplied and not read yet, all that was written, and
/// the number of loop iterations that may still begin.
///
/// The state reads and writes nothing by itself. Its caller supplies the
/// lines that input statements read, and takes what print statements wrote.
/// The budget makes every run end: each iteration of a loop spends one unit
/// of it, and a loop fails where none is left.
pub struct State {
    symbols: StringHashMap<Value>,
    input: Vec<String>,
    input_failure: Option<String>,
    cursor: usize,
    output: String,
    budget: u64,
}

/// The models of the values bound to the names of a symbol table.
pub open spec fn symbols_view(m: Map<Seq<char>, Value>) -> Map<Seq<char>, ValueView> {
    Map::new(|k: Seq<char>| m.contains_key(k), |k: Seq<char>| m[k]@)
}

/// The lines from the one at `cursor` on.
pub open spec fn pending_lines(lines: Seq<String>, cursor: nat) -> Seq<Seq<char>> {
    if cursor <= lines.len() {
        Seq::new((lines.len() - cursor) as nat, |i: int| lines[cursor + i]@)
    } else {
        Seq::empty()
    }
}

impl View for State {
    type V = StateView;

    closed spec fn view(&self) -> StateView {
        StateView {
            symbols: symbols_view(self.symbols@),
            input: pending_lines(self.input@, self.cursor as nat),
            input_failure: match self.input_failure {
                Some(reason) => Some(reason@),
                None => None,
            },
            output: self.output@,
            budget: self.budget as nat,
        }
    }
}

/// Whether a result and the state after it are what `expected` asks for:
/// success and the new state where it holds one, else its error and the
/// state as it was.
pub open spec fn follows(
    r: Result<(), ErrorKind>,
    after: StateView,
    before: StateView,
    expected: Result<StateView, ErrorKindView>,
) -> bool {
    match expected {
        Ok(st) => r is Ok && after == st,
        Err(k) => r matches Err(e) && e@ == k && after == before,
    }
}

/// Whether a result and the state after it are the given outcome.
pub open spec fn is_outcome(r: Result<(), Error>, after: StateView, o: Outcome) -> bool {
    after == o.state && run_result(r) == o.result
}

/// The state in which a program starts: nothing bound, read or written.
pub open spec fn initial_state(budget: nat) -> StateView {
    StateView {
        symbols: Map::empty(),
        input: Seq::empty(),
        input_failure: None,
        output: Seq::empty(),
        budget,
    }
}

impl State {
    /// A state with nothing bound, no input, nothing written, and the
    /// largest budget.
    pub fn new() -> (r: Self)
        ensures
            r@ == initial_state(u64::MAX as nat),
    {
        State::with_budget(u64::MAX)
    }

    /// A state with nothing bound, no input, nothing written, and the given
    /// budget of loop iterations.
    pub fn with_budget(budget: u64) -> (r: Self)
        ensures
            r@ == initial_state(budget as nat),
    {
        let r = State {
            symbols: StringHashMap::new(),
            input: Vec::new(),
            input_failure: None,
            cursor: 0,
            output: String::new(),
            budget,
        };
        assert(r@.symbols =~= Map::empty());
        assert(r@.input =~= Seq::empty());
        r
    }

    /// Supplies a line of input, to be read after those supplied before.
    pub fn push_input(&mut self, line: String)
        ensures
            final(self)@ == (StateView { input: old(self)@.input.push(line@), ..old(self)@ }),
    {
        if self.cursor >= self.input.len() {
            self.input = Vec::new();
            self.cursor = 0;
        }
        self.input.push(line);
        assert(self@.input =~= old(self)@.input.push(line@));
    }

    /// Records that reading input has failed, and why: once the lines
    /// supplied so far are read, input statements fail with this reason.
    pub fn fail_input(&mut self, reason: String)
        ensures
            final(self)@ == (StateView { input_failure: Some(reason@), ..old(self)@ }),
    {
        self.input_failure = Some(reason);
    }

    /// All that has been written.
    pub fn output(&self) -> (r: &str)
        ensures
            r@ == self@.output,
    {
        self.output.as_str()
    }

    /// Hands out all that has been written, and forgets it.
    pub fn take_output(&mut self) -> (r: String)
        ensures
            r@ == old(self)@.output,
            final(self)@ == (StateView { output: Seq::empty(), ..old(self)@ }),
    {
        let r = self.output.clone();
        self.output = String::new();
        r
    }

    /// The number of loop iterations that may still begin.
    pub fn budget(&self) -> (r: u64)
        ensures
            r == self@.budget,
    {
        self.budget
    }

    /// Whether an input statement would find no line to read, though
    /// reading has not failed: more input may still be supplied.
    pub fn starved(&self) -> (r: bool)
        ensures
            r == starved(self@),
    {
        self.cursor >= self.input.len() && self.input_failure.is_none()
    }

    /// Spends one unit of the budget, as a loop does for an iteration.
    pub fn spend(&mut self)
        requires
            old(self)@.budget > 0,
        ensures
            final(self)@ == old(self)@.spend(),
    {
        self.budget = self.budget - 1;
    }

    /// The number of lines of input that were supplied and not read.
    pub fn pending_input(&self) -> (r: usize)
        ensures
            r == self@.input.len(),
    {
        if self.cursor <= self.input.len() {
            self.input.len() - self.cursor
        } else {
            0
        }
    }

    /// The item of a named list, or the character of a named string, at the
    /// index that the expression gives.
    pub fn list_index(&self, list_name: &str, exp: &Expression) -> (r: SwResult<Value>)
        ensures
            value_result(r) == eval(
                ExpressionView::ListIndex(list_name@, Box::new(exp@)),
                self@.symbols,
            ),
        decreases exp, 2nat,
    {
        let i = match exp.try_int(self) {
            Ok(i) => i,
            Err(e) => return Err(e),
        };
        match self.symbols.get(list_name) {
            Some(symbol) => {
                match symbol {
                    Value::List(l) => {
                        proof {
                            lemma_list_view(*l);
                        }
                        if i >= 0 && (i as usize) < l.len() {
                            Ok(l[i as usize].clone())
                        } else {
                            Err(ErrorKind::IndexOutOfBounds(symbol.clone(), i))
                        }
                    },
                    Value::Str(s) => {
                        let n = s.as_str().unicode_len();
                        if i >= 0 && (i as usize) < n {
                            let at = i as usize;
                            let c = s.as_str().substring_char(at, at + 1);
                            assert(c@ =~= seq![s@[i as int]]);
                            Ok(Value::Str(c.to_owned()))
                        } else {
                            Err(ErrorKind::IndexOutOfBounds(symbol.clone(), i))
                        }
                    },
                    _ => Err(ErrorKind::IndexUnindexable(symbol.clone())),
                }
            },
            None => Err(ErrorKind::UnknownVariable(list_name.to_owned())),
        }
    }

    /// The number of items of a named list, or of characters of a named string.
    pub fn list_length(&self, name: &str) -> (r: SwResult<Value>)
        ensures
            value_result(r) == eval(ExpressionView::ListLength(name@), self@.symbols),
    {
        match self.symbols.get(name) {
            Some(symbol) => {
                match symbol {
                    Value::List(l) => {
                        proof {
                            lemma_list_view(*l);
                        }
                        Ok(length_as_value(l.len()))
                    },
                    Value::Str(s) => Ok(length_as_value(s.as_str().unicode_len())),
                    _ => Err(ErrorKind::IndexUnindexable(symbol.clone())),
                }
            },
            None => Err(ErrorKind::UnknownVariable(name.to_owned())),
        }
    }

    /// The value bound to a name.
    pub fn get(&self, name: &str) -> (r: SwResult<Value>)
        ensures
            value_result(r) == lookup(self@.symbols, name@),
    {
        match self.symbols.get(name) {
            Some(val) => Ok(val.clone()),
            None => Err(ErrorKind::UnknownVariable(name.to_owned())),
        }
    }

    fn assign(&mut self, name: String, exp: &Expression) -> (r: SwResult<()>)
        ensures
            follows(
                r,
                final(self)@,
                old(self)@,
                effect(StatementView::Assignment(name@, exp@), old(self)@),
            ),
    {
        let v = match exp.evaluate(self) {
            Ok(v) => v,
            Err(e) => return Err(e),
        };
        self.bind(name, v);
        Ok(())
    }

    fn bind(&mut self, name: String, v: Value)
        ensures
            final(self)@ == old(self)@.bind(name@, v@),
    {
        self.symbols.insert(name, v);
        assert(self@.symbols =~= old(self)@.symbols.insert(name@, v@));
    }

    fn delete(&mut self, name: &str) -> (r: SwResult<()>)
        ensures
            follows(r, final(self)@, old(self)@, effect(StatementView::Delete(name@), old(self)@)),
    {
        if self.symbols.contains_key(name) {
            self.symbols.remove(name);
            assert(self@.symbols =~= old(self)@.symbols.remove(name@));
            Ok(())
        } else {
            Err(ErrorKind::UnknownVariable(name.to_owned()))
        }
    }

    fn print(&mut self, exp: &Expression) -> (r: SwResult<()>)
        ensures
            follows(r, final(self)@, old(self)@, effect(StatementView::Print(exp@), old(self)@)),
    {
        let x = match exp.evaluate(self) {
            Ok(x) => x,
            Err(e) => return Err(e),
        };
        proof {
            reveal_strlit("\n");
        }
        x.write_text(&mut self.output);
        self.output.append("\n");
        assert(self@.output =~= old(self)@.output + crate::value::text_of(x@) + seq!['\n']);
        Ok(())
    }

    fn input(&mut self, name: String) -> (r: SwResult<()>)
        ensures
            follows(r, final(self)@, old(self)@, effect(StatementView::Input(name@), old(self)@)),
    {
        if self.cursor >= self.input.len() {
            return match &self.input_failure {
                Some(reason) => Err(ErrorKind::IOError(reason.clone())),
                None => Err(ErrorKind::IOError("no line of input is left".to_owned())),
            };
        }
        let line = trimmed(self.input[self.cursor].as_str());
        self.cursor = self.cursor + 1;
        assert(self@.input =~= old(self)@.input.skip(1));
        self.bind(name, Value::Str(line));
        Ok(())
    }

    fn get_value(&self, name: &str) -> (r: SwResult<&Value>)
        ensures
            match r {
                Ok(v) => lookup(self@.symbols, name@) == Ok::<ValueView, ErrorKindView>(v@),
                Err(e) => lookup(self@.symbols, name@) == Err::<ValueView, ErrorKindView>(e@),
            },
    {
        match self.symbols.get(name) {
            Some(value) => Ok(value),
            None => Err(ErrorKind::UnknownVariable(name.to_owned())),
        }
    }

    fn get_list(&self, name: &str) -> (r: SwResult<Vec<Value>>)
        ensures
            match lookup(self@.symbols, name@) {
                Err(k) => r matches Err(e) && e@ == k,
                Ok(ValueView::List(items)) => r matches Ok(l) && values_view(l@) == items,
                Ok(other) => r matches Err(e) && e@ == ErrorKindView::IndexUnindexable(other),
            },
    {
        let value = match self.get_value(name) {
            Ok(value) => value,
            Err(e) => return Err(e),
        };
        match value {
            Value::List(l) => {
                proof {
                    lemma_list_view(*l);
                }
                Ok(clone_values(l))
            },
            _ => Err(ErrorKind::IndexUnindexable(value.clone())),
        }
    }

    fn get_list_element(&self, name: &str, index: i32) -> (r: SwResult<(Vec<Value>, usize)>)
        ensures
            match lookup(self@.symbols, name@) {
                Err(k) => r matches Err(e) && e@ == k,
                Ok(ValueView::List(items)) => if 0 <= index < items.len() {
                    r matches Ok(found) && values_view(found.0@) == items && found.1 == index
                } else {
                    r matches Err(e) && e@ == ErrorKindView::IndexOutOfBounds(
                        ValueView::List(items),
                        index,
                    )
                },
                Ok(other) => r matches Err(e) && e@ == ErrorKindView::IndexUnindexable(other),
            },
    {
        let list = match self.get_list(name) {
            Ok(list) => list,
            Err(e) => return Err(e),
        };
        if index >= 0 && (index as usize) < list.len() {
            Ok((list, index as usize))
        } else {
            proof {
                lemma_list_view(list);
            }
            Err(ErrorKind::IndexOutOfBounds(Value::List(list), index))
        }
    }

    fn list_append(&mut self, list_name: &str, append_exp: &Expression) -> (r: SwResult<()>)
        ensures
            follows(
                r,
                final(self)@,
                old(self)@,
                effect(StatementView::ListAppend(list_name@, append_exp@), old(self)@),
            ),
    {
        let to_append = match append_exp.evaluate(self) {
            Ok(v) => v,
            Err(e) => return Err(e),
        };
        let mut list = match self.get_list(list_name) {
            Ok(list) => list,
            Err(e) => return Err(e),
        };
        let ghost items = values_view(list@);
        list.push(to_append);
        proof {
            lemma_list_view(list);
            assert(values_view(list@) =~= items.push(to_append@));
        }
        self.bind(list_name.to_owned(), Value::List(list));
        Ok(())
    }

    fn list_assign(
        &mut self,
        list_name: &str,
        index_exp: &Expression,
        assign_exp: &Expression,
    ) -> (r: SwResult<()>)
        ensures
            follows(
                r,
                final(self)@,
                old(self)@,
                effect(StatementView::ListAssign(list_name@, index_exp@, assign_exp@), old(self)@),
            ),
    {
        let index = match index_exp.try_int(self) {
            Ok(i) => i,
            Err(e) => return Err(e),
        };
        let to_assign = match assign_exp.evaluate(self) {
            Ok(v) => v,
            Err(e) => return Err(e),
        };
        let (mut list, at) = match self.get_list_element(list_name, index) {
            Ok(found) => found,
            Err(e) => return Err(e),
        };
        let ghost items = values_view(list@);
        let ghost assigned = to_assign@;
        list[at] = to_assign;
        proof {
            lemma_list_view(list);
            assert(values_view(list@) =~= items.update(index as int, assigned));
        }
        self.bind(list_name.to_owned(), Value::List(list));
        Ok(())
    }

    fn list_delete(&mut self, list_name: &str, index_exp: &Expression) -> (r: SwResult<()>)
        ensures
            follows(
                r,
                final(self)@,
                old(self)@,
                effect(StatementView::ListDelete(list_name@, index_exp@), old(self)@),
            ),
    {
        let index = match index_exp.try_int(self) {
            Ok(i) => i,
            Err(e) => return Err(e),
        };
        let (mut list, at) = match self.get_list_element(list_name, index) {
            Ok(found) => found,
            Err(e) => return Err(e),
        };
        let ghost items = values_view(list@);
        list.remove(at);
        proof {
            lemma_list_view(list);
            assert(values_view(list@) =~= items.remove(index as int));
        }
        self.bind(list_name.to_owned(), Value::List(list));
        Ok(())
    }

    fn exec_if(
        &mut self,
        statement: &Statement,
        bool: &Expression,
        if_body: &Vec<Statement>,
        else_body: &Option<Vec<Statement>>,
    ) -> (r: SwErResult<()>)
        requires
            *statement == Statement::If(*bool, *if_body, *else_body),
        ensures
            is_outcome(r, final(self)@, exec(statement@, old(self)@)),
        decreases old(self)@.budget, statement, 0nat,
    {
        proof {
            lemma_statement_view(*statement);
        }
        let b = match bool.try_bool(self) {
            Ok(b) => b,
            Err(e) => return Err(Error::new(e, statement.clone())),
        };
        if b {
            self.run_block(if_body)
        } else {
            match else_body {
                Some(s) => self.run_block(s),
                None => Ok(()),
            }
        }
    }

    #[verifier::loop_isolation(false)]
    fn exec_while(&mut self, statement: &Statement, bool: &Expression, body: &Vec<Statement>) -> (r:
        SwErResult<()>)
        requires
            *statement == Statement::While(*bool, *body),
        ensures
            is_outcome(r, final(self)@, exec(statement@, old(self)@)),
        decreases old(self)@.budget, statement, 0nat,
    {
        proof {
            lemma_statement_view(*statement);
        }
        let ghost place = statement@;
        let ghost block = block_view(body@);
        loop
            invariant
                self@.budget <= old(self)@.budget,
                exec_while(place, bool@, block, self@) == exec_while(
                    place,
                    bool@,
                    block,
                    old(self)@,
                ),
            decreases self@.budget,
        {
            let condition = match bool.try_bool(self) {
                Ok(c) => c,
                Err(e) => return Err(Error::new(e, statement.clone())),
            };
            if !condition {
                return Ok(());
            }
            if self.budget == 0 {
                return Err(Error::new(ErrorKind::BudgetExhausted, statement.clone()));
            }
            let ghost before = self@;
            self.spend();
            proof {
                lemma_block_budget(block, 0, before.spend());
            }
            match self.run_block(body) {
                Err(e) => return Err(e),
                Ok(()) => {},
            }
        }
    }

    fn catch(&mut self, statement: &Statement, body: &Vec<Statement>, handler: &Vec<Statement>) -> (r:
        SwErResult<()>)
        requires
            *statement == Statement::Catch(*body, *handler),
        ensures
            is_outcome(r, final(self)@, exec(statement@, old(self)@)),
        decreases old(self)@.budget, statement, 0nat,
    {
        proof {
            lemma_statement_view(*statement);
            lemma_block_budget(block_view(body@), 0, old(self)@);
        }
        match self.run_block(body) {
            Ok(()) => Ok(()),
            Err(_) => self.run_block(handler),
        }
    }

    /// Executes a statement. A statement that fails leaves the state as it
    /// was when it failed; the error names the statement that failed. An
    /// input statement reads the next of the lines supplied, and fails where
    /// none is left; a caller that supplies lines while the program runs
    /// executes it with a `Machine`.
    pub fn execute(&mut self, statement: &Statement) -> (r: SwErResult<()>)
        ensures
            is_outcome(r, final(self)@, exec(statement@, old(self)@)),
        decreases old(self)@.budget, statement, 1nat,
    {
        proof {
            lemma_statement_view(*statement);
        }
        match statement {
            Statement::Input(s) => {
                let r = self.input(s.clone());
                located(r, statement)
            },
            Statement::ListAssign(s, index_exp, assign_exp) => {
                let r = self.list_assign(s.as_str(), index_exp, assign_exp);
                located(r, statement)
            },
            Statement::ListAppend(s, append_exp) => {
                let r = self.list_append(s.as_str(), append_exp);
                located(r, statement)
            },
            Statement::ListDelete(name, idx) => {
                let r = self.list_delete(name.as_str(), idx);
                located(r, statement)
            },
            Statement::ListNew(s) => {
                let empty: Vec<Value> = Vec::new();
                proof {
                    lemma_list_view(empty);
                    assert(values_view(empty@) =~= Seq::<ValueView>::empty());
                }
                self.bind(s.clone(), Value::List(empty));
                Ok(())
            },
            Statement::If(bool, if_body, else_body) => self.exec_if(
                statement,
                bool,
                if_body,
                else_body,
            ),
            Statement::While(bool, body) => self.exec_while(statement, bool, body),
            Statement::Assignment(name, value) => {
                let r = self.assign(name.clone(), value);
                located(r, statement)
            },
            Statement::Delete(name) => {
                let r = self.delete(name.as_str());
                located(r, statement)
            },
            Statement::Print(exp) => {
                let r = self.print(exp);
                located(r, statement)
            },
            Statement::Catch(body, handler) => self.catch(statement, body, handler),
        }
    }

    #[verifier::loop_isolation(false)]
    fn run_block(&mut self, statements: &Vec<Statement>) -> (r: SwErResult<()>)
        ensures
            is_outcome(r, final(self)@, exec_block(block_view(statements@), 0, old(self)@)),
        decreases old(self)@.budget, statements, 0nat,
    {
        let ghost block = block_view(statements@);
        let mut i: usize = 0;
        while i < statements.len()
            invariant
                i <= statements.len(),
                self@.budget <= old(self)@.budget,
                exec_block(block, i as nat, self@) == exec_block(block, 0, old(self)@),
            decreases statements.len() - i,
        {
            proof {
                lemma_exec_budget(block[i as int], self@);
            }
            match self.execute(&statements[i]) {
                Err(e) => return Err(e),
                Ok(()) => {},
            }
            i += 1;
        }
        Ok(())
    }

    /// Executes statements in order, up to the first that fails.
    #[verifier::loop_isolation(false)]
    pub fn run(&mut self, statements: &[Statement]) -> (r: SwErResult<()>)
        ensures
            is_outcome(r, final(self)@, exec_block(block_view(statements@), 0, old(self)@)),
    {
        let ghost block = block_view(statements@);
        let mut i: usize = 0;
        while i < statements.len()
            invariant
                i <= statements.len(),
                exec_block(block, i as nat, self@) == exec_block(block, 0, old(self)@),
            decreases statements.len() - i,
        {
            proof {
                lemma_exec_budget(block[i as int], self@);
            }
            match self.execute(&statements[i]) {
                Err(e) => return Err(e),
                Ok(()) => {},
            }
            i += 1;
        }
        Ok(())
    }
}

/// The result of a statement that holds no other statement, with the
/// statement as the place of its error.
fn located(r: SwResult<()>, statement: &Statement) -> (out: SwErResult<()>)
    ensures
        match r {
            Ok(_) => out is Ok,
            Err(k) => out matches Err(e) && e@.kind == k@ && e@.place == statement@,
        },
{
    match r {
        Ok(()) => Ok(()),
        Err(kind) => Err(Error::new(kind, statement.clone())),
    }
}

impl Default for State {
    /// The state that `State::new` gives.
    fn default() -> (r: Self)
        ensures
            r@ == initial_state(u64::MAX as nat),
    {
        State::new()
    }
}

fn length_as_value(n: usize) -> (r: Value)
    ensures
        r@ == length_value(n as nat),
{
    if n > i32::MAX as usize {
        Value::Int(i32::MAX)
    } else {
        Value::Int(n as i32)
    }
}

} // verus!
