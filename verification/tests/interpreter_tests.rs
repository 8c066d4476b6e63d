use schwift::error::{Error, ErrorKind};
use schwift::expression::{Expression, Operator};
use schwift::grammar::{expression, program, statement};
use schwift::state::State;
use schwift::statement::Statement;
use schwift::value::Value;

fn text(s: &str) -> Value {
    Value::Str(s.to_string())
}

fn literal(v: Value) -> Expression {
    Expression::Value(v)
}

fn variable(name: &str) -> Expression {
    Expression::Variable(name.to_string())
}

fn binary(left: Expression, op: Operator, right: Expression) -> Expression {
    Expression::OperatorExpression(Box::new(left), op, Box::new(right))
}

fn index(name: &str, i: i32) -> Expression {
    Expression::ListIndex(name.to_string(), Box::new(literal(Value::Int(i))))
}

fn run_source(state: &mut State, source: &str) -> Result<(), Error> {
    let statements = program(source).unwrap();
    state.run(&statements)
}

fn state_with_list(name: &str, items: Vec<Value>) -> State {
    let mut state = State::new();
    state.execute(&Statement::ListNew(name.to_string())).unwrap();
    for item in items {
        state.execute(&Statement::ListAppend(name.to_string(), literal(item))).unwrap();
    }
    state
}

#[test]
fn new_state_is_empty() {
    let state = State::new();
    assert_eq!(state.output(), "");
    assert_eq!(state.budget(), u64::MAX);
    assert_eq!(state.pending_input(), 0);
    assert_eq!(state.get("x"), Err(ErrorKind::UnknownVariable("x".to_string())));
}

#[test]
fn default_state_is_a_new_state() {
    let state = State::default();
    assert_eq!(state.output(), "");
    assert_eq!(state.budget(), u64::MAX);
    assert_eq!(state.pending_input(), 0);
}

#[test]
fn print_writes_the_text_and_a_line_terminator() {
    let mut state = State::new();
    let s = statement("show me what you got \"Hello\"").unwrap();
    assert_eq!(s, Statement::Print(literal(text("Hello"))));
    assert_eq!(state.execute(&s), Ok(()));
    assert_eq!(state.output(), "Hello\n");
    assert_eq!(state.execute(&s), Ok(()));
    assert_eq!(state.output(), "Hello\nHello\n");
    assert_eq!(state.take_output(), "Hello\nHello\n");
    assert_eq!(state.output(), "");
}

#[test]
fn print_of_each_kind_of_value() {
    let mut state = state_with_list(
        "l",
        vec![Value::Int(1), text("a"), Value::Bool(true), Value::List(vec![Value::Int(-7)])],
    );
    run_source(
        &mut state,
        "show me what you got 0\nshow me what you got 1 == 1\nshow me what you got l\nshow me what you got 2147483647 + 1",
    )
    .unwrap();
    assert_eq!(state.output(), "0\ntrue\n[1, a, true, [-7]]\n-2147483648\n");
}

#[test]
fn textual_forms() {
    assert_eq!(Value::Int(0).to_text(), "0");
    assert_eq!(Value::Int(1203).to_text(), "1203");
    assert_eq!(Value::Int(-45).to_text(), "-45");
    assert_eq!(Value::Int(i32::MIN).to_text(), "-2147483648");
    assert_eq!(Value::Int(i32::MAX).to_text(), "2147483647");
    assert_eq!(Value::Bool(false).to_text(), "false");
    assert_eq!(text("a b").to_text(), "a b");
    assert_eq!(Value::List(vec![]).to_text(), "[]");
    assert_eq!(Value::List(vec![Value::Int(3)]).to_text(), "[3]");
    assert_eq!(Value::List(vec![Value::Int(3), text("x")]).to_text(), "[3, x]");
    assert_eq!(Value::Int(3).kind(), "int");
    assert_eq!(text("").kind(), "string");
    assert_eq!(Value::Bool(true).kind(), "bool");
    assert_eq!(Value::List(vec![]).kind(), "list");
}

#[test]
fn values_are_equal_by_structure() {
    let a = Value::List(vec![Value::Int(1), Value::List(vec![text("x")])]);
    let b = a.clone();
    assert_eq!(a, b);
    assert!(a.equals(&b));
    assert!(!a.equals(&Value::List(vec![Value::Int(1), Value::List(vec![text("y")])])));
    assert!(!a.equals(&Value::List(vec![Value::Int(1)])));
    assert!(!Value::Int(1).equals(&Value::Bool(true)));
    assert!(text("a").equals(&text("a")));
    assert!(!text("a").equals(&text("b")));
}

#[test]
fn length_of_a_list_of_three() {
    let state = state_with_list("apple", vec![Value::Int(1), Value::Int(2), Value::Int(3)]);
    let e = expression("apple squanch").unwrap();
    assert_eq!(e, Expression::ListLength("apple".to_string()));
    assert_eq!(e.evaluate(&state), Ok(Value::Int(3)));
    assert_eq!(state.list_length("apple"), Ok(Value::Int(3)));
}

#[test]
fn length_of_a_string_counts_characters() {
    let mut state = State::new();
    state.execute(&Statement::Assignment("s".to_string(), literal(text("h\u{e9}llo")))).unwrap();
    assert_eq!(Expression::ListLength("s".to_string()).evaluate(&state), Ok(Value::Int(5)));
    state.execute(&Statement::Assignment("n".to_string(), literal(Value::Int(5)))).unwrap();
    assert_eq!(
        Expression::ListLength("n".to_string()).evaluate(&state),
        Err(ErrorKind::IndexUnindexable(Value::Int(5)))
    );
    assert_eq!(
        Expression::ListLength("nothing".to_string()).evaluate(&state),
        Err(ErrorKind::UnknownVariable("nothing".to_string()))
    );
}

#[test]
fn assign_then_index_gives_the_value() {
    let mut state = state_with_list("l", vec![Value::Int(10), Value::Int(20), Value::Int(30)]);
    let s = Statement::ListAssign("l".to_string(), literal(Value::Int(1)), literal(text("new")));
    assert_eq!(state.execute(&s), Ok(()));
    assert_eq!(index("l", 1).evaluate(&state), Ok(text("new")));
    assert_eq!(index("l", 0).evaluate(&state), Ok(Value::Int(10)));
    assert_eq!(index("l", 2).evaluate(&state), Ok(Value::Int(30)));
    assert_eq!(state.list_length("l"), Ok(Value::Int(3)));
}

#[test]
fn delete_shifts_the_items_behind_down() {
    let mut state = state_with_list(
        "l",
        vec![Value::Int(10), Value::Int(20), Value::Int(30), Value::Int(40)],
    );
    let s = statement("squanch l[1]").unwrap();
    assert_eq!(state.execute(&s), Ok(()));
    assert_eq!(state.list_length("l"), Ok(Value::Int(3)));
    assert_eq!(
        state.get("l"),
        Ok(Value::List(vec![Value::Int(10), Value::Int(30), Value::Int(40)]))
    );
    assert_eq!(index("l", 0).evaluate(&state), Ok(Value::Int(10)));
    assert_eq!(index("l", 1).evaluate(&state), Ok(Value::Int(30)));
    assert_eq!(index("l", 2).evaluate(&state), Ok(Value::Int(40)));
}

#[test]
fn indexing_within_and_past_the_end() {
    let items = vec![Value::Int(10), Value::Int(20), Value::Int(30)];
    let mut state = state_with_list("l", items.clone());
    state.execute(&Statement::Assignment("s".to_string(), literal(text("abc")))).unwrap();
    assert_eq!(index("l", 0).evaluate(&state), Ok(Value::Int(10)));
    assert_eq!(index("l", 2).evaluate(&state), Ok(Value::Int(30)));
    assert_eq!(index("s", 0).evaluate(&state), Ok(text("a")));
    assert_eq!(index("s", 2).evaluate(&state), Ok(text("c")));
    for i in [3, 4, 100, i32::MAX, -1, i32::MIN] {
        assert_eq!(
            index("l", i).evaluate(&state),
            Err(ErrorKind::IndexOutOfBounds(Value::List(items.clone()), i))
        );
        assert_eq!(
            index("s", i).evaluate(&state),
            Err(ErrorKind::IndexOutOfBounds(text("abc"), i))
        );
        assert_eq!(
            state.list_index("l", &literal(Value::Int(i))),
            Err(ErrorKind::IndexOutOfBounds(Value::List(items.clone()), i))
        );
    }
}

#[test]
fn indexing_checks_the_index_before_the_name() {
    let mut state = State::new();
    state.execute(&Statement::Assignment("n".to_string(), literal(Value::Int(5)))).unwrap();
    assert_eq!(
        state.list_index("nothing", &literal(text("x"))),
        Err(ErrorKind::UnexpectedType("int".to_string(), text("x")))
    );
    assert_eq!(
        state.list_index("nothing", &literal(Value::Int(0))),
        Err(ErrorKind::UnknownVariable("nothing".to_string()))
    );
    assert_eq!(
        state.list_index("n", &literal(Value::Int(0))),
        Err(ErrorKind::IndexUnindexable(Value::Int(5)))
    );
    assert_eq!(
        state.list_index("n", &variable("nothing")),
        Err(ErrorKind::UnknownVariable("nothing".to_string()))
    );
}

#[test]
fn operators_on_values_of_the_right_kind() {
    let state = State::new();
    let number = |i: i32| literal(Value::Int(i));
    let boolean = |b: bool| literal(Value::Bool(b));
    assert_eq!(binary(number(2), Operator::Add, number(40)).evaluate(&state), Ok(Value::Int(42)));
    assert_eq!(
        binary(number(i32::MAX), Operator::Add, number(1)).evaluate(&state),
        Ok(Value::Int(i32::MIN))
    );
    assert_eq!(
        binary(number(i32::MIN), Operator::Add, number(-1)).evaluate(&state),
        Ok(Value::Int(i32::MAX))
    );
    assert_eq!(binary(number(2), Operator::Equality, number(2)).evaluate(&state), Ok(Value::Bool(true)));
    assert_eq!(binary(number(2), Operator::Equality, number(3)).evaluate(&state), Ok(Value::Bool(false)));
    assert_eq!(
        binary(literal(text("a")), Operator::Equality, literal(text("a"))).evaluate(&state),
        Ok(Value::Bool(true))
    );
    for (a, b) in [(false, false), (false, true), (true, false), (true, true)] {
        assert_eq!(
            binary(boolean(a), Operator::And, boolean(b)).evaluate(&state),
            Ok(Value::Bool(a && b))
        );
        assert_eq!(
            binary(boolean(a), Operator::Or, boolean(b)).evaluate(&state),
            Ok(Value::Bool(a || b))
        );
        assert_eq!(Expression::Not(Box::new(boolean(a))).evaluate(&state), Ok(Value::Bool(!a)));
    }
    assert_eq!(Operator::Add.apply(Value::Int(1), Value::Int(2)), Ok(Value::Int(3)));
}

#[test]
fn operators_reject_values_of_the_wrong_kind() {
    let state = State::new();
    let number = |i: i32| literal(Value::Int(i));
    let boolean = |b: bool| literal(Value::Bool(b));
    assert_eq!(
        binary(literal(text("a")), Operator::Add, number(1)).evaluate(&state),
        Err(ErrorKind::UnexpectedType("int".to_string(), text("a")))
    );
    assert_eq!(
        binary(number(1), Operator::Add, boolean(true)).evaluate(&state),
        Err(ErrorKind::UnexpectedType("int".to_string(), Value::Bool(true)))
    );
    assert_eq!(
        binary(number(1), Operator::Equality, literal(text("1"))).evaluate(&state),
        Err(ErrorKind::UnexpectedType("int".to_string(), text("1")))
    );
    assert_eq!(
        binary(literal(text("1")), Operator::Equality, number(1)).evaluate(&state),
        Err(ErrorKind::UnexpectedType("string".to_string(), Value::Int(1)))
    );
    assert_eq!(
        binary(number(1), Operator::And, boolean(true)).evaluate(&state),
        Err(ErrorKind::UnexpectedType("bool".to_string(), Value::Int(1)))
    );
    assert_eq!(
        binary(boolean(false), Operator::Or, number(0)).evaluate(&state),
        Err(ErrorKind::UnexpectedType("bool".to_string(), Value::Int(0)))
    );
    assert_eq!(
        Expression::Not(Box::new(number(0))).evaluate(&state),
        Err(ErrorKind::UnexpectedType("bool".to_string(), Value::Int(0)))
    );
    assert_eq!(
        binary(variable("a"), Operator::Add, variable("b")).evaluate(&state),
        Err(ErrorKind::UnknownVariable("a".to_string()))
    );
    assert_eq!(
        binary(boolean(false), Operator::And, variable("b")).evaluate(&state),
        Err(ErrorKind::UnknownVariable("b".to_string()))
    );
    assert_eq!(
        number(1).try_bool(&state),
        Err(ErrorKind::UnexpectedType("bool".to_string(), Value::Int(1)))
    );
    assert_eq!(
        boolean(true).try_int(&state),
        Err(ErrorKind::UnexpectedType("int".to_string(), Value::Bool(true)))
    );
    assert_eq!(number(7).try_int(&state), Ok(7));
    assert_eq!(boolean(true).try_bool(&state), Ok(true));
}

#[test]
fn while_with_a_false_condition_runs_nothing() {
    let mut state = State::with_budget(5);
    run_source(&mut state, "while 1 == 2 :<\nshow me what you got 1\n>:").unwrap();
    assert_eq!(state.output(), "");
    assert_eq!(state.budget(), 5);
}

#[test]
fn while_ends_when_the_body_makes_the_condition_false() {
    let mut state = State::with_budget(10);
    let source = "x squanch 0\nwhile !x == 3 :<\n    show me what you got x\n    x squanch x + 1\n>:\nshow me what you got \"done\"";
    assert_eq!(run_source(&mut state, source), Ok(()));
    assert_eq!(state.output(), "0\n1\n2\ndone\n");
    assert_eq!(state.get("x"), Ok(Value::Int(3)));
    assert_eq!(state.budget(), 7);
}

#[test]
fn while_fails_when_the_budget_runs_out() {
    let mut state = State::with_budget(3);
    let looping = statement("while 1 == 1 :<\nshow me what you got 1\n>:").unwrap();
    let r = state.execute(&looping);
    assert_eq!(r, Err(Error::new(ErrorKind::BudgetExhausted, looping.clone())));
    assert_eq!(state.output(), "1\n1\n1\n");
    assert_eq!(state.budget(), 0);
}

#[test]
fn while_needs_a_boolean() {
    let mut state = State::new();
    let looping = statement("while 1 :<\nshow me what you got 1\n>:").unwrap();
    assert_eq!(
        state.execute(&looping),
        Err(Error::new(ErrorKind::UnexpectedType("bool".to_string(), Value::Int(1)), looping.clone()))
    );
    assert_eq!(state.output(), "");
}

#[test]
fn conditional_takes_the_right_branch() {
    let mut state = State::new();
    let source = "if 1 == 1 :<\nshow me what you got \"yes\"\n>: else :<\nshow me what you got \"no\"\n>:\nif 1 == 2 :<\nshow me what you got \"yes\"\n>: else :<\nshow me what you got \"no\"\n>:\nif 1 == 2 :<\nshow me what you got \"never\"\n>:";
    assert_eq!(run_source(&mut state, source), Ok(()));
    assert_eq!(state.output(), "yes\nno\n");
    let broken = statement("if \"x\" :<\n>:").unwrap();
    assert_eq!(
        state.execute(&broken),
        Err(Error::new(ErrorKind::UnexpectedType("bool".to_string(), text("x")), broken.clone()))
    );
}

#[test]
fn catch_runs_the_second_body_and_keeps_what_the_first_did() {
    let mut state = State::new();
    let source = "normal plan :<\nx squanch 1\nshow me what you got \"before\"\nshow me what you got nothing\nshow me what you got \"skipped\"\n>: plan for failure :<\nshow me what you got \"caught\"\ny squanch x + 1\n>:";
    assert_eq!(run_source(&mut state, source), Ok(()));
    assert_eq!(state.output(), "before\ncaught\n");
    assert_eq!(state.get("x"), Ok(Value::Int(1)));
    assert_eq!(state.get("y"), Ok(Value::Int(2)));
}

#[test]
fn catch_without_a_failure_skips_the_second_body() {
    let mut state = State::new();
    let source = "normal plan :<\nshow me what you got \"fine\"\n>: plan for failure :<\nshow me what you got \"caught\"\n>:";
    assert_eq!(run_source(&mut state, source), Ok(()));
    assert_eq!(state.output(), "fine\n");
}

#[test]
fn catch_fails_where_the_second_body_fails() {
    let mut state = State::new();
    let source = "normal plan :<\nsquanch a\n>: plan for failure :<\nsquanch b\n>:";
    assert_eq!(
        run_source(&mut state, source),
        Err(Error::new(
            ErrorKind::UnknownVariable("b".to_string()),
            Statement::Delete("b".to_string())
        ))
    );
}

#[test]
fn a_deleted_name_is_unknown_until_it_is_assigned_again() {
    let mut state = State::new();
    run_source(&mut state, "x on a cob\nx assimilate 1\nsquanch x").unwrap();
    let unknown = || ErrorKind::UnknownVariable("x".to_string());
    assert_eq!(state.get("x"), Err(unknown()));
    assert_eq!(variable("x").evaluate(&state), Err(unknown()));
    assert_eq!(index("x", 0).evaluate(&state), Err(unknown()));
    assert_eq!(expression("x squanch").unwrap().evaluate(&state), Err(unknown()));
    for source in ["squanch x", "x assimilate 1", "x[0] squanch 1", "squanch x[0]", "y squanch x"] {
        let s = statement(source).unwrap();
        assert_eq!(state.execute(&s), Err(Error::new(unknown(), s.clone())));
    }
    run_source(&mut state, "x squanch 5").unwrap();
    assert_eq!(state.get("x"), Ok(Value::Int(5)));
    assert_eq!(variable("never").evaluate(&state), Err(ErrorKind::UnknownVariable("never".to_string())));
}

#[test]
fn list_statements_need_a_list() {
    let mut state = State::new();
    run_source(&mut state, "s squanch \"abc\"").unwrap();
    for source in ["s assimilate 1", "s[0] squanch 1", "squanch s[0]"] {
        let st = statement(source).unwrap();
        assert_eq!(
            state.execute(&st),
            Err(Error::new(ErrorKind::IndexUnindexable(text("abc")), st.clone()))
        );
    }
    assert_eq!(state.get("s"), Ok(text("abc")));
}

#[test]
fn list_statements_check_the_bounds() {
    let items = vec![Value::Int(1), Value::Int(2)];
    let mut state = state_with_list("l", items.clone());
    for i in [2, 3, -1] {
        let assign = Statement::ListAssign("l".to_string(), literal(Value::Int(i)), literal(Value::Int(0)));
        assert_eq!(
            state.execute(&assign),
            Err(Error::new(ErrorKind::IndexOutOfBounds(Value::List(items.clone()), i), assign.clone()))
        );
        let delete = Statement::ListDelete("l".to_string(), literal(Value::Int(i)));
        assert_eq!(
            state.execute(&delete),
            Err(Error::new(ErrorKind::IndexOutOfBounds(Value::List(items.clone()), i), delete.clone()))
        );
    }
    assert_eq!(state.get("l"), Ok(Value::List(items)));
}

#[test]
fn list_statements_check_the_index_first() {
    let mut state = State::new();
    let assign = Statement::ListAssign("nothing".to_string(), literal(text("i")), variable("nor_this"));
    assert_eq!(
        state.execute(&assign),
        Err(Error::new(ErrorKind::UnexpectedType("int".to_string(), text("i")), assign.clone()))
    );
    let assign = Statement::ListAssign("nothing".to_string(), literal(Value::Int(0)), variable("nor_this"));
    assert_eq!(
        state.execute(&assign),
        Err(Error::new(ErrorKind::UnknownVariable("nor_this".to_string()), assign.clone()))
    );
    let delete = Statement::ListDelete("nothing".to_string(), literal(Value::Bool(true)));
    assert_eq!(
        state.execute(&delete),
        Err(Error::new(ErrorKind::UnexpectedType("int".to_string(), Value::Bool(true)), delete.clone()))
    );
}

#[test]
fn list_new_overwrites_a_binding() {
    let mut state = State::new();
    run_source(&mut state, "x squanch 5\nx on a cob").unwrap();
    assert_eq!(state.get("x"), Ok(Value::List(vec![])));
    run_source(&mut state, "x assimilate x\nx assimilate 2").unwrap();
    assert_eq!(state.get("x"), Ok(Value::List(vec![Value::List(vec![]), Value::Int(2)])));
}

#[test]
fn input_reads_a_line_and_trims_it() {
    let mut state = State::new();
    state.push_input("  hello world \r\n".to_string());
    state.push_input("\u{2003}second\u{a0}\t".to_string());
    state.push_input(" \n".to_string());
    assert_eq!(state.pending_input(), 3);
    let read = statement("portal gun x").unwrap();
    assert_eq!(state.execute(&read), Ok(()));
    assert_eq!(state.get("x"), Ok(text("hello world")));
    assert_eq!(state.pending_input(), 2);
    assert_eq!(state.execute(&read), Ok(()));
    assert_eq!(state.get("x"), Ok(text("second")));
    assert_eq!(state.execute(&read), Ok(()));
    assert_eq!(state.get("x"), Ok(text("")));
    assert_eq!(state.pending_input(), 0);
    assert_eq!(
        state.execute(&read),
        Err(Error::new(ErrorKind::IOError("no line of input is left".to_string()), read.clone()))
    );
    assert_eq!(state.get("x"), Ok(text("")));
    state.push_input("more".to_string());
    assert_eq!(state.execute(&read), Ok(()));
    assert_eq!(state.get("x"), Ok(text("more")));
}

#[test]
fn input_fails_with_the_reason_once_the_lines_are_read() {
    let mut state = State::new();
    state.push_input("one".to_string());
    state.fail_input("the stream broke".to_string());
    let read = statement("portal gun x").unwrap();
    assert_eq!(state.execute(&read), Ok(()));
    assert_eq!(state.get("x"), Ok(text("one")));
    for _ in 0..2 {
        assert_eq!(
            state.execute(&read),
            Err(Error::new(ErrorKind::IOError("the stream broke".to_string()), read.clone()))
        );
    }
    assert_eq!(state.get("x"), Ok(text("one")));
}

#[test]
fn run_stops_at_the_first_error() {
    let mut state = State::new();
    let r = run_source(
        &mut state,
        "show me what you got 1\nshow me what you got nothing\nshow me what you got 3",
    );
    assert_eq!(
        r,
        Err(Error::new(
            ErrorKind::UnknownVariable("nothing".to_string()),
            Statement::Print(variable("nothing"))
        ))
    );
    assert_eq!(state.output(), "1\n");
}

#[test]
fn an_error_in_a_body_names_the_inner_statement() {
    let mut state = State::new();
    let r = run_source(&mut state, "if 1 == 1 :<\nwhile 2 == 2 :<\nsquanch gone\n>:\n>:");
    assert_eq!(
        r,
        Err(Error::new(
            ErrorKind::UnknownVariable("gone".to_string()),
            Statement::Delete("gone".to_string())
        ))
    );
}

#[test]
fn nested_loops_share_the_budget() {
    let mut state = State::with_budget(100);
    let source = "i squanch 0\nwhile !i == 3 :<\nj squanch 0\nwhile !j == 2 :<\nshow me what you got i + j\nj squanch j + 1\n>:\ni squanch i + 1\n>:";
    assert_eq!(run_source(&mut state, source), Ok(()));
    assert_eq!(state.output(), "0\n1\n1\n2\n2\n3\n");
    assert_eq!(state.budget(), 100 - 3 - 6);
}

#[test]
fn clones_are_equal() {
    let s = statement("if x == 1 :<\nwhile !y :<\nl[0] squanch \"a\" + 2\n>:\n>: else :<\nnormal plan :<\nportal gun z\n>: plan for failure :<\nsquanch l[z squanch]\n>:\n>:").unwrap();
    assert_eq!(s.clone(), s);
    let e = expression("!a[b[1] + 2] == c squanch").unwrap();
    assert_eq!(e.clone(), e);
}
