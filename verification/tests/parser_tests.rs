use schwift::error::ParseError;
use schwift::expression::{Expression, Operator};
use schwift::grammar::{
    block, expression, integer, list_instantiation, program, statement, string, while_loop,
};
use schwift::scanner::Source;
use schwift::statement::Statement;
use schwift::value::Value;

fn number(i: i32) -> Expression {
    Expression::Value(Value::Int(i))
}

fn variable(name: &str) -> Expression {
    Expression::Variable(name.to_string())
}

fn binary(left: Expression, op: Operator, right: Expression) -> Expression {
    Expression::OperatorExpression(Box::new(left), op, Box::new(right))
}

fn failure(position: usize) -> ParseError {
    ParseError { position }
}

#[test]
fn integer_literals() {
    assert_eq!(integer("0"), Ok(0));
    assert_eq!(integer("007"), Ok(7));
    assert_eq!(integer("2147483647"), Ok(2147483647));
    assert_eq!(integer("2147483648"), Err(failure(0)));
    assert_eq!(integer("99999999999999999999999999"), Err(failure(0)));
    assert_eq!(integer(""), Err(failure(0)));
    assert_eq!(integer("-1"), Err(failure(0)));
    assert_eq!(integer("12a"), Err(failure(2)));
    assert_eq!(integer("12 "), Err(failure(2)));
}

#[test]
fn string_literals() {
    assert_eq!(string("\"\""), Ok(Value::Str(String::new())));
    assert_eq!(string("\"a\\n b\""), Ok(Value::Str("a\\n b".to_string())));
    assert_eq!(string("\"h\u{e9}\n\""), Ok(Value::Str("h\u{e9}\n".to_string())));
    assert_eq!(string("\"open"), Err(failure(0)));
    assert_eq!(string("\"a\"b"), Err(failure(3)));
    assert_eq!(string("a"), Err(failure(0)));
}

#[test]
fn operands() {
    assert_eq!(expression("x"), Ok(variable("x")));
    assert_eq!(expression("_x9"), Ok(variable("_x9")));
    assert_eq!(expression("42"), Ok(number(42)));
    assert_eq!(
        expression("x[y[0]]"),
        Ok(Expression::ListIndex(
            "x".to_string(),
            Box::new(Expression::ListIndex("y".to_string(), Box::new(number(0))))
        ))
    );
    assert_eq!(expression("9x"), Err(failure(1)));
    assert_eq!(expression("x[1"), Err(failure(1)));
    assert_eq!(expression(""), Err(failure(0)));
    assert_eq!(expression(" x"), Err(failure(0)));
}

#[test]
fn operators_nest_to_the_right() {
    assert_eq!(
        expression("a + b + c"),
        Ok(binary(
            variable("a"),
            Operator::Add,
            binary(variable("b"), Operator::Add, variable("c"))
        ))
    );
    assert_eq!(
        expression("a == 1 and b squanch == 2 or c"),
        Ok(binary(
            variable("a"),
            Operator::Equality,
            binary(
                number(1),
                Operator::And,
                binary(
                    Expression::ListLength("b".to_string()),
                    Operator::Equality,
                    binary(number(2), Operator::Or, variable("c"))
                )
            )
        ))
    );
    assert_eq!(expression("a +b"), Err(failure(1)));
    assert_eq!(expression("a  + b"), Err(failure(1)));
    assert_eq!(expression("a + "), Err(failure(1)));
}

#[test]
fn negation_takes_all_that_follows() {
    assert_eq!(
        expression("!!x"),
        Ok(Expression::Not(Box::new(Expression::Not(Box::new(variable("x"))))))
    );
    assert_eq!(
        expression("!x and y"),
        Ok(Expression::Not(Box::new(binary(variable("x"), Operator::And, variable("y")))))
    );
    assert_eq!(
        expression("x and !y"),
        Ok(binary(variable("x"), Operator::And, Expression::Not(Box::new(variable("y")))))
    );
    assert_eq!(expression("!"), Err(failure(0)));
}

#[test]
fn each_simple_statement() {
    assert_eq!(statement("x squanch 1 + 2"), Ok(Statement::Assignment(
        "x".to_string(),
        binary(number(1), Operator::Add, number(2))
    )));
    assert_eq!(statement("squanch x"), Ok(Statement::Delete("x".to_string())));
    assert_eq!(statement("squanch x[1]"), Ok(Statement::ListDelete("x".to_string(), number(1))));
    assert_eq!(statement("x on a cob"), Ok(Statement::ListNew("x".to_string())));
    assert_eq!(statement("x assimilate y"), Ok(Statement::ListAppend("x".to_string(), variable("y"))));
    assert_eq!(
        statement("x[y] squanch z squanch"),
        Ok(Statement::ListAssign(
            "x".to_string(),
            variable("y"),
            Expression::ListLength("z".to_string())
        ))
    );
    assert_eq!(statement("portal gun x"), Ok(Statement::Input("x".to_string())));
    assert_eq!(statement("show me what you got x"), Ok(Statement::Print(variable("x"))));
    assert_eq!(list_instantiation("x on a cob"), Ok(Statement::ListNew("x".to_string())));
    assert_eq!(list_instantiation("x on a cob "), Err(failure(10)));
    assert_eq!(list_instantiation("x squanch 1"), Err(failure(0)));
}

#[test]
fn statements_that_do_not_parse() {
    assert_eq!(statement(""), Err(failure(0)));
    assert_eq!(statement("x"), Err(failure(0)));
    assert_eq!(statement("show me what you got"), Err(failure(0)));
    assert_eq!(statement("x squanch 1 2"), Err(failure(11)));
    assert_eq!(statement("portal gun x y"), Err(failure(12)));
    assert_eq!(statement("x squanch 1\n"), Err(failure(11)));
}

#[test]
fn conditionals_and_catch_statements() {
    assert_eq!(
        statement("if x :<\nsquanch y\n>:"),
        Ok(Statement::If(variable("x"), vec![Statement::Delete("y".to_string())], None))
    );
    assert_eq!(
        statement("if x :<\nsquanch y\n>: else :< >:"),
        Ok(Statement::If(variable("x"), vec![Statement::Delete("y".to_string())], Some(vec![])))
    );
    assert_eq!(
        statement("if x :<\n>: else"),
        Err(failure(10))
    );
    assert_eq!(
        statement("normal plan :<\nsquanch y\n>: plan for failure :<\nportal gun y\n>:"),
        Ok(Statement::Catch(
            vec![Statement::Delete("y".to_string())],
            vec![Statement::Input("y".to_string())]
        ))
    );
    assert_eq!(statement("normal plan :<\nsquanch y\n>:"), Err(failure(0)));
}

#[test]
fn blocks() {
    assert_eq!(block(":<>:"), Ok(vec![]));
    assert_eq!(block(":< \n\t >:"), Ok(vec![]));
    assert_eq!(block(":< squanch x >:"), Ok(vec![Statement::Delete("x".to_string())]));
    assert_eq!(
        block(":<\nsquanch x\r\n  squanch y  \n>:"),
        Ok(vec![Statement::Delete("x".to_string()), Statement::Delete("y".to_string())])
    );
    assert_eq!(block(":<\nsquanch x squanch y\n>:"), Err(failure(0)));
    assert_eq!(block(":<\nsquanch x"), Err(failure(0)));
    assert_eq!(block(":<\n>:\n"), Err(failure(5)));
    assert_eq!(
        while_loop("while x :<\nwhile y :<\nsquanch z\n>:\n>:"),
        Ok(Statement::While(
            variable("x"),
            vec![Statement::While(variable("y"), vec![Statement::Delete("z".to_string())])]
        ))
    );
    assert_eq!(while_loop("while x:<\n>:"), Err(failure(0)));
    assert_eq!(while_loop("squanch x"), Err(failure(0)));
}

#[test]
fn programs() {
    assert_eq!(program(""), Ok(vec![]));
    assert_eq!(program("\n \n"), Ok(vec![]));
    assert_eq!(
        program("\n\nx squanch 1\n\n  show me what you got x\n"),
        Ok(vec![
            Statement::Assignment("x".to_string(), number(1)),
            Statement::Print(variable("x")),
        ])
    );
    assert_eq!(program("x squanch 1 show me what you got x"), Err(failure(12)));
    assert_eq!(program("x squanch 1\n?"), Err(failure(12)));
    assert_eq!(program("?"), Err(failure(0)));
}

#[test]
fn rules_leave_the_rest_of_the_text() {
    let source = Source::new("x + 1 :< squanch y >: rest");
    assert_eq!(source.len(), 26);
    assert_eq!(
        source.expression_at(0),
        Some((binary(variable("x"), Operator::Add, number(1)), 5))
    );
    assert_eq!(source.expression_at(4), Some((number(1), 1)));
    assert_eq!(source.expression_at(5), None);
    assert_eq!(source.operand_at(0), Some((variable("x"), 1)));
    assert_eq!(source.operator_at(1), Some((Operator::Add, 3)));
    assert_eq!(source.block_at(6), Some((vec![Statement::Delete("y".to_string())], 15)));
    assert_eq!(source.statement_at(9), Some((Statement::Delete("y".to_string()), 9)));
    assert_eq!(source.lines_at(9), (vec![Statement::Delete("y".to_string())], 10));
    assert_eq!(source.name_at(22), Some(4));
    assert_eq!(source.text(22, 4), "rest");
    assert_eq!(source.statement_at(26), None);
    assert_eq!(source.lines_at(26), (vec![], 0));
    assert_eq!(source.program_at(26), Some((vec![], 0)));
}
