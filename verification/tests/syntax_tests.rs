use schwift::expression::Expression;
use schwift::grammar::{
    block, expression, integer, list_instantiation, statement, string, while_loop,
};
use schwift::statement::Statement;
use schwift::value::Value;

#[test]
fn syntax_tests_test_raw_int() {
    let l = integer("3").unwrap();
    assert_eq!(l, 3)
}

#[test]
fn syntax_tests_test_raw_string() {
    let l = string("\"hello!\"").unwrap();
    assert_eq!(l, Value::Str("hello!".to_string()))
}

#[test]
fn syntax_tests_test_expression_string() {
    let l = expression("\"hello!\"").unwrap();
    assert_eq!(l, Expression::Value(Value::Str("hello!".to_string())));
}

#[test]
fn syntax_tests_test_list_instantiation() {
    let l = list_instantiation("foobar on a cob").unwrap();
    assert_eq!(l, Statement::ListNew("foobar".to_string()));
}

#[test]
fn syntax_tests_test_list_instantiation_statement() {
    let l = statement("foobar on a cob").unwrap();
    assert_eq!(l, Statement::ListNew("foobar".to_string()));
}

#[test]
fn syntax_tests_test_list_append_statement() {
    let l = statement("foobar assimilate 10").unwrap();
    assert_eq!(l, Statement::ListAppend("foobar".to_string(), Expression::Value(Value::Int(10))));

}

#[test]
fn syntax_tests_test_list_assign() {
    let l = statement("foobar[30] squanch 10").unwrap();
    assert_eq!(l, Statement::ListAssign("foobar".to_string(), Expression::Value(Value::Int(30)),  Expression::Value(Value::Int(10))));
}

#[test]
fn syntax_tests_test_printing() {
    let l = statement("show me what you got \"Hello\"").unwrap();
    assert_eq!(l, Statement::Print(Expression::Value(Value::Str("Hello".to_string()))));
}

#[test]
fn syntax_tests_test_list_length() {
    let l = expression("apple squanch").unwrap();
    assert_eq!(l, Expression::ListLength("apple".to_string()));
}

#[test]
fn syntax_tests_test_not() {
    let l = expression("!foo").unwrap();
    assert_eq!(l, Expression::Not(Box::new(Expression::Variable("foo".to_string()))));
}

#[test]
fn syntax_tests_test_while() {
    let l = while_loop(r#"while x :<
    show me what you got 30
    >:"#).unwrap();
    assert_eq!(
        l,
        Statement::While(
            Expression::Variable("x".to_string()),
            vec![
                Statement::Print(Expression::Value(Value::Int(30))),
            ],
        )
    );
}

#[test]
fn syntax_tests_test_block() {
    let l = block(r#":<
show me what you got 10




portal gun x


    >:"#).unwrap();
    assert_eq!(
        l,
        vec![
            Statement::Print(Expression::Value(Value::Int(10))),
            Statement::Input("x".to_string()),
        ]
    );
}

#[test]
fn syntax_tests_test_input() {
    let l = statement(r"portal gun x").unwrap();
    assert_eq!(
        l,
        Statement::Input("x".to_string())
    );
}
