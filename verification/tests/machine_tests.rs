use schwift::error::{Error, ErrorKind};
use schwift::grammar::program;
use schwift::machine::{Machine, Step};
use schwift::state::State;
use schwift::statement::Statement;
use schwift::value::Value;

const GREETER: &str = "count squanch 0
names on a cob
while !count == 2 :<
    show me what you got \"name?\"
    portal gun name
    names assimilate name
    count squanch count + 1
>:
normal plan :<
    show me what you got names[0]
    show me what you got names[5]
    show me what you got \"never\"
>: plan for failure :<
    show me what you got names squanch
>:
if names[1] == \"Morty\" :<
    show me what you got \"found\"
>: else :<
    show me what you got \"lost\"
>:";

fn run_to_the_end(machine: &mut Machine, lines: &[&str]) -> (Result<(), Error>, usize) {
    let mut waited = 0;
    loop {
        match machine.step() {
            Step::Running => {}
            Step::Waiting => {
                if waited == lines.len() {
                    machine.fail_input("closed".to_string());
                } else {
                    machine.push_input(lines[waited].to_string());
                }
                waited += 1;
            }
            Step::Done(r) => return (r, waited),
        }
    }
}

#[test]
fn machine_waits_for_each_line_and_arrives_at_the_outcome_of_a_run() {
    let statements = program(GREETER).unwrap();
    let mut machine = Machine::new(State::with_budget(10), &statements);
    let (r, waited) = run_to_the_end(&mut machine, &["Rick\n", "  Morty \n"]);
    assert_eq!(r, Ok(()));
    assert_eq!(waited, 2);
    assert!(machine.is_done());
    assert_eq!(machine.state().output(), "name?\nname?\nRick\n2\nfound\n");
    assert_eq!(machine.state().budget(), 8);

    let mut state = State::with_budget(10);
    state.push_input("Rick\n".to_string());
    state.push_input("  Morty \n".to_string());
    assert_eq!(state.run(&statements), Ok(()));
    assert_eq!(state.output(), machine.state().output());
    assert_eq!(state.budget(), machine.state().budget());
    assert_eq!(state.get("names"), machine.state().get("names"));
    assert_eq!(
        machine.into_state().get("names"),
        Ok(Value::List(vec![Value::Str("Rick".to_string()), Value::Str("Morty".to_string())]))
    );
}

#[test]
fn machine_writes_before_it_waits() {
    let statements = program(GREETER).unwrap();
    let mut machine = Machine::new(State::new(), &statements);
    let mut steps = 0;
    while machine.step() != Step::Waiting {
        steps += 1;
    }
    assert_eq!(steps, 5);
    assert_eq!(machine.take_output(), "name?\n");
    assert_eq!(machine.step(), Step::Waiting);
    assert_eq!(machine.step(), Step::Waiting);
    assert_eq!(machine.take_output(), "");
    assert!(!machine.is_done());
    machine.push_input("x".to_string());
    assert_eq!(machine.step(), Step::Running);
    assert_eq!(machine.state().get("name"), Ok(Value::Str("x".to_string())));
}

#[test]
fn machine_ends_with_the_error_of_a_failed_read() {
    let statements = program(GREETER).unwrap();
    let mut machine = Machine::new(State::new(), &statements);
    let (r, waited) = run_to_the_end(&mut machine, &["Rick"]);
    assert_eq!(
        r,
        Err(Error::new(ErrorKind::IOError("closed".to_string()), Statement::Input("name".to_string())))
    );
    assert_eq!(waited, 2);
    assert!(machine.is_done());
    assert_eq!(machine.step(), Step::Done(Ok(())));
    assert_eq!(machine.state().output(), "name?\nname?\n");
}

#[test]
fn machine_fails_when_the_budget_runs_out() {
    let statements = program("while 1 == 1 :<\nshow me what you got 1\n>:").unwrap();
    let mut machine = Machine::new(State::with_budget(2), &statements);
    let (r, _) = run_to_the_end(&mut machine, &[]);
    assert_eq!(r, Err(Error::new(ErrorKind::BudgetExhausted, statements[0].clone())));
    assert_eq!(machine.state().output(), "1\n1\n");
    assert_eq!(machine.state().budget(), 0);
}

#[test]
fn machine_catches_an_error_from_a_nested_body() {
    let source = "normal plan :<\nif 1 == 1 :<\nwhile 1 == 1 :<\nx squanch 1\nsquanch y\n>:\n>:\n>: plan for failure :<\nshow me what you got x\n>:\nshow me what you got \"after\"";
    let statements = program(source).unwrap();
    let mut machine = Machine::new(State::with_budget(3), &statements);
    let (r, waited) = run_to_the_end(&mut machine, &[]);
    assert_eq!(r, Ok(()));
    assert_eq!(waited, 0);
    assert_eq!(machine.state().output(), "1\nafter\n");
    assert_eq!(machine.state().budget(), 2);
}

#[test]
fn machine_with_no_program_is_done() {
    let statements = Vec::new();
    let mut machine = Machine::new(State::new(), &statements);
    assert!(!machine.is_done());
    assert_eq!(machine.step(), Step::Running);
    assert!(machine.is_done());
    assert_eq!(machine.step(), Step::Done(Ok(())));
}
