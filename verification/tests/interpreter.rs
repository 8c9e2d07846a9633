use tiny_script::ast::ASTNode;
use tiny_script::display::{render, Glyph};
use tiny_script::environment::Environment;
use tiny_script::error::{Error, Kind};
use tiny_script::interpreter::Interpreter;
use tiny_script::lexer::Lexer;
use tiny_script::machine::{Action, Event, MAX_DEPTH};
use tiny_script::parser::Parser;
use tiny_script::reals::{Number, Operator, Relation, Request};
use tiny_script::values::RuntimeValue;

fn float(bits: u64) -> f64 {
    f64::from_bits(bits)
}

fn number(operand: Number) -> f64 {
    match operand {
        Number::Integer(value) => value as f64,
        Number::Real(bits) => float(bits),
    }
}

fn serve(request: Request) -> Event {
    match request {
        Request::Parse(text) => match text.parse::<f64>() {
            Ok(value) => Event::Real(value.to_bits()),
            Err(_) => Event::Invalid,
        },
        Request::Arithmetic(operator, left, right) => {
            let (a, b) = (number(left), number(right));
            let value = match operator {
                Operator::Add => a + b,
                Operator::Subtract => a - b,
                Operator::Multiply => a * b,
                Operator::Divide => a / b,
                Operator::Remainder => a % b,
            };
            Event::Real(value.to_bits())
        }
        Request::Compare(relation, left, right) => {
            let (a, b) = (number(left), number(right));
            Event::Boolean(match relation {
                Relation::Less => a < b,
                Relation::LessEqual => a <= b,
                Relation::Greater => a > b,
                Relation::GreaterEqual => a >= b,
                Relation::Equal => a == b,
                Relation::NotEqual => a != b,
            })
        }
        Request::Negate(bits) => Event::Real((-float(bits)).to_bits()),
        Request::Truncate(bits) => Event::Integer(float(bits) as i64),
        Request::Render(bits) => Event::Text(float(bits).to_string()),
        Request::Widen(value) => Event::Real((value as f64).to_bits()),
    }
}

fn written(glyphs: &[Glyph]) -> String {
    let mut text = String::new();
    for glyph in glyphs {
        match glyph {
            Glyph::Character(character) => text.push(*character),
            Glyph::Real(bits) => text.push_str(&float(*bits).to_string()),
        }
    }
    text
}

fn show(value: &RuntimeValue) -> String {
    let mut glyphs = Vec::new();
    render(value, &mut glyphs);
    written(&glyphs)
}

struct Run {
    result: Result<RuntimeValue, Error>,
    output: String,
    depth: usize,
}

fn run_tree(program: ASTNode, lines: &[&str]) -> Run {
    run_in(Environment::new(None), program, lines)
}

fn run_in(environment: Environment, program: ASTNode, lines: &[&str]) -> Run {
    let mut environment = environment;
    let mut interpreter = Interpreter::new(program);
    let mut output = String::new();
    let mut lines = lines.iter();
    let mut event = Event::Resume;
    loop {
        match interpreter.interpret(&mut environment, event) {
            Action::Continue => event = Event::Resume,
            Action::Print(glyphs) => {
                output.push_str(&written(&glyphs));
                event = Event::Resume;
            }
            Action::Input(glyphs) => {
                output.push_str(&written(&glyphs));
                event = Event::Line(lines.next().unwrap_or(&"").to_string());
            }
            Action::Real(request) => event = serve(request),
            Action::Finished(value) => {
                return Run { result: Ok(value), output, depth: environment.depth() };
            }
            Action::Failed(error) => {
                return Run { result: Err(error), output, depth: environment.depth() };
            }
        }
    }
}

fn run_with(source: &str, lines: &[&str]) -> Run {
    let tokens = Lexer::new(source.to_string()).tokenize().unwrap();
    let program = Parser::new(tokens).generate_ast().unwrap();
    run_tree(program, lines)
}

fn run(source: &str) -> Run {
    run_with(source, &[])
}

fn value(source: &str) -> String {
    let outcome = run(source);
    assert_eq!(outcome.depth, 1, "{source}");
    show(&outcome.result.unwrap())
}

fn failure(source: &str) -> Error {
    let outcome = run(source);
    assert_eq!(outcome.depth, 1, "{source}");
    outcome.result.unwrap_err()
}

fn output(source: &str) -> String {
    let outcome = run(source);
    outcome.result.unwrap();
    outcome.output
}

#[test]
fn an_empty_program_comes_to_null() {
    assert!(matches!(run("").result, Ok(RuntimeValue::Null)));
    assert!(matches!(run_tree(ASTNode::NullLiteral, &[]).result, Ok(RuntimeValue::Null)));
}

#[test]
fn a_program_comes_to_its_last_statement() {
    assert_eq!(value("1 2 3"), "3");
    assert_eq!(value("let x = 4;"), "null");
    assert_eq!(value("let x = 4; x"), "4");
}

#[test]
fn evaluates_literals() {
    assert!(matches!(run("42").result, Ok(RuntimeValue::Integer(42))));
    assert!(matches!(run("\"hi\"").result, Ok(RuntimeValue::String(text)) if text == "hi"));
    assert!(matches!(run("()").result, Ok(RuntimeValue::Null)));
    assert!(matches!(run("2.5").result, Ok(RuntimeValue::Real(bits)) if float(bits) == 2.5));
    assert!(matches!(run("1.").result, Ok(RuntimeValue::Real(bits)) if float(bits) == 1.0));
    assert_eq!(value("[1, \"a\", [2.5, ()]]"), "[1, a, [2.5, null]]");
    assert_eq!(value("[]"), "[]");
}

#[test]
fn finds_the_global_constants() {
    assert!(matches!(run("true").result, Ok(RuntimeValue::Boolean(true))));
    assert!(matches!(run("false").result, Ok(RuntimeValue::Boolean(false))));
    assert!(matches!(run("null").result, Ok(RuntimeValue::Null)));
    assert_eq!(value("print"), "<built-in function>");
    assert_eq!(value("{ { true } }".replace('{', "if true {").as_str()), "true");
}

#[test]
fn integer_arithmetic() {
    assert_eq!(value("2 + 3"), "5");
    assert_eq!(value("2 - 3"), "-1");
    assert_eq!(value("4 * 5"), "20");
    assert_eq!(value("7 % 3"), "1");
    assert_eq!(value("-7 % 3"), "-1");
    assert_eq!(value("7 % -3"), "1");
    assert_eq!(value("1 + 2 * 3 - 4"), "3");
    assert_eq!(value("9223372036854775806 + 1"), "9223372036854775807");
}

#[test]
fn integer_division_is_a_division_of_reals() {
    assert!(matches!(run("6 / 3").result, Ok(RuntimeValue::Real(bits)) if float(bits) == 2.0));
    assert!(matches!(run("7 / 2").result, Ok(RuntimeValue::Real(bits)) if float(bits) == 3.5));
    assert!(matches!(run("-1 / 4").result, Ok(RuntimeValue::Real(bits)) if float(bits) == -0.25));
    assert!(
        matches!(run("1 / 0").result, Ok(RuntimeValue::Real(bits)) if float(bits) == f64::INFINITY)
    );
    assert_eq!(value("6 / 3"), "2");
    assert_eq!(value("1 / 3"), (1.0f64 / 3.0).to_string());
}

#[test]
fn integer_arithmetic_that_does_not_fit_fails() {
    assert_eq!(failure("9223372036854775807 + 1"), Error::Arithmetic);
    assert_eq!(failure("0 - 9223372036854775807 - 2"), Error::Arithmetic);
    assert_eq!(failure("4611686018427387904 * 2"), Error::Arithmetic);
    assert_eq!(failure("1 % 0"), Error::Arithmetic);
    assert_eq!(failure("let m = 0 - 9223372036854775807 - 1; -m"), Error::Arithmetic);
    assert_eq!(value("let m = 0 - 9223372036854775807 - 1; m % -1"), "0");
    assert_eq!(value("0 - 9223372036854775807 - 1"), "-9223372036854775808");
}

#[test]
fn real_arithmetic_widens_integers() {
    assert_eq!(value("1.5 + 2.5"), "4");
    assert_eq!(value("1 + 2.5"), "3.5");
    assert_eq!(value("2.5 - 1"), "1.5");
    assert_eq!(value("2 * 2.5"), "5");
    assert_eq!(value("5.0 / 2"), "2.5");
    assert_eq!(value("0.1 + 0.2"), (0.1f64 + 0.2).to_string());
    assert_eq!(value("5.5 % 2"), "null");
    assert_eq!(value("5.5 % 2.0"), "null");
}

#[test]
fn strings_concatenate_and_repeat() {
    assert_eq!(value("\"ab\" + \"cd\""), "abcd");
    assert_eq!(value("\"ab\" * 3"), "ababab");
    assert_eq!(value("\"ab\" * 0"), "");
    assert_eq!(value("\"\" * 5"), "");
    assert_eq!(value("(\"ab\" * 3).length()"), "6");
    assert_eq!(value("(\"é\" * 4).length()"), "8");
    assert_eq!(failure("\"ab\" * -1"), Error::Arithmetic);
    assert_eq!(value("\"ab\" - \"b\""), "null");
    assert_eq!(value("\"ab\" + 1"), "null");
    assert_eq!(value("3 * \"ab\""), "null");
}

#[test]
fn an_array_takes_a_new_last_item() {
    assert_eq!(value("[1, 2] + 3"), "[1, 2, 3]");
    assert_eq!(value("[] + []"), "[[]]");
    assert_eq!(value("[1] + \"a\" + 2.5"), "[1, a, 2.5]");
    assert_eq!(value("([1, 2] + 3).length()"), "3");
    assert_eq!(value("([1, 2] + 9)[2]"), "9");
    assert_eq!(value("[1] - 1"), "null");
    assert_eq!(value("1 + [1]"), "null");
}

#[test]
fn tuples_combine_pair_by_pair() {
    assert_eq!(value("(tup(1, 2)) + (tup(10, 20))"), "(11, 22)");
    assert_eq!(value("(tup(1, 2, 3)) * (tup(2, 2))"), "(2, 4)");
    assert_eq!(value("(tup()) + (tup(1))"), "()");
    assert_eq!(value("(tup(1, \"a\")) + (tup(1.5, \"b\"))"), "(2.5, ab)");
    assert_eq!(value("(tup(tup(1, 2), 3)) - (tup(tup(1, 1), 1))"), "((0, 1), 2)");
    assert_eq!(value("(tup(1, \"a\")) - (tup(1, \"b\"))"), "(0, null)");
    assert_eq!(value("(tup(6)) / (tup(3))"), "(2)");
    assert_eq!(failure("(tup(1, 1)) % (tup(1, 0))"), Error::Arithmetic);
    assert_eq!(value("(tup(1)) + 1"), "null");
}

#[test]
fn unmatched_operands_come_to_null_not_to_a_failure() {
    assert_eq!(value("true + 1"), "null");
    assert_eq!(value("null * null"), "null");
    assert_eq!(value("print - 1"), "null");
}

#[test]
fn numbers_compare_by_value() {
    assert_eq!(value("1 < 2"), "true");
    assert_eq!(value("2 < 1"), "false");
    assert_eq!(value("2 <= 2"), "true");
    assert_eq!(value("3 > 2"), "true");
    assert_eq!(value("2 >= 3"), "false");
    assert_eq!(value("2 == 2"), "true");
    assert_eq!(value("2 != 2"), "false");
    assert_eq!(value("1 < 1.5"), "true");
    assert_eq!(value("1.5 < 1"), "false");
    assert_eq!(value("2 == 2.0"), "true");
    assert_eq!(value("2.0 != 2"), "false");
    assert_eq!(value("1.5 <= 1.5"), "true");
    assert_eq!(value("2.5 > 1.5"), "true");
    assert_eq!(value("1.5 == 1.5"), "true");
    assert_eq!(value("1.5 != 1.5"), "false");
    assert_eq!(value("0.0 == -0.0"), "true");
    assert_eq!(value("(0.0 / 0.0) == (0.0 / 0.0)"), "false");
    assert_eq!(value("(0.0 / 0.0) != (0.0 / 0.0)"), "true");
}

#[test]
fn a_call_takes_all_that_stands_before_it_as_its_callee() {
    assert_eq!(value("func f() { 5 } 1 + f()"), "null");
    assert_eq!(value("func f() { 5 } 1 + (f())"), "6");
    assert_eq!(value("func f() { 5 } f() + 1"), "1");
}

#[test]
fn relations_chain_to_the_left() {
    assert_eq!(value("1 < 2 < 3"), "false");
    assert_eq!(value("1 < 2 == true"), "true");
}

#[test]
fn strings_compare_by_length_and_are_equal_by_content() {
    assert_eq!(value("\"ab\" < \"abc\""), "true");
    assert_eq!(value("\"ab\" == \"abc\""), "false");
    assert_eq!(value("\"zz\" < \"aaa\""), "true");
    assert_eq!(value("\"ab\" <= \"cd\""), "true");
    assert_eq!(value("\"ab\" >= \"cd\""), "true");
    assert_eq!(value("\"ab\" > \"cd\""), "false");
    assert_eq!(value("\"ab\" == \"ab\""), "true");
    assert_eq!(value("\"ab\" != \"cd\""), "true");
    assert_eq!(value("\"ab\" != \"ab\""), "false");
}

#[test]
fn a_string_or_an_array_compares_its_length_with_an_integer() {
    assert_eq!(value("\"abc\" == 3"), "true");
    assert_eq!(value("\"abc\" < 4"), "true");
    assert_eq!(value("\"abc\" > 3"), "false");
    assert_eq!(value("\"abc\" != 3"), "false");
    assert_eq!(value("\"abc\" > -1"), "true");
    assert_eq!(value("\"abc\" < -1"), "false");
    assert_eq!(value("[1, 2] == 2"), "true");
    assert_eq!(value("[1, 2] >= 3"), "false");
    assert_eq!(value("[1, 2] <= 2"), "true");
    assert_eq!(value("[] > -5"), "true");
    assert_eq!(value("3 == \"abc\""), "false");
}

#[test]
fn arrays_compare_by_length_and_are_equal_by_content() {
    assert_eq!(value("[1, 2] < [1, 2, 3]"), "true");
    assert_eq!(value("[9, 9] < [1, 1]"), "false");
    assert_eq!(value("[9, 9] <= [1, 1]"), "true");
    assert_eq!(value("[1, 2] == [1, 2]"), "true");
    assert_eq!(value("[1, 2] == [1, 3]"), "false");
    assert_eq!(value("[1, 2] != [1, 3]"), "true");
    assert_eq!(value("[1, [2, \"a\"]] == [1, [2, \"a\"]]"), "true");
    assert_eq!(value("[1.5] == [1.5]"), "true");
    assert_eq!(value("[0.0] == [-0.0]"), "true");
    assert_eq!(value("[0.0 / 0.0] == [0.0 / 0.0]"), "false");
    assert_eq!(value("[1] == [1.0]"), "false");
    assert_eq!(value("[tup(1, 2)] == [tup(1, 2)]"), "true");
    assert_eq!(value("[print] == [print]"), "true");
    assert_eq!(value("[print] == [input]"), "false");
    assert_eq!(value("[\"a\".length] == [\"a\".length]"), "true");
    assert_eq!(value("[\"a\".length] == [\"b\".length]"), "false");
}

#[test]
fn functions_are_equal_by_structure() {
    let source = "func f(a: 0) { a } func g(a: 0) { a } func h(a: 1) { a } func k(a) { a }";
    assert_eq!(value(&format!("{source} [f] == [f]")), "true");
    assert_eq!(value(&format!("{source} [f] == [g]")), "true");
    assert_eq!(value(&format!("{source} [f] == [h]")), "false");
    assert_eq!(value(&format!("{source} [f] == [k]")), "false");
}

#[test]
fn booleans_know_equality_only() {
    assert_eq!(value("true == true"), "true");
    assert_eq!(value("true != false"), "true");
    assert_eq!(value("true == false"), "false");
    assert_eq!(value("false < true"), "false");
    assert_eq!(value("true >= true"), "false");
}

#[test]
fn unmatched_comparisons_are_false() {
    assert_eq!(value("null == null"), "false");
    assert_eq!(value("1 == \"1\""), "false");
    assert_eq!(value("(tup(1)) == (tup(1))"), "false");
    assert_eq!(value("true == 1"), "false");
    assert_eq!(value("\"a\" < [1, 2]"), "false");
}

#[test]
fn unary_signs() {
    assert_eq!(value("-5"), "-5");
    assert_eq!(value("!5"), "-5");
    assert_eq!(value("-true"), "false");
    assert_eq!(value("!false"), "true");
    assert_eq!(value("-2.5"), "-2.5");
    assert_eq!(value("+5"), "5");
    assert_eq!(value("+\"a\""), "a");
    assert_eq!(
        failure("-\"a\""),
        Error::TypeMismatch { expected: Kind::Integer, found: Kind::String }
    );
    assert_eq!(
        failure("![1]"),
        Error::TypeMismatch { expected: Kind::Integer, found: Kind::Array }
    );
    assert_eq!(
        failure("-null"),
        Error::TypeMismatch { expected: Kind::Integer, found: Kind::Null }
    );
}

#[test]
fn variables_are_declared_read_and_assigned() {
    assert_eq!(value("let x = 1; x = x + 1; x"), "2");
    assert_eq!(value("let x; x"), "null");
    assert_eq!(value("let x = 1; let x = \"again\"; x"), "again");
    assert_eq!(value("let x = 1; x = 2;"), "null");
    assert_eq!(failure("x"), Error::UndefinedName);
    assert_eq!(failure("x = 1;"), Error::UndefinedName);
    assert_eq!(failure("let x = y;"), Error::UndefinedName);
}

#[test]
fn a_constant_cannot_be_assigned() {
    assert_eq!(failure("let PI = 3.14159; PI = 0;"), Error::UndefinedName);
    assert_eq!(value("let PI = 3.14159; PI"), "3.14159");
    assert_eq!(value("let Pi = 3; Pi = 0; Pi"), "0");
    assert_eq!(value("let X1 = 3; X1 = 0; X1"), "0");
    assert_eq!(value("let MAX = 1; let MAX = 2; MAX"), "2");
    assert_eq!(failure("let MAX = 1; if true { MAX = 2; }"), Error::UndefinedName);
    assert_eq!(failure("true = false;"), Error::UndefinedName);
}

#[test]
fn a_block_has_a_scope_of_its_own() {
    assert_eq!(value("let x = 1; if true { let x = 2; x }"), "2");
    assert_eq!(value("let x = 1; if true { let x = 2; } x"), "1");
    assert_eq!(failure("if true { let y = 2; } y"), Error::UndefinedName);
}

#[test]
fn an_assignment_reaches_the_scope_that_owns_the_variable() {
    assert_eq!(value("let x = 1; if true { x = 2; } x"), "2");
    assert_eq!(value("let x = 1; if true { if true { x = x + 5; } } x"), "6");
    assert_eq!(value("let x = 1; func set() { x = 7; } set() x"), "7");
    assert_eq!(value("let x = 1; if true { let x = 2; x = 3; } x"), "1");
}

#[test]
fn if_statements() {
    assert_eq!(value("if 1 < 2 { \"yes\" } else { \"no\" }"), "yes");
    assert_eq!(value("if 1 > 2 { \"yes\" } else { \"no\" }"), "no");
    assert_eq!(value("if 1 > 2 { \"yes\" }"), "null");
    assert_eq!(value("if true { }"), "null");
    assert_eq!(value("if 1.5 < 2 { 1 } else { 2 }"), "1");
}

#[test]
fn a_condition_that_is_no_boolean_runs_neither_branch() {
    assert_eq!(output("if 1 { print(\"a\") } else { print(\"b\") }"), "");
    assert_eq!(value("if 1 { 1 } else { 2 }"), "null");
    assert_eq!(value("if \"true\" { 1 } else { 2 }"), "null");
    assert_eq!(value("if null { 1 } else { 2 }"), "null");
}

#[test]
fn case_falls_back_to_the_wildcard_arm() {
    let arms = "case x of { 1: { \"one\" }; null: { \"other\" }; };";
    assert_eq!(value(&format!("let x = 5; {arms}")), "other");
    assert_eq!(value(&format!("let x = 1; {arms}")), "one");
}

#[test]
fn case_takes_the_first_arm_that_matches_and_no_other() {
    let source = "let x = 1; case x of { 1: { print(\"one\") }; null: { print(\"other\") }; };";
    assert_eq!(output(source), "one\n");
    let source = "let x = 2; case x of { null: { \"any\" }; 2: { \"two\" }; };";
    assert_eq!(value(source), "any");
    let source = "let x = 2; case x of { 2: { \"first\" }; 2: { \"second\" }; };";
    assert_eq!(value(source), "first");
}

#[test]
fn case_evaluates_the_scrutinee_once_and_the_labels_in_order() {
    let source = "func s() { print(\"s\") 2 } func l(v: 0) { print(v) v }
        case s() of { l(1): { \"a\" }; l(2): { \"b\" }; l(3): { \"c\" }; };";
    let outcome = run(source);
    assert_eq!(show(&outcome.result.unwrap()), "b");
    assert_eq!(outcome.output, "s\n1\n2\n");
}

#[test]
fn case_without_a_match_comes_to_null() {
    assert_eq!(value("case 30 of { 1: { \"one\" }; 2: { \"two\" }; };"), "null");
    assert_eq!(value("case 30 of { };"), "null");
}

#[test]
fn case_compares_whole_values() {
    assert_eq!(value("case [1, 2] of { [1, 2]: { \"same\" }; };"), "same");
    assert_eq!(value("case \"b\" of { \"a\": { 1 }; \"b\": { 2 }; };"), "2");
    assert_eq!(value("case 10 of { 10.0: { \"real\" }; 10: { \"integer\" }; };"), "integer");
    assert_eq!(value("case 0.5 of { 0.5: { \"real\" }; };"), "real");
    assert_eq!(value("case true of { false: { 1 }; true: { 2 }; };"), "2");
}

#[test]
fn a_stray_arm_comes_to_null() {
    let arm = ASTNode::Case(Box::new(ASTNode::IntegerLiteral(1)), Box::new(ASTNode::block(vec![])));
    let outcome = run_tree(ASTNode::Program(vec![arm]), &[]);
    assert!(matches!(outcome.result, Ok(RuntimeValue::Null)));
    let statement = ASTNode::case(
        ASTNode::IntegerLiteral(1),
        vec![
            ASTNode::IntegerLiteral(1),
            ASTNode::Case(
                Box::new(ASTNode::IntegerLiteral(1)),
                Box::new(ASTNode::block(vec![ASTNode::IntegerLiteral(7)])),
            ),
        ],
    );
    let outcome = run_tree(ASTNode::Program(vec![statement]), &[]);
    assert!(matches!(outcome.result, Ok(RuntimeValue::Integer(7))));
}

#[test]
fn indexing_a_string() {
    assert_eq!(value("let s = \"hi\"; s[0]"), "h");
    assert_eq!(value("let s = \"hi\"; s[1]"), "i");
    assert_eq!(value("let s = \"hi\"; s[5]"), " ");
    assert_eq!(value("let s = \"hi\"; s[2]"), " ");
    assert_eq!(value("let s = \"hi\"; s[-1]"), " ");
    assert_eq!(value("\"\"[0]"), " ");
    assert_eq!(value("\"héllo\"[1]"), "é");
    assert_eq!(value("\"héllo\"[2]"), "l");
    assert_eq!(value("\"abc\"[1 + 1]"), "c");
}

#[test]
fn indexing_an_array() {
    assert_eq!(value("let a = [1, 2]; a[0]"), "1");
    assert_eq!(value("let a = [1, 2]; a[1]"), "2");
    assert_eq!(value("let a = [1, 2]; a[5]"), "null");
    assert_eq!(value("let a = [1, 2]; a[2]"), "null");
    assert_eq!(value("let a = [1, 2]; a[-1]"), "null");
    assert_eq!(value("[[1, 2], [3, 4]][1][0]"), "3");
    assert_eq!(value("[1, 2][0.5]"), "null");
    assert_eq!(value("5[0]"), "null");
}

#[test]
fn native_methods() {
    assert_eq!(value("\"hello\".length()"), "5");
    assert_eq!(value("\"héllo\".length()"), "6");
    assert_eq!(value("\"\".length()"), "0");
    assert_eq!(value("\"\"[\"is_empty\"]()"), "true");
    assert_eq!(value("\"a\"[\"is_empty\"]()"), "false");
    assert_eq!(value("[1, 2, 3].length()"), "3");
    assert_eq!(value("[][\"is_empty\"]()"), "true");
    assert_eq!(value("[1][\"is_empty\"]()"), "false");
    assert_eq!(value("\"a\".length"), "<method>");
    assert_eq!(value("let l = \"abc\".length; l()"), "3");
    assert_eq!(value("\"abc\"[\"length\"]()"), "3");
}

#[test]
fn splitting_a_string() {
    assert_eq!(value("\"a,b,c,\".split(\",\")"), "[a, b, c]");
    assert_eq!(value("\"a,b,c\".split(\",\")"), "[a, b]");
    assert_eq!(value("\",a,,b,\".split(\",\")"), "[, a, , b]");
    assert_eq!(value("\"abc\".split(\",\")"), "[]");
    assert_eq!(value("\"\".split(\",\")"), "[]");
    assert_eq!(value("\"\".split(\"\")"), "[]");
    assert_eq!(value("\"a-b+c-\".split(\"-+\")"), "[a, b+c]");
    assert_eq!(value("(\"a,b,\".split(\",\")).length()"), "2");
    assert_eq!(failure("\"a\".split(\"\")"), Error::EmptySeparator);
    assert_eq!(failure("\"a\".split()"), Error::Arity { declared: 1, given: 0 });
    assert_eq!(failure("\"a\".split(\",\", \",\")"), Error::Arity { declared: 1, given: 2 });
    assert_eq!(
        failure("\"a\".split(1)"),
        Error::TypeMismatch { expected: Kind::String, found: Kind::Integer }
    );
}

#[test]
fn a_missing_property_is_a_failure() {
    assert_eq!(failure("\"a\".size"), Error::PropertyNotFound);
    assert_eq!(failure("[1].split"), Error::PropertyNotFound);
    assert_eq!(failure("[1][\"first\"]"), Error::PropertyNotFound);
    assert_eq!(value("(5).length"), "null");
    assert_eq!(value("\"a\".(1)"), "null");
}

#[test]
fn conversions_to_integer() {
    assert_eq!(value("5 as integer"), "5");
    assert_eq!(value("5.9 as integer"), "5");
    assert_eq!(value("-5.9 to integer"), "-5");
    assert_eq!(value("true as integer"), "1");
    assert_eq!(value("false as integer"), "0");
    assert_eq!(value("\"42\" as integer"), "42");
    assert_eq!(value("\"-42\" as integer"), "-42");
    assert_eq!(value("\"+42\" as integer"), "42");
    assert_eq!(value("\"007\" as integer"), "7");
    assert_eq!(value("\"-9223372036854775808\" as integer"), "-9223372036854775808");
    assert_eq!(value("[1] as integer"), "null");
    assert_eq!(value("null as integer"), "null");
    assert_eq!(
        failure("\"abc\" as integer"),
        Error::TypeMismatch { expected: Kind::Integer, found: Kind::String }
    );
    assert_eq!(
        failure("\"\" as integer"),
        Error::TypeMismatch { expected: Kind::Integer, found: Kind::String }
    );
    assert_eq!(
        failure("\"-\" as integer"),
        Error::TypeMismatch { expected: Kind::Integer, found: Kind::String }
    );
    assert_eq!(
        failure("\" 1\" as integer"),
        Error::TypeMismatch { expected: Kind::Integer, found: Kind::String }
    );
    assert_eq!(
        failure("\"1.5\" as integer"),
        Error::TypeMismatch { expected: Kind::Integer, found: Kind::String }
    );
    assert_eq!(
        failure("\"9223372036854775808\" as integer"),
        Error::TypeMismatch { expected: Kind::Integer, found: Kind::String }
    );
}

#[test]
fn conversions_to_real() {
    assert!(matches!(run("5 as real").result, Ok(RuntimeValue::Real(bits)) if float(bits) == 5.0));
    assert!(matches!(run("2.5 as real").result, Ok(RuntimeValue::Real(bits)) if float(bits) == 2.5));
    assert!(
        matches!(run("\"2.5\" to real").result, Ok(RuntimeValue::Real(bits)) if float(bits) == 2.5)
    );
    assert_eq!(value("true as real"), "null");
    assert_eq!(
        failure("\"two\" as real"),
        Error::TypeMismatch { expected: Kind::Real, found: Kind::String }
    );
}

#[test]
fn conversions_to_boolean() {
    assert_eq!(value("0 as boolean"), "false");
    assert_eq!(value("7 as boolean"), "true");
    assert_eq!(value("0.0 as boolean"), "false");
    assert_eq!(value("-0.0 as boolean"), "false");
    assert_eq!(value("0.5 as boolean"), "true");
    assert_eq!(value("(0.0 / 0.0) as boolean"), "true");
    assert_eq!(value("true as boolean"), "true");
    assert_eq!(value("\"\" as boolean"), "false");
    assert_eq!(value("\"false\" as boolean"), "true");
    assert_eq!(value("[] as boolean"), "false");
    assert_eq!(value("[0] as boolean"), "true");
    assert_eq!(value("(tup()) as boolean"), "false");
    assert_eq!(value("(tup(0)) as boolean"), "true");
    assert_eq!(value("null as boolean"), "null");
    assert_eq!(value("print as boolean"), "null");
}

#[test]
fn conversions_to_string() {
    assert!(matches!(run("5 as string").result, Ok(RuntimeValue::String(text)) if text == "5"));
    assert_eq!(value("-12 as string"), "-12");
    assert_eq!(value("(0 - 9223372036854775807 - 1) as string"), "-9223372036854775808");
    assert_eq!(value("2.5 as string"), "2.5");
    assert_eq!(value("true as string"), "true");
    assert_eq!(value("false as string"), "false");
    assert_eq!(value("\"a\" as string"), "a");
    assert_eq!(value("[1] as string"), "null");
    assert_eq!(value("(5 as string).length()"), "1");
    assert_eq!(value("(5 as string) + (6 as string)"), "56");
}

#[test]
fn conversions_to_anything_else_come_to_null() {
    assert_eq!(value("5 as array"), "null");
    assert_eq!(value("5 as Integer"), "null");
    assert_eq!(value("5 as 5"), "null");
    assert_eq!(output("(print(1)) as 5"), "1\n");
}

#[test]
fn functions_are_declared_and_called() {
    assert_eq!(value("func add(a: 0, b: 0) { a + b } add(2, 3)"), "5");
    assert_eq!(value("func add(a: 0, b: 0) { a + b }"), "<function>");
    assert_eq!(value("func f() { } f()"), "null");
    assert_eq!(value("func f(a) { a } f(\"any\")"), "any");
    assert_eq!(value("func f(a) { a } f([1])"), "[1]");
    assert_eq!(value("func twice(x: 0) { x * 2 } twice(twice(3))"), "12");
    assert_eq!(value("func f(a: 0, b) { b } f(1, 2.5)"), "2.5");
    assert_eq!(value("func f(a: 7) { a } f(1)"), "1");
    assert_eq!(value("func f(a: [], b: \"\", c: 0.5, d: true, e: ()) { a.length() } f([1], \"\", 1.5, false, null)"), "1");
}

#[test]
fn an_argument_of_the_wrong_kind_is_a_failure() {
    assert_eq!(
        failure("func add(a: 0, b: 0) { a + b } add(\"x\", 3)"),
        Error::TypeMismatch { expected: Kind::Integer, found: Kind::String }
    );
    assert_eq!(
        failure("func add(a: 0, b: 0) { a + b } add(1, 2.5)"),
        Error::TypeMismatch { expected: Kind::Integer, found: Kind::Real }
    );
    assert_eq!(
        failure("func f(a: \"\") { a } f(null)"),
        Error::TypeMismatch { expected: Kind::String, found: Kind::Null }
    );
}

#[test]
fn a_wrong_number_of_arguments_is_a_failure() {
    assert_eq!(
        failure("func add(a: 0, b: 0) { a + b } add(1)"),
        Error::Arity { declared: 2, given: 1 }
    );
    assert_eq!(
        failure("func add(a: 0, b: 0) { a + b } add(1, 2, 3)"),
        Error::Arity { declared: 2, given: 3 }
    );
    assert_eq!(failure("func f() { } f(1)"), Error::Arity { declared: 0, given: 1 });
}

#[test]
fn declared_types_are_evaluated_at_the_declaration() {
    let source = "func shape() { print(\"shape\") 0 } func f(a: shape()) { a } print(\"declared\") f(1) f(2)";
    assert_eq!(output(source), "shape\ndeclared\n");
    assert_eq!(failure("func f(a: nothing) { a }"), Error::UndefinedName);
}

#[test]
fn a_declared_return_type_is_held_against_the_result() {
    let declaration = |shown: ASTNode, body: ASTNode| {
        ASTNode::Program(vec![
            ASTNode::function(
                ASTNode::Identifier("f".to_string()),
                vec![],
                vec![],
                Some(Box::new(shown)),
                ASTNode::block(vec![body]),
            ),
            ASTNode::call(ASTNode::Identifier("f".to_string()), vec![]),
        ])
    };
    let outcome = run_tree(declaration(ASTNode::IntegerLiteral(0), ASTNode::IntegerLiteral(5)), &[]);
    assert!(matches!(outcome.result, Ok(RuntimeValue::Integer(5))));
    let outcome = run_tree(
        declaration(ASTNode::IntegerLiteral(0), ASTNode::StringLiteral("five".to_string())),
        &[],
    );
    assert_eq!(
        outcome.result.unwrap_err(),
        Error::TypeMismatch { expected: Kind::Integer, found: Kind::String }
    );
    assert_eq!(outcome.depth, 1);
}

#[test]
fn a_function_reads_free_names_in_the_scopes_of_the_caller() {
    let source = "func show() { x } func caller() { let x = \"inner\"; show() } let x = \"outer\"; caller()";
    assert_eq!(value(source), "inner");
    assert_eq!(failure("func show() { y } func caller() { show() } caller()"), Error::UndefinedName);
    assert_eq!(value("func show() { y } func caller() { let y = 3; show() } caller()"), "3");
}

#[test]
fn functions_recurse() {
    let source = "func fact(n: 0) { if n < 2 { 1 } else { n * (fact(n - 1)) } } fact(10)";
    assert_eq!(value(source), "3628800");
    let source = "func fib(n: 0) { if n < 2 { n } else { (fib(n - 1)) + (fib(n - 2)) } } fib(15)";
    assert_eq!(value(source), "610");
}

#[test]
fn endless_recursion_is_a_failure() {
    assert_eq!(failure("func f() { f() } f()"), Error::DepthExceeded);
    assert_eq!(failure("func f(n: 0) { f(n + 1) } f(0)"), Error::DepthExceeded);
    assert_eq!(failure("func f(n: 0) { 1 + (f(n + 1)) } f(0)"), Error::DepthExceeded);
    assert!(MAX_DEPTH >= 1000);
}

#[test]
fn calling_what_is_no_function_comes_to_null() {
    assert_eq!(value("5(1)"), "null");
    assert_eq!(value("let x = \"a\"; x()"), "null");
    assert_eq!(value("null()"), "null");
}

#[test]
fn print_writes_its_arguments_and_a_line_feed() {
    assert_eq!(output("print(\"hello\")"), "hello\n");
    assert_eq!(output("print()"), "\n");
    assert_eq!(output("print(1, \" and \", 2.5, true, null, [1, \"a\"])"), "1 and 2.5truenull[1, a]\n");
    assert_eq!(output("print(1) print(2)"), "1\n2\n");
    assert_eq!(value("print(1)"), "null");
    assert_eq!(output("print(tup(1, 2), tup())"), "(1, 2)()\n");
    assert_eq!(output("print(1 / 3)"), format!("{}\n", 1.0f64 / 3.0));
    assert_eq!(output("print(-7, 0, 1234567890)"), "-701234567890\n");
}

#[test]
fn arguments_are_evaluated_from_left_to_right() {
    let source = "func a() { print(\"a\") 1 } func b() { print(\"b\") 2 } (a()) + (b())";
    let outcome = run(source);
    assert_eq!(outcome.output, "a\nb\n");
    assert_eq!(show(&outcome.result.unwrap()), "3");
    let source = "func a() { print(\"a\") 1 } func b() { print(\"b\") 2 } [b(), a(), b()]";
    assert_eq!(output(source), "b\na\nb\n");
    let source = "func a() { print(\"a\") 1 } func b(x, y) { print(\"b\") } b(a(), a())";
    assert_eq!(output(source), "a\na\nb\n");
}

#[test]
fn input_reads_a_line_without_its_line_break() {
    let outcome = run_with("input(\"name? \")", &["Ada\n"]);
    assert_eq!(outcome.output, "name? \n");
    assert!(matches!(outcome.result, Ok(RuntimeValue::String(text)) if text == "Ada"));
    let outcome = run_with("(input()) + (input())", &["a\r\n", " b \n"]);
    assert_eq!(outcome.output, "\n\n");
    assert_eq!(show(&outcome.result.unwrap()), "a b ");
    let outcome = run_with("(input()).length()", &[""]);
    assert_eq!(show(&outcome.result.unwrap()), "0");
}

#[test]
fn a_failure_closes_the_scopes_it_leaves() {
    let outcome = run("if true { if true { let x = 1; y } }");
    assert_eq!(outcome.result.unwrap_err(), Error::UndefinedName);
    assert_eq!(outcome.depth, 1);
    let outcome = run("func f(a: 0) { a } if true { f(\"x\") }");
    assert!(outcome.result.is_err());
    assert_eq!(outcome.depth, 1);
}

#[test]
fn a_failure_ends_the_program_at_once() {
    let outcome = run("print(1) x print(2)");
    assert_eq!(outcome.output, "1\n");
    assert_eq!(outcome.result.unwrap_err(), Error::UndefinedName);
}

#[test]
fn a_target_that_is_no_name_is_a_failure() {
    let declaration = ASTNode::VariableDeclaration(
        Box::new(ASTNode::IntegerLiteral(1)),
        Box::new(ASTNode::IntegerLiteral(2)),
    );
    assert_eq!(run_tree(ASTNode::Program(vec![declaration]), &[]).result.unwrap_err(), Error::InvalidTarget);
    let assignment = ASTNode::AssignmentExpression(
        Box::new(ASTNode::IntegerLiteral(1)),
        Box::new(ASTNode::IntegerLiteral(2)),
    );
    assert_eq!(run_tree(ASTNode::Program(vec![assignment]), &[]).result.unwrap_err(), Error::InvalidTarget);
    assert_eq!(failure("let (f()) = 1;"), Error::InvalidTarget);
    let function = ASTNode::function(
        ASTNode::Identifier("f".to_string()),
        vec![ASTNode::IntegerLiteral(1)],
        vec![None],
        None,
        ASTNode::block(vec![]),
    );
    let call = ASTNode::call(ASTNode::Identifier("f".to_string()), vec![ASTNode::IntegerLiteral(1)]);
    let outcome = run_tree(ASTNode::Program(vec![function, call]), &[]);
    assert_eq!(outcome.result.unwrap_err(), Error::InvalidTarget);
    assert_eq!(outcome.depth, 1);
}

#[test]
fn a_finished_machine_stays_finished() {
    let mut environment = Environment::new(None);
    let mut interpreter = Interpreter::new(ASTNode::Program(vec![ASTNode::IntegerLiteral(3)]));
    let mut steps = 0;
    loop {
        steps += 1;
        assert!(steps < 100);
        match interpreter.interpret(&mut environment, Event::Resume) {
            Action::Continue => {}
            Action::Finished(RuntimeValue::Integer(3)) => break,
            other => panic!("{other:?}"),
        }
    }
    assert!(matches!(
        interpreter.interpret(&mut environment, Event::Resume),
        Action::Finished(RuntimeValue::Integer(3))
    ));
    assert!(matches!(
        interpreter.interpret(&mut environment, Event::Integer(9)),
        Action::Finished(RuntimeValue::Integer(3))
    ));
}

#[test]
fn an_answer_of_the_wrong_kind_is_a_failure() {
    let program = ASTNode::Program(vec![ASTNode::RealLiteral("1.5".to_string())]);
    let mut environment = Environment::new(None);
    let mut interpreter = Interpreter::new(program);
    loop {
        match interpreter.interpret(&mut environment, Event::Resume) {
            Action::Continue => {}
            Action::Real(Request::Parse(text)) => {
                assert_eq!(text, "1.5");
                break;
            }
            other => panic!("{other:?}"),
        }
    }
    assert!(matches!(
        interpreter.interpret(&mut environment, Event::Text("1.5".to_string())),
        Action::Failed(Error::UnexpectedEvent)
    ));
    assert!(matches!(
        interpreter.interpret(&mut environment, Event::Real(0)),
        Action::Failed(Error::UnexpectedEvent)
    ));
}

#[test]
fn a_real_literal_that_the_host_cannot_read_is_a_failure() {
    let program = ASTNode::Program(vec![ASTNode::RealLiteral("1.2.3".to_string())]);
    assert_eq!(
        run_tree(program, &[]).result.unwrap_err(),
        Error::TypeMismatch { expected: Kind::Real, found: Kind::String }
    );
}

#[test]
fn division_asks_the_host_with_both_integers() {
    let mut environment = Environment::new(None);
    let tokens = Lexer::new("6 / 3".to_string()).tokenize().unwrap();
    let mut interpreter = Interpreter::new(Parser::new(tokens).generate_ast().unwrap());
    loop {
        match interpreter.interpret(&mut environment, Event::Resume) {
            Action::Continue => {}
            Action::Real(Request::Arithmetic(operator, left, right)) => {
                assert_eq!(operator, Operator::Divide);
                assert_eq!(left, Number::Integer(6));
                assert_eq!(right, Number::Integer(3));
                break;
            }
            other => panic!("{other:?}"),
        }
    }
    let bits = 2.0f64.to_bits();
    assert!(matches!(interpreter.interpret(&mut environment, Event::Real(bits)), Action::Continue));
}

#[test]
fn a_run_takes_steps_until_the_host_is_needed() {
    let tokens = Lexer::new("let x = 2; print(x * 21) x + 1".to_string()).tokenize().unwrap();
    let mut interpreter = Interpreter::new(Parser::new(tokens).generate_ast().unwrap());
    let mut environment = Environment::new(None);
    match interpreter.run(&mut environment, Event::Resume, 1000) {
        Action::Print(glyphs) => assert_eq!(written(&glyphs), "42\n"),
        other => panic!("{other:?}"),
    }
    assert!(matches!(
        interpreter.run(&mut environment, Event::Resume, 1000),
        Action::Finished(RuntimeValue::Integer(3))
    ));
    assert!(matches!(
        interpreter.run(&mut environment, Event::Resume, 1000),
        Action::Finished(RuntimeValue::Integer(3))
    ));
}

#[test]
fn a_run_stops_when_its_budget_is_used_up() {
    let tokens = Lexer::new("1 + 2 + 3 + 4".to_string()).tokenize().unwrap();
    let program = Parser::new(tokens).generate_ast().unwrap();
    let mut stepwise = Interpreter::new(program.clone());
    let mut environment = Environment::new(None);
    let mut steps = 0;
    while let Action::Continue = stepwise.interpret(&mut environment, Event::Resume) {
        steps += 1;
    }
    assert!(steps > 3);
    let mut interpreter = Interpreter::new(program.clone());
    let mut environment = Environment::new(None);
    assert!(matches!(interpreter.run(&mut environment, Event::Resume, 0), Action::Continue));
    assert!(matches!(interpreter.run(&mut environment, Event::Resume, steps - 2), Action::Continue));
    assert!(matches!(
        interpreter.run(&mut environment, Event::Resume, 0),
        Action::Finished(RuntimeValue::Integer(10))
    ));
    let mut interpreter = Interpreter::new(program);
    let mut environment = Environment::new(None);
    assert!(matches!(
        interpreter.run(&mut environment, Event::Resume, steps),
        Action::Finished(RuntimeValue::Integer(10))
    ));
}

fn with_person(source: &str) -> Run {
    let mut environment = Environment::new(None);
    let person = RuntimeValue::object(vec![
        ("name".to_string(), RuntimeValue::string("Ada".to_string())),
        ("age".to_string(), RuntimeValue::Integer(36)),
    ]);
    environment.declare_variable("person".to_string(), person);
    environment.declare_variable("nobody".to_string(), RuntimeValue::object(vec![]));
    let tokens = Lexer::new(source.to_string()).tokenize().unwrap();
    run_in(environment, Parser::new(tokens).generate_ast().unwrap(), &[])
}

#[test]
fn a_program_reads_the_objects_of_its_host() {
    let shown = |source: &str| show(&with_person(source).result.unwrap());
    assert_eq!(shown("person.name"), "Ada");
    assert_eq!(shown("person.age + 1"), "37");
    assert_eq!(shown("person[\"age\"]"), "36");
    assert_eq!(shown("person.length()"), "2");
    assert_eq!(shown("nobody.length()"), "0");
    assert_eq!(shown("person[\"is_empty\"]()"), "false");
    assert_eq!(shown("nobody[\"is_empty\"]()"), "true");
    assert_eq!(shown("person as boolean"), "true");
    assert_eq!(shown("nobody as boolean"), "false");
    assert_eq!(shown("person"), "{name: Ada, age: 36}");
    assert_eq!(shown("person[0]"), "null");
    assert_eq!(shown("person == person"), "false");
    assert_eq!(shown("[person] == [person]"), "true");
    assert_eq!(shown("[person] == [nobody]"), "false");
    assert_eq!(shown("case person of { nobody: { 1 }; person: { 2 }; };"), "2");
    assert_eq!(with_person("person.height").result.unwrap_err(), Error::PropertyNotFound);
    assert_eq!(with_person("person.split").result.unwrap_err(), Error::PropertyNotFound);
    assert_eq!(with_person("print(person.name, person)").output, "Ada{name: Ada, age: 36}\n");
}

#[test]
fn the_environment_keeps_what_the_program_declared() {
    let mut environment = Environment::new(None);
    let tokens = Lexer::new("let x = 2; let LIMIT = 3; if true { let y = 4; }".to_string())
        .tokenize()
        .unwrap();
    let mut interpreter = Interpreter::new(Parser::new(tokens).generate_ast().unwrap());
    assert!(matches!(
        interpreter.run(&mut environment, Event::Resume, 10000),
        Action::Finished(RuntimeValue::Null)
    ));
    assert_eq!(environment.depth(), 1);
    assert!(matches!(environment.lookup("x"), Ok(RuntimeValue::Integer(2))));
    assert!(matches!(environment.lookup("LIMIT"), Ok(RuntimeValue::Integer(3))));
    assert_eq!(environment.lookup("y").unwrap_err(), Error::UndefinedName);
    assert_eq!(environment.assign("LIMIT".to_string(), RuntimeValue::Null), Err(Error::UndefinedName));
}
