use tiny_script::ast::ASTNode;
use tiny_script::built_in_functions::{input, print, tup};
use tiny_script::display::{render, Glyph};
use tiny_script::environment::{names_constant, Environment};
use tiny_script::equality::{equals, same_tree};
use tiny_script::error::{Error, Kind};
use tiny_script::methods::{
    array_is_empty, array_length, call_method, object_is_empty, object_length, string_is_empty,
    string_length, string_split,
};
use tiny_script::number::{integer_text, parse_integer};
use tiny_script::operations::{
    evaluate_binary_expression, evaluate_conditional_expression, evaluate_conversion_expression,
    evaluate_member_expression, evaluate_unary_expression, find_method, read_operator,
    read_relation, repeat, Reply,
};
use tiny_script::reals::{equal_reals, Answer, Number, Operator, Relation, Request};
use tiny_script::text::{characters, same_text, single, string_from};
use tiny_script::values::{BuiltIn, Method, RuntimeValue};

fn text(value: &str) -> RuntimeValue {
    RuntimeValue::string(value.to_string())
}

fn integers(values: &[i64]) -> Vec<RuntimeValue> {
    values.iter().map(|value| RuntimeValue::Integer(*value)).collect()
}

fn show(value: &RuntimeValue) -> String {
    let mut glyphs = Vec::new();
    render(value, &mut glyphs);
    glyphs
        .iter()
        .map(|glyph| match glyph {
            Glyph::Character(character) => character.to_string(),
            Glyph::Real(bits) => format!("<{bits}>"),
        })
        .collect()
}

fn shown(reply: Reply) -> String {
    match reply {
        Reply::Value(value) => show(&value),
        other => panic!("no value: {other:?}"),
    }
}

fn person() -> RuntimeValue {
    RuntimeValue::object(vec![
        ("name".to_string(), text("Ada")),
        ("age".to_string(), RuntimeValue::Integer(36)),
    ])
}

#[test]
fn text_helpers() {
    assert_eq!(characters("héy"), vec!['h', 'é', 'y']);
    assert_eq!(characters(""), Vec::<char>::new());
    assert_eq!(string_from(&vec!['a', 'b', 'c', 'd'], 1, 3), "bc");
    assert_eq!(string_from(&vec!['a', 'b'], 1, 1), "");
    assert_eq!(string_from(&vec!['a', 'b'], 0, 2), "ab");
    assert!(same_text("abc", "abc"));
    assert!(!same_text("abc", "abd"));
    assert!(!same_text("abc", "ab"));
    assert!(same_text("", ""));
    assert_eq!(single("a"), Some('a'));
    assert_eq!(single("é"), Some('é'));
    assert_eq!(single(""), None);
    assert_eq!(single("ab"), None);
}

#[test]
fn reading_integers() {
    assert_eq!(parse_integer("0"), Some(0));
    assert_eq!(parse_integer("42"), Some(42));
    assert_eq!(parse_integer("-42"), Some(-42));
    assert_eq!(parse_integer("+42"), Some(42));
    assert_eq!(parse_integer("0042"), Some(42));
    assert_eq!(parse_integer("9223372036854775807"), Some(i64::MAX));
    assert_eq!(parse_integer("-9223372036854775808"), Some(i64::MIN));
    assert_eq!(parse_integer("9223372036854775808"), None);
    assert_eq!(parse_integer("+9223372036854775808"), None);
    assert_eq!(parse_integer("-9223372036854775809"), None);
    assert_eq!(parse_integer("99999999999999999999999"), None);
    assert_eq!(parse_integer(""), None);
    assert_eq!(parse_integer("-"), None);
    assert_eq!(parse_integer("+"), None);
    assert_eq!(parse_integer("--1"), None);
    assert_eq!(parse_integer("1a"), None);
    assert_eq!(parse_integer("1 "), None);
    assert_eq!(parse_integer("1.0"), None);
    for sample in ["0", "7", "-7", "12345", "-9223372036854775808", "+5", "x", "", "18446744073709551616"] {
        assert_eq!(parse_integer(sample), sample.parse::<i64>().ok(), "{sample}");
    }
}

#[test]
fn writing_integers() {
    assert_eq!(integer_text(0), "0");
    assert_eq!(integer_text(7), "7");
    assert_eq!(integer_text(-7), "-7");
    assert_eq!(integer_text(10), "10");
    assert_eq!(integer_text(1234567890), "1234567890");
    assert_eq!(integer_text(i64::MAX), "9223372036854775807");
    assert_eq!(integer_text(i64::MIN), "-9223372036854775808");
    for sample in [1i64, -1, 99, 100, -100, 1 << 40, -(1 << 50)] {
        assert_eq!(integer_text(sample), sample.to_string());
    }
}

#[test]
fn reading_operators() {
    assert_eq!(read_operator("+"), Some(Operator::Add));
    assert_eq!(read_operator("-"), Some(Operator::Subtract));
    assert_eq!(read_operator("*"), Some(Operator::Multiply));
    assert_eq!(read_operator("/"), Some(Operator::Divide));
    assert_eq!(read_operator("%"), Some(Operator::Remainder));
    assert_eq!(read_operator("^"), None);
    assert_eq!(read_operator("++"), None);
    assert_eq!(read_operator(""), None);
    assert_eq!(read_relation("<"), Some(Relation::Less));
    assert_eq!(read_relation("<="), Some(Relation::LessEqual));
    assert_eq!(read_relation(">"), Some(Relation::Greater));
    assert_eq!(read_relation(">="), Some(Relation::GreaterEqual));
    assert_eq!(read_relation("=="), Some(Relation::Equal));
    assert_eq!(read_relation("!="), Some(Relation::NotEqual));
    assert_eq!(read_relation("="), None);
    assert_eq!(read_relation("!"), None);
    assert_eq!(read_relation("=>"), None);
    assert_eq!(read_relation("<=="), None);
    assert_eq!(read_relation(""), None);
}

#[test]
fn equality_of_reals_goes_by_the_number() {
    let bits = |value: f64| value.to_bits();
    assert!(equal_reals(bits(1.5), bits(1.5)));
    assert!(!equal_reals(bits(1.5), bits(2.5)));
    assert!(equal_reals(bits(0.0), bits(-0.0)));
    assert!(equal_reals(bits(-0.0), bits(0.0)));
    assert!(!equal_reals(bits(f64::NAN), bits(f64::NAN)));
    assert!(!equal_reals(bits(f64::NAN), bits(1.0)));
    assert!(!equal_reals(bits(1.0), bits(-f64::NAN)));
    assert!(equal_reals(bits(f64::INFINITY), bits(f64::INFINITY)));
    assert!(!equal_reals(bits(f64::INFINITY), bits(f64::NEG_INFINITY)));
    assert!(!equal_reals(bits(1.0), bits(-1.0)));
    assert!(!equal_reals(bits(f64::MIN_POSITIVE), bits(0.0)));
    let samples = [0.0, -0.0, 1.0, -1.0, 0.1, f64::NAN, f64::INFINITY, f64::NEG_INFINITY, f64::MAX, 5e-324];
    for a in samples {
        for b in samples {
            assert_eq!(equal_reals(bits(a), bits(b)), a == b, "{a} {b}");
        }
    }
}

#[test]
fn each_request_knows_its_answer() {
    assert_eq!(Request::Parse("1".to_string()).answer(), Answer::ParsedReal);
    assert_eq!(
        Request::Arithmetic(Operator::Add, Number::Integer(1), Number::Real(0)).answer(),
        Answer::Real
    );
    assert_eq!(
        Request::Compare(Relation::Less, Number::Integer(1), Number::Real(0)).answer(),
        Answer::Boolean
    );
    assert_eq!(Request::Negate(0).answer(), Answer::Real);
    assert_eq!(Request::Truncate(0).answer(), Answer::Integer);
    assert_eq!(Request::Render(0).answer(), Answer::Text);
    assert_eq!(Request::Widen(0).answer(), Answer::Real);
}

#[test]
fn values_know_their_kind() {
    assert_eq!(RuntimeValue::Null.kind(), Kind::Null);
    assert_eq!(RuntimeValue::Integer(1).kind(), Kind::Integer);
    assert_eq!(RuntimeValue::Real(0).kind(), Kind::Real);
    assert_eq!(RuntimeValue::Boolean(true).kind(), Kind::Boolean);
    assert_eq!(RuntimeValue::tuple(vec![]).kind(), Kind::Tuple);
    assert_eq!(text("").kind(), Kind::String);
    assert_eq!(RuntimeValue::array(vec![]).kind(), Kind::Array);
    assert_eq!(RuntimeValue::object(vec![]).kind(), Kind::Object);
    assert_eq!(RuntimeValue::BuiltInFunction(BuiltIn::Print).kind(), Kind::BuiltInFunction);
    assert_eq!(RuntimeValue::method(Method::ArrayLength, RuntimeValue::Null).kind(), Kind::Method);
    assert_eq!(
        RuntimeValue::function(vec![], vec![], None, ASTNode::NullLiteral).kind(),
        Kind::Function
    );
}

#[test]
fn values_are_written_out() {
    assert_eq!(show(&RuntimeValue::Null), "null");
    assert_eq!(show(&RuntimeValue::Integer(-12)), "-12");
    assert_eq!(show(&RuntimeValue::Boolean(true)), "true");
    assert_eq!(show(&RuntimeValue::Boolean(false)), "false");
    assert_eq!(show(&text("as it is")), "as it is");
    assert_eq!(show(&RuntimeValue::Real(7)), "<7>");
    assert_eq!(show(&RuntimeValue::array(vec![])), "[]");
    assert_eq!(show(&RuntimeValue::array(integers(&[1]))), "[1]");
    assert_eq!(show(&RuntimeValue::array(integers(&[1, 2, 3]))), "[1, 2, 3]");
    assert_eq!(
        show(&RuntimeValue::array(vec![text("a"), RuntimeValue::array(integers(&[1, 2]))])),
        "[a, [1, 2]]"
    );
    assert_eq!(show(&RuntimeValue::tuple(integers(&[1, 2]))), "(1, 2)");
    assert_eq!(show(&RuntimeValue::tuple(vec![])), "()");
    assert_eq!(show(&person()), "{name: Ada, age: 36}");
    assert_eq!(show(&RuntimeValue::object(vec![])), "{}");
    assert_eq!(show(&RuntimeValue::BuiltInFunction(BuiltIn::Tup)), "<built-in function>");
    assert_eq!(show(&RuntimeValue::method(Method::StringSplit, text("a"))), "<method>");
    assert_eq!(
        show(&RuntimeValue::function(vec![], vec![], None, ASTNode::NullLiteral)),
        "<function>"
    );
}

#[test]
fn rendering_appends_to_what_is_there() {
    let mut glyphs = vec![Glyph::Character('>')];
    render(&RuntimeValue::Integer(5), &mut glyphs);
    render(&RuntimeValue::Real(9), &mut glyphs);
    assert_eq!(glyphs, vec![Glyph::Character('>'), Glyph::Character('5'), Glyph::Real(9)]);
}

#[test]
fn an_object_keeps_the_later_of_two_fields_of_one_name() {
    let object = RuntimeValue::object(vec![
        ("a".to_string(), RuntimeValue::Integer(1)),
        ("b".to_string(), RuntimeValue::Integer(2)),
        ("a".to_string(), RuntimeValue::Integer(3)),
    ]);
    assert_eq!(show(&object), "{a: 3, b: 2}");
    assert_eq!(show(&object_length(object, vec![])), "2");
}

#[test]
fn copies_are_equal_to_what_they_copy() {
    let function = RuntimeValue::function(
        vec![ASTNode::Identifier("a".to_string())],
        vec![Some(RuntimeValue::Integer(0))],
        Some(Box::new(text(""))),
        ASTNode::block(vec![ASTNode::Identifier("a".to_string())]),
    );
    let samples = vec![
        RuntimeValue::Null,
        RuntimeValue::Integer(4),
        RuntimeValue::Real(1.5f64.to_bits()),
        RuntimeValue::Boolean(false),
        text("abc"),
        RuntimeValue::array(vec![text("a"), RuntimeValue::array(integers(&[1, 2]))]),
        RuntimeValue::tuple(integers(&[1, 2])),
        person(),
        RuntimeValue::BuiltInFunction(BuiltIn::Input),
        RuntimeValue::method(Method::StringLength, text("abc")),
        function,
    ];
    for (i, a) in samples.iter().enumerate() {
        assert!(equals(a, &a.clone()), "{a:?}");
        assert!(equals(a, &a.duplicate()), "{a:?}");
        for (j, b) in samples.iter().enumerate() {
            assert_eq!(equals(a, b), i == j, "{a:?} {b:?}");
        }
    }
}

#[test]
fn objects_are_equal_whatever_the_order_of_their_fields() {
    let swapped = RuntimeValue::object(vec![
        ("age".to_string(), RuntimeValue::Integer(36)),
        ("name".to_string(), text("Ada")),
    ]);
    assert!(equals(&person(), &swapped));
    let older = RuntimeValue::object(vec![
        ("age".to_string(), RuntimeValue::Integer(37)),
        ("name".to_string(), text("Ada")),
    ]);
    assert!(!equals(&person(), &older));
    let other = RuntimeValue::object(vec![
        ("age".to_string(), RuntimeValue::Integer(36)),
        ("nick".to_string(), text("Ada")),
    ]);
    assert!(!equals(&person(), &other));
    let smaller = RuntimeValue::object(vec![("name".to_string(), text("Ada"))]);
    assert!(!equals(&person(), &smaller));
    assert!(!equals(&smaller, &person()));
}

#[test]
fn trees_are_compared_by_structure() {
    let a = ASTNode::call(ASTNode::Identifier("f".to_string()), vec![ASTNode::IntegerLiteral(1)]);
    let b = ASTNode::call(ASTNode::Identifier("f".to_string()), vec![ASTNode::IntegerLiteral(1)]);
    let c = ASTNode::call(ASTNode::Identifier("f".to_string()), vec![ASTNode::IntegerLiteral(2)]);
    let d = ASTNode::call(ASTNode::Identifier("f".to_string()), vec![]);
    assert!(same_tree(&a, &b));
    assert!(!same_tree(&a, &c));
    assert!(!same_tree(&a, &d));
    assert!(!same_tree(&ASTNode::NullLiteral, &ASTNode::IntegerLiteral(0)));
    assert!(same_tree(&ASTNode::RealLiteral("1.0".to_string()), &ASTNode::RealLiteral("1.0".to_string())));
    assert!(!same_tree(&ASTNode::RealLiteral("1.0".to_string()), &ASTNode::RealLiteral("1.00".to_string())));
}

#[test]
fn arithmetic_on_values() {
    let int = RuntimeValue::Integer;
    assert_eq!(shown(evaluate_binary_expression(int(2), "+", int(3))), "5");
    assert_eq!(shown(evaluate_binary_expression(int(2), "-", int(3))), "-1");
    assert_eq!(shown(evaluate_binary_expression(int(2), "*", int(3))), "6");
    assert_eq!(shown(evaluate_binary_expression(int(7), "%", int(3))), "1");
    assert_eq!(shown(evaluate_binary_expression(int(-7), "%", int(3))), "-1");
    assert_eq!(shown(evaluate_binary_expression(int(7), "%", int(-3))), "1");
    assert_eq!(shown(evaluate_binary_expression(int(-7), "%", int(-3))), "-1");
    assert_eq!(shown(evaluate_binary_expression(int(i64::MIN), "%", int(-1))), "0");
    assert_eq!(shown(evaluate_binary_expression(int(i64::MIN), "%", int(i64::MIN))), "0");
    assert_eq!(shown(evaluate_binary_expression(int(i64::MAX), "%", int(i64::MIN))), "9223372036854775807");
    assert_eq!(shown(evaluate_binary_expression(int(2), "^", int(3))), "null");
    assert_eq!(shown(evaluate_binary_expression(int(2), "", int(3))), "null");
    assert_eq!(shown(evaluate_binary_expression(int(i64::MIN), "*", int(1))), "-9223372036854775808");
    assert_eq!(shown(evaluate_binary_expression(int(i64::MAX), "+", int(0))), "9223372036854775807");
    for (a, b) in [(17i64, 5i64), (-17, 5), (17, -5), (-17, -5), (0, 3), (5, 17), (i64::MAX, 2), (i64::MIN, 3)] {
        assert_eq!(shown(evaluate_binary_expression(int(a), "%", int(b))), (a % b).to_string());
    }
    for (operator, a, b) in [("+", i64::MAX, 1), ("-", i64::MIN, 1), ("*", i64::MIN, -1), ("*", i64::MAX, i64::MAX), ("%", 5, 0)] {
        assert!(matches!(
            evaluate_binary_expression(int(a), operator, int(b)),
            Reply::Error(Error::Arithmetic)
        ));
    }
}

#[test]
fn arithmetic_on_reals_is_asked_of_the_host() {
    let int = RuntimeValue::Integer;
    let real = RuntimeValue::Real;
    assert!(matches!(
        evaluate_binary_expression(int(6), "/", int(3)),
        Reply::Request(Request::Arithmetic(Operator::Divide, Number::Integer(6), Number::Integer(3)))
    ));
    assert!(matches!(
        evaluate_binary_expression(int(6), "/", int(0)),
        Reply::Request(Request::Arithmetic(Operator::Divide, Number::Integer(6), Number::Integer(0)))
    ));
    assert!(matches!(
        evaluate_binary_expression(real(1), "+", real(2)),
        Reply::Request(Request::Arithmetic(Operator::Add, Number::Real(1), Number::Real(2)))
    ));
    assert!(matches!(
        evaluate_binary_expression(int(1), "-", real(2)),
        Reply::Request(Request::Arithmetic(Operator::Subtract, Number::Integer(1), Number::Real(2)))
    ));
    assert!(matches!(
        evaluate_binary_expression(real(1), "*", int(2)),
        Reply::Request(Request::Arithmetic(Operator::Multiply, Number::Real(1), Number::Integer(2)))
    ));
    assert!(matches!(
        evaluate_binary_expression(real(1), "/", real(2)),
        Reply::Request(Request::Arithmetic(Operator::Divide, Number::Real(1), Number::Real(2)))
    ));
    assert_eq!(shown(evaluate_binary_expression(real(1), "%", real(2))), "null");
    assert_eq!(shown(evaluate_binary_expression(real(1), "?", real(2))), "null");
}

#[test]
fn strings_arrays_and_tuples_under_arithmetic() {
    assert_eq!(shown(evaluate_binary_expression(text("ab"), "+", text("cd"))), "abcd");
    assert_eq!(shown(evaluate_binary_expression(text("ab"), "*", RuntimeValue::Integer(2))), "abab");
    assert_eq!(shown(evaluate_binary_expression(text("ab"), "*", RuntimeValue::Integer(0))), "");
    assert!(matches!(
        evaluate_binary_expression(text("ab"), "*", RuntimeValue::Integer(-1)),
        Reply::Error(Error::Arithmetic)
    ));
    assert_eq!(shown(evaluate_binary_expression(text("ab"), "+", RuntimeValue::Integer(2))), "null");
    assert_eq!(
        shown(evaluate_binary_expression(RuntimeValue::array(integers(&[1])), "+", text("x"))),
        "[1, x]"
    );
    assert_eq!(
        shown(evaluate_binary_expression(
            RuntimeValue::array(vec![]),
            "+",
            RuntimeValue::tuple(integers(&[1]))
        )),
        "[(1)]"
    );
    assert_eq!(
        shown(evaluate_binary_expression(RuntimeValue::array(integers(&[1])), "*", text("x"))),
        "null"
    );
    match evaluate_binary_expression(
        RuntimeValue::tuple(integers(&[1, 2])),
        "whatever",
        RuntimeValue::tuple(integers(&[3])),
    ) {
        Reply::Pairwise(left, right) => {
            assert_eq!(left.len(), 2);
            assert_eq!(right.len(), 1);
            assert!(equals(&left[1], &RuntimeValue::Integer(2)));
            assert!(equals(&right[0], &RuntimeValue::Integer(3)));
        }
        other => panic!("{other:?}"),
    }
    assert_eq!(repeat("ab", 3), "ababab");
    assert_eq!(repeat("", 3), "");
    assert_eq!(repeat("ab", 0), "");
}

#[test]
fn relations_on_values() {
    let int = RuntimeValue::Integer;
    let truth = |left: &RuntimeValue, operator: &str, right: &RuntimeValue| {
        shown(evaluate_conditional_expression(left, operator, right))
    };
    assert_eq!(truth(&int(1), "<", &int(2)), "true");
    assert_eq!(truth(&int(1), ">", &int(2)), "false");
    assert_eq!(truth(&int(1), "=", &int(1)), "false");
    assert_eq!(truth(&int(1), "", &int(1)), "false");
    assert_eq!(truth(&text("ab"), "<", &text("abc")), "true");
    assert_eq!(truth(&text("ab"), "==", &text("abc")), "false");
    assert_eq!(truth(&text("é"), "==", &int(2)), "true");
    assert_eq!(truth(&text("é"), "<", &text("ab")), "false");
    assert_eq!(truth(&text("é"), "<=", &text("ab")), "true");
    let real = RuntimeValue::Real;
    assert_eq!(truth(&real(1.5f64.to_bits()), "==", &real(1.5f64.to_bits())), "true");
    assert_eq!(truth(&real(f64::NAN.to_bits()), "!=", &real(f64::NAN.to_bits())), "true");
    assert!(matches!(
        evaluate_conditional_expression(&real(1), "<", &real(2)),
        Reply::Request(Request::Compare(Relation::Less, Number::Real(1), Number::Real(2)))
    ));
    assert!(matches!(
        evaluate_conditional_expression(&int(1), "==", &real(2)),
        Reply::Request(Request::Compare(Relation::Equal, Number::Integer(1), Number::Real(2)))
    ));
    assert!(matches!(
        evaluate_conditional_expression(&real(1), ">=", &int(2)),
        Reply::Request(Request::Compare(Relation::GreaterEqual, Number::Real(1), Number::Integer(2)))
    ));
    assert_eq!(truth(&person(), "==", &person()), "false");
}

#[test]
fn signs_on_values() {
    assert_eq!(shown(evaluate_unary_expression("-", RuntimeValue::Integer(5))), "-5");
    assert_eq!(shown(evaluate_unary_expression("!", RuntimeValue::Boolean(true))), "false");
    assert_eq!(shown(evaluate_unary_expression("+", text("a"))), "a");
    assert_eq!(shown(evaluate_unary_expression("", text("a"))), "a");
    assert!(matches!(
        evaluate_unary_expression("-", RuntimeValue::Real(3)),
        Reply::Request(Request::Negate(3))
    ));
    assert!(matches!(
        evaluate_unary_expression("-", RuntimeValue::Integer(i64::MIN)),
        Reply::Error(Error::Arithmetic)
    ));
    assert!(matches!(
        evaluate_unary_expression("!", RuntimeValue::Null),
        Reply::Error(Error::TypeMismatch { expected: Kind::Integer, found: Kind::Null })
    ));
}

#[test]
fn conversions_on_values() {
    assert_eq!(shown(evaluate_conversion_expression(text("12"), "integer")), "12");
    assert_eq!(shown(evaluate_conversion_expression(RuntimeValue::Integer(12), "string")), "12");
    assert_eq!(shown(evaluate_conversion_expression(person(), "boolean")), "true");
    assert_eq!(shown(evaluate_conversion_expression(RuntimeValue::object(vec![]), "boolean")), "false");
    assert_eq!(shown(evaluate_conversion_expression(person(), "string")), "null");
    assert_eq!(shown(evaluate_conversion_expression(text("12"), "number")), "null");
    assert!(matches!(
        evaluate_conversion_expression(RuntimeValue::Real(3), "integer"),
        Reply::Request(Request::Truncate(3))
    ));
    assert!(matches!(
        evaluate_conversion_expression(RuntimeValue::Real(3), "string"),
        Reply::Request(Request::Render(3))
    ));
    assert!(matches!(
        evaluate_conversion_expression(RuntimeValue::Integer(3), "real"),
        Reply::Request(Request::Widen(3))
    ));
    assert!(matches!(
        evaluate_conversion_expression(text("1.5"), "real"),
        Reply::Request(Request::Parse(source)) if source == "1.5"
    ));
    assert!(matches!(
        evaluate_conversion_expression(text("x"), "integer"),
        Reply::Error(Error::TypeMismatch { expected: Kind::Integer, found: Kind::String })
    ));
}

#[test]
fn members_of_values() {
    let member = |object: RuntimeValue, property: RuntimeValue| {
        evaluate_member_expression(object, &property).map(|value| show(&value))
    };
    assert_eq!(member(person(), text("name")), Ok("Ada".to_string()));
    assert_eq!(member(person(), text("age")), Ok("36".to_string()));
    assert_eq!(member(person(), text("length")), Ok("<method>".to_string()));
    assert_eq!(member(person(), text("height")), Err(Error::PropertyNotFound));
    assert_eq!(member(person(), RuntimeValue::Integer(0)), Ok("null".to_string()));
    assert_eq!(member(text("hi"), RuntimeValue::Integer(1)), Ok("i".to_string()));
    assert_eq!(member(text("hi"), RuntimeValue::Integer(5)), Ok(" ".to_string()));
    assert_eq!(member(text("hi"), RuntimeValue::Integer(-1)), Ok(" ".to_string()));
    assert_eq!(member(text("hi"), RuntimeValue::Integer(i64::MIN)), Ok(" ".to_string()));
    assert_eq!(member(text("hi"), text("split")), Ok("<method>".to_string()));
    assert_eq!(member(text("hi"), text("name")), Err(Error::PropertyNotFound));
    assert_eq!(member(RuntimeValue::array(integers(&[1, 2])), RuntimeValue::Integer(1)), Ok("2".to_string()));
    assert_eq!(member(RuntimeValue::array(integers(&[1, 2])), RuntimeValue::Integer(5)), Ok("null".to_string()));
    assert_eq!(member(RuntimeValue::array(integers(&[1, 2])), RuntimeValue::Integer(i64::MAX)), Ok("null".to_string()));
    assert_eq!(member(RuntimeValue::array(vec![]), text("split")), Err(Error::PropertyNotFound));
    assert_eq!(member(RuntimeValue::Integer(1), text("length")), Ok("null".to_string()));
    assert_eq!(member(RuntimeValue::tuple(integers(&[1])), RuntimeValue::Integer(0)), Ok("null".to_string()));
    let field_named_like_a_method = RuntimeValue::object(vec![("length".to_string(), text("field"))]);
    assert_eq!(member(field_named_like_a_method, text("length")), Ok("<method>".to_string()));
}

#[test]
fn a_method_is_bound_to_its_receiver() {
    match evaluate_member_expression(text("abc"), &text("length")).unwrap() {
        RuntimeValue::Method(Method::StringLength, receiver, bound) => {
            assert!(equals(&receiver, &text("abc")));
            assert!(bound.is_empty());
        }
        other => panic!("{other:?}"),
    }
    assert_eq!(find_method(Kind::String, "length"), Some(Method::StringLength));
    assert_eq!(find_method(Kind::String, "is_empty"), Some(Method::StringIsEmpty));
    assert_eq!(find_method(Kind::String, "split"), Some(Method::StringSplit));
    assert_eq!(find_method(Kind::Array, "length"), Some(Method::ArrayLength));
    assert_eq!(find_method(Kind::Array, "is_empty"), Some(Method::ArrayIsEmpty));
    assert_eq!(find_method(Kind::Array, "split"), None);
    assert_eq!(find_method(Kind::Object, "length"), Some(Method::ObjectLength));
    assert_eq!(find_method(Kind::Object, "is_empty"), Some(Method::ObjectIsEmpty));
    assert_eq!(find_method(Kind::Object, "keys"), None);
    assert_eq!(find_method(Kind::Integer, "length"), None);
    assert_eq!(find_method(Kind::Tuple, "length"), None);
}

#[test]
fn the_native_methods() {
    assert_eq!(show(&array_length(RuntimeValue::array(integers(&[1, 2, 3])), vec![])), "3");
    assert_eq!(show(&array_length(text("abc"), vec![])), "null");
    assert_eq!(show(&array_is_empty(RuntimeValue::array(vec![]), vec![])), "true");
    assert_eq!(show(&array_is_empty(RuntimeValue::array(integers(&[1])), vec![])), "false");
    assert_eq!(show(&array_is_empty(RuntimeValue::Null, vec![])), "null");
    assert_eq!(show(&string_length(text("héllo"), vec![])), "6");
    assert_eq!(show(&string_length(RuntimeValue::array(vec![]), vec![])), "null");
    assert_eq!(show(&string_is_empty(text(""), vec![]).unwrap()), "true");
    assert_eq!(show(&string_is_empty(text(" "), vec![]).unwrap()), "false");
    assert_eq!(
        string_is_empty(RuntimeValue::Integer(1), vec![]).unwrap_err(),
        Error::TypeMismatch { expected: Kind::String, found: Kind::Integer }
    );
    assert_eq!(show(&object_length(person(), vec![])), "2");
    assert_eq!(show(&object_length(text("a"), vec![])), "null");
    assert_eq!(show(&object_is_empty(person(), vec![])), "false");
    assert_eq!(show(&object_is_empty(RuntimeValue::object(vec![]), vec![])), "true");
    assert_eq!(show(&object_is_empty(RuntimeValue::Null, vec![])), "null");
    assert_eq!(show(&string_split(text("a b c "), vec![text(" ")]).unwrap()), "[a, b, c]");
    assert_eq!(show(&string_split(text("a b c"), vec![text(" ")]).unwrap()), "[a, b]");
    assert_eq!(show(&string_split(text("  "), vec![text(" ")]).unwrap()), "[, ]");
    assert_eq!(
        string_split(RuntimeValue::Integer(1), vec![text(" ")]).unwrap_err(),
        Error::TypeMismatch { expected: Kind::String, found: Kind::Integer }
    );
    assert_eq!(
        string_split(text("a"), vec![RuntimeValue::Null]).unwrap_err(),
        Error::TypeMismatch { expected: Kind::String, found: Kind::Null }
    );
    assert_eq!(show(&call_method(Method::ArrayLength, RuntimeValue::array(vec![]), vec![]).unwrap()), "0");
    assert_eq!(show(&call_method(Method::StringSplit, text("a,"), vec![text(",")]).unwrap()), "[a]");
    assert_eq!(show(&call_method(Method::ObjectIsEmpty, person(), vec![]).unwrap()), "false");
    assert_eq!(show(&call_method(Method::StringLength, text("ab"), vec![]).unwrap()), "2");
    assert_eq!(show(&call_method(Method::StringIsEmpty, text("ab"), vec![]).unwrap()), "false");
    assert_eq!(show(&call_method(Method::ArrayIsEmpty, text("ab"), vec![]).unwrap()), "null");
    assert_eq!(show(&call_method(Method::ObjectLength, person(), vec![]).unwrap()), "2");
}

#[test]
fn the_native_functions() {
    let glyphs = print(&vec![text("a"), RuntimeValue::Integer(1), RuntimeValue::Real(5)]);
    assert_eq!(
        glyphs,
        vec![Glyph::Character('a'), Glyph::Character('1'), Glyph::Real(5), Glyph::Character('\n')]
    );
    assert_eq!(print(&vec![]), vec![Glyph::Character('\n')]);
    assert_eq!(show(&input("line\n".to_string())), "line");
    assert_eq!(show(&input("line\r\n".to_string())), "line");
    assert_eq!(show(&input("line".to_string())), "line");
    assert_eq!(show(&input("two\nlines\n\n".to_string())), "two\nlines");
    assert_eq!(show(&input(" spaces stay \n".to_string())), " spaces stay ");
    assert_eq!(show(&input("\n".to_string())), "");
    assert_eq!(show(&input(String::new())), "");
    assert_eq!(show(&tup(integers(&[1, 2]))), "(1, 2)");
    assert_eq!(show(&tup(vec![])), "()");
}

#[test]
fn names_of_constants() {
    assert!(names_constant("PI"));
    assert!(names_constant("X"));
    assert!(names_constant(""));
    assert!(names_constant("ÄÖ"));
    assert!(!names_constant("Pi"));
    assert!(!names_constant("pi"));
    assert!(!names_constant("X1"));
    assert!(!names_constant("MAX_SIZE"));
    assert!(!names_constant("true"));
}

#[test]
fn the_root_scope_holds_the_globals() {
    let environment = Environment::new(None);
    assert_eq!(environment.depth(), 1);
    assert!(matches!(environment.lookup("null"), Ok(RuntimeValue::Null)));
    assert!(matches!(environment.lookup("true"), Ok(RuntimeValue::Boolean(true))));
    assert!(matches!(environment.lookup("false"), Ok(RuntimeValue::Boolean(false))));
    assert!(matches!(environment.lookup("print"), Ok(RuntimeValue::BuiltInFunction(BuiltIn::Print))));
    assert!(matches!(environment.lookup("input"), Ok(RuntimeValue::BuiltInFunction(BuiltIn::Input))));
    assert!(matches!(environment.lookup("tup"), Ok(RuntimeValue::BuiltInFunction(BuiltIn::Tup))));
    assert_eq!(environment.lookup("nothing").unwrap_err(), Error::UndefinedName);
    assert_eq!(environment.lookup("").unwrap_err(), Error::UndefinedName);
}

#[test]
fn a_child_scope_starts_empty_and_sees_its_parents() {
    let mut root = Environment::new(None);
    root.declare_variable("x".to_string(), RuntimeValue::Integer(1));
    let mut child = Environment::new(Some(root));
    assert_eq!(child.depth(), 2);
    assert!(matches!(child.lookup("x"), Ok(RuntimeValue::Integer(1))));
    assert!(matches!(child.lookup("true"), Ok(RuntimeValue::Boolean(true))));
    child.declare_variable("x".to_string(), RuntimeValue::Integer(2));
    child.declare_variable("y".to_string(), RuntimeValue::Integer(3));
    assert!(matches!(child.lookup("x"), Ok(RuntimeValue::Integer(2))));
    child.leave();
    assert_eq!(child.depth(), 1);
    assert!(matches!(child.lookup("x"), Ok(RuntimeValue::Integer(1))));
    assert_eq!(child.lookup("y").unwrap_err(), Error::UndefinedName);
    child.leave();
    assert_eq!(child.depth(), 1);
    assert!(matches!(child.lookup("print"), Ok(RuntimeValue::BuiltInFunction(BuiltIn::Print))));
}

#[test]
fn a_variable_shadows_a_constant_of_its_scope() {
    let mut environment = Environment::new(None);
    environment.declare_variable("true".to_string(), RuntimeValue::Integer(1));
    assert!(matches!(environment.lookup("true"), Ok(RuntimeValue::Integer(1))));
    environment.enter();
    assert!(matches!(environment.lookup("true"), Ok(RuntimeValue::Integer(1))));
}

#[test]
fn declaring_again_binds_anew() {
    let mut environment = Environment::new(None);
    environment.declare_variable("x".to_string(), RuntimeValue::Integer(1));
    environment.declare_variable("x".to_string(), text("two"));
    assert!(matches!(environment.lookup("x"), Ok(RuntimeValue::String(value)) if value == "two"));
    environment.declare_variable("LIMIT".to_string(), RuntimeValue::Integer(1));
    environment.declare_variable("LIMIT".to_string(), RuntimeValue::Integer(2));
    assert!(matches!(environment.lookup("LIMIT"), Ok(RuntimeValue::Integer(2))));
}

#[test]
fn assignment_finds_the_nearest_variable_and_no_constant() {
    let mut environment = Environment::new(None);
    environment.declare_variable("x".to_string(), RuntimeValue::Integer(1));
    environment.declare_variable("PI".to_string(), RuntimeValue::Integer(3));
    environment.enter();
    environment.declare_variable("y".to_string(), RuntimeValue::Integer(2));
    environment.enter();
    assert_eq!(environment.assign("x".to_string(), RuntimeValue::Integer(10)), Ok(()));
    assert_eq!(environment.assign("y".to_string(), RuntimeValue::Integer(20)), Ok(()));
    assert_eq!(environment.assign("z".to_string(), RuntimeValue::Integer(30)), Err(Error::UndefinedName));
    assert_eq!(environment.assign("PI".to_string(), RuntimeValue::Integer(0)), Err(Error::UndefinedName));
    assert_eq!(environment.assign("null".to_string(), RuntimeValue::Integer(0)), Err(Error::UndefinedName));
    assert!(matches!(environment.lookup("x"), Ok(RuntimeValue::Integer(10))));
    assert!(matches!(environment.lookup("y"), Ok(RuntimeValue::Integer(20))));
    assert!(matches!(environment.lookup("PI"), Ok(RuntimeValue::Integer(3))));
    environment.declare_variable("x".to_string(), RuntimeValue::Integer(100));
    assert_eq!(environment.assign("x".to_string(), RuntimeValue::Integer(200)), Ok(()));
    assert!(matches!(environment.lookup("x"), Ok(RuntimeValue::Integer(200))));
    environment.leave();
    assert!(matches!(environment.lookup("x"), Ok(RuntimeValue::Integer(10))));
    environment.leave();
    assert_eq!(environment.lookup("y").unwrap_err(), Error::UndefinedName);
    assert_eq!(environment.depth(), 1);
}
