use rust_jcs_transpiler::ast::{
    BinaryOperator, Expression, Literal, Method, Modifier, Statement, Type, UnaryOperator, Variable,
};
use rust_jcs_transpiler::generator_java::{java_modifier, java_parameters, java_type, JavaGenerator};
use rust_jcs_transpiler::parser_cs::{match_cs_modifiers, match_cs_parameters, match_cs_type, BuildError};
use rust_jcs_transpiler::text::{int_to_text, text_is};

fn var(name: &str) -> Expression {
    Expression::Variable(name.to_string())
}

#[test]
fn source_type_spellings() {
    assert_eq!(match_cs_type("void"), Type::Void);
    assert_eq!(match_cs_type("int"), Type::Int);
    assert_eq!(match_cs_type("bool"), Type::Bool);
    assert_eq!(match_cs_type("string"), Type::String);
    assert_eq!(match_cs_type("float"), Type::Float);
    assert_eq!(match_cs_type("double"), Type::Double);
    assert_eq!(match_cs_type("string[]"), Type::Unknown);
    assert_eq!(match_cs_type("Int"), Type::Unknown);
}

#[test]
fn source_modifier_spellings() {
    assert_eq!(
        match_cs_modifiers(vec!["public", "static", "private", "async"]),
        vec![Modifier::Public, Modifier::Static, Modifier::Private, Modifier::Unknown]
    );
    assert!(match_cs_modifiers(vec![]).is_empty());
}

#[test]
fn parameters_split_at_first_space() {
    let ps = match_cs_parameters(vec!["int a", "string[] args", "bool b c"]).unwrap();
    assert_eq!(ps.len(), 3);
    assert_eq!((ps[0].typ, ps[0].name.as_str()), (Type::Int, "a"));
    assert_eq!((ps[1].typ, ps[1].name.as_str()), (Type::Unknown, "args"));
    assert_eq!((ps[2].typ, ps[2].name.as_str()), (Type::Bool, "b c"));
    assert!(matches!(
        match_cs_parameters(vec!["int a", "x"]),
        Err(BuildError::MalformedParameter)
    ));
}

#[test]
fn target_type_spellings() {
    let all = [
        (Type::Void, "void"),
        (Type::Int, "int"),
        (Type::Bool, "boolean"),
        (Type::String, "String"),
        (Type::Float, "float"),
        (Type::Double, "double"),
        (Type::Unknown, "Object"),
    ];
    for (t, s) in all {
        assert_eq!(java_type(&t), s);
    }
}

#[test]
fn target_modifiers_and_parameters() {
    assert_eq!(
        java_modifier(&vec![Modifier::Public, Modifier::Unknown, Modifier::Static]),
        "public static "
    );
    assert_eq!(java_modifier(&vec![]), "");
    let ps = vec![
        Variable { typ: Type::Int, name: "a".to_string() },
        Variable { typ: Type::String, name: "s".to_string() },
    ];
    assert_eq!(java_parameters(&ps), "int a, String s");
    assert_eq!(java_parameters(&vec![]), "");
}

#[test]
fn lines_are_indented_by_level() {
    let mut g = JavaGenerator::new();
    g.create_line("a");
    g.indent = 2;
    g.create_line("b");
    assert_eq!(g.output, "a\n        b\n");
}

#[test]
fn expression_texts() {
    let mut g = JavaGenerator::new();
    let sum = Expression::BinaryExpression {
        left: Box::new(var("x")),
        operator: BinaryOperator::Le,
        right: Box::new(Expression::Literal(Literal::Int(-7))),
    };
    assert_eq!(g.create_expression(&sum), "x <= -7");
    let not = Expression::PrefixUnaryExpression { operator: UnaryOperator::Not, right: Box::new(var("f")) };
    assert_eq!(g.create_expression(&not), "!f");
    let inc = Expression::PostfixUnaryExpression { left: Box::new(var("i")), operator: UnaryOperator::UAdd };
    assert_eq!(g.create_expression(&inc), "i++");
    let call = Expression::Call {
        function: "Math.Max".to_string(),
        arguments: vec![var("a"), Expression::Literal(Literal::Double("2.5".to_string()))],
    };
    assert_eq!(g.create_expression(&call), "Math.Max(a, 2.5d)");
    let read = Expression::Call { function: "int.Parse".to_string(), arguments: vec![var("ignored")] };
    assert_eq!(g.create_expression(&read), "scanner.nextInt()");
    assert_eq!(g.create_expression(&Expression::Literal(Literal::Bool(false))), "false");
    assert_eq!(g.create_expression(&Expression::Literal(Literal::Float("0.5".to_string()))), "0.5f");
}

#[test]
fn method_rendering() {
    let m = Method {
        name: "Main".to_string(),
        return_type: Type::Void,
        modifiers: vec![Modifier::Static],
        parameters: vec![],
        body: vec![Statement::Return(None)],
    };
    let mut g = JavaGenerator::new();
    g.create_method(&m, true);
    assert_eq!(
        g.output,
        "static void main(String[] args) {\n    Scanner scanner = new Scanner(System.in);\n    return;\n}\n"
    );
}

#[test]
fn decimal_text_of_integers() {
    assert_eq!(int_to_text(0), "0");
    assert_eq!(int_to_text(1234), "1234");
    assert_eq!(int_to_text(-45), "-45");
    assert_eq!(int_to_text(i32::MAX), "2147483647");
    assert_eq!(int_to_text(i32::MIN), "-2147483648");
}

#[test]
fn text_comparison() {
    assert!(text_is("Main", "Main"));
    assert!(!text_is("main", "Main"));
    assert!(!text_is("", "a"));
}
