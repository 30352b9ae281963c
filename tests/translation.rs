use rust_jcs_transpiler::builder_java::{build_program, translate_tree, TranslateError};
use rust_jcs_transpiler::cs_source::{parse_source, transpile};
use rust_jcs_transpiler::parser_cs::BuildError;

fn program_with_body(body: &str) -> String {
    format!(
        "class Program {{\n    public static void Main() {{\n{}\n    }}\n}}\n",
        body
    )
}

fn translate(source: &str) -> String {
    transpile(source).expect("the source translates")
}

fn build_error(source: &str) -> BuildError {
    let tree = parse_source(source).expect("the source parses");
    match build_program(&tree) {
        Err(e) => e,
        Ok(_) => panic!("the source was expected not to lower"),
    }
}

const BIG: &str = r#"class Program
{
    public static void Main()
    {
        bool init_b = true;
        int c = 2;
        string s = "hello?";
        if (init_b == true) {
            c = c + c;
        }
        else {
            c = c - c;
        }
        for (int i = 0; i < 5; i++)
        {
            while (c > 0)
            {
                c--;
            }
        }
        Console.WriteLine("a+b" + c);
        int x = int.Parse(Console.ReadLine());
    }
}"#;

#[test]
fn same_source_twice_gives_same_text() {
    assert_eq!(translate(BIG), translate(BIG));
}

#[test]
fn lines_are_indented_by_fours_without_tabs() {
    let out = translate(BIG);
    assert!(out.ends_with('\n'));
    for line in out.lines() {
        assert!(!line.contains('\t'));
        if line.is_empty() {
            continue;
        }
        let spaces = line.len() - line.trim_start_matches(' ').len();
        assert_eq!(spaces % 4, 0, "line {:?}", line);
        assert!(!line.ends_with(' '), "line {:?}", line);
    }
}

#[test]
fn braces_balance_in_output() {
    let out = translate(BIG);
    assert_eq!(out.matches('{').count(), out.matches('}').count());
    assert_eq!(out.matches('{').count(), 6);
}

#[test]
fn string_literals_survive_with_quotes() {
    let out = translate(BIG);
    assert!(out.contains("\"hello?\""));
    assert!(out.contains("System.out.println(\"a+b\" + c);"));
}

#[test]
fn scanner_appears_only_with_input() {
    let without = translate(&program_with_body("        int x = 1;"));
    assert!(!without.contains("import java.util.Scanner;"));
    assert!(!without.contains("new Scanner(System.in)"));
    let with_line = translate(&program_with_body("        string s = Console.ReadLine();"));
    assert_eq!(
        with_line,
        "import java.util.Scanner;\nclass Program {\n    public static void main(String[] args) {\n        Scanner scanner = new Scanner(System.in);\n        String s = scanner.nextLine();\n    }\n}\n"
    );
}

#[test]
fn scanner_is_declared_in_every_method_of_an_input_class() {
    let source = "class P {\n    static void A() {\n        int x = int.Parse(Console.ReadLine());\n    }\n    static void B() {\n    }\n}\n";
    let expected = "import java.util.Scanner;\nclass P {\n    static void A() {\n        Scanner scanner = new Scanner(System.in);\n        int x = scanner.nextInt();\n    }\n    static void B() {\n        Scanner scanner = new Scanner(System.in);\n    }\n}\n";
    assert_eq!(translate(source), expected);
}

#[test]
fn main_gets_args_before_its_parameters() {
    let source = "class P {\n    public static void Main(int a, bool b) {\n    }\n    private int Add(int a, int b) {\n        return a + b;\n    }\n}\n";
    let expected = "class P {\n    public static void main(String[] args, int a, boolean b) {\n    }\n    private int Add(int a, int b) {\n        return a + b;\n    }\n}\n";
    assert_eq!(translate(source), expected);
}

#[test]
fn else_if_nests_inside_else() {
    let body = "        int a = 1;\n        if (a == 1) {\n            a = 2;\n        } else if (a == 2) {\n            a = 3;\n        }";
    let expected = "class Program {\n    public static void main(String[] args) {\n        int a = 1;\n        if (a == 1) {\n            a = 2;\n        }\n        else {\n            if (a == 2) {\n                a = 3;\n            }\n        }\n    }\n}\n";
    assert_eq!(translate(&program_with_body(body)), expected);
}

#[test]
fn for_with_empty_header() {
    let body = "        for (;;) {\n            return;\n        }";
    let out = translate(&program_with_body(body));
    assert!(out.contains("        for (; ; ) {\n            return;\n        }\n"));
}

#[test]
fn for_with_assignment_update() {
    let body = "        int i;\n        for (i = 0; i < 3; i = i + 1) {\n            Foo(i, 2);\n        }";
    let out = translate(&program_with_body(body));
    assert!(out.contains("        int i;\n"));
    assert!(out.contains("        for (i = 0; i < 3; i = i + 1) {\n            Foo(i, 2);\n        }\n"));
}

#[test]
fn literals_and_unary_operators() {
    let body = "        float a = 1.5F;\n        double b = 2.5D;\n        float c = 3.0;\n        int n = -5;\n        bool f = !false;\n        n--;\n        string t = \"x\";";
    let out = translate(&program_with_body(body));
    assert!(out.contains("        float a = 1.5f;\n"));
    assert!(out.contains("        double b = 2.5d;\n"));
    assert!(out.contains("        float c = 3.0f;\n"));
    assert!(out.contains("        int n = -5;\n"));
    assert!(out.contains("        boolean f = !false;\n"));
    assert!(out.contains("        n--;\n"));
    assert!(out.contains("        String t = \"x\";\n"));
}

#[test]
fn declaration_takes_a_variable_as_initial_value() {
    let out = translate(&program_with_body("        int a = 1;\n        int b = a;"));
    assert!(out.contains("        int b = a;\n"));
}

#[test]
fn largest_int_literal_and_one_past_it() {
    let out = translate(&program_with_body("        int m = 2147483647;"));
    assert!(out.contains("        int m = 2147483647;\n"));
    assert_eq!(
        build_error(&program_with_body("        int m = 2147483648;")),
        BuildError::InvalidLiteral
    );
}

#[test]
fn writeline_with_several_arguments() {
    let out = translate(&program_with_body("        Console.WriteLine(\"a\", 1, true);"));
    assert!(out.contains("        System.out.println(\"a\", 1, true);\n"));
}

#[test]
fn parse_arguments_are_dropped() {
    let out = translate(&program_with_body("        double d = double.Parse(\"1.5\");\n        bool b = bool.Parse(Console.ReadLine());"));
    assert!(out.contains("        double d = scanner.nextDouble();\n"));
    assert!(out.contains("        boolean b = scanner.nextBoolean();\n"));
    assert!(!out.contains("\"1.5\""));
}

#[test]
fn empty_class_and_nested_class() {
    assert_eq!(translate("class E { }"), "class E {\n}\n");
    let source = "class A {\n    class B {\n        void F() {\n        }\n    }\n    void G() {\n    }\n}\n";
    let expected = "class A {\n    void F() {\n    }\n    void G() {\n    }\n}\nclass B {\n    void F() {\n    }\n}\n";
    assert_eq!(translate(source), expected);
}

#[test]
fn no_class_gives_empty_text() {
    assert_eq!(translate(""), "");
}

#[test]
fn unknown_statements_are_skipped() {
    let out = translate(&program_with_body("        ;\n        int a = 1;"));
    assert!(out.contains("        int a = 1;\n    }\n"));
}

#[test]
fn error_missing_part() {
    let source = "abstract class P {\n    public abstract void F();\n}\n";
    assert_eq!(build_error(source), BuildError::MissingPart);
}

#[test]
fn error_unsupported_operator() {
    assert_eq!(
        build_error(&program_with_body("        int a = 1;\n        int b = a % 2;")),
        BuildError::UnsupportedOperator
    );
    assert_eq!(
        build_error(&program_with_body("        int a = 1;\n        a += 2;")),
        BuildError::UnsupportedOperator
    );
}

#[test]
fn error_unsupported_expression() {
    assert_eq!(
        build_error(&program_with_body("        int a = 1;\n        int b = (a + 1) * 2;")),
        BuildError::UnsupportedExpression
    );
}

#[test]
fn error_unsupported_target() {
    assert_eq!(
        build_error(&program_with_body("        p.x = 1;")),
        BuildError::UnsupportedTarget
    );
}

#[test]
fn error_unsupported_for_clause() {
    assert_eq!(
        build_error(&program_with_body("        for (Foo(); ; ) {\n        }")),
        BuildError::UnsupportedForClause
    );
}

#[test]
fn error_unsupported_function() {
    assert_eq!(
        build_error(&program_with_body("        this.Foo();")),
        BuildError::UnsupportedFunction
    );
}

#[test]
fn translate_tree_reports_build_errors() {
    let tree = parse_source(&program_with_body("        int b = 3000000000;")).unwrap();
    assert_eq!(
        translate_tree(&tree),
        Err(TranslateError::Build(BuildError::InvalidLiteral))
    );
    assert_eq!(
        transpile(&program_with_body("        int b = 3000000000;")),
        Err(TranslateError::Build(BuildError::InvalidLiteral))
    );
}

#[test]
fn parse_source_keeps_kinds_fields_and_text() {
    let tree = parse_source("class P { }").unwrap();
    assert_eq!(tree.kind, "compilation_unit");
    assert!(tree.field.is_none());
    let class = &tree.children[0];
    assert_eq!(class.kind, "class_declaration");
    assert_eq!(class.text, "class P { }");
    let name = class
        .children
        .iter()
        .find(|c| c.kind == "identifier")
        .unwrap();
    assert_eq!(name.text, "P");
    assert_eq!(name.field.as_deref(), Some("name"));
    assert!(name.named);
}
