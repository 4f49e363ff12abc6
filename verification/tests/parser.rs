use docs_auditor::parser::{
    parse_c_code, parse_cpp_code, parse_csharp_code, parse_go_code, parse_kotlin_code, parse_python_code,
    parse_ruby_code, parse_rust_code, parse_swift_code, parse_typescript_code,
};
use docs_auditor::symbols::SymbolKind;
use tree_sitter::Parser as TsParser;

#[test]
fn test_parse_rust_code() {
    let code = r#"
const DEFAULT_TIMEOUT: u32 = 100;

fn calculate_sum(a: i32, b: i32) -> i32 {
    a + b
}
        "#;
    let symbols = parse_rust_code(code);
    // calculate_sum and DEFAULT_TIMEOUT
    assert_eq!(symbols.len(), 2);

    let func_sym = symbols.iter().find(|s| s.kind == SymbolKind::Function).unwrap();
    assert_eq!(func_sym.name, "calculate_sum");
    assert_eq!(func_sym.params, Some(vec![("a".to_string(), "i32".to_string()), ("b".to_string(), "i32".to_string())]));
    assert_eq!(func_sym.return_type, Some("i32".to_string()));

    let var_sym = symbols.iter().find(|s| s.kind == SymbolKind::Variable).unwrap();
    assert_eq!(var_sym.name, "DEFAULT_TIMEOUT");
    assert_eq!(var_sym.var_type, Some("u32".to_string()));
}

#[test]
fn test_parse_typescript_code() {
    let code = r#"
const DEFAULT_LIMIT = 50;
function processUser(id: string, age: number): boolean {
    return true;
}
        "#;
    let symbols = parse_typescript_code(code);
    assert_eq!(symbols.len(), 2);
    
    let func = symbols.iter().find(|s| s.kind == SymbolKind::Function).unwrap();
    assert_eq!(func.name, "processUser");
    assert_eq!(func.params, Some(vec![("id".to_string(), "string".to_string()), ("age".to_string(), "number".to_string())]));
    assert_eq!(func.return_type, Some("boolean".to_string()));
    
    let var = symbols.iter().find(|s| s.kind == SymbolKind::Variable).unwrap();
    assert_eq!(var.name, "DEFAULT_LIMIT");
}

#[test]
fn test_parse_python_code() {
    let code = r#"
TIMEOUT: int = 30

def greet_user(name: str) -> str:
    return "Hello " + name
        "#;
    let mut parser = TsParser::new();
    parser.set_language(tree_sitter_python::language()).unwrap();
    let tree = parser.parse(code, None).unwrap();
    println!("PYTHON AST: {}", tree.root_node().to_sexp());

    let symbols = parse_python_code(code);
    println!("PYTHON SYMBOLS: {:?}", symbols);
    assert_eq!(symbols.len(), 2);
    
    let func = symbols.iter().find(|s| s.kind == SymbolKind::Function).unwrap();
    assert_eq!(func.name, "greet_user");
    assert_eq!(func.params, Some(vec![("name".to_string(), "str".to_string())]));
    assert_eq!(func.return_type, Some("str".to_string()));
    
    let var = symbols.iter().find(|s| s.kind == SymbolKind::Variable).unwrap();
    assert_eq!(var.name, "TIMEOUT");
    assert_eq!(var.var_type, Some("int".to_string()));
}

#[test]
fn test_parse_go_code() {
    let code = r#"
package main

const Version string = "1.0.0"

func AddValues(x, y int) int {
    z := x + y
    return z
}
        "#;
    let mut parser = TsParser::new();
    parser.set_language(tree_sitter_go::language()).unwrap();
    let tree = parser.parse(code, None).unwrap();
    println!("GO AST: {}", tree.root_node().to_sexp());

    let symbols = parse_go_code(code);
    println!("GO SYMBOLS: {:?}", symbols);
    assert!(symbols.len() >= 3);
    
    let func = symbols.iter().find(|s| s.kind == SymbolKind::Function).unwrap();
    assert_eq!(func.name, "AddValues");
    assert_eq!(func.params, Some(vec![("x".to_string(), "int".to_string()), ("y".to_string(), "int".to_string())]));
    assert_eq!(func.return_type, Some("int".to_string()));
    
    let var = symbols.iter().find(|s| s.name == "Version").unwrap();
    assert_eq!(var.var_type, Some("string".to_string()));
    
    let short_var = symbols.iter().find(|s| s.name == "z").unwrap();
    assert_eq!(short_var.kind, SymbolKind::Variable);
}

#[test]
fn test_parse_c_code() {
    let code = r#"
int max_limit = 200;
int calculate_area(int width, int height) {
    return width * height;
}
        "#;
    let symbols = parse_c_code(code);
    assert_eq!(symbols.len(), 2);
    
    let func = symbols.iter().find(|s| s.kind == SymbolKind::Function).unwrap();
    assert_eq!(func.name, "calculate_area");
    assert_eq!(func.params, Some(vec![("width".to_string(), "int".to_string()), ("height".to_string(), "int".to_string())]));
    assert_eq!(func.return_type, Some("int".to_string()));
    
    let var = symbols.iter().find(|s| s.kind == SymbolKind::Variable).unwrap();
    assert_eq!(var.name, "max_limit");
    assert_eq!(var.var_type, Some("int".to_string()));
}

#[test]
fn test_parse_cpp_code() {
    let code = r#"
double pi = 3.14159;
double compute_circle(double radius) {
    return pi * radius * radius;
}
        "#;
    let symbols = parse_cpp_code(code);
    assert_eq!(symbols.len(), 2);
    
    let func = symbols.iter().find(|s| s.kind == SymbolKind::Function).unwrap();
    assert_eq!(func.name, "compute_circle");
    assert_eq!(func.params, Some(vec![("radius".to_string(), "double".to_string())]));
    assert_eq!(func.return_type, Some("double".to_string()));
    
    let var = symbols.iter().find(|s| s.kind == SymbolKind::Variable).unwrap();
    assert_eq!(var.name, "pi");
    assert_eq!(var.var_type, Some("double".to_string()));
}

#[test]
fn test_parse_csharp_code() {
    let code = r#"
class Demo {
    private static int DefaultScore = 100;
    public int Process(string input, int factor) {
        return factor * 2;
    }
}
        "#;
    let mut parser = TsParser::new();
    parser.set_language(tree_sitter_c_sharp::language()).unwrap();
    let tree = parser.parse(code, None).unwrap();
    println!("CSHARP AST: {}", tree.root_node().to_sexp());

    let symbols = parse_csharp_code(code);
    assert_eq!(symbols.len(), 2);
    
    let func = symbols.iter().find(|s| s.kind == SymbolKind::Function).unwrap();
    assert_eq!(func.name, "Process");
    assert_eq!(func.params, Some(vec![("input".to_string(), "string".to_string()), ("factor".to_string(), "int".to_string())]));
    assert_eq!(func.return_type, Some("int".to_string()));
    
    let var = symbols.iter().find(|s| s.kind == SymbolKind::Variable).unwrap();
    assert_eq!(var.name, "DefaultScore");
    assert_eq!(var.var_type, Some("int".to_string()));
}

#[test]
fn test_parse_ruby_code() {
    let code = r#"
api_key = "secret"
def perform_request(url, timeout)
    puts url
end
        "#;
    let symbols = parse_ruby_code(code);
    assert_eq!(symbols.len(), 2);
    
    let func = symbols.iter().find(|s| s.kind == SymbolKind::Function).unwrap();
    assert_eq!(func.name, "perform_request");
    assert_eq!(func.params, Some(vec![("url".to_string(), "any".to_string()), ("timeout".to_string(), "any".to_string())]));
    
    let var = symbols.iter().find(|s| s.kind == SymbolKind::Variable).unwrap();
    assert_eq!(var.name, "api_key");
}

#[test]
fn test_parse_swift_code() {
    let code = r#"
let greeting: String = "Hello"
func performAction(action: String, retries: Int) -> Bool {
    return true;
}
        "#;
    let mut parser = TsParser::new();
    parser.set_language(tree_sitter_swift::language()).unwrap();
    let tree = parser.parse(code, None).unwrap();
    println!("SWIFT AST: {}", tree.root_node().to_sexp());

    let symbols = parse_swift_code(code);
    assert_eq!(symbols.len(), 2);
    
    let func = symbols.iter().find(|s| s.kind == SymbolKind::Function).unwrap();
    assert_eq!(func.name, "performAction");
    assert_eq!(func.params, Some(vec![("action".to_string(), "String".to_string()), ("retries".to_string(), "Int".to_string())]));
    assert_eq!(func.return_type, Some("Bool".to_string()));
    
    let var = symbols.iter().find(|s| s.kind == SymbolKind::Variable).unwrap();
    assert_eq!(var.name, "greeting");
    assert_eq!(var.var_type, Some("String".to_string()));
}

#[test]
fn test_parse_kotlin_code() {
    let code = r#"
val appName: String = "Auditor"
fun updateStatus(status: String, code: Int): Boolean {
    return false;
}
        "#;
    let mut parser = TsParser::new();
    parser.set_language(tree_sitter_kotlin::language()).unwrap();
    let tree = parser.parse(code, None).unwrap();
    println!("KOTLIN AST: {}", tree.root_node().to_sexp());

    let symbols = parse_kotlin_code(code);
    assert_eq!(symbols.len(), 2);
    
    let func = symbols.iter().find(|s| s.kind == SymbolKind::Function).unwrap();
    assert_eq!(func.name, "updateStatus");
    assert_eq!(func.params, Some(vec![("status".to_string(), "String".to_string()), ("code".to_string(), "Int".to_string())]));
    assert_eq!(func.return_type, Some("Boolean".to_string()));
    
    let var = symbols.iter().find(|s| s.kind == SymbolKind::Variable).unwrap();
    assert_eq!(var.name, "appName");
    assert_eq!(var.var_type, Some("String".to_string()));
}

#[test]
fn parse_code_reads_the_language_name_in_any_case() {
    let code = "fn alpha(x: u8) -> u8 { x }";
    let lower = docs_auditor::parser::parse_code(code, "rust");
    let upper = docs_auditor::parser::parse_code(code, "RUST");
    let short = docs_auditor::parser::parse_code(code, "Rs");
    assert_eq!(lower.len(), 1);
    assert_eq!(lower, upper);
    assert_eq!(lower, short);
    assert_eq!(lower[0].name, "alpha");
}

#[test]
fn parse_code_of_an_unknown_language_finds_nothing() {
    assert!(docs_auditor::parser::parse_code("fn a() {}", "cobol").is_empty());
}

#[test]
fn parse_code_knows_the_script_names() {
    let code = "function f(a: string): number { return 1; }";
    assert_eq!(docs_auditor::parser::parse_code(code, "TSX").len(), 1);
    assert_eq!(docs_auditor::parser::parse_code(code, "js").len(), 1);
}

#[test]
fn used_symbols_leave_out_the_defined_name() {
    let symbols = parse_rust_code("fn outer() -> u32 { inner() }");
    let used = symbols[0].used_symbols.clone().unwrap();
    assert!(used.contains(&"inner".to_string()));
    assert!(!used.contains(&"outer".to_string()));
}

#[test]
fn parse_java_reads_methods_and_fields() {
    let code = "class A {\n    static final int LIMIT = 3;\n    int f(int x, String y) { int z = x; return z; }\n    A() {}\n}\n";
    let symbols = docs_auditor::parser::parse_code(code, "java");
    let f = symbols.iter().find(|s| s.name == "f").unwrap();
    assert_eq!(f.kind, SymbolKind::Function);
    assert_eq!(f.params, Some(vec![("x".to_string(), "int".to_string()), ("y".to_string(), "String".to_string())]));
    assert_eq!(f.return_type, Some("int".to_string()));
    assert_eq!(f.line_range, Some((3, 3)));
    let limit = symbols.iter().find(|s| s.name == "LIMIT").unwrap();
    assert_eq!(limit.kind, SymbolKind::Variable);
    assert_eq!(limit.var_type, Some("int".to_string()));
    let z = symbols.iter().find(|s| s.name == "z").unwrap();
    assert_eq!(z.kind, SymbolKind::Variable);
    let ctor = symbols.iter().find(|s| s.name == "A").unwrap();
    assert_eq!(ctor.kind, SymbolKind::Function);
    assert_eq!(ctor.return_type, None);
    assert_eq!(docs_auditor::parser::parse_java_code(code), symbols);
}

#[test]
fn every_parsed_symbol_has_the_code_shape() {
    let samples = [
        ("int total = 1, count;\nint add(int a, int b) { return a + b + total; }\n", "c"),
        ("def run(x):\n    return run(x)\nlimit = 3\n", "python"),
        ("package main\nvar a, b int\nfunc f(x int) int { y := x; return y }\n", "go"),
        ("class A { int f(int x) { return x; } int g = 2; }", "java"),
        ("const k = 1, m = k;\nfunction h(p: number): number { return p + k; }\n", "typescript"),
    ];
    for (code, lang) in samples {
        let symbols = docs_auditor::parser::parse_code(code, lang);
        assert!(!symbols.is_empty(), "{lang}");
        for s in &symbols {
            assert_eq!(s.spec_line, None);
            assert_eq!(s.dependencies, None);
            let (a, b) = s.line_range.expect("lines");
            assert!(1 <= a && a <= b && b <= 1 + code.matches('\n').count(), "{lang}: {}", s.name);
            let used = s.used_symbols.as_ref().expect("used symbols");
            assert!(!used.contains(&s.name), "{lang}: {}", s.name);
            for (i, u) in used.iter().enumerate() {
                assert!(!used[i + 1..].contains(u));
            }
            match s.kind {
                SymbolKind::Function => {
                    assert!(s.params.is_some());
                    assert_eq!(s.var_type, None);
                }
                SymbolKind::Variable => {
                    assert_eq!(s.params, None);
                    assert_eq!(s.return_type, None);
                }
            }
        }
    }
}
