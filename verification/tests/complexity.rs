// Tests of the per-file analyzer, run against the real grammar engine.

use pycomplexity::calculate_complexity;
use pycomplexity::FunctionRecord;

fn analyze(source: &str) -> Vec<FunctionRecord> {
    calculate_complexity(source).expect("source should parse")
}

fn complexity_of<'a>(records: &'a [FunctionRecord], name: &str) -> &'a FunctionRecord {
    records.iter().find(|f| f.name == name).expect("function should be found")
}

#[test]
fn test_calculate_complexity_simple() {
    let source = r#"
def simple_function():
    return True

def complex_function():
    if True:
        for i in range(10):
            while i > 0:
                try:
                    with open('file.txt') as f:
                        if i % 2 == 0 and i > 5:
                            pass
                except Exception:
                    pass
"#;
    let results = analyze(source);
    assert_eq!(results.len(), 2);

    let simple = complexity_of(&results, "simple_function");
    assert_eq!(simple.complexity, 1);

    let complex = complexity_of(&results, "complex_function");
    assert_eq!(complex.complexity, 9); // 1 base + 1 if + 1 for + 1 while + 1 try + 1 with + 1 if + 1 and + 1 except
}

#[test]
fn one_straight_line_function() {
    let results = analyze("def f():\n    return True");
    assert_eq!(results.len(), 1);
    assert_eq!(results[0].name, "f");
    assert_eq!(results[0].complexity, 1);
    assert_eq!(results[0].line, 1);
    assert_eq!(results[0].file, "");
}

#[test]
fn each_construct_adds_one() {
    let cases: Vec<(&str, u64)> = vec![
        ("def g(x):\n    if x:\n        pass\n", 2),
        ("def g(x):\n    for i in x:\n        pass\n", 2),
        ("def g(x):\n    while x:\n        pass\n", 2),
        ("def g(x):\n    with x:\n        pass\n", 2),
        ("def g(x):\n    return x and x\n", 2),
        ("def g(x):\n    return x or x\n", 2),
        // try counts once and its handler clause once more
        ("def g(x):\n    try:\n        pass\n    except Exception:\n        pass\n", 3),
        // if, elif: the chain's branch points count one each
        ("def g(x):\n    if x:\n        pass\n    elif x:\n        pass\n", 3),
    ];
    for (source, expected) in cases {
        let results = analyze(source);
        assert_eq!(results.len(), 1, "one function in {:?}", source);
        assert_eq!(results[0].complexity, expected, "complexity of {:?}", source);
    }
}

#[test]
fn nested_function_counts_toward_both() {
    // The inner function's decision point lies inside the outer body's span,
    // so it counts toward the outer function as well as the inner.
    let source = "def outer(x):\n    def inner(y):\n        if y:\n            pass\n    return inner\n";
    let results = analyze(source);
    assert_eq!(results.len(), 2);
    let outer = complexity_of(&results, "outer");
    let inner = complexity_of(&results, "inner");
    assert_eq!(inner.complexity, 2);
    assert_eq!(outer.complexity, 2);
}

#[test]
fn start_lines_are_one_based() {
    let source = "\ndef a():\n    pass\n\ndef b():\n    pass\n";
    let results = analyze(source);
    assert_eq!(results.len(), 2);
    let a = complexity_of(&results, "a");
    let b = complexity_of(&results, "b");
    assert_eq!(a.line, 2);
    assert_eq!(b.line, 5);
}

#[test]
fn no_functions_no_records() {
    let results = analyze("x = 1\nprint(x)\n");
    assert_eq!(results.len(), 0);
}
