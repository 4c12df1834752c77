// Tests of the directory aggregator and the summary.

use pycomplexity::{analyze_files, summarize, AnalysisResult, SourceFile};

fn file(path: &str, text: &str) -> SourceFile {
    SourceFile { path: path.to_string(), text: text.to_string() }
}

fn run(files: Vec<SourceFile>, threshold: u64) -> AnalysisResult {
    analyze_files(&files, threshold).expect("run should succeed")
}

#[test]
fn test_analyze_directory() {
    let files = vec![
        file("simple.py", "\ndef simple():\n    return True\n"),
        file(
            "complex.py",
            "\ndef complex():\n    if True:\n        for i in range(10):\n            while i > 0:\n                try:\n                    pass\n                except:\n                    pass\n",
        ),
        file("subdir/nested.py", "\ndef nested():\n    if True and False:\n        pass\n"),
        file("venv/ignored.py", "\ndef ignored():\n    pass\n"),
    ];
    let result = run(files, 5);

    assert_eq!(result.functions.len(), 3);
    assert!(result.summary.is_some());

    let summary = result.summary.unwrap();
    assert_eq!(summary.total_functions, 3);
    assert_eq!(summary.functions_above_threshold, 1);

    // The complex function is the one above the threshold.
    let complex = result.functions.iter().find(|f| f.name == "complex").unwrap();
    assert!(complex.complexity > 5);
}

#[test]
fn empty_run_has_no_summary() {
    let result = run(vec![], 10);
    assert_eq!(result.functions.len(), 0);
    assert!(result.summary.is_none());
}

#[test]
fn excluded_and_foreign_files_are_never_analyzed() {
    let files = vec![
        file("venv/a.py", "def a():\n    pass\n"),
        file("x/__pycache__/b.py", "def b():\n    pass\n"),
        file("myvenv/lib/c.py", "def c():\n    pass\n"),
        file("notes.txt", "def d():\n    pass\n"),
        file("README.md", "def e():\n    pass\n"),
        file(".py", "def f():\n    pass\n"),
    ];
    let result = run(files, 10);
    assert_eq!(result.functions.len(), 0);
    assert!(result.summary.is_none());
}

#[test]
fn records_are_stamped_with_their_file() {
    let files = vec![
        file("a/one.py", "def one():\n    pass\n"),
        file("b/two.py", "def two():\n    pass\n"),
    ];
    let result = run(files, 10);
    assert_eq!(result.functions.len(), 2);
    let one = result.functions.iter().find(|f| f.name == "one").unwrap();
    let two = result.functions.iter().find(|f| f.name == "two").unwrap();
    assert_eq!(one.file, "a/one.py");
    assert_eq!(two.file, "b/two.py");
}

#[test]
fn summary_is_exact() {
    let files = vec![
        file("p.py", "def p():\n    pass\n"),
        file("q.py", "def q(x):\n    if x:\n        pass\n"),
        file(
            "r.py",
            "def r(x):\n    if x:\n        for i in x:\n            while i:\n                try:\n                    with x:\n                        if i and x:\n                            pass\n                except Exception:\n                    pass\n",
        ),
    ];
    let result = run(files, 5);
    let summary = result.summary.unwrap();
    assert_eq!(summary.total_functions, 3);
    assert_eq!(summary.max_complexity, 9);
    assert_eq!(summary.total_complexity, 1 + 2 + 9);
    assert_eq!(summary.functions_above_threshold, 1);
}

#[test]
fn threshold_is_strict() {
    let files = vec![file("t.py", "def t(x):\n    if x:\n        pass\n")];
    // complexity 2: not above threshold 2, above threshold 1
    let at = run(files.clone(), 2).summary.unwrap();
    assert_eq!(at.functions_above_threshold, 0);
    let above = run(files, 1).summary.unwrap();
    assert_eq!(above.functions_above_threshold, 1);
}

#[test]
fn summarize_recomputes_from_records() {
    let files = vec![
        file("a.py", "def a(x):\n    if x:\n        pass\n"),
        file("b.py", "def b():\n    pass\n"),
    ];
    let result = run(files, 1);
    let recomputed = summarize(&result.functions, 1).unwrap();
    assert_eq!(recomputed, result.summary.unwrap());
    assert!(summarize(&Vec::new(), 1).is_none());
}

#[test]
fn test_output_formats() {
    // The structured dump itself is rendering and lives outside the library;
    // its document is built here from the result by plain calls.
    let files = vec![file("test.py", "\ndef test():\n    if True:\n        pass\n")];
    let result = run(files, 1);

    let mut functions: Vec<serde_json::Value> = Vec::new();
    for f in &result.functions {
        let mut m = serde_json::Map::new();
        m.insert("name".to_string(), serde_json::Value::from(f.name.clone()));
        m.insert("file".to_string(), serde_json::Value::from(f.file.clone()));
        m.insert("line".to_string(), serde_json::Value::from(f.line));
        m.insert("complexity".to_string(), serde_json::Value::from(f.complexity));
        functions.push(serde_json::Value::Object(m));
    }
    let mut doc = serde_json::Map::new();
    doc.insert("functions".to_string(), serde_json::Value::from(functions));
    let json = serde_json::to_string_pretty(&serde_json::Value::Object(doc)).unwrap();

    assert!(json.contains("test"));
    assert!(json.contains("complexity"));
}
