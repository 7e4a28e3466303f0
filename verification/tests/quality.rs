//! The structural limits of source files.

use std::error::Error;

use remap::quality::{
    analyze, analyze_source, arrange, check_file_length, inspect_source, is_rust_file,
    is_source_file, is_workspace_manifest, line_count, parse_failure, source_files, summary_text,
    violation_text, FlowEvent, FlowMetrics, FunctionOutline, Limits, Operator, Outline, Rule,
    TypeOutline, Violation,
};

const LIMITS: Limits = Limits {
    file_lines: 600,
    function_lines: 80,
    type_lines: 200,
    parameters: 8,
    complexity: 15,
    nesting: 4,
};

fn violations(source: &str) -> Result<Vec<Violation>, String> {
    analyze_source("fixture.rs", source, &LIMITS)?.ok_or_else(|| "too large".to_owned())
}

fn contains_rule(source: &str, rule: Rule) -> Result<bool, String> {
    violations(source).map(|violations| violations.iter().any(|violation| violation.rule == rule))
}

fn found(source: &str) -> Result<Vec<(Rule, usize, Option<String>, usize)>, String> {
    Ok(violations(source)?.into_iter().map(|v| (v.rule, v.line, v.symbol, v.actual)).collect())
}

fn named(name: &str) -> Option<String> {
    Some(name.to_owned())
}

#[test]
fn reports_file_limit() {
    let source = "line\n".repeat(LIMITS.file_lines + 1);
    let mut violations = Vec::new();
    check_file_length("large.rs", &source, LIMITS.file_lines, &mut violations);
    assert_eq!(violations.len(), 1);
    assert_eq!(violations[0].rule, Rule::FileLines);
}

#[test]
fn reports_parameter_limit() -> Result<(), Box<dyn Error>> {
    let source = "fn crowded(a:u8,b:u8,c:u8,d:u8,e:u8,f:u8,g:u8,h:u8,i:u8) {}";
    let violations = violations(source)?;
    assert!(violations.iter().any(|violation| violation.rule == Rule::Parameters));
    Ok(())
}

#[test]
fn counts_branching_complexity() -> Result<(), Box<dyn Error>> {
    let source = "fn branch(a: bool, b: bool) { if a && b { } else if a { } }";
    let violations = violations(source)?;
    assert!(violations.is_empty());
    Ok(())
}

#[test]
fn reports_function_line_limit() -> Result<(), Box<dyn Error>> {
    let body = "let _value = 1;\n".repeat(LIMITS.function_lines);
    let source = format!("fn long() {{\n{body}}}");
    assert!(contains_rule(&source, Rule::FunctionLines)?);
    Ok(())
}

#[test]
fn reports_type_line_limit() -> Result<(), Box<dyn Error>> {
    let spacing = "\n".repeat(LIMITS.type_lines);
    let source = format!("struct Large {{{spacing}value: u8\n}}");
    assert!(contains_rule(&source, Rule::TypeLines)?);
    Ok(())
}

#[test]
fn reports_complexity_limit() -> Result<(), Box<dyn Error>> {
    let branches = "if true {}\n".repeat(LIMITS.complexity);
    let source = format!("fn complex() {{\n{branches}}}");
    assert!(contains_rule(&source, Rule::Complexity)?);
    Ok(())
}

#[test]
fn reports_nesting_limit() -> Result<(), Box<dyn Error>> {
    let openings = "if true {\n".repeat(LIMITS.nesting + 1);
    let closings = "}\n".repeat(LIMITS.nesting + 1);
    let source = format!("fn nested() {{\n{openings}{closings}}}");
    assert!(contains_rule(&source, Rule::Nesting)?);
    Ok(())
}

#[test]
fn a_source_text_is_measured_exactly() -> Result<(), String> {
    let strict = Limits {
        file_lines: 0,
        function_lines: 0,
        type_lines: 0,
        parameters: 0,
        complexity: 0,
        nesting: 0,
    };
    let source = "struct S;\n\
        enum E { A }\n\
        trait T {\n    fn bare(&self);\n    fn given(&self) { loop {} }\n}\n\
        impl S {\n    /// A line.\n    fn own(a: u8, b: u8) {\n        \
        match a { 0 => {} 1 => {} _ => while a < b || a == 1 { for _ in 0..a {} } }\n        \
        if let 1 = b { fn inner() {} }\n    }\n}\n";
    let measured = analyze_source("a.rs", source, &strict)?.unwrap_or_default();
    let rows: Vec<(Rule, usize, &str, usize)> = measured
        .iter()
        .map(|v| (v.rule, v.line, v.symbol.as_deref().unwrap_or(""), v.actual))
        .collect();
    assert_eq!(
        rows,
        vec![
            (Rule::TypeLines, 1, "S", 1),
            (Rule::TypeLines, 2, "E", 1),
            (Rule::TypeLines, 3, "T", 4),
            (Rule::FunctionLines, 4, "bare", 1),
            (Rule::Parameters, 4, "bare", 1),
            (Rule::FunctionLines, 5, "given", 1),
            (Rule::Parameters, 5, "given", 1),
            (Rule::Complexity, 5, "given", 2),
            (Rule::Nesting, 5, "given", 1),
            (Rule::TypeLines, 7, "impl", 7),
            (Rule::FunctionLines, 8, "own", 5),
            (Rule::Parameters, 9, "own", 2),
            (Rule::Complexity, 9, "own", 8),
            (Rule::Nesting, 9, "own", 3),
            (Rule::FunctionLines, 11, "inner", 1),
            (Rule::Complexity, 11, "inner", 1),
        ]
    );
    assert!(measured.iter().all(|v| v.path == "a.rs" && v.maximum == 0));
    Ok(())
}

#[test]
fn a_limit_may_be_reached() -> Result<(), String> {
    let branches = "if true {}\n".repeat(LIMITS.complexity - 1);
    assert_eq!(found(&format!("fn f() {{\n{branches}}}"))?, vec![]);
    let both = "if true && false {}\n".repeat(LIMITS.complexity / 2 + 1);
    assert_eq!(
        found(&format!("\nfn f() {{\n{both}}}"))?,
        vec![(Rule::Complexity, 2, named("f"), 17)]
    );
    let neither = "let _ = 1 + 2 & 3;\n".repeat(LIMITS.complexity + 1);
    assert_eq!(found(&format!("fn f() {{\n{neither}}}"))?, vec![]);
    let depth = LIMITS.nesting;
    let nested = format!("fn f() {{\n{}{}}}", "loop {\n".repeat(depth), "}\n".repeat(depth));
    assert_eq!(found(&nested)?, vec![]);
    Ok(())
}

#[test]
fn a_text_that_is_no_source_text_is_refused_with_its_place() {
    let failure = |source: &str| analyze_source("a/b.rs", source, &LIMITS).err();
    assert_eq!(
        failure("fn f() {}\n  struct 1;"),
        Some("cannot parse a/b.rs at 2:10: expected identifier".to_owned())
    );
    assert!(failure("fn f( {").is_some_and(|e| e.starts_with("cannot parse a/b.rs at ")));
    assert_eq!(failure(""), None);
}

#[test]
fn only_rust_files_are_read_as_rust() -> Result<(), String> {
    let short = Limits { file_lines: 1, parameters: 0, ..LIMITS };
    let rules = |path: &str, source: &str| -> Result<Vec<Rule>, String> {
        let found = inspect_source(path, source, &short)?.unwrap_or_default();
        Ok(found.iter().map(|v| v.rule).collect())
    };
    assert_eq!(rules("a.rs", "fn f(a: u8) {\n}")?, vec![Rule::FileLines, Rule::Parameters]);
    assert_eq!(rules("a.rs", "fn f(a: u8) {}")?, vec![Rule::Parameters]);
    assert_eq!(rules("a.py", "fn f(a: u8) {\n}")?, vec![Rule::FileLines]);
    assert_eq!(rules("a.py", "def f(a): pass")?, vec![]);
    assert!(rules("a.rs", "def f(a): pass\n").is_err());
    Ok(())
}

#[test]
fn outlines_are_held_to_the_limits() {
    let body = vec![
        FlowEvent::Branch,
        FlowEvent::Binary(Operator::And),
        FlowEvent::Branch,
        FlowEvent::Binary(Operator::Other),
        FlowEvent::Leave,
        FlowEvent::Leave,
    ];
    let m = FlowMetrics::measure(&body);
    assert_eq!(m.map(|m| (m.complexity, m.maximum_nesting)), Some((4, 2)));
    let outlines = vec![
        Outline::Function(FunctionOutline {
            name: "f".to_owned(),
            first_line: 1,
            last_line: 90,
            signature_line: 2,
            parameters: 9,
            body: Some(body),
        }),
        Outline::Type(TypeOutline { name: None, first_line: 100, last_line: 300 }),
    ];
    let found = analyze("a.rs", &outlines, &LIMITS).unwrap_or_default();
    let rows: Vec<(Rule, usize, Option<String>)> =
        found.into_iter().map(|v| (v.rule, v.line, v.symbol)).collect();
    assert_eq!(
        rows,
        vec![
            (Rule::FunctionLines, 1, named("f")),
            (Rule::Parameters, 2, named("f")),
            (Rule::TypeLines, 100, named("impl")),
        ]
    );
    let endless = Outline::Type(TypeOutline { name: None, first_line: 0, last_line: usize::MAX });
    assert!(analyze("a.rs", &vec![endless], &LIMITS).is_none());
}

#[test]
fn choices_count_all_arms_but_one() {
    let measure = |e: Vec<FlowEvent>| FlowMetrics::measure(&e).map(|m| m.complexity);
    assert_eq!(measure(vec![FlowEvent::Choice(4), FlowEvent::Leave]), Some(4));
    assert_eq!(measure(vec![FlowEvent::Choice(0), FlowEvent::Leave, FlowEvent::LetTest]), Some(2));
    assert_eq!(measure(vec![FlowEvent::Choice(usize::MAX), FlowEvent::LetTest]), None);
}

#[test]
fn lines_are_counted_as_they_are_read() {
    for s in ["", "a", "a\n", "a\n\n", "\n", "a\r\nb", "a\nb"] {
        assert_eq!(line_count(s), s.lines().count());
    }
}

#[test]
fn source_files_are_told_by_their_extension() {
    assert!(is_source_file("a/b.rs"));
    assert!(is_source_file("a/b.c.tsx"));
    assert!(!is_source_file("a/.rs"));
    assert!(!is_source_file("a/b.md"));
    assert!(!is_source_file("a/rs"));
    assert!(is_rust_file("x.rs") && !is_rust_file("x.py"));
    let found = ["a-b/c.rs", "a/b.rs", "a/b.txt"].map(str::to_owned).to_vec();
    assert_eq!(source_files(&found), vec!["a/b.rs", "a-b/c.rs"]);
    assert!(is_workspace_manifest("[package]\n \u{a0}[workspace]\t\r\n"));
    assert!(!is_workspace_manifest("[workspace.dependencies]\n"));
}

#[test]
fn violations_are_reported_in_order() {
    let violation = |path: &str, line, rule| Violation {
        rule,
        path: path.to_owned(),
        line,
        symbol: None,
        actual: 2,
        maximum: 1,
    };
    let sorted = arrange(vec![
        violation("a-b", 1, Rule::FileLines),
        violation("a/b", 9, Rule::Nesting),
        violation("a/b", 9, Rule::Complexity),
        violation("a/b", 2, Rule::Nesting),
    ]);
    let keys: Vec<(String, usize, Rule)> =
        sorted.into_iter().map(|v| (v.path, v.line, v.rule)).collect();
    assert_eq!(
        keys,
        vec![
            ("a/b".to_owned(), 2, Rule::Nesting),
            ("a/b".to_owned(), 9, Rule::Complexity),
            ("a/b".to_owned(), 9, Rule::Nesting),
            ("a-b".to_owned(), 1, Rule::FileLines),
        ]
    );
}

#[test]
fn violations_are_written_on_one_line() {
    let v = Violation {
        rule: Rule::Parameters,
        path: "a/b.rs".to_owned(),
        line: 3,
        symbol: Some("f".to_owned()),
        actual: 9,
        maximum: 8,
    };
    assert_eq!(
        violation_text(&v, "parameters", "too many parameters"),
        "a/b.rs:3: error[parameters]: too many parameters 'f' (9; maximum 8)"
    );
    assert_eq!(summary_text(2), "Portal quality: 2 structural violation(s)");
    assert_eq!(parse_failure("a.rs", 2, 0, "bad"), "cannot parse a.rs at 2:1: bad");
    assert_eq!(
        parse_failure("a.rs", 2, u64::MAX as usize, "bad"),
        "cannot parse a.rs at 2:18446744073709551616: bad"
    );
}
