use c_analyzer::extract_import_summaries;
use c_analyzer::AnalysisOutcome;
use c_analyzer::AnalyzerError;
use c_analyzer::CFileAnalyzer;
use c_analyzer::FileMap;
use c_analyzer::FileState;
use c_analyzer::HeaderSummary;
use c_analyzer::Import;

/// Drives one analysis to its end against a tiny in-memory disk, answering
/// every request the walk makes; a request for a path outside the disk's
/// key set fails the test.
fn run_analysis(
    root: &str,
    search_paths: &Vec<String>,
    disk: &[(&str, FileState)],
) -> Result<Vec<HeaderSummary>, AnalyzerError> {
    let mut fs = FileMap::new();
    let mut rounds: u32 = 0;
    loop {
        rounds += 1;
        assert!(rounds < 1000, "analysis did not settle");
        match extract_import_summaries(root, search_paths, &fs) {
            AnalysisOutcome::NeedsFile(p) => {
                let state = match disk.iter().find(|e| e.0 == p) {
                    Some((_, FileState::Readable(s))) => FileState::Readable(s.clone()),
                    Some((_, FileState::Unreadable)) => FileState::Unreadable,
                    Some((_, FileState::Absent)) | None => FileState::Absent,
                };
                fs.insert(p, state);
            }
            AnalysisOutcome::Complete(summaries) => return Ok(summaries),
            AnalysisOutcome::Failed(e) => return Err(e),
        }
    }
}

fn readable(text: &str) -> FileState {
    FileState::Readable(text.to_string())
}

#[test]
fn test_acyclic_graph_one_summary_per_reachable_file() {
    // main.c -> util.h -> shared.h, with a system import left alone.
    let disk = [
        (
            "main.c",
            readable("#include <stdio.h>\n#include \"util.h\"\nint main(void);\n"),
        ),
        ("util.h", readable("#include \"shared.h\"\nint util(int x);\n")),
        ("shared.h", readable("#define MAX 100\n")),
    ];
    let summaries = run_analysis("main.c", &vec![], &disk).unwrap();
    assert_eq!(summaries.len(), 3);
    assert_eq!(summaries[0].path, "shared.h");
    assert_eq!(summaries[1].path, "util.h");
    assert_eq!(summaries[2].path, "main.c");
    assert_eq!(
        summaries[2].description,
        "Header file containing 1 functions, 0 types, and 0 macros"
    );
    assert_eq!(
        summaries[0].description,
        "Header file containing 0 functions, 0 types, and 1 macros"
    );
}

#[test]
fn test_cyclic_graph_terminates_with_one_summary_each() {
    let disk = [
        ("a.h", readable("#include \"b.h\"\nint a_fn(void);\n")),
        ("b.h", readable("#include \"a.h\"\nint b_fn(void);\n")),
    ];
    let summaries = run_analysis("a.h", &vec![], &disk).unwrap();
    assert_eq!(summaries.len(), 2);
    assert_eq!(summaries[0].path, "b.h");
    assert_eq!(summaries[1].path, "a.h");
}

#[test]
fn test_resolver_first_search_directory_wins() {
    let mut analyzer = CFileAnalyzer::new();
    analyzer.add_include_path("second".to_string());
    analyzer.add_include_path("first".to_string());
    let mut fs = FileMap::new();
    fs.insert("second/h.h".to_string(), FileState::Absent);
    fs.insert("first/h.h".to_string(), readable("int x;\n"));
    let import = Import {
        path: "h.h".to_string(),
        is_system: false,
    };
    let resolved = analyzer.resolve_import("main.c", &import, &fs);
    assert_eq!(resolved.as_deref(), Some("first/h.h"));

    // Registration order decides, not the alphabet: "second" registered
    // first shadows "first" when both hold the file.
    let mut analyzer2 = CFileAnalyzer::new();
    analyzer2.add_include_path("second".to_string());
    analyzer2.add_include_path("first".to_string());
    let mut fs2 = FileMap::new();
    fs2.insert("second/h.h".to_string(), readable("int x;\n"));
    fs2.insert("first/h.h".to_string(), readable("int x;\n"));
    let resolved2 = analyzer2.resolve_import("main.c", &import, &fs2);
    assert_eq!(resolved2.as_deref(), Some("second/h.h"));
}

#[test]
fn test_declaration_order_matches_source_order() {
    let disk = [(
        "decl.c",
        readable("int add(int a, int b);\nvoid hello(void);\n"),
    )];
    let summaries = run_analysis("decl.c", &vec![], &disk).unwrap();
    assert_eq!(summaries.len(), 1);
    assert_eq!(summaries[0].functions.len(), 2);
    assert_eq!(summaries[0].functions[0].name, "add");
    assert_eq!(summaries[0].functions[1].name, "hello");
}

#[test]
fn test_macro_records_keep_parameters_and_bodies_verbatim() {
    let mut analyzer = CFileAnalyzer::new();
    let content = "#define MAX 100\n#define SQUARE(x) ((x) * (x))\n";
    let fs = FileMap::new();
    analyzer.parse_file("m.h", content, &fs).unwrap();
    let parsed = &analyzer.parsed_files.iter().find(|e| e.0 == "m.h").unwrap().1;
    assert_eq!(parsed.macros.len(), 2);
    assert_eq!(parsed.macros[0].name, "MAX");
    assert!(parsed.macros[0].parameters.is_none());
    assert_eq!(parsed.macros[0].definition, "100");
    assert_eq!(parsed.macros[1].name, "SQUARE");
    assert_eq!(parsed.macros[1].parameters.as_deref(), Some("(x)"));
    assert_eq!(parsed.macros[1].definition, "((x) * (x))");
}

#[test]
fn test_typedef_definition_is_full_construct_text() {
    let mut analyzer = CFileAnalyzer::new();
    let content = "typedef int myint;\n";
    let fs = FileMap::new();
    analyzer.parse_file("t.h", content, &fs).unwrap();
    let parsed = &analyzer.parsed_files.iter().find(|e| e.0 == "t.h").unwrap().1;
    assert_eq!(parsed.types.len(), 1);
    assert_eq!(parsed.types[0].name, "myint");
    assert_eq!(parsed.types[0].definition, "typedef int myint;");
}

#[test]
fn test_system_include_never_traversed() {
    // The angle-bracket form must not be chased even with "inc" registered
    // as a search directory: the run completes with the root's summary
    // alone, with no dependency walked in.
    let disk = [("sys.c", readable("#include <stdio.h>\nint f(void);\n"))];
    let summaries = run_analysis("sys.c", &vec!["inc".to_string()], &disk).unwrap();
    assert_eq!(summaries.len(), 1);
    assert_eq!(summaries[0].path, "sys.c");
}

#[test]
fn test_unresolved_local_import_is_not_an_error() {
    let disk = [("lone.c", readable("#include \"gone.h\"\nint f(void);\n"))];
    let summaries = run_analysis("lone.c", &vec![], &disk).unwrap();
    assert_eq!(summaries.len(), 1);
    assert_eq!(summaries[0].path, "lone.c");
}

#[test]
fn test_rerun_is_deterministic() {
    let disk = [
        ("main.c", readable("#include \"util.h\"\nint main(void);\n")),
        ("util.h", readable("typedef int myint;\n")),
    ];
    let dirs = vec!["elsewhere".to_string()];
    let first = run_analysis("main.c", &dirs, &disk).unwrap();
    let second = run_analysis("main.c", &dirs, &disk).unwrap();
    assert_eq!(first.len(), second.len());
    for (a, b) in first.iter().zip(second.iter()) {
        assert_eq!(a.path, b.path);
        assert_eq!(a.description, b.description);
        assert_eq!(a.functions.len(), b.functions.len());
        for (fa, fb) in a.functions.iter().zip(b.functions.iter()) {
            assert_eq!(fa.name, fb.name);
            assert_eq!(fa.return_type, fb.return_type);
            assert_eq!(fa.parameters, fb.parameters);
        }
        assert_eq!(a.types.len(), b.types.len());
        assert_eq!(a.macros.len(), b.macros.len());
    }
}

#[test]
fn test_unreadable_dependency_aborts_whole_run() {
    let disk = [
        ("root.c", readable("#include \"locked.h\"\nint f(void);\n")),
        ("locked.h", FileState::Unreadable),
    ];
    let err = run_analysis("root.c", &vec![], &disk).unwrap_err();
    match err {
        AnalyzerError::IoError(p) => assert_eq!(p, "locked.h"),
        other => panic!("expected an IoError, got {:?}", other),
    }
}

#[test]
fn test_unreadable_root_aborts() {
    let disk = [("root.c", FileState::Unreadable)];
    let err = run_analysis("root.c", &vec![], &disk).unwrap_err();
    assert!(matches!(err, AnalyzerError::IoError(_)));
}

#[test]
fn test_absolute_import_path_stands_alone() {
    let mut analyzer = CFileAnalyzer::new();
    analyzer.add_include_path("ignored".to_string());
    let mut fs = FileMap::new();
    fs.insert("/abs/h.h".to_string(), readable("int x;\n"));
    let import = Import {
        path: "/abs/h.h".to_string(),
        is_system: false,
    };
    let resolved = analyzer.resolve_import("main.c", &import, &fs);
    assert_eq!(resolved.as_deref(), Some("/abs/h.h"));
}

#[test]
fn test_file_map_later_entry_shadows_earlier() {
    let mut fs = FileMap::new();
    fs.insert("x.h".to_string(), FileState::Absent);
    fs.insert("x.h".to_string(), readable("int x;\n"));
    match fs.get("x.h") {
        Some(FileState::Readable(s)) => assert_eq!(s, "int x;\n"),
        other => panic!("expected the readable entry, got {:?}", other),
    }
}

#[test]
fn test_diamond_graph_single_shared_summary() {
    // main includes both left.h and right.h, which both include base.h.
    let disk = [
        (
            "main.c",
            readable("#include \"left.h\"\n#include \"right.h\"\n"),
        ),
        ("left.h", readable("#include \"base.h\"\nint l(void);\n")),
        ("right.h", readable("#include \"base.h\"\nint r(void);\n")),
        ("base.h", readable("typedef int base_t;\n")),
    ];
    let summaries = run_analysis("main.c", &vec![], &disk).unwrap();
    assert_eq!(summaries.len(), 4);
    assert_eq!(summaries[0].path, "base.h");
    assert_eq!(summaries[1].path, "left.h");
    assert_eq!(summaries[2].path, "right.h");
    assert_eq!(summaries[3].path, "main.c");
}
