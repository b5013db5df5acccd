use c_analyzer::CFileAnalyzer;
use c_analyzer::FileMap;
use c_analyzer::Import;

#[test]
fn test_new_analyzer() {
    let analyzer = CFileAnalyzer::new();
    assert!(analyzer.include_paths.is_empty());
    assert!(analyzer.parsed_files.is_empty());
    assert!(analyzer.import_graph.is_empty());
}

#[test]
fn test_add_include_path() {
    let mut analyzer = CFileAnalyzer::new();
    let include_path = String::from("/usr/include");
    analyzer.add_include_path(include_path.clone());
    assert_eq!(analyzer.include_paths.len(), 1);
    assert_eq!(analyzer.include_paths[0], include_path);
}

fn parsed_of<'a>(analyzer: &'a CFileAnalyzer, path: &str) -> &'a c_analyzer::ParsedFile {
    &analyzer.parsed_files.iter().find(|e| e.0 == path).unwrap().1
}

#[test]
fn test_extract_imports() {
    let mut analyzer = CFileAnalyzer::new();
    let content = r#"
            #include <stdio.h>
            #include "my_header.h"
        "#;
    let path = "sample.c";
    let fs = FileMap::new();
    analyzer.parse_file(path, content, &fs).unwrap();

    let parsed_file = parsed_of(&analyzer, path);
    assert_eq!(parsed_file.imports.len(), 2);
    assert_eq!(parsed_file.imports[0].path, "stdio.h");
    assert!(parsed_file.imports[0].is_system);
    assert_eq!(parsed_file.imports[1].path, "my_header.h");
    assert!(!parsed_file.imports[1].is_system);
}

#[test]
fn test_extract_functions() {
    let mut analyzer = CFileAnalyzer::new();
    let content = r#"
            int add(int a, int b);
            void say_hello(void);
        "#;
    let path = "sample.c";
    let fs = FileMap::new();
    analyzer.parse_file(path, content, &fs).unwrap();

    let parsed_file = parsed_of(&analyzer, path);
    assert_eq!(parsed_file.functions.len(), 2);
    assert_eq!(parsed_file.functions[0].name, "add");
    assert_eq!(parsed_file.functions[0].return_type, "int");
    assert_eq!(
        parsed_file.functions[0].parameters[0],
        ("int".to_string(), "a".to_string())
    );
    assert_eq!(parsed_file.functions[1].name, "say_hello");
    assert_eq!(parsed_file.functions[1].return_type, "void");
    assert_eq!(
        parsed_file.functions[1].parameters[0],
        ("void".to_string(), "".to_string())
    );
}

#[test]
fn test_extract_types() {
    let mut analyzer = CFileAnalyzer::new();
    let content = r#"
            typedef int myint;
            typedef struct MyStruct {
                int x;
                int y;
            } MyStruct;
        "#;
    let path = "sample.c";
    let fs = FileMap::new();
    analyzer.parse_file(path, content, &fs).unwrap();

    let parsed_file = parsed_of(&analyzer, path);
    assert_eq!(parsed_file.types.len(), 2);
    assert_eq!(parsed_file.types[0].name, "myint");
    assert_eq!(parsed_file.types[1].name, "MyStruct");
}

#[test]
fn test_extract_macros() {
    let mut analyzer = CFileAnalyzer::new();
    let content = r#"
        #define MAX 100
        #define SQUARE(x) ((x) * (x))
        "#;
    let path = "sample.c";
    let fs = FileMap::new();
    analyzer.parse_file(path, content, &fs).unwrap();

    let parsed_file = parsed_of(&analyzer, path);
    assert_eq!(parsed_file.macros.len(), 2);
    assert_eq!(parsed_file.macros[0].name, "MAX");
    assert_eq!(parsed_file.macros[0].definition, "100");
    assert_eq!(parsed_file.macros[1].name, "SQUARE");
    assert_eq!(parsed_file.macros[1].definition, "((x) * (x))");
}

#[test]
fn test_parse_file() {
    let mut analyzer = CFileAnalyzer::new();
    let content = r#"
            #include <stdio.h>
            typedef int myint;
            void say_hello(void);
            #define MAX 100
        "#;
    let path = "sample.c";
    let fs = FileMap::new();
    analyzer.parse_file(path, content, &fs).unwrap();

    assert!(analyzer.parsed_files.iter().any(|e| e.0 == path));
    let parsed_file = parsed_of(&analyzer, path);
    assert_eq!(parsed_file.imports.len(), 1);
    assert_eq!(parsed_file.functions.len(), 1);
    assert_eq!(parsed_file.types.len(), 1);
    assert_eq!(parsed_file.macros.len(), 1);
}

#[test]
fn test_update_import_graph() {
    let mut analyzer = CFileAnalyzer::new();
    let content = r#"
            #include "my_header.h"
        "#;
    let path = "sample.c";
    let fs = FileMap::new();
    analyzer.parse_file(path, content, &fs).unwrap();

    assert!(analyzer.import_graph.iter().any(|e| e.0 == path));
}

#[test]
fn test_resolve_import() {
    let mut analyzer = CFileAnalyzer::new();
    let include_path = String::from("/usr/local/include");
    analyzer.add_include_path(include_path.clone());

    let import = Import {
        path: "my_header.h".to_string(),
        is_system: false,
    };

    let fs = FileMap::new();
    let resolved = analyzer.resolve_import("main.c", &import, &fs);
    assert!(resolved.is_none());
}
