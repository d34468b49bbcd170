use lox::flang::{detect_fortran_dependencies, file_stem, find_main_program_file,
    find_module_file, get_compilation_order, inc_keyword, is_fortran_file, visit, SourceFile};

fn src(name: &str, content: &str) -> SourceFile {
    SourceFile { name: name.to_string(), content: content.to_string() }
}

#[test]
fn fortran_extensions_recognised() {
    assert!(is_fortran_file("a.f90"));
    assert!(is_fortran_file("a.f"));
    assert!(is_fortran_file("a.F90"));
    assert!(is_fortran_file("a.F"));
    assert!(!is_fortran_file("a.c"));
    assert!(!is_fortran_file("f90"));
    assert!(!is_fortran_file(".f90"));
    assert!(!is_fortran_file("a.f95"));
}

#[test]
fn file_stem_drops_last_extension() {
    assert_eq!(file_stem("main.f90"), "main");
    assert_eq!(file_stem("a.b.f90"), "a.b");
    assert_eq!(file_stem("noext"), "noext");
    assert_eq!(file_stem(".hidden"), ".hidden");
}

#[test]
fn main_program_file_is_first_with_program_line() {
    let sources = vec![
        src("one.f90", "module one\nend module\n"),
        src("two.f90", "PROGRAM two\nend program\n"),
        src("three.f90", "program three\nend program\n"),
    ];
    assert_eq!(find_main_program_file(&sources), Some(1));
}

#[test]
fn main_program_keyword_needs_line_start() {
    let sources = vec![src("a.f90", "! the program keyword in a comment only\n")];
    assert_eq!(find_main_program_file(&sources), None);
}

#[test]
fn module_lookup_finds_defining_file() {
    let sources = vec![
        src("a.f90", "Module Alpha\nend module\n"),
        src("b.f90", "use alpha\nprogram b\nend\n"),
    ];
    assert_eq!(find_module_file("alpha", &sources), Some("a.f90".to_string()));
    assert_eq!(find_module_file("beta", &sources), None);
}

#[test]
fn dependencies_from_use_statements() {
    let sources = vec![
        src("a.f90", "module alpha\nend module\n"),
        src("b.f90", "  use alpha\nprogram b\nend\n"),
    ];
    let deps = detect_fortran_dependencies(&sources);
    assert_eq!(deps.len(), 2);
    assert_eq!(deps[0].0, "a.f90");
    assert!(deps[0].1.is_empty());
    assert_eq!(deps[1].0, "b.f90");
    assert_eq!(deps[1].1, vec!["a.f90".to_string()]);
}

#[test]
fn dependencies_from_file_inclusion_statements() {
    let kw = inc_keyword();
    let content = format!("{}'common.h'\n{}\"other.h\"\n", kw, kw);
    let sources = vec![src("m.f90", &content)];
    let deps = detect_fortran_dependencies(&sources);
    assert_eq!(deps[0].1, vec!["common.h".to_string(), "other.h".to_string()]);
}

#[test]
fn used_module_file_precedes_user_in_order() {
    // module alpha lives in a.f90; b.f90 uses it: a.f90 must come first
    let sources = vec![
        src("b.f90", "use alpha\nprogram b\nend\n"),
        src("a.f90", "module alpha\nend module\n"),
    ];
    let deps = detect_fortran_dependencies(&sources);
    let order = get_compilation_order(&deps);
    let pos_a = order.iter().position(|f| f == "a.f90").unwrap();
    let pos_b = order.iter().position(|f| f == "b.f90").unwrap();
    assert!(pos_a < pos_b);
    assert_eq!(order.len(), 2);
}

#[test]
fn chain_of_uses_orders_transitively() {
    let sources = vec![
        src("c.f90", "use bravo\nprogram c\nend\n"),
        src("b.f90", "module bravo\nuse alpha\nend module\n"),
        src("a.f90", "module alpha\nend module\n"),
    ];
    let deps = detect_fortran_dependencies(&sources);
    let order = get_compilation_order(&deps);
    assert_eq!(
        order,
        vec!["a.f90".to_string(), "b.f90".to_string(), "c.f90".to_string()]
    );
}

#[test]
fn cyclic_uses_still_terminate_with_each_file_once() {
    let sources = vec![
        src("a.f90", "module alpha\nuse bravo\nend module\n"),
        src("b.f90", "module bravo\nuse alpha\nend module\n"),
    ];
    let deps = detect_fortran_dependencies(&sources);
    let order = get_compilation_order(&deps);
    assert_eq!(order.len(), 2);
    assert!(order.contains(&"a.f90".to_string()));
    assert!(order.contains(&"b.f90".to_string()));
}

#[test]
fn visit_pushes_dependencies_before_the_file() {
    let deps = vec![
        ("b.f90".to_string(), vec!["a.f90".to_string()]),
        ("a.f90".to_string(), Vec::new()),
    ];
    let mut visited: Vec<String> = Vec::new();
    let mut order: Vec<String> = Vec::new();
    visit(&"b.f90".to_string(), &deps, &mut visited, &mut order);
    assert_eq!(order, vec!["a.f90".to_string(), "b.f90".to_string()]);
    assert!(visited.contains(&"a.f90".to_string()));
    assert!(visited.contains(&"b.f90".to_string()));
}

#[test]
fn inclusion_path_enters_the_order() {
    let kw = inc_keyword();
    let sources = vec![src("m.f90", &format!("program m\n{}'defs.h'\nend\n", kw))];
    let deps = detect_fortran_dependencies(&sources);
    let order = get_compilation_order(&deps);
    assert_eq!(order, vec!["defs.h".to_string(), "m.f90".to_string()]);
}
