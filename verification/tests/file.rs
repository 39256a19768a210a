use objc2::file::Context;
use objc2::file::File;
use objc2::file::Library;
use objc2::file::Stmt;

fn context_with(name: &str, imports: &[&str]) -> Context {
    let mut ctx = Context::new();
    let imports: Vec<String> = imports.iter().map(|s| s.to_string()).collect();
    ctx.add_library(name.to_string(), Library::new(imports));
    ctx
}

#[test]
fn test_new_file_renders_imports() {
    let ctx = context_with("AppKit", &["Foundation", "CoreData"]);
    let file = File::new("AppKit", &ctx);
    assert_eq!(
        file.render(),
        "use crate::common::*;\nuse crate::Foundation::*;\nuse crate::CoreData::*;\n\n"
    );
}

#[test]
fn test_add_stmt_renders_in_order() {
    let ctx = context_with("Foundation", &[]);
    let mut file = File::new("Foundation", &ctx);
    file.add_stmt(Stmt::new("pub struct NSObject;".to_string()));
    file.add_stmt(Stmt::new("pub struct NSString;".to_string()));
    assert_eq!(
        file.render(),
        "use crate::common::*;\n\npub struct NSObject;\npub struct NSString;\n"
    );
}

#[test]
fn test_compare_files() {
    let ctx = context_with("Foundation", &[]);
    let mut a = File::new("Foundation", &ctx);
    let mut b = File::new("Foundation", &ctx);
    assert!(a.compare(&b));

    a.add_stmt(Stmt::new("pub struct NSObject;".to_string()));
    assert!(!a.compare(&b));

    b.add_stmt(Stmt::new("pub struct NSObject;".to_string()));
    assert!(a.compare(&b));

    a.add_stmt(Stmt::new("pub struct NSArray;".to_string()));
    b.add_stmt(Stmt::new("pub struct NSValue;".to_string()));
    assert!(!a.compare(&b));
}

#[test]
fn test_lookup_picks_the_named_library() {
    let mut ctx = Context::new();
    ctx.add_library(
        "Foundation".to_string(),
        Library::new(vec!["ObjectiveC".to_string()]),
    );
    ctx.add_library(
        "AppKit".to_string(),
        Library::new(vec!["Foundation".to_string()]),
    );
    let file = File::new("AppKit", &ctx);
    assert_eq!(
        file.render(),
        "use crate::common::*;\nuse crate::Foundation::*;\n\n"
    );
}

#[test]
fn test_stmt_compare_is_by_text() {
    let a = Stmt::new("pub fn init();".to_string());
    let b = Stmt::new("pub fn init();".to_string());
    let c = Stmt::new("pub fn dealloc();".to_string());
    assert!(a.compare(&b));
    assert!(!a.compare(&c));
    assert_eq!(a.text(), "pub fn init();");
}
