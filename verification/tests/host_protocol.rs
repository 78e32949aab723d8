use mdbook_content_loader::host::{check_host_version, classify_host_version, cli_action, CliAction, HostVersionCheck};
use mdbook_content_loader::{ContentLoader, LoadError};
use mdbook_preprocessor::book::{Book, BookItem, Chapter};

fn args(list: &[&str]) -> Vec<String> {
    list.iter().map(|s| s.to_string()).collect()
}

#[test]
fn scenario_d_supports_any_renderer() {
    assert_eq!(cli_action(&args(&["prog", "supports", "python"])), CliAction::DeclareSupport);
    assert_eq!(cli_action(&args(&["prog", "supports", "html"])), CliAction::DeclareSupport);
    assert_eq!(cli_action(&args(&["prog", "supports"])), CliAction::DeclareSupport);
}

#[test]
fn cli_version_and_default_run() {
    assert_eq!(cli_action(&args(&["prog", "--version"])), CliAction::PrintVersion);
    assert_eq!(cli_action(&args(&["prog", "-V"])), CliAction::PrintVersion);
    assert_eq!(cli_action(&args(&["prog"])), CliAction::Run);
    assert_eq!(cli_action(&args(&["prog", "other"])), CliAction::Run);
}

#[test]
fn preprocessor_identity() {
    let pre = ContentLoader::new();
    assert_eq!(pre.name(), "content-loader");
    assert!(pre.supports_renderer("html"));
    assert!(!pre.supports_renderer("python"));
    let other = ContentLoader::default();
    assert_eq!(other.name(), "content-loader");
}

#[test]
fn version_check_outcomes() {
    assert_eq!(check_host_version("0.5.1", "^0.5"), HostVersionCheck::Compatible);
    assert_eq!(check_host_version("0.4.40", "^0.5"), HostVersionCheck::Incompatible);
    assert_eq!(check_host_version("not-a-version", "^0.5"), HostVersionCheck::Invalid);
    assert_eq!(check_host_version("0.5.1", "not a requirement"), HostVersionCheck::Invalid);
    assert!(check_host_version("nope", "^0.5").is_fatal());
    assert_eq!(classify_host_version(None), HostVersionCheck::Invalid);
    assert_eq!(classify_host_version(Some(true)), HostVersionCheck::Compatible);
    assert_eq!(classify_host_version(Some(false)), HostVersionCheck::Incompatible);
    assert!(!check_host_version("0.4.40", "^0.5").is_fatal());
}

fn sample_book() -> Book {
    let mut leaf = Chapter::new("Leaf", "leaf text".to_string(), "leaf.md", vec![
        "Root".to_string(),
    ]);
    leaf.sub_items = vec![];
    let mut root = Chapter::new("Root", "root text".to_string(), "root.md", vec![]);
    root.sub_items = vec![BookItem::Chapter(leaf)];
    Book::new_with_items(vec![
        BookItem::Chapter(root),
        BookItem::Separator,
        BookItem::PartTitle("Part".to_string()),
    ])
}

#[test]
fn scenario_c_missing_index_leaves_book_unchanged() {
    let pre = ContentLoader::new();
    let book = sample_book();
    let (out, warn) = pre.run(book.clone(), Err(LoadError::NotFound), "T".to_string());
    assert_eq!(warn, Some(LoadError::NotFound));
    assert_eq!(out, book);
}

#[test]
fn run_prepends_script_to_every_chapter() {
    let pre = ContentLoader::new();
    let book = sample_book();
    let (out, warn) = pre.run(
        book,
        Ok(r#"{"entries":[{"title":"X","date":"2024-01-01"}]}"#.to_string()),
        "S".to_string(),
    );
    assert_eq!(warn, None);
    let payload = r#"{"collections":{"posts":[{"date":"2024-01-01","title":"X"}]},"entries":[{"date":"2024-01-01","title":"X"}],"generated_at":"S"}"#;
    let script = format!("<script>window.CONTENT_COLLECTIONS = {payload};</script>");
    let mut contents = Vec::new();
    for item in out.iter() {
        if let BookItem::Chapter(ch) = item {
            contents.push(ch.content.clone());
        }
    }
    assert_eq!(contents.len(), 2);
    assert_eq!(contents[0], format!("{script}\nroot text"));
    assert_eq!(contents[1], format!("{script}\nleaf text"));
}

#[test]
fn run_with_bad_json_warns_and_keeps_book() {
    let pre = ContentLoader::new();
    let book = sample_book();
    let (out, warn) = pre.run(book.clone(), Ok("{oops".to_string()), "T".to_string());
    assert_eq!(warn, Some(LoadError::ParseError));
    assert_eq!(out, book);
}

#[test]
fn clock_timestamp_shape() {
    let ts = mdbook_content_loader::clock::now_rfc3339();
    assert!(ts.len() >= 25);
    assert!(ts.contains('T'));
    assert!(ts.contains('-'));
    assert!(ts.contains(':'));
    assert!(ts.ends_with("+00:00"));
}
