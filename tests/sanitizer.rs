use manifest_sanitizer::document::{manifest_text, parse_manifest};
use manifest_sanitizer::error::SanitizeError;
use manifest_sanitizer::index::{crate_key, index_url, reframe_index_body};
use manifest_sanitizer::mode::Mode;
use manifest_sanitizer::registry::{check_requirement, registry_has_match};
use manifest_sanitizer::sanitize::{entries_to_check, sanitize, sanitize_dependency_entry};
use manifest_sanitizer::version::get_crate_version;

fn run(text: &str) -> Result<(String, Vec<(String, bool)>), SanitizeError> {
    let mut doc = parse_manifest(text)?;
    let rep = sanitize(&mut doc)?;
    let flags = rep.into_iter().map(|e| (e.name, e.removed)).collect();
    Ok((manifest_text(&doc), flags))
}

#[test]
fn end_to_end_example() {
    let input = "[dependencies]\nfoo = { version = \"1.0\", git = \"https://example.com/foo\", branch = \"main\" }\nbar = \"2.0\"\n";
    let (out, flags) = run(input).unwrap();
    assert_eq!(out, "[dependencies]\nfoo = { version = \"1.0\" }\nbar = \"2.0\"\n");
    assert_eq!(flags, vec![("foo".to_string(), true), ("bar".to_string(), false)]);
}

#[test]
fn clean_document_round_trips() {
    let input = "# a manifest\n[package]\nname = \"x\"  # trailing\n\n[dependencies]\nserde = { version = \"1\", features = [\"derive\"] }\nlog = \"0.4\"\n";
    let (out, flags) = run(input).unwrap();
    assert_eq!(out, input);
    assert!(flags.iter().all(|(_, removed)| !removed));
}

#[test]
fn second_run_changes_nothing() {
    let input = "[dependencies]\na = { path = \"../a\", version = \"0.1\" }\nb = { git = \"g\", rev = \"abc\", tag = \"t\" }\n";
    let (once, flags) = run(input).unwrap();
    assert_eq!(flags, vec![("a".to_string(), true), ("b".to_string(), true)]);
    let (twice, flags2) = run(&once).unwrap();
    assert_eq!(twice, once);
    assert_eq!(flags2, vec![("a".to_string(), false), ("b".to_string(), false)]);
}

#[test]
fn all_source_keys_removed_others_kept() {
    let input = "[dependencies]\nz = { git = \"g\", version = \"1\", tag = \"t\", features = [\"f\"], branch = \"b\", rev = \"r\", path = \"p\", optional = true }\n";
    let mut doc = parse_manifest(input).unwrap();
    assert!(sanitize_dependency_entry(&mut doc, 0));
    let table = doc["dependencies"]["z"].as_inline_table().unwrap();
    let keys: Vec<&str> = table.iter().map(|(k, _)| k).collect();
    assert_eq!(keys, vec!["version", "features", "optional"]);
    assert_eq!(table.get("version").unwrap().as_str(), Some("1"));
    assert_eq!(table.get("optional").unwrap().as_bool(), Some(true));
}

#[test]
fn scalar_and_array_entries_untouched() {
    let input = "[dependencies]\na = \"1\"\nb = [\"x\"]\nc = 3\n";
    let (out, flags) = run(input).unwrap();
    assert_eq!(out, input);
    assert_eq!(flags.len(), 3);
    assert!(flags.iter().all(|(_, removed)| !removed));
}

#[test]
fn sub_table_dependency_is_refused() {
    let input = "[dependencies]\nok = \"1\"\n\n[dependencies.foo]\nversion = \"1\"\ngit = \"g\"\n";
    assert_eq!(
        run(input).unwrap_err(),
        SanitizeError::UnsupportedEntryShape("foo".to_string())
    );
}

#[test]
fn refused_document_is_left_unchanged() {
    let input = "[dependencies]\nearly = { version = \"1\", git = \"g\" }\n\n[dependencies.late]\nversion = \"2\"\n";
    let mut doc = parse_manifest(input).unwrap();
    match sanitize(&mut doc) {
        Err(e) => assert_eq!(e, SanitizeError::UnsupportedEntryShape("late".to_string())),
        Ok(_) => panic!("a sub-table dependency must be refused"),
    }
    assert_eq!(manifest_text(&doc), input);
}

#[test]
fn array_of_tables_dependency_is_refused() {
    let input = "[dependencies]\n[[dependencies.bar]]\nversion = \"1\"\n";
    assert_eq!(
        run(input).unwrap_err(),
        SanitizeError::UnsupportedEntryShape("bar".to_string())
    );
}

#[test]
fn missing_dependencies_table() {
    let input = "[package]\nname = \"x\"\n[dev-dependencies]\na = \"1\"\n";
    assert_eq!(run(input).unwrap_err(), SanitizeError::MissingDependenciesTable);
    assert_eq!(run("").unwrap_err(), SanitizeError::MissingDependenciesTable);
    assert_eq!(run("dependencies = 3\n").unwrap_err(), SanitizeError::MissingDependenciesTable);
}

#[test]
fn malformed_document() {
    assert_eq!(run("[dependencies\nx = ").unwrap_err(), SanitizeError::ParseError);
}

#[test]
fn crate_key_shards() {
    assert_eq!(crate_key("a".to_string()).unwrap(), "1/a");
    assert_eq!(crate_key("ab".to_string()).unwrap(), "2/ab");
    assert_eq!(crate_key("abc".to_string()).unwrap(), "3/a/abc");
    assert_eq!(crate_key("abcd".to_string()).unwrap(), "ab/cd/abcd");
    assert_eq!(crate_key("serde".to_string()).unwrap(), "se/rd/serde");
    assert_eq!(crate_key(String::new()), Err(SanitizeError::InvalidCrateName));
}

#[test]
fn index_url_of_package() {
    assert_eq!(index_url("serde".to_string()).unwrap(), "https://index.crates.io/se/rd/serde");
    assert_eq!(index_url(String::new()), Err(SanitizeError::InvalidCrateName));
}

#[test]
fn reframes_line_records() {
    let body = "{\"vers\":\"1.0.0\"}\n{\"vers\":\"1.1.0\"}\n";
    assert_eq!(reframe_index_body(body), "[{\"vers\":\"1.0.0\"},\n{\"vers\":\"1.1.0\"}]");
    assert_eq!(reframe_index_body(""), "[]");
    assert_eq!(reframe_index_body("{\"vers\":\"1.0.0\"}"), "[{\"vers\":\"1.0.0\"}]");
}

#[test]
fn versions_of_entries() {
    let input = "[dependencies]\na = \"1.2\"\nb = { version = \"=0.3.1\", git = \"g\" }\nc = { path = \"p\" }\nd = true\ne = 7\n";
    let doc = parse_manifest(input).unwrap();
    assert_eq!(get_crate_version(&doc, 0).unwrap(), "1.2");
    assert_eq!(get_crate_version(&doc, 1).unwrap(), "=0.3.1");
    assert_eq!(get_crate_version(&doc, 2).unwrap(), "COULD NOT FIND VERSION");
    assert_eq!(
        get_crate_version(&doc, 3),
        Err(SanitizeError::NonVersionableEntry("d".to_string()))
    );
    assert_eq!(get_crate_version(&doc, 4).unwrap(), "7");
}

#[test]
fn non_string_version_attribute() {
    let doc = parse_manifest("[dependencies]\na = { version = 1 }\nb = { version = \"^0.2\" , git = \"g\" }\n").unwrap();
    assert_eq!(get_crate_version(&doc, 0).unwrap(), "1");
    assert_eq!(get_crate_version(&doc, 1).unwrap(), "^0.2");
}

#[test]
fn requirement_checking() {
    assert_eq!(check_requirement(&"^1.2".to_string()), Ok(()));
    assert_eq!(
        check_requirement(&"not a version".to_string()),
        Err(SanitizeError::InvalidVersionRequirement("not a version".to_string()))
    );
}

#[test]
fn registry_matching() {
    let name = "foo".to_string();
    let body = "{\"name\":\"foo\",\"vers\":\"1.0.0\"}\n{\"name\":\"foo\",\"vers\":\"bogus\"}\n{\"name\":\"foo\"}\n{\"name\":\"foo\",\"vers\":\"1.4.2\",\"yanked\":false}\n";
    assert_eq!(registry_has_match(&name, &"^1.3".to_string(), body), Ok(true));
    assert_eq!(registry_has_match(&name, &"^2".to_string(), body), Ok(false));
    assert_eq!(registry_has_match(&name, &"=1.0.0".to_string(), "{\"vers\":\"1.0.0\"}"), Ok(true));
    assert_eq!(registry_has_match(&name, &"^1".to_string(), ""), Ok(false));
    assert_eq!(
        registry_has_match(&name, &"^2".to_string(), "not json\n"),
        Err(SanitizeError::RegistryMalformedResponse("foo".to_string()))
    );
    assert_eq!(
        registry_has_match(&name, &"??".to_string(), body),
        Err(SanitizeError::InvalidVersionRequirement("??".to_string()))
    );
}

#[test]
fn mode_selection() {
    assert_eq!(Mode::default(), Mode::Off);
    assert_eq!(Mode::Off.name(), "none");
    assert_eq!(Mode::Rewritten.name(), "rewritten-only");
    assert_eq!(Mode::All.name(), "all");
    assert!(!Mode::Off.should_check(true));
    assert!(Mode::Rewritten.should_check(true));
    assert!(!Mode::Rewritten.should_check(false));
    assert!(Mode::All.should_check(false));
}

#[test]
fn entries_selected_for_checking() {
    let input = "[dependencies]\na = { git = \"g\", version = \"1\" }\nb = \"2\"\nc = { path = \"p\" }\n";
    let mut doc = parse_manifest(input).unwrap();
    let rep = sanitize(&mut doc).unwrap();
    assert_eq!(entries_to_check(&rep, Mode::Off), Vec::<usize>::new());
    assert_eq!(entries_to_check(&rep, Mode::Rewritten), vec![0, 2]);
    assert_eq!(entries_to_check(&rep, Mode::All), vec![0, 1, 2]);
}
