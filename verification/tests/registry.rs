use numng::json::JsonValue;
use numng::package::Package;
use numng::repo::numng::{LoadedRepo, NumngRepo, RegistryFile};
use numng::repo::Repository;
use numng::semver::SemVer;
use numng::{NumngError, PackageCollection};

fn version(text: &str) -> SemVer {
    SemVer::from_string(&String::from(text)).unwrap()
}

fn text(content: &str) -> RegistryFile {
    RegistryFile::Text(String::from(content))
}

fn lookup(
    c: &mut PackageCollection,
    pattern: &str,
    content: &str,
) -> Result<Option<Package>, NumngError> {
    NumngRepo::new(String::from("/reg")).get_package(c, &String::from("p"), &version(pattern), text(content))
}

/// A registry whose files are held in memory.
struct MemoryRepo {
    repo: NumngRepo,
    files: Vec<(String, String)>,
    asked: std::cell::RefCell<Vec<String>>,
}

impl MemoryRepo {
    fn new(files: &[(&str, &str)]) -> Self {
        MemoryRepo {
            repo: NumngRepo::new(String::from("/reg")),
            files: files.iter().map(|(p, t)| (String::from(*p), String::from(*t))).collect(),
            asked: std::cell::RefCell::new(Vec::new()),
        }
    }
}

impl Repository for MemoryRepo {
    fn get_package(
        &self,
        collection: &mut PackageCollection,
        name: &String,
        version: &SemVer,
    ) -> Result<Option<Package>, NumngError> {
        let path = self.repo.package_file(name)?;
        self.asked.borrow_mut().push(path.clone());
        let file = match self.files.iter().find(|(p, _)| *p == path) {
            Some((_, content)) => RegistryFile::Text(content.clone()),
            None => RegistryFile::Missing,
        };
        self.repo.get_package(collection, name, version, file)
    }
}

#[test]
fn the_file_of_a_package_lies_in_the_registry() {
    let repo = NumngRepo::new(String::from("/reg"));
    assert_eq!(repo.package_file(&String::from("webserver")), Ok(String::from("/reg/webserver.json")));
    assert_eq!(repo.package_file(&String::from("a.b c")), Ok(String::from("/reg/a.b c.json")));
    assert_eq!(repo.base_path(), "/reg");
}

#[test]
fn names_that_lead_out_of_the_registry_are_refused() {
    let repo = NumngRepo::new(String::from("/reg"));
    for name in ["../x", "a/b", "/etc/passwd", "..", "a..b", "x/", "sub/../x"] {
        let expected = NumngError::SecurityError(format!(
            "Package-name escapes NumngRepo.base_path: {}",
            name
        ));
        assert_eq!(repo.package_file(&String::from(name)), Err(expected.clone()), "{}", name);
        let mut c = PackageCollection::new();
        assert_eq!(
            repo.get_package(&mut c, &String::from(name), &SemVer::Latest, text("{}")),
            Err(expected),
            "{}",
            name
        );
    }
    assert!(repo.package_file(&String::from(".hidden")).is_ok());
}

#[test]
fn a_missing_file_means_an_unknown_package() {
    let repo = NumngRepo::new(String::from("/reg"));
    let mut c = PackageCollection::new();
    assert_eq!(
        repo.get_package(&mut c, &String::from("p"), &SemVer::Latest, RegistryFile::Missing),
        Ok(None)
    );
}

#[test]
fn a_file_that_cannot_be_read_is_an_error() {
    let repo = NumngRepo::new(String::from("/reg"));
    let mut c = PackageCollection::new();
    assert_eq!(
        repo.get_package(
            &mut c,
            &String::from("p"),
            &SemVer::Latest,
            RegistryFile::Unreadable(String::from("permission denied"))
        ),
        Err(NumngError::IoError(String::from("permission denied")))
    );
}

#[test]
fn a_file_that_is_no_json_is_an_error() {
    let mut c = PackageCollection::new();
    assert!(matches!(lookup(&mut c, "latest", "{"), Err(NumngError::InvalidJsonError(_))));
}

#[test]
fn a_file_that_is_no_record_is_an_error() {
    let mut c = PackageCollection::new();
    assert_eq!(
        lookup(&mut c, "latest", "[]"),
        Err(NumngError::InvalidRegistryFormat(
            String::from("/reg/p.json"),
            String::from("NumngRepo package-json does not have a record as root-element"),
        ))
    );
}

#[test]
fn a_key_that_is_no_version_is_an_error() {
    let mut c = PackageCollection::new();
    assert_eq!(
        lookup(&mut c, "latest", r#"{"1.0.0": {}, "1.x": {}}"#),
        Err(NumngError::InvalidSemVer {
            semver: String::from("1.x"),
            issue: String::from("Part is not a number"),
        })
    );
}

#[test]
fn the_latest_matching_version_is_chosen() {
    let content = r#"{
        "1.2.3": {"git_ref": "v1.2.3"},
        "1.2.4": {"git_ref": "v1.2.4"},
        "1.3.0": {"git_ref": "v1.3.0"},
        "2.0.0": {"git_ref": "v2.0.0"},
        "1.2.2": {"git_ref": "v1.2.2"}
    }"#;
    let mut c = PackageCollection::new();
    let chosen = |c: &mut PackageCollection, pattern: &str| {
        lookup(c, pattern, content).unwrap().map(|p| p.git_ref.unwrap())
    };
    assert_eq!(chosen(&mut c, "latest"), Some(String::from("v2.0.0")));
    assert_eq!(chosen(&mut c, "^1.2.3"), Some(String::from("v1.3.0")));
    assert_eq!(chosen(&mut c, "~1.2.3"), Some(String::from("v1.2.4")));
    assert_eq!(chosen(&mut c, "1.2.2"), Some(String::from("v1.2.2")));
    assert_eq!(chosen(&mut c, "<1.2.3"), Some(String::from("v1.2.2")));
    assert_eq!(chosen(&mut c, ">1.3"), Some(String::from("v2.0.0")));
    assert_eq!(chosen(&mut c, "3"), None);
    assert_eq!(chosen(&mut c, "git"), None);
    assert_eq!(c.len(), 0);
}

#[test]
fn a_custom_version_is_found_by_its_name() {
    let content = r#"{"git": {"git_ref": "main"}, "1.0.0": {"git_ref": "v1"}}"#;
    let mut c = PackageCollection::new();
    assert_eq!(lookup(&mut c, "git", content).unwrap().unwrap().git_ref, Some(String::from("main")));
    assert_eq!(lookup(&mut c, "latest", content).unwrap().unwrap().git_ref, Some(String::from("v1")));
}

#[test]
fn the_fallback_record_completes_the_chosen_one() {
    let content = r#"{
        "_": {"source_uri": "https://h/p", "git_ref": "main", "depends": ["base"]},
        "1.0.0": {"git_ref": "v1.0.0"},
        "2.0.0": {"git_ref": "v2.0.0", "depends": ["extra"]}
    }"#;
    let mut c = PackageCollection::new();
    let p = lookup(&mut c, "1", content).unwrap().unwrap();
    assert_eq!(p.git_ref, Some(String::from("v1.0.0")));
    assert_eq!(p.source_uri, Some(String::from("https://h/p")));
    assert_eq!(p.depends, Some(vec![0]));
    assert_eq!(c.get_package(0), Some(&Package::new_with_name(String::from("base"))));

    let mut c = PackageCollection::new();
    let p = lookup(&mut c, "latest", content).unwrap().unwrap();
    assert_eq!(p.git_ref, Some(String::from("v2.0.0")));
    assert_eq!(p.source_uri, Some(String::from("https://h/p")));
    assert_eq!(p.depends, Some(vec![0]));
    assert_eq!(c.get_package(0), Some(&Package::new_with_name(String::from("extra"))));
    assert_eq!(c.get_package(1), Some(&Package::new_with_name(String::from("base"))));
}

#[test]
fn only_the_fallback_record_is_there() {
    let mut c = PackageCollection::new();
    let p = lookup(&mut c, "latest", r#"{"_": {"source_uri": "https://h/p"}}"#).unwrap().unwrap();
    assert_eq!(p.source_uri, Some(String::from("https://h/p")));
    assert_eq!(lookup(&mut c, "1", r#"{"_": {"source_uri": "https://h/p"}}"#), Ok(None));
}

#[test]
fn an_error_in_a_record_is_handed_on() {
    let mut c = PackageCollection::new();
    assert_eq!(
        lookup(&mut c, "1", r#"{"1.0.0": {"git_ref": 1}}"#),
        Err(NumngError::InvalidPackageFieldValue {
            package_name: None,
            field: String::from("git_ref"),
            value: Some(String::from("Number(1)")),
        })
    );
    assert!(lookup(&mut c, "1", r#"{"1.0.0": {}, "_": {"name": 7}}"#).is_err());
    assert!(lookup(&mut c, "2", r#"{"1.0.0": {"git_ref": 1}, "2.0.0": {}}"#).is_ok());
}

#[test]
fn select_package_works_on_a_document() {
    let doc = JsonValue::parse(r#"{"1.0.0": {"git_ref": "a"}, "1.1.0": {"git_ref": "b"}}"#).unwrap();
    let mut c = PackageCollection::new();
    let p = NumngRepo::select_package(&mut c, &String::from("/reg/p.json"), &version("^1"), &doc);
    assert_eq!(p.unwrap().unwrap().git_ref, Some(String::from("b")));
}

#[test]
fn a_registry_completes_the_packages() {
    let doc = JsonValue::parse(r#"{"name": "a", "source_uri": "scheme://h/a", "depends": ["b"]}"#).unwrap();
    let mut c = PackageCollection::new();
    let root = c.append_numng_package_json(&doc, None).unwrap();
    assert_eq!(c.len(), 2);
    let registry = MemoryRepo::new(&[("/reg/b.json", r#"{"1.0.0": {"source_uri": "scheme://h/b"}}"#)]);
    assert_eq!(c.apply_registry(&registry), Ok(()));
    assert_eq!(c.len(), 2);
    let b = c.get_package(0).unwrap();
    assert_eq!(b.name, Some(String::from("b")));
    assert_eq!(b.source_uri, Some(String::from("scheme://h/b")));
    let a = c.get_package(root).unwrap();
    assert_eq!(a.source_uri, Some(String::from("scheme://h/a")));
    assert_eq!(a.depends, Some(vec![0]));
    assert_eq!(
        *registry.asked.borrow(),
        vec![String::from("/reg/b.json"), String::from("/reg/a.json")]
    );
}

#[test]
fn a_registry_is_asked_for_the_version_that_is_wanted() {
    let doc = JsonValue::parse(
        r#"{"depends": [{"name": "p", "version": "~1.2.3"}, {"name": "q", "version": "9"}]}"#,
    )
    .unwrap();
    let mut c = PackageCollection::new();
    c.append_numng_package_json(&doc, None).unwrap();
    let versions = r#"{"1.2.3": {"git_ref": "a"}, "1.2.9": {"git_ref": "b"}, "1.3.0": {"git_ref": "c"}}"#;
    let registry = MemoryRepo::new(&[("/reg/p.json", versions), ("/reg/q.json", versions)]);
    assert_eq!(c.apply_registry(&registry), Ok(()));
    assert_eq!(c.get_package(0).unwrap().git_ref, Some(String::from("b")));
    assert_eq!(c.get_package(1).unwrap().git_ref, None);
    assert_eq!(registry.asked.borrow().len(), 2);
}

#[test]
fn a_package_that_ignores_registries_stays_as_it_is() {
    let doc = JsonValue::parse(
        r#"{"depends": [{"name": "p", "ignore_registry": true}, {"name": "p"}]}"#,
    )
    .unwrap();
    let mut c = PackageCollection::new();
    c.append_numng_package_json(&doc, None).unwrap();
    let before = c.get_package(0).unwrap().clone();
    let registry = MemoryRepo::new(&[(
        "/reg/p.json",
        r#"{"1.0.0": {"source_uri": "https://h/p", "build_command": "make", "allow_build_commands": true}}"#,
    )]);
    assert_eq!(c.apply_registry(&registry), Ok(()));
    assert_eq!(c.get_package(0), Some(&before));
    let filled = c.get_package(1).unwrap();
    assert_eq!(filled.source_uri, Some(String::from("https://h/p")));
    assert_eq!(filled.build_command, Some(String::from("make")));
    assert_eq!(filled.allow_build_commands, None);
}

#[test]
fn what_a_registry_record_depends_on_is_added() {
    let doc = JsonValue::parse(r#"{"name": "a", "depends": ["b"]}"#).unwrap();
    let mut c = PackageCollection::new();
    c.append_numng_package_json(&doc, None).unwrap();
    let registry = MemoryRepo::new(&[("/reg/b.json", r#"{"1.0.0": {"depends": ["c", "b"]}}"#)]);
    assert_eq!(c.apply_registry(&registry), Ok(()));
    assert_eq!(c.len(), 3);
    assert_eq!(c.get_package(2), Some(&Package::new_with_name(String::from("c"))));
    assert_eq!(c.get_package(0).unwrap().depends, Some(vec![2, 0]));
    assert!(c.handles_are_valid());
}

#[test]
fn the_first_error_of_a_registry_ends_the_work() {
    let doc = JsonValue::parse(r#"{"name": "a", "depends": ["b", "../c"]}"#).unwrap();
    let mut c = PackageCollection::new();
    c.append_numng_package_json(&doc, None).unwrap();
    let registry = MemoryRepo::new(&[("/reg/b.json", r#"{"1.0.0": {"git_ref": "x"}}"#)]);
    assert_eq!(
        c.apply_registry(&registry),
        Err(NumngError::SecurityError(String::from(
            "Package-name escapes NumngRepo.base_path: ../c"
        )))
    );
    assert_eq!(c.get_package(0).unwrap().git_ref, None);
}

#[test]
fn records_are_applied_by_place() {
    let mut c = PackageCollection::new();
    c.append_package(Package::new_with_name(String::from("a"))).unwrap();
    c.append_package(Package::new_with_name(String::from("b"))).unwrap();
    let mut record = Package::new_empty();
    record.git_ref = Some(String::from("v1"));
    c.apply_registry_packages(&vec![None, Some(record)]);
    assert_eq!(c.get_package(0).unwrap().git_ref, None);
    assert_eq!(c.get_package(1).unwrap().git_ref, Some(String::from("v1")));
    let queries = c.registry_queries();
    assert_eq!(queries[1], Some((String::from("b"), SemVer::Latest)));
    c.append_package(Package::new_empty()).unwrap();
    assert_eq!(c.registry_queries()[2], None);
}

#[test]
fn a_loaded_registry_answers_from_what_was_read() {
    let mut registry = LoadedRepo::new(NumngRepo::new(String::from("/reg")));
    registry.load(String::from("b"), text(r#"{"1.0.0": {"source_uri": "scheme://h/b"}}"#));
    registry.load(String::from("b"), text(r#"{"1.0.0": {"source_uri": "scheme://h/other"}}"#));
    registry.load(String::from("c"), RegistryFile::Unreadable(String::from("denied")));
    assert_eq!(registry.repo().base_path(), "/reg");
    assert_eq!(
        registry.file_of(&String::from("b")),
        text(r#"{"1.0.0": {"source_uri": "scheme://h/b"}}"#)
    );
    assert_eq!(registry.file_of(&String::from("a")), RegistryFile::Missing);

    let mut c = PackageCollection::new();
    let found = registry.get_package(&mut c, &String::from("b"), &SemVer::Latest).unwrap().unwrap();
    assert_eq!(found.source_uri, Some(String::from("scheme://h/b")));
    assert_eq!(registry.get_package(&mut c, &String::from("a"), &SemVer::Latest), Ok(None));
    assert_eq!(
        registry.get_package(&mut c, &String::from("c"), &SemVer::Latest),
        Err(NumngError::IoError(String::from("denied")))
    );
    assert_eq!(
        registry.get_package(&mut c, &String::from("../b"), &SemVer::Latest),
        Err(NumngError::SecurityError(String::from(
            "Package-name escapes NumngRepo.base_path: ../b"
        )))
    );
}

#[test]
fn a_loaded_registry_completes_the_packages() {
    let doc = JsonValue::parse(r#"{"name": "a", "source_uri": "scheme://h/a", "depends": ["b"]}"#).unwrap();
    let mut c = PackageCollection::new();
    c.append_numng_package_json(&doc, None).unwrap();
    let mut registry = LoadedRepo::new(NumngRepo::new(String::from("/reg")));
    registry.load(String::from("b"), text(r#"{"1.0.0": {"source_uri": "scheme://h/b"}}"#));
    assert_eq!(c.apply_registry(&registry), Ok(()));
    assert_eq!(c.len(), 2);
    assert_eq!(c.get_package(0).unwrap().source_uri, Some(String::from("scheme://h/b")));
}

#[test]
fn a_registry_is_not_asked_about_packages_without_name() {
    let mut c = PackageCollection::new();
    let mut first = Package::new_empty();
    first.git_ref = Some(String::from("v1"));
    c.append_package(first).unwrap();
    c.append_package(Package::new_empty()).unwrap();
    let before = c.clone();
    let registry = MemoryRepo::new(&[("/reg/x.json", "this is no json")]);
    assert_eq!(c.apply_registry(&registry), Ok(()));
    assert_eq!(c, before);
    assert!(registry.asked.borrow().is_empty());
    let mut empty = PackageCollection::new();
    assert_eq!(empty.apply_registry(&registry), Ok(()));
    assert_eq!(empty.len(), 0);
}

#[test]
fn a_file_that_is_no_text_is_no_json() {
    let repo = NumngRepo::new(String::from("/reg"));
    let mut c = PackageCollection::new();
    assert_eq!(
        repo.get_package(
            &mut c,
            &String::from("p"),
            &SemVer::Latest,
            RegistryFile::NotText(String::from("invalid utf-8 sequence of 1 bytes from index 0"))
        ),
        Err(NumngError::InvalidJsonError(String::from(
            "invalid utf-8 sequence of 1 bytes from index 0"
        )))
    );
    assert_eq!(c.len(), 0);
}

#[test]
fn after_an_error_of_the_registry_no_package_is_completed() {
    let doc = JsonValue::parse(r#"{"name": "a", "depends": ["b", "c"]}"#).unwrap();
    let mut c = PackageCollection::new();
    c.append_numng_package_json(&doc, None).unwrap();
    let before = c.clone();
    let registry = MemoryRepo::new(&[
        ("/reg/b.json", r#"{"1.0.0": {"git_ref": "x", "depends": ["new"]}}"#),
        ("/reg/c.json", "no json"),
    ]);
    assert!(matches!(c.apply_registry(&registry), Err(NumngError::InvalidJsonError(_))));
    for id in 0..before.len() {
        assert_eq!(c.get_package(id), before.get_package(id));
    }
    assert_eq!(c.len(), before.len() + 1);
    assert_eq!(c.get_package(3), Some(&Package::new_with_name(String::from("new"))));
}
