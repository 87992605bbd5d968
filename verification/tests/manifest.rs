use numng::json::{JsonData, JsonValue};
use numng::package::{Package, SourceType};
use numng::package_format::numng::{
    append_numng_package, parse_numng_package, parse_repos_from_package,
};
use numng::package_format::PackageFormat;
use numng::semver::{SemVer, SemVerOperator};
use numng::{parse_numng_json, NumngError, PackageCollection};

fn json(text: &str) -> JsonValue {
    JsonValue::parse(text).unwrap()
}

fn parse(text: &str) -> (PackageCollection, Result<Package, NumngError>) {
    let mut c = PackageCollection::new();
    let r = parse_numng_package(&mut c, &json(text), None);
    (c, r)
}

fn field_error(name: Option<&str>, field: &str, value: &str) -> NumngError {
    NumngError::InvalidPackageFieldValue {
        package_name: name.map(String::from),
        field: String::from(field),
        value: Some(String::from(value)),
    }
}

fn node(shown: &str, data: JsonData) -> JsonValue {
    JsonValue { shown: String::from(shown), data }
}

#[test]
fn json_text_is_read_by_serde_json() {
    assert_eq!(json("null"), node("Null", JsonData::Null));
    assert_eq!(json(" true "), node("Bool(true)", JsonData::Bool(true)));
    assert_eq!(json("12"), node("Number(12)", JsonData::Number));
    assert_eq!(
        json("\"a\\nb\""),
        node("String(\"a\\nb\")", JsonData::String(String::from("a\nb")))
    );
    assert_eq!(
        json("[1, \"x\", []]"),
        node(
            "Array [Number(1), String(\"x\"), Array []]",
            JsonData::Array(vec![
                node("Number(1)", JsonData::Number),
                node("String(\"x\")", JsonData::String(String::from("x"))),
                node("Array []", JsonData::Array(vec![])),
            ])
        )
    );
    assert_eq!(
        json("{\"b\": {\"c\": false}, \"a\": null}"),
        node(
            "Object {\"a\": Null, \"b\": Object {\"c\": Bool(false)}}",
            JsonData::Object(vec![
                (String::from("a"), node("Null", JsonData::Null)),
                (
                    String::from("b"),
                    node(
                        "Object {\"c\": Bool(false)}",
                        JsonData::Object(vec![(
                            String::from("c"),
                            node("Bool(false)", JsonData::Bool(false))
                        )])
                    )
                ),
            ])
        )
    );
}

#[test]
fn text_that_is_no_json_is_an_error() {
    for text in ["", "{", "[1,]", "{\"a\" 1}", "nul", "{\"a\": 1} x"] {
        assert!(matches!(JsonValue::parse(text), Err(NumngError::InvalidJsonError(_))), "{}", text);
    }
    match JsonValue::parse("{") {
        Err(NumngError::InvalidJsonError(message)) => {
            assert_eq!(message, "EOF while parsing an object at line 1 column 1")
        }
        other => panic!("{:?}", other),
    }
}

#[test]
fn json_is_shown_as_serde_json_shows_it() {
    assert_eq!(json("null").shown, "Null");
    assert_eq!(json("true").shown, "Bool(true)");
    assert_eq!(json("12").shown, "Number(12)");
    assert_eq!(json("-1.5").shown, "Number(-1.5)");
    assert_eq!(json("\"a\\\"b\"").shown, "String(\"a\\\"b\")");
    assert_eq!(json("[1, \"x\"]").shown, "Array [Number(1), String(\"x\")]");
    assert_eq!(json("{\"k\": [null]}").shown, "Object {\"k\": Array [Null]}");
}

#[test]
fn members_are_found_by_key() {
    let doc = json("{\"a\": 1, \"b\": \"x\"}");
    assert_eq!(doc.get("b"), Some(&json("\"x\"")));
    assert_eq!(doc.get("c"), None);
    assert_eq!(json("[1]").get("a"), None);
    assert_eq!(json("\"a\"").get("a"), None);
    let twice = node(
        "twice",
        JsonData::Object(vec![
            (String::from("k"), node("first", JsonData::Bool(true))),
            (String::from("k"), node("second", JsonData::Bool(false))),
        ]),
    );
    assert_eq!(twice.get("k"), Some(&node("first", JsonData::Bool(true))));
}

#[test]
fn a_document_written_by_hand_is_read_like_one_from_text() {
    let doc = node(
        "the package",
        JsonData::Object(vec![
            (String::from("name"), node("its name", JsonData::String(String::from("p")))),
            (String::from("git_ref"), node("a number", JsonData::Number)),
        ]),
    );
    let mut c = PackageCollection::new();
    assert_eq!(
        parse_numng_package(&mut c, &doc, None),
        Err(field_error(Some("p"), "git_ref", "a number"))
    );
}

#[test]
fn an_empty_record_is_an_empty_package() {
    let (c, r) = parse("{}");
    assert_eq!(r, Ok(Package::new_empty()));
    assert_eq!(c.len(), 0);
    let (_, r) = parse("\"not a record\"");
    assert_eq!(r, Ok(Package::new_empty()));
}

#[test]
fn every_field_is_read() {
    let (c, r) = parse(
        r#"{
            "name": "p",
            "source_type": "git",
            "source_uri": "https://h/p",
            "git_ref": "v1",
            "path_offset": "sub",
            "package_format": "Numng",
            "ignore_registry": true,
            "allow_build_commands": true,
            "version": "^1.2",
            "depends": ["d"],
            "linkin": {"lib:src": {"name": "l"}},
            "nu_plugins": ["nu_plugin_a", "nu_plugin_b"],
            "nu_libs": {"x": "x.nu", "a": "a.nu"},
            "bin": {"tool": "bin/tool"},
            "build_command": "make",
            "shell_config": {"use": "one.nu", "source": ["a.nu", "b.nu"]}
        }"#,
    );
    let mut linked = Package::new_with_name(String::from("l"));
    linked.allow_build_commands = None;
    assert_eq!(c.get_package(0), Some(&linked));
    assert_eq!(c.get_package(1), Some(&Package::new_with_name(String::from("d"))));
    assert_eq!(c.get_package(2), None);
    assert_eq!(
        r,
        Ok(Package {
            name: Some(String::from("p")),
            linkin: Some(vec![(String::from("lib:src"), 0)]),
            path_offset: Some(String::from("sub")),
            depends: Some(vec![1]),
            package_format: Some(PackageFormat::Numng),
            ignore_registry: Some(true),
            version: Some(SemVer::Normal {
                major: 1,
                minor: Some(2),
                patch: None,
                operator: SemVerOperator::Compatible,
            }),
            nu_plugins: Some(vec![String::from("nu_plugin_a"), String::from("nu_plugin_b")]),
            nu_libs: Some(vec![
                (String::from("a"), String::from("a.nu")),
                (String::from("x"), String::from("x.nu")),
            ]),
            shell_config: Some(vec![
                (String::from("source"), vec![String::from("a.nu"), String::from("b.nu")]),
                (String::from("use"), vec![String::from("one.nu")]),
            ]),
            bin: Some(vec![(String::from("tool"), String::from("bin/tool"))]),
            build_command: Some(String::from("make")),
            allow_build_commands: Some(true),
            source_type: Some(SourceType::Git),
            source_uri: Some(String::from("https://h/p")),
            git_ref: Some(String::from("v1")),
        })
    );
}

#[test]
fn depends_takes_a_name_a_record_or_a_list() {
    let (c, r) = parse(r#"{"depends": "b"}"#);
    assert_eq!(r.unwrap().depends, Some(vec![0]));
    assert_eq!(c.get_package(0), Some(&Package::new_with_name(String::from("b"))));

    let (c, r) = parse(r#"{"depends": {"name": "b", "git_ref": "dev"}}"#);
    assert_eq!(r.unwrap().depends, Some(vec![0]));
    assert_eq!(c.get_package(0).unwrap().git_ref, Some(String::from("dev")));

    let (c, r) = parse(r#"{"depends": ["a", {"name": "b", "depends": ["c"]}, "c", "a"]}"#);
    assert_eq!(r.unwrap().depends, Some(vec![0, 2, 1, 0]));
    assert_eq!(c.len(), 3);
    assert_eq!(c.get_package(1), Some(&Package::new_with_name(String::from("c"))));
    assert_eq!(c.get_package(2).unwrap().depends, Some(vec![1]));

    let (c, r) = parse(r#"{"depends": []}"#);
    assert_eq!(r.unwrap().depends, Some(vec![]));
    assert_eq!(c.len(), 0);
}

#[test]
fn linkin_maps_places_to_packages() {
    let (c, r) = parse(r#"{"name": "p", "linkin": {"b": {"name": "y"}, "a:src": {"name": "x"}}}"#);
    assert_eq!(
        r.unwrap().linkin,
        Some(vec![(String::from("a:src"), 0), (String::from("b"), 1)])
    );
    assert_eq!(c.get_package(0).unwrap().name, Some(String::from("x")));
    assert_eq!(c.get_package(1).unwrap().name, Some(String::from("y")));
}

#[test]
fn linkin_is_read_before_depends() {
    let (c, r) = parse(r#"{"depends": ["d"], "linkin": {"l": {"name": "l"}}}"#);
    let p = r.unwrap();
    assert_eq!(p.linkin, Some(vec![(String::from("l"), 0)]));
    assert_eq!(p.depends, Some(vec![1]));
    assert_eq!(c.get_package(1).unwrap().name, Some(String::from("d")));
}

#[test]
fn equal_packages_share_one_handle() {
    let mut c = PackageCollection::new();
    let first = c.append_package(Package::new_with_name(String::from("a"))).unwrap();
    let other = c.append_package(Package::new_with_name(String::from("b"))).unwrap();
    let again = c.append_package(Package::new_with_name(String::from("a"))).unwrap();
    assert_eq!((first, other, again), (0, 1, 0));
    assert_eq!(c.len(), 2);
    let mut different = Package::new_with_name(String::from("a"));
    different.git_ref = Some(String::from("dev"));
    assert_eq!(c.append_package(different), Ok(2));
    assert_eq!(c.len(), 3);
}

#[test]
fn a_document_read_twice_gives_the_same_handle() {
    let mut c = PackageCollection::new();
    let doc = json(r#"{"name": "a", "depends": ["b", {"name": "c"}]}"#);
    let first = c.append_numng_package_json(&doc, None).unwrap();
    let len = c.len();
    let again = append_numng_package(&mut c, &doc, None).unwrap();
    assert_eq!(first, again);
    assert_eq!(c.len(), len);
    assert_eq!(first, 2);
}

#[test]
fn wrong_kinds_of_text_fields_are_errors() {
    for field in ["name", "git_ref", "source_uri", "path_offset", "build_command", "version", "package_format"] {
        let (_, r) = parse(&format!("{{\"{}\": 1}}", field));
        assert_eq!(r, Err(field_error(None, field, "Number(1)")), "{}", field);
    }
    let (_, r) = parse(r#"{"name": "p", "git_ref": ["x"]}"#);
    assert_eq!(r, Err(field_error(Some("p"), "git_ref", "Array [String(\"x\")]")));
    let (_, r) = parse(r#"{"name": null}"#);
    assert_eq!(r, Err(field_error(None, "name", "Null")));
}

#[test]
fn wrong_kinds_of_flags_are_errors() {
    let (_, r) = parse(r#"{"name": "p", "ignore_registry": "yes"}"#);
    assert_eq!(r, Err(field_error(Some("p"), "ignore_registry", "Some(String(\"yes\"))")));
    let (_, r) = parse(r#"{"allow_build_commands": 0}"#);
    assert_eq!(r, Err(field_error(None, "allow_build_commands", "Some(Number(0))")));
}

#[test]
fn only_git_is_a_source_type() {
    let (_, r) = parse(r#"{"source_type": "git"}"#);
    assert_eq!(r.unwrap().source_type, Some(SourceType::Git));
    let (_, r) = parse(r#"{"name": "p", "source_type": "hg"}"#);
    assert_eq!(r, Err(field_error(Some("p"), "source_type", "Some(String(\"hg\"))")));
    let (_, r) = parse(r#"{"source_type": true}"#);
    assert_eq!(r, Err(field_error(None, "source_type", "Some(Bool(true))")));
}

#[test]
fn wrong_package_formats_and_versions_are_errors() {
    let (_, r) = parse(r#"{"name": "p", "package_format": "Zip"}"#);
    assert_eq!(r, Err(field_error(Some("p"), "package_format", "zip")));
    let (_, r) = parse(r#"{"name": "p", "version": "1.2.3.4"}"#);
    assert_eq!(
        r,
        Err(NumngError::InvalidSemVer {
            semver: String::from("1.2.3.4"),
            issue: String::from("More than 2 dots found"),
        })
    );
}

#[test]
fn wrong_depends_are_errors() {
    let (_, r) = parse(r#"{"name": "p", "depends": 1}"#);
    assert_eq!(r, Err(field_error(Some("p"), "depends", "Some(Number(1))")));
    let (c, r) = parse(r#"{"name": "p", "depends": ["a", 2, "b"]}"#);
    assert_eq!(r, Err(field_error(Some("p"), "depends", "Number(2)")));
    assert_eq!(c.len(), 1);
    let (_, r) = parse(r#"{"name": "p", "depends": [{"name": 1}]}"#);
    assert_eq!(r, Err(field_error(None, "name", "Number(1)")));
}

#[test]
fn wrong_linkin_is_an_error() {
    let (_, r) = parse(r#"{"name": "p", "linkin": ["a"]}"#);
    assert_eq!(r, Err(field_error(Some("p"), "linkin", "Array [String(\"a\")]")));
    let (_, r) = parse(r#"{"name": "p", "linkin": {"lib": "name"}}"#);
    assert_eq!(r, Err(field_error(Some("p"), "linkin (lib)", "Value not a record (package)")));
}

#[test]
fn wrong_lists_and_maps_are_errors() {
    let (_, r) = parse(r#"{"name": "p", "nu_plugins": "x"}"#);
    assert_eq!(r, Err(field_error(Some("p"), "nu_plugins", "Some(String(\"x\"))")));
    let (_, r) = parse(r#"{"name": "p", "nu_plugins": ["x", 1]}"#);
    assert_eq!(r, Err(field_error(Some("p"), "nu_plugins", "Number(1)")));
    let (_, r) = parse(r#"{"name": "p", "nu_libs": []}"#);
    assert_eq!(r, Err(field_error(Some("p"), "nu_libs", "Some(Array [])")));
    let (_, r) = parse(r#"{"name": "p", "bin": {"a": "x", "b": false}}"#);
    assert_eq!(r, Err(field_error(Some("p"), "bin", "Bool(false)")));
}

#[test]
fn shell_config_has_four_kinds() {
    let (_, r) = parse(
        r#"{"shell_config": {"source": "a", "use": ["b"], "use_all": [], "source_env": "c"}}"#,
    );
    assert_eq!(
        r.unwrap().shell_config,
        Some(vec![
            (String::from("source"), vec![String::from("a")]),
            (String::from("source_env"), vec![String::from("c")]),
            (String::from("use"), vec![String::from("b")]),
            (String::from("use_all"), vec![]),
        ])
    );
    let (_, r) = parse(r#"{"name": "p", "shell_config": {"use": "b", "run": "x"}}"#);
    assert_eq!(r, Err(field_error(Some("p"), "shell_config", "invalid key")));
    let (_, r) = parse(r#"{"name": "p", "shell_config": {"use": 1, "zzz": "x"}}"#);
    assert_eq!(r, Err(field_error(Some("p"), "shell_config", "invalid key")));
    let (_, r) = parse(r#"{"name": "p", "shell_config": {"use": 1}}"#);
    assert_eq!(r, Err(field_error(Some("p"), "shell_config", "Number(1)")));
    let (_, r) = parse(r#"{"name": "p", "shell_config": {"use": ["a", null]}}"#);
    assert_eq!(r, Err(field_error(Some("p"), "shell_config", "Null")));
    let (_, r) = parse(r#"{"name": "p", "shell_config": "use"}"#);
    assert_eq!(r, Err(field_error(Some("p"), "shell_config", "Some(String(\"use\"))")));
}

#[test]
fn the_first_wrong_field_decides_the_error() {
    let (c, r) = parse(r#"{"name": "p", "version": "x.1", "depends": ["d"], "git_ref": 1}"#);
    assert_eq!(r, Err(field_error(Some("p"), "git_ref", "Number(1)")));
    assert_eq!(c.len(), 0);
    let (c, r) = parse(r#"{"name": "p", "version": "x.1", "depends": ["d"], "bin": 1}"#);
    assert_eq!(
        r,
        Err(NumngError::InvalidSemVer {
            semver: String::from("x.1"),
            issue: String::from("Part is not a number"),
        })
    );
    assert_eq!(c.len(), 1);
}

#[test]
fn forbidden_build_commands_are_inherited() {
    let doc = json(
        r#"{
            "name": "root",
            "allow_build_commands": false,
            "depends": [
                "plain",
                {"name": "child", "allow_build_commands": true, "depends": [
                    {"name": "grandchild", "allow_build_commands": true, "build_command": "make"}
                ]}
            ],
            "linkin": {"x": {"name": "linked", "allow_build_commands": true}}
        }"#,
    );
    let mut c = PackageCollection::new();
    let root = c.append_numng_package_json(&doc, None).unwrap();
    assert_eq!(c.len(), 5);
    for id in 0..c.len() {
        assert_eq!(c.get_package(id).unwrap().allow_build_commands, Some(false), "{}", id);
    }
    assert_eq!(c.get_package(root).unwrap().name, Some(String::from("root")));
}

#[test]
fn a_caller_can_forbid_build_commands() {
    let doc = json(r#"{"name": "root", "allow_build_commands": true, "depends": ["a", {"name": "b"}]}"#);
    let mut c = PackageCollection::new();
    c.append_numng_package_json(&doc, Some(false)).unwrap();
    for id in 0..c.len() {
        assert_eq!(c.get_package(id).unwrap().allow_build_commands, Some(false));
    }
}

#[test]
fn unset_stays_unset_where_nothing_is_forbidden() {
    let doc = json(r#"{"name": "root", "allow_build_commands": true, "depends": ["a", {"name": "b"}]}"#);
    let mut c = PackageCollection::new();
    let root = c.append_numng_package_json(&doc, Some(true)).unwrap();
    assert_eq!(c.get_package(root).unwrap().allow_build_commands, Some(true));
    assert_eq!(c.get_package(0).unwrap().allow_build_commands, None);
    assert_eq!(c.get_package(1).unwrap().allow_build_commands, None);
}

#[test]
fn a_false_below_does_not_reach_up() {
    let doc = json(
        r#"{"name": "root", "depends": [{"name": "a", "allow_build_commands": false, "depends": ["b"]}, "c"]}"#,
    );
    let mut c = PackageCollection::new();
    let root = c.append_numng_package_json(&doc, None).unwrap();
    assert_eq!(c.get_package(0).unwrap().name, Some(String::from("b")));
    assert_eq!(c.get_package(0).unwrap().allow_build_commands, Some(false));
    assert_eq!(c.get_package(1).unwrap().allow_build_commands, Some(false));
    assert_eq!(c.get_package(2).unwrap().allow_build_commands, None);
    assert_eq!(c.get_package(root).unwrap().allow_build_commands, None);
}

#[test]
fn registries_are_read_from_the_root_document() {
    assert_eq!(parse_repos_from_package(&json(r#"{"name": "root"}"#)), Ok(vec![]));
    let one = parse_repos_from_package(&json(
        r#"{"registry": {"name": "r", "source_uri": "https://h/r", "package_format": "numng",
            "depends": ["x"], "linkin": {"a": {"name": "y"}}, "allow_build_commands": true}}"#,
    ))
    .unwrap();
    assert_eq!(one.len(), 1);
    assert_eq!(one[0].name, Some(String::from("r")));
    assert_eq!(one[0].depends, None);
    assert_eq!(one[0].linkin, None);
    assert_eq!(one[0].allow_build_commands, Some(false));
    assert_eq!(one[0].package_format, Some(PackageFormat::Numng));

    let many = parse_repos_from_package(&json(
        r#"{"registry": [{"name": "r1"}, {"name": "r2", "depends": ["x"]}]}"#,
    ))
    .unwrap();
    assert_eq!(many.len(), 2);
    assert_eq!(many[1].name, Some(String::from("r2")));
    assert_eq!(many[1].depends, None);
    assert_eq!(parse_repos_from_package(&json(r#"{"registry": []}"#)), Ok(vec![]));
}

#[test]
fn wrong_registries_are_errors() {
    assert_eq!(
        parse_repos_from_package(&json(r#"{"registry": "https://h/r"}"#)),
        Err(field_error(None, "registry", "String(\"https://h/r\")"))
    );
    assert_eq!(
        parse_repos_from_package(&json(r#"{"registry": [{"name": "ok"}, {"name": 1}]}"#)),
        Err(field_error(None, "name", "Number(1)"))
    );
}

#[test]
fn a_root_document_is_read_with_its_registries() {
    let doc = json(
        r#"{"name": "a", "source_uri": "scheme://h/a", "depends": ["b"],
            "registry": [{"name": "r", "source_uri": "https://h/registry", "package_format": "numng"}]}"#,
    );
    let found = parse_numng_json(&doc, "/base", true, None).unwrap();
    assert_eq!(found.collection.len(), 2);
    assert_eq!(found.root, 1);
    assert_eq!(found.registries.len(), 1);
    assert_eq!(found.registries[0].package.name, Some(String::from("r")));
    assert_eq!(found.registries[0].repo.base_path(), "/base/store/git/h/registry/main");

    let found = parse_numng_json(&doc, "/base", false, Some(false)).unwrap();
    assert_eq!(found.registries.len(), 0);
    assert_eq!(found.collection.get_package(0).unwrap().allow_build_commands, Some(false));
}

#[test]
fn a_registry_without_format_ends_the_reading() {
    let doc = json(r#"{"name": "a", "registry": {"name": "r", "source_uri": "https://h/r"}}"#);
    assert_eq!(
        parse_numng_json(&doc, "/base", true, None),
        Err(NumngError::InvalidPackageFieldValue {
            package_name: Some(String::from("r")),
            field: String::from("package_format"),
            value: None,
        })
    );
    assert!(parse_numng_json(&doc, "/base", false, None).is_ok());
    let broken = json(r#"{"name": 1, "registry": 2}"#);
    assert_eq!(
        parse_numng_json(&broken, "/base", true, None),
        Err(field_error(None, "name", "Number(1)"))
    );
}
