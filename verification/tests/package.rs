use numng::package::{Package, SourceType};
use numng::package_format::PackageFormat;
use numng::semver::SemVer;
use numng::NumngError;

fn full_package() -> Package {
    Package {
        name: Some(String::from("full")),
        linkin: Some(vec![(String::from("lib:src"), 0)]),
        path_offset: Some(String::from("sub")),
        depends: Some(vec![1, 2]),
        package_format: Some(PackageFormat::Numng),
        ignore_registry: Some(false),
        version: Some(SemVer::Latest),
        nu_plugins: Some(vec![String::from("nu_plugin_x")]),
        nu_libs: Some(vec![(String::from("alias"), String::from("lib/mod.nu"))]),
        shell_config: Some(vec![(String::from("use"), vec![String::from("a.nu")])]),
        bin: Some(vec![(String::from("tool"), String::from("bin/tool"))]),
        build_command: Some(String::from("cargo build --release")),
        allow_build_commands: Some(true),
        source_type: Some(SourceType::Git),
        source_uri: Some(String::from("https://h/full")),
        git_ref: Some(String::from("v1")),
    }
}

#[test]
fn new_empty_has_no_field() {
    let p = Package::new_empty();
    assert_eq!(p.name, None);
    assert_eq!(p.linkin, None);
    assert_eq!(p.path_offset, None);
    assert_eq!(p.depends, None);
    assert_eq!(p.package_format, None);
    assert_eq!(p.ignore_registry, None);
    assert_eq!(p.version, None);
    assert_eq!(p.nu_plugins, None);
    assert_eq!(p.nu_libs, None);
    assert_eq!(p.shell_config, None);
    assert_eq!(p.bin, None);
    assert_eq!(p.build_command, None);
    assert_eq!(p.allow_build_commands, None);
    assert_eq!(p.source_type, None);
    assert_eq!(p.source_uri, None);
    assert_eq!(p.git_ref, None);
}

#[test]
fn new_with_name_has_the_name_only() {
    let mut expected = Package::new_empty();
    expected.name = Some(String::from("b"));
    assert_eq!(Package::new_with_name(String::from("b")), expected);
}

#[test]
fn fill_null_values_fills_what_is_absent() {
    let mut target = Package::new_empty();
    target.fill_null_values(full_package());
    let mut expected = full_package();
    expected.ignore_registry = None;
    expected.allow_build_commands = None;
    assert_eq!(target, expected);
}

#[test]
fn fill_null_values_keeps_what_is_there() {
    let mut target = Package::new_with_name(String::from("mine"));
    target.git_ref = Some(String::from("dev"));
    target.depends = Some(vec![]);
    target.fill_null_values(full_package());
    assert_eq!(target.name, Some(String::from("mine")));
    assert_eq!(target.git_ref, Some(String::from("dev")));
    assert_eq!(target.depends, Some(vec![]));
    assert_eq!(target.source_uri, Some(String::from("https://h/full")));
    assert_eq!(target.source_type, Some(SourceType::Git));
}

#[test]
fn fill_null_values_fills_each_field_by_itself() {
    let mut target = Package::new_empty();
    target.source_type = Some(SourceType::Git);
    let mut filler = Package::new_empty();
    filler.git_ref = Some(String::from("v2"));
    target.fill_null_values(filler);
    assert_eq!(target.git_ref, Some(String::from("v2")));

    let mut target = Package::new_empty();
    target.git_ref = Some(String::from("mine"));
    let mut filler = Package::new_empty();
    filler.git_ref = Some(String::from("theirs"));
    filler.source_type = Some(SourceType::Git);
    target.fill_null_values(filler);
    assert_eq!(target.git_ref, Some(String::from("mine")));
    assert_eq!(target.source_type, Some(SourceType::Git));
}

#[test]
fn fill_null_values_never_allows_build_commands() {
    let mut target = Package::new_with_name(String::from("p"));
    target.fill_null_values(full_package());
    assert_eq!(target.allow_build_commands, None);
    assert_eq!(target.build_command, Some(String::from("cargo build --release")));

    let mut target = Package::new_with_name(String::from("p"));
    target.allow_build_commands = Some(false);
    target.fill_null_values(full_package());
    assert_eq!(target.allow_build_commands, Some(false));
}

#[test]
fn a_package_that_ignores_registries_is_not_filled() {
    let mut target = Package::new_with_name(String::from("p"));
    target.ignore_registry = Some(true);
    let before = target.clone();
    target.fill_null_values(full_package());
    assert_eq!(target, before);
}

#[test]
fn a_package_that_does_not_ignore_registries_is_filled() {
    let mut target = Package::new_with_name(String::from("p"));
    target.ignore_registry = Some(false);
    target.fill_null_values(full_package());
    assert_eq!(target.source_uri, Some(String::from("https://h/full")));
    assert_eq!(target.ignore_registry, Some(false));
}

#[test]
fn the_root_of_a_package_is_its_work_tree() {
    let mut p = Package::new_with_name(String::from("p"));
    p.source_uri = Some(String::from("https://h/p"));
    assert_eq!(p.get_fs_basepath("/base"), Ok(String::from("/base/store/git/h/p/main")));
    p.git_ref = Some(String::from("v1.0"));
    assert_eq!(p.get_fs_basepath("/base"), Ok(String::from("/base/store/git/h/p/v1.0")));
    assert_eq!(p.git_ref_or_main(), "v1.0");
}

#[test]
fn the_root_of_a_package_may_lie_inside_the_work_tree() {
    let mut p = full_package();
    assert_eq!(p.get_fs_basepath("/base"), Ok(String::from("/base/store/git/h/full/v1/sub")));
    p.path_offset = Some(String::from("a/b"));
    assert_eq!(p.get_fs_basepath("/b"), Ok(String::from("/b/store/git/h/full/v1/a/b")));
}

#[test]
fn a_package_without_source_has_no_root() {
    let p = Package::new_with_name(String::from("p"));
    assert_eq!(
        p.get_fs_basepath("/base"),
        Err(NumngError::InvalidPackageFieldValue {
            package_name: Some(String::from("p")),
            field: String::from("source_uri"),
            value: None,
        })
    );
}

#[test]
fn a_numng_package_can_serve_as_registry() {
    let mut p = Package::new_with_name(String::from("registry"));
    p.source_uri = Some(String::from("https://h/registry"));
    p.package_format = Some(PackageFormat::Numng);
    p.path_offset = Some(String::from("repo"));
    let repo = p.as_registry("/base").unwrap();
    assert_eq!(repo.base_path(), "/base/store/git/h/registry/main/repo");
}

#[test]
fn a_package_without_format_cannot_serve_as_registry() {
    let mut p = Package::new_with_name(String::from("registry"));
    p.source_uri = Some(String::from("https://h/registry"));
    assert_eq!(
        p.as_registry("/base"),
        Err(NumngError::InvalidPackageFieldValue {
            package_name: Some(String::from("registry")),
            field: String::from("package_format"),
            value: None,
        })
    );
}

#[test]
fn a_registry_needs_a_source() {
    let mut p = Package::new_with_name(String::from("registry"));
    p.package_format = Some(PackageFormat::Numng);
    assert_eq!(
        p.as_registry("/base"),
        Err(NumngError::InvalidPackageFieldValue {
            package_name: Some(String::from("registry")),
            field: String::from("source_uri"),
            value: None,
        })
    );
}

#[test]
fn the_other_formats_cannot_serve_as_registry() {
    let mut p = full_package();
    p.package_format = Some(PackageFormat::Nupm);
    assert_eq!(
        p.as_registry("/base"),
        Err(NumngError::NotImplemented(String::from(
            "Nupm registry creation in package::Package::as_registry"
        )))
    );
    p.package_format = Some(PackageFormat::PackerNu);
    assert_eq!(
        p.as_registry("/base"),
        Err(NumngError::NotImplemented(String::from(
            "PackerNu registry creation in package::Package::as_registry"
        )))
    );
}

#[test]
fn same_as_compares_every_field() {
    let a = full_package();
    assert!(a.same_as(&full_package()));
    assert!(a.same_as(&a.clone()));
    let mut b = full_package();
    b.shell_config = Some(vec![(String::from("use"), vec![String::from("b.nu")])]);
    assert!(!a.same_as(&b));
    let mut c = full_package();
    c.linkin = Some(vec![(String::from("lib:src"), 7)]);
    assert!(!a.same_as(&c));
    let mut d = full_package();
    d.version = None;
    assert!(!a.same_as(&d));
    assert!(!Package::new_empty().same_as(&Package::new_with_name(String::new())));
}

#[test]
fn a_package_in_a_message() {
    assert_eq!(
        full_package().to_string(),
        "Package(name=full, version=latest, source_uri=https://h/full, git_ref=v1)"
    );
    assert_eq!(
        Package::new_empty().to_string(),
        "Package(name=None, version=latest, source_uri=None, git_ref=None)"
    );
    let mut p = Package::new_with_name(String::from("p"));
    p.version = Some(SemVer::from_string(&String::from("^1.2")).unwrap());
    assert_eq!(p.to_string(), "Package(name=p, version=^1.2, source_uri=None, git_ref=None)");
}

#[test]
fn package_formats_are_read_without_regard_to_case() {
    let name = Some(String::from("p"));
    assert_eq!(PackageFormat::from_string(&name, "numng"), Ok(PackageFormat::Numng));
    assert_eq!(PackageFormat::from_string(&name, "NuMnG"), Ok(PackageFormat::Numng));
    assert_eq!(PackageFormat::from_string(&name, "NUPM"), Ok(PackageFormat::Nupm));
    assert_eq!(PackageFormat::from_string(&name, "packer.nu"), Ok(PackageFormat::PackerNu));
    assert_eq!(PackageFormat::from_string(&name, "Packer"), Ok(PackageFormat::PackerNu));
}

#[test]
fn an_unknown_package_format_is_an_error() {
    assert_eq!(
        PackageFormat::from_string(&Some(String::from("p")), "Cargo"),
        Err(NumngError::InvalidPackageFieldValue {
            package_name: Some(String::from("p")),
            field: String::from("package_format"),
            value: Some(String::from("cargo")),
        })
    );
    assert_eq!(
        PackageFormat::from_lowercase(&None, "NUMNG"),
        Err(NumngError::InvalidPackageFieldValue {
            package_name: None,
            field: String::from("package_format"),
            value: Some(String::from("NUMNG")),
        })
    );
    assert_eq!(PackageFormat::from_lowercase(&None, "nupm"), Ok(PackageFormat::Nupm));
}
