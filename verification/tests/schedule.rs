use numng::builder::{
    build_command_process, make_link, may_build, prepare_destination, DestinationStep, Link,
};
use numng::json::JsonValue;
use numng::package::Package;
use numng::schedule::{group_equal, layer_graph};
use numng::util::Command;
use numng::{NumngError, PackageCollection};

fn collection(text: &str) -> PackageCollection {
    let mut c = PackageCollection::new();
    c.append_numng_package_json(&JsonValue::parse(text).unwrap(), None).unwrap();
    c
}

fn package(name: &str, uri: &str) -> Package {
    let mut p = Package::new_with_name(String::from(name));
    p.source_uri = Some(String::from(uri));
    p
}

#[test]
fn a_graph_without_edges_is_one_layer() {
    let order = layer_graph(&vec![vec![], vec![], vec![]]);
    assert_eq!(order.layers, vec![vec![0, 1, 2]]);
    assert_eq!(order.layer_of, vec![Some(0), Some(0), Some(0)]);
    assert_eq!(order.rest, Vec::<usize>::new());
}

#[test]
fn the_empty_graph_has_no_layer() {
    let order = layer_graph(&vec![]);
    assert_eq!(order.layers, Vec::<Vec<usize>>::new());
    assert_eq!(order.rest, Vec::<usize>::new());
}

#[test]
fn a_node_comes_behind_all_its_dependencies() {
    // 0 <- 1 <- 2, 3 waits for 0 and 2, 4 waits for nothing
    let graph = vec![vec![], vec![0], vec![1], vec![0, 2], vec![]];
    let order = layer_graph(&graph);
    assert_eq!(order.layers, vec![vec![0, 4], vec![1], vec![2], vec![3]]);
    assert_eq!(order.layer_of, vec![Some(0), Some(1), Some(2), Some(3), Some(0)]);
    assert_eq!(order.rest, Vec::<usize>::new());
}

#[test]
fn layers_lie_strictly_behind_the_layers_of_dependencies() {
    let graph = vec![
        vec![3, 5],
        vec![0],
        vec![1, 0, 4],
        vec![],
        vec![3],
        vec![4],
        vec![2, 6 - 6],
        vec![],
    ];
    let order = layer_graph(&graph);
    assert!(order.rest.is_empty());
    for (p, dependencies) in graph.iter().enumerate() {
        let layer = order.layer_of[p].unwrap();
        let behind = dependencies.iter().map(|d| order.layer_of[*d].unwrap() + 1).max().unwrap_or(0);
        assert_eq!(layer, behind);
        assert!(order.layers[layer].contains(&p));
    }
    let placed: usize = order.layers.iter().map(|l| l.len()).sum();
    assert_eq!(placed, graph.len());
}

#[test]
fn a_cycle_and_what_waits_for_it_is_left_over() {
    // 1 and 2 wait for each other, 3 waits for 2, 4 waits for itself
    let graph = vec![vec![], vec![2], vec![1, 0], vec![2], vec![4], vec![0]];
    let order = layer_graph(&graph);
    assert_eq!(order.layers, vec![vec![0], vec![5]]);
    assert_eq!(order.rest, vec![1, 2, 3, 4]);
    assert_eq!(order.layer_of, vec![Some(0), None, None, None, None, Some(1)]);
}

#[test]
fn a_node_that_waits_for_a_missing_node_is_left_over() {
    let order = layer_graph(&vec![vec![7], vec![0], vec![]]);
    assert_eq!(order.layers, vec![vec![2]]);
    assert_eq!(order.rest, vec![0, 1]);
}

#[test]
fn equal_keys_come_into_one_group() {
    let keys: Vec<String> = ["a", "b", "a", "c", "b", "a"].iter().map(|k| String::from(*k)).collect();
    assert_eq!(group_equal(&keys), vec![vec![0, 2, 5], vec![1, 4], vec![3]]);
    assert_eq!(group_equal(&vec![]), Vec::<Vec<usize>>::new());
    assert_eq!(group_equal(&vec![String::new()]), vec![vec![0]]);
}

#[test]
fn packages_wait_for_what_they_depend_on_and_link_in() {
    let c = collection(
        r#"{"name": "root", "depends": ["a", {"name": "b", "depends": ["a"]}],
            "linkin": {"x": {"name": "l", "depends": ["b"]}}}"#,
    );
    // linkin is read first: the b that l names, l, a, the b that root describes, root
    assert_eq!(c.get_package(0), Some(&Package::new_with_name(String::from("b"))));
    assert_eq!(c.get_package(3).unwrap().name, Some(String::from("b")));
    assert_eq!(c.dependency_graph(), vec![vec![], vec![0], vec![], vec![2], vec![2, 3, 1]]);
    assert!(c.handles_are_valid());
}

#[test]
fn the_install_prefix_is_made_ready() {
    assert_eq!(
        prepare_destination("/env", false, false),
        Ok(vec![DestinationStep::CreateDirAll(String::from("/env"))])
    );
    assert_eq!(
        prepare_destination("/env", false, true),
        Ok(vec![DestinationStep::CreateDirAll(String::from("/env"))])
    );
    assert_eq!(
        prepare_destination("/env", true, true),
        Ok(vec![
            DestinationStep::RemoveDirAll(String::from("/env")),
            DestinationStep::CreateDirAll(String::from("/env")),
        ])
    );
    assert_eq!(
        prepare_destination("/env", true, false),
        Err(NumngError::NupmHomeAlreadyExists(String::from("/env")))
    );
}

#[test]
fn build_permission() {
    let states = [None, Some(true), Some(false)];
    for caller in states {
        for package in states {
            let expected = caller != Some(false)
                && package != Some(false)
                && (caller == Some(true) || package == Some(true));
            assert_eq!(may_build(caller, package), expected);
        }
    }
    assert!(may_build(Some(true), Some(true)));
    assert!(may_build(None, Some(true)));
    assert!(may_build(Some(true), None));
    assert!(!may_build(None, None));
    assert!(!may_build(Some(true), Some(false)));
    assert!(!may_build(Some(false), Some(true)));
}

#[test]
fn a_link_goes_from_the_package_into_the_linked_package() {
    assert_eq!(
        make_link("/store/git/h_p/main/x", "/store/git/h_q/main/x", "lib:src"),
        Link {
            target: String::from("/store/git/h_q/main/x/src"),
            link: String::from("/store/git/h_p/main/x/lib"),
        }
    );
    assert_eq!(
        make_link("/p", "/d", "vendor/dep"),
        Link { target: String::from("/d"), link: String::from("/p/vendor/dep") }
    );
    assert_eq!(
        make_link("/p", "/d", "a:b:c"),
        Link { target: String::from("/d/b:c"), link: String::from("/p/a") }
    );
    assert_eq!(
        make_link("/p", "/d", ":"),
        Link { target: String::from("/d/"), link: String::from("/p/") }
    );
}

#[test]
fn build_commands_become_child_processes() {
    assert_eq!(
        build_command_process("cargo build --release", "/p"),
        Command {
            program: String::from("cargo"),
            args: vec![String::from("build"), String::from("--release"), String::from("--quiet")],
            current_dir: String::from("/p"),
        }
    );
    assert_eq!(
        build_command_process("make all", "/p"),
        Command {
            program: String::from("nu"),
            args: ["--log-level", "trace", "--no-history", "--no-config-file", "--commands", "make all"]
                .iter()
                .map(|a| String::from(*a))
                .collect(),
            current_dir: String::from("/p"),
        }
    );
}

#[test]
fn the_build_of_a_package_is_planned() {
    let c = collection(
        r#"{"name": "p", "source_uri": "https://h/p", "path_offset": "x", "allow_build_commands": true,
            "build_command": "cargo build --release",
            "linkin": {"lib:src": {"name": "dep", "source_uri": "https://h/q", "path_offset": "x"},
                       "whole": {"name": "other", "source_uri": "https://h/o", "git_ref": "v1"}}}"#,
    );
    let build = c.build_package(&2, "", &None).unwrap();
    assert_eq!(build.package_id, 2);
    assert_eq!(build.source_uri, "https://h/p");
    assert_eq!(build.git_ref, "main");
    assert_eq!(build.repository, "store/git/h/p");
    assert_eq!(build.worktree, "store/git/h/p/main");
    assert_eq!(build.path, "store/git/h/p/main/x");
    assert_eq!(
        build.links,
        vec![
            Link {
                target: String::from("store/git/h/q/main/x/src"),
                link: String::from("store/git/h/p/main/x/lib"),
            },
            Link {
                target: String::from("store/git/h/o/v1"),
                link: String::from("store/git/h/p/main/x/whole"),
            },
        ]
    );
    assert_eq!(build.command.unwrap().program, "cargo");
    let dep = c.build_package(&0, "/base", &Some(true)).unwrap();
    assert_eq!(dep.path, "/base/store/git/h/q/main/x");
    assert_eq!(dep.links, vec![]);
    assert_eq!(dep.command, None);
}

#[test]
fn a_forbidden_build_command_is_refused() {
    let c = collection(
        r#"{"name": "root", "source_uri": "https://h/root", "allow_build_commands": false,
            "depends": [{"name": "d", "source_uri": "https://h/d", "allow_build_commands": true,
                         "build_command": "make"}]}"#,
    );
    for caller in [None, Some(true), Some(false)] {
        assert_eq!(
            c.build_package(&0, "/base", &caller),
            Err(NumngError::BuildCommandBlocked(c.get_package(0).unwrap().clone()))
        );
        assert!(c.build_package(&1, "/base", &caller).is_ok());
    }
}

#[test]
fn a_build_command_needs_permission() {
    let c = collection(r#"{"name": "p", "source_uri": "https://h/p", "build_command": "make"}"#);
    assert!(c.build_package(&0, "/base", &None).is_err());
    assert!(c.build_package(&0, "/base", &Some(false)).is_err());
    assert!(c.build_package(&0, "/base", &Some(true)).is_ok());
    let c = collection(
        r#"{"name": "p", "source_uri": "https://h/p", "build_command": "make", "allow_build_commands": true}"#,
    );
    assert!(c.build_package(&0, "/base", &None).is_ok());
    assert!(c.build_package(&0, "/base", &Some(false)).is_err());
}

#[test]
fn a_package_without_source_cannot_be_built() {
    let c = collection(
        r#"{"name": "p", "source_uri": "https://h/p", "build_command": "make",
            "linkin": {"a": {"name": "nowhere"}}}"#,
    );
    assert_eq!(
        c.build_package(&0, "/base", &None),
        Err(NumngError::InvalidPackageFieldValue {
            package_name: Some(String::from("nowhere")),
            field: String::from("source_uri"),
            value: None,
        })
    );
    assert_eq!(c.build_package(&1, "/base", &None), c.build_package(&0, "/base", &None));
}

#[test]
fn an_environment_is_planned_in_layers() {
    let c = collection(
        r#"{"name": "root", "source_uri": "https://h/root",
            "depends": [
                {"name": "a", "source_uri": "https://h/mono", "path_offset": "a"},
                {"name": "b", "source_uri": "https://h/mono", "path_offset": "b"},
                {"name": "c", "source_uri": "https://h/mono", "git_ref": "dev"},
                {"name": "d", "source_uri": "https://h/d",
                 "depends": [{"name": "a", "source_uri": "https://h/mono", "path_offset": "a"}]}
            ],
            "linkin": {"vendor/mono": {"name": "c", "source_uri": "https://h/mono", "git_ref": "dev"}}}"#,
    );
    // handles: c, a, b, d, root
    assert_eq!(c.len(), 5);
    let plan = c.build_environment("/base", "/env", false, false, None).unwrap();
    assert_eq!(plan.prepare, vec![DestinationStep::CreateDirAll(String::from("/env"))]);
    assert_eq!(plan.order.layers, vec![vec![0, 1, 2], vec![3], vec![4]]);
    assert_eq!(plan.layers.len(), 3);

    let first = &plan.layers[0];
    let ids: Vec<usize> = first.jobs.iter().map(|j| j.build.package_id).collect();
    assert_eq!(ids, vec![0, 1, 2]);
    // all three are of one repository: they are built one after the other
    assert_eq!(first.groups, vec![vec![0, 1, 2]]);
    let fetch: Vec<bool> = first.jobs.iter().map(|j| j.fetch).collect();
    // a and b share the work tree of main, which is fetched once
    assert_eq!(fetch, vec![true, true, false]);
    assert_eq!(first.jobs[0].build.worktree, "/base/store/git/h/mono/dev");
    assert_eq!(first.jobs[1].build.worktree, "/base/store/git/h/mono/main");
    assert_eq!(first.jobs[2].build.worktree, "/base/store/git/h/mono/main");
    assert_eq!(first.jobs[2].build.path, "/base/store/git/h/mono/main/b");

    assert_eq!(plan.layers[1].groups, vec![vec![0]]);
    assert!(plan.layers[1].jobs[0].fetch);
    let root = &plan.layers[2].jobs[0];
    assert!(root.fetch);
    assert_eq!(
        root.build.links,
        vec![Link {
            target: String::from("/base/store/git/h/mono/dev"),
            link: String::from("/base/store/git/h/root/main/vendor/mono"),
        }]
    );
}

#[test]
fn packages_of_different_repositories_are_built_side_by_side() {
    let c = collection(
        r#"{"name": "root", "source_uri": "https://h/root",
            "depends": [{"name": "a", "source_uri": "https://h/a"},
                        {"name": "b", "source_uri": "https://h/b"},
                        {"name": "a2", "source_uri": "https://h/a", "path_offset": "sub"}]}"#,
    );
    let plan = c.build_environment("/base", "/env", true, true, None).unwrap();
    assert_eq!(plan.prepare.len(), 2);
    assert_eq!(plan.layers[0].groups, vec![vec![0, 2], vec![1]]);
    let fetch: Vec<bool> = plan.layers[0].jobs.iter().map(|j| j.fetch).collect();
    assert_eq!(fetch, vec![true, true, false]);
    // no work tree is in two groups of one layer
    for layer in &plan.layers {
        for (g, group) in layer.groups.iter().enumerate() {
            for (h, other) in layer.groups.iter().enumerate() {
                if g != h {
                    for i in group {
                        for j in other {
                            assert_ne!(layer.jobs[*i].build.worktree, layer.jobs[*j].build.worktree);
                        }
                    }
                }
            }
        }
    }
}

#[test]
fn a_work_tree_is_fetched_once_in_the_whole_plan() {
    let c = collection(
        r#"{"name": "root", "source_uri": "https://h/p", "git_ref": "main",
            "depends": [{"name": "lib", "source_uri": "https://h/p", "path_offset": "lib"}]}"#,
    );
    let plan = c.build_environment("/base", "/env", false, false, None).unwrap();
    assert_eq!(plan.order.layers, vec![vec![0], vec![1]]);
    assert_eq!(plan.layers[0].jobs[0].build.worktree, plan.layers[1].jobs[0].build.worktree);
    assert!(plan.layers[0].jobs[0].fetch);
    assert!(!plan.layers[1].jobs[0].fetch);
}

#[test]
fn an_existing_install_prefix_is_kept_unless_told_otherwise() {
    let c = collection(r#"{"name": "p", "source_uri": "https://h/p"}"#);
    assert_eq!(
        c.build_environment("/base", "/env", true, false, None),
        Err(NumngError::NupmHomeAlreadyExists(String::from("/env")))
    );
}

#[test]
fn circular_dependencies_are_reported() {
    let mut c = PackageCollection::new();
    c.append_package(package("free", "https://h/free")).unwrap();
    let mut a = package("a", "https://h/a");
    a.depends = Some(vec![2]);
    c.append_package(a.clone()).unwrap();
    let mut b = package("b", "https://h/b");
    b.linkin = Some(vec![(String::from("x"), 1)]);
    c.append_package(b.clone()).unwrap();
    let mut waiting = package("waiting", "https://h/w");
    waiting.depends = Some(vec![0, 1]);
    c.append_package(waiting.clone()).unwrap();
    assert!(c.handles_are_valid());
    assert_eq!(
        c.build_environment("/base", "/env", false, false, Some(true)),
        Err(NumngError::CircularDependencies(vec![a, b, waiting]))
    );
}

#[test]
fn the_first_package_that_cannot_be_built_ends_the_planning() {
    let c = collection(
        r#"{"name": "root", "depends": [{"name": "a", "source_uri": "https://h/a"}, "b", "c"]}"#,
    );
    assert_eq!(
        c.build_environment("/base", "/env", false, false, None),
        Err(NumngError::InvalidPackageFieldValue {
            package_name: Some(String::from("b")),
            field: String::from("source_uri"),
            value: None,
        })
    );
}

#[test]
fn handles_that_name_no_package_are_found() {
    let mut c = PackageCollection::new();
    let mut p = Package::new_with_name(String::from("p"));
    p.depends = Some(vec![3]);
    c.append_package(p).unwrap();
    assert!(!c.handles_are_valid());
    assert!(PackageCollection::new().handles_are_valid());
}

#[test]
fn a_package_that_waits_for_a_missing_package_cannot_be_built() {
    let mut c = PackageCollection::new();
    c.append_package(package("fine", "https://h/fine")).unwrap();
    let mut lost = package("lost", "https://h/lost");
    lost.linkin = Some(vec![(String::from("x"), 9)]);
    c.append_package(lost.clone()).unwrap();
    assert_eq!(
        c.build_environment("/base", "/env", false, false, None),
        Err(NumngError::CircularDependencies(vec![lost]))
    );
}
