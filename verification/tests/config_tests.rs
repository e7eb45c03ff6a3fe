use ponto::config::{
    lookup, merge_variables, ConfigError, Configuration, FileTarget, InnerConfig, Package,
    TargetSpec,
};

fn pkg(depends: &[&str], files: &[(&str, &str)], variables: &[(&str, &str)]) -> Package {
    Package {
        depends: depends.iter().map(|d| d.to_string()).collect(),
        files: files
            .iter()
            .map(|(from, to)| (from.to_string(), FileTarget::Simple(to.to_string())))
            .collect(),
        variables: variables
            .iter()
            .map(|(k, v)| (k.to_string(), v.to_string()))
            .collect(),
    }
}

#[test]
fn should_merge_variables() {
    let variables = vec![("a".to_string(), "1".to_string())];
    let package_variables = vec![("b".to_string(), "2".to_string())];

    let merged = merge_variables(variables, package_variables);

    let expected = vec![
        ("a".to_string(), "1".to_string()),
        ("b".to_string(), "2".to_string()),
    ];
    assert_eq!(merged, expected);
    assert_eq!(lookup(&merged, &"a".to_string()), Some("1".to_string()));
    assert_eq!(lookup(&merged, &"b".to_string()), Some("2".to_string()));
}

#[test]
fn package_variables_override_process_wide_ones() {
    let variables = vec![
        ("name".to_string(), "global".to_string()),
        ("keep".to_string(), "kept".to_string()),
    ];
    let package_variables = vec![("name".to_string(), "local".to_string())];

    let merged = merge_variables(variables, package_variables);

    assert_eq!(lookup(&merged, &"name".to_string()), Some("local".to_string()));
    assert_eq!(lookup(&merged, &"keep".to_string()), Some("kept".to_string()));
    assert_eq!(lookup(&merged, &"absent".to_string()), None);
}

#[test]
fn load_config_merges_global_and_package_variables() {
    let inner = InnerConfig {
        packages: vec![("shell".to_string(), pkg(&[], &[(".bashrc", ".bashrc")], &[("c", "3")]))],
        variables: vec![
            ("a".to_string(), "1".to_string()),
            ("b".to_string(), "2".to_string()),
        ],
    };

    let config = ponto::config::load_config(inner).unwrap();

    assert_eq!(config.packages.len(), 1);
    assert_eq!(config.packages[0].0, "shell");
    assert_eq!(
        config.packages[0].1.files,
        vec![(".bashrc".to_string(), FileTarget::Simple(".bashrc".to_string()))]
    );
    assert_eq!(lookup(&config.variables, &"a".to_string()), Some("1".to_string()));
    assert_eq!(lookup(&config.variables, &"b".to_string()), Some("2".to_string()));
    assert_eq!(lookup(&config.variables, &"c".to_string()), Some("3".to_string()));
}

#[test]
fn load_config_keeps_plain_target_paths_unchanged() {
    let inner = InnerConfig {
        packages: vec![(
            "editor".to_string(),
            Package {
                depends: vec![],
                files: vec![(
                    "vimrc".to_string(),
                    FileTarget::WithSpec(TargetSpec {
                        to: "/tmp/ponto-target/vimrc".to_string(),
                        is_symlink: true,
                    }),
                )],
                variables: vec![],
            },
        )],
        variables: vec![],
    };

    let config = ponto::config::load_config(inner).unwrap();

    match &config.packages[0].1.files[0].1 {
        FileTarget::WithSpec(spec) => {
            assert_eq!(spec.to, "/tmp/ponto-target/vimrc");
            assert!(spec.is_symlink);
        }
        other => panic!("expected an explicit target, got {other:?}"),
    }
}

#[test]
fn dependencies_come_before_their_dependents() {
    let config = Configuration {
        packages: vec![
            ("b".to_string(), pkg(&["a"], &[("f", "g")], &[])),
            ("a".to_string(), pkg(&[], &[("h", "i")], &[])),
        ],
        variables: vec![],
    };

    let ordered = config.ordered_by_dependencies().unwrap();

    let names: Vec<&str> = ordered.iter().map(|(n, _)| n.as_str()).collect();
    assert_eq!(names, vec!["a", "b"]);
}

#[test]
fn longer_dependency_chains_are_fully_ordered() {
    let config = Configuration {
        packages: vec![
            ("c".to_string(), pkg(&["b"], &[], &[])),
            ("a".to_string(), pkg(&[], &[], &[])),
            ("b".to_string(), pkg(&["a"], &[], &[])),
            ("d".to_string(), pkg(&["a", "c"], &[], &[])),
        ],
        variables: vec![],
    };

    let ordered = config.ordered_by_dependencies().unwrap();

    let names: Vec<&str> = ordered.iter().map(|(n, _)| n.as_str()).collect();
    let pos = |n: &str| names.iter().position(|x| *x == n).unwrap();
    assert_eq!(names.len(), 4);
    assert!(pos("a") < pos("b"));
    assert!(pos("b") < pos("c"));
    assert!(pos("a") < pos("d"));
    assert!(pos("c") < pos("d"));
}

#[test]
fn a_dependency_cycle_is_refused() {
    let config = Configuration {
        packages: vec![
            ("a".to_string(), pkg(&["b"], &[], &[])),
            ("b".to_string(), pkg(&["a"], &[], &[])),
        ],
        variables: vec![],
    };

    let err = config.ordered_by_dependencies().unwrap_err();

    assert_eq!(err, ConfigError::CircularDependency);
    assert_eq!(err.describe(), "circular dependency");
}

#[test]
fn a_dependency_nobody_provides_is_refused() {
    let config = Configuration {
        packages: vec![("a".to_string(), pkg(&["ghost"], &[], &[]))],
        variables: vec![],
    };

    assert_eq!(config.ordered_by_dependencies().unwrap_err(), ConfigError::CircularDependency);
}

#[test]
fn an_empty_configuration_orders_to_nothing() {
    let config = Configuration { packages: vec![], variables: vec![] };

    assert_eq!(config.ordered_by_dependencies().unwrap(), vec![]);
}

#[test]
fn an_undefined_variable_in_a_target_is_refused() {
    let inner = InnerConfig {
        packages: vec![(
            "shell".to_string(),
            pkg(&[], &[(".bashrc", "${ponto_no_such_variable_anywhere}/.bashrc")], &[]),
        )],
        variables: vec![],
    };

    let err = ponto::config::load_config(inner).unwrap_err();

    match err {
        ConfigError::Expansion(_) => {}
        other => panic!("expected an expansion error, got {other:?}"),
    }
}

#[test]
fn expansion_errors_carry_their_account() {
    let err = ConfigError::Expansion("unknown variable".to_string());

    assert_eq!(err.describe(), "unknown variable");
}
