use ponto::hook::{is_templated_path, templated_script_path};

#[test]
fn a_script_extension_is_replaced_by_templated() {
    assert_eq!(
        templated_script_path(&"/home/user/ponto/pre.sh".to_string()),
        "/home/user/ponto/pre.templated"
    );
    assert_eq!(templated_script_path(&"script.sh".to_string()), "script.templated");
}

#[test]
fn a_script_without_extension_gets_templated_appended() {
    assert_eq!(templated_script_path(&"script".to_string()), "script.templated");
    assert_eq!(templated_script_path(&"ponto/post".to_string()), "ponto/post.templated");
}

#[test]
fn a_hidden_file_name_begins_no_extension() {
    assert_eq!(templated_script_path(&".bashrc".to_string()), ".bashrc.templated");
    assert_eq!(templated_script_path(&"dir/.bashrc".to_string()), "dir/.bashrc.templated");
}

#[test]
fn dots_in_directories_are_not_extensions() {
    assert_eq!(
        templated_script_path(&"a.b/script".to_string()),
        "a.b/script.templated"
    );
}

#[test]
fn only_the_last_dot_begins_the_extension() {
    assert_eq!(
        templated_script_path(&"archive.tar.gz".to_string()),
        "archive.tar.templated"
    );
}

#[test]
fn rendered_scripts_are_recognised_for_cleanup() {
    assert!(is_templated_path(&"script.templated".to_string()));
    assert!(is_templated_path(&"ponto/pre.templated".to_string()));
    assert!(!is_templated_path(&"script.sh".to_string()));
    assert!(!is_templated_path(&"script".to_string()));
    assert!(!is_templated_path(&".templated".to_string()));
    assert!(!is_templated_path(&"dir.templated/script".to_string()));
}

#[test]
fn rendering_a_script_names_a_path_the_cleanup_removes() {
    for script in ["pre.sh", "ponto/post.sh", "plain", ".bashrc", "a.b/run"] {
        let templated = templated_script_path(&script.to_string());
        assert!(is_templated_path(&templated), "{templated} not recognised");
    }
}
