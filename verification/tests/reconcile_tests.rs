use ponto::deploy::{process_simple, process_with_spec, Delivery};
use ponto::file_type::{FileType, ReadOutcome};
use ponto::filesystem::{is_template_text, Filesystem};
use ponto::symlink::{Symlink, SymlinkState};
use ponto::template::{Template, TemplateState};

fn text(s: &str) -> FileType {
    FileType::File(Some(s.to_string()))
}

#[test]
fn a_link_is_classified_before_what_it_points_at() {
    let observed = FileType::classify(
        Some("/tmp/ponto/target.txt".to_string()),
        true,
        ReadOutcome::Utf8("Hello, world!".to_string()),
    );

    assert_eq!(observed, FileType::SymbolicLink("/tmp/ponto/target.txt".to_string()));
}

#[test]
fn a_directory_is_classified_before_its_bytes_are_read() {
    let observed = FileType::classify(None, true, ReadOutcome::NotFound);

    assert_eq!(observed, FileType::Directory);
}

#[test]
fn readable_text_classifies_as_a_file_with_content() {
    let observed = FileType::classify(None, false, ReadOutcome::Utf8("Hello, world!".to_string()));

    assert_eq!(observed, FileType::File(Some("Hello, world!".to_string())));
}

#[test]
fn bytes_that_are_not_text_classify_as_a_file_without_content() {
    let observed = FileType::classify(None, false, ReadOutcome::NotUtf8);

    assert_eq!(observed, FileType::File(None));
}

#[test]
fn an_absent_path_classifies_as_missing() {
    let observed = FileType::classify(None, false, ReadOutcome::NotFound);

    assert_eq!(observed, FileType::Missing);
    assert!(!observed.is_present());
}

#[test]
fn template_markers_are_sniffed_in_text() {
    assert!(is_template_text("Hello, {{ name }}!"));
    assert!(is_template_text("{{"));
    assert!(is_template_text("tail{{"));
    assert!(!is_template_text("Hello, world!"));
    assert!(!is_template_text("{ {"));
    assert!(!is_template_text("{"));
    assert!(!is_template_text(""));
}

#[test]
fn link_states_cover_the_outcome_table() {
    let real = "/tmp/ponto/a.txt".to_string();
    let link_to_real = FileType::SymbolicLink(real.clone());
    let link_elsewhere = FileType::SymbolicLink("/tmp/ponto/b.txt".to_string());

    assert_eq!(
        SymlinkState::from(&real, FileType::Missing, link_to_real.clone()),
        SymlinkState::OnlyTargetExists
    );
    assert_eq!(
        SymlinkState::from(&real, text("hello"), link_to_real.clone()),
        SymlinkState::Identical
    );
    assert_eq!(
        SymlinkState::from(&real, text("hello"), link_elsewhere),
        SymlinkState::Changed
    );
    assert_eq!(
        SymlinkState::from(&real, FileType::Missing, FileType::Missing),
        SymlinkState::BothMissing
    );
    assert_eq!(
        SymlinkState::from(&real, text("hello"), FileType::Missing),
        SymlinkState::OnlySourceExists
    );
    assert_eq!(
        SymlinkState::from(&real, text("hello"), FileType::Directory),
        SymlinkState::TargetNotSymlink
    );
    assert_eq!(
        SymlinkState::from(&real, text("hello"), text("occupied")),
        SymlinkState::TargetNotSymlink
    );
}

#[test]
fn a_fresh_source_gets_a_link_to_its_canonical_path() {
    // Source holds text, nothing at the target yet: one pass creates a link
    // pointing at the canonical source path.
    let real = "/tmp/ponto/a.txt".to_string();

    let state = SymlinkState::from(&real, text("hello"), FileType::Missing);
    assert_eq!(state, SymlinkState::OnlySourceExists);
    assert!(Symlink::should_create(&state, false));

    let planned = Symlink::plan(&real, text("hello"), FileType::Missing, false);
    assert_eq!(planned, Some("/tmp/ponto/a.txt".to_string()));
}

#[test]
fn a_second_link_pass_changes_nothing() {
    // After the first pass the target is a link at the canonical source;
    // without force the second pass decides to do nothing.
    let real = "/tmp/ponto/a.txt".to_string();
    let after_first_pass = FileType::SymbolicLink(real.clone());

    let state = SymlinkState::from(&real, text("hello"), after_first_pass);
    assert_eq!(state, SymlinkState::Identical);
    assert!(!Symlink::should_create(&state, false));
    assert_eq!(Symlink::plan(&real, text("hello"), FileType::SymbolicLink(real.clone()), false), None);
}

#[test]
fn force_recreates_an_identical_link() {
    let real = "/tmp/ponto/a.txt".to_string();
    let state = SymlinkState::from(&real, text("hello"), FileType::SymbolicLink(real.clone()));

    assert_eq!(state, SymlinkState::Identical);
    assert!(Symlink::should_create(&state, true));
    assert_eq!(
        Symlink::plan(&real, text("hello"), FileType::SymbolicLink(real.clone()), true),
        Some(real.clone())
    );
}

#[test]
fn foreign_content_is_never_overwritten_by_a_link() {
    let real = "/tmp/ponto/a.txt".to_string();
    for force in [false, true] {
        let occupied = SymlinkState::from(&real, text("hello"), FileType::Directory);
        assert!(!Symlink::should_create(&occupied, force));

        let repointed = SymlinkState::from(
            &real,
            text("hello"),
            FileType::SymbolicLink("/somewhere/else".to_string()),
        );
        assert!(!Symlink::should_create(&repointed, force));

        let orphan = SymlinkState::from(&real, FileType::Missing, FileType::SymbolicLink(real.clone()));
        assert!(!Symlink::should_create(&orphan, force));
    }
}

#[test]
fn template_states_cover_the_outcome_table() {
    assert_eq!(
        TemplateState::from(text("Hi"), text("Hi")),
        TemplateState::Identical
    );
    assert_eq!(
        TemplateState::from(text("Hi"), text("Bye")),
        TemplateState::Changed
    );
    assert_eq!(
        TemplateState::from(text("Hi"), FileType::Missing),
        TemplateState::OnlySourceExists
    );
    assert_eq!(
        TemplateState::from(text("Hi"), FileType::Directory),
        TemplateState::TargetNotRegularFile
    );
    assert_eq!(
        TemplateState::from(text("Hi"), FileType::SymbolicLink("/x".to_string())),
        TemplateState::TargetNotRegularFile
    );
    assert_eq!(
        TemplateState::from(text("Hi"), FileType::File(None)),
        TemplateState::TargetNotRegularFile
    );
    assert_eq!(
        TemplateState::from(FileType::Missing, FileType::Missing),
        TemplateState::BothMissing
    );
    assert_eq!(
        TemplateState::from(FileType::File(None), text("Hi")),
        TemplateState::BothMissing
    );
}

#[test]
fn an_absent_target_is_rendered_to_exactly_the_expanded_text() {
    // The template engine is the external collaborator: rendering the
    // source with the variables gives the text the driver writes.
    let source = "Hi {{name}}";
    let mut variables = std::collections::HashMap::new();
    variables.insert("name".to_string(), "Ana".to_string());
    let rendered = handlebars::Handlebars::new()
        .render_template(source, &variables)
        .unwrap();
    assert_eq!(rendered, "Hi Ana");

    let state = TemplateState::from(text(source), FileType::Missing);
    assert_eq!(state, TemplateState::OnlySourceExists);
    assert!(Template::should_render(&state, false));
}

#[test]
fn a_target_already_holding_the_rendered_text_is_left_alone() {
    // The source renders to itself here, so the target that already holds
    // the same text is Identical and nothing is written without force.
    let source = "Hi Ana";
    let variables: std::collections::HashMap<String, String> = std::collections::HashMap::new();
    let rendered = handlebars::Handlebars::new()
        .render_template(source, &variables)
        .unwrap();
    assert_eq!(rendered, "Hi Ana");

    let state = TemplateState::from(text(source), text(&rendered));
    assert_eq!(state, TemplateState::Identical);
    assert!(!Template::should_render(&state, false));
}

#[test]
fn force_rerenders_an_identical_target() {
    let state = TemplateState::from(text("Hi"), text("Hi"));

    assert_eq!(state, TemplateState::Identical);
    assert!(Template::should_render(&state, true));
}

#[test]
fn foreign_content_is_never_overwritten_by_a_render() {
    for force in [false, true] {
        assert!(!Template::should_render(&TemplateState::TargetNotRegularFile, force));
        assert!(!Template::should_render(&TemplateState::BothMissing, force));
    }
}

#[test]
fn plain_copies_skip_an_occupied_target_unless_forced() {
    assert!(Filesystem::should_copy(false, false));
    assert!(!Filesystem::should_copy(true, false));
    assert!(Filesystem::should_copy(true, true));
    assert!(Filesystem::should_copy(false, true));
}

#[test]
fn delivery_is_dispatched_by_content_and_specification() {
    assert_eq!(process_simple(true), Delivery::Template);
    assert_eq!(process_simple(false), Delivery::Link);
    assert_eq!(process_with_spec(true, false), Delivery::Template);
    assert_eq!(process_with_spec(true, true), Delivery::Template);
    assert_eq!(process_with_spec(false, true), Delivery::Link);
    assert_eq!(process_with_spec(false, false), Delivery::Copy);
}

#[test]
fn state_descriptions_explain_every_decision() {
    assert_eq!(SymlinkState::Identical.describe(), "target points at source");
    assert_eq!(SymlinkState::OnlySourceExists.describe(), "target missing");
    assert_eq!(SymlinkState::OnlyTargetExists.describe(), "source is missing");
    assert_eq!(
        SymlinkState::TargetNotSymlink.describe(),
        "target already exists and isn't a symlink"
    );
    assert_eq!(
        SymlinkState::Changed.describe(),
        "target already exists and doesn't point at source"
    );
    assert_eq!(SymlinkState::BothMissing.describe(), "source and target are missing");
    assert_eq!(
        TemplateState::Identical.describe(),
        "source and templated file contents are equal"
    );
    assert_eq!(TemplateState::OnlySourceExists.describe(), "templated file doesn't exist");
    assert_eq!(TemplateState::Changed.describe(), "source contents were changed");
    assert_eq!(
        TemplateState::TargetNotRegularFile.describe(),
        "target already exists and isn't a regular file"
    );
    assert_eq!(
        TemplateState::BothMissing.describe(),
        "templated file and source are missing"
    );
}
