use bargo::hook::{hook_command, HookCommand};
use bargo::output::{project_file, project_file_location};

#[test]
fn project_file_lists_manifests_in_order() {
    let apps = vec!["A".to_string(), "B".to_string(), "C".to_string()];
    assert_eq!(project_file("kind: AppProject\n", &apps), "kind: AppProject\n\n---\nA\n---\nB\n---\nC");
}

#[test]
fn project_file_without_manifests_is_the_project() {
    assert_eq!(project_file("p", &Vec::new()), "p");
}

#[test]
fn project_file_keeps_manifest_text() {
    let apps = vec!["a\n---\nb".to_string(), "".to_string()];
    assert_eq!(project_file("", &apps), "\n---\na\n---\nb\n---\n");
}

#[test]
fn project_file_location_is_below_the_target() {
    assert_eq!(project_file_location("prod", "shop"), "prod/argocd-config/shop.yaml");
}

#[test]
fn hook_command_runs_the_script_in_a_shell() {
    assert_eq!(
        hook_command("make deploy", "/in/shop/api", "/out/prod/shop/api"),
        HookCommand {
            program: "bash".to_string(),
            arguments: vec!["-c".to_string(), "make deploy".to_string()],
            environment: vec![
                ("in".to_string(), "/in/shop/api".to_string()),
                ("out".to_string(), "/out/prod/shop/api".to_string()),
            ],
        }
    );
}

#[test]
fn fixed_names_of_the_trees() {
    assert_eq!(bargo::layout::config_file_name(), "bargo.toml");
    assert_eq!(bargo::layout::metadata_file_name(), "metadata.toml");
    assert_eq!(bargo::layout::metadata_pattern(), "**/metadata.toml");
    assert_eq!(bargo::layout::template_pattern(), "**/*.tera");
    assert_eq!(bargo::layout::project_directory_name(), "argocd-config");
}
