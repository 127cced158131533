use bargo::aggregate::{add_application_rights, in_cluster_destination};
use bargo::app_project::{AppProject, AppProjectClusterResourceWhitelist, AppProjectDestination};
use bargo::config::{Metadata, MetadataProjectOptions};
use bargo::entry_set::EntrySet;

fn metadata(options: Option<MetadataProjectOptions>) -> Metadata {
    Metadata { namespace: None, script: None, application_options: None, targets: Vec::new(), project_options: options }
}

#[test]
fn app_project_new_sets_fixed_fields() {
    let p = AppProject::new("shop".to_string(), "argocd".to_string());
    assert_eq!(p.api_version, "argoproj.io/v1alpha1");
    assert_eq!(p.kind, "AppProject");
    assert_eq!(p.metadata.name, "shop");
    assert_eq!(p.metadata.namespace, "argocd");
    assert_eq!(p.spec.destinations.len(), 0);
    assert_eq!(p.spec.cluster_resource_whitelist.len(), 0);
    assert_eq!(p.spec.source_repos.len(), 0);
}

#[test]
fn entry_set_holds_each_member_once() {
    let mut set: EntrySet<String> = EntrySet::new();
    assert!(set.insert("a".to_string()));
    assert!(!set.insert("a".to_string()));
    assert!(set.insert("b".to_string()));
    assert!(!set.insert("a".to_string()));
    assert_eq!(set.len(), 2);
    assert!(set.contains(&"a".to_string()));
    assert!(!set.contains(&"c".to_string()));
    assert_eq!(set.get(0), "a");
    assert_eq!(set.get(1), "b");
    let copy = set.duplicate();
    assert_eq!(copy.len(), 2);
    assert_eq!(copy.get(1), "b");
}

#[test]
fn same_entries_inserted_many_times_yield_one_member() {
    let mut p = AppProject::new("shop".to_string(), "argocd".to_string());
    let m = metadata(None);
    for _ in 0..5 {
        add_application_rights(&mut p, &"https://git/repo".to_string(), &"shop".to_string(), &m);
    }
    assert_eq!(p.spec.source_repos.len(), 1);
    assert_eq!(p.spec.destinations.len(), 1);
    assert_eq!(p.spec.cluster_resource_whitelist.len(), 1);
    assert_eq!(p.spec.source_repos.get(0), "https://git/repo");
    assert_eq!(
        *p.spec.destinations.get(0),
        AppProjectDestination {
            name: "in-cluster".to_string(),
            namespace: "shop".to_string(),
            server: "https://kubernetes.devault.svc".to_string(),
        }
    );
    assert_eq!(
        *p.spec.cluster_resource_whitelist.get(0),
        AppProjectClusterResourceWhitelist { group: "".to_string(), kind: "Namespace".to_string() }
    );
}

#[test]
fn project_options_add_namespaces_and_whitelist_entries() {
    let mut p = AppProject::new("shop".to_string(), "argocd".to_string());
    let m = metadata(Some(MetadataProjectOptions {
        additional_namespaces: Some(vec!["extra1".to_string(), "extra2".to_string(), "shop".to_string()]),
        cluster_resource_whitelist: Some(vec![
            AppProjectClusterResourceWhitelist { group: "rbac".to_string(), kind: "ClusterRole".to_string() },
            AppProjectClusterResourceWhitelist { group: "".to_string(), kind: "Namespace".to_string() },
        ]),
    }));
    add_application_rights(&mut p, &"repo".to_string(), &"shop".to_string(), &m);
    assert_eq!(p.spec.destinations.len(), 3);
    assert!(p.spec.destinations.contains(&in_cluster_destination("extra1".to_string())));
    assert!(p.spec.destinations.contains(&in_cluster_destination("extra2".to_string())));
    assert_eq!(p.spec.cluster_resource_whitelist.len(), 2);
    assert!(p.spec.cluster_resource_whitelist.contains(&AppProjectClusterResourceWhitelist {
        group: "rbac".to_string(),
        kind: "ClusterRole".to_string(),
    }));
}

#[test]
fn order_of_applications_does_not_matter_to_membership() {
    let a = metadata(Some(MetadataProjectOptions {
        additional_namespaces: Some(vec!["x".to_string()]),
        cluster_resource_whitelist: None,
    }));
    let b = metadata(None);
    let repo = "repo".to_string();
    let mut first = AppProject::new("p".to_string(), "n".to_string());
    add_application_rights(&mut first, &repo, &"one".to_string(), &a);
    add_application_rights(&mut first, &repo, &"two".to_string(), &b);
    let mut second = AppProject::new("p".to_string(), "n".to_string());
    add_application_rights(&mut second, &repo, &"two".to_string(), &b);
    add_application_rights(&mut second, &repo, &"one".to_string(), &a);
    assert_eq!(first.spec.destinations.len(), second.spec.destinations.len());
    for i in 0..first.spec.destinations.len() {
        assert!(second.spec.destinations.contains(first.spec.destinations.get(i)));
    }
    let copy = first.duplicate();
    assert_eq!(copy.spec.destinations.len(), 3);
    assert_eq!(copy.metadata, first.metadata);
}
