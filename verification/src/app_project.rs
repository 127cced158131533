//! The project access-control object that is generated for each logical
//! project of each target.

use vstd::prelude::*;
use crate::entry_set::{EntrySet, SetEntry};

verus! {

/// API version of every generated project object.
pub open spec fn api_version_text() -> Seq<char> {
    "argoproj.io/v1alpha1"@
}

/// Kind of every generated project object.
pub open spec fn kind_text() -> Seq<char> {
    "AppProject"@
}

/// A place to which the applications of a project may deploy.
#[derive(Debug, PartialEq, Eq)]
pub struct AppProjectDestination {
    pub name: String,
    pub namespace: String,
    pub server: String,
}

/// What a destination holds, as plain texts.
pub struct DestinationView {
    pub name: Seq<char>,
    pub namespace: Seq<char>,
    pub server: Seq<char>,
}

impl View for AppProjectDestination {
    type V = DestinationView;

    open spec fn view(&self) -> DestinationView {
        DestinationView { name: self.name@, namespace: self.namespace@, server: self.server@ }
    }
}

impl SetEntry for AppProjectDestination {
    fn same(&self, other: &Self) -> (r: bool) {
        self.name == other.name && self.namespace == other.namespace && self.server == other.server
    }

    fn duplicate(&self) -> (r: Self) {
        AppProjectDestination {
            name: self.name.clone(),
            namespace: self.namespace.clone(),
            server: self.server.clone(),
        }
    }
}

/// A kind of cluster-wide resource that the applications of a project may
/// create.
#[derive(Debug, PartialEq, Eq)]
pub struct AppProjectClusterResourceWhitelist {
    pub group: String,
    pub kind: String,
}

/// What a whitelist entry holds, as plain texts.
pub struct WhitelistView {
    pub group: Seq<char>,
    pub kind: Seq<char>,
}

impl View for AppProjectClusterResourceWhitelist {
    type V = WhitelistView;

    open spec fn view(&self) -> WhitelistView {
        WhitelistView { group: self.group@, kind: self.kind@ }
    }
}

impl SetEntry for AppProjectClusterResourceWhitelist {
    fn same(&self, other: &Self) -> (r: bool) {
        self.group == other.group && self.kind == other.kind
    }

    fn duplicate(&self) -> (r: Self) {
        AppProjectClusterResourceWhitelist { group: self.group.clone(), kind: self.kind.clone() }
    }
}

/// Name and namespace of a project object.
#[derive(Debug, PartialEq, Eq)]
pub struct AppProjectMetadata {
    pub name: String,
    pub namespace: String,
}

/// What a project allows: three sets, each without duplicates.
#[derive(Debug)]
pub struct AppProjectSpec {
    pub destinations: EntrySet<AppProjectDestination>,
    pub cluster_resource_whitelist: EntrySet<AppProjectClusterResourceWhitelist>,
    pub source_repos: EntrySet<String>,
}

/// A project access-control object.
#[derive(Debug)]
pub struct AppProject {
    pub api_version: String,
    pub kind: String,
    pub metadata: AppProjectMetadata,
    pub spec: AppProjectSpec,
}

/// What a project object holds, as plain values.
pub struct AppProjectView {
    pub api_version: Seq<char>,
    pub kind: Seq<char>,
    pub name: Seq<char>,
    pub namespace: Seq<char>,
    pub destinations: Set<DestinationView>,
    pub cluster_resource_whitelist: Set<WhitelistView>,
    pub source_repos: Set<Seq<char>>,
}

impl View for AppProject {
    type V = AppProjectView;

    open spec fn view(&self) -> AppProjectView {
        AppProjectView {
            api_version: self.api_version@,
            kind: self.kind@,
            name: self.metadata.name@,
            namespace: self.metadata.namespace@,
            destinations: self.spec.destinations.members(),
            cluster_resource_whitelist: self.spec.cluster_resource_whitelist.members(),
            source_repos: self.spec.source_repos.members(),
        }
    }
}

/// The project object of the given name and namespace that allows nothing yet.
pub open spec fn empty_project(name: Seq<char>, namespace: Seq<char>) -> AppProjectView {
    AppProjectView {
        api_version: api_version_text(),
        kind: kind_text(),
        name,
        namespace,
        destinations: Set::empty(),
        cluster_resource_whitelist: Set::empty(),
        source_repos: Set::empty(),
    }
}

impl AppProject {
    /// A project object of the given name and namespace that allows nothing
    /// yet.
    pub fn new(name: String, namespace: String) -> (r: AppProject)
        ensures
            r@ == empty_project(name@, namespace@),
            r.spec.destinations.order().len() == 0,
            r.spec.cluster_resource_whitelist.order().len() == 0,
            r.spec.source_repos.order().len() == 0,
    {
        AppProject {
            api_version: "argoproj.io/v1alpha1".to_owned(),
            kind: "AppProject".to_owned(),
            metadata: AppProjectMetadata { name, namespace },
            spec: AppProjectSpec {
                destinations: EntrySet::new(),
                source_repos: EntrySet::new(),
                cluster_resource_whitelist: EntrySet::new(),
            },
        }
    }

    /// A copy of the project object.
    pub fn duplicate(&self) -> (r: AppProject)
        ensures
            r@ == self@,
            r.spec.destinations.order() == self.spec.destinations.order(),
            r.spec.cluster_resource_whitelist.order() == self.spec.cluster_resource_whitelist.order(),
            r.spec.source_repos.order() == self.spec.source_repos.order(),
    {
        AppProject {
            api_version: self.api_version.clone(),
            kind: self.kind.clone(),
            metadata: AppProjectMetadata {
                name: self.metadata.name.clone(),
                namespace: self.metadata.namespace.clone(),
            },
            spec: AppProjectSpec {
                destinations: self.spec.destinations.duplicate(),
                source_repos: self.spec.source_repos.duplicate(),
                cluster_resource_whitelist: self.spec.cluster_resource_whitelist.duplicate(),
            },
        }
    }
}

} // verus!
