//! The shapes of what the operator writes: the command line, the
//! configuration of a run, and the metadata of an application.

use vstd::prelude::*;
use crate::app_project::AppProjectClusterResourceWhitelist;
use crate::document::Node;

verus! {

/// The command line: where to read and where to write.
#[derive(Debug, PartialEq, Eq)]
pub struct Args {
    pub input_path: Option<String>,
    pub output_path: Option<String>,
}

impl Args {
    /// The directory to read from: the one given, or the current directory.
    pub fn input_root(&self) -> (r: String)
        ensures
            r@ == match self.input_path {
                Some(path) => path@,
                None => "."@,
            },
    {
        match &self.input_path {
            Some(path) => path.clone(),
            None => ".".to_owned(),
        }
    }
}

/// A deployment target that the configuration names.
#[derive(Debug, PartialEq, Eq)]
pub struct ConfigTarget {
    pub name: String,
}

/// The configuration of a run.
#[derive(Debug)]
pub struct Config {
    pub application_template: String,
    pub argocd_namespace: String,
    pub argocd_source_repo: String,
    pub targets: Vec<ConfigTarget>,
    pub vars: Option<Node>,
    pub default_application_options: Option<Node>,
}

/// A target that an application deploys to, with the variables that hold
/// for it there.
#[derive(Debug)]
pub struct MetadataTarget {
    pub name: String,
    pub vars: Option<Node>,
}

/// What an application adds to the access-control object of its project.
#[derive(Debug)]
pub struct MetadataProjectOptions {
    pub additional_namespaces: Option<Vec<String>>,
    pub cluster_resource_whitelist: Option<Vec<AppProjectClusterResourceWhitelist>>,
}

/// The metadata of one application.
#[derive(Debug)]
pub struct Metadata {
    pub namespace: Option<String>,
    pub script: Option<String>,
    pub application_options: Option<Node>,
    pub targets: Vec<MetadataTarget>,
    pub project_options: Option<MetadataProjectOptions>,
}

impl Config {
    /// The names of the configured targets, in the order of the
    /// configuration.
    pub open spec fn target_names(&self) -> Seq<Seq<char>> {
        self.targets@.map_values(|t: ConfigTarget| t.name@)
    }
}

} // verus!
