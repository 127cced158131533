//! The fixed names of the input tree and of the output tree.

use vstd::prelude::*;

verus! {

/// The name of the configuration file, at the root of the input tree.
pub fn config_file_name() -> (r: &'static str)
    ensures
        r@ == "bargo.toml"@,
{
    "bargo.toml"
}

/// The name of the metadata file that marks a directory as an application.
pub fn metadata_file_name() -> (r: &'static str)
    ensures
        r@ == "metadata.toml"@,
{
    "metadata.toml"
}

/// The pattern, below the root of the input tree, of the metadata files.
pub fn metadata_pattern() -> (r: &'static str)
    ensures
        r@ == "**/metadata.toml"@,
{
    "**/metadata.toml"
}

/// The pattern, below the root of the input tree, of the template
/// fragments.
pub fn template_pattern() -> (r: &'static str)
    ensures
        r@ == "**/*.tera"@,
{
    "**/*.tera"
}

/// The name of the directory, below the directory of a target, that holds
/// the output files of the projects.
pub fn project_directory_name() -> (r: &'static str)
    ensures
        r@ == "argocd-config"@,
{
    "argocd-config"
}

} // verus!
