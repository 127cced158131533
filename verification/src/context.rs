//! The rendering context of one application on one target.

use vstd::prelude::*;
use vstd::string::StringExecFns;
use crate::config::Metadata;
use crate::document::{Document, Object, Node};
use crate::error::{ErrorView, ProcessError};
use crate::sanitize::{sanitize_name, sanitized};

verus! {

/// What a template may know of the application it is rendered for.
#[derive(Debug, PartialEq, Eq)]
pub struct TemplateContext {
    pub namespace: String,
    pub project: String,
    pub app_name: String,
    pub normalized_project: String,
    pub normalized_app_name: String,
    pub path: String,
    pub target_name: String,
}

/// What a rendering context holds, as plain texts.
pub struct ContextView {
    pub namespace: Seq<char>,
    pub project: Seq<char>,
    pub app_name: Seq<char>,
    pub normalized_project: Seq<char>,
    pub normalized_app_name: Seq<char>,
    pub path: Seq<char>,
    pub target_name: Seq<char>,
}

impl View for TemplateContext {
    type V = ContextView;

    open spec fn view(&self) -> ContextView {
        ContextView {
            namespace: self.namespace@,
            project: self.project@,
            app_name: self.app_name@,
            normalized_project: self.normalized_project@,
            normalized_app_name: self.normalized_app_name@,
            path: self.path@,
            target_name: self.target_name@,
        }
    }
}

/// Where the files of an application go, below the output root:
/// `<target>/<project>/<application>`.
pub open spec fn output_path(target: Seq<char>, project: Seq<char>, app_name: Seq<char>) -> Seq<
    char,
> {
    target + seq!['/'] + project + seq!['/'] + app_name
}

/// The rendering context of the application `app_name` of `project` on
/// `target`. The namespace is the one that the metadata gives, or else the
/// sanitized project name.
pub open spec fn context_of(
    project: Seq<char>,
    app_name: Seq<char>,
    target: Seq<char>,
    namespace: Option<Seq<char>>,
) -> ContextView {
    ContextView {
        namespace: match namespace {
            Some(given) => given,
            None => sanitized(project),
        },
        project,
        app_name,
        normalized_project: sanitized(project),
        normalized_app_name: sanitized(app_name),
        path: output_path(target, project, app_name),
        target_name: target,
    }
}

/// The namespace that a metadata gives, as a plain text.
pub open spec fn given_namespace(metadata: &Metadata) -> Option<Seq<char>> {
    match metadata.namespace {
        Some(namespace) => Some(namespace@),
        None => None,
    }
}

/// The table that a template sees for a rendering context: one text under
/// the name of each field.
pub open spec fn context_table(c: ContextView) -> Map<Seq<char>, Document> {
    Map::<Seq<char>, Document>::empty().insert("namespace"@, Document::Text(c.namespace)).insert(
        "project"@,
        Document::Text(c.project),
    ).insert("app_name"@, Document::Text(c.app_name)).insert(
        "normalized_project"@,
        Document::Text(c.normalized_project),
    ).insert("normalized_app_name"@, Document::Text(c.normalized_app_name)).insert(
        "path"@,
        Document::Text(c.path),
    ).insert("target_name"@, Document::Text(c.target_name))
}

/// Computes the rendering context of an application on a target.
///
/// `project` is the base name of the directory above the application's
/// directory `app_dir`, and `app_name` the base name of that directory
/// itself; either is `None` where the folder structure has none. Fails with
/// a `LayoutError` that names `app_dir` exactly when one of the two is
/// missing.
pub fn template_context_for_dir(
    app_dir: &str,
    project: Option<String>,
    app_name: Option<String>,
    target_name: &str,
    metadata: &Metadata,
) -> (r: Result<TemplateContext, ProcessError>)
    ensures
        match r {
            Ok(context) => project is Some && app_name is Some && context@ == context_of(
                project->0@,
                app_name->0@,
                target_name@,
                given_namespace(metadata),
            ),
            Err(e) => (project is None || app_name is None) && e@ == (ErrorView::LayoutError {
                path: app_dir@,
            }),
        },
{
    let project = match project {
        Some(project) => project,
        None => {
            return Err(ProcessError::LayoutError { path: app_dir.to_owned() });
        },
    };
    let app_name = match app_name {
        Some(app_name) => app_name,
        None => {
            return Err(ProcessError::LayoutError { path: app_dir.to_owned() });
        },
    };
    let normalized_project = sanitize_name(project.as_str());
    let namespace = match &metadata.namespace {
        Some(namespace) => namespace.clone(),
        None => normalized_project.clone(),
    };
    let mut path = target_name.to_owned();
    path.append("/");
    path.append(project.as_str());
    path.append("/");
    path.append(app_name.as_str());
    proof {
        reveal_strlit("/");
        assert("/"@ =~= seq!['/']);
    }
    Ok(
        TemplateContext {
            namespace,
            normalized_project,
            normalized_app_name: sanitize_name(app_name.as_str()),
            project,
            app_name,
            path,
            target_name: target_name.to_owned(),
        },
    )
}

impl TemplateContext {
    /// The document that a template sees for this context.
    pub fn to_document(&self) -> (r: Node)
        ensures
            r@ == Document::Table(context_table(self@)),
    {
        let mut table = Object::new();
        table.insert("namespace".to_owned(), Node::String(self.namespace.clone()));
        table.insert("project".to_owned(), Node::String(self.project.clone()));
        table.insert("app_name".to_owned(), Node::String(self.app_name.clone()));
        table.insert(
            "normalized_project".to_owned(),
            Node::String(self.normalized_project.clone()),
        );
        table.insert(
            "normalized_app_name".to_owned(),
            Node::String(self.normalized_app_name.clone()),
        );
        table.insert("path".to_owned(), Node::String(self.path.clone()));
        table.insert("target_name".to_owned(), Node::String(self.target_name.clone()));
        Node::Object(table)
    }

    /// A copy of the context.
    pub fn duplicate(&self) -> (r: TemplateContext)
        ensures
            r@ == self@,
    {
        TemplateContext {
            namespace: self.namespace.clone(),
            project: self.project.clone(),
            app_name: self.app_name.clone(),
            normalized_project: self.normalized_project.clone(),
            normalized_app_name: self.normalized_app_name.clone(),
            path: self.path.clone(),
            target_name: self.target_name.clone(),
        }
    }
}

} // verus!
