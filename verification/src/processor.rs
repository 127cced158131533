//! The project processor: the state of one generation pass and the steps
//! that it is made of.
//!
//! The processor reads and writes no file and runs no script. Its caller
//! walks the input tree and hands over what it found. The processor counts
//! each application in, in the aggregate of its project on each target,
//! renders its manifest with the template engine, and says what is left to
//! do; at the end it lists the output files. A fatal error ends the pass:
//! once one is recorded, every later step fails with it and changes
//! nothing. What was written before stays; nothing is rolled back.

use vstd::prelude::*;
use crate::aggregate::{
    aggregate_key, aggregates_of, append_manifest, count_in, counted_in, with_manifest,
    AggregateView, ArgoCDProject,
};
use crate::config::{Config, Metadata, MetadataTarget};
use crate::context::{
    context_of, context_table, given_namespace, template_context_for_dir, ContextView,
    TemplateContext,
};
use crate::document::{Document, Node};
use crate::engine::{engine_filters, engine_templates, render, with_filters, RenderFailure};
use crate::error::{ErrorView, ProcessError};
use crate::keyed::{
    distinct, keyed, lemma_keyed_at, lemma_keyed_empty, lemma_keyed_push, lemma_keyed_update,
    present,
};
use crate::merge::{merged, merged_value};
use crate::output::{project_file_location, project_file_path};

verus! {

/// The document that an optional document stands for: itself, or the empty
/// table where it is absent.
pub open spec fn document_or_empty(v: Option<Node>) -> Document {
    match v {
        Some(v) => v@,
        None => Document::Table(Map::empty()),
    }
}

/// The document that the application template is rendered with: the default
/// application options, overlaid by those of the metadata, overlaid by the
/// rendering context.
pub open spec fn application_document(
    config: &Config,
    metadata: &Metadata,
    context: ContextView,
) -> Document {
    merged(
        merged(
            document_or_empty(config.default_application_options),
            document_or_empty(metadata.application_options),
        ),
        Document::Table(context_table(context)),
    )
}

/// The variables that the files of an application are rendered with on a
/// target: those of the configuration, overlaid by those of the target.
pub open spec fn target_variables(config: &Config, target: &MetadataTarget) -> Document {
    merged(document_or_empty(config.vars), document_or_empty(target.vars))
}

/// True where the target `target` has an aggregate for the project
/// `project`.
pub open spec fn has_aggregate(
    aggregates: Map<Seq<char>, Map<Seq<char>, AggregateView>>,
    target: Seq<char>,
    project: Seq<char>,
) -> bool {
    aggregates.contains_key(target) && aggregates[target].contains_key(project)
}

/// The aggregates after an application with the given rendering context has
/// been counted in on the target `target`. Where the target is not
/// configured, nothing changes.
pub open spec fn counted_for(
    aggregates: Map<Seq<char>, Map<Seq<char>, AggregateView>>,
    config: &Config,
    target: Seq<char>,
    metadata: &Metadata,
    context: ContextView,
) -> Map<Seq<char>, Map<Seq<char>, AggregateView>> {
    if aggregates.contains_key(target) {
        aggregates.insert(
            target,
            counted_in(
                aggregates[target],
                context.normalized_project,
                config.argocd_namespace@,
                config.argocd_source_repo@,
                context.namespace,
                metadata,
            ),
        )
    } else {
        aggregates
    }
}

/// The text of an optional string.
pub open spec fn optional_text(s: Option<String>) -> Option<Seq<char>> {
    match s {
        Some(s) => Some(s@),
        None => None,
    }
}

/// A copy of an optional document, or the empty table where it is absent.
pub fn node_or_empty(v: &Option<Node>) -> (r: Node)
    ensures
        r@ == document_or_empty(*v),
{
    match v {
        Some(v) => v.duplicate(),
        None => Node::empty_object(),
    }
}

/// The cause that a render error carries: the message of the underlying
/// error where the engine names one, else the message of the engine.
pub open spec fn cause_of(failure: RenderFailure) -> Seq<char> {
    match failure.source {
        Some(source) => source@,
        None => failure.message@,
    }
}

/// The render error for a template that the engine failed on.
pub fn render_error(template: &str, application: &str, failure: RenderFailure) -> (r: ProcessError)
    ensures
        r@ == (ErrorView::RenderError {
            template: template@,
            application: application@,
            cause: cause_of(failure),
        }),
{
    let cause = match failure.source {
        Some(source) => source,
        None => failure.message,
    };
    ProcessError::RenderError {
        template: template.to_owned(),
        application: application.to_owned(),
        cause,
    }
}

/// What is to be rendered for one application on one target.
#[derive(Debug)]
pub struct Plan {
    /// The rendering context of the application on the target.
    pub context: TemplateContext,
    /// The name of the template that yields the application manifest.
    pub template_name: String,
    /// The document to render that template with.
    pub template_context: Node,
    /// The variables to render the files of the application with.
    pub vars: Node,
    /// The hook script to run once the files are in place.
    pub script: Option<String>,
}

/// What the processor planned for one target entry of an application.
#[derive(Debug)]
pub enum Planned {
    /// The target is not configured: the entry is passed over.
    Skipped,
    /// The application has been counted in, and its manifest is to be
    /// rendered.
    Render(Plan),
}

/// What is left to do for one application on one target, once its manifest
/// stands in the aggregate of its project.
#[derive(Debug)]
pub struct Deployment {
    /// The rendering context of the application on the target.
    pub context: TemplateContext,
    /// The manifest of the application, as it was rendered.
    pub manifest: String,
    /// The variables to render the files of the application with.
    pub vars: Node,
    /// The hook script to run once the files are in place.
    pub script: Option<String>,
}

/// What the processor did for one target entry of an application.
#[derive(Debug)]
pub enum Step {
    /// The target is not configured: the entry is passed over with a
    /// warning, and the pass goes on.
    Skipped,
    /// The application is deployed to the target.
    Deploy(Deployment),
}

/// One output file of a pass: the aggregate of one project on one target.
#[derive(Debug)]
pub struct ProjectFile {
    /// The target.
    pub target: String,
    /// Where the file goes, below the output root.
    pub path: String,
    /// The project object and the manifests that the file holds.
    pub aggregate: ArgoCDProject,
}

impl ProjectFile {
    /// The sanitized name of the project that the file is for.
    pub open spec fn project(&self) -> Seq<char> {
        self.aggregate.project.metadata.name@
    }
}

/// True of the output files of a pass with the given aggregates: each file
/// holds the aggregate of a project on a target and goes to its place, each
/// aggregate has a file, and no two files are for the same project on the
/// same target.
pub open spec fn files_of(
    files: Seq<ProjectFile>,
    aggregates: Map<Seq<char>, Map<Seq<char>, AggregateView>>,
) -> bool {
    &&& forall|k: int|
        0 <= k < files.len() ==> {
            let file = #[trigger] files[k];
            &&& has_aggregate(aggregates, file.target@, file.project())
            &&& file.aggregate@ == aggregates[file.target@][file.project()]
            &&& file.path@ == project_file_path(file.target@, file.project())
        }
    &&& forall|t: Seq<char>, p: Seq<char>| #[trigger]
        has_aggregate(aggregates, t, p) ==> exists|k: int|
            0 <= k < files.len() && (#[trigger] files[k]).target@ == t && files[k].project() == p
    &&& forall|k: int, l: int|
        0 <= k < l < files.len() ==> !((#[trigger] files[k]).target@ == (#[trigger] files[l]).target@
            && files[k].project() == files[l].project())
}

/// True where the pair of positions `(a, b)` is in the list.
spec fn listed(origin: Seq<(int, int)>, a: int, b: int) -> bool {
    exists|k: int| 0 <= k < origin.len() && #[trigger] origin[k] == (a, b)
}

/// The aggregates of one target.
#[derive(Debug)]
struct TargetAggregates {
    name: String,
    projects: Vec<ArgoCDProject>,
}

/// The state of one generation pass.
#[derive(Debug)]
pub struct ProjectProcessor {
    config: Config,
    application_template_name: String,
    targets: Vec<TargetAggregates>,
    failure: Option<ProcessError>,
    engine: tera::Tera,
}

spec fn target_key() -> spec_fn(TargetAggregates) -> Seq<char> {
    |t: TargetAggregates| t.name@
}

spec fn target_view() -> spec_fn(TargetAggregates) -> Map<Seq<char>, AggregateView> {
    |t: TargetAggregates| aggregates_of(t.projects@)
}

/// Finds the aggregates of the target `name`.
fn find_target(targets: &Vec<TargetAggregates>, name: &String) -> (r: Option<usize>)
    ensures
        match r {
            Some(i) => i < targets.len() && targets[i as int].name@ == name@,
            None => !present(targets@, target_key(), name@),
        },
{
    let mut i: usize = 0;
    while i < targets.len()
        invariant
            i <= targets.len(),
            forall|j: int| 0 <= j < i ==> (#[trigger] targets[j]).name@ != name@,
        decreases targets.len() - i,
    {
        if targets[i].name == *name {
            return Some(i);
        }
        i = i + 1;
    }
    assert forall|j: int| 0 <= j < targets.len() implies target_key()(#[trigger] targets@[j])
        != name@ by {
        assert(targets[j].name@ != name@);
    }
    None
}

impl ProjectProcessor {
    #[verifier::type_invariant]
    spec fn well_formed(&self) -> bool {
        &&& distinct(self.targets@, target_key())
        &&& forall|i: int|
            0 <= i < self.targets.len() ==> distinct(
                (#[trigger] self.targets[i]).projects@,
                aggregate_key(),
            )
    }

    /// The configuration of the pass.
    pub closed spec fn config(&self) -> Config {
        self.config
    }

    /// The name of the template that yields the application manifests.
    pub closed spec fn template_name(&self) -> Seq<char> {
        self.application_template_name@
    }

    /// The aggregates: for each configured target, the aggregate of each
    /// project by its sanitized name.
    pub closed spec fn aggregates(&self) -> Map<Seq<char>, Map<Seq<char>, AggregateView>> {
        keyed(self.targets@, target_key(), target_view())
    }

    /// The template engine of the pass.
    pub closed spec fn engine(&self) -> tera::Tera {
        self.engine
    }

    /// The fatal error that ended the pass, if one did.
    pub closed spec fn failure(&self) -> Option<ErrorView> {
        match self.failure {
            Some(e) => Some(e@),
            None => None,
        }
    }

    /// Starts a pass: every configured target has an empty map of
    /// aggregates, and no error has occurred. The engine holds the
    /// templates of the input tree; it is given the two filters.
    pub fn new(config: Config, application_template_name: String, engine: tera::Tera) -> (r:
        ProjectProcessor)
        ensures
            r.config() == config,
            r.template_name() == application_template_name@,
            r.failure() is None,
            engine_filters(r.engine()) == engine_filters(engine).insert("yaml_encode"@).insert(
                "nindent"@,
            ),
            engine_templates(r.engine()) == engine_templates(engine),
            forall|t: Seq<char>|
                r.aggregates().contains_key(t) <==> config.target_names().contains(t),
            forall|t: Seq<char>| #[trigger]
                r.aggregates().contains_key(t) ==> r.aggregates()[t] == Map::<
                    Seq<char>,
                    AggregateView,
                >::empty(),
    {
        let mut targets: Vec<TargetAggregates> = Vec::new();
        let mut i: usize = 0;
        proof {
            lemma_keyed_empty::<TargetAggregates, Map<Seq<char>, AggregateView>>(
                target_key(),
                target_view(),
            );
        }
        while i < config.targets.len()
            invariant
                i <= config.targets.len(),
                distinct(targets@, target_key()),
                forall|j: int| 0 <= j < targets.len() ==> (#[trigger] targets[j]).projects@.len() == 0,
                forall|t: Seq<char>|
                    present(targets@, target_key(), t) <==> exists|j: int|
                        0 <= j < i && (#[trigger] config.targets[j]).name@ == t,
            decreases config.targets.len() - i,
        {
            let name = &config.targets[i].name;
            let ghost before = targets@;
            match find_target(&targets, name) {
                Some(_) => {
                    assert forall|t: Seq<char>|
                        present(targets@, target_key(), t) <==> exists|j: int|
                            0 <= j < i + 1 && (#[trigger] config.targets[j]).name@ == t by {
                        if exists|j: int| 0 <= j < i + 1 && (#[trigger] config.targets[j]).name@ == t {
                            let j = choose|j: int|
                                0 <= j < i + 1 && (#[trigger] config.targets[j]).name@ == t;
                            if j == i {
                                assert(present(targets@, target_key(), name@));
                            } else {
                                assert(0 <= j < i && config.targets[j].name@ == t);
                            }
                        }
                        if present(targets@, target_key(), t) {
                            let j = choose|j: int|
                                0 <= j < i && (#[trigger] config.targets[j]).name@ == t;
                            assert(0 <= j < i + 1 && config.targets[j].name@ == t);
                        }
                    }
                },
                None => {
                    let entry = TargetAggregates { name: name.clone(), projects: Vec::new() };
                    targets.push(entry);
                    proof {
                        lemma_keyed_push(before, target_key(), target_view(), entry);
                        assert forall|t: Seq<char>|
                            present(targets@, target_key(), t) <==> exists|j: int|
                                0 <= j < i + 1 && (#[trigger] config.targets[j]).name@ == t by {
                            if exists|j: int|
                                0 <= j < i + 1 && (#[trigger] config.targets[j]).name@ == t {
                                let j = choose|j: int|
                                    0 <= j < i + 1 && (#[trigger] config.targets[j]).name@ == t;
                                if j == i {
                                    assert(target_key()(targets@[before.len() as int]) == t);
                                } else {
                                    assert(0 <= j < i && config.targets[j].name@ == t);
                                    assert(present(before, target_key(), t));
                                    let k = choose|k: int|
                                        0 <= k < before.len() && target_key()(#[trigger] before[k])
                                            == t;
                                    assert(target_key()(targets@[k]) == t);
                                }
                            }
                            if present(targets@, target_key(), t) {
                                let k = choose|k: int|
                                    0 <= k < targets@.len() && target_key()(#[trigger] targets@[k])
                                        == t;
                                if k < before.len() {
                                    assert(target_key()(before[k]) == t);
                                    assert(present(before, target_key(), t));
                                    let j = choose|j: int|
                                        0 <= j < i && (#[trigger] config.targets[j]).name@ == t;
                                    assert(0 <= j < i + 1 && config.targets[j].name@ == t);
                                } else {
                                    assert(0 <= i < i + 1 && config.targets[i as int].name@ == t);
                                }
                            }
                        }
                    }
                },
            }
            i = i + 1;
        }
        let r = ProjectProcessor {
            config,
            application_template_name,
            targets,
            failure: None,
            engine: with_filters(engine),
        };
        proof {
            assert forall|j: int| 0 <= j < r.targets.len() implies distinct(
                (#[trigger] r.targets[j]).projects@,
                aggregate_key(),
            ) by {}
            assert forall|t: Seq<char>|
                r.aggregates().contains_key(t) <==> config.target_names().contains(t) by {
                if config.target_names().contains(t) {
                    let j = choose|j: int|
                        0 <= j < config.target_names().len() && config.target_names()[j] == t;
                    assert(config.targets[j].name@ == t);
                }
                if r.aggregates().contains_key(t) {
                    let j = choose|j: int|
                        0 <= j < config.targets.len() && (#[trigger] config.targets[j]).name@ == t;
                    assert(config.target_names()[j] == t);
                }
            }
            assert forall|t: Seq<char>| #[trigger] r.aggregates().contains_key(t) implies r.aggregates()[t]
                == Map::<Seq<char>, AggregateView>::empty() by {
                let k = crate::keyed::position(r.targets@, target_key(), t);
                assert(r.targets[k].projects@ =~= Seq::<ArgoCDProject>::empty());
                lemma_keyed_empty::<ArgoCDProject, AggregateView>(
                    aggregate_key(),
                    crate::aggregate::aggregate_view(),
                );
            }
        }
        r
    }

    /// The configuration of the pass.
    pub fn configuration(&self) -> (r: &Config)
        ensures
            *r == self.config(),
    {
        &self.config
    }

    /// The aggregate of the project `project` on the target `target`, if
    /// there is one.
    pub fn aggregate(&self, target: &String, project: &String) -> (r: Option<&ArgoCDProject>)
        ensures
            match r {
                Some(found) => has_aggregate(self.aggregates(), target@, project@) && found@
                    == self.aggregates()[target@][project@],
                None => !has_aggregate(self.aggregates(), target@, project@),
            },
    {
        proof {
            use_type_invariant(self);
        }
        match find_target(&self.targets, target) {
            Some(a) => {
                proof {
                    lemma_keyed_at(self.targets@, target_key(), target_view(), a as int);
                }
                match crate::aggregate::find_aggregate(&self.targets[a].projects, project) {
                    Some(b) => {
                        proof {
                            lemma_keyed_at(
                                self.targets[a as int].projects@,
                                aggregate_key(),
                                crate::aggregate::aggregate_view(),
                                b as int,
                            );
                        }
                        Some(&self.targets[a].projects[b])
                    },
                    None => None,
                }
            },
            None => None,
        }
    }

    /// Decides whether `name` is a configured target.
    pub fn has_target(&self, name: &String) -> (r: bool)
        ensures
            r == self.aggregates().contains_key(name@),
    {
        find_target(&self.targets, name).is_some()
    }

    /// Decides whether a fatal error has ended the pass.
    pub fn has_failed(&self) -> (r: bool)
        ensures
            r == (self.failure() is Some),
    {
        self.failure.is_some()
    }

    /// The document to render the application template with.
    pub fn application_document(&self, metadata: &Metadata, context: &TemplateContext) -> (r: Node)
        ensures
            r@ == application_document(&self.config(), metadata, context@),
    {
        let defaults = node_or_empty(&self.config.default_application_options);
        let options = node_or_empty(&metadata.application_options);
        merged_value(merged_value(defaults, options), context.to_document())
    }

    /// The variables to render the files of an application with on a target.
    pub fn target_vars(&self, target: &MetadataTarget) -> (r: Node)
        ensures
            r@ == target_variables(&self.config(), target),
    {
        merged_value(node_or_empty(&self.config.vars), node_or_empty(&target.vars))
    }

    /// Counts an application in, in the aggregate of its project on the
    /// target `target_name`; the aggregate is made if there is none. Returns
    /// whether the target is configured; where it is not, nothing changes.
    pub fn create_or_update_app_project_for_dir(
        &mut self,
        target_name: &String,
        metadata: &Metadata,
        app_context: &TemplateContext,
    ) -> (r: bool)
        ensures
            r == old(self).aggregates().contains_key(target_name@),
            final(self).config() == old(self).config(),
            final(self).template_name() == old(self).template_name(),
            final(self).engine() == old(self).engine(),
            final(self).failure() == old(self).failure(),
            final(self).aggregates() == counted_for(
                old(self).aggregates(),
                &old(self).config(),
                target_name@,
                metadata,
                app_context@,
            ),
    {
        proof {
            use_type_invariant(&*self);
        }
        let index = match find_target(&self.targets, target_name) {
            Some(index) => index,
            None => {
                return false;
            },
        };
        let mut targets: Vec<TargetAggregates> = Vec::new();
        proof {
            lemma_keyed_empty::<TargetAggregates, Map<Seq<char>, AggregateView>>(
                target_key(),
                target_view(),
            );
        }
        core::mem::swap(&mut self.targets, &mut targets);
        let ghost before = targets@;
        let mut entry = targets.remove(index);
        count_in(
            &mut entry.projects,
            &app_context.normalized_project,
            &self.config.argocd_namespace,
            &self.config.argocd_source_repo,
            &app_context.namespace,
            metadata,
        );
        targets.insert(index, entry);
        proof {
            assert(targets@ =~= before.update(index as int, entry));
            lemma_keyed_at(before, target_key(), target_view(), index as int);
            lemma_keyed_update(before, target_key(), target_view(), index as int, entry);
            assert forall|i: int| 0 <= i < targets.len() implies distinct(
                (#[trigger] targets[i]).projects@,
                aggregate_key(),
            ) by {
                if i != index {
                    assert(targets[i] == before[i]);
                }
            }
        }
        core::mem::swap(&mut self.targets, &mut targets);
        true
    }

    /// Plans one target entry of an application, and counts the application
    /// in.
    ///
    /// `project` is the base name of the directory above the application's
    /// directory `app_dir`, and `app_name` the base name of that directory
    /// itself; either is `None` where the folder structure has none.
    ///
    /// Once a fatal error has been recorded, the step fails with it and
    /// changes nothing. Else, an entry for a target that is not configured
    /// is skipped, and nothing changes. Else, where the folder structure
    /// gives no project or no application name, the pass ends with a
    /// `LayoutError`. Else the application is counted in, in the aggregate
    /// of its project on the target, and the result says with what the
    /// manifest and the files of the application are to be rendered.
    pub fn prepare(
        &mut self,
        app_dir: &str,
        project: Option<String>,
        app_name: Option<String>,
        metadata: &Metadata,
        target: &MetadataTarget,
    ) -> (r: Result<Planned, ProcessError>)
        ensures
            final(self).config() == old(self).config(),
            final(self).template_name() == old(self).template_name(),
            final(self).engine() == old(self).engine(),
            match old(self).failure() {
                Some(e) => {
                    &&& r is Err
                    &&& r->Err_0@ == e
                    &&& final(self).failure() == old(self).failure()
                    &&& final(self).aggregates() == old(self).aggregates()
                },
                None => if !old(self).aggregates().contains_key(target.name@) {
                    &&& r is Ok
                    &&& r->Ok_0 is Skipped
                    &&& final(self).failure() is None
                    &&& final(self).aggregates() == old(self).aggregates()
                } else if project is None || app_name is None {
                    &&& r is Err
                    &&& r->Err_0@ == (ErrorView::LayoutError { path: app_dir@ })
                    &&& final(self).failure() == Some(r->Err_0@)
                    &&& final(self).aggregates() == old(self).aggregates()
                } else {
                    let context = context_of(
                        project->0@,
                        app_name->0@,
                        target.name@,
                        given_namespace(metadata),
                    );
                    &&& r is Ok
                    &&& r->Ok_0 is Render
                    &&& r->Ok_0->Render_0.context@ == context
                    &&& r->Ok_0->Render_0.template_name@ == old(self).template_name()
                    &&& r->Ok_0->Render_0.template_context@ == application_document(
                        &old(self).config(),
                        metadata,
                        context,
                    )
                    &&& r->Ok_0->Render_0.vars@ == target_variables(&old(self).config(), target)
                    &&& optional_text(r->Ok_0->Render_0.script) == optional_text(metadata.script)
                    &&& final(self).failure() is None
                    &&& final(self).aggregates() == counted_for(
                        old(self).aggregates(),
                        &old(self).config(),
                        target.name@,
                        metadata,
                        context,
                    )
                },
            },
    {
        if let Some(e) = &self.failure {
            return Err(e.duplicate());
        }
        if !self.has_target(&target.name) {
            return Ok(Planned::Skipped);
        }
        let context = match template_context_for_dir(
            app_dir,
            project,
            app_name,
            target.name.as_str(),
            metadata,
        ) {
            Ok(context) => context,
            Err(e) => {
                proof {
                    use_type_invariant(&*self);
                }
                self.failure = Some(e.duplicate());
                return Err(e);
            },
        };
        self.create_or_update_app_project_for_dir(&target.name, metadata, &context);
        let template_context = self.application_document(metadata, &context);
        let vars = self.target_vars(target);
        let script = match &metadata.script {
            Some(script) => Some(script.clone()),
            None => None,
        };
        Ok(
            Planned::Render(
                Plan {
                    context,
                    template_name: self.application_template_name.clone(),
                    template_context,
                    vars,
                    script,
                },
            ),
        )
    }

    /// Renders the template `template_name` with a document. A document that
    /// is no table is refused, with the message of the engine and nothing
    /// underneath; so is a template that the engine does not hold. Whether
    /// the engine renders a template that it holds with a table is for the
    /// engine to say.
    pub fn render_template(&self, template_name: &str, document: &Node) -> (r: Result<
        String,
        RenderFailure,
    >)
        ensures
            !(document@ is Table) ==> r is Err && r->Err_0.source is None,
            !engine_templates(self.engine()).contains(template_name@) ==> r is Err,
    {
        render(&self.engine, template_name, document)
    }

    /// Does what is to be done in the aggregates for one target entry of an
    /// application.
    ///
    /// `project` is the base name of the directory above the application's
    /// directory `app_dir`, and `app_name` the base name of that directory
    /// itself; either is `None` where the folder structure has none.
    ///
    /// Once a fatal error has been recorded, the step fails with it and
    /// changes nothing. Else, an entry for a target that is not configured
    /// is skipped, and nothing changes. Else, where the folder structure
    /// gives no project or no application name, the pass ends with a
    /// `LayoutError`. Else the application is counted in, in the aggregate
    /// of its project on the target, and its manifest is rendered. Where the
    /// engine fails, the pass ends with a `RenderError` that names the
    /// template and the application. Else the manifest is added behind the
    /// manifests of the aggregate, and the result says what is left to do:
    /// with which variables the files of the application are rendered, and
    /// which hook script is run.
    pub fn process(
        &mut self,
        app_dir: &str,
        project: Option<String>,
        app_name: Option<String>,
        metadata: &Metadata,
        target: &MetadataTarget,
    ) -> (r: Result<Step, ProcessError>)
        ensures
            final(self).config() == old(self).config(),
            final(self).template_name() == old(self).template_name(),
            final(self).engine() == old(self).engine(),
            match old(self).failure() {
                Some(e) => {
                    &&& r is Err
                    &&& r->Err_0@ == e
                    &&& final(self).failure() == old(self).failure()
                    &&& final(self).aggregates() == old(self).aggregates()
                },
                None => if !old(self).aggregates().contains_key(target.name@) {
                    &&& r is Ok
                    &&& r->Ok_0 is Skipped
                    &&& final(self).failure() is None
                    &&& final(self).aggregates() == old(self).aggregates()
                } else if project is None || app_name is None {
                    &&& r is Err
                    &&& r->Err_0@ == (ErrorView::LayoutError { path: app_dir@ })
                    &&& final(self).failure() == Some(r->Err_0@)
                    &&& final(self).aggregates() == old(self).aggregates()
                } else {
                    let context = context_of(
                        project->0@,
                        app_name->0@,
                        target.name@,
                        given_namespace(metadata),
                    );
                    let counted = counted_for(
                        old(self).aggregates(),
                        &old(self).config(),
                        target.name@,
                        metadata,
                        context,
                    );
                    match r {
                        Ok(step) => {
                            &&& step is Deploy
                            &&& step->Deploy_0.context@ == context
                            &&& step->Deploy_0.vars@ == target_variables(
                                &old(self).config(),
                                target,
                            )
                            &&& optional_text(step->Deploy_0.script) == optional_text(
                                metadata.script,
                            )
                            &&& final(self).failure() is None
                            &&& final(self).aggregates() == counted.insert(
                                target.name@,
                                with_manifest(
                                    counted[target.name@],
                                    context.normalized_project,
                                    step->Deploy_0.manifest@,
                                ),
                            )
                        },
                        Err(e) => {
                            &&& e@ is RenderError
                            &&& e@->RenderError_template == old(self).template_name()
                            &&& e@->RenderError_application == context.app_name
                            &&& final(self).failure() == Some(e@)
                            &&& final(self).aggregates() == counted
                        },
                    }
                },
            },
    {
        let plan = match self.prepare(app_dir, project, app_name, metadata, target) {
            Ok(Planned::Render(plan)) => plan,
            Ok(Planned::Skipped) => {
                return Ok(Step::Skipped);
            },
            Err(e) => {
                return Err(e);
            },
        };
        let rendered = self.render_template(plan.template_name.as_str(), &plan.template_context);
        let (manifest, rendered) = match rendered {
            Ok(text) => (text.clone(), Ok(text)),
            Err(failure) => (String::new(), Err(failure)),
        };
        match self.record_manifest(&plan.context, rendered) {
            Ok(()) => Ok(
                Step::Deploy(
                    Deployment {
                        context: plan.context,
                        manifest,
                        vars: plan.vars,
                        script: plan.script,
                    },
                ),
            ),
            Err(e) => Err(e),
        }
    }

    /// Renders a template fragment of an application with the variables of
    /// a target.
    ///
    /// Once a fatal error has been recorded, the step fails with it. Else,
    /// where the engine fails, the pass ends with a `RenderError` that names
    /// the template and the application.
    pub fn render_file(&mut self, template_name: &str, application: &str, vars: &Node) -> (r: Result<
        String,
        ProcessError,
    >)
        ensures
            final(self).config() == old(self).config(),
            final(self).template_name() == old(self).template_name(),
            final(self).engine() == old(self).engine(),
            final(self).aggregates() == old(self).aggregates(),
            match old(self).failure() {
                Some(e) => r is Err && r->Err_0@ == e && final(self).failure() == Some(e),
                None => match r {
                    Ok(_) => vars@ is Table && final(self).failure() is None,
                    Err(e) => {
                        &&& e@ is RenderError
                        &&& e@->RenderError_template == template_name@
                        &&& e@->RenderError_application == application@
                        &&& final(self).failure() == Some(e@)
                    },
                },
            },
    {
        proof {
            use_type_invariant(&*self);
        }
        if let Some(e) = &self.failure {
            return Err(e.duplicate());
        }
        match self.render_template(template_name, vars) {
            Ok(text) => Ok(text),
            Err(failure) => {
                let e = render_error(template_name, application, failure);
                self.failure = Some(e.duplicate());
                Err(e)
            },
        }
    }

    /// Takes the rendered manifest of an application, or the reason why the
    /// template engine gave none.
    ///
    /// Once a fatal error has been recorded, the step fails with it and
    /// changes nothing. Else, where the engine failed, the pass ends with a
    /// `RenderError` that names the template and the application and
    /// carries the underlying cause. Else the manifest is added behind the manifests of
    /// the aggregate that the context belongs to; where there is no such
    /// aggregate, because the application was never counted in, the pass
    /// ends with a `LayoutError` that names the path of the context.
    pub fn record_manifest(
        &mut self,
        context: &TemplateContext,
        rendered: Result<String, RenderFailure>,
    ) -> (r: Result<(), ProcessError>)
        ensures
            final(self).config() == old(self).config(),
            final(self).template_name() == old(self).template_name(),
            final(self).engine() == old(self).engine(),
            match old(self).failure() {
                Some(e) => {
                    &&& r is Err
                    &&& r->Err_0@ == e
                    &&& final(self).failure() == old(self).failure()
                    &&& final(self).aggregates() == old(self).aggregates()
                },
                None => match rendered {
                    Err(failure) => {
                        &&& r is Err
                        &&& r->Err_0@ == (ErrorView::RenderError {
                            template: old(self).template_name(),
                            application: context.app_name@,
                            cause: cause_of(failure),
                        })
                        &&& final(self).failure() == Some(r->Err_0@)
                        &&& final(self).aggregates() == old(self).aggregates()
                    },
                    Ok(manifest) => if has_aggregate(
                        old(self).aggregates(),
                        context.target_name@,
                        context.normalized_project@,
                    ) {
                        &&& r is Ok
                        &&& final(self).failure() is None
                        &&& final(self).aggregates() == old(self).aggregates().insert(
                            context.target_name@,
                            with_manifest(
                                old(self).aggregates()[context.target_name@],
                                context.normalized_project@,
                                manifest@,
                            ),
                        )
                    } else {
                        &&& r is Err
                        &&& r->Err_0@ == (ErrorView::LayoutError { path: context.path@ })
                        &&& final(self).failure() == Some(r->Err_0@)
                        &&& final(self).aggregates() == old(self).aggregates()
                    },
                },
            },
    {
        proof {
            use_type_invariant(&*self);
        }
        if let Some(e) = &self.failure {
            return Err(e.duplicate());
        }
        let manifest = match rendered {
            Ok(manifest) => manifest,
            Err(failure) => {
                let e = render_error(
                    self.application_template_name.as_str(),
                    context.app_name.as_str(),
                    failure,
                );
                self.failure = Some(e.duplicate());
                return Err(e);
            },
        };
        let index = match find_target(&self.targets, &context.target_name) {
            Some(index) => index,
            None => {
                let e = ProcessError::LayoutError { path: context.path.clone() };
                self.failure = Some(e.duplicate());
                return Err(e);
            },
        };
        let mut targets: Vec<TargetAggregates> = Vec::new();
        proof {
            lemma_keyed_empty::<TargetAggregates, Map<Seq<char>, AggregateView>>(
                target_key(),
                target_view(),
            );
        }
        core::mem::swap(&mut self.targets, &mut targets);
        let ghost before = targets@;
        let mut entry = targets.remove(index);
        let ghost projects_before = entry.projects@;
        let added = append_manifest(&mut entry.projects, &context.normalized_project, manifest);
        targets.insert(index, entry);
        proof {
            assert(targets@ =~= before.update(index as int, entry));
            lemma_keyed_at(before, target_key(), target_view(), index as int);
            lemma_keyed_update(before, target_key(), target_view(), index as int, entry);
            assert forall|i: int| 0 <= i < targets.len() implies distinct(
                (#[trigger] targets[i]).projects@,
                aggregate_key(),
            ) by {
                if i != index {
                    assert(targets[i] == before[i]);
                }
            }
            if !added {
                assert(keyed(targets@, target_key(), target_view()) =~= keyed(
                    before,
                    target_key(),
                    target_view(),
                ));
            }
        }
        core::mem::swap(&mut self.targets, &mut targets);
        if added {
            Ok(())
        } else {
            let e = ProcessError::LayoutError { path: context.path.clone() };
            self.failure = Some(e.duplicate());
            Err(e)
        }
    }

    /// Ends the pass: the output files, one for each project of each target.
    /// Fails with the fatal error of the pass if one has been recorded.
    pub fn finish(&self) -> (r: Result<Vec<ProjectFile>, ProcessError>)
        ensures
            match self.failure() {
                Some(e) => r is Err && r->Err_0@ == e,
                None => r is Ok && files_of(r->Ok_0@, self.aggregates()),
            },
    {
        proof {
            use_type_invariant(self);
        }
        if let Some(e) = &self.failure {
            return Err(e.duplicate());
        }
        let mut files: Vec<ProjectFile> = Vec::new();
        let ghost mut origin: Seq<(int, int)> = Seq::empty();
        let mut i: usize = 0;
        while i < self.targets.len()
            invariant
                i <= self.targets.len(),
                distinct(self.targets@, target_key()),
                forall|a: int|
                    0 <= a < self.targets.len() ==> distinct(
                        (#[trigger] self.targets[a]).projects@,
                        aggregate_key(),
                    ),
                origin.len() == files.len(),
                forall|k: int|
                    0 <= k < files.len() ==> {
                        let o = #[trigger] origin[k];
                        &&& 0 <= o.0 < i
                        &&& 0 <= o.1 < self.targets[o.0].projects.len()
                        &&& self.holds(files[k], o.0, o.1)
                    },
                forall|a: int, b: int|
                    0 <= a < i && 0 <= b < self.targets[a].projects.len() ==> #[trigger] listed(
                        origin,
                        a,
                        b,
                    ),
                forall|k: int, l: int|
                    0 <= k < l < files.len() ==> #[trigger] origin[k] != #[trigger] origin[l],
            decreases self.targets.len() - i,
        {
            let target = &self.targets[i];
            let mut j: usize = 0;
            while j < target.projects.len()
                invariant
                    i < self.targets.len(),
                    *target == self.targets[i as int],
                    j <= target.projects.len(),
                    origin.len() == files.len(),
                    forall|k: int|
                        0 <= k < files.len() ==> {
                            let o = #[trigger] origin[k];
                            &&& 0 <= o.0 <= i
                            &&& 0 <= o.1 < self.targets[o.0].projects.len()
                            &&& o.0 == i ==> o.1 < j
                            &&& self.holds(files[k], o.0, o.1)
                        },
                    forall|a: int, b: int|
                        0 <= a < i && 0 <= b < self.targets[a].projects.len() ==> #[trigger] listed(
                            origin,
                            a,
                            b,
                        ),
                    forall|b: int| 0 <= b < j ==> #[trigger] listed(origin, i as int, b),
                    forall|k: int, l: int|
                        0 <= k < l < files.len() ==> #[trigger] origin[k] != #[trigger] origin[l],
                decreases target.projects.len() - j,
            {
                let aggregate = &target.projects[j];
                let file = ProjectFile {
                    target: target.name.clone(),
                    path: project_file_location(
                        target.name.as_str(),
                        aggregate.project.metadata.name.as_str(),
                    ),
                    aggregate: aggregate.duplicate(),
                };
                let ghost files_before = files@;
                let ghost origin_before = origin;
                files.push(file);
                proof {
                    origin = origin.push((i as int, j as int));
                    assert forall|a: int, b: int|
                        0 <= a < i && 0 <= b < self.targets[a].projects.len() implies #[trigger] listed(
                        origin,
                        a,
                        b,
                    ) by {
                        assert(listed(origin_before, a, b));
                        let k = choose|k: int|
                            0 <= k < origin_before.len() && #[trigger] origin_before[k] == (a, b);
                        assert(origin[k] == (a, b));
                    }
                    assert forall|b: int| 0 <= b < j + 1 implies #[trigger] listed(
                        origin,
                        i as int,
                        b,
                    ) by {
                        if b < j {
                            assert(listed(origin_before, i as int, b));
                            let k = choose|k: int|
                                0 <= k < origin_before.len() && #[trigger] origin_before[k] == (
                                    i as int,
                                    b,
                                );
                            assert(origin[k] == (i as int, b));
                        } else {
                            assert(origin[origin_before.len() as int] == (i as int, b));
                        }
                    }
                    assert forall|k: int, l: int| 0 <= k < l < files.len() implies #[trigger] origin[k]
                        != #[trigger] origin[l] by {
                        if l < files_before.len() {
                            assert(origin_before[k] != origin_before[l]);
                        } else {
                            assert(origin[k] == origin_before[k]);
                        }
                    }
                }
                j = j + 1;
            }
            i = i + 1;
        }
        proof {
            let aggregates = self.aggregates();
            assert forall|k: int| 0 <= k < files.len() implies {
                let file = #[trigger] files@[k];
                &&& has_aggregate(aggregates, file.target@, file.project())
                &&& file.aggregate@ == aggregates[file.target@][file.project()]
                &&& file.path@ == project_file_path(file.target@, file.project())
            } by {
                let o = origin[k];
                self.lemma_holds(files@[k], o.0, o.1);
            }
            assert forall|t: Seq<char>, p: Seq<char>| #[trigger]
                has_aggregate(aggregates, t, p) implies exists|k: int|
                0 <= k < files.len() && (#[trigger] files@[k]).target@ == t && files@[k].project()
                    == p by {
                let a = crate::keyed::position(self.targets@, target_key(), t);
                lemma_keyed_at(self.targets@, target_key(), target_view(), a);
                let projects = self.targets[a].projects@;
                let b = crate::keyed::position(projects, aggregate_key(), p);
                assert(present(projects, aggregate_key(), p));
                assert(listed(origin, a, b));
                let k = choose|k: int| 0 <= k < origin.len() && #[trigger] origin[k] == (a, b);
                assert(files@[k].target@ == t && files@[k].project() == p);
            }
            assert forall|k: int, l: int| 0 <= k < l < files.len() implies !((
            #[trigger] files@[k]).target@ == (#[trigger] files@[l]).target@ && files@[k].project()
                == files@[l].project()) by {
                let o = origin[k];
                let q = origin[l];
                assert(o != q);
                if o.0 != q.0 {
                    if o.0 < q.0 {
                        assert(target_key()(self.targets@[o.0]) != target_key()(self.targets@[q.0]));
                    } else {
                        assert(target_key()(self.targets@[q.0]) != target_key()(self.targets@[o.0]));
                    }
                } else {
                    let projects = self.targets[o.0].projects@;
                    if o.1 < q.1 {
                        assert(aggregate_key()(projects[o.1]) != aggregate_key()(projects[q.1]));
                    } else {
                        assert(aggregate_key()(projects[q.1]) != aggregate_key()(projects[o.1]));
                    }
                }
            }
        }
        Ok(files)
    }

    /// True where `file` holds the aggregate at position `b` of the target
    /// at position `a`.
    spec fn holds(&self, file: ProjectFile, a: int, b: int) -> bool {
        let target = self.targets[a];
        let aggregate = target.projects[b];
        &&& file.target@ == target.name@
        &&& file.project() == aggregate.project.metadata.name@
        &&& file.aggregate@ == aggregate@
        &&& file.path@ == project_file_path(file.target@, file.project())
    }

    proof fn lemma_holds(&self, file: ProjectFile, a: int, b: int)
        requires
            distinct(self.targets@, target_key()),
            0 <= a < self.targets.len(),
            distinct(self.targets[a].projects@, aggregate_key()),
            0 <= b < self.targets[a].projects.len(),
            self.holds(file, a, b),
        ensures
            has_aggregate(self.aggregates(), file.target@, file.project()),
            file.aggregate@ == self.aggregates()[file.target@][file.project()],
            file.path@ == project_file_path(file.target@, file.project()),
    {
        lemma_keyed_at(self.targets@, target_key(), target_view(), a);
        lemma_keyed_at(
            self.targets[a].projects@,
            aggregate_key(),
            crate::aggregate::aggregate_view(),
            b,
        );
    }

    /// Records a fatal error that the caller met, such as a file that could
    /// not be written. The first fatal error of a pass stays: returns the
    /// error that ended the pass.
    pub fn fail(&mut self, error: ProcessError) -> (r: ProcessError)
        ensures
            final(self).config() == old(self).config(),
            final(self).template_name() == old(self).template_name(),
            final(self).engine() == old(self).engine(),
            final(self).aggregates() == old(self).aggregates(),
            final(self).failure() == Some(r@),
            r@ == match old(self).failure() {
                Some(e) => e,
                None => error@,
            },
    {
        proof {
            use_type_invariant(&*self);
        }
        if let Some(e) = &self.failure {
            return e.duplicate();
        }
        self.failure = Some(error.duplicate());
        error
    }

    /// Takes the outcome of a hook script: whether it exited with success,
    /// and what it wrote to its standard output.
    ///
    /// Once a fatal error has been recorded, the step fails with it. Else a
    /// script that exited with a failure ends the pass with a `HookError`
    /// that carries the output.
    pub fn hook_finished(&mut self, success: bool, output: Vec<u8>) -> (r: Result<(), ProcessError>)
        ensures
            final(self).config() == old(self).config(),
            final(self).template_name() == old(self).template_name(),
            final(self).engine() == old(self).engine(),
            final(self).aggregates() == old(self).aggregates(),
            match old(self).failure() {
                Some(e) => r is Err && r->Err_0@ == e && final(self).failure() == Some(e),
                None => if success {
                    r is Ok && final(self).failure() is None
                } else {
                    &&& r is Err
                    &&& r->Err_0@ == (ErrorView::HookError { output: output@ })
                    &&& final(self).failure() == Some(r->Err_0@)
                },
            },
    {
        proof {
            use_type_invariant(&*self);
        }
        if let Some(e) = &self.failure {
            return Err(e.duplicate());
        }
        if success {
            Ok(())
        } else {
            let e = ProcessError::HookError { output };
            self.failure = Some(e.duplicate());
            Err(e)
        }
    }
}

} // verus!
