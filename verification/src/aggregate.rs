//! What the applications of one project add up to on one target: the access
//! rights of the project and the rendered manifests of its applications.

use vstd::prelude::*;
use crate::app_project::{
    empty_project, AppProject, AppProjectClusterResourceWhitelist, AppProjectDestination,
    AppProjectView, DestinationView, WhitelistView,
};
use crate::config::Metadata;
use crate::entry_set::SetEntry;
use crate::keyed::{distinct, keyed, lemma_keyed_at, lemma_keyed_push, lemma_keyed_update, present};

verus! {

/// The project object of one project on one target, and the manifests of the
/// applications of that project in the order in which they were added.
#[derive(Debug)]
pub struct ArgoCDProject {
    pub project: AppProject,
    pub applications: Vec<String>,
}

/// What an aggregate holds, as plain values.
pub struct AggregateView {
    pub project: AppProjectView,
    pub applications: Seq<Seq<char>>,
}

/// The texts of a list of strings.
pub open spec fn texts(v: Seq<String>) -> Seq<Seq<char>> {
    v.map_values(|s: String| s@)
}

impl View for ArgoCDProject {
    type V = AggregateView;

    open spec fn view(&self) -> AggregateView {
        AggregateView { project: self.project@, applications: texts(self.applications@) }
    }
}

impl ArgoCDProject {
    /// A copy of the aggregate.
    pub fn duplicate(&self) -> (r: ArgoCDProject)
        ensures
            r@ == self@,
            r.project.spec.destinations.order() == self.project.spec.destinations.order(),
            r.project.spec.cluster_resource_whitelist.order()
                == self.project.spec.cluster_resource_whitelist.order(),
            r.project.spec.source_repos.order() == self.project.spec.source_repos.order(),
    {
        let mut applications: Vec<String> = Vec::new();
        let mut i: usize = 0;
        while i < self.applications.len()
            invariant
                i <= self.applications.len(),
                texts(applications@) == texts(self.applications@).subrange(0, i as int),
            decreases self.applications.len() - i,
        {
            let ghost before = texts(applications@);
            let copy = self.applications[i].clone();
            applications.push(copy);
            assert(texts(applications@) =~= before.push(copy@));
            assert(before.push(copy@) =~= texts(self.applications@).subrange(0, i + 1));
            i = i + 1;
        }
        assert(texts(self.applications@).subrange(0, i as int) =~= texts(self.applications@));
        ArgoCDProject { project: self.project.duplicate(), applications }
    }
}

/// The name under which an aggregate is found: the name of its project
/// object.
pub open spec fn aggregate_key() -> spec_fn(ArgoCDProject) -> Seq<char> {
    |a: ArgoCDProject| a.project.metadata.name@
}

/// What an aggregate stands for.
pub open spec fn aggregate_view() -> spec_fn(ArgoCDProject) -> AggregateView {
    |a: ArgoCDProject| a@
}

/// The aggregates of one target, by project name.
pub open spec fn aggregates_of(s: Seq<ArgoCDProject>) -> Map<Seq<char>, AggregateView> {
    keyed(s, aggregate_key(), aggregate_view())
}

/// The destination inside the cluster with the given namespace.
pub open spec fn in_cluster(namespace: Seq<char>) -> DestinationView {
    DestinationView {
        name: "in-cluster"@,
        namespace,
        server: "https://kubernetes.devault.svc"@,
    }
}

/// The whitelist entry that lets a project create namespaces.
pub open spec fn namespace_kind() -> WhitelistView {
    WhitelistView { group: ""@, kind: "Namespace"@ }
}

/// The destinations of the first `n` of the given namespaces.
pub open spec fn destinations_of(namespaces: Seq<String>, n: int) -> Set<DestinationView> {
    Set::new(
        |d: DestinationView|
            exists|i: int| 0 <= i < n && i < namespaces.len() && d == in_cluster(#[trigger] namespaces[i]@),
    )
}

/// The first `n` of the given whitelist entries.
pub open spec fn whitelist_of(entries: Seq<AppProjectClusterResourceWhitelist>, n: int) -> Set<
    WhitelistView,
> {
    Set::new(
        |w: WhitelistView| exists|i: int| 0 <= i < n && i < entries.len() && w == (#[trigger] entries[i])@,
    )
}

/// The destinations that the project options of an application add: one
/// inside the cluster for each additional namespace.
pub open spec fn additional_destinations(metadata: &Metadata) -> Set<DestinationView> {
    match metadata.project_options {
        Some(options) => match options.additional_namespaces {
            Some(namespaces) => destinations_of(namespaces@, namespaces@.len() as int),
            None => Set::empty(),
        },
        None => Set::empty(),
    }
}

/// The whitelist entries that the project options of an application add.
pub open spec fn additional_whitelist(metadata: &Metadata) -> Set<WhitelistView> {
    match metadata.project_options {
        Some(options) => match options.cluster_resource_whitelist {
            Some(entries) => whitelist_of(entries@, entries@.len() as int),
            None => Set::empty(),
        },
        None => Set::empty(),
    }
}

/// The project object after an application with the given namespace and
/// metadata has been counted in: the source repository, the destination of
/// the application and the namespace whitelist entry are members, and so is
/// all that the project options of the application add.
pub open spec fn with_application(
    p: AppProjectView,
    repo: Seq<char>,
    namespace: Seq<char>,
    metadata: &Metadata,
) -> AppProjectView {
    AppProjectView {
        source_repos: p.source_repos.insert(repo),
        destinations: p.destinations.insert(in_cluster(namespace)).union(
            additional_destinations(metadata),
        ),
        cluster_resource_whitelist: p.cluster_resource_whitelist.insert(namespace_kind()).union(
            additional_whitelist(metadata),
        ),
        ..p
    }
}

/// Counting the same application in a second time changes nothing: each of
/// the three sets holds every member once, however often it is inserted.
pub proof fn lemma_with_application_idempotent(
    p: AppProjectView,
    repo: Seq<char>,
    namespace: Seq<char>,
    metadata: &Metadata,
)
    ensures
        with_application(with_application(p, repo, namespace, metadata), repo, namespace, metadata)
            == with_application(p, repo, namespace, metadata),
{
    let once = with_application(p, repo, namespace, metadata);
    let twice = with_application(once, repo, namespace, metadata);
    assert(twice.source_repos =~= once.source_repos);
    assert(twice.destinations =~= once.destinations);
    assert(twice.cluster_resource_whitelist =~= once.cluster_resource_whitelist);
}

/// The order in which two applications are counted in does not matter to
/// what the sets hold.
pub proof fn lemma_with_application_commutes(
    p: AppProjectView,
    repo: Seq<char>,
    first_namespace: Seq<char>,
    first: &Metadata,
    second_namespace: Seq<char>,
    second: &Metadata,
)
    ensures
        with_application(
            with_application(p, repo, first_namespace, first),
            repo,
            second_namespace,
            second,
        ) == with_application(
            with_application(p, repo, second_namespace, second),
            repo,
            first_namespace,
            first,
        ),
{
    let a = with_application(
        with_application(p, repo, first_namespace, first),
        repo,
        second_namespace,
        second,
    );
    let b = with_application(
        with_application(p, repo, second_namespace, second),
        repo,
        first_namespace,
        first,
    );
    assert(a.source_repos =~= b.source_repos);
    assert(a.destinations =~= b.destinations);
    assert(a.cluster_resource_whitelist =~= b.cluster_resource_whitelist);
}

/// Makes the destination inside the cluster with the given namespace.
pub fn in_cluster_destination(namespace: String) -> (r: AppProjectDestination)
    ensures
        r@ == in_cluster(namespace@),
{
    AppProjectDestination {
        name: "in-cluster".to_owned(),
        namespace,
        server: "https://kubernetes.devault.svc".to_owned(),
    }
}

/// Counts an application in.
pub fn add_application_rights(
    project: &mut AppProject,
    repo: &String,
    namespace: &String,
    metadata: &Metadata,
)
    ensures
        final(project)@ == with_application(old(project)@, repo@, namespace@, metadata),
        final(project).metadata.name == old(project).metadata.name,
{
    project.spec.source_repos.insert(repo.clone());
    project.spec.destinations.insert(in_cluster_destination(namespace.clone()));
    project.spec.cluster_resource_whitelist.insert(
        AppProjectClusterResourceWhitelist { group: "".to_owned(), kind: "Namespace".to_owned() },
    );
    let ghost base_destinations = project.spec.destinations.members();
    let ghost base_whitelist = project.spec.cluster_resource_whitelist.members();
    match &metadata.project_options {
        Some(options) => {
            match &options.additional_namespaces {
                Some(namespaces) => {
                    let mut i: usize = 0;
                    assert(destinations_of(namespaces@, 0) =~= Set::<DestinationView>::empty());
                    while i < namespaces.len()
                        invariant
                            i <= namespaces.len(),
                            project.spec.destinations.members() == base_destinations.union(
                                destinations_of(namespaces@, i as int),
                            ),
                            project.spec.cluster_resource_whitelist.members() == base_whitelist,
                            project.spec.source_repos.members() == old(
                                project,
                            ).spec.source_repos.members().insert(repo@),
                            project.api_version == old(project).api_version,
                            project.kind == old(project).kind,
                            project.metadata == old(project).metadata,
                        decreases namespaces.len() - i,
                    {
                        let ghost before = project.spec.destinations.members();
                        project.spec.destinations.insert(
                            in_cluster_destination(namespaces[i].clone()),
                        );
                        proof {
                            let d = in_cluster(namespaces[i as int]@);
                            assert(destinations_of(namespaces@, i + 1) =~= destinations_of(
                                namespaces@,
                                i as int,
                            ).insert(d)) by {
                                assert forall|x: DestinationView|
                                    destinations_of(namespaces@, i + 1).contains(x)
                                        <==> destinations_of(namespaces@, i as int).insert(
                                        d,
                                    ).contains(x) by {
                                    if destinations_of(namespaces@, i + 1).contains(x) {
                                        let j = choose|j: int|
                                            0 <= j < i + 1 && j < namespaces@.len() && x
                                                == in_cluster(#[trigger] namespaces@[j]@);
                                        if j < i {
                                            assert(destinations_of(namespaces@, i as int).contains(x));
                                        }
                                    }
                                    if destinations_of(namespaces@, i as int).contains(x) {
                                        let j = choose|j: int|
                                            0 <= j < i && j < namespaces@.len() && x == in_cluster(
                                                #[trigger] namespaces@[j]@,
                                            );
                                        assert(0 <= j < i + 1 && x == in_cluster(namespaces@[j]@));
                                    }
                                    if x == d {
                                        assert(0 <= i < i + 1 && x == in_cluster(
                                            namespaces@[i as int]@,
                                        ));
                                    }
                                }
                            }
                            assert(before.insert(d) =~= base_destinations.union(
                                destinations_of(namespaces@, i + 1),
                            ));
                        }
                        i = i + 1;
                    }
                },
                None => {
                    assert(project.spec.destinations.members() =~= base_destinations.union(
                        Set::empty(),
                    ));
                },
            }
            match &options.cluster_resource_whitelist {
                Some(entries) => {
                    let mut i: usize = 0;
                    assert(whitelist_of(entries@, 0) =~= Set::<WhitelistView>::empty());
                    let ghost destinations = project.spec.destinations.members();
                    while i < entries.len()
                        invariant
                            i <= entries.len(),
                            project.spec.cluster_resource_whitelist.members()
                                == base_whitelist.union(whitelist_of(entries@, i as int)),
                            project.spec.destinations.members() == destinations,
                            project.spec.source_repos.members() == old(
                                project,
                            ).spec.source_repos.members().insert(repo@),
                            project.api_version == old(project).api_version,
                            project.kind == old(project).kind,
                            project.metadata == old(project).metadata,
                        decreases entries.len() - i,
                    {
                        let ghost before = project.spec.cluster_resource_whitelist.members();
                        project.spec.cluster_resource_whitelist.insert(entries[i].duplicate());
                        proof {
                            let w = entries[i as int]@;
                            assert(whitelist_of(entries@, i + 1) =~= whitelist_of(
                                entries@,
                                i as int,
                            ).insert(w)) by {
                                assert forall|x: WhitelistView|
                                    whitelist_of(entries@, i + 1).contains(x) <==> whitelist_of(
                                        entries@,
                                        i as int,
                                    ).insert(w).contains(x) by {
                                    if whitelist_of(entries@, i + 1).contains(x) {
                                        let j = choose|j: int|
                                            0 <= j < i + 1 && j < entries@.len() && x == (
                                            #[trigger] entries@[j])@;
                                        if j < i {
                                            assert(whitelist_of(entries@, i as int).contains(x));
                                        }
                                    }
                                    if whitelist_of(entries@, i as int).contains(x) {
                                        let j = choose|j: int|
                                            0 <= j < i && j < entries@.len() && x == (
                                            #[trigger] entries@[j])@;
                                        assert(0 <= j < i + 1 && x == entries@[j]@);
                                    }
                                    if x == w {
                                        assert(0 <= i < i + 1 && x == entries@[i as int]@);
                                    }
                                }
                            }
                            assert(before.insert(w) =~= base_whitelist.union(
                                whitelist_of(entries@, i + 1),
                            ));
                        }
                        i = i + 1;
                    }
                },
                None => {
                    assert(project.spec.cluster_resource_whitelist.members()
                        =~= base_whitelist.union(Set::empty()));
                },
            }
        },
        None => {
            assert(project.spec.destinations.members() =~= base_destinations.union(Set::empty()));
            assert(project.spec.cluster_resource_whitelist.members() =~= base_whitelist.union(
                Set::empty(),
            ));
        },
    }
}

/// The aggregate of a project that no application has been counted in yet.
pub open spec fn empty_aggregate(name: Seq<char>, argocd_namespace: Seq<char>) -> AggregateView {
    AggregateView { project: empty_project(name, argocd_namespace), applications: Seq::empty() }
}

/// The aggregates of a target after an application of the project `name` has
/// been counted in: the aggregate of the project is made if there is none,
/// its rights grow, and its manifests stay as they are.
pub open spec fn counted_in(
    before: Map<Seq<char>, AggregateView>,
    name: Seq<char>,
    argocd_namespace: Seq<char>,
    repo: Seq<char>,
    namespace: Seq<char>,
    metadata: &Metadata,
) -> Map<Seq<char>, AggregateView> {
    let base = if before.contains_key(name) {
        before[name]
    } else {
        empty_aggregate(name, argocd_namespace)
    };
    before.insert(
        name,
        AggregateView {
            project: with_application(base.project, repo, namespace, metadata),
            applications: base.applications,
        },
    )
}

/// The aggregates of a target after a manifest has been added to the project
/// `name`: it stands behind the manifests that were there. Where the target
/// has no such project, nothing changes.
pub open spec fn with_manifest(
    before: Map<Seq<char>, AggregateView>,
    name: Seq<char>,
    manifest: Seq<char>,
) -> Map<Seq<char>, AggregateView> {
    if before.contains_key(name) {
        before.insert(
            name,
            AggregateView {
                project: before[name].project,
                applications: before[name].applications.push(manifest),
            },
        )
    } else {
        before
    }
}

/// Counting the same application in a second time changes no aggregate.
pub proof fn lemma_counted_in_idempotent(
    before: Map<Seq<char>, AggregateView>,
    name: Seq<char>,
    argocd_namespace: Seq<char>,
    repo: Seq<char>,
    namespace: Seq<char>,
    metadata: &Metadata,
)
    ensures
        counted_in(
            counted_in(before, name, argocd_namespace, repo, namespace, metadata),
            name,
            argocd_namespace,
            repo,
            namespace,
            metadata,
        ) == counted_in(before, name, argocd_namespace, repo, namespace, metadata),
{
    let once = counted_in(before, name, argocd_namespace, repo, namespace, metadata);
    let base = if before.contains_key(name) {
        before[name]
    } else {
        empty_aggregate(name, argocd_namespace)
    };
    lemma_with_application_idempotent(base.project, repo, namespace, metadata);
    assert(counted_in(once, name, argocd_namespace, repo, namespace, metadata) =~= once);
}

/// Manifests that are added one after the other stand in the aggregate in
/// that order, behind the manifests that were there.
pub proof fn lemma_manifests_in_order_of_adding(
    before: Map<Seq<char>, AggregateView>,
    name: Seq<char>,
    first: Seq<char>,
    second: Seq<char>,
)
    requires
        before.contains_key(name),
    ensures
        with_manifest(with_manifest(before, name, first), name, second)[name].applications
            == before[name].applications.push(first).push(second),
        with_manifest(with_manifest(before, name, first), name, second)[name].project
            == before[name].project,
{
}

/// Finds the aggregate of the project `name`.
pub fn find_aggregate(projects: &Vec<ArgoCDProject>, name: &String) -> (r: Option<usize>)
    ensures
        match r {
            Some(i) => i < projects.len() && projects[i as int].project.metadata.name@ == name@,
            None => !present(projects@, aggregate_key(), name@),
        },
{
    let mut i: usize = 0;
    while i < projects.len()
        invariant
            i <= projects.len(),
            forall|j: int| 0 <= j < i ==> (#[trigger] projects[j]).project.metadata.name@ != name@,
        decreases projects.len() - i,
    {
        if projects[i].project.metadata.name == *name {
            return Some(i);
        }
        i = i + 1;
    }
    assert forall|j: int| 0 <= j < projects.len() implies aggregate_key()(#[trigger] projects@[j])
        != name@ by {
        assert(projects[j].project.metadata.name@ != name@);
    }
    None
}

/// Counts an application of the project `name` in, among the aggregates of
/// one target.
pub(crate) fn count_in(
    projects: &mut Vec<ArgoCDProject>,
    name: &String,
    argocd_namespace: &String,
    repo: &String,
    namespace: &String,
    metadata: &Metadata,
)
    requires
        distinct(old(projects)@, aggregate_key()),
    ensures
        distinct(final(projects)@, aggregate_key()),
        aggregates_of(final(projects)@) == counted_in(
            aggregates_of(old(projects)@),
            name@,
            argocd_namespace@,
            repo@,
            namespace@,
            metadata,
        ),
{
    let ghost before = projects@;
    match find_aggregate(projects, name) {
        Some(i) => {
            let mut entry = projects.remove(i);
            add_application_rights(&mut entry.project, repo, namespace, metadata);
            projects.insert(i, entry);
            proof {
                assert(projects@ =~= before.update(i as int, entry));
                lemma_keyed_at(before, aggregate_key(), aggregate_view(), i as int);
                lemma_keyed_update(before, aggregate_key(), aggregate_view(), i as int, entry);
            }
        },
        None => {
            let mut entry = ArgoCDProject {
                project: AppProject::new(name.clone(), argocd_namespace.clone()),
                applications: Vec::new(),
            };
            assert(texts(entry.applications@) =~= Seq::<Seq<char>>::empty());
            add_application_rights(&mut entry.project, repo, namespace, metadata);
            projects.push(entry);
            proof {
                lemma_keyed_push(before, aggregate_key(), aggregate_view(), entry);
            }
        },
    }
}

/// Adds a manifest to the project `name`, among the aggregates of one
/// target. Returns whether the target has such a project.
pub(crate) fn append_manifest(
    projects: &mut Vec<ArgoCDProject>,
    name: &String,
    manifest: String,
) -> (r: bool)
    requires
        distinct(old(projects)@, aggregate_key()),
    ensures
        distinct(final(projects)@, aggregate_key()),
        r == aggregates_of(old(projects)@).contains_key(name@),
        aggregates_of(final(projects)@) == with_manifest(
            aggregates_of(old(projects)@),
            name@,
            manifest@,
        ),
{
    let ghost before = projects@;
    match find_aggregate(projects, name) {
        Some(i) => {
            let mut entry = projects.remove(i);
            let ghost manifests = entry.applications@;
            entry.applications.push(manifest);
            projects.insert(i, entry);
            proof {
                assert(texts(entry.applications@) =~= texts(manifests).push(manifest@));
                assert(projects@ =~= before.update(i as int, entry));
                lemma_keyed_at(before, aggregate_key(), aggregate_view(), i as int);
                lemma_keyed_update(before, aggregate_key(), aggregate_view(), i as int, entry);
            }
            true
        },
        None => false,
    }
}

} // verus!
