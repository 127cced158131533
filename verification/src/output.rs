//! The output file of a project: the serialized project object, followed by
//! the manifests of its applications.

use vstd::prelude::*;
use vstd::string::StringExecFns;
use crate::aggregate::texts;
use crate::layout::project_directory_name;

verus! {

/// The marker that stands between two documents of an output file.
pub open spec fn boundary() -> Seq<char> {
    "\n---\n"@
}

/// The text of an output file: the serialized project object, and behind it
/// each manifest in the order of the list, each after a boundary marker.
pub open spec fn project_file_text(project_yaml: Seq<char>, manifests: Seq<Seq<char>>) -> Seq<char>
    decreases manifests.len(),
{
    if manifests.len() == 0 {
        project_yaml
    } else {
        project_file_text(project_yaml, manifests.drop_last()) + boundary() + manifests.last()
    }
}

/// The manifests of a list, each after a boundary marker.
pub open spec fn manifests_text(manifests: Seq<Seq<char>>) -> Seq<char>
    decreases manifests.len(),
{
    if manifests.len() == 0 {
        Seq::empty()
    } else {
        manifests_text(manifests.drop_last()) + boundary() + manifests.last()
    }
}

/// An output file is the serialized project object followed by the
/// manifests.
pub proof fn lemma_file_is_project_then_manifests(
    project_yaml: Seq<char>,
    manifests: Seq<Seq<char>>,
)
    ensures
        project_file_text(project_yaml, manifests) == project_yaml + manifests_text(manifests),
    decreases manifests.len(),
{
    if manifests.len() > 0 {
        lemma_file_is_project_then_manifests(project_yaml, manifests.drop_last());
        assert(project_yaml + manifests_text(manifests.drop_last()) + boundary() + manifests.last()
            =~= project_yaml + (manifests_text(manifests.drop_last()) + boundary()
            + manifests.last()));
    } else {
        assert(project_yaml + Seq::<char>::empty() =~= project_yaml);
    }
}

/// The manifests of two lists, one behind the other, are the text of the
/// first followed by the text of the second.
pub proof fn lemma_manifests_text_concat(first: Seq<Seq<char>>, second: Seq<Seq<char>>)
    ensures
        manifests_text(first + second) == manifests_text(first) + manifests_text(second),
    decreases second.len(),
{
    if second.len() == 0 {
        assert(first + second =~= first);
        assert(manifests_text(first) + Seq::<char>::empty() =~= manifests_text(first));
    } else {
        let all = first + second;
        assert(all.drop_last() =~= first + second.drop_last());
        assert(all.last() == second.last());
        lemma_manifests_text_concat(first, second.drop_last());
        assert(manifests_text(first) + manifests_text(second.drop_last()) + boundary()
            + second.last() =~= manifests_text(first) + (manifests_text(second.drop_last())
            + boundary() + second.last()));
    }
}

/// The manifests stand in the output file in the order in which they were
/// added: the manifest at position `i` comes, after a boundary marker,
/// behind the file of the manifests before it, and the manifests after it
/// follow.
pub proof fn lemma_manifests_in_order(project_yaml: Seq<char>, manifests: Seq<Seq<char>>, i: int)
    requires
        0 <= i < manifests.len(),
    ensures
        project_file_text(project_yaml, manifests) == project_file_text(
            project_yaml,
            manifests.subrange(0, i),
        ) + boundary() + manifests[i] + manifests_text(
            manifests.subrange(i + 1, manifests.len() as int),
        ),
{
    let before = manifests.subrange(0, i);
    let upto = manifests.subrange(0, i + 1);
    let after = manifests.subrange(i + 1, manifests.len() as int);
    assert(manifests =~= upto + after);
    assert(upto.drop_last() =~= before);
    assert(upto.last() == manifests[i]);
    lemma_file_is_project_then_manifests(project_yaml, manifests);
    lemma_file_is_project_then_manifests(project_yaml, before);
    lemma_manifests_text_concat(upto, after);
    assert(project_yaml + (manifests_text(before) + boundary() + manifests[i] + manifests_text(
        after,
    )) =~= project_yaml + manifests_text(before) + boundary() + manifests[i] + manifests_text(
        after,
    ));
}

/// Adding a manifest to an aggregate adds it, after a boundary marker, at
/// the end of the output file.
pub proof fn lemma_added_manifest_is_last(
    project_yaml: Seq<char>,
    manifests: Seq<Seq<char>>,
    manifest: Seq<char>,
)
    ensures
        project_file_text(project_yaml, manifests.push(manifest)) == project_file_text(
            project_yaml,
            manifests,
        ) + boundary() + manifest,
{
    assert(manifests.push(manifest).drop_last() =~= manifests);
}

/// Puts the text of an output file together.
pub fn project_file(project_yaml: &str, applications: &Vec<String>) -> (r: String)
    ensures
        r@ == project_file_text(project_yaml@, texts(applications@)),
{
    let mut text = project_yaml.to_owned();
    let mut i: usize = 0;
    assert(texts(applications@).subrange(0, 0) =~= Seq::<Seq<char>>::empty());
    while i < applications.len()
        invariant
            i <= applications.len(),
            text@ == project_file_text(project_yaml@, texts(applications@).subrange(0, i as int)),
        decreases applications.len() - i,
    {
        proof {
            let next = texts(applications@).subrange(0, i + 1);
            assert(next.drop_last() =~= texts(applications@).subrange(0, i as int));
            assert(next.last() == applications[i as int]@);
        }
        text.append("\n---\n");
        text.append(applications[i].as_str());
        i = i + 1;
    }
    assert(texts(applications@).subrange(0, i as int) =~= texts(applications@));
    text
}

/// Where the output file of a project goes, below the output root:
/// `<target>/argocd-config/<project>.yaml`.
pub open spec fn project_file_path(target: Seq<char>, project: Seq<char>) -> Seq<char> {
    target + "/argocd-config/"@ + project + ".yaml"@
}

/// Computes where the output file of a project goes, below the output root.
pub fn project_file_location(target: &str, project: &str) -> (r: String)
    ensures
        r@ == project_file_path(target@, project@),
{
    let mut path = target.to_owned();
    path.append("/");
    path.append(project_directory_name());
    path.append("/");
    path.append(project);
    path.append(".yaml");
    proof {
        reveal_strlit("/");
        reveal_strlit("argocd-config");
        reveal_strlit("/argocd-config/");
        assert("/"@ + "argocd-config"@ + "/"@ =~= "/argocd-config/"@);
        assert(path@ =~= project_file_path(target@, project@));
    }
    path
}

} // verus!
