//! Laws of the traversal: what holds of every graph and every policy.

use vstd::prelude::*;
use crate::collector::{is_report_of, lemma_report_unique, lemma_sorted_no_duplicates};
use crate::error::{ErrorLocationView, ErrorView, VisitError};
use crate::graph::{Id, Import, Item, ItemEnum, Visibility};
use crate::model::{
    Env, Outcome, VisibilityCheck, canonical_name, graph_outcome, impl_outcome, import_outcome,
    in_root_crate, inherits_visibility, is_public_at, is_traversal_result, item_outcome,
    members_outcome, reexport_path, violation,
};
use crate::path::{ComponentType, PathView, last_type_of, render};
use crate::table::find;

verus! {

/// An item that is not public where it stands is invisible to the users of
/// the library: visited in the ordinary way it yields no violation and no
/// fault, whatever it declares. Nothing below it is looked at.
pub proof fn lemma_hidden_item_yields_nothing(env: Env, path: PathView, item: Item, depth: nat)
    requires
        !is_public_at(path, item),
    ensures
        item_outcome(env, path, item, VisibilityCheck::Default, depth) == Outcome::clean(),
{
}

/// A member that is not public where it stands is passed over: the visit of
/// the members of a container goes on with the next as if the member were
/// not listed.
pub proof fn lemma_hidden_member_passed_over(
    env: Env,
    path: PathView,
    ids: Seq<Id>,
    own_only: bool,
    depth: nat,
    from: nat,
)
    requires
        from < ids.len(),
        find(env.index, ids[from as int]@) matches Some(item) && !is_public_at(path, item),
    ensures
        members_outcome(env, path, ids, own_only, depth, from) == members_outcome(
            env,
            path,
            ids,
            own_only,
            depth,
            from + 1,
        ),
{
    let item = find(env.index, ids[from as int]@)->0;
    lemma_hidden_item_yields_nothing(env, path, item, depth);
    let rest = members_outcome(env, path, ids, own_only, depth, from + 1);
    assert(Set::<ErrorView>::empty().union(rest.violations) =~= rest.violations);
}

/// An item is as visible as what holds it, whatever marker it carries
/// itself, where that is an enumeration and the item its variant, a variant
/// and the item its field, or a trait. What holds it stands at the end of the
/// path, which the traversal only reaches if it is visible.
pub proof fn lemma_visibility_inherited(path: PathView, item: Item)
    ensures
        last_type_of(path) == Some(ComponentType::Enum) && item.inner is Variant ==> is_public_at(
            path,
            item,
        ),
        last_type_of(path) == Some(ComponentType::EnumVariant) && item.inner is StructField
            ==> is_public_at(path, item),
        last_type_of(path) == Some(ComponentType::Trait) ==> is_public_at(path, item),
{
}

/// Anywhere else the marker of the item decides: the item is public if and
/// only if it is marked so.
pub proof fn lemma_visibility_by_marker(path: PathView, item: Item)
    requires
        !inherits_visibility(path, item),
    ensures
        is_public_at(path, item) <==> item.visibility == Visibility::Public,
{
}

/// Each re-export of an external symbol that the policy does not allow is a
/// violation of its own: two re-exports of one symbol whose paths read
/// differently yield two violations, which differ in the path they name.
pub proof fn lemma_reexports_reported_per_path(
    env: Env,
    first_path: PathView,
    first_item: Item,
    first: Import,
    second_path: PathView,
    second_item: Item,
    second: Import,
    depth: nat,
)
    requires
        first.id is Some,
        second.id == first.id,
        !in_root_crate(env, first.id->0),
        canonical_name(env, first.id->0) is Some,
        !env.config.allows(env.root_crate_name, canonical_name(env, first.id->0)->0),
        render(reexport_path(first_path, first_item, first)) != render(
            reexport_path(second_path, second_item, second),
        ),
    ensures
        ({
            let name = canonical_name(env, first.id->0)->0;
            let one = violation(
                reexport_path(first_path, first_item, first),
                ErrorLocationView::ReExport,
                name,
            );
            let other = violation(
                reexport_path(second_path, second_item, second),
                ErrorLocationView::ReExport,
                name,
            );
            &&& import_outcome(env, first_path, first_item, first, depth) == Outcome::found(one)
            &&& import_outcome(env, second_path, second_item, second, depth) == Outcome::found(
                other,
            )
            &&& one != other
            &&& one.in_what_type == render(reexport_path(first_path, first_item, first))
            &&& other.in_what_type == render(reexport_path(second_path, second_item, second))
        }),
{
    let name = canonical_name(env, first.id->0)->0;
    let one = violation(
        reexport_path(first_path, first_item, first),
        ErrorLocationView::ReExport,
        name,
    );
    let other = violation(
        reexport_path(second_path, second_item, second),
        ErrorLocationView::ReExport,
        name,
    );
    assert(Set::<ErrorView>::empty().union(set![one]) =~= set![one]);
    assert(Set::<ErrorView>::empty().union(set![other]) =~= set![other]);
}

/// A violation that was added to a set, once or more often, stands in the
/// report of the set exactly once.
pub proof fn lemma_reported_once(report: Seq<ErrorView>, set: Set<ErrorView>, error: ErrorView)
    requires
        is_report_of(report, set.insert(error).insert(error)),
    ensures
        set.insert(error).insert(error) == set.insert(error),
        exists|i: int|
            {
                &&& 0 <= i < report.len()
                &&& #[trigger] report[i] == error
                &&& forall|j: int| 0 <= j < report.len() && report[j] == error ==> j == i
            },
{
    assert(set.insert(error).insert(error) =~= set.insert(error));
    assert(set.insert(error).contains(error));
    assert(report.contains(error));
    let i = choose|i: int| 0 <= i < report.len() && report[i] == error;
    lemma_sorted_no_duplicates(report);
    assert(report[i] == error);
}

/// A blanket implementation, one that applies to every type that meets a
/// bound, is no part of the public interface: its block yields no violation
/// and no fault, whatever types it mentions.
pub proof fn lemma_blanket_impl_yields_nothing(env: Env, path: PathView, item: Item, depth: nat)
    requires
        item.inner matches ItemEnum::Impl(imp) && imp.blanket,
    ensures
        impl_outcome(env, path, item, depth) == Outcome::clean(),
{
}

/// The traversal is deterministic: a graph, a policy and a depth have one
/// result, the same violations in the same order or the same fault.
pub proof fn lemma_traversal_deterministic(
    env: Env,
    depth: nat,
    first: Result<Seq<ErrorView>, VisitError>,
    second: Result<Seq<ErrorView>, VisitError>,
)
    requires
        is_traversal_result(env, depth, first),
        is_traversal_result(env, depth, second),
    ensures
        first == second,
{
    if first is Ok && second is Ok {
        lemma_report_unique(first->Ok_0, second->Ok_0, graph_outcome(env, depth).violations);
    }
}

} // verus!
