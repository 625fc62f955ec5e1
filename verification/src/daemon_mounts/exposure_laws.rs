//! Where the daemon directory is found, and when a mount table shows that it
//! is isolated, stated over the mounts alone.
use vstd::prelude::*;
use vstd::string::*;

use super::ancestry::covers;
use super::ancestry::descends;
use super::ancestry::find_mount;
use super::ancestry::find_mount_is_first;
use super::ancestry::hidden_among;
use super::ancestry::is_clear;
use super::ancestry::is_descendant;
use super::ancestry::is_hidden;
use super::ancestry::unvisited;
use super::ancestry::visiting_leaves_one_less;
use super::isolation::contains_directory;
use super::isolation::exposure;
use super::isolation::exposures;
use super::isolation::first_nested;
use super::isolation::held_path;
use super::isolation::is_agreed;
use super::isolation::is_nested;
use super::isolation::isolation;
use super::isolation::location_of;
use super::isolation::mount_check;
use super::isolation::optional;
use super::isolation::optional_path;
use super::isolation::optional_text;
use super::mountinfo::table_mounts;
use super::mountinfo::MountFailure;
use super::mountinfo::MountView;
use super::path::UnixPath;
use super::path::path_parts;
use super::path::split;
use super::table_laws::joined;
use super::table_laws::kernel_spelling;
use super::table_laws::spelled_mount_is_read;

verus! {

/// Whether the mount at `at` is the first with an ID.
pub open spec fn is_first_with(mounts: Seq<MountView>, id: Seq<u8>, at: int) -> bool {
    &&& 0 <= at < mounts.len()
    &&& mounts[at].id == id
    &&& forall|k: int| 0 <= k < at ==> (#[trigger] mounts[k]).id != id
}

/// Whether some mount has an ID.
pub open spec fn is_known(mounts: Seq<MountView>, id: Seq<u8>) -> bool {
    exists|k: int| 0 <= k < mounts.len() && (#[trigger] mounts[k]).id == id
}

/// Whether mounts follow each other from parent to parent, none twice, with
/// none but the last its own parent.
pub open spec fn is_parent_chain(mounts: Seq<MountView>, chain: Seq<int>) -> bool {
    &&& chain.len() > 0
    &&& chain.no_duplicates()
    &&& forall|i: int| 0 <= i < chain.len() ==> 0 <= #[trigger] chain[i] < mounts.len()
    &&& forall|i: int|
        0 <= i && i + 1 < chain.len() ==> mounts[#[trigger] chain[i]].id != mounts[chain[i]].parent
            && is_first_with(mounts, mounts[chain[i]].parent, chain[i + 1])
}

/// Whether a chain ends at a mount without another as its parent.
pub open spec fn ends(mounts: Seq<MountView>, chain: Seq<int>) -> bool {
    mounts[chain.last()].id == mounts[chain.last()].parent || !is_known(
        mounts,
        mounts[chain.last()].parent,
    )
}

/// Whether parents lead from the first mount with an ID to a child of
/// `ancestor`.
pub open spec fn parents_lead_to(
    mounts: Seq<MountView>,
    id: Seq<u8>,
    ancestor: Seq<u8>,
    chain: Seq<int>,
) -> bool {
    &&& is_parent_chain(mounts, chain)
    &&& is_first_with(mounts, id, chain[0])
    &&& mounts[chain.last()].parent == ancestor
}

/// Whether parents lead from the first mount with an ID to an end.
pub open spec fn parents_end(mounts: Seq<MountView>, id: Seq<u8>, chain: Seq<int>) -> bool {
    &&& is_parent_chain(mounts, chain)
    &&& is_first_with(mounts, id, chain[0])
    &&& ends(mounts, chain)
}

proof fn first_is_found(mounts: Seq<MountView>, id: Seq<u8>)
    ensures
        find_mount(mounts, id) is None <==> !is_known(mounts, id),
        forall|at: int|
            #![trigger is_first_with(mounts, id, at)]
            is_first_with(mounts, id, at) <==> find_mount(mounts, id) == Some(at),
{
    find_mount_is_first(mounts, id);
    assert forall|at: int|
        #![trigger is_first_with(mounts, id, at)]
        is_first_with(mounts, id, at) implies find_mount(mounts, id) == Some(at) by {
        let found = find_mount(mounts, id)->0;
        assert(mounts[at].id == id);
        if found < at {
            assert(mounts[found].id != id);
        }
    }
}

/// The mounts that a walk from `at` passes until it is settled.
proof fn walk(mounts: Seq<MountView>, at: int, ancestor: Seq<u8>, visited: Set<int>) -> (chain: Seq<
    int,
>)
    requires
        descends(mounts, Some(at), ancestor, visited) is Some,
    ensures
        is_parent_chain(mounts, chain),
        chain[0] == at,
        forall|i: int| 0 <= i < chain.len() ==> !visited.contains(#[trigger] chain[i]),
        descends(mounts, Some(at), ancestor, visited) == Some(true)
            ==> mounts[chain.last()].parent == ancestor,
        descends(mounts, Some(at), ancestor, visited) == Some(false) ==> ends(mounts, chain),
    decreases unvisited(mounts.len(), visited),
{
    let parent = mounts[at].parent;
    first_is_found(mounts, parent);
    if parent == ancestor || mounts[at].id == parent || find_mount(mounts, parent) is None {
        let chain = seq![at];
        assert(chain.last() == at);
        assert(descends(mounts, None, ancestor, visited.insert(at)) == Some(false));
        chain
    } else {
        let next = find_mount(mounts, parent)->0;
        visiting_leaves_one_less(mounts.len(), visited, at);
        let rest = walk(mounts, next, ancestor, visited.insert(at));
        let chain = seq![at] + rest;
        assert(is_first_with(mounts, parent, next));
        assert forall|i: int| 0 <= i < chain.len() implies 0 <= #[trigger] chain[i] < mounts.len()
            && !visited.contains(chain[i]) by {
            if i > 0 {
                assert(chain[i] == rest[i - 1]);
            }
        }
        assert forall|i: int| 0 <= i && i + 1 < chain.len() implies mounts[#[trigger] chain[i]].id
            != mounts[chain[i]].parent && is_first_with(
            mounts,
            mounts[chain[i]].parent,
            chain[i + 1],
        ) by {
            assert(chain[i + 1] == rest[i]);
            if i > 0 {
                assert(chain[i] == rest[i - 1]);
            }
        }
        assert forall|i: int, j: int| 0 <= i < j < chain.len() implies chain[i] != chain[j] by {
            assert(chain[j] == rest[j - 1]);
            if i > 0 {
                assert(chain[i] == rest[i - 1]);
            }
        }
        assert(chain.last() == rest.last());
        chain
    }
}

/// A walk follows a chain to its end.
proof fn chain_is_walked(
    mounts: Seq<MountView>,
    chain: Seq<int>,
    ancestor: Seq<u8>,
    visited: Set<int>,
)
    requires
        is_parent_chain(mounts, chain),
        forall|i: int| 0 <= i < chain.len() ==> !visited.contains(#[trigger] chain[i]),
    ensures
        mounts[chain.last()].parent == ancestor ==> descends(
            mounts,
            Some(chain[0]),
            ancestor,
            visited,
        ) == Some(true),
        ends(mounts, chain) ==> descends(mounts, Some(chain[0]), ancestor, visited) is Some,
    decreases chain.len(),
{
    let at = chain[0];
    let parent = mounts[at].parent;
    first_is_found(mounts, parent);
    assert(descends(mounts, None, ancestor, visited.insert(at)) == Some(false));
    if parent != ancestor && chain.len() > 1 {
        let rest = chain.skip(1);
        rest_is_chain(mounts, chain);
        assert forall|i: int| 0 <= i < rest.len() implies !visited.insert(at).contains(
            #[trigger] rest[i],
        ) by {
            assert(rest[i] == chain[i + 1]);
        }
        chain_is_walked(mounts, rest, ancestor, visited.insert(at));
        assert(is_first_with(mounts, parent, chain[0int + 1]));
        assert(find_mount(mounts, parent) == Some(rest[0]));
        assert(rest.last() == chain.last());
    }
}

proof fn rest_is_chain(mounts: Seq<MountView>, chain: Seq<int>)
    requires
        is_parent_chain(mounts, chain),
        chain.len() > 1,
    ensures
        is_parent_chain(mounts, chain.skip(1)),
{
    let rest = chain.skip(1);
    assert forall|i: int| 0 <= i < rest.len() implies 0 <= #[trigger] rest[i] < mounts.len() by {
        assert(rest[i] == chain[i + 1]);
    }
    assert forall|i: int| 0 <= i && i + 1 < rest.len() implies mounts[#[trigger] rest[i]].id
        != mounts[rest[i]].parent && is_first_with(
        mounts,
        mounts[rest[i]].parent,
        rest[i + 1],
    ) by {
        assert(rest[i] == chain[i + 1]);
        assert(rest[i + 1] == chain[i + 1 + 1]);
    }
}

/// A mount stands on another exactly if parents lead from it to a child of
/// that other.  Whether it does is settled exactly if they do, or come to an
/// end, or the mount is not in the table.
pub proof fn descent_follows_parents(mounts: Seq<MountView>, id: Seq<u8>, ancestor: Seq<u8>)
    ensures
        is_descendant(mounts, id, ancestor) == Some(true) <==> exists|chain: Seq<int>|
            parents_lead_to(mounts, id, ancestor, chain),
        is_descendant(mounts, id, ancestor) is Some <==> !is_known(mounts, id) || (exists|
            chain: Seq<int>,
        |
            parents_lead_to(mounts, id, ancestor, chain)) || (exists|chain: Seq<int>|
            parents_end(mounts, id, chain)),
{
    first_is_found(mounts, id);
    if let Some(at) = find_mount(mounts, id) {
        assert(is_first_with(mounts, id, at));
        if is_descendant(mounts, id, ancestor) is Some {
            let chain = walk(mounts, at, ancestor, Set::empty());
            if is_descendant(mounts, id, ancestor) == Some(true) {
                assert(parents_lead_to(mounts, id, ancestor, chain));
            } else {
                assert(is_descendant(mounts, id, ancestor) == Some(false)) by {
                    let settled = is_descendant(mounts, id, ancestor)->0;
                    assert(!settled);
                }
                assert(parents_end(mounts, id, chain));
            }
        }
    }
    if exists|chain: Seq<int>| parents_lead_to(mounts, id, ancestor, chain) {
        let chain = choose|chain: Seq<int>| parents_lead_to(mounts, id, ancestor, chain);
        chain_is_walked(mounts, chain, ancestor, Set::empty());
    }
    if exists|chain: Seq<int>| parents_end(mounts, id, chain) {
        let chain = choose|chain: Seq<int>| parents_end(mounts, id, chain);
        chain_is_walked(mounts, chain, ancestor, Set::empty());
    }
}

/// Whether a mount other than those with an ID stands at `path` or above it.
pub open spec fn is_over(mount: MountView, id: Seq<u8>, path: Seq<Seq<u8>>) -> bool {
    mount.id != id && mount.destination.is_prefix_of(path)
}

proof fn hidden_among_says(mounts: Seq<MountView>, count: nat, id: Seq<u8>, path: Seq<Seq<u8>>)
    requires
        count <= mounts.len(),
    ensures
        hidden_among(mounts, count, id, path) == Some(true) ==> exists|k: int|
            0 <= k < count && is_over(#[trigger] mounts[k], id, path) && is_descendant(
                mounts,
                mounts[k].id,
                id,
            ) == Some(true),
        hidden_among(mounts, count, id, path) is None ==> exists|k: int|
            0 <= k < count && is_over(#[trigger] mounts[k], id, path) && is_descendant(
                mounts,
                mounts[k].id,
                id,
            ) is None,
        hidden_among(mounts, count, id, path) == Some(false) ==> forall|k: int|
            0 <= k < count && is_over(#[trigger] mounts[k], id, path) ==> is_descendant(
                mounts,
                mounts[k].id,
                id,
            ) == Some(false),
    decreases count,
{
    if count > 0 {
        hidden_among_says(mounts, (count - 1) as nat, id, path);
        assert(is_over(mounts[count - 1], id, path) || !is_over(mounts[count - 1], id, path));
    }
}

/// Whether a path is hidden is settled by the mounts that stand at it or above
/// it: it is not, exactly if none of them stands on the mount; it is only if
/// one does, and it is if one does and that is settled for all of them.
pub proof fn path_is_hidden_by_what_stands_on_the_mount(
    mounts: Seq<MountView>,
    id: Seq<u8>,
    path: Seq<Seq<u8>>,
)
    ensures
        is_hidden(mounts, id, path) == Some(false) <==> forall|k: int|
            0 <= k < mounts.len() && is_over(#[trigger] mounts[k], id, path) ==> is_descendant(
                mounts,
                mounts[k].id,
                id,
            ) == Some(false),
        is_hidden(mounts, id, path) == Some(true) ==> exists|k: int|
            0 <= k < mounts.len() && is_over(#[trigger] mounts[k], id, path) && is_descendant(
                mounts,
                mounts[k].id,
                id,
            ) == Some(true),
        is_hidden(mounts, id, path) is None ==> exists|k: int|
            0 <= k < mounts.len() && is_over(#[trigger] mounts[k], id, path) && is_descendant(
                mounts,
                mounts[k].id,
                id,
            ) is None,
{
    hidden_among_says(mounts, mounts.len(), id, path);
}

/// Whether a mount stands on the one at `at`, at the directory or above it,
/// and not within the branch that the one at `before` begins.
pub open spec fn stands_between(
    mounts: Seq<MountView>,
    directory: Seq<Seq<u8>>,
    at: int,
    before: Option<int>,
    k: int,
) -> bool {
    &&& 0 <= k < mounts.len()
    &&& mounts[k].id != mounts[at].id
    &&& mounts[k].parent == mounts[at].id
    &&& mounts[k].destination.is_prefix_of(directory)
    &&& before is Some ==> !mounts[before->0].destination.is_prefix_of(mounts[k].destination)
}

/// What stands before `chain[i]`.
pub open spec fn step_before(chain: Seq<int>, before: Option<int>, i: int) -> Option<int> {
    if i <= 0 {
        before
    } else {
        Some(chain[i - 1])
    }
}

/// Whether nothing covers the way from the first mount of a chain, or from the
/// branch that began before it, to the directory.
pub open spec fn is_open_along(
    mounts: Seq<MountView>,
    directory: Seq<Seq<u8>>,
    chain: Seq<int>,
    before: Option<int>,
) -> bool {
    forall|i: int, k: int|
        0 <= i < chain.len() ==> !#[trigger] stands_between(
            mounts,
            directory,
            chain[i],
            step_before(chain, before, i),
            k,
        )
}

spec fn destination_of(mounts: Seq<MountView>, before: Option<int>) -> Option<Seq<Seq<u8>>> {
    match before {
        Some(before) => Some(mounts[before].destination),
        None => None,
    }
}

/// The mounts that the way up from an uncovered mount passes.
proof fn way_up(
    mounts: Seq<MountView>,
    directory: Seq<Seq<u8>>,
    at: int,
    before: Option<int>,
    visited: Set<int>,
) -> (chain: Seq<int>)
    requires
        is_clear(mounts, directory, at, destination_of(mounts, before), visited),
    ensures
        is_parent_chain(mounts, chain),
        chain[0] == at,
        forall|i: int| 0 <= i < chain.len() ==> !visited.contains(#[trigger] chain[i]),
        ends(mounts, chain),
        is_open_along(mounts, directory, chain, before),
    decreases unvisited(mounts.len(), visited),
{
    let parent = mounts[at].parent;
    let branch = destination_of(mounts, before);
    first_is_found(mounts, parent);
    assert forall|k: int| !#[trigger] stands_between(mounts, directory, at, before, k) by {
        if stands_between(mounts, directory, at, before, k) {
            assert(covers(mounts, directory, at, branch, k));
        }
    }
    if mounts[at].id == parent || find_mount(mounts, parent) is None {
        let chain = seq![at];
        assert(chain.last() == at);
        chain
    } else {
        let next = find_mount(mounts, parent)->0;
        visiting_leaves_one_less(mounts.len(), visited, at);
        let rest = way_up(mounts, directory, next, Some(at), visited.insert(at));
        let chain = seq![at] + rest;
        assert(is_first_with(mounts, parent, next));
        assert forall|i: int| 0 <= i < chain.len() implies 0 <= #[trigger] chain[i] < mounts.len()
            && !visited.contains(chain[i]) by {
            if i > 0 {
                assert(chain[i] == rest[i - 1]);
            }
        }
        assert forall|i: int| 0 <= i && i + 1 < chain.len() implies mounts[#[trigger] chain[i]].id
            != mounts[chain[i]].parent && is_first_with(
            mounts,
            mounts[chain[i]].parent,
            chain[i + 1],
        ) by {
            assert(chain[i + 1] == rest[i]);
            if i > 0 {
                assert(chain[i] == rest[i - 1]);
            }
        }
        assert forall|i: int, j: int| 0 <= i < j < chain.len() implies chain[i] != chain[j] by {
            assert(chain[j] == rest[j - 1]);
            if i > 0 {
                assert(chain[i] == rest[i - 1]);
            }
        }
        assert(chain.last() == rest.last());
        assert forall|i: int, k: int| 0 <= i < chain.len() implies !#[trigger] stands_between(
            mounts,
            directory,
            chain[i],
            step_before(chain, before, i),
            k,
        ) by {
            if i > 0 {
                assert(chain[i] == rest[i - 1]);
                if i > 1 {
                    assert(chain[i - 1] == rest[i - 2]);
                }
                assert(!stands_between(
                    mounts,
                    directory,
                    rest[i - 1],
                    step_before(rest, Some(at), i - 1),
                    k,
                ));
            }
        }
        chain
    }
}

proof fn open_way_is_clear(
    mounts: Seq<MountView>,
    directory: Seq<Seq<u8>>,
    chain: Seq<int>,
    before: Option<int>,
    visited: Set<int>,
)
    requires
        is_parent_chain(mounts, chain),
        forall|i: int| 0 <= i < chain.len() ==> !visited.contains(#[trigger] chain[i]),
        ends(mounts, chain),
        is_open_along(mounts, directory, chain, before),
    ensures
        is_clear(mounts, directory, chain[0], destination_of(mounts, before), visited),
    decreases chain.len(),
{
    let at = chain[0];
    let parent = mounts[at].parent;
    let branch = destination_of(mounts, before);
    first_is_found(mounts, parent);
    assert forall|k: int| 0 <= k < mounts.len() implies !#[trigger] covers(
        mounts,
        directory,
        at,
        branch,
        k,
    ) by {
        assert(!stands_between(
            mounts,
            directory,
            chain[0],
            step_before(chain, before, 0),
            k,
        ));
    }
    if chain.len() > 1 {
        let rest = chain.skip(1);
        rest_is_chain(mounts, chain);
        assert forall|i: int| 0 <= i < rest.len() implies !visited.insert(at).contains(
            #[trigger] rest[i],
        ) by {
            assert(rest[i] == chain[i + 1]);
        }
        assert(rest.last() == chain.last());
        assert forall|i: int, k: int| 0 <= i < rest.len() implies !#[trigger] stands_between(
            mounts,
            directory,
            rest[i],
            step_before(rest, Some(at), i),
            k,
        ) by {
            assert(rest[i] == chain[i + 1]);
            if i > 0 {
                assert(rest[i - 1] == chain[i]);
            }
            assert(!stands_between(
                mounts,
                directory,
                chain[i + 1],
                step_before(chain, before, i + 1),
                k,
            ));
        }
        open_way_is_clear(mounts, directory, rest, Some(at), visited.insert(at));
        assert(is_first_with(mounts, parent, chain[0int + 1]));
        assert(find_mount(mounts, parent) == Some(rest[0]));
    }
}

/// Whether the first mount with an ID shows the directory, with an open way
/// from the directory up to the top of the mounts.
pub open spec fn is_reached_through(
    mounts: Seq<MountView>,
    directory: Seq<Seq<u8>>,
    device: Seq<u8>,
    id: Seq<u8>,
    chain: Seq<int>,
) -> bool {
    &&& parents_end(mounts, id, chain)
    &&& mounts[chain[0]].device == device
    &&& mounts[chain[0]].destination.is_prefix_of(directory)
    &&& is_open_along(mounts, directory, chain, None)
}

/// Where the directory lives, given the mount by which it was opened: at that
/// mount's root, followed by what the directory's path has beyond where the
/// mount is.  It is known exactly if the mount shows the directory and nothing
/// stacked on it, or on a mount above it, covers the way.
pub proof fn opened_mount_locates_the_directory(
    mounts: Seq<MountView>,
    directory: Seq<Seq<u8>>,
    device: Seq<u8>,
    id: Seq<u8>,
)
    ensures
        location_of(mounts, directory, device, Some(id)) is Some <==> exists|chain: Seq<int>|
            is_reached_through(mounts, directory, device, id, chain),
        forall|at: int|
            #![trigger is_first_with(mounts, id, at)]
            is_first_with(mounts, id, at) && location_of(mounts, directory, device, Some(id))
                is Some ==> location_of(mounts, directory, device, Some(id)) == Some(
                mounts[at].root + directory.skip(mounts[at].destination.len() as int),
            ),
{
    first_is_found(mounts, id);
    if location_of(mounts, directory, device, Some(id)) is Some {
        let at = find_mount(mounts, id)->0;
        assert(is_first_with(mounts, id, at));
        let chain = way_up(mounts, directory, at, None, Set::empty());
        assert(is_reached_through(mounts, directory, device, id, chain));
    }
    if exists|chain: Seq<int>| is_reached_through(mounts, directory, device, id, chain) {
        let chain = choose|chain: Seq<int>|
            is_reached_through(mounts, directory, device, id, chain);
        open_way_is_clear(mounts, directory, chain, None, Set::empty());
        assert(find_mount(mounts, id) == Some(chain[0]));
    }
}

/// Whether a mount shows the directory's path, on the directory's device.
pub open spec fn holds_the_path(
    mount: MountView,
    device: Seq<u8>,
    directory: Seq<Seq<u8>>,
) -> bool {
    mount.device == device && mount.destination.is_prefix_of(directory)
}

/// Where the directory lives, if it is not known by which mount it was opened:
/// where every mount that holds its path puts it, if there is one and all
/// agree.
pub proof fn agreeing_mounts_locate_the_directory(
    mounts: Seq<MountView>,
    directory: Seq<Seq<u8>>,
    device: Seq<u8>,
    location: Seq<Seq<u8>>,
)
    ensures
        location_of(mounts, directory, device, None) == Some(location) <==> (exists|k: int|
            0 <= k < mounts.len() && holds_the_path(#[trigger] mounts[k], device, directory)) && (
        forall|k: int|
            0 <= k < mounts.len() && holds_the_path(#[trigger] mounts[k], device, directory)
                ==> mounts[k].root + directory.skip(mounts[k].destination.len() as int)
                == location),
{
    let held = exists|k: int|
        0 <= k < mounts.len() && holds_the_path(#[trigger] mounts[k], device, directory);
    let agreed = forall|k: int|
        0 <= k < mounts.len() && holds_the_path(#[trigger] mounts[k], device, directory)
            ==> mounts[k].root + directory.skip(mounts[k].destination.len() as int) == location;
    if location_of(mounts, directory, device, None) == Some(location) {
        assert(is_agreed(mounts, device, directory, location));
        let k = choose|k: int|
            0 <= k < mounts.len() && contains_directory(#[trigger] mounts[k], device, directory);
        assert(holds_the_path(mounts[k], device, directory));
        assert forall|k: int|
            0 <= k < mounts.len() && holds_the_path(
                #[trigger] mounts[k],
                device,
                directory,
            ) implies mounts[k].root + directory.skip(mounts[k].destination.len() as int)
            == location by {
            assert(contains_directory(mounts[k], device, directory));
        }
    }
    if held && agreed {
        let at = choose|k: int|
            0 <= k < mounts.len() && holds_the_path(#[trigger] mounts[k], device, directory);
        assert(contains_directory(mounts[at], device, directory));
        assert forall|k: int|
            0 <= k < mounts.len() && #[trigger] contains_directory(
                mounts[k],
                device,
                directory,
            ) implies super::isolation::backing(mounts[k], directory) == location by {
            assert(holds_the_path(mounts[k], device, directory));
        }
        assert(is_agreed(mounts, device, directory, location));
        let chosen = choose|location: Seq<Seq<u8>>|
            is_agreed(mounts, device, directory, location);
        assert(is_agreed(mounts, device, directory, chosen));
        assert(super::isolation::backing(mounts[at], directory) == chosen);
    }
}

/// Whether a path is kept from the sandbox's view.
pub open spec fn is_kept_out(masked_root: Option<Seq<Seq<u8>>>, path: Seq<Seq<u8>>) -> bool {
    match masked_root {
        Some(root) => root.is_prefix_of(path),
        None => false,
    }
}

/// Whether a mount shows the whole of what lives at `location`, at `path`, in
/// the sandbox's view but for mounts stacked on it.
pub open spec fn leads_to_location(
    mount: MountView,
    device: Seq<u8>,
    location: Seq<Seq<u8>>,
    masked_root: Option<Seq<Seq<u8>>>,
    path: Seq<Seq<u8>>,
) -> bool {
    &&& mount.device == device
    &&& mount.root.is_prefix_of(location)
    &&& path == mount.destination + location.skip(mount.root.len() as int)
    &&& !is_kept_out(masked_root, path)
}

/// Whether a mount shows only a part of what lives at `location`, in the
/// sandbox's view but for mounts stacked on it.
pub open spec fn shows_a_part(
    mount: MountView,
    device: Seq<u8>,
    location: Seq<Seq<u8>>,
    masked_root: Option<Seq<Seq<u8>>>,
) -> bool {
    &&& mount.device == device
    &&& location.is_prefix_of(mount.root)
    &&& location.len() < mount.root.len()
    &&& !is_kept_out(masked_root, mount.destination)
}

/// Whether some mount shows the whole directory at `path`, with nothing over
/// it.
pub open spec fn is_shown(
    mounts: Seq<MountView>,
    device: Seq<u8>,
    location: Seq<Seq<u8>>,
    masked_root: Option<Seq<Seq<u8>>>,
    path: Seq<Seq<u8>>,
) -> bool {
    exists|k: int|
        0 <= k < mounts.len() && leads_to_location(
            #[trigger] mounts[k],
            device,
            location,
            masked_root,
            path,
        ) && is_hidden(mounts, mounts[k].id, path) == Some(false)
}

/// Whether every mount that shows the directory or a part of it is settled,
/// those that show only a part out of sight.
pub open spec fn is_settled(
    mounts: Seq<MountView>,
    device: Seq<u8>,
    location: Seq<Seq<u8>>,
    masked_root: Option<Seq<Seq<u8>>>,
) -> bool {
    forall|k: int|
        0 <= k < mounts.len() ==> is_settled_for(
            mounts,
            #[trigger] mounts[k],
            device,
            location,
            masked_root,
        )
}

/// Whether one mount is settled: whether the path at which it shows the whole
/// directory is hidden is known; that at which it shows a part is hidden.
pub open spec fn is_settled_for(
    mounts: Seq<MountView>,
    mount: MountView,
    device: Seq<u8>,
    location: Seq<Seq<u8>>,
    masked_root: Option<Seq<Seq<u8>>>,
) -> bool {
    let path = mount.destination + location.skip(mount.root.len() as int);
    &&& leads_to_location(mount, device, location, masked_root, path) ==> is_hidden(
        mounts,
        mount.id,
        path,
    ) is Some
    &&& shows_a_part(mount, device, location, masked_root) ==> is_hidden(
        mounts,
        mount.id,
        mount.destination,
    ) == Some(true)
}

proof fn one_exposure(
    mounts: Seq<MountView>,
    mount: MountView,
    device: Seq<u8>,
    location: Seq<Seq<u8>>,
    masked_root: Option<Seq<Seq<u8>>>,
)
    ensures
        ({
            let path = mount.destination + location.skip(mount.root.len() as int);
            match exposure(mounts, mount, device, location, masked_root) {
                Ok(shown) => {
                    &&& is_settled_for(mounts, mount, device, location, masked_root)
                    &&& shown == if leads_to_location(mount, device, location, masked_root, path)
                        && is_hidden(mounts, mount.id, path) == Some(false) {
                        Some(path)
                    } else {
                        None
                    }
                },
                Err(failure) => {
                    &&& !is_settled_for(mounts, mount, device, location, masked_root)
                    &&& failure == if shows_a_part(mount, device, location, masked_root)
                        && is_hidden(mounts, mount.id, mount.destination) == Some(false) {
                        MountFailure::UnsupportedMount(mount.destination_bytes)
                    } else {
                        MountFailure::Isolation
                    }
                },
            }
        }),
{
    if mount.root.is_prefix_of(location) && location.is_prefix_of(mount.root) {
        assert(mount.root.len() == location.len());
    }
    if location.is_prefix_of(mount.root) && location.len() == mount.root.len() {
        assert(mount.root.is_prefix_of(location)) by {
            assert(mount.root.subrange(0, location.len() as int) =~= mount.root);
            assert(location.subrange(0, location.len() as int) =~= location);
        }
    }
    if mount.root.is_prefix_of(location) {
        assert(mount.root.len() <= location.len());
    }
    let path = mount.destination + location.skip(mount.root.len() as int);
    let found = is_hidden(mounts, mount.id, path);
    assert(found is None || found == Some(true) || found == Some(false)) by {
        if let Some(hidden) = found {
            assert(hidden || !hidden);
        }
    }
    let other = is_hidden(mounts, mount.id, mount.destination);
    assert(other is None || other == Some(true) || other == Some(false)) by {
        if let Some(hidden) = other {
            assert(hidden || !hidden);
        }
    }
}

/// Whether a failure is owed to one mount: it shows a part of the directory in
/// plain sight, and is named; or whether it does, or where it shows the whole
/// is hidden, cannot be settled.
pub open spec fn fails_for(
    mounts: Seq<MountView>,
    mount: MountView,
    device: Seq<u8>,
    location: Seq<Seq<u8>>,
    masked_root: Option<Seq<Seq<u8>>>,
    failure: MountFailure,
) -> bool {
    &&& !is_settled_for(mounts, mount, device, location, masked_root)
    &&& failure == if shows_a_part(mount, device, location, masked_root) && is_hidden(
        mounts,
        mount.id,
        mount.destination,
    ) == Some(false) {
        MountFailure::UnsupportedMount(mount.destination_bytes)
    } else {
        MountFailure::Isolation
    }
}

proof fn exposures_say(
    mounts: Seq<MountView>,
    count: nat,
    device: Seq<u8>,
    location: Seq<Seq<u8>>,
    masked_root: Option<Seq<Seq<u8>>>,
)
    requires
        count <= mounts.len(),
    ensures
        match exposures(mounts, count, device, location, masked_root) {
            Ok(found) => {
                &&& forall|k: int|
                    0 <= k < count ==> is_settled_for(
                        mounts,
                        #[trigger] mounts[k],
                        device,
                        location,
                        masked_root,
                    )
                &&& forall|path: Seq<Seq<u8>>| #[trigger]
                    found.contains(path) <==> exists|k: int|
                        0 <= k < count && leads_to_location(
                            #[trigger] mounts[k],
                            device,
                            location,
                            masked_root,
                            path,
                        ) && is_hidden(mounts, mounts[k].id, path) == Some(false)
            },
            Err(failure) => exists|k: int|
                0 <= k < count && fails_for(
                    mounts,
                    #[trigger] mounts[k],
                    device,
                    location,
                    masked_root,
                    failure,
                ),
        },
    decreases count,
{
    if count > 0 {
        let last = mounts[count - 1];
        exposures_say(mounts, (count - 1) as nat, device, location, masked_root);
        one_exposure(mounts, last, device, location, masked_root);
        match exposures(mounts, (count - 1) as nat, device, location, masked_root) {
            Err(failure) => {},
            Ok(before) => {
                if let Err(failure) = exposure(mounts, last, device, location, masked_root) {
                    assert(fails_for(mounts, last, device, location, masked_root, failure));
                } else {
                    let found = exposures(mounts, count, device, location, masked_root)->Ok_0;
                    assert forall|path: Seq<Seq<u8>>| #[trigger]
                        found.contains(path) <==> exists|k: int|
                            0 <= k < count && leads_to_location(
                                #[trigger] mounts[k],
                                device,
                                location,
                                masked_root,
                                path,
                            ) && is_hidden(mounts, mounts[k].id, path) == Some(false) by {
                        let shown = leads_to_location(last, device, location, masked_root, path)
                            && is_hidden(mounts, last.id, path) == Some(false);
                        assert(found.contains(path) <==> before.contains(path) || shown);
                        if shown {
                            assert(leads_to_location(
                                mounts[count - 1],
                                device,
                                location,
                                masked_root,
                                path,
                            ));
                        }
                    }
                }
            },
        }
    }
}

/// Whether a mount stands strictly inside a path at which the directory is
/// shown.
pub open spec fn stands_inside(
    mounts: Seq<MountView>,
    mount: MountView,
    device: Seq<u8>,
    location: Seq<Seq<u8>>,
    masked_root: Option<Seq<Seq<u8>>>,
) -> bool {
    exists|path: Seq<Seq<u8>>| #[trigger]
        is_shown(mounts, device, location, masked_root, path) && path.is_prefix_of(
            mount.destination,
        ) && path != mount.destination
}

proof fn nested_says(mounts: Seq<MountView>, directories: Set<Seq<Seq<u8>>>)
    ensures
        match first_nested(mounts, directories) {
            Some(mount) => is_nested(mount, directories) && exists|k: int|
                0 <= k < mounts.len() && #[trigger] mounts[k] == mount,
            None => forall|k: int|
                0 <= k < mounts.len() ==> !is_nested(#[trigger] mounts[k], directories),
        },
    decreases mounts.len(),
{
    if mounts.len() > 0 {
        let front = mounts.drop_last();
        nested_says(front, directories);
        match first_nested(front, directories) {
            Some(mount) => {
                let k = choose|k: int| 0 <= k < front.len() && #[trigger] front[k] == mount;
                assert(mounts[k] == mount);
            },
            None => {
                assert(mounts[mounts.len() - 1] == mounts.last());
                assert forall|k: int| 0 <= k < front.len() implies !is_nested(
                    #[trigger] mounts[k],
                    directories,
                ) by {
                    assert(front[k] == mounts[k]);
                }
            },
        }
    }
}

/// The directory is isolated exactly if it is known where it lives, every
/// mount that shows it or a part of it is settled, it is shown at its own
/// path, and nothing is mounted strictly inside a path at which it is shown.
/// The check then gives exactly the paths at which it is shown.  A mount that
/// is named by a failure shows a part of the directory in plain sight or is
/// mounted inside it.
pub proof fn check_finds_exactly_the_paths_to_the_directory(
    mounts: Seq<MountView>,
    directory: Seq<Seq<u8>>,
    device: Seq<u8>,
    mount_id: Option<Seq<u8>>,
    masked_root: Option<Seq<Seq<u8>>>,
    location: Seq<Seq<u8>>,
)
    requires
        location_of(mounts, directory, device, mount_id) == Some(location),
    ensures
        isolation(mounts, directory, device, mount_id, masked_root) is Ok <==> {
            &&& is_settled(mounts, device, location, masked_root)
            &&& is_shown(mounts, device, location, masked_root, directory)
            &&& forall|k: int|
                0 <= k < mounts.len() ==> !stands_inside(
                    mounts,
                    #[trigger] mounts[k],
                    device,
                    location,
                    masked_root,
                )
        },
        match isolation(mounts, directory, device, mount_id, masked_root) {
            Ok(found) => forall|path: Seq<Seq<u8>>| #[trigger]
                found.contains(path) <==> is_shown(mounts, device, location, masked_root, path),
            Err(MountFailure::UnsupportedMount(named)) => exists|k: int|
                0 <= k < mounts.len() && (#[trigger] mounts[k]).destination_bytes == named && ((
                shows_a_part(mounts[k], device, location, masked_root) && is_hidden(
                    mounts,
                    mounts[k].id,
                    mounts[k].destination,
                ) == Some(false)) || stands_inside(
                    mounts,
                    mounts[k],
                    device,
                    location,
                    masked_root,
                )),
            Err(failure) => failure is Isolation && (!is_settled(
                mounts,
                device,
                location,
                masked_root,
            ) || !is_shown(mounts, device, location, masked_root, directory)),
        },
{
    exposures_say(mounts, mounts.len(), device, location, masked_root);
    match exposures(mounts, mounts.len(), device, location, masked_root) {
        Err(failure) => {
            let k = choose|k: int|
                0 <= k < mounts.len() && fails_for(
                    mounts,
                    #[trigger] mounts[k],
                    device,
                    location,
                    masked_root,
                    failure,
                );
            assert(!is_settled_for(mounts, mounts[k], device, location, masked_root));
        },
        Ok(found) => {
            nested_says(mounts, found);
            assert forall|path: Seq<Seq<u8>>| #[trigger] found.contains(path) <==> is_shown(
                mounts,
                device,
                location,
                masked_root,
                path,
            ) by {}
            assert forall|k: int| 0 <= k < mounts.len() implies (stands_inside(
                mounts,
                #[trigger] mounts[k],
                device,
                location,
                masked_root,
            ) <==> is_nested(mounts[k], found)) by {
                if is_nested(mounts[k], found) {
                    let path = choose|path: Seq<Seq<u8>>| #[trigger]
                        found.contains(path) && mounts[k].destination != path && path.is_prefix_of(
                            mounts[k].destination,
                        );
                    assert(is_shown(mounts, device, location, masked_root, path));
                }
                if stands_inside(mounts, mounts[k], device, location, masked_root) {
                    let path = choose|path: Seq<Seq<u8>>| #[trigger]
                        is_shown(mounts, device, location, masked_root, path) && path.is_prefix_of(
                            mounts[k].destination,
                        ) && path != mounts[k].destination;
                    assert(found.contains(path));
                }
            }
            assert(found.contains(directory) <==> is_shown(
                mounts,
                device,
                location,
                masked_root,
                directory,
            ));
        },
    }
}

/// Where it is not known where the directory lives, the check fails.
pub proof fn unlocated_directory_is_not_isolated(
    mounts: Seq<MountView>,
    directory: Seq<Seq<u8>>,
    device: Seq<u8>,
    mount_id: Option<Seq<u8>>,
    masked_root: Option<Seq<Seq<u8>>>,
)
    requires
        location_of(mounts, directory, device, mount_id) is None,
    ensures
        isolation(mounts, directory, device, mount_id, masked_root) == Err::<
            Set<Seq<Seq<u8>>>,
            MountFailure,
        >(MountFailure::Isolation),
{
}

/// A line of the table that spells an alias of the directory, wherever it
/// stands, is among the paths that the check gives, unless the alias is kept
/// out or something is stacked on it.
pub proof fn every_alias_in_the_table_is_found(
    mountinfo: Seq<u8>,
    directory: Seq<Seq<u8>>,
    device: Seq<u8>,
    mount_id: Option<Seq<u8>>,
    masked_root: Option<Seq<Seq<u8>>>,
    line: Seq<u8>,
    fields: Seq<Seq<u8>>,
    root: Seq<u8>,
    destination: Seq<u8>,
)
    requires
        mount_check(directory, device, mount_id, mountinfo, masked_root) is Ok,
        split(mountinfo, 10u8).contains(line),
        fields.len() >= 5,
        line == joined(fields, 32u8),
        forall|i: int, j: int|
            0 <= i < fields.len() && 0 <= j < fields[i].len() ==> #[trigger] fields[i][j] != 32u8,
        fields[2] == device,
        fields[3] == kernel_spelling(root),
        fields[4] == kernel_spelling(destination),
    ensures
        ({
            let mounts = table_mounts(mountinfo, device)->Ok_0;
            let location = location_of(mounts, directory, device, mount_id)->0;
            let path = path_parts(destination) + location.skip(path_parts(root).len() as int);
            path_parts(root).is_prefix_of(location) && !is_kept_out(masked_root, path) ==> {
                ||| mount_check(
                    directory,
                    device,
                    mount_id,
                    mountinfo,
                    masked_root,
                )->Ok_0.contains(path)
                ||| is_hidden(mounts, fields[0], path) == Some(true)
            }
        }),
{
    let mounts = table_mounts(mountinfo, device)->Ok_0;
    assert(location_of(mounts, directory, device, mount_id) is Some);
    let location = location_of(mounts, directory, device, mount_id)->0;
    let path = path_parts(destination) + location.skip(path_parts(root).len() as int);
    spelled_mount_is_read(mountinfo, device, line, fields, root, destination);
    let k = choose|k: int|
        0 <= k < mounts.len() && #[trigger] mounts[k] == (MountView {
            id: fields[0],
            parent: fields[1],
            device: fields[2],
            root: path_parts(root),
            destination: path_parts(destination),
            destination_bytes: destination,
        });
    check_finds_exactly_the_paths_to_the_directory(
        mounts,
        directory,
        device,
        mount_id,
        masked_root,
        location,
    );
    if path_parts(root).is_prefix_of(location) && !is_kept_out(masked_root, path) {
        assert(leads_to_location(mounts[k], device, location, masked_root, path));
        assert(is_settled_for(mounts, mounts[k], device, location, masked_root));
        if is_hidden(mounts, fields[0], path) != Some(true) {
            let hidden = is_hidden(mounts, fields[0], path)->0;
            assert(!hidden);
            assert(is_shown(mounts, device, location, masked_root, path));
        }
    }
}

/// A table that cannot be read is refused with the failure of its first
/// unsound line; else the check is that of the mounts it describes.
pub proof fn check_reads_the_table(
    mountinfo: Seq<u8>,
    directory: Seq<Seq<u8>>,
    device: Seq<u8>,
    mount_id: Option<Seq<u8>>,
    masked_root: Option<Seq<Seq<u8>>>,
)
    ensures
        match (
            table_mounts(mountinfo, device),
            mount_check(directory, device, mount_id, mountinfo, masked_root),
        ) {
            (Err(failure), Err(refused)) => failure == refused,
            (Err(_), Ok(_)) => false,
            (Ok(mounts), outcome) => outcome == isolation(
                mounts,
                directory,
                device,
                mount_id,
                masked_root,
            ),
        },
{
}

/// What is given of a masked root, of a path that is held and of a mount ID is
/// taken as it is given, and what is not given is not made up.
pub proof fn optional_inputs_are_taken_as_given(path: &[u8], held: UnixPath, text: &str)
    ensures
        optional_path(Some(path)) == Some(path_parts(path@)),
        optional_path(None) is None,
        held_path(Some(held)) == Some(held@),
        held_path(None) is None,
        optional_text(Some(text)) == Some(text.spec_bytes()),
        optional_text(None) is None,
        optional(Some(path)) == Some(path@),
        optional(None) is None,
{
}

} // verus!
