//! How mounts are stacked: which mount is below which, and what hides what.
use vstd::prelude::*;

use super::mountinfo::table;
use super::mountinfo::Mount;
use super::mountinfo::MountError;
use super::mountinfo::MountFailure;
use super::mountinfo::MountView;
use super::path::same_bytes;
use super::path::UnixPath;

verus! {

/// The position of the first mount with an ID.
pub open spec fn find_mount(mounts: Seq<MountView>, id: Seq<u8>) -> Option<int>
    decreases mounts.len(),
{
    if mounts.len() == 0 {
        None
    } else {
        match find_mount(mounts.drop_last(), id) {
            Some(at) => Some(at),
            None => if mounts.last().id == id {
                Some(mounts.len() - 1)
            } else {
                None
            },
        }
    }
}

/// What [`find_mount`] finds has the ID and comes first.
pub proof fn find_mount_is_first(mounts: Seq<MountView>, id: Seq<u8>)
    ensures
        match find_mount(mounts, id) {
            Some(at) => 0 <= at < mounts.len() && mounts[at].id == id && forall|k: int|
                0 <= k < at ==> (#[trigger] mounts[k]).id != id,
            None => forall|k: int| 0 <= k < mounts.len() ==> (#[trigger] mounts[k]).id != id,
        },
    decreases mounts.len(),
{
    if mounts.len() > 0 {
        let earlier = mounts.drop_last();
        find_mount_is_first(earlier, id);
        assert forall|k: int| 0 <= k < earlier.len() implies #[trigger] mounts[k] == earlier[k] by {}
        if find_mount(earlier, id) is None {
            assert forall|k: int| 0 <= k < mounts.len() - 1 implies (#[trigger] mounts[k]).id
                != id by {
                assert(earlier[k].id != id);
            }
        } else {
            let at = find_mount(earlier, id)->0;
            assert forall|k: int| 0 <= k < at implies (#[trigger] mounts[k]).id != id by {
                assert(earlier[k].id != id);
            }
        }
    }
}

/// How many of the first `count` positions have not been visited.
pub open spec fn unvisited(count: nat, visited: Set<int>) -> nat
    decreases count,
{
    if count == 0 {
        0
    } else {
        unvisited((count - 1) as nat, visited) + if visited.contains(count - 1) {
            0nat
        } else {
            1nat
        }
    }
}

/// Visiting a position leaves one less to visit.
pub proof fn visiting_leaves_one_less(count: nat, visited: Set<int>, at: int)
    ensures
        0 <= at < count && !visited.contains(at) ==> unvisited(count, visited.insert(at)) + 1
            == unvisited(count, visited),
        at >= count ==> unvisited(count, visited.insert(at)) == unvisited(count, visited),
    decreases count,
{
    if count > 0 {
        visiting_leaves_one_less((count - 1) as nat, visited, at);
    }
}

/// Whether the mount at `at` is mounted, at whatever depth, on the mount with
/// the ID `ancestor`.  `None` if the parents of the mount form a loop.
pub open spec fn descends(
    mounts: Seq<MountView>,
    at: Option<int>,
    ancestor: Seq<u8>,
    visited: Set<int>,
) -> Option<bool>
    decreases unvisited(mounts.len(), visited),
{
    match at {
        None => Some(false),
        Some(at) => if !(0 <= at < mounts.len()) || visited.contains(at) {
            None
        } else if mounts[at].parent == ancestor {
            Some(true)
        } else if mounts[at].id == mounts[at].parent {
            Some(false)
        } else {
            proof {
                visiting_leaves_one_less(mounts.len(), visited, at);
            }
            descends(mounts, find_mount(mounts, mounts[at].parent), ancestor, visited.insert(at))
        },
    }
}

/// Whether the mount with the ID `id` is mounted, at whatever depth, on the
/// mount with the ID `ancestor`.
pub open spec fn is_descendant(
    mounts: Seq<MountView>,
    id: Seq<u8>,
    ancestor: Seq<u8>,
) -> Option<bool> {
    descends(mounts, find_mount(mounts, id), ancestor, Set::empty())
}

/// Whether a mount among the first `count` that is stacked on the mount with
/// the ID `id` hides `path`.  `None` if a loop of parents is met before such a
/// mount is.
pub open spec fn hidden_among(
    mounts: Seq<MountView>,
    count: nat,
    id: Seq<u8>,
    path: Seq<Seq<u8>>,
) -> Option<bool>
    decreases count,
{
    if count == 0 {
        Some(false)
    } else {
        match hidden_among(mounts, (count - 1) as nat, id, path) {
            Some(false) => {
                let mount = mounts[count - 1];
                if mount.id != id && mount.destination.is_prefix_of(path) {
                    is_descendant(mounts, mount.id, id)
                } else {
                    Some(false)
                }
            },
            settled => settled,
        }
    }
}

/// Whether a mount that is stacked on the mount with the ID `id` hides `path`.
pub open spec fn is_hidden(mounts: Seq<MountView>, id: Seq<u8>, path: Seq<Seq<u8>>) -> Option<
    bool,
> {
    hidden_among(mounts, mounts.len(), id, path)
}

/// Once settled, the search is not changed by further mounts.
proof fn hidden_among_persists(
    mounts: Seq<MountView>,
    count: nat,
    more: nat,
    id: Seq<u8>,
    path: Seq<Seq<u8>>,
)
    requires
        count <= more,
        hidden_among(mounts, count, id, path) != Some(false),
    ensures
        hidden_among(mounts, more, id, path) == hidden_among(mounts, count, id, path),
    decreases more,
{
    if count < more {
        hidden_among_persists(mounts, count, (more - 1) as nat, id, path);
    }
}

/// What [`is_hidden`] says, without reference to the order of the search: a
/// path is hidden by a mount stacked on the one with the ID `id`, and it is
/// not hidden only if no such mount exists.
pub proof fn hidden_means(mounts: Seq<MountView>, id: Seq<u8>, path: Seq<Seq<u8>>)
    ensures
        is_hidden(mounts, id, path) == Some(true) ==> exists|k: int|
            0 <= k < mounts.len() && (#[trigger] mounts[k]).id != id
                && mounts[k].destination.is_prefix_of(path) && is_descendant(
                mounts,
                mounts[k].id,
                id,
            ) == Some(true),
        is_hidden(mounts, id, path) == Some(false) ==> forall|k: int|
            0 <= k < mounts.len() && (#[trigger] mounts[k]).id != id
                && mounts[k].destination.is_prefix_of(path) ==> is_descendant(
                mounts,
                mounts[k].id,
                id,
            ) == Some(false),
{
    hidden_among_means(mounts, mounts.len(), id, path);
}

proof fn hidden_among_means(mounts: Seq<MountView>, count: nat, id: Seq<u8>, path: Seq<Seq<u8>>)
    requires
        count <= mounts.len(),
    ensures
        hidden_among(mounts, count, id, path) == Some(true) ==> exists|k: int|
            0 <= k < count && (#[trigger] mounts[k]).id != id
                && mounts[k].destination.is_prefix_of(path) && is_descendant(
                mounts,
                mounts[k].id,
                id,
            ) == Some(true),
        hidden_among(mounts, count, id, path) == Some(false) ==> forall|k: int|
            0 <= k < count && (#[trigger] mounts[k]).id != id
                && mounts[k].destination.is_prefix_of(path) ==> is_descendant(
                mounts,
                mounts[k].id,
                id,
            ) == Some(false),
    decreases count,
{
    if count > 0 {
        hidden_among_means(mounts, (count - 1) as nat, id, path);
        let mount = mounts[count - 1];
    }
}

/// Whether a mount placed directly on the mount at `at` hides `directory`
/// there.  A mount at or below `branch`, where the walk came from, does not.
pub open spec fn covers(
    mounts: Seq<MountView>,
    directory: Seq<Seq<u8>>,
    at: int,
    branch: Option<Seq<Seq<u8>>>,
    k: int,
) -> bool {
    &&& mounts[k].id != mounts[at].id
    &&& mounts[k].parent == mounts[at].id
    &&& mounts[k].destination.is_prefix_of(directory)
    &&& !(branch is Some && branch->0.is_prefix_of(mounts[k].destination))
}

/// Whether no mount hides `directory` on the way from the mount at `at` to the
/// root of the mount tree.  A way that loops does not count.
pub open spec fn is_clear(
    mounts: Seq<MountView>,
    directory: Seq<Seq<u8>>,
    at: int,
    branch: Option<Seq<Seq<u8>>>,
    visited: Set<int>,
) -> bool
    decreases unvisited(mounts.len(), visited),
{
    if !(0 <= at < mounts.len()) || visited.contains(at) || exists|k: int|
        0 <= k < mounts.len() && #[trigger] covers(mounts, directory, at, branch, k) {
        false
    } else if mounts[at].id == mounts[at].parent {
        true
    } else {
        match find_mount(mounts, mounts[at].parent) {
            None => true,
            Some(parent) => {
                proof {
                    visiting_leaves_one_less(mounts.len(), visited, at);
                }
                is_clear(
                    mounts,
                    directory,
                    parent,
                    Some(mounts[at].destination),
                    visited.insert(at),
                )
            },
        }
    }
}

/// Finds the first mount with an ID.
pub fn find(mounts: &Vec<Mount>, id: &[u8]) -> (at: Option<usize>)
    ensures
        (match at {
            Some(at) => find_mount(table(mounts@), id@) == Some(at as int) && at < mounts.len(),
            None => find_mount(table(mounts@), id@) is None,
        }),
{
    let ghost all = table(mounts@);
    let mut i: usize = 0;
    while i < mounts.len()
        invariant
            i <= mounts.len(),
            all == table(mounts@),
            find_mount(all.take(i as int), id@) is None,
        decreases mounts.len() - i,
    {
        proof {
            assert(all.take(i + 1).drop_last() =~= all.take(i as int));
            assert(all.take(i + 1).last() == mounts@[i as int]@);
        }
        if same_bytes(mounts[i].id.as_slice(), id) {
            proof {
                found_persists(all, id@, i + 1);
            }
            return Some(i);
        }
        i += 1;
    }
    proof {
        assert(all.take(i as int) =~= all);
    }
    None
}

/// What is found among the first mounts is what is found among all.
proof fn found_persists(mounts: Seq<MountView>, id: Seq<u8>, count: int)
    requires
        0 <= count <= mounts.len(),
        find_mount(mounts.take(count), id) is Some,
    ensures
        find_mount(mounts, id) == find_mount(mounts.take(count), id),
    decreases mounts.len(),
{
    if count < mounts.len() {
        assert(mounts.drop_last().take(count) =~= mounts.take(count));
        found_persists(mounts.drop_last(), id, count);
    } else {
        assert(mounts.take(count) =~= mounts);
    }
}

/// Marks for the mounts that have been visited, none so far.
fn no_marks(count: usize) -> (marks: Vec<bool>)
    ensures
        marks.len() == count,
        forall|k: int| 0 <= k < count ==> !#[trigger] marks@[k],
{
    let mut marks: Vec<bool> = Vec::new();
    let mut i: usize = 0;
    while i < count
        invariant
            i <= count,
            marks.len() == i,
            forall|k: int| 0 <= k < i ==> !#[trigger] marks@[k],
        decreases count - i,
    {
        marks.push(false);
        i += 1;
    }
    marks
}

/// Whether the mount with the ID `mount_id` is mounted, at whatever depth, on
/// the mount with the ID `ancestor_id`.  Fails if its parents form a loop.
pub fn mount_is_descendant_of(mount_id: &[u8], ancestor_id: &[u8], mounts: &Vec<Mount>) -> (yes:
    Result<bool, MountError>)
    ensures
        (match yes {
            Ok(yes) => is_descendant(table(mounts@), mount_id@, ancestor_id@) == Some(yes),
            Err(error) => is_descendant(table(mounts@), mount_id@, ancestor_id@) is None && error@
                == MountFailure::Isolation,
        }),
{
    let ghost all = table(mounts@);
    let ghost mut visited: Set<int> = Set::empty();
    let mut marks: Vec<bool> = no_marks(mounts.len());
    let first: Option<usize> = find(mounts, mount_id);
    let mut at: usize = match first {
        None => {
            return Ok(false);
        },
        Some(at) => at,
    };
    loop
        invariant
            all == table(mounts@),
            at < mounts.len(),
            marks.len() == mounts.len(),
            forall|k: int| 0 <= k < marks.len() ==> #[trigger] marks@[k] == visited.contains(k),
            is_descendant(all, mount_id@, ancestor_id@) == descends(
                all,
                Some(at as int),
                ancestor_id@,
                visited,
            ),
        decreases unvisited(all.len(), visited),
    {
        if marks[at] {
            return Err(MountError::Isolation);
        }
        if same_bytes(mounts[at].parent.as_slice(), ancestor_id) {
            return Ok(true);
        }
        if same_bytes(mounts[at].id.as_slice(), mounts[at].parent.as_slice()) {
            return Ok(false);
        }
        proof {
            visiting_leaves_one_less(all.len(), visited, at as int);
            visited = visited.insert(at as int);
        }
        marks.set(at, true);
        match find(mounts, mounts[at].parent.as_slice()) {
            None => {
                assert(descends(all, None, ancestor_id@, visited) == Some(false));
                return Ok(false);
            },
            Some(parent) => {
                at = parent;
            },
        }
    }
}

/// Whether a mount that is stacked on the mount with the ID `mount_id` hides
/// `path`.  Fails if a loop of parents is met before such a mount is.
pub fn path_is_covered_by_descendant_mount(
    mount_id: &[u8],
    path: &UnixPath,
    mounts: &Vec<Mount>,
) -> (covered: Result<bool, MountError>)
    ensures
        (match covered {
            Ok(covered) => is_hidden(table(mounts@), mount_id@, path@) == Some(covered),
            Err(error) => is_hidden(table(mounts@), mount_id@, path@) is None && error@
                == MountFailure::Isolation,
        }),
{
    let ghost all = table(mounts@);
    let mut i: usize = 0;
    while i < mounts.len()
        invariant
            i <= mounts.len(),
            all == table(mounts@),
            hidden_among(all, i as nat, mount_id@, path@) == Some(false),
        decreases mounts.len() - i,
    {
        let mount: &Mount = &mounts[i];
        assert(all[i as int] == mount@);
        if !same_bytes(mount.id.as_slice(), mount_id) && path.starts_with(&mount.destination) {
            match mount_is_descendant_of(mount.id.as_slice(), mount_id, mounts) {
                Err(error) => {
                    proof {
                        hidden_among_persists(all, (i + 1) as nat, all.len(), mount_id@, path@);
                    }
                    return Err(error);
                },
                Ok(descends) => {
                    if descends {
                        proof {
                            hidden_among_persists(all, (i + 1) as nat, all.len(), mount_id@, path@);
                        }
                        return Ok(true);
                    }
                },
            }
        }
        i += 1;
    }
    Ok(false)
}

/// Where the mount that a walk came from is mounted.
spec fn branch_path(mounts: Seq<MountView>, branch: Option<usize>) -> Option<Seq<Seq<u8>>> {
    match branch {
        Some(branch) => Some(mounts[branch as int].destination),
        None => None,
    }
}

/// Whether a mount placed directly on the mount at `at` hides `directory`.
fn is_covered_at(
    mounts: &Vec<Mount>,
    directory: &UnixPath,
    at: usize,
    branch: Option<usize>,
) -> (covered: bool)
    requires
        at < mounts.len(),
        branch is Some ==> branch->0 < mounts.len(),
    ensures
        covered == exists|k: int|
            0 <= k < mounts.len() && #[trigger] covers(
                table(mounts@),
                directory@,
                at as int,
                branch_path(table(mounts@), branch),
                k,
            ),
{
    let ghost all = table(mounts@);
    let ghost below = branch_path(all, branch);
    let mut i: usize = 0;
    while i < mounts.len()
        invariant
            i <= mounts.len(),
            at < mounts.len(),
            branch is Some ==> branch->0 < mounts.len(),
            all == table(mounts@),
            below == branch_path(all, branch),
            forall|k: int| 0 <= k < i ==> !#[trigger] covers(all, directory@, at as int, below, k),
        decreases mounts.len() - i,
    {
        let mount: &Mount = &mounts[i];
        assert(all[i as int] == mount@);
        assert(all[at as int] == mounts@[at as int]@);
        if !same_bytes(mount.id.as_slice(), mounts[at].id.as_slice()) && same_bytes(
            mount.parent.as_slice(),
            mounts[at].id.as_slice(),
        ) && directory.starts_with(&mount.destination) {
            let on_branch: bool = match branch {
                None => false,
                Some(branch) => {
                    assert(all[branch as int] == mounts@[branch as int]@);
                    mount.destination.starts_with(&mounts[branch].destination)
                },
            };
            if !on_branch {
                assert(covers(all, directory@, at as int, below, i as int));
                return true;
            }
        }
        i += 1;
    }
    false
}

/// Whether no mount hides `directory` on the way from the mount at `selected`
/// to the root of the mount tree.
pub fn is_visible(mounts: &Vec<Mount>, directory: &UnixPath, selected: usize) -> (visible: bool)
    requires
        selected < mounts.len(),
    ensures
        visible == is_clear(table(mounts@), directory@, selected as int, None, Set::empty()),
{
    let ghost all = table(mounts@);
    let ghost mut visited: Set<int> = Set::empty();
    let mut marks: Vec<bool> = no_marks(mounts.len());
    let mut at: usize = selected;
    let mut branch: Option<usize> = None;
    loop
        invariant
            all == table(mounts@),
            at < mounts.len(),
            branch is Some ==> branch->0 < mounts.len(),
            marks.len() == mounts.len(),
            forall|k: int| 0 <= k < marks.len() ==> #[trigger] marks@[k] == visited.contains(k),
            is_clear(all, directory@, selected as int, None, Set::empty()) == is_clear(
                all,
                directory@,
                at as int,
                branch_path(all, branch),
                visited,
            ),
        decreases unvisited(all.len(), visited),
    {
        if marks[at] || is_covered_at(mounts, directory, at, branch) {
            return false;
        }
        if same_bytes(mounts[at].id.as_slice(), mounts[at].parent.as_slice()) {
            return true;
        }
        proof {
            visiting_leaves_one_less(all.len(), visited, at as int);
            visited = visited.insert(at as int);
        }
        marks.set(at, true);
        match find(mounts, mounts[at].parent.as_slice()) {
            None => {
                return true;
            },
            Some(parent) => {
                branch = Some(at);
                at = parent;
            },
        }
    }
}

} // verus!
