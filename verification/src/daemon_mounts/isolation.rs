//! Which paths lead to the daemon directory, and whether they can be masked.
use vstd::prelude::*;
use vstd::string::*;

use super::ancestry::find;
use super::ancestry::find_mount;
use super::ancestry::is_clear;
use super::ancestry::is_hidden;
use super::ancestry::is_visible;
use super::ancestry::path_is_covered_by_descendant_mount;
use super::mountinfo::parse_mounts;
use super::mountinfo::table;
use super::mountinfo::table_mounts;
use super::mountinfo::unsupported_mount;
use super::mountinfo::Mount;
use super::mountinfo::MountError;
use super::mountinfo::MountFailure;
use super::mountinfo::MountView;
use super::path::path_before;
use super::path::path_before_order;
use super::path::path_less;
use super::path::path_parts;
use super::path::same_bytes;
use super::path::sorted_paths;
use super::path::UnixPath;

verus! {

/// Whether a mount shows `device` and `directory` is at or below it.
pub open spec fn contains_directory(
    mount: MountView,
    device: Seq<u8>,
    directory: Seq<Seq<u8>>,
) -> bool {
    mount.device == device && mount.destination.is_prefix_of(directory)
}

/// Where, on the device that a mount shows, a directory below the mount lives.
pub open spec fn backing(mount: MountView, directory: Seq<Seq<u8>>) -> Seq<Seq<u8>> {
    mount.root + directory.skip(mount.destination.len() as int)
}

/// Whether every mount that may contain `directory` puts it at `location`,
/// and there is such a mount.
pub open spec fn is_agreed(
    mounts: Seq<MountView>,
    device: Seq<u8>,
    directory: Seq<Seq<u8>>,
    location: Seq<Seq<u8>>,
) -> bool {
    &&& exists|k: int|
        0 <= k < mounts.len() && #[trigger] contains_directory(mounts[k], device, directory)
    &&& forall|k: int|
        0 <= k < mounts.len() && #[trigger] contains_directory(mounts[k], device, directory)
            ==> backing(mounts[k], directory) == location
}

/// Where on the device the daemon directory lives.
///
/// With a mount ID, it is what the mount with that ID says, provided that the
/// mount shows the device, contains the directory, and is not covered.
/// Without one, every mount that may contain the directory has to agree.
pub open spec fn location_of(
    mounts: Seq<MountView>,
    directory: Seq<Seq<u8>>,
    device: Seq<u8>,
    mount_id: Option<Seq<u8>>,
) -> Option<Seq<Seq<u8>>> {
    match mount_id {
        Some(id) => match find_mount(mounts, id) {
            None => None,
            Some(at) => if contains_directory(mounts[at], device, directory) && is_clear(
                mounts,
                directory,
                at,
                None,
                Set::empty(),
            ) {
                Some(backing(mounts[at], directory))
            } else {
                None
            },
        },
        None => if exists|location: Seq<Seq<u8>>|
            is_agreed(mounts, device, directory, location) {
            Some(choose|location: Seq<Seq<u8>>| is_agreed(mounts, device, directory, location))
        } else {
            None
        },
    }
}

/// Whether a path is at or below the masked root.
pub open spec fn is_masked(masked_root: Option<Seq<Seq<u8>>>, path: Seq<Seq<u8>>) -> bool {
    masked_root is Some && masked_root->0.is_prefix_of(path)
}

/// The path by which a mount shows the daemon directory.
pub open spec fn alias(mount: MountView, location: Seq<Seq<u8>>) -> Seq<Seq<u8>> {
    mount.destination + location.skip(mount.root.len() as int)
}

/// What one mount contributes: a path to the daemon directory, nothing, or a
/// failure.
pub open spec fn exposure(
    mounts: Seq<MountView>,
    mount: MountView,
    device: Seq<u8>,
    location: Seq<Seq<u8>>,
    masked_root: Option<Seq<Seq<u8>>>,
) -> Result<Option<Seq<Seq<u8>>>, MountFailure> {
    if mount.device != device {
        Ok(None)
    } else if mount.root.is_prefix_of(location) {
        let path = alias(mount, location);
        if is_masked(masked_root, path) {
            Ok(None)
        } else {
            match is_hidden(mounts, mount.id, path) {
                None => Err(MountFailure::Isolation),
                Some(true) => Ok(None),
                Some(false) => Ok(Some(path)),
            }
        }
    } else if location.is_prefix_of(mount.root) && !is_masked(masked_root, mount.destination) {
        match is_hidden(mounts, mount.id, mount.destination) {
            None => Err(MountFailure::Isolation),
            Some(true) => Ok(None),
            Some(false) => Err(MountFailure::UnsupportedMount(mount.destination_bytes)),
        }
    } else {
        Ok(None)
    }
}

/// The paths that the first `count` mounts contribute, or the first failure.
pub open spec fn exposures(
    mounts: Seq<MountView>,
    count: nat,
    device: Seq<u8>,
    location: Seq<Seq<u8>>,
    masked_root: Option<Seq<Seq<u8>>>,
) -> Result<Set<Seq<Seq<u8>>>, MountFailure>
    decreases count,
{
    if count == 0 {
        Ok(Set::empty())
    } else {
        match exposures(mounts, (count - 1) as nat, device, location, masked_root) {
            Err(failure) => Err(failure),
            Ok(paths) => match exposure(mounts, mounts[count - 1], device, location, masked_root) {
                Err(failure) => Err(failure),
                Ok(None) => Ok(paths),
                Ok(Some(path)) => Ok(paths.insert(path)),
            },
        }
    }
}

/// Whether a mount is inside one of the directories.
pub open spec fn is_nested(mount: MountView, directories: Set<Seq<Seq<u8>>>) -> bool {
    exists|directory: Seq<Seq<u8>>| #[trigger]
        directories.contains(directory) && mount.destination != directory
            && directory.is_prefix_of(mount.destination)
}

/// The first mount that is inside one of the directories.
pub open spec fn first_nested(mounts: Seq<MountView>, directories: Set<Seq<Seq<u8>>>) -> Option<
    MountView,
>
    decreases mounts.len(),
{
    if mounts.len() == 0 {
        None
    } else {
        match first_nested(mounts.drop_last(), directories) {
            Some(mount) => Some(mount),
            None => if is_nested(mounts.last(), directories) {
                Some(mounts.last())
            } else {
                None
            },
        }
    }
}

/// What a parsed mount table says of the daemon directory: every path that
/// leads to it, or why they cannot be told or masked.
pub open spec fn isolation(
    mounts: Seq<MountView>,
    directory: Seq<Seq<u8>>,
    device: Seq<u8>,
    mount_id: Option<Seq<u8>>,
    masked_root: Option<Seq<Seq<u8>>>,
) -> Result<Set<Seq<Seq<u8>>>, MountFailure> {
    match location_of(mounts, directory, device, mount_id) {
        None => Err(MountFailure::Isolation),
        Some(location) => match exposures(mounts, mounts.len(), device, location, masked_root) {
            Err(failure) => Err(failure),
            Ok(directories) => if !directories.contains(directory) {
                Err(MountFailure::Isolation)
            } else {
                match first_nested(mounts, directories) {
                    Some(mount) => Err(MountFailure::UnsupportedMount(mount.destination_bytes)),
                    None => Ok(directories),
                }
            },
        },
    }
}

/// What a mount table says of the daemon directory.
pub open spec fn mount_check(
    directory: Seq<Seq<u8>>,
    device: Seq<u8>,
    mount_id: Option<Seq<u8>>,
    mountinfo: Seq<u8>,
    masked_root: Option<Seq<Seq<u8>>>,
) -> Result<Set<Seq<Seq<u8>>>, MountFailure> {
    match table_mounts(mountinfo, device) {
        Err(failure) => Err(failure),
        Ok(mounts) => isolation(mounts, directory, device, mount_id, masked_root),
    }
}

/// The paths that `paths` holds.
pub open spec fn path_views(paths: Seq<UnixPath>) -> Seq<Seq<Seq<u8>>> {
    paths.map_values(|path: UnixPath| path@)
}

/// Paths that must be masked after a bind exposes their backing filesystem.
///
/// Each path names the complete daemon directory.  Aliases of a file or
/// subdirectory are rejected during discovery because masking their mount
/// destinations would not establish that every path to the rest of the daemon
/// directory is protected.
#[derive(Debug)]
pub struct DaemonSocketMounts {
    directories: Vec<UnixPath>,
}

impl View for DaemonSocketMounts {
    type V = Set<Seq<Seq<u8>>>;

    closed spec fn view(&self) -> Set<Seq<Seq<u8>>> {
        path_views(self.directories@).to_set()
    }
}

impl DaemonSocketMounts {
    /// The paths are sorted, none twice.
    #[verifier::type_invariant]
    spec fn is_sorted(self) -> bool {
        sorted_paths(path_views(self.directories@))
    }

    /// The paths, in ascending order.
    pub fn directories(&self) -> (directories: &Vec<UnixPath>)
        ensures
            sorted_paths(path_views(directories@)),
            path_views(directories@).to_set() == self@,
    {
        proof {
            use_type_invariant(&*self);
        }
        &self.directories
    }

    /// Whether a path is among them.
    fn contains(&self, path: &UnixPath) -> (found: bool)
        ensures
            found == self@.contains(path@),
    {
        let ghost views = path_views(self.directories@);
        let mut i: usize = 0;
        while i < self.directories.len()
            invariant
                i <= self.directories.len(),
                views == path_views(self.directories@),
                forall|k: int| 0 <= k < i ==> #[trigger] views[k] != path@,
            decreases self.directories.len() - i,
        {
            assert(views[i as int] == self.directories@[i as int]@);
            if self.directories[i].same_as(path) {
                assert(views.contains(path@));
                return true;
            }
            i += 1;
        }
        false
    }

    /// Whether a path is strictly inside one of them.
    fn holds_inside(&self, mount: &Mount) -> (inside: bool)
        ensures
            inside == is_nested(mount@, self@),
    {
        let ghost views = path_views(self.directories@);
        let mut i: usize = 0;
        while i < self.directories.len()
            invariant
                i <= self.directories.len(),
                views == path_views(self.directories@),
                forall|k: int|
                    0 <= k < i ==> !(mount.destination@ != #[trigger] views[k]
                        && views[k].is_prefix_of(mount.destination@)),
            decreases self.directories.len() - i,
        {
            assert(views[i as int] == self.directories@[i as int]@);
            if !mount.destination.same_as(&self.directories[i]) && mount.destination.starts_with(
                &self.directories[i],
            ) {
                assert(self@.contains(views[i as int]));
                return true;
            }
            i += 1;
        }
        proof {
            assert forall|directory: Seq<Seq<u8>>| #[trigger]
                self@.contains(directory) implies !(mount@.destination != directory
                && directory.is_prefix_of(mount@.destination)) by {
                let k = choose|k: int| 0 <= k < views.len() && views[k] == directory;
                assert(views[k] == directory);
            }
        }
        false
    }
}

/// Puts a path in its place among sorted paths, unless it is there.
fn insert_path(paths: &mut Vec<UnixPath>, path: UnixPath)
    requires
        sorted_paths(path_views(old(paths)@)),
    ensures
        sorted_paths(path_views(final(paths)@)),
        path_views(final(paths)@).to_set() == path_views(old(paths)@).to_set().insert(path@),
{
    let ghost before = path_views(paths@);
    let mut at: usize = 0;
    while at < paths.len() && path_less(&paths[at], &path)
        invariant
            at <= paths.len(),
            before == path_views(paths@),
            forall|k: int| 0 <= k < at ==> path_before(#[trigger] before[k], path@),
        decreases paths.len() - at,
    {
        assert(before[at as int] == paths@[at as int]@);
        at += 1;
    }
    if at < paths.len() {
        assert(before[at as int] == paths@[at as int]@);
        if paths[at].same_as(&path) {
            proof {
                assert(before.contains(path@));
                assert(before.to_set().insert(path@) =~= before.to_set());
            }
            return;
        }
    }
    let ghost added = path@;
    proof {
        if at < before.len() {
            path_before_order(before[at as int], added, added);
        }
        assert forall|k: int| at <= k < before.len() implies path_before(
            added,
            #[trigger] before[k],
        ) by {
            path_before_order(added, before[at as int], before[k]);
        }
    }
    paths.insert(at, path);
    proof {
        let after = path_views(paths@);
        assert(after =~= before.insert(at as int, added));
        assert forall|i: int, j: int| 0 <= i < j < after.len() implies path_before(
            #[trigger] after[i],
            #[trigger] after[j],
        ) by {
            if j < at {
                assert(after[i] == before[i] && after[j] == before[j]);
            } else if j == at {
                assert(after[i] == before[i]);
            } else if i == at {
                assert(after[j] == before[j - 1]);
            } else if i < at {
                assert(after[i] == before[i] && after[j] == before[j - 1]);
            } else {
                assert(after[i] == before[i - 1] && after[j] == before[j - 1]);
            }
        }
        assert forall|p: Seq<Seq<u8>>|
            after.to_set().contains(p) == before.to_set().insert(added).contains(p) by {
            if before.contains(p) {
                let k = choose|k: int| 0 <= k < before.len() && before[k] == p;
                if k < at {
                    assert(after[k] == p);
                } else {
                    assert(after[k + 1] == p);
                }
            }
            if after.contains(p) {
                let k = choose|k: int| 0 <= k < after.len() && after[k] == p;
                if k < at {
                    assert(before[k] == p);
                } else if k > at {
                    assert(before[k - 1] == p);
                }
            }
            assert(after[at as int] == added);
        }
        assert(after.to_set() =~= before.to_set().insert(added));
    }
}

/// Whether a mount shows `device` and `directory` is at or below it.
fn holds_directory(mount: &Mount, device: &[u8], directory: &UnixPath) -> (yes: bool)
    ensures
        yes == contains_directory(mount@, device@, directory@),
{
    same_bytes(mount.device.as_slice(), device) && directory.starts_with(&mount.destination)
}

/// Where the mounts that may contain `directory` put it, if they agree.
fn agreed_location(mounts: &Vec<Mount>, device: &[u8], directory: &UnixPath) -> (location: Option<
    UnixPath,
>)
    ensures
        (match location {
            Some(location) => is_agreed(table(mounts@), device@, directory@, location@),
            None => forall|location: Seq<Seq<u8>>|
                !is_agreed(table(mounts@), device@, directory@, location),
        }),
{
    let ghost all = table(mounts@);
    let mut found: Option<UnixPath> = None;
    let ghost mut witness: int = 0;
    let mut i: usize = 0;
    while i < mounts.len()
        invariant
            i <= mounts.len(),
            all == table(mounts@),
            found is None ==> forall|k: int|
                0 <= k < i ==> !#[trigger] contains_directory(all[k], device@, directory@),
            found is Some ==> 0 <= witness < i && contains_directory(
                all[witness],
                device@,
                directory@,
            ) && backing(all[witness], directory@) == found->0@,
            found is Some ==> forall|k: int|
                0 <= k < i && #[trigger] contains_directory(all[k], device@, directory@)
                    ==> backing(all[k], directory@) == found->0@,
        decreases mounts.len() - i,
    {
        let mount: &Mount = &mounts[i];
        assert(all[i as int] == mount@);
        if holds_directory(mount, device, directory) {
            let location: UnixPath = directory.moved(&mount.destination, &mount.root);
            match &found {
                None => {
                    proof {
                        witness = i as int;
                    }
                    found = Some(location);
                },
                Some(earlier) => {
                    if !earlier.same_as(&location) {
                        proof {
                            assert forall|l: Seq<Seq<u8>>| !is_agreed(
                                all,
                                device@,
                                directory@,
                                l,
                            ) by {
                                if is_agreed(all, device@, directory@, l) {
                                    assert(contains_directory(all[i as int], device@, directory@));
                                    assert(contains_directory(all[witness], device@, directory@));
                                }
                            }
                        }
                        return None;
                    }
                },
            }
        }
        i += 1;
    }
    found
}

/// Finds where on the device the daemon directory lives.
fn find_location(
    mounts: &Vec<Mount>,
    directory: &UnixPath,
    device: &[u8],
    mount_id: Option<&[u8]>,
) -> (location: Option<UnixPath>)
    ensures
        (match location {
            Some(location) => location_of(table(mounts@), directory@, device@, optional(mount_id))
                == Some(location@),
            None => location_of(table(mounts@), directory@, device@, optional(mount_id)) is None,
        }),
{
    match mount_id {
        Some(id) => match find(mounts, id) {
            None => None,
            Some(at) => {
                let mount: &Mount = &mounts[at];
                assert(table(mounts@)[at as int] == mount@);
                if holds_directory(mount, device, directory) && is_visible(mounts, directory, at) {
                    Some(directory.moved(&mount.destination, &mount.root))
                } else {
                    None
                }
            },
        },
        None => {
            let agreed: Option<UnixPath> = agreed_location(mounts, device, directory);
            proof {
                if agreed is Some {
                    let all = table(mounts@);
                    let chosen = choose|l: Seq<Seq<u8>>| is_agreed(all, device@, directory@, l);
                    let k = choose|k: int|
                        0 <= k < all.len() && #[trigger] contains_directory(
                            all[k],
                            device@,
                            directory@,
                        );
                    assert(is_agreed(all, device@, directory@, chosen));
                    assert(contains_directory(all[k], device@, directory@));
                    assert(backing(all[k], directory@) == chosen);
                }
            }
            agreed
        },
    }
}

/// The content of an optional byte string.
pub open spec fn optional(bytes: Option<&[u8]>) -> Option<Seq<u8>> {
    match bytes {
        Some(bytes) => Some(bytes@),
        None => None,
    }
}

/// The parts of an optional path, where it is held as such.
pub open spec fn held_path(path: Option<UnixPath>) -> Option<Seq<Seq<u8>>> {
    match path {
        Some(path) => Some(path@),
        None => None,
    }
}

/// The parts of an optional path.
pub open spec fn optional_path(path: Option<&[u8]>) -> Option<Seq<Seq<u8>>> {
    match path {
        Some(path) => Some(path_parts(path@)),
        None => None,
    }
}

/// The bytes of an optional text.
pub open spec fn optional_text(text: Option<&str>) -> Option<Seq<u8>> {
    match text {
        Some(text) => Some(text.spec_bytes()),
        None => None,
    }
}

/// Whether a path is at or below the masked root.
fn masks(masked_root: &Option<UnixPath>, path: &UnixPath) -> (masked: bool)
    ensures
        masked == is_masked(
            held_path(*masked_root),
            path@,
        ),
{
    match masked_root {
        Some(root) => path.starts_with(root),
        None => false,
    }
}

/// Once a mount fails, so do all mounts.
proof fn failure_persists(
    mounts: Seq<MountView>,
    count: nat,
    more: nat,
    device: Seq<u8>,
    location: Seq<Seq<u8>>,
    masked_root: Option<Seq<Seq<u8>>>,
)
    requires
        count <= more,
        exposures(mounts, count, device, location, masked_root) is Err,
    ensures
        exposures(mounts, more, device, location, masked_root) == exposures(
            mounts,
            count,
            device,
            location,
            masked_root,
        ),
    decreases more,
{
    if count < more {
        failure_persists(mounts, count, (more - 1) as nat, device, location, masked_root);
    }
}

/// What one mount contributes.
fn expose(
    mounts: &Vec<Mount>,
    mount: &Mount,
    device: &[u8],
    location: &UnixPath,
    masked_root: &Option<UnixPath>,
) -> (contribution: Result<Option<UnixPath>, MountError>)
    ensures
        ({
            let expected = exposure(
                table(mounts@),
                mount@,
                device@,
                location@,
                held_path(*masked_root),
            );
            match contribution {
                Ok(None) => expected == Ok::<Option<Seq<Seq<u8>>>, MountFailure>(None),
                Ok(Some(path)) => expected == Ok::<Option<Seq<Seq<u8>>>, MountFailure>(Some(path@)),
                Err(error) => expected == Err::<Option<Seq<Seq<u8>>>, MountFailure>(error@),
            }
        }),
{
    if !same_bytes(mount.device.as_slice(), device) {
        return Ok(None);
    }
    if location.starts_with(&mount.root) {
        let path: UnixPath = location.moved(&mount.root, &mount.destination);
        if masks(masked_root, &path) {
            return Ok(None);
        }
        match path_is_covered_by_descendant_mount(mount.id.as_slice(), &path, mounts) {
            Err(error) => Err(error),
            Ok(covered) => if covered {
                Ok(None)
            } else {
                Ok(Some(path))
            },
        }
    } else if mount.root.starts_with(location) && !masks(masked_root, &mount.destination) {
        match path_is_covered_by_descendant_mount(
            mount.id.as_slice(),
            &mount.destination,
            mounts,
        ) {
            Err(error) => Err(error),
            Ok(covered) => if covered {
                Ok(None)
            } else {
                Err(unsupported_mount(&mount.destination_bytes))
            },
        }
    } else {
        Ok(None)
    }
}

/// Collects every path that leads to the daemon directory.
fn expose_all(
    mounts: &Vec<Mount>,
    device: &[u8],
    location: &UnixPath,
    masked_root: &Option<UnixPath>,
) -> (directories: Result<DaemonSocketMounts, MountError>)
    ensures
        ({
            let expected = exposures(
                table(mounts@),
                mounts@.len(),
                device@,
                location@,
                held_path(*masked_root),
            );
            match directories {
                Ok(directories) => expected == Ok::<Set<Seq<Seq<u8>>>, MountFailure>(directories@),
                Err(error) => expected == Err::<Set<Seq<Seq<u8>>>, MountFailure>(error@),
            }
        }),
{
    let ghost all = table(mounts@);
    let ghost root: Option<Seq<Seq<u8>>> = held_path(*masked_root);
    let mut directories: Vec<UnixPath> = Vec::new();
    let mut i: usize = 0;
    proof {
        assert(path_views(directories@).to_set() =~= Set::<Seq<Seq<u8>>>::empty());
    }
    while i < mounts.len()
        invariant
            i <= mounts.len(),
            all == table(mounts@),
            root == held_path(*masked_root),
            sorted_paths(path_views(directories@)),
            exposures(all, i as nat, device@, location@, root) == Ok::<
                Set<Seq<Seq<u8>>>,
                MountFailure,
            >(path_views(directories@).to_set()),
        decreases mounts.len() - i,
    {
        assert(all[i as int] == mounts@[i as int]@);
        match expose(mounts, &mounts[i], device, location, masked_root) {
            Err(error) => {
                proof {
                    failure_persists(all, (i + 1) as nat, all.len(), device@, location@, root);
                }
                return Err(error);
            },
            Ok(None) => {},
            Ok(Some(path)) => {
                insert_path(&mut directories, path);
            },
        }
        i += 1;
    }
    Ok(DaemonSocketMounts { directories })
}

/// What is found among the first mounts is what is found among all.
proof fn nested_persists(mounts: Seq<MountView>, directories: Set<Seq<Seq<u8>>>, count: int)
    requires
        0 <= count <= mounts.len(),
        first_nested(mounts.take(count), directories) is Some,
    ensures
        first_nested(mounts, directories) == first_nested(mounts.take(count), directories),
    decreases mounts.len(),
{
    if count < mounts.len() {
        assert(mounts.drop_last().take(count) =~= mounts.take(count));
        nested_persists(mounts.drop_last(), directories, count);
    } else {
        assert(mounts.take(count) =~= mounts);
    }
}

/// Finds the first mount that is inside one of the directories.
fn find_nested(mounts: &Vec<Mount>, directories: &DaemonSocketMounts) -> (at: Option<usize>)
    ensures
        (match at {
            Some(at) => at < mounts.len() && first_nested(table(mounts@), directories@) == Some(
                mounts@[at as int]@,
            ),
            None => first_nested(table(mounts@), directories@) is None,
        }),
{
    let ghost all = table(mounts@);
    let mut i: usize = 0;
    while i < mounts.len()
        invariant
            i <= mounts.len(),
            all == table(mounts@),
            first_nested(all.take(i as int), directories@) is None,
        decreases mounts.len() - i,
    {
        proof {
            assert(all.take(i + 1).drop_last() =~= all.take(i as int));
            assert(all.take(i + 1).last() == mounts@[i as int]@);
        }
        if directories.holds_inside(&mounts[i]) {
            proof {
                nested_persists(all, directories@, i + 1);
            }
            return Some(i);
        }
        i += 1;
    }
    proof {
        assert(all.take(i as int) =~= all);
    }
    None
}

/// Finds every path that leads to the daemon directory, from the mount table
/// `mountinfo`.
///
/// `device` is the device that the directory lives on, and `mount_id` the
/// mount by which it was opened, where that is known.  What lies at or below
/// `masked_root` is masked already.
pub fn check_mounts(
    directory: &[u8],
    device: &str,
    mount_id: Option<&str>,
    mountinfo: &[u8],
    masked_root: Option<&[u8]>,
) -> (directories: Result<DaemonSocketMounts, MountError>)
    ensures
        ({
            let expected = mount_check(
                path_parts(directory@),
                device.spec_bytes(),
                optional_text(mount_id),
                mountinfo@,
                optional_path(masked_root),
            );
            match directories {
                Ok(directories) => expected == Ok::<Set<Seq<Seq<u8>>>, MountFailure>(directories@),
                Err(error) => expected == Err::<Set<Seq<Seq<u8>>>, MountFailure>(error@),
            }
        }),
{
    let device_bytes: &[u8] = device.as_bytes();
    let id_bytes: Option<&[u8]> = match mount_id {
        Some(id) => Some(id.as_bytes()),
        None => None,
    };
    let mounts: Vec<Mount> = match parse_mounts(mountinfo, device_bytes) {
        Err(error) => {
            return Err(error);
        },
        Ok(mounts) => mounts,
    };
    let directory_path: UnixPath = UnixPath::from_bytes(directory);
    let masked_path: Option<UnixPath> = match masked_root {
        Some(root) => Some(UnixPath::from_bytes(root)),
        None => None,
    };
    let location: UnixPath = match find_location(
        &mounts,
        &directory_path,
        device_bytes,
        id_bytes,
    ) {
        None => {
            return Err(MountError::Isolation);
        },
        Some(location) => location,
    };
    let directories: DaemonSocketMounts = match expose_all(
        &mounts,
        device_bytes,
        &location,
        &masked_path,
    ) {
        Err(error) => {
            return Err(error);
        },
        Ok(directories) => directories,
    };
    if !directories.contains(&directory_path) {
        return Err(MountError::Isolation);
    }
    match find_nested(&mounts, &directories) {
        Some(at) => Err(unsupported_mount(&mounts[at].destination_bytes)),
        None => Ok(directories),
    }
}

} // verus!
