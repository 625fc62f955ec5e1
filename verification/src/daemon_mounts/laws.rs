//! What a successful mount check guarantees.
use vstd::prelude::*;

use super::ancestry::covers;
use super::ancestry::find_mount;
use super::ancestry::find_mount_is_first;
use super::ancestry::is_clear;
use super::ancestry::is_hidden;
use super::isolation::alias;
use super::isolation::exposure;
use super::isolation::exposures;
use super::isolation::first_nested;
use super::isolation::is_masked;
use super::isolation::is_nested;
use super::isolation::isolation;
use super::isolation::location_of;
use super::mountinfo::MountFailure;
use super::mountinfo::MountView;

verus! {

/// Whether a mount shows the whole daemon directory at `path`, unmasked and
/// not hidden by a mount stacked on it.
pub open spec fn shows_directory_at(
    mounts: Seq<MountView>,
    mount: MountView,
    device: Seq<u8>,
    location: Seq<Seq<u8>>,
    masked_root: Option<Seq<Seq<u8>>>,
    path: Seq<Seq<u8>>,
) -> bool {
    &&& mount.device == device
    &&& mount.root.is_prefix_of(location)
    &&& path == alias(mount, location)
    &&& !is_masked(masked_root, path)
    &&& is_hidden(mounts, mount.id, path) == Some(false)
}

proof fn exposures_mean(
    mounts: Seq<MountView>,
    count: nat,
    device: Seq<u8>,
    location: Seq<Seq<u8>>,
    masked_root: Option<Seq<Seq<u8>>>,
)
    requires
        count <= mounts.len(),
        exposures(mounts, count, device, location, masked_root) is Ok,
    ensures
        forall|path: Seq<Seq<u8>>|
            exposures(mounts, count, device, location, masked_root)->Ok_0.contains(path)
                <==> exists|k: int|
                0 <= k < count && shows_directory_at(
                    mounts,
                    #[trigger] mounts[k],
                    device,
                    location,
                    masked_root,
                    path,
                ),
        forall|k: int|
            0 <= k < count ==> exposure(
                mounts,
                #[trigger] mounts[k],
                device,
                location,
                masked_root,
            ) is Ok,
    decreases count,
{
    if count > 0 {
        let fewer = (count - 1) as nat;
        exposures_mean(mounts, fewer, device, location, masked_root);
        let before = exposures(mounts, fewer, device, location, masked_root)->Ok_0;
        let after = exposures(mounts, count, device, location, masked_root)->Ok_0;
        assert forall|path: Seq<Seq<u8>>| after.contains(path) <==> exists|k: int|
            0 <= k < count && shows_directory_at(
                mounts,
                #[trigger] mounts[k],
                device,
                location,
                masked_root,
                path,
            ) by {
            let last = mounts[count - 1];
            assert(after.contains(path) <==> before.contains(path) || shows_directory_at(
                mounts,
                last,
                device,
                location,
                masked_root,
                path,
            ));
            if before.contains(path) {
                let k = choose|k: int|
                    0 <= k < fewer && shows_directory_at(
                        mounts,
                        #[trigger] mounts[k],
                        device,
                        location,
                        masked_root,
                        path,
                    );
                assert(shows_directory_at(mounts, mounts[k], device, location, masked_root, path));
            }
        }
    }
}

/// A successful check returns the directory itself, and with it exactly the
/// paths at which some mount shows the whole directory, unmasked and visible.
pub proof fn check_returns_every_alias(
    mounts: Seq<MountView>,
    directory: Seq<Seq<u8>>,
    device: Seq<u8>,
    mount_id: Option<Seq<u8>>,
    masked_root: Option<Seq<Seq<u8>>>,
)
    requires
        isolation(mounts, directory, device, mount_id, masked_root) is Ok,
    ensures
        ({
            let found = isolation(mounts, directory, device, mount_id, masked_root)->Ok_0;
            let located = location_of(mounts, directory, device, mount_id);
            &&& located is Some
            &&& found.contains(directory)
            &&& forall|path: Seq<Seq<u8>>|
                found.contains(path) <==> exists|k: int|
                    0 <= k < mounts.len() && shows_directory_at(
                        mounts,
                        #[trigger] mounts[k],
                        device,
                        located->0,
                        masked_root,
                        path,
                    )
        }),
{
    let location = location_of(mounts, directory, device, mount_id)->0;
    exposures_mean(mounts, mounts.len(), device, location, masked_root);
}

/// No path that a successful check returns lies at or below the masked root.
pub proof fn returned_paths_are_not_masked(
    mounts: Seq<MountView>,
    directory: Seq<Seq<u8>>,
    device: Seq<u8>,
    mount_id: Option<Seq<u8>>,
    masked_root: Option<Seq<Seq<u8>>>,
    path: Seq<Seq<u8>>,
)
    requires
        isolation(mounts, directory, device, mount_id, masked_root) is Ok,
        isolation(mounts, directory, device, mount_id, masked_root)->Ok_0.contains(path),
    ensures
        !is_masked(masked_root, path),
{
    check_returns_every_alias(mounts, directory, device, mount_id, masked_root);
}

/// After a successful check, a mount that shows only a part of the daemon
/// directory is masked, or is hidden by a mount stacked on it.
pub proof fn partial_exposures_are_out_of_sight(
    mounts: Seq<MountView>,
    directory: Seq<Seq<u8>>,
    device: Seq<u8>,
    mount_id: Option<Seq<u8>>,
    masked_root: Option<Seq<Seq<u8>>>,
    k: int,
)
    requires
        isolation(mounts, directory, device, mount_id, masked_root) is Ok,
        0 <= k < mounts.len(),
        mounts[k].device == device,
        location_of(mounts, directory, device, mount_id)->0.is_prefix_of(mounts[k].root),
        mounts[k].root != location_of(mounts, directory, device, mount_id)->0,
    ensures
        is_masked(masked_root, mounts[k].destination) || is_hidden(
            mounts,
            mounts[k].id,
            mounts[k].destination,
        ) == Some(true),
{
    let location = location_of(mounts, directory, device, mount_id)->0;
    exposures_mean(mounts, mounts.len(), device, location, masked_root);
    assert(exposure(mounts, mounts[k], device, location, masked_root) is Ok);
    if mounts[k].root.is_prefix_of(location) {
        assert(mounts[k].root =~= location);
    }
}

proof fn nested_means(mounts: Seq<MountView>, directories: Set<Seq<Seq<u8>>>)
    ensures
        first_nested(mounts, directories) is None <==> forall|k: int|
            0 <= k < mounts.len() ==> !is_nested(#[trigger] mounts[k], directories),
    decreases mounts.len(),
{
    if mounts.len() > 0 {
        let earlier = mounts.drop_last();
        nested_means(earlier, directories);
        if first_nested(earlier, directories) is None {
            assert forall|k: int| 0 <= k < earlier.len() implies !is_nested(
                #[trigger] mounts[k],
                directories,
            ) by {
                assert(earlier[k] == mounts[k]);
            }
        } else {
            let k = choose|k: int|
                0 <= k < earlier.len() && is_nested(#[trigger] earlier[k], directories);
            assert(mounts[k] == earlier[k]);
        }
    }
}

/// After a successful check, no mount of any device is inside a returned path.
pub proof fn nothing_is_mounted_inside(
    mounts: Seq<MountView>,
    directory: Seq<Seq<u8>>,
    device: Seq<u8>,
    mount_id: Option<Seq<u8>>,
    masked_root: Option<Seq<Seq<u8>>>,
    path: Seq<Seq<u8>>,
    k: int,
)
    requires
        isolation(mounts, directory, device, mount_id, masked_root) is Ok,
        isolation(mounts, directory, device, mount_id, masked_root)->Ok_0.contains(path),
        0 <= k < mounts.len(),
        path.is_prefix_of(mounts[k].destination),
    ensures
        mounts[k].destination == path,
{
    let found = isolation(mounts, directory, device, mount_id, masked_root)->Ok_0;
    nested_means(mounts, found);
    assert(!is_nested(mounts[k], found));
}

/// A mount ID that the table does not know is an error, whatever the mounts
/// would agree on without one.
pub proof fn unknown_mount_id_is_refused(
    mounts: Seq<MountView>,
    directory: Seq<Seq<u8>>,
    device: Seq<u8>,
    id: Seq<u8>,
    masked_root: Option<Seq<Seq<u8>>>,
)
    requires
        forall|k: int| 0 <= k < mounts.len() ==> (#[trigger] mounts[k]).id != id,
    ensures
        isolation(mounts, directory, device, Some(id), masked_root) == Err::<
            Set<Seq<Seq<u8>>>,
            MountFailure,
        >(MountFailure::Isolation),
{
    find_mount_is_first(mounts, id);
}

/// If the mount by which the directory was opened has been covered since, the
/// check fails.
pub proof fn covered_mount_is_refused(
    mounts: Seq<MountView>,
    directory: Seq<Seq<u8>>,
    device: Seq<u8>,
    id: Seq<u8>,
    masked_root: Option<Seq<Seq<u8>>>,
    k: int,
)
    requires
        0 <= k < mounts.len(),
        mounts[k].id != id,
        mounts[k].parent == id,
        mounts[k].destination.is_prefix_of(directory),
    ensures
        isolation(mounts, directory, device, Some(id), masked_root) == Err::<
            Set<Seq<Seq<u8>>>,
            MountFailure,
        >(MountFailure::Isolation),
{
    find_mount_is_first(mounts, id);
    if let Some(at) = find_mount(mounts, id) {
        assert(covers(mounts, directory, at, None, k));
        assert(!is_clear(mounts, directory, at, None, Set::empty()));
    }
}

} // verus!
