//! From what the kernel says of the open daemon directory to the paths that
//! lead to it.
use vstd::prelude::*;
use vstd::string::*;

use super::isolation::check_mounts;
use super::isolation::mount_check;
use super::isolation::optional_path;
use super::isolation::DaemonSocketMounts;
use super::mountinfo::MountError;
use super::mountinfo::MountFailure;
use super::path::path_parts;
use crate::text::after_prefix;
use crate::text::decimal;
use crate::text::decimal_text;
use crate::text::first_after;
use crate::text::first_line_with_the_prefix_is_taken;
use crate::text::lines;
use crate::text::optional_chars;
use crate::text::parse_u64;
use crate::text::parsed_u64;
use crate::text::trim;
use crate::text::trimmed;
use crate::text::unsigned_numerals_are_read;

verus! {

/// The major number of a device.
pub open spec fn major_number(device: u64) -> u32 {
    (((device & 0x0000_0000_000f_ff00) >> 8) | ((device & 0xffff_f000_0000_0000) >> 32)) as u32
}

/// The minor number of a device.
pub open spec fn minor_number(device: u64) -> u32 {
    ((device & 0x0000_0000_0000_00ff) | ((device & 0x0000_0fff_fff0_0000) >> 12)) as u32
}

/// Calls `libc::major`.  Trusted: the result gathers bits 8 to 19 and 44 to 63
/// of the device number.
#[verifier::external_body]
fn device_major(device: u64) -> (major: u32)
    ensures
        major == major_number(device),
{
    libc::major(device)
}

/// Calls `libc::minor`.  Trusted: the result gathers bits 0 to 7 and 20 to 43
/// of the device number.
#[verifier::external_body]
fn device_minor(device: u64) -> (minor: u32)
    ensures
        minor == minor_number(device),
{
    libc::minor(device)
}

/// How the mount table spells a device: major number, colon, minor number.
pub open spec fn device_spelling(device: u64) -> Seq<char> {
    decimal(major_number(device) as nat) + ":"@ + decimal(minor_number(device) as nat)
}

/// Spells a device as the mount table does.
pub fn device_text(device: u64) -> (text: String)
    ensures
        text@ == device_spelling(device),
{
    let mut text: String = decimal_text(device_major(device) as u64);
    text.append(":");
    text.append(decimal_text(device_minor(device) as u64).as_str());
    text
}

/// The line of `/proc/self/fdinfo` that gives the mount ID begins with this.
pub const MOUNT_ID_FIELD: &'static str = "mnt_id:";

/// The mount ID that the text of an `fdinfo` file gives.
pub open spec fn fdinfo_mount_id(fdinfo: Seq<char>) -> Option<u64> {
    match first_after(lines(fdinfo), MOUNT_ID_FIELD@) {
        Some(id) => parsed_u64(trimmed(id)),
        None => None,
    }
}

/// Reads the mount ID from the text of an `fdinfo` file.
pub fn mount_id_from_fdinfo(fdinfo: &str) -> (id: Option<u64>)
    ensures
        id == fdinfo_mount_id(fdinfo@),
{
    match after_prefix(fdinfo, MOUNT_ID_FIELD) {
        Some(id) => parse_u64(trim(id.as_str())),
        None => None,
    }
}

/// What `statx` says of the mount of the open directory.
#[derive(Clone, Copy, Debug)]
pub struct MountIdReply {
    /// The fields that the kernel filled in.
    pub mask: u32,
    /// The bit of the mount ID in `mask`.
    pub mount_id_bit: u32,
    /// The mount ID, if it was filled in.
    pub mount_id: u64,
}

/// The mount ID in a `statx` reply.  Older kernels may succeed without
/// returning the requested field.
pub open spec fn replied_mount_id(reply: Option<MountIdReply>) -> Option<u64> {
    match reply {
        Some(reply) => if reply.mask & reply.mount_id_bit != 0 {
            Some(reply.mount_id)
        } else {
            None
        },
        None => None,
    }
}

/// The mount by which the directory was opened: what `fdinfo` gives, else what
/// `statx` gives.
pub open spec fn opened_mount_id(
    fdinfo: Option<Seq<char>>,
    reply: Option<MountIdReply>,
) -> Option<u64> {
    match fdinfo {
        Some(fdinfo) => match fdinfo_mount_id(fdinfo) {
            Some(id) => Some(id),
            None => replied_mount_id(reply),
        },
        None => replied_mount_id(reply),
    }
}

/// Finds the mount by which the directory was opened.
pub fn opened_mount(fdinfo: Option<&str>, reply: Option<MountIdReply>) -> (id: Option<u64>)
    ensures
        id == opened_mount_id(optional_chars(fdinfo), reply),
{
    let from_fdinfo: Option<u64> = match fdinfo {
        Some(fdinfo) => mount_id_from_fdinfo(fdinfo),
        None => None,
    };
    match from_fdinfo {
        Some(id) => Some(id),
        None => match reply {
            Some(reply) => if reply.mask & reply.mount_id_bit != 0 {
                Some(reply.mount_id)
            } else {
                None
            },
            None => None,
        },
    }
}

/// The spelling of an optional mount ID, in the bytes of the mount table.
pub open spec fn mount_id_bytes(id: Option<u64>) -> Option<Seq<u8>> {
    match id {
        Some(id) => Some(vstd::utf8::encode_utf8(decimal(id as nat))),
        None => None,
    }
}

/// Finds every path that leads to the daemon directory.
///
/// `device` is the number of the device that the open directory lives on;
/// `fdinfo` and `reply` are what the kernel says of its mount, where it says
/// anything, and `mountinfo` is the mount table.
pub fn discover_daemon_socket_mounts(
    directory: &[u8],
    device: u64,
    fdinfo: Option<&str>,
    reply: Option<MountIdReply>,
    mountinfo: &[u8],
    masked_root: Option<&[u8]>,
) -> (directories: Result<DaemonSocketMounts, MountError>)
    ensures
        ({
            let expected = mount_check(
                path_parts(directory@),
                vstd::utf8::encode_utf8(device_spelling(device)),
                mount_id_bytes(opened_mount_id(optional_chars(fdinfo), reply)),
                mountinfo@,
                optional_path(masked_root),
            );
            match directories {
                Ok(directories) => expected == Ok::<Set<Seq<Seq<u8>>>, MountFailure>(directories@),
                Err(error) => expected == Err::<Set<Seq<Seq<u8>>>, MountFailure>(error@),
            }
        }),
{
    let spelling: String = device_text(device);
    match opened_mount(fdinfo, reply) {
        Some(id) => {
            let id_text: String = decimal_text(id);
            check_mounts(
                directory,
                spelling.as_str(),
                Some(id_text.as_str()),
                mountinfo,
                masked_root,
            )
        },
        None => check_mounts(directory, spelling.as_str(), None, mountinfo, masked_root),
    }
}

/// The mount ID is read from the first line of `fdinfo` that begins with
/// `mnt_id:`, but for whitespace around it; every ID that stands there is read.
pub proof fn mount_id_is_read_from_its_line(fdinfo: Seq<char>, k: int, id: u64)
    requires
        0 <= k < lines(fdinfo).len(),
        "mnt_id:"@.is_prefix_of(lines(fdinfo)[k]),
        forall|j: int| 0 <= j < k ==> !"mnt_id:"@.is_prefix_of(#[trigger] lines(fdinfo)[j]),
    ensures
        fdinfo_mount_id(fdinfo) == parsed_u64(trimmed(lines(fdinfo)[k].skip(7))),
        trimmed(lines(fdinfo)[k].skip(7)) == decimal(id as nat) ==> fdinfo_mount_id(fdinfo) == Some(
            id,
        ),
{
    reveal_strlit("mnt_id:");
    assert("mnt_id:"@.len() == 7);
    let all = lines(fdinfo);
    first_line_with_the_prefix_is_taken(all, "mnt_id:"@);
    let rest = first_after(all, "mnt_id:"@)->0;
    let found = choose|n: int|
        0 <= n < all.len() && #[trigger] all[n] == "mnt_id:"@ + rest && forall|j: int|
            0 <= j < n ==> !"mnt_id:"@.is_prefix_of(#[trigger] all[j]);
    assert("mnt_id:"@.is_prefix_of(all[found])) by {
        assert(all[found].subrange(0, 7) =~= "mnt_id:"@);
    }
    assert(found == k);
    assert(all[k].skip(7) =~= rest);
    unsigned_numerals_are_read(decimal(id as nat), id);
}

/// Without such a line there is no mount ID in `fdinfo`.
pub proof fn fdinfo_without_the_line_gives_no_mount_id(fdinfo: Seq<char>)
    requires
        forall|j: int|
            0 <= j < lines(fdinfo).len() ==> !"mnt_id:"@.is_prefix_of(#[trigger] lines(fdinfo)[j]),
    ensures
        fdinfo_mount_id(fdinfo) is None,
{
    first_line_with_the_prefix_is_taken(lines(fdinfo), "mnt_id:"@);
    if let Some(rest) = first_after(lines(fdinfo), "mnt_id:"@) {
        let all = lines(fdinfo);
        let k = choose|k: int|
            0 <= k < all.len() && #[trigger] all[k] == "mnt_id:"@ + rest && forall|j: int|
                0 <= j < k ==> !"mnt_id:"@.is_prefix_of(#[trigger] all[j]);
        assert(all[k].subrange(0, "mnt_id:"@.len() as int) =~= "mnt_id:"@);
    }
}

/// What `fdinfo` says of the mount goes before what `statx` replies; and a
/// reply counts exactly if the kernel filled the mount ID in.
pub proof fn fdinfo_goes_before_the_reply(fdinfo: Option<Seq<char>>, reply: Option<MountIdReply>)
    ensures
        ({
            let read = fdinfo is Some && fdinfo_mount_id(fdinfo->0) is Some;
            let filled = reply is Some && reply->0.mask & reply->0.mount_id_bit != 0;
            &&& read ==> opened_mount_id(fdinfo, reply) == fdinfo_mount_id(fdinfo->0)
            &&& !read && filled ==> opened_mount_id(fdinfo, reply) == Some(reply->0.mount_id)
            &&& !read && !filled ==> opened_mount_id(fdinfo, reply) is None
        }),
{
}

/// A device is spelled as its major and its minor number, with a colon between
/// them and nothing else; both can be read back.
pub proof fn device_is_spelled_by_its_numbers(device: u64)
    ensures
        device_spelling(device) == decimal(major_number(device) as nat) + seq![':'] + decimal(
            minor_number(device) as nat,
        ),
        parsed_u64(decimal(major_number(device) as nat)) == Some(major_number(device) as u64),
        parsed_u64(decimal(minor_number(device) as nat)) == Some(minor_number(device) as u64),
        forall|id: u64| #[trigger]
            mount_id_bytes(Some(id)) == Some(vstd::utf8::encode_utf8(decimal(id as nat))),
        mount_id_bytes(None) is None,
{
    reveal_strlit(":");
    assert(":"@ =~= seq![':']);
    unsigned_numerals_are_read(Seq::empty(), major_number(device) as u64);
    unsigned_numerals_are_read(Seq::empty(), minor_number(device) as u64);
}

} // verus!
