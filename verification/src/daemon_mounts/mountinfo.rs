//! The mount table that the kernel reports in `mountinfo`.
//!
//! Each line describes one mount by its ID, its parent's ID, the device it
//! shows, the directory of that device it shows, and where it is mounted.
//! Spaces, tabs, newlines and backslashes in paths are written as octal
//! escapes.
use vstd::prelude::*;
use vstd::utf8::decode_utf8;
use vstd::utf8::valid_utf8;

use super::path::contents;
use super::path::copy_bytes;
use super::path::is_absolute;
use super::path::path_parts;
use super::path::same_bytes;
use super::path::split;
use super::path::split_bytes;
use super::path::UnixPath;

verus! {

/// Why a mount table does not establish that the daemon directory is isolated.
#[derive(Debug)]
pub enum MountError {
    /// The table does not show where the daemon directory lives, or does not
    /// show it unambiguously.
    Isolation,
    /// A path holds an escape that the kernel does not write.
    InvalidEscape,
    /// A path that must be absolute is not.
    NotAbsolute,
    /// A mount exposes a part of the daemon directory, or is mounted in it.
    UnsupportedMount {
        /// Where it is mounted.
        destination: Vec<u8>,
    },
}

/// The mathematical content of a [`MountError`].
pub enum MountFailure {
    Isolation,
    InvalidEscape,
    NotAbsolute,
    UnsupportedMount(Seq<u8>),
}

impl View for MountError {
    type V = MountFailure;

    open spec fn view(&self) -> MountFailure {
        match self {
            MountError::Isolation => MountFailure::Isolation,
            MountError::InvalidEscape => MountFailure::InvalidEscape,
            MountError::NotAbsolute => MountFailure::NotAbsolute,
            MountError::UnsupportedMount { destination } => MountFailure::UnsupportedMount(
                destination@,
            ),
        }
    }
}

/// The broad category of a [`MountError`].
#[derive(Clone, Copy, Debug, PartialEq, Eq, Structural)]
pub enum MountErrorKind {
    /// The host's mounts have to change before a sandbox may start.
    PermissionDenied,
    /// The mount table could not be interpreted.
    Other,
}

/// The category that a failure falls under.
pub open spec fn failure_kind(failure: MountFailure) -> MountErrorKind {
    match failure {
        MountFailure::UnsupportedMount(_) => MountErrorKind::PermissionDenied,
        _ => MountErrorKind::Other,
    }
}

/// The text that a byte string spells, with replacement characters where it
/// is not valid UTF-8.
pub uninterp spec fn lossy_text(bytes: Seq<u8>) -> Seq<char>;

/// Calls `String::from_utf8_lossy`.  Trusted: the result is a function of the
/// bytes alone, and for bytes that are valid UTF-8 it is the text that they
/// encode.  Where the bytes are not valid, which of them share a replacement
/// character is left to the standard library's documentation.
#[verifier::external_body]
fn text_of_bytes(bytes: &Vec<u8>) -> (text: String)
    ensures
        text@ == lossy_text(bytes@),
        valid_utf8(bytes@) ==> text@ == decode_utf8(bytes@),
{
    String::from_utf8_lossy(bytes).into_owned()
}

/// The sentence that reports a mount which exposes only a part of the
/// directory.
pub open spec fn unsupported_text(destination: Seq<char>) -> Seq<char> {
    "app-server socket directory has an unsupported host mount at "@ + destination
        + "; remove the bind-mount alias or nested mount before starting the sandbox"@
}

/// The sentence that reports a failure.
pub open spec fn failure_message(failure: MountFailure) -> Seq<char> {
    match failure {
        MountFailure::Isolation => "cannot establish app-server socket mount isolation"@,
        MountFailure::InvalidEscape => "invalid mountinfo path escape"@,
        MountFailure::NotAbsolute => "mountinfo path is not absolute"@,
        MountFailure::UnsupportedMount(destination) => unsupported_text(lossy_text(destination)),
    }
}

impl MountError {
    /// The broad category of this error.
    pub fn kind(&self) -> (kind: MountErrorKind)
        ensures
            kind == failure_kind(self@),
    {
        match self {
            MountError::UnsupportedMount { .. } => MountErrorKind::PermissionDenied,
            MountError::Isolation => MountErrorKind::Other,
            MountError::InvalidEscape => MountErrorKind::Other,
            MountError::NotAbsolute => MountErrorKind::Other,
        }
    }

    /// The sentence that reports this error.
    pub fn message(&self) -> (message: String)
        ensures
            message@ == failure_message(self@),
            (match self@ {
                MountFailure::UnsupportedMount(destination) => valid_utf8(destination) ==> message@
                    == unsupported_text(decode_utf8(destination)),
                _ => true,
            }),
    {
        match self {
            MountError::Isolation => {
                "cannot establish app-server socket mount isolation".to_string()
            },
            MountError::InvalidEscape => "invalid mountinfo path escape".to_string(),
            MountError::NotAbsolute => "mountinfo path is not absolute".to_string(),
            MountError::UnsupportedMount { destination } => {
                let mut message: String =
                    "app-server socket directory has an unsupported host mount at ".to_string();
                message.append(text_of_bytes(destination).as_str());
                message.append(
                    "; remove the bind-mount alias or nested mount before starting the sandbox",
                );
                message
            },
        }
    }
}

/// The error that names a mount which exposes only a part of the directory.
pub fn unsupported_mount(destination: &Vec<u8>) -> (error: MountError)
    ensures
        error@ == MountFailure::UnsupportedMount(destination@),
{
    MountError::UnsupportedMount { destination: copy_bytes(destination.as_slice()) }
}

/// The byte that three octal digits after a backslash stand for.
pub open spec fn escape_byte(digits: Seq<u8>) -> Option<u8> {
    if digits == seq![48u8, 52u8, 48u8] {
        Some(32u8)
    } else if digits == seq![48u8, 49u8, 49u8] {
        Some(9u8)
    } else if digits == seq![48u8, 49u8, 50u8] {
        Some(10u8)
    } else if digits == seq![49u8, 51u8, 52u8] {
        Some(92u8)
    } else {
        None
    }
}

/// `byte` put in front of what follows, where that could be decoded.
pub open spec fn prepended(byte: u8, rest: Option<Seq<u8>>) -> Option<Seq<u8>> {
    match rest {
        Some(rest) => Some(seq![byte] + rest),
        None => None,
    }
}

/// The path that an escaped spelling stands for, if every escape is known.
pub open spec fn decoded(encoded: Seq<u8>) -> Option<Seq<u8>>
    decreases encoded.len(),
{
    if encoded.len() == 0 {
        Some(Seq::empty())
    } else if encoded[0] != 92u8 {
        prepended(encoded[0], decoded(encoded.skip(1)))
    } else if encoded.len() < 4 {
        None
    } else {
        match escape_byte(encoded.subrange(1, 4)) {
            Some(byte) => prepended(byte, decoded(encoded.skip(4))),
            None => None,
        }
    }
}

/// Decodes the octal escapes of a path.
fn decode(encoded: &[u8]) -> (path: Option<Vec<u8>>)
    ensures
        (match path {
            Some(path) => decoded(encoded@) == Some(path@),
            None => decoded(encoded@) is None,
        }),
{
    let mut out: Vec<u8> = Vec::new();
    let mut i: usize = 0;
    proof {
        assert(encoded@.skip(0) =~= encoded@);
        if let Some(rest) = decoded(encoded@) {
            assert(out@ + rest =~= rest);
        }
    }
    while i < encoded.len()
        invariant
            i <= encoded.len(),
            decoded(encoded@) is Some <==> decoded(encoded@.skip(i as int)) is Some,
            decoded(encoded@) is Some ==> decoded(encoded@)->0 == out@ + decoded(
                encoded@.skip(i as int),
            )->0,
        decreases encoded.len() - i,
    {
        let ghost left = encoded@.skip(i as int);
        let ghost earlier = out@;
        let first: u8 = encoded[i];
        proof {
            assert(left[0] == first);
            assert(left.skip(1) =~= encoded@.skip(i + 1));
        }
        if first != 92 {
            out.push(first);
            i += 1;
            proof {
                if let Some(rest) = decoded(encoded@.skip(i as int)) {
                    assert(earlier + (seq![first] + rest) =~= out@ + rest);
                }
            }
        } else {
            if encoded.len() - i < 4 {
                return None;
            }
            let a: u8 = encoded[i + 1];
            let b: u8 = encoded[i + 2];
            let c: u8 = encoded[i + 3];
            proof {
                assert(left.skip(4) =~= encoded@.skip(i + 4));
                let digits = left.subrange(1, 4);
                assert(digits =~= seq![a, b, c]);
                assert(digits[0] == a && digits[1] == b && digits[2] == c);
            }
            let byte: u8 = if a == 48 && b == 52 && c == 48 {
                32
            } else if a == 48 && b == 49 && c == 49 {
                9
            } else if a == 48 && b == 49 && c == 50 {
                10
            } else if a == 49 && b == 51 && c == 52 {
                92
            } else {
                proof {
                    assert(seq![48u8, 52u8, 48u8][1] == 52u8);
                    assert(seq![48u8, 49u8, 49u8][2] == 49u8);
                    assert(seq![48u8, 49u8, 50u8][2] == 50u8);
                    assert(seq![49u8, 51u8, 52u8][0] == 49u8);
                }
                return None;
            };
            out.push(byte);
            i += 4;
            proof {
                assert(escape_byte(left.subrange(1, 4)) == Some(byte));
                if let Some(rest) = decoded(encoded@.skip(i as int)) {
                    assert(earlier + (seq![byte] + rest) =~= out@ + rest);
                }
            }
        }
    }
    proof {
        assert(encoded@.skip(i as int) =~= Seq::<u8>::empty());
        assert(out@ + Seq::<u8>::empty() =~= out@);
    }
    Some(out)
}

/// What an escaped spelling in the mount table stands for.
pub open spec fn table_path(encoded: Seq<u8>, must_be_absolute: bool) -> Result<
    Seq<u8>,
    MountFailure,
> {
    match decoded(encoded) {
        None => Err(MountFailure::InvalidEscape),
        Some(bytes) => if must_be_absolute && !is_absolute(path_parts(bytes)) {
            Err(MountFailure::NotAbsolute)
        } else {
            Ok(bytes)
        },
    }
}

/// Decodes a path of the mount table, and checks that it is absolute where it
/// has to be.
pub fn mount_path(encoded: &[u8], must_be_absolute: bool) -> (path: Result<
    (UnixPath, Vec<u8>),
    MountError,
>)
    ensures
        (match path {
            Ok((parts, bytes)) => table_path(encoded@, must_be_absolute) == Ok::<
                Seq<u8>,
                MountFailure,
            >(bytes@) && parts@ == path_parts(bytes@),
            Err(error) => table_path(encoded@, must_be_absolute) == Err::<Seq<u8>, MountFailure>(
                error@,
            ),
        }),
{
    match decode(encoded) {
        None => Err(MountError::InvalidEscape),
        Some(bytes) => {
            let parts: UnixPath = UnixPath::from_bytes(bytes.as_slice());
            if must_be_absolute && !parts.is_absolute() {
                Err(MountError::NotAbsolute)
            } else {
                Ok((parts, bytes))
            }
        },
    }
}

/// One mount.
#[derive(Debug)]
pub struct Mount {
    pub id: Vec<u8>,
    pub parent: Vec<u8>,
    pub device: Vec<u8>,
    /// The directory of the device that the mount shows.
    pub root: UnixPath,
    /// Where the mount is.
    pub destination: UnixPath,
    /// Where the mount is, as the table spells it.
    pub destination_bytes: Vec<u8>,
}

/// The mathematical content of a [`Mount`].
pub struct MountView {
    pub id: Seq<u8>,
    pub parent: Seq<u8>,
    pub device: Seq<u8>,
    pub root: Seq<Seq<u8>>,
    pub destination: Seq<Seq<u8>>,
    pub destination_bytes: Seq<u8>,
}

impl View for Mount {
    type V = MountView;

    open spec fn view(&self) -> MountView {
        MountView {
            id: self.id@,
            parent: self.parent@,
            device: self.device@,
            root: self.root@,
            destination: self.destination@,
            destination_bytes: self.destination_bytes@,
        }
    }
}

/// The content of a mount table.
pub open spec fn table(mounts: Seq<Mount>) -> Seq<MountView> {
    mounts.map_values(|mount: Mount| mount@)
}

/// The mount that one line describes.
///
/// The root of a mount need not be a path unless the mount shows `device`:
/// the kernel names namespaces, which live on devices of their own, by a
/// label.
pub open spec fn line_mount(line: Seq<u8>, device: Seq<u8>) -> Result<MountView, MountFailure> {
    let fields = split(line, 32u8);
    if fields.len() < 5 {
        Err(MountFailure::Isolation)
    } else {
        match table_path(fields[3], fields[2] == device) {
            Err(failure) => Err(failure),
            Ok(root) => match table_path(fields[4], true) {
                Err(failure) => Err(failure),
                Ok(destination) => Ok(
                    MountView {
                        id: fields[0],
                        parent: fields[1],
                        device: fields[2],
                        root: path_parts(root),
                        destination: path_parts(destination),
                        destination_bytes: destination,
                    },
                ),
            },
        }
    }
}

/// The mounts that lines describe, in order, or the first failure.  Empty
/// lines describe nothing.
pub open spec fn lines_mounts(lines: Seq<Seq<u8>>, device: Seq<u8>) -> Result<
    Seq<MountView>,
    MountFailure,
>
    decreases lines.len(),
{
    if lines.len() == 0 {
        Ok(Seq::empty())
    } else {
        match lines_mounts(lines.drop_last(), device) {
            Err(failure) => Err(failure),
            Ok(mounts) => if lines.last().len() == 0 {
                Ok(mounts)
            } else {
                match line_mount(lines.last(), device) {
                    Err(failure) => Err(failure),
                    Ok(mount) => Ok(mounts.push(mount)),
                }
            },
        }
    }
}

/// The mounts that a mount table describes.
pub open spec fn table_mounts(mountinfo: Seq<u8>, device: Seq<u8>) -> Result<
    Seq<MountView>,
    MountFailure,
> {
    lines_mounts(split(mountinfo, 10u8), device)
}

/// Reads one line of the mount table.
fn parse_line(line: &Vec<u8>, device: &[u8]) -> (mount: Result<Mount, MountError>)
    ensures
        (match mount {
            Ok(mount) => line_mount(line@, device@) == Ok::<MountView, MountFailure>(mount@),
            Err(error) => line_mount(line@, device@) == Err::<MountView, MountFailure>(error@),
        }),
{
    let fields: Vec<Vec<u8>> = split_bytes(line.as_slice(), 32);
    if fields.len() < 5 {
        return Err(MountError::Isolation);
    }
    proof {
        let spelled = contents(fields@);
        assert(spelled[0] == fields@[0]@);
        assert(spelled[1] == fields@[1]@);
        assert(spelled[2] == fields@[2]@);
        assert(spelled[3] == fields@[3]@);
        assert(spelled[4] == fields@[4]@);
    }
    let on_device: bool = same_bytes(fields[2].as_slice(), device);
    match mount_path(fields[3].as_slice(), on_device) {
        Err(error) => Err(error),
        Ok((root, _)) => match mount_path(fields[4].as_slice(), true) {
            Err(error) => Err(error),
            Ok((destination, destination_bytes)) => Ok(
                Mount {
                    id: copy_bytes(fields[0].as_slice()),
                    parent: copy_bytes(fields[1].as_slice()),
                    device: copy_bytes(fields[2].as_slice()),
                    root,
                    destination,
                    destination_bytes,
                },
            ),
        },
    }
}

/// Once a line fails, so does every table that begins with the lines so far.
proof fn failure_persists(lines: Seq<Seq<u8>>, device: Seq<u8>, n: int)
    requires
        0 <= n <= lines.len(),
        lines_mounts(lines.take(n), device) is Err,
    ensures
        lines_mounts(lines, device) == lines_mounts(lines.take(n), device),
    decreases lines.len(),
{
    if n < lines.len() {
        assert(lines.drop_last().take(n) =~= lines.take(n));
        failure_persists(lines.drop_last(), device, n);
    } else {
        assert(lines.take(n) =~= lines);
    }
}

/// Reads the mount table.
pub fn parse_mounts(mountinfo: &[u8], device: &[u8]) -> (mounts: Result<Vec<Mount>, MountError>)
    ensures
        (match mounts {
            Ok(mounts) => table_mounts(mountinfo@, device@) == Ok::<Seq<MountView>, MountFailure>(
                table(mounts@),
            ),
            Err(error) => table_mounts(mountinfo@, device@) == Err::<Seq<MountView>, MountFailure>(
                error@,
            ),
        }),
{
    let lines: Vec<Vec<u8>> = split_bytes(mountinfo, 10);
    let ghost spelled = contents(lines@);
    let mut mounts: Vec<Mount> = Vec::new();
    let mut i: usize = 0;
    proof {
        assert(spelled.take(0) =~= Seq::<Seq<u8>>::empty());
        assert(table(mounts@) =~= Seq::<MountView>::empty());
    }
    while i < lines.len()
        invariant
            i <= lines.len(),
            spelled == contents(lines@),
            spelled == split(mountinfo@, 10u8),
            lines_mounts(spelled.take(i as int), device@) == Ok::<Seq<MountView>, MountFailure>(
                table(mounts@),
            ),
        decreases lines.len() - i,
    {
        proof {
            assert(spelled.take(i + 1).drop_last() =~= spelled.take(i as int));
            assert(spelled.take(i + 1).last() == lines@[i as int]@);
        }
        if lines[i].len() > 0 {
            match parse_line(&lines[i], device) {
                Err(error) => {
                    proof {
                        failure_persists(spelled, device@, i + 1);
                    }
                    return Err(error);
                },
                Ok(mount) => {
                    let ghost earlier = mounts@;
                    let ghost added = mount@;
                    mounts.push(mount);
                    proof {
                        assert(table(mounts@) =~= table(earlier).push(added));
                    }
                },
            }
        }
        i += 1;
    }
    proof {
        assert(spelled.take(spelled.len() as int) =~= spelled);
    }
    Ok(mounts)
}

/// The host's mounts have to change exactly if a mount is named; every other
/// failure lies in the table.  What is reported of a named mount is its
/// destination, between what is wrong and what to do about it.
pub proof fn named_mounts_have_to_change(failure: MountFailure, destination: Seq<char>)
    ensures
        failure_kind(failure) == MountErrorKind::PermissionDenied <==> failure is UnsupportedMount,
        failure_kind(failure) == MountErrorKind::Other <==> !(failure is UnsupportedMount),
        failure matches MountFailure::UnsupportedMount(bytes) ==> failure_message(failure)
            == unsupported_text(lossy_text(bytes)),
        failure is Isolation ==> failure_message(failure)
            == "cannot establish app-server socket mount isolation"@,
        failure is InvalidEscape ==> failure_message(failure) == "invalid mountinfo path escape"@,
        failure is NotAbsolute ==> failure_message(failure) == "mountinfo path is not absolute"@,
        unsupported_text(destination)
            == "app-server socket directory has an unsupported host mount at "@ + destination
            + "; remove the bind-mount alias or nested mount before starting the sandbox"@,
{
}

/// What is known of a mount, and of an error, is what its fields hold.
pub proof fn content_of_a_mount_is_its_fields(mount: Mount, error: MountError)
    ensures
        mount@.id == mount.id@,
        mount@.parent == mount.parent@,
        mount@.device == mount.device@,
        mount@.root == mount.root@,
        mount@.destination == mount.destination@,
        mount@.destination_bytes == mount.destination_bytes@,
        error@ is Isolation <==> error is Isolation,
        error@ is InvalidEscape <==> error is InvalidEscape,
        error@ is NotAbsolute <==> error is NotAbsolute,
        error matches MountError::UnsupportedMount { destination } ==> error@
            == MountFailure::UnsupportedMount(destination@),
{
}

} // verus!
