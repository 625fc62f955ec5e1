//! What the bytes of a mount table say, piece by piece and line by line.
use vstd::prelude::*;

use super::mountinfo::decoded;
use super::mountinfo::line_mount;
use super::mountinfo::lines_mounts;
use super::mountinfo::table_mounts;
use super::mountinfo::MountFailure;
use super::mountinfo::MountView;
use super::path::bytes_before;
use super::path::is_absolute;
use super::path::kept_pieces;
use super::path::path_before;
use super::path::path_parts;
use super::path::rendered;
use super::path::split;
use super::path::split_pieces_are_free;
use super::path::valid_parts;

verus! {

/// Pieces in order, with a separator between each two.
pub open spec fn joined(pieces: Seq<Seq<u8>>, separator: u8) -> Seq<u8>
    decreases pieces.len(),
{
    if pieces.len() == 0 {
        Seq::empty()
    } else if pieces.len() == 1 {
        pieces[0]
    } else {
        joined(pieces.drop_last(), separator) + seq![separator] + pieces.last()
    }
}

proof fn joined_of_push(pieces: Seq<Seq<u8>>, piece: Seq<u8>, separator: u8)
    requires
        pieces.len() > 0,
    ensures
        joined(pieces.push(piece), separator) == joined(pieces, separator) + seq![separator]
            + piece,
{
    assert(pieces.push(piece).drop_last() =~= pieces);
}

proof fn joined_of_longer_last(pieces: Seq<Seq<u8>>, byte: u8, separator: u8)
    requires
        pieces.len() > 0,
    ensures
        joined(pieces.drop_last().push(pieces.last().push(byte)), separator) == joined(
            pieces,
            separator,
        ).push(byte),
{
    let longer = pieces.drop_last().push(pieces.last().push(byte));
    assert(longer.drop_last() =~= pieces.drop_last());
    assert(joined(longer, separator) =~= joined(pieces, separator).push(byte));
}

/// The pieces of a split, with the separator put back between them, are the
/// whole; and no piece holds the separator.
pub proof fn split_pieces_join_back(s: Seq<u8>, separator: u8)
    ensures
        split(s, separator).len() > 0,
        joined(split(s, separator), separator) == s,
        forall|i: int, j: int|
            0 <= i < split(s, separator).len() && 0 <= j < split(s, separator)[i].len()
                ==> #[trigger] split(s, separator)[i][j] != separator,
    decreases s.len(),
{
    split_pieces_are_free(s, separator);
    let pieces = split(s, separator);
    assert forall|i: int, j: int|
        0 <= i < pieces.len() && 0 <= j < pieces[i].len() implies #[trigger] pieces[i][j]
        != separator by {
        assert(!pieces[i].contains(separator));
        assert(pieces[i].contains(pieces[i][j]));
    }
    if s.len() == 0 {
        assert(joined(pieces, separator) =~= s);
    } else {
        split_pieces_join_back(s.drop_last(), separator);
        let before = split(s.drop_last(), separator);
        if s.last() == separator {
            joined_of_push(before, Seq::empty(), separator);
            assert(joined(pieces, separator) =~= s);
        } else {
            joined_of_longer_last(before, s.last(), separator);
            assert(joined(pieces, separator) =~= s);
        }
    }
}

/// Pieces free of the separator are what the whole that they make is split
/// into.
pub proof fn joined_pieces_split_back(pieces: Seq<Seq<u8>>, separator: u8)
    requires
        pieces.len() > 0,
        forall|i: int, j: int|
            0 <= i < pieces.len() && 0 <= j < pieces[i].len() ==> #[trigger] pieces[i][j]
                != separator,
    ensures
        split(joined(pieces, separator), separator) == pieces,
    decreases pieces.len(), pieces.last().len(),
{
    let last = pieces.last();
    assert(last == pieces[pieces.len() - 1]);
    if last.len() > 0 {
        let shorter = pieces.drop_last().push(last.drop_last());
        assert forall|i: int, j: int|
            0 <= i < shorter.len() && 0 <= j < shorter[i].len() implies #[trigger] shorter[i][j]
            != separator by {
            assert(shorter[i][j] == pieces[i][j]);
        }
        joined_pieces_split_back(shorter, separator);
        joined_of_longer_last(shorter, last.last(), separator);
        assert(shorter.drop_last().push(shorter.last().push(last.last())) =~= pieces) by {
            assert(shorter.last().push(last.last()) =~= last);
        }
        let whole = joined(pieces, separator);
        assert(whole.drop_last() =~= joined(shorter, separator));
        assert(whole.last() == last.last());
        assert(last.last() == pieces[pieces.len() - 1][last.len() - 1]);
        assert(split(whole, separator) =~= pieces);
    } else if pieces.len() == 1 {
        assert(joined(pieces, separator) =~= Seq::<u8>::empty());
        assert(pieces =~= seq![Seq::<u8>::empty()]);
    } else {
        let front = pieces.drop_last();
        assert forall|i: int, j: int|
            0 <= i < front.len() && 0 <= j < front[i].len() implies #[trigger] front[i][j]
            != separator by {
            assert(front[i][j] == pieces[i][j]);
        }
        joined_pieces_split_back(front, separator);
        let whole = joined(pieces, separator);
        assert(whole =~= joined(front, separator).push(separator));
        assert(whole.drop_last() =~= joined(front, separator));
        assert(last =~= Seq::<u8>::empty());
        assert(pieces =~= front.push(last));
    }
}

/// A byte that begins no escape is decoded as itself.
pub proof fn plain_byte_is_decoded_as_itself(byte: u8, rest: Seq<u8>)
    requires
        byte != 92u8,
    ensures
        match decoded(rest) {
            Some(path) => decoded(seq![byte] + rest) == Some(seq![byte] + path),
            None => decoded(seq![byte] + rest) is None,
        },
{
    assert((seq![byte] + rest).skip(1) =~= rest);
}

/// A backslash with three octal digits stands for the byte of that value if
/// it is a tab, a newline, a space or a backslash.  Any other backslash cannot
/// be decoded.
pub proof fn escape_is_decoded_as_its_octal_value(a: u8, b: u8, c: u8, rest: Seq<u8>)
    ensures
        ({
            let encoded = seq![92u8, a, b, c] + rest;
            let value = (a - 48) * 64 + (b - 48) * 8 + (c - 48);
            if 48 <= a <= 55 && 48 <= b <= 55 && 48 <= c <= 55 && (value == 9 || value == 10
                || value == 32 || value == 92) {
                match decoded(rest) {
                    Some(path) => decoded(encoded) == Some(seq![value as u8] + path),
                    None => decoded(encoded) is None,
                }
            } else {
                decoded(encoded) is None
            }
        }),
        forall|cut: Seq<u8>|
            #![trigger decoded(cut)]
            1 <= cut.len() < 4 && cut[0] == 92u8 ==> decoded(cut) is None,
{
    let encoded = seq![92u8, a, b, c] + rest;
    assert(encoded.skip(4) =~= rest);
    assert(encoded.subrange(1, 4) =~= seq![a, b, c]);
    let digits = seq![a, b, c];
    assert(digits[0] == a && digits[1] == b && digits[2] == c);
    assert(seq![48u8, 52u8, 48u8][0] == 48u8 && seq![48u8, 52u8, 48u8][1] == 52u8
        && seq![48u8, 52u8, 48u8][2] == 48u8);
    assert(seq![48u8, 49u8, 49u8][0] == 48u8 && seq![48u8, 49u8, 49u8][1] == 49u8
        && seq![48u8, 49u8, 49u8][2] == 49u8);
    assert(seq![48u8, 49u8, 50u8][0] == 48u8 && seq![48u8, 49u8, 50u8][1] == 49u8
        && seq![48u8, 49u8, 50u8][2] == 50u8);
    assert(seq![49u8, 51u8, 52u8][0] == 49u8 && seq![49u8, 51u8, 52u8][1] == 51u8
        && seq![49u8, 51u8, 52u8][2] == 52u8);
    if a == 48 && b == 52 && c == 48 {
        assert(digits =~= seq![48u8, 52u8, 48u8]);
    }
    if a == 48 && b == 49 && c == 49 {
        assert(digits =~= seq![48u8, 49u8, 49u8]);
    }
    if a == 48 && b == 49 && c == 50 {
        assert(digits =~= seq![48u8, 49u8, 50u8]);
    }
    if a == 49 && b == 51 && c == 52 {
        assert(digits =~= seq![49u8, 51u8, 52u8]);
    }
}

/// How the kernel spells a path: tabs, newlines, spaces and backslashes as a
/// backslash and the three octal digits of the byte.
pub open spec fn kernel_spelling(path: Seq<u8>) -> Seq<u8>
    decreases path.len(),
{
    if path.len() == 0 {
        Seq::empty()
    } else {
        let byte = path[0];
        let rest = kernel_spelling(path.skip(1));
        if byte == 9 || byte == 10 || byte == 32 || byte == 92 {
            seq![
                92u8,
                (48 + byte / 64) as u8,
                (48 + byte / 8 % 8) as u8,
                (48 + byte % 8) as u8,
            ] + rest
        } else {
            seq![byte] + rest
        }
    }
}

/// Every path is read back from the kernel's spelling of it, and that spelling
/// holds no byte that ends a field or a line.
pub proof fn kernel_spelling_is_read_back(path: Seq<u8>)
    ensures
        decoded(kernel_spelling(path)) == Some(path),
        !kernel_spelling(path).contains(32u8),
        !kernel_spelling(path).contains(10u8),
    decreases path.len(),
{
    if path.len() == 0 {
        assert(decoded(kernel_spelling(path)) == Some(Seq::<u8>::empty()));
        assert(path =~= Seq::<u8>::empty());
    } else {
        let byte = path[0];
        let rest = kernel_spelling(path.skip(1));
        kernel_spelling_is_read_back(path.skip(1));
        assert(seq![byte] + path.skip(1) =~= path);
        let spelling = kernel_spelling(path);
        if byte == 9 || byte == 10 || byte == 32 || byte == 92 {
            let a = (48 + byte / 64) as u8;
            let b = (48 + byte / 8 % 8) as u8;
            let c = (48 + byte % 8) as u8;
            let escape = seq![92u8, a, b, c];
            escape_is_decoded_as_its_octal_value(a, b, c, rest);
            assert forall|i: int| 0 <= i < spelling.len() implies #[trigger] spelling[i] != 32u8
                && spelling[i] != 10u8 by {
                if i < 4 {
                    assert(spelling[i] == escape[i]);
                } else {
                    assert(spelling[i] == rest[i - 4]);
                    assert(rest.contains(rest[i - 4]));
                }
            }
        } else {
            plain_byte_is_decoded_as_itself(byte, rest);
            assert forall|i: int| 0 <= i < spelling.len() implies #[trigger] spelling[i] != 32u8
                && spelling[i] != 10u8 by {
                if i > 0 {
                    assert(spelling[i] == rest[i - 1]);
                    assert(rest.contains(rest[i - 1]));
                }
            }
        }
    }
}

/// The pieces that are components wherever they stand.
pub open spec fn named_pieces(pieces: Seq<Seq<u8>>) -> Seq<Seq<u8>> {
    pieces.filter(|piece: Seq<u8>| !(piece =~= seq![] || piece =~= seq![46u8]))
}

proof fn kept_pieces_are_named(pieces: Seq<Seq<u8>>)
    ensures
        kept_pieces(pieces) == named_pieces(pieces),
    decreases pieces.len(),
{
    reveal(Seq::filter);
    if pieces.len() > 0 {
        kept_pieces_are_named(pieces.drop_last());
    } else {
        assert(kept_pieces(pieces) =~= named_pieces(pieces));
    }
}

/// Whether a path spelled so begins at the root directory.
pub open spec fn begins_at_root(bytes: Seq<u8>) -> bool {
    bytes.len() > 0 && bytes[0] == 47u8
}

/// The components of a path are its pieces between slashes, but for empty ones
/// and single dots.  A leading slash, and a leading single dot, is a component
/// too.
pub proof fn components_are_the_named_pieces(bytes: Seq<u8>)
    ensures
        ({
            let named = named_pieces(split(bytes, 47u8));
            if begins_at_root(bytes) {
                path_parts(bytes) == seq![seq![47u8]] + named
            } else if bytes.len() > 0 && bytes[0] == 46u8 && (bytes.len() == 1 || bytes[1]
                == 47u8) {
                path_parts(bytes) == seq![seq![46u8]] + named
            } else {
                path_parts(bytes) == named
            }
        }),
        is_absolute(path_parts(bytes)) <==> begins_at_root(bytes),
{
    let pieces = split(bytes, 47u8);
    kept_pieces_are_named(pieces);
    split_pieces_join_back(bytes, 47u8);
    first_piece_begins(pieces, 47u8);
    let first = pieces[0];
    if !begins_at_root(bytes) {
        if first == seq![46u8] {
            assert(first[0] == 46u8 && first.len() == 1);
        }
        if bytes.len() > 0 && bytes[0] == 46u8 && (bytes.len() == 1 || bytes[1] == 47u8) {
            if first.len() == 0 {
                assert(bytes.len() == 0 || bytes[0] == 47u8);
            }
            assert(first[0] == 46u8);
            if first.len() > 1 {
                assert(bytes[1] == first[1]);
                assert(split(bytes, 47u8)[0][1] != 47u8);
            }
            assert(first =~= seq![46u8]);
        } else {
            assert(first != seq![46u8]);
            assert(path_parts(bytes) =~= named_pieces(pieces));
        }
        if is_absolute(path_parts(bytes)) {
            super::path::path_parts_are_valid(bytes);
            let part = path_parts(bytes)[0];
            assert(part[0] == 47u8);
            if first == seq![46u8] {
                assert(part == seq![46u8]);
                assert(part[0] == 46u8);
            } else {
                named_pieces_are_pieces(pieces);
                let k = choose|k: int| 0 <= k < pieces.len() && pieces[k] == part;
                assert(split(bytes, 47u8)[k][0] != 47u8);
            }
        }
    }
}

proof fn named_pieces_are_pieces(pieces: Seq<Seq<u8>>)
    ensures
        forall|i: int|
            0 <= i < named_pieces(pieces).len() ==> pieces.contains(
                #[trigger] named_pieces(pieces)[i],
            ),
{
    let named = named_pieces(pieces);
    assert forall|i: int| 0 <= i < named.len() implies pieces.contains(#[trigger] named[i]) by {
        assert(named.contains(named[i]));
        pieces.lemma_filter_contains_rev(
            |piece: Seq<u8>| !(piece =~= seq![] || piece =~= seq![46u8]),
            named[i],
        );
    }
}

/// What pieces make begins with the first of them, up to the separator.
proof fn first_piece_begins(pieces: Seq<Seq<u8>>, separator: u8)
    requires
        pieces.len() > 0,
    ensures
        pieces[0].is_prefix_of(joined(pieces, separator)),
        pieces.len() == 1 ==> joined(pieces, separator) == pieces[0],
        pieces.len() > 1 ==> joined(pieces, separator).len() > pieces[0].len() && joined(
            pieces,
            separator,
        )[pieces[0].len() as int] == separator,
    decreases pieces.len(),
{
    if pieces.len() > 1 {
        first_piece_begins(pieces.drop_last(), separator);
        let front = joined(pieces.drop_last(), separator);
        let whole = joined(pieces, separator);
        assert(pieces.drop_last()[0] == pieces[0]);
        assert(whole.take(front.len() as int) =~= front);
        assert forall|i: int| 0 <= i < pieces[0].len() implies #[trigger] whole[i]
            == pieces[0][i] by {
            assert(front[i] == pieces[0][i]);
        }
        assert(whole.subrange(0, pieces[0].len() as int) =~= pieces[0]);
    } else {
        assert(pieces[0].subrange(0, pieces[0].len() as int) =~= pieces[0]);
    }
}

/// Those of `lines` that are not empty, in order.
pub open spec fn filled(lines: Seq<Seq<u8>>) -> Seq<Seq<u8>> {
    lines.filter(|line: Seq<u8>| line.len() > 0)
}

/// The lines of a table that are not empty, in order.
pub open spec fn filled_lines(mountinfo: Seq<u8>) -> Seq<Seq<u8>> {
    filled(split(mountinfo, 10u8))
}

/// Whether a line has five fields at least, of which the fourth and the fifth
/// can be decoded, the fifth to an absolute path; the fourth too where the
/// third names the device.
pub open spec fn is_sound_line(line: Seq<u8>, device: Seq<u8>) -> bool {
    let fields = split(line, 32u8);
    &&& fields.len() >= 5
    &&& decoded(fields[3]) is Some
    &&& decoded(fields[4]) is Some
    &&& begins_at_root(decoded(fields[4])->0)
    &&& fields[2] == device ==> begins_at_root(decoded(fields[3])->0)
}

/// Whether the first five fields of a line say what is known of a mount.
pub open spec fn line_tells(line: Seq<u8>, mount: MountView) -> bool {
    let fields = split(line, 32u8);
    &&& fields.len() >= 5
    &&& mount.id == fields[0]
    &&& mount.parent == fields[1]
    &&& mount.device == fields[2]
    &&& decoded(fields[3]) is Some
    &&& mount.root == path_parts(decoded(fields[3])->0)
    &&& decoded(fields[4]) == Some(mount.destination_bytes)
    &&& mount.destination == path_parts(mount.destination_bytes)
}

/// Whether a failure is owed for a line: too few fields, else an escape that
/// cannot be decoded or a path that is not absolute, the fourth field before
/// the fifth.
pub open spec fn line_fails(line: Seq<u8>, device: Seq<u8>, failure: MountFailure) -> bool {
    let fields = split(line, 32u8);
    if fields.len() < 5 {
        failure is Isolation
    } else if decoded(fields[3]) is None {
        failure is InvalidEscape
    } else if fields[2] == device && !begins_at_root(decoded(fields[3])->0) {
        failure is NotAbsolute
    } else if decoded(fields[4]) is None {
        failure is InvalidEscape
    } else {
        failure is NotAbsolute && !begins_at_root(decoded(fields[4])->0)
    }
}

proof fn line_is_read(line: Seq<u8>, device: Seq<u8>)
    ensures
        match line_mount(line, device) {
            Ok(mount) => is_sound_line(line, device) && line_tells(line, mount),
            Err(failure) => !is_sound_line(line, device) && line_fails(line, device, failure),
        },
{
    let fields = split(line, 32u8);
    if fields.len() >= 5 {
        if let Some(root) = decoded(fields[3]) {
            components_are_the_named_pieces(root);
        }
        if let Some(destination) = decoded(fields[4]) {
            components_are_the_named_pieces(destination);
        }
    }
}

/// Whether the table fails at the filled line `k`, the first that is not sound.
pub open spec fn fails_at(
    written: Seq<Seq<u8>>,
    device: Seq<u8>,
    failure: MountFailure,
    k: int,
) -> bool {
    &&& 0 <= k < written.len()
    &&& !is_sound_line(written[k], device)
    &&& line_fails(written[k], device, failure)
    &&& forall|j: int| 0 <= j < k ==> is_sound_line(#[trigger] written[j], device)
}

proof fn lines_are_read(lines: Seq<Seq<u8>>, device: Seq<u8>)
    ensures
        ({
            let written = filled(lines);
            match lines_mounts(lines, device) {
                Ok(mounts) => {
                    &&& mounts.len() == written.len()
                    &&& forall|k: int|
                        0 <= k < written.len() ==> is_sound_line(#[trigger] written[k], device)
                            && line_tells(written[k], mounts[k])
                },
                Err(failure) => exists|k: int| fails_at(written, device, failure, k),
            }
        }),
    decreases lines.len(),
{
    reveal(Seq::filter);
    let written = filled(lines);
    if lines.len() > 0 {
        let earlier = filled(lines.drop_last());
        lines_are_read(lines.drop_last(), device);
        line_is_read(lines.last(), device);
        if lines.last().len() > 0 {
            assert(written =~= earlier.push(lines.last()));
        } else {
            assert(written =~= earlier);
        }
        match lines_mounts(lines.drop_last(), device) {
            Err(failure) => {
                let k = choose|k: int| fails_at(earlier, device, failure, k);
                assert forall|j: int| 0 <= j < k implies is_sound_line(
                    #[trigger] written[j],
                    device,
                ) by {
                    assert(earlier[j] == written[j]);
                }
                assert(fails_at(written, device, failure, k));
            },
            Ok(before) => {
                assert forall|k: int| 0 <= k < earlier.len() implies is_sound_line(
                    #[trigger] written[k],
                    device,
                ) && line_tells(written[k], before[k]) by {
                    assert(earlier[k] == written[k]);
                }
                if lines.last().len() > 0 {
                    if let Err(failure) = line_mount(lines.last(), device) {
                        assert(fails_at(written, device, failure, earlier.len() as int));
                    }
                }
            },
        }
    }
}

/// A table that is read has one mount for each line that is not empty, in the
/// order of the lines, however many there are: what the fields of the line
/// say.  It is read exactly if every such line is sound; else the first that
/// is not gives the failure.
pub proof fn table_has_a_mount_for_every_line(mountinfo: Seq<u8>, device: Seq<u8>)
    ensures
        match table_mounts(mountinfo, device) {
            Ok(mounts) => {
                &&& mounts.len() == filled_lines(mountinfo).len()
                &&& forall|k: int|
                    0 <= k < mounts.len() ==> is_sound_line(
                        #[trigger] filled_lines(mountinfo)[k],
                        device,
                    ) && line_tells(filled_lines(mountinfo)[k], mounts[k])
            },
            Err(failure) => exists|k: int| fails_at(filled_lines(mountinfo), device, failure, k),
        },
        table_mounts(mountinfo, device) is Ok <==> forall|k: int|
            0 <= k < filled_lines(mountinfo).len() ==> is_sound_line(
                #[trigger] filled_lines(mountinfo)[k],
                device,
            ),
{
    let lines = split(mountinfo, 10u8);
    lines_are_read(lines, device);
    let written = filled_lines(mountinfo);
    assert(written == filled(lines));
    match table_mounts(mountinfo, device) {
        Ok(mounts) => {
            assert forall|k: int| 0 <= k < mounts.len() implies is_sound_line(
                #[trigger] written[k],
                device,
            ) && line_tells(written[k], mounts[k]) by {
                assert(is_sound_line(filled(lines)[k], device));
            }
        },
        Err(failure) => {
            let k = choose|k: int| fails_at(filled(lines), device, failure, k);
            assert(fails_at(written, device, failure, k));
            assert(!is_sound_line(written[k], device));
        },
    }
}

/// Every line of a table that holds anything is among the filled ones, which
/// stand in the table.
pub proof fn filled_lines_are_the_lines(mountinfo: Seq<u8>, line: Seq<u8>)
    ensures
        filled_lines(mountinfo).contains(line) <==> line.len() > 0 && split(
            mountinfo,
            10u8,
        ).contains(line),
{
    let lines = split(mountinfo, 10u8);
    let pred = |line: Seq<u8>| line.len() > 0;
    if filled_lines(mountinfo).contains(line) {
        lines.lemma_filter_contains_rev(pred, line);
        let k = choose|k: int|
            0 <= k < filled_lines(mountinfo).len() && filled_lines(mountinfo)[k] == line;
        lines.lemma_filter_pred(pred, k);
    }
    if line.len() > 0 && lines.contains(line) {
        let k = choose|k: int| 0 <= k < lines.len() && lines[k] == line;
        lines.lemma_filter_contains(pred, k);
    }
}

/// A line that spells a mount as the kernel does, anywhere in a table that is
/// read, gives that mount.
pub proof fn spelled_mount_is_read(
    mountinfo: Seq<u8>,
    device: Seq<u8>,
    line: Seq<u8>,
    fields: Seq<Seq<u8>>,
    root: Seq<u8>,
    destination: Seq<u8>,
)
    requires
        table_mounts(mountinfo, device) is Ok,
        split(mountinfo, 10u8).contains(line),
        fields.len() >= 5,
        line == joined(fields, 32u8),
        forall|i: int, j: int|
            0 <= i < fields.len() && 0 <= j < fields[i].len() ==> #[trigger] fields[i][j] != 32u8,
        fields[3] == kernel_spelling(root),
        fields[4] == kernel_spelling(destination),
    ensures
        exists|k: int|
            0 <= k < table_mounts(mountinfo, device)->Ok_0.len() && #[trigger] table_mounts(
                mountinfo,
                device,
            )->Ok_0[k] == (MountView {
                id: fields[0],
                parent: fields[1],
                device: fields[2],
                root: path_parts(root),
                destination: path_parts(destination),
                destination_bytes: destination,
            }),
{
    joined_pieces_split_back(fields, 32u8);
    kernel_spelling_is_read_back(root);
    kernel_spelling_is_read_back(destination);
    first_piece_begins(fields, 32u8);
    assert(line.len() > 0);
    filled_lines_are_the_lines(mountinfo, line);
    table_has_a_mount_for_every_line(mountinfo, device);
    let written = filled_lines(mountinfo);
    let k = choose|k: int| 0 <= k < written.len() && written[k] == line;
    let mounts = table_mounts(mountinfo, device)->Ok_0;
    assert(line_tells(written[k], mounts[k]));
    assert(mounts[k] == (MountView {
        id: fields[0],
        parent: fields[1],
        device: fields[2],
        root: path_parts(root),
        destination: path_parts(destination),
        destination_bytes: destination,
    }));
}

/// The shortest spelling of a path is its components with one slash between
/// each two; an absolute path begins with a single slash.
pub proof fn shortest_spelling_joins_the_components(parts: Seq<Seq<u8>>)
    requires
        valid_parts(parts),
    ensures
        parts.len() > 0 && parts[0] == seq![47u8] ==> rendered(parts) == seq![47u8] + joined(
            parts.skip(1),
            47u8,
        ),
        !(parts.len() > 0 && parts[0] == seq![47u8]) ==> rendered(parts) == joined(parts, 47u8),
    decreases parts.len(),
{
    if parts.len() > 0 {
        let front = parts.drop_last();
        assert forall|i: int| 0 <= i < front.len() implies (super::path::is_inner_part(
            #[trigger] front[i],
        ) || (i == 0 && (front[i] == seq![47u8] || front[i] == seq![46u8]))) by {
            assert(front[i] == parts[i]);
        }
        shortest_spelling_joins_the_components(front);
        let last = parts[parts.len() - 1];
        assert(last.len() > 0);
        if parts.len() == 1 {
            assert(rendered(front) =~= Seq::<u8>::empty());
            assert(rendered(parts) =~= last);
            assert(parts.skip(1) =~= Seq::<Seq<u8>>::empty());
            assert(seq![47u8] + joined(parts.skip(1), 47u8) =~= seq![47u8]);
        } else {
            assert(front[0] == parts[0]);
            let before = front[front.len() - 1];
            assert(before.len() > 0);
            assert(rendered(front).last() == before.last()) by {
                let earlier = rendered(front.drop_last());
                assert(rendered(front).last() == before.last());
            }
            if before.last() == 47u8 {
                assert(before.contains(before[before.len() - 1]));
                assert(front.len() == 1);
                assert(before == seq![47u8]);
            } else if front.len() == 1 {
                assert(parts[0] != seq![47u8]) by {
                    assert(seq![47u8].last() == 47u8);
                }
            }
            if parts[0] == seq![47u8] {
                assert(parts.skip(1).drop_last() =~= front.skip(1));
                if front.len() == 1 {
                    assert(joined(front.skip(1), 47u8) =~= Seq::<u8>::empty());
                    assert(rendered(parts) =~= seq![47u8] + joined(parts.skip(1), 47u8));
                } else {
                    assert(rendered(parts) =~= seq![47u8] + joined(parts.skip(1), 47u8));
                }
            } else {
                assert(rendered(parts) =~= joined(parts, 47u8));
            }
        }
    } else {
        assert(rendered(parts) =~= joined(parts, 47u8));
    }
}

/// Whether byte strings agree up to `k`, where the first ends or has the lesser
/// byte.
pub open spec fn bytes_differ_at(a: Seq<u8>, b: Seq<u8>, k: int) -> bool {
    &&& 0 <= k <= a.len() && k < b.len()
    &&& a.take(k) == b.take(k)
    &&& k == a.len() || a[k] < b[k]
}

proof fn bytes_order(a: Seq<u8>, b: Seq<u8>)
    ensures
        bytes_before(a, b) <==> exists|k: int| bytes_differ_at(a, b, k),
    decreases a.len(),
{
    if a.len() == 0 || b.len() == 0 {
        if b.len() > 0 {
            assert(a.take(0) =~= b.take(0));
            assert(bytes_differ_at(a, b, 0));
        }
    } else {
        bytes_order(a.drop_first(), b.drop_first());
        if bytes_before(a, b) {
            if a[0] < b[0] {
                assert(a.take(0) =~= b.take(0));
                assert(bytes_differ_at(a, b, 0));
            } else {
                let k = choose|k: int| bytes_differ_at(a.drop_first(), b.drop_first(), k);
                assert(a.take(k + 1) =~= seq![a[0]] + a.drop_first().take(k));
                assert(b.take(k + 1) =~= seq![b[0]] + b.drop_first().take(k));
                assert(bytes_differ_at(a, b, k + 1));
            }
        }
        if exists|k: int| bytes_differ_at(a, b, k) {
            let k = choose|k: int| bytes_differ_at(a, b, k);
            if k > 0 {
                assert(a.take(k)[0] == b.take(k)[0]);
                assert(a.drop_first().take(k - 1) =~= a.take(k).drop_first());
                assert(b.drop_first().take(k - 1) =~= b.take(k).drop_first());
                assert(bytes_differ_at(a.drop_first(), b.drop_first(), k - 1));
            }
        }
    }
}

/// Whether a component sorts before another: the root directory before `.`,
/// that before `..`, that before names, and names by their bytes.
pub open spec fn component_is_less(a: Seq<u8>, b: Seq<u8>) -> bool {
    if a == seq![47u8] {
        b != seq![47u8]
    } else if a == seq![46u8] {
        b != seq![47u8] && b != seq![46u8]
    } else if a == seq![46u8, 46u8] {
        b != seq![47u8] && b != seq![46u8] && b != seq![46u8, 46u8]
    } else {
        b != seq![47u8] && b != seq![46u8] && b != seq![46u8, 46u8] && exists|k: int|
            bytes_differ_at(a, b, k)
    }
}

/// Whether paths agree up to `k`, where the first ends or has the lesser
/// component.
pub open spec fn paths_differ_at(a: Seq<Seq<u8>>, b: Seq<Seq<u8>>, k: int) -> bool {
    &&& 0 <= k <= a.len() && k < b.len()
    &&& a.take(k) == b.take(k)
    &&& k == a.len() || component_is_less(a[k], b[k])
}

proof fn components_order(a: Seq<u8>, b: Seq<u8>)
    ensures
        super::path::part_before(a, b) <==> component_is_less(a, b),
{
    bytes_order(a, b);
    assert(seq![47u8][0] == 47u8);
    assert(seq![46u8][0] == 46u8);
    assert(seq![46u8].len() == 1);
    assert(seq![46u8, 46u8].len() == 2);
    assert(seq![47u8].len() == 1);
}

/// A path is before another exactly if, at the first component where they
/// differ, it has ended or has the lesser component.
pub proof fn paths_are_ordered_by_their_first_difference(a: Seq<Seq<u8>>, b: Seq<Seq<u8>>)
    ensures
        path_before(a, b) <==> exists|k: int| paths_differ_at(a, b, k),
    decreases a.len(),
{
    if a.len() == 0 || b.len() == 0 {
        if b.len() > 0 {
            assert(a.take(0) =~= b.take(0));
            assert(paths_differ_at(a, b, 0));
        }
    } else {
        components_order(a[0], b[0]);
        paths_are_ordered_by_their_first_difference(a.drop_first(), b.drop_first());
        if path_before(a, b) {
            if component_is_less(a[0], b[0]) {
                assert(a.take(0) =~= b.take(0));
                assert(paths_differ_at(a, b, 0));
            } else {
                let k = choose|k: int| paths_differ_at(a.drop_first(), b.drop_first(), k);
                assert(a.take(k + 1) =~= seq![a[0]] + a.drop_first().take(k));
                assert(b.take(k + 1) =~= seq![b[0]] + b.drop_first().take(k));
                assert(paths_differ_at(a, b, k + 1));
            }
        }
        if exists|k: int| paths_differ_at(a, b, k) {
            let k = choose|k: int| paths_differ_at(a, b, k);
            if k > 0 {
                assert(a.take(k)[0] == b.take(k)[0]);
                assert(a.drop_first().take(k - 1) =~= a.take(k).drop_first());
                assert(b.drop_first().take(k - 1) =~= b.take(k).drop_first());
                assert(paths_differ_at(a.drop_first(), b.drop_first(), k - 1));
            }
        }
    }
}

} // verus!
