//! Unix paths as sequences of components.
//!
//! Two paths are the same here when their components are: repeated and
//! trailing separators and inner `.` components carry no meaning, while `..`
//! is a component of its own.  The root directory, a leading `.` and `..` are
//! the components `/`, `.` and `..`; every other component is a plain name.
use vstd::prelude::*;

verus! {

/// The pieces of `s` between the occurrences of `separator`.
pub open spec fn split(s: Seq<u8>, separator: u8) -> Seq<Seq<u8>>
    decreases s.len(),
{
    if s.len() == 0 {
        seq![Seq::<u8>::empty()]
    } else {
        let before = split(s.drop_last(), separator);
        if s.last() == separator {
            before.push(Seq::<u8>::empty())
        } else {
            before.drop_last().push(before.last().push(s.last()))
        }
    }
}

/// The component that stands for the root directory.
pub open spec fn root_part() -> Seq<u8> {
    seq![47u8]
}

/// The component that stands for the current directory.
pub open spec fn current_part() -> Seq<u8> {
    seq![46u8]
}

/// The component that stands for the parent directory.
pub open spec fn parent_part() -> Seq<u8> {
    seq![46u8, 46u8]
}

/// Whether a piece between separators is a component of its own.
pub open spec fn is_kept(piece: Seq<u8>) -> bool {
    piece.len() > 0 && piece != current_part()
}

/// The pieces that are components, in order.
pub open spec fn kept_pieces(pieces: Seq<Seq<u8>>) -> Seq<Seq<u8>>
    decreases pieces.len(),
{
    if pieces.len() == 0 {
        Seq::empty()
    } else if is_kept(pieces.last()) {
        kept_pieces(pieces.drop_last()).push(pieces.last())
    } else {
        kept_pieces(pieces.drop_last())
    }
}

/// The component that a path starts with before its pieces are looked at: the
/// root directory of an absolute path, or the leading `.` of a relative one.
pub open spec fn leading_parts(bytes: Seq<u8>) -> Seq<Seq<u8>> {
    if bytes.len() > 0 && bytes[0] == 47u8 {
        seq![root_part()]
    } else if split(bytes, 47u8)[0] == current_part() {
        seq![current_part()]
    } else {
        Seq::empty()
    }
}

/// The components of the path spelled `bytes`.
pub open spec fn path_parts(bytes: Seq<u8>) -> Seq<Seq<u8>> {
    leading_parts(bytes) + kept_pieces(split(bytes, 47u8))
}

/// Whether a path starts at the root directory.
pub open spec fn is_absolute(parts: Seq<Seq<u8>>) -> bool {
    parts.len() > 0 && parts[0] == root_part()
}

/// Whether a component is a plain name or `..`: it is not empty, holds no
/// separator and is not `.`.
pub open spec fn is_inner_part(part: Seq<u8>) -> bool {
    is_kept(part) && !part.contains(47u8)
}

/// Whether a sequence of components is one that some spelling of a path has.
pub open spec fn valid_parts(parts: Seq<Seq<u8>>) -> bool {
    forall|i: int|
        0 <= i < parts.len() ==> (is_inner_part(#[trigger] parts[i]) || (i == 0 && (parts[i]
            == root_part() || parts[i] == current_part())))
}

/// The shortest spelling of a path.
pub open spec fn rendered(parts: Seq<Seq<u8>>) -> Seq<u8>
    decreases parts.len(),
{
    if parts.len() == 0 {
        Seq::empty()
    } else {
        let front = rendered(parts.drop_last());
        if front.len() == 0 || front.last() == 47u8 {
            front + parts.last()
        } else {
            front.push(47u8) + parts.last()
        }
    }
}

/// Where a component sorts among the kinds: root, `.`, `..`, names.
pub open spec fn part_rank(part: Seq<u8>) -> nat {
    if part == root_part() {
        0
    } else if part == current_part() {
        1
    } else if part == parent_part() {
        2
    } else {
        3
    }
}

/// Lexicographic order of byte strings.
pub open spec fn bytes_before(a: Seq<u8>, b: Seq<u8>) -> bool
    decreases a.len(),
{
    b.len() > 0 && (a.len() == 0 || a[0] < b[0] || (a[0] == b[0] && bytes_before(
        a.drop_first(),
        b.drop_first(),
    )))
}

/// Order of components: by kind, then names by their bytes.
pub open spec fn part_before(a: Seq<u8>, b: Seq<u8>) -> bool {
    part_rank(a) < part_rank(b) || (part_rank(a) == 3 && part_rank(b) == 3 && bytes_before(a, b))
}

/// Order of paths: lexicographic by component.
pub open spec fn path_before(a: Seq<Seq<u8>>, b: Seq<Seq<u8>>) -> bool
    decreases a.len(),
{
    b.len() > 0 && (a.len() == 0 || part_before(a[0], b[0]) || (a[0] == b[0] && path_before(
        a.drop_first(),
        b.drop_first(),
    )))
}

/// Whether paths stand in strictly increasing order.
pub open spec fn sorted_paths(paths: Seq<Seq<Seq<u8>>>) -> bool {
    forall|i: int, j: int|
        0 <= i < j < paths.len() ==> path_before(#[trigger] paths[i], #[trigger] paths[j])
}

/// The contents of a vector of byte strings.
pub open spec fn contents(v: Seq<Vec<u8>>) -> Seq<Seq<u8>> {
    v.map_values(|piece: Vec<u8>| piece@)
}

proof fn bytes_before_order(a: Seq<u8>, b: Seq<u8>, c: Seq<u8>)
    ensures
        !bytes_before(a, a),
        bytes_before(a, b) && bytes_before(b, c) ==> bytes_before(a, c),
        a == b || bytes_before(a, b) || bytes_before(b, a),
    decreases a.len(), b.len(), c.len(),
{
    if a.len() > 0 {
        bytes_before_order(
            a.drop_first(),
            if b.len() > 0 {
                b.drop_first()
            } else {
                b
            },
            if c.len() > 0 {
                c.drop_first()
            } else {
                c
            },
        );
        if b.len() > 0 && a[0] == b[0] && a.drop_first() == b.drop_first() {
            assert(a =~= seq![a[0]] + a.drop_first());
            assert(b =~= seq![b[0]] + b.drop_first());
        }
    } else if b.len() == 0 {
        assert(a =~= b);
    }
}

proof fn part_before_order(a: Seq<u8>, b: Seq<u8>, c: Seq<u8>)
    ensures
        !part_before(a, a),
        part_before(a, b) && part_before(b, c) ==> part_before(a, c),
        a == b || part_before(a, b) || part_before(b, a),
{
    bytes_before_order(a, b, c);
}

/// The order of paths is a strict total order.
pub proof fn path_before_order(a: Seq<Seq<u8>>, b: Seq<Seq<u8>>, c: Seq<Seq<u8>>)
    ensures
        !path_before(a, a),
        path_before(a, b) && path_before(b, c) ==> path_before(a, c),
        a == b || path_before(a, b) || path_before(b, a),
    decreases a.len(), b.len(), c.len(),
{
    if a.len() > 0 {
        path_before_order(
            a.drop_first(),
            if b.len() > 0 {
                b.drop_first()
            } else {
                b
            },
            if c.len() > 0 {
                c.drop_first()
            } else {
                c
            },
        );
        part_before_order(
            a[0],
            if b.len() > 0 {
                b[0]
            } else {
                a[0]
            },
            if c.len() > 0 {
                c[0]
            } else {
                a[0]
            },
        );
        if b.len() > 0 && a[0] == b[0] && a.drop_first() == b.drop_first() {
            assert(a =~= seq![a[0]] + a.drop_first());
            assert(b =~= seq![b[0]] + b.drop_first());
        }
    } else if b.len() == 0 {
        assert(a =~= b);
    }
}

proof fn split_is_not_empty(s: Seq<u8>, separator: u8)
    ensures
        split(s, separator).len() > 0,
    decreases s.len(),
{
    if s.len() > 0 {
        split_is_not_empty(s.drop_last(), separator);
    }
}

/// No piece of a split holds the separator.
pub proof fn split_pieces_are_free(s: Seq<u8>, separator: u8)
    ensures
        split(s, separator).len() > 0,
        forall|i: int|
            0 <= i < split(s, separator).len() ==> !(#[trigger] split(s, separator)[i]).contains(
                separator,
            ),
    decreases s.len(),
{
    if s.len() > 0 {
        split_pieces_are_free(s.drop_last(), separator);
        let before = split(s.drop_last(), separator);
        let after = split(s, separator);
        assert forall|i: int| 0 <= i < after.len() implies !(#[trigger] after[i]).contains(
            separator,
        ) by {
            if s.last() == separator {
                if i < before.len() {
                    assert(after[i] == before[i]);
                }
            } else if i < before.len() - 1 {
                assert(after[i] == before[i]);
            } else {
                assert(after[i] == before.last().push(s.last()));
                assert(!before[before.len() - 1].contains(separator));
                if after[i].contains(separator) {
                    let k = choose|k: int| 0 <= k < after[i].len() && after[i][k] == separator;
                    assert(k < before.last().len());
                    assert(before.last()[k] == separator);
                }
            }
        }
    }
}

proof fn split_of_tail(s: Seq<u8>, tail: Seq<u8>, separator: u8)
    requires
        !tail.contains(separator),
    ensures
        split(s + tail, separator) == split(s, separator).drop_last().push(
            split(s, separator).last() + tail,
        ),
    decreases tail.len(),
{
    split_is_not_empty(s, separator);
    let pieces = split(s, separator);
    if tail.len() == 0 {
        assert(s + tail =~= s);
        assert(pieces.last() + tail =~= pieces.last());
        assert(pieces =~= pieces.drop_last().push(pieces.last()));
    } else {
        assert forall|k: int| 0 <= k < tail.drop_last().len() implies #[trigger] tail.drop_last()[k]
            != separator by {
            assert(tail.contains(tail[k]));
        }
        split_of_tail(s, tail.drop_last(), separator);
        assert((s + tail).drop_last() =~= s + tail.drop_last());
        assert(tail.contains(tail.last()));
        let shorter = pieces.drop_last().push(pieces.last() + tail.drop_last());
        assert(shorter.last() == pieces.last() + tail.drop_last());
        assert((pieces.last() + tail.drop_last()).push(tail.last()) =~= pieces.last() + tail);
        assert(shorter.drop_last() =~= pieces.drop_last());
    }
}

proof fn kept_pieces_of_push(pieces: Seq<Seq<u8>>, piece: Seq<u8>)
    ensures
        kept_pieces(pieces.push(piece)) == if is_kept(piece) {
            kept_pieces(pieces).push(piece)
        } else {
            kept_pieces(pieces)
        },
{
    assert(pieces.push(piece).drop_last() =~= pieces);
}

proof fn kept_pieces_are_pieces(pieces: Seq<Seq<u8>>)
    ensures
        forall|i: int|
            0 <= i < kept_pieces(pieces).len() ==> is_kept(#[trigger] kept_pieces(pieces)[i])
                && pieces.contains(kept_pieces(pieces)[i]),
    decreases pieces.len(),
{
    if pieces.len() > 0 {
        kept_pieces_are_pieces(pieces.drop_last());
        assert forall|i: int| 0 <= i < kept_pieces(pieces).len() implies is_kept(
            #[trigger] kept_pieces(pieces)[i],
        ) && pieces.contains(kept_pieces(pieces)[i]) by {
            let shorter = kept_pieces(pieces.drop_last());
            if i < shorter.len() {
                assert(kept_pieces(pieces)[i] == shorter[i]);
                let k = choose|k: int|
                    0 <= k < pieces.drop_last().len() && pieces.drop_last()[k] == shorter[i];
                assert(pieces[k] == shorter[i]);
            } else {
                assert(pieces[pieces.len() - 1] == pieces.last());
            }
        }
    }
}

/// Every spelling has valid components.
pub proof fn path_parts_are_valid(bytes: Seq<u8>)
    ensures
        valid_parts(path_parts(bytes)),
{
    let pieces = split(bytes, 47u8);
    split_pieces_are_free(bytes, 47u8);
    kept_pieces_are_pieces(pieces);
    let parts = path_parts(bytes);
    let lead = leading_parts(bytes);
    assert forall|i: int| 0 <= i < parts.len() implies (is_inner_part(#[trigger] parts[i]) || (i
        == 0 && (parts[i] == root_part() || parts[i] == current_part()))) by {
        if i >= lead.len() {
            let kept = kept_pieces(pieces);
            assert(parts[i] == kept[i - lead.len()]);
            assert(pieces.contains(kept[i - lead.len()]));
        }
    }
}

/// The shortest spelling of a path has the path's components.
pub proof fn rendered_parses_back(parts: Seq<Seq<u8>>)
    requires
        valid_parts(parts),
    ensures
        path_parts(rendered(parts)) == parts,
    decreases parts.len(),
{
    if parts.len() == 0 {
        assert(rendered(parts) =~= Seq::<u8>::empty());
        assert(split(Seq::<u8>::empty(), 47u8) =~= seq![Seq::<u8>::empty()]);
        let pieces = split(Seq::<u8>::empty(), 47u8);
        assert(kept_pieces(pieces.drop_last()) =~= Seq::empty());
        assert(path_parts(rendered(parts)) =~= parts);
    } else {
        let front_parts = parts.drop_last();
        let last = parts.last();
        assert(last == parts[parts.len() - 1]);
        assert forall|i: int| 0 <= i < front_parts.len() implies (is_inner_part(
            #[trigger] front_parts[i],
        ) || (i == 0 && (front_parts[i] == root_part() || front_parts[i] == current_part()))) by {
            assert(front_parts[i] == parts[i]);
        }
        rendered_parses_back(front_parts);
        rendered_shape(front_parts);
        let front = rendered(front_parts);
        let whole = rendered(parts);
        if parts.len() == 1 {
            assert(whole =~= last);
            single_part_parses(last);
            assert(parts =~= seq![last]);
        } else {
            assert(is_inner_part(last));
            split_is_not_empty(front, 47u8);
            let front_pieces = split(front, 47u8);
            if front.last() == 47u8 {
                // The front is the root directory alone.
                assert(front =~= root_part());
                assert(front_parts =~= seq![root_part()]);
                assert(whole =~= front + last);
                split_of_tail(front, last, 47u8);
                assert(split(front.drop_last(), 47u8) =~= seq![Seq::<u8>::empty()]) by {
                    assert(front.drop_last() =~= Seq::<u8>::empty());
                }
                assert(front_pieces =~= seq![Seq::<u8>::empty(), Seq::<u8>::empty()]);
                assert(front_pieces.last() + last =~= last);
                let pieces = split(whole, 47u8);
                assert(pieces =~= front_pieces.drop_last().push(last));
                kept_pieces_of_push(front_pieces.drop_last(), last);
                assert(front_pieces.drop_last().drop_last() =~= Seq::<Seq<u8>>::empty());
                assert(kept_pieces(front_pieces.drop_last()) =~= Seq::empty());
                assert(path_parts(whole) =~= parts);
            } else {
                let spaced = front.push(47u8);
                assert(spaced.drop_last() =~= front);
                assert(split(spaced, 47u8) =~= front_pieces.push(Seq::<u8>::empty()));
                split_of_tail(spaced, last, 47u8);
                assert(Seq::<u8>::empty() + last =~= last);
                let pieces = split(whole, 47u8);
                assert(pieces =~= front_pieces.push(last));
                kept_pieces_of_push(front_pieces, last);
                assert(pieces[0] == front_pieces[0]);
                assert(whole[0] == front[0]);
                assert(leading_parts(whole) == leading_parts(front));
                assert(path_parts(whole) =~= path_parts(front).push(last));
                assert(parts =~= front_parts.push(last));
            }
        }
    }
}

proof fn single_part_parses(part: Seq<u8>)
    requires
        is_inner_part(part) || part == root_part() || part == current_part(),
    ensures
        path_parts(part) == seq![part],
{
    let empty = Seq::<u8>::empty();
    assert(split(empty, 47u8) =~= seq![empty]);
    assert(kept_pieces(Seq::<Seq<u8>>::empty()) =~= Seq::empty());
    if part == root_part() {
        assert(part.drop_last() =~= empty);
        let pieces = split(part, 47u8);
        assert(pieces =~= seq![empty, empty]);
        assert(pieces.drop_last() =~= seq![empty]);
        assert(seq![empty].drop_last() =~= Seq::<Seq<u8>>::empty());
        assert(kept_pieces(seq![empty]) =~= Seq::empty());
        assert(kept_pieces(pieces) =~= Seq::empty());
        assert(path_parts(part) =~= seq![part]);
    } else {
        assert(!part.contains(47u8)) by {
            if part == current_part() {
                assert(part.len() == 1 && part[0] == 46u8);
            }
        }
        split_of_tail(empty, part, 47u8);
        assert(empty + part =~= part);
        let pieces = split(part, 47u8);
        assert(pieces =~= seq![part]);
        assert(pieces.drop_last() =~= Seq::<Seq<u8>>::empty());
        assert(part.len() > 0);
        assert(part.contains(part[0]));
        assert(part[0] != 47u8);
        kept_pieces_of_push(Seq::empty(), part);
        assert(Seq::<Seq<u8>>::empty().push(part) =~= pieces);
        assert(path_parts(part) =~= seq![part]);
    }
}

proof fn rendered_shape(parts: Seq<Seq<u8>>)
    requires
        valid_parts(parts),
    ensures
        parts.len() > 0 <==> rendered(parts).len() > 0,
        parts.len() > 0 && rendered(parts).last() == 47u8 ==> parts.len() == 1 && parts[0]
            == root_part() && rendered(parts) == root_part(),
    decreases parts.len(),
{
    if parts.len() > 0 {
        let front_parts = parts.drop_last();
        assert forall|i: int| 0 <= i < front_parts.len() implies (is_inner_part(
            #[trigger] front_parts[i],
        ) || (i == 0 && (front_parts[i] == root_part() || front_parts[i] == current_part()))) by {
            assert(front_parts[i] == parts[i]);
        }
        rendered_shape(front_parts);
        let last = parts[parts.len() - 1];
        assert(last.len() > 0);
        let whole = rendered(parts);
        assert(whole.last() == last.last());
        if whole.last() == 47u8 {
            assert(last.contains(last[last.len() - 1]));
            assert(parts.len() == 1);
            assert(whole =~= last);
        }
    }
}

/// Copies a byte string.
pub fn copy_bytes(bytes: &[u8]) -> (copy: Vec<u8>)
    ensures
        copy@ == bytes@,
{
    let mut copy: Vec<u8> = Vec::new();
    let mut i: usize = 0;
    while i < bytes.len()
        invariant
            i <= bytes.len(),
            copy@ == bytes@.take(i as int),
        decreases bytes.len() - i,
    {
        copy.push(bytes[i]);
        i += 1;
    }
    copy
}

/// Whether two byte strings are the same.
pub fn same_bytes(a: &[u8], b: &[u8]) -> (same: bool)
    ensures
        same == (a@ == b@),
{
    if a.len() != b.len() {
        return false;
    }
    let mut i: usize = 0;
    while i < a.len()
        invariant
            i <= a.len() == b.len(),
            forall|k: int| 0 <= k < i ==> a@[k] == b@[k],
        decreases a.len() - i,
    {
        if a[i] != b[i] {
            return false;
        }
        i += 1;
    }
    proof {
        assert(a@ =~= b@);
    }
    true
}

/// Splits `bytes` at every occurrence of `separator`.
pub fn split_bytes(bytes: &[u8], separator: u8) -> (pieces: Vec<Vec<u8>>)
    ensures
        contents(pieces@) == split(bytes@, separator),
        pieces.len() > 0,
{
    let mut done: Vec<Vec<u8>> = Vec::new();
    let mut open: Vec<u8> = Vec::new();
    let mut i: usize = 0;
    proof {
        assert(contents(done@).push(open@) =~= split(bytes@.take(0), separator));
    }
    while i < bytes.len()
        invariant
            i <= bytes.len(),
            contents(done@).push(open@) == split(bytes@.take(i as int), separator),
        decreases bytes.len() - i,
    {
        let byte: u8 = bytes[i];
        let ghost before = split(bytes@.take(i as int), separator);
        let ghost longer = bytes@.take(i + 1);
        proof {
            assert(longer.drop_last() =~= bytes@.take(i as int));
            assert(longer.last() == byte);
            assert(before.drop_last() =~= contents(done@));
            assert(before.last() == open@);
        }
        if byte == separator {
            let ghost finished = done@;
            let ghost piece = open@;
            done.push(open);
            open = Vec::new();
            proof {
                assert(contents(done@) =~= contents(finished).push(piece));
                assert(open@ =~= Seq::<u8>::empty());
            }
        } else {
            open.push(byte);
        }
        i += 1;
    }
    proof {
        assert(bytes@.take(bytes@.len() as int) =~= bytes@);
    }
    let ghost finished = done@;
    let ghost piece = open@;
    done.push(open);
    proof {
        assert(contents(done@) =~= contents(finished).push(piece));
    }
    done
}

/// A path, held as its components.
#[derive(Debug)]
pub struct UnixPath {
    /// The components, with `/`, `.` and `..` for the special ones.
    pub parts: Vec<Vec<u8>>,
}

impl View for UnixPath {
    type V = Seq<Seq<u8>>;

    open spec fn view(&self) -> Seq<Seq<u8>> {
        contents(self.parts@)
    }
}

impl UnixPath {
    /// Reads the components of the path spelled `bytes`.
    pub fn from_bytes(bytes: &[u8]) -> (path: Self)
        ensures
            path@ == path_parts(bytes@),
            valid_parts(path@),
    {
        let pieces: Vec<Vec<u8>> = split_bytes(bytes, 47);
        let mut parts: Vec<Vec<u8>> = Vec::new();
        let ghost spelled = contents(pieces@);
        let current: Vec<u8> = vec![46];
        proof {
            assert(current@ =~= current_part());
        }
        if bytes.len() > 0 && bytes[0] == 47 {
            let root: Vec<u8> = vec![47];
            proof {
                assert(root@ =~= root_part());
            }
            parts.push(root);
        } else if same_bytes(pieces[0].as_slice(), current.as_slice()) {
            proof {
                assert(spelled[0] == pieces@[0]@);
            }
            parts.push(copy_bytes(current.as_slice()));
        } else {
            proof {
                assert(spelled[0] == pieces@[0]@);
            }
        }
        let ghost lead = contents(parts@);
        proof {
            assert(lead =~= leading_parts(bytes@));
            assert(spelled.take(0) =~= Seq::<Seq<u8>>::empty());
            assert(contents(parts@) =~= lead + kept_pieces(spelled.take(0)));
        }
        let mut i: usize = 0;
        while i < pieces.len()
            invariant
                i <= pieces.len(),
                spelled == contents(pieces@),
                current@ == current_part(),
                contents(parts@) == lead + kept_pieces(spelled.take(i as int)),
            decreases pieces.len() - i,
        {
            proof {
                assert(spelled.take(i + 1) =~= spelled.take(i as int).push(spelled[i as int]));
                kept_pieces_of_push(spelled.take(i as int), spelled[i as int]);
                assert(spelled[i as int] == pieces@[i as int]@);
            }
            if pieces[i].len() > 0 && !same_bytes(pieces[i].as_slice(), current.as_slice()) {
                let ghost earlier = parts@;
                let part: Vec<u8> = copy_bytes(pieces[i].as_slice());
                let ghost piece = part@;
                parts.push(part);
                proof {
                    assert(contents(parts@) =~= contents(earlier).push(piece));
                    assert(contents(parts@) =~= lead + kept_pieces(spelled.take(i + 1)));
                }
            }
            i += 1;
        }
        proof {
            assert(spelled.take(spelled.len() as int) =~= spelled);
            path_parts_are_valid(bytes@);
        }
        UnixPath { parts }
    }

    /// The shortest spelling of this path.
    pub fn to_bytes(&self) -> (bytes: Vec<u8>)
        ensures
            bytes@ == rendered(self@),
    {
        let mut bytes: Vec<u8> = Vec::new();
        let mut i: usize = 0;
        proof {
            assert(self@.take(0) =~= Seq::<Seq<u8>>::empty());
        }
        while i < self.parts.len()
            invariant
                i <= self.parts.len(),
                bytes@ == rendered(self@.take(i as int)),
            decreases self.parts.len() - i,
        {
            proof {
                assert(self@.take(i + 1).drop_last() =~= self@.take(i as int));
                assert(self@.take(i + 1).last() == self.parts@[i as int]@);
            }
            if bytes.len() > 0 && bytes[bytes.len() - 1] != 47 {
                bytes.push(47);
            }
            let mut part: Vec<u8> = copy_bytes(self.parts[i].as_slice());
            bytes.append(&mut part);
            i += 1;
        }
        proof {
            assert(self@.take(self@.len() as int) =~= self@);
        }
        bytes
    }

    /// Whether this path starts at the root directory.
    pub fn is_absolute(&self) -> (yes: bool)
        ensures
            yes == is_absolute(self@),
    {
        if self.parts.len() == 0 {
            return false;
        }
        let root: Vec<u8> = vec![47];
        proof {
            assert(root@ =~= root_part());
            assert(self@[0] == self.parts@[0]@);
        }
        same_bytes(self.parts[0].as_slice(), root.as_slice())
    }

    /// A copy of this path.
    pub fn copy(&self) -> (copy: Self)
        ensures
            copy@ == self@,
    {
        let mut parts: Vec<Vec<u8>> = Vec::new();
        let mut i: usize = 0;
        while i < self.parts.len()
            invariant
                i <= self.parts.len(),
                contents(parts@) == self@.take(i as int),
            decreases self.parts.len() - i,
        {
            let ghost earlier = parts@;
            let part: Vec<u8> = copy_bytes(self.parts[i].as_slice());
            let ghost piece = part@;
            parts.push(part);
            proof {
                assert(contents(parts@) =~= contents(earlier).push(piece));
                assert(self@.take(i + 1) =~= self@.take(i as int).push(self@[i as int]));
                assert(self@[i as int] == self.parts@[i as int]@);
            }
            i += 1;
        }
        proof {
            assert(self@.take(self@.len() as int) =~= self@);
        }
        UnixPath { parts }
    }

    /// Whether `base` is this path or one of its ancestors.
    pub fn starts_with(&self, base: &UnixPath) -> (yes: bool)
        ensures
            yes == base@.is_prefix_of(self@),
    {
        if base.parts.len() > self.parts.len() {
            return false;
        }
        let mut i: usize = 0;
        while i < base.parts.len()
            invariant
                i <= base.parts.len() <= self.parts.len(),
                forall|k: int| 0 <= k < i ==> self@[k] == base@[k],
            decreases base.parts.len() - i,
        {
            proof {
                assert(self@[i as int] == self.parts@[i as int]@);
                assert(base@[i as int] == base.parts@[i as int]@);
            }
            if !same_bytes(self.parts[i].as_slice(), base.parts[i].as_slice()) {
                proof {
                    assert(self@.subrange(0, base@.len() as int)[i as int] == self@[i as int]);
                }
                return false;
            }
            i += 1;
        }
        proof {
            assert(base@ =~= self@.subrange(0, base@.len() as int));
        }
        true
    }

    /// Whether two paths have the same components.
    pub fn same_as(&self, other: &UnixPath) -> (same: bool)
        ensures
            same == (self@ == other@),
    {
        let prefix: bool = self.starts_with(other);
        proof {
            if self@.len() == other@.len() {
                assert(self@.subrange(0, self@.len() as int) =~= self@);
            }
        }
        self.parts.len() == other.parts.len() && prefix
    }

    /// What is left of this path below `base`, put below `target`.
    pub fn moved(&self, base: &UnixPath, target: &UnixPath) -> (path: UnixPath)
        requires
            base@.is_prefix_of(self@),
        ensures
            path@ == target@ + self@.skip(base@.len() as int),
    {
        let mut path: UnixPath = target.copy();
        let mut i: usize = base.parts.len();
        proof {
            assert(path@ =~= target@ + self@.subrange(base@.len() as int, i as int));
        }
        while i < self.parts.len()
            invariant
                base@.len() <= i <= self.parts.len(),
                path@ == target@ + self@.subrange(base@.len() as int, i as int),
            decreases self.parts.len() - i,
        {
            let ghost earlier = path.parts@;
            let part: Vec<u8> = copy_bytes(self.parts[i].as_slice());
            let ghost piece = part@;
            path.parts.push(part);
            proof {
                assert(contents(path.parts@) =~= contents(earlier).push(piece));
                assert(self@[i as int] == self.parts@[i as int]@);
                assert(path@ =~= target@ + self@.subrange(base@.len() as int, i + 1));
            }
            i += 1;
        }
        proof {
            assert(self@.subrange(base@.len() as int, self@.len() as int) =~= self@.skip(
                base@.len() as int,
            ));
        }
        path
    }
}

/// Whether `a` sorts before `b`.
fn bytes_less(a: &[u8], b: &[u8]) -> (less: bool)
    ensures
        less == bytes_before(a@, b@),
{
    let mut i: usize = 0;
    proof {
        assert(a@.skip(0) =~= a@);
        assert(b@.skip(0) =~= b@);
    }
    while i < a.len() && i < b.len() && a[i] == b[i]
        invariant
            i <= a.len(),
            i <= b.len(),
            bytes_before(a@, b@) == bytes_before(a@.skip(i as int), b@.skip(i as int)),
        decreases a.len() - i,
    {
        proof {
            assert(a@.skip(i as int).drop_first() =~= a@.skip(i + 1));
            assert(b@.skip(i as int).drop_first() =~= b@.skip(i + 1));
        }
        i += 1;
    }
    if i >= b.len() {
        false
    } else if i >= a.len() {
        true
    } else {
        a[i] < b[i]
    }
}

/// Where a component sorts among the kinds.
fn rank(part: &[u8]) -> (rank: u8)
    ensures
        rank == part_rank(part@),
{
    proof {
        assert(part@ == root_part() <==> part@.len() == 1 && part@[0] == 47u8) by {
            if part@.len() == 1 && part@[0] == 47u8 {
                assert(part@ =~= root_part());
            }
        }
        assert(part@ == current_part() <==> part@.len() == 1 && part@[0] == 46u8) by {
            if part@.len() == 1 && part@[0] == 46u8 {
                assert(part@ =~= current_part());
            }
        }
        assert(part@ == parent_part() <==> part@.len() == 2 && part@[0] == 46u8 && part@[1]
            == 46u8) by {
            if part@.len() == 2 && part@[0] == 46u8 && part@[1] == 46u8 {
                assert(part@ =~= parent_part());
            }
        }
    }
    if part.len() == 1 && part[0] == 47 {
        0
    } else if part.len() == 1 && part[0] == 46 {
        1
    } else if part.len() == 2 && part[0] == 46 && part[1] == 46 {
        2
    } else {
        3
    }
}

/// Whether component `a` sorts before component `b`.
fn part_less(a: &[u8], b: &[u8]) -> (less: bool)
    ensures
        less == part_before(a@, b@),
{
    let rank_a: u8 = rank(a);
    let rank_b: u8 = rank(b);
    rank_a < rank_b || (rank_a == 3 && rank_b == 3 && bytes_less(a, b))
}

/// Whether path `a` sorts before path `b`.
pub fn path_less(a: &UnixPath, b: &UnixPath) -> (less: bool)
    ensures
        less == path_before(a@, b@),
{
    let mut i: usize = 0;
    proof {
        assert(a@.skip(0) =~= a@);
        assert(b@.skip(0) =~= b@);
    }
    while i < a.parts.len() && i < b.parts.len()
        invariant
            i <= a.parts.len(),
            i <= b.parts.len(),
            path_before(a@, b@) == path_before(a@.skip(i as int), b@.skip(i as int)),
        decreases a.parts.len() - i,
    {
        proof {
            assert(a@.skip(i as int)[0] == a.parts@[i as int]@);
            assert(b@.skip(i as int)[0] == b.parts@[i as int]@);
            part_before_order(a.parts@[i as int]@, b.parts@[i as int]@, a.parts@[i as int]@);
            assert(a@.skip(i as int).drop_first() =~= a@.skip(i + 1));
            assert(b@.skip(i as int).drop_first() =~= b@.skip(i + 1));
        }
        if part_less(a.parts[i].as_slice(), b.parts[i].as_slice()) {
            return true;
        }
        if !same_bytes(a.parts[i].as_slice(), b.parts[i].as_slice()) {
            return false;
        }
        i += 1;
    }
    i < b.parts.len()
}

} // verus!
