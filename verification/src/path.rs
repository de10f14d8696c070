//! Paths of media files, as the byte strings that Unix systems keep them in.

use crate::split::{after_run, lemma_run_len_unique, run_len};
use vstd::prelude::*;
use vstd::utf8::{
    decode_utf8, decode_utf8_encode_utf8, encode_utf8, encode_utf8_valid_utf8, valid_utf8,
};

verus! {

/// The byte that separates the components of a path.
pub const SLASH: u8 = 47;

/// The byte of which the components `.` and `..` are made.
pub const DOT: u8 = 46;

/// The path of a file, as raw bytes: it need not be UTF-8.
#[derive(Debug)]
pub struct MediaPath {
    pub bytes: Vec<u8>,
}

impl View for MediaPath {
    type V = Seq<u8>;

    open spec fn view(&self) -> Seq<u8> {
        self.bytes@
    }
}

/// Whether a path starts at the root directory.
pub open spec fn absolute(path: Seq<u8>) -> bool {
    path.len() > 0 && path[0] == SLASH
}

/// The components of what is left of a path: the pieces between its slashes,
/// without empty ones and without `.`, unless the `.` is what the path starts
/// with (`leading`).
pub open spec fn components_from(path: Seq<u8>, leading: bool) -> Seq<Seq<u8>>
    decreases path.len(),
{
    if path.len() == 0 {
        Seq::empty()
    } else {
        let piece = path.take(run_len(path, SLASH) as int);
        let rest = components_from(after_run(path, SLASH), false);
        if piece.len() == 0 || (piece == seq![DOT] && !leading) {
            rest
        } else {
            seq![piece] + rest
        }
    }
}

/// The components of a path.
pub open spec fn components(path: Seq<u8>) -> Seq<Seq<u8>> {
    components_from(path, true)
}

/// Whether two paths are the same, component by component: `a//b/./c` is
/// `a/b/c`, but `/a` is not `a`.
pub open spec fn same_path(a: Seq<u8>, b: Seq<u8>) -> bool {
    absolute(a) == absolute(b) && components(a) == components(b)
}

/// The last component of a path, unless it is `.` or `..`.
pub open spec fn file_name(path: Seq<u8>) -> Option<Seq<u8>> {
    let parts = components(path);
    if parts.len() == 0 || parts.last() == seq![DOT] || parts.last() == seq![DOT, DOT] {
        None
    } else {
        Some(parts.last())
    }
}

/// `dir` with `name` below it: an absolute `name` takes the place of `dir`.
pub open spec fn pushed(dir: Seq<u8>, name: Seq<u8>) -> Seq<u8> {
    if absolute(name) {
        name
    } else if dir.len() == 0 || dir.last() == SLASH {
        dir + name
    } else {
        dir.push(SLASH) + name
    }
}

/// The text that stands for bytes that are not UTF-8: what
/// `String::from_utf8_lossy` makes of them.
pub uninterp spec fn lossy_utf8(bytes: Seq<u8>) -> Seq<char>;

/// The text of a path: its own characters where it is UTF-8.
pub open spec fn path_text(path: Seq<u8>) -> Seq<char> {
    if valid_utf8(path) {
        decode_utf8(path)
    } else {
        lossy_utf8(path)
    }
}

/// Calls `String::from_utf8_lossy`: UTF-8 comes back as its characters, and
/// anything else as a text that depends on the bytes alone and shows at least
/// one replacement character. Which characters stand around those is not
/// stated.
#[verifier::external_body]
fn lossy_string(bytes: &[u8]) -> (text: String)
    ensures
        valid_utf8(bytes@) ==> text@ == decode_utf8(bytes@),
        !valid_utf8(bytes@) ==> text@ == lossy_utf8(bytes@) && text@.contains('\u{FFFD}'),
{
    String::from_utf8_lossy(bytes).into_owned()
}

/// A copy of `bytes[from..to]`.
fn copy_range(bytes: &[u8], from: usize, to: usize) -> (copy: Vec<u8>)
    requires
        from <= to <= bytes@.len(),
    ensures
        copy@ == bytes@.subrange(from as int, to as int),
{
    let mut copy: Vec<u8> = Vec::new();
    let mut i: usize = from;
    while i < to
        invariant
            from <= i <= to <= bytes@.len(),
            copy@ == bytes@.subrange(from as int, i as int),
        decreases to - i,
    {
        copy.push(bytes[i]);
        i = i + 1;
    }
    copy
}

/// Whether two byte strings are equal.
fn same_bytes(a: &[u8], b: &[u8]) -> (same: bool)
    ensures
        same == (a@ == b@),
{
    if a.len() != b.len() {
        return false;
    }
    let mut i: usize = 0;
    while i < a.len()
        invariant
            i <= a@.len() == b@.len(),
            forall|k: int| 0 <= k < i ==> a@[k] == b@[k],
        decreases a@.len() - i,
    {
        if a[i] != b[i] {
            return false;
        }
        i = i + 1;
    }
    assert(a@ =~= b@);
    true
}

/// The views of a list of byte strings.
pub open spec fn byte_lists(lists: Seq<Vec<u8>>) -> Seq<Seq<u8>> {
    lists.map_values(|list: Vec<u8>| list@)
}

/// The views of a list of paths.
pub open spec fn path_views(paths: Seq<MediaPath>) -> Seq<Seq<u8>> {
    paths.map_values(|path: MediaPath| path@)
}

impl Clone for MediaPath {
    fn clone(&self) -> (copy: Self)
        ensures
            copy@ == self@,
    {
        MediaPath { bytes: copy_range(self.bytes.as_slice(), 0, self.bytes.len()) }
    }
}

impl MediaPath {
    /// The path that `text` spells.
    pub fn from_text(text: &str) -> (path: MediaPath)
        ensures
            path@ == encode_utf8(text@),
    {
        let bytes = text.as_bytes();
        MediaPath { bytes: copy_range(bytes, 0, bytes.len()) }
    }

    /// The path as text, with replacement characters where it is not UTF-8.
    pub fn to_text(&self) -> (text: String)
        ensures
            text@ == path_text(self@),
    {
        lossy_string(self.bytes.as_slice())
    }

    /// Whether the path starts at the root directory.
    pub fn is_absolute(&self) -> (answer: bool)
        ensures
            answer == absolute(self@),
    {
        self.bytes.len() > 0 && self.bytes[0] == SLASH
    }

    /// The components of the path, in order.
    pub fn components(&self) -> (parts: Vec<Vec<u8>>)
        ensures
            byte_lists(parts@) == components(self@),
    {
        let bytes = self.bytes.as_slice();
        let ghost path = self@;
        let mut parts: Vec<Vec<u8>> = Vec::new();
        let mut start: usize = 0;
        let mut leading: bool = true;
        assert(path.skip(0) =~= path);
        while start < bytes.len()
            invariant
                start <= bytes@.len(),
                bytes@ == path,
                components(path) == byte_lists(parts@) + components_from(
                    path.skip(start as int),
                    leading,
                ),
            decreases bytes@.len() - start,
        {
            let ghost left = path.skip(start as int);
            let mut end: usize = start;
            while end < bytes.len() && bytes[end] != SLASH
                invariant
                    start <= end <= bytes@.len(),
                    forall|k: int| start <= k < end ==> bytes@[k] != SLASH,
                decreases bytes@.len() - end,
            {
                end = end + 1;
            }
            proof {
                lemma_run_len_unique(left, SLASH, (end - start) as nat);
                assert(left.take(end - start) =~= path.subrange(start as int, end as int));
            }
            let skipped = end == start || (end - start == 1 && bytes[start] == DOT && !leading);
            let ghost before = parts@;
            if !skipped {
                parts.push(copy_range(bytes, start, end));
            }
            proof {
                let piece = path.subrange(start as int, end as int);
                if piece.len() == 1 && piece[0] == DOT {
                    assert(piece =~= seq![DOT]);
                }
                if !skipped {
                    assert(byte_lists(parts@) =~= byte_lists(before).push(piece));
                    assert(byte_lists(before) + (seq![piece] + components_from(
                        after_run(left, SLASH),
                        false,
                    )) =~= byte_lists(parts@) + components_from(after_run(left, SLASH), false));
                }
            }
            leading = false;
            start = if end < bytes.len() {
                end + 1
            } else {
                end
            };
            assert(path.skip(start as int) =~= after_run(left, SLASH));
        }
        assert(components_from(path.skip(start as int), leading) =~= Seq::empty());
        assert(byte_lists(parts@) + Seq::<Seq<u8>>::empty() =~= byte_lists(parts@));
        parts
    }

    /// Whether this path and `other` are the same, component by component.
    pub fn same(&self, other: &MediaPath) -> (answer: bool)
        ensures
            answer == same_path(self@, other@),
    {
        if self.is_absolute() != other.is_absolute() {
            return false;
        }
        let mine = self.components();
        let theirs = other.components();
        if mine.len() != theirs.len() {
            assert(byte_lists(mine@).len() != byte_lists(theirs@).len());
            return false;
        }
        let mut i: usize = 0;
        while i < mine.len()
            invariant
                i <= mine@.len() == theirs@.len(),
                forall|k: int| 0 <= k < i ==> mine@[k]@ == theirs@[k]@,
                byte_lists(mine@) == components(self@),
                byte_lists(theirs@) == components(other@),
            decreases mine@.len() - i,
        {
            if !same_bytes(mine[i].as_slice(), theirs[i].as_slice()) {
                assert(byte_lists(mine@)[i as int] != byte_lists(theirs@)[i as int]);
                return false;
            }
            i = i + 1;
        }
        assert(byte_lists(mine@) =~= byte_lists(theirs@));
        true
    }

    /// The name of the file, unless the path ends in `.`, in `..` or at the
    /// root directory.
    pub fn file_name(&self) -> (name: Option<Vec<u8>>)
        ensures
            match name {
                Some(bytes) => file_name(self@) == Some(bytes@),
                None => file_name(self@) is None,
            },
    {
        let mut parts = self.components();
        let ghost listed = byte_lists(parts@);
        match parts.pop() {
            None => None,
            Some(last) => {
                assert(listed.last() == last@);
                if last.len() == 1 && last[0] == DOT {
                    assert(last@ =~= seq![DOT]);
                    None
                } else if last.len() == 2 && last[0] == DOT && last[1] == DOT {
                    assert(last@ =~= seq![DOT, DOT]);
                    None
                } else {
                    Some(last)
                }
            },
        }
    }

    /// The path of `name` below this directory.
    pub fn join(&self, name: &str) -> (path: MediaPath)
        ensures
            path@ == pushed(self@, encode_utf8(name@)),
    {
        let mut tail = MediaPath::from_text(name);
        if tail.is_absolute() {
            return tail;
        }
        let mut path = self.clone();
        if path.bytes.len() > 0 && path.bytes[path.bytes.len() - 1] != SLASH {
            path.bytes.push(SLASH);
        }
        path.bytes.append(&mut tail.bytes);
        path
    }
}

/// The characters that `bytes` encode, where they are UTF-8.
pub fn utf8_text(bytes: &Vec<u8>) -> (text: Option<String>)
    ensures
        match text {
            Some(chars) => valid_utf8(bytes@) && chars@ == decode_utf8(bytes@),
            None => !valid_utf8(bytes@),
        },
{
    let text = lossy_string(bytes.as_slice());
    proof {
        encode_utf8_valid_utf8(text@);
        if valid_utf8(bytes@) {
            decode_utf8_encode_utf8(bytes@);
        }
    }
    if same_bytes(text.as_str().as_bytes(), bytes.as_slice()) {
        Some(text)
    } else {
        None
    }
}

} // verus!
