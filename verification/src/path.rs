//! File paths as the watcher reads them: a directory, a stem and an extension.

use crate::text::{bytes_eq, text_eq};
use vstd::prelude::*;
use vstd::string::*;

verus! {

/// A piece of a path. The file system allows names that are not Unicode; of those only the
/// raw bytes are known.
#[derive(Debug)]
pub enum OsText {
    Unicode(String),
    Other(Vec<u8>),
}

/// The contents of an [`OsText`].
pub enum OsTextView {
    Unicode(Seq<char>),
    Other(Seq<u8>),
}

impl View for OsText {
    type V = OsTextView;

    open spec fn view(&self) -> OsTextView {
        match self {
            OsText::Unicode(s) => OsTextView::Unicode(s@),
            OsText::Other(b) => OsTextView::Other(b@),
        }
    }
}

impl OsText {
    /// Whether two pieces are equal.
    pub fn same(&self, other: &OsText) -> (res: bool)
        ensures
            res == (self@ == other@),
    {
        match (self, other) {
            (OsText::Unicode(a), OsText::Unicode(b)) => text_eq(a.as_str(), b.as_str()),
            (OsText::Other(a), OsText::Other(b)) => bytes_eq(a.as_slice(), b.as_slice()),
            _ => false,
        }
    }
}

/// The text of an optional piece, or `default` where there is none or it is not Unicode.
pub open spec fn text_or(piece: Option<OsTextView>, default: Seq<char>) -> Seq<char> {
    match piece {
        Some(OsTextView::Unicode(s)) => s,
        _ => default,
    }
}

/// The contents of an optional piece.
pub open spec fn piece_view(piece: Option<OsText>) -> Option<OsTextView> {
    match piece {
        Some(t) => Some(t@),
        None => None,
    }
}

/// The text of an optional piece, or `default` where there is none or it is not Unicode.
pub fn piece_text(piece: &Option<OsText>, default: &str) -> (res: String)
    ensures
        res@ == text_or(piece_view(*piece), default@),
{
    match piece {
        Some(OsText::Unicode(s)) => s.as_str().to_owned(),
        _ => default.to_owned(),
    }
}

/// Whether two optional pieces are equal.
pub fn same_piece(a: &Option<OsText>, b: &Option<OsText>) -> (res: bool)
    ensures
        res == (piece_view(*a) == piece_view(*b)),
{
    match (a, b) {
        (Some(x), Some(y)) => x.same(y),
        (None, None) => true,
        _ => false,
    }
}

/// The path of a file: its directory, and its name split at the last dot into stem and
/// extension. Together the three pieces determine the path.
#[derive(Debug)]
pub struct FilePath {
    pub parent: OsText,
    pub stem: OsText,
    pub ext: Option<OsText>,
}

/// The contents of a [`FilePath`].
pub struct PathView {
    pub parent: OsTextView,
    pub stem: OsTextView,
    pub ext: Option<OsTextView>,
}

impl View for FilePath {
    type V = PathView;

    open spec fn view(&self) -> PathView {
        PathView { parent: self.parent@, stem: self.stem@, ext: piece_view(self.ext) }
    }
}

impl FilePath {
    /// Whether two paths are equal.
    pub fn same(&self, other: &FilePath) -> (res: bool)
        ensures
            res == (self@ == other@),
    {
        self.parent.same(&other.parent) && self.stem.same(&other.stem) && same_piece(
            &self.ext,
            &other.ext,
        )
    }
}

// ---------------------------------------------------------------------------
// Hashing
// ---------------------------------------------------------------------------

/// The bytes of a piece of a path.
pub open spec fn piece_bytes(t: OsTextView) -> Seq<u8> {
    match t {
        OsTextView::Unicode(s) => vstd::utf8::encode_utf8(s),
        OsTextView::Other(b) => b,
    }
}

/// One step of the hash: mixes a byte into the value so far.
pub open spec fn mix(h: u64, b: u8) -> u64 {
    (h ^ (b as u64)).wrapping_mul(0x100000001b3u64)
}

/// The hash of a byte string, from the value `h` on.
pub open spec fn hash_bytes(h: u64, s: Seq<u8>) -> u64
    decreases s.len(),
{
    if s.len() == 0 {
        h
    } else {
        mix(hash_bytes(h, s.drop_last()), s.last())
    }
}

/// The hash of a path.
pub open spec fn path_hash(p: PathView) -> u64 {
    let h = mix(hash_bytes(0xcbf29ce484222325u64, piece_bytes(p.parent)), 0u8);
    let h = mix(hash_bytes(h, piece_bytes(p.stem)), 0u8);
    match p.ext {
        Some(e) => hash_bytes(h, piece_bytes(e)),
        None => h,
    }
}

fn mix_byte(h: u64, b: u8) -> (res: u64)
    ensures
        res == mix(h, b),
{
    (h ^ (b as u64)).wrapping_mul(0x100000001b3u64)
}

fn mix_bytes(h: u64, s: &[u8]) -> (res: u64)
    ensures
        res == hash_bytes(h, s@),
{
    let mut res: u64 = h;
    let mut i: usize = 0;
    while i < s.len()
        invariant
            i <= s@.len(),
            res == hash_bytes(h, s@.take(i as int)),
        decreases s@.len() - i,
    {
        assert(s@.take(i + 1).drop_last() =~= s@.take(i as int));
        res = mix_byte(res, s[i]);
        i += 1;
    }
    assert(s@.take(s@.len() as int) =~= s@);
    res
}

fn mix_piece(h: u64, t: &OsText) -> (res: u64)
    ensures
        res == hash_bytes(h, piece_bytes(t@)),
{
    match t {
        OsText::Unicode(s) => mix_bytes(h, s.as_str().as_bytes()),
        OsText::Other(b) => mix_bytes(h, b.as_slice()),
    }
}

impl FilePath {
    /// The hash of the path: equal paths have equal hashes.
    pub fn hash_code(&self) -> (res: u64)
        ensures
            res == path_hash(self@),
    {
        let h: u64 = mix_byte(mix_piece(0xcbf29ce484222325u64, &self.parent), 0u8);
        let h: u64 = mix_byte(mix_piece(h, &self.stem), 0u8);
        match &self.ext {
            Some(e) => mix_piece(h, e),
            None => h,
        }
    }
}

/// Two pieces are the same just where both are Unicode and have the same characters, or neither is
/// and they have the same bytes.
pub proof fn law_pieces_are_told_apart(a: OsText, b: OsText)
    ensures
        a@ == b@ <==> match (a, b) {
            (OsText::Unicode(s), OsText::Unicode(t)) => s@ == t@,
            (OsText::Other(s), OsText::Other(t)) => s@ == t@,
            _ => false,
        },
{
}

/// Two paths are the same just where their directories, their stems and their extensions are. No
/// extension is none of the extensions.
pub proof fn law_paths_are_told_apart(a: FilePath, b: FilePath)
    ensures
        a@ == b@ <==> a.parent@ == b.parent@ && a.stem@ == b.stem@ && match (a.ext, b.ext) {
            (Some(x), Some(y)) => x@ == y@,
            (None, None) => true,
            _ => false,
        },
{
}

/// The text of a piece that is Unicode is that text, whatever the default; any other piece, and
/// none, has the default.
pub proof fn law_the_text_of_a_piece(s: Seq<char>, raw: Seq<u8>, default: Seq<char>)
    ensures
        text_or(Some(OsTextView::Unicode(s)), default) == s,
        text_or(Some(OsTextView::Other(raw)), default) == default,
        text_or(None, default) == default,
{
}

/// What is read of a piece of a path is its characters, where it is Unicode.
pub proof fn law_a_piece_is_read_as_it_is(s: String, raw: Vec<u8>, default: Seq<char>)
    ensures
        text_or(piece_view(Some(OsText::Unicode(s))), default) == s@,
        text_or(piece_view(Some(OsText::Other(raw))), default) == default,
        text_or(piece_view(None), default) == default,
{
}

} // verus!
