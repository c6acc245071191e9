//! A skin's sandboxed asset index: which names resolve to which files, the `..` guard that keeps
//! lookups inside the skin directory, image decoding to RGBA8, and font data.

use vstd::prelude::*;
use std::sync::Arc;
use std::hash::Hasher;
use std::collections::hash_map::DefaultHasher;
use vstd::std_specs::hash::DefaultHasherAdditionalSpecFns;
use crate::text::{chars_of, find_spec, find, lemma_first_from, string_from_chars};

verus! {

/// A decoded, ready-to-upload raster image: tightly packed 8-bit RGBA rows.
#[derive(Debug, Clone, PartialEq)]
pub struct DecodedImage {
    /// Pixel data, `width * height * 4` bytes, row-major, RGBA8 (non-premultiplied).
    pub rgba: Vec<u8>,
    /// Width in pixels.
    pub width: u32,
    /// Height in pixels.
    pub height: u32,
}

/// Failure modes for asset lookups and decoding.
#[derive(Debug)]
pub enum AssetError {
    /// The requested name isn't in the index (missing, symlinked-away, or a `..` traversal
    /// attempt rejected outright).
    Unresolved(String),
    /// The underlying file could not be read from disk.
    Io(String),
    /// The bytes were read but failed to decode as the requested asset type.
    Decode(String),
}

/// What a directory walk found at one path.
#[derive(Clone, Copy, Debug, PartialEq, Eq, Structural)]
pub enum EntryKind {
    /// A regular file.
    File,
    /// A directory (its contents are listed as entries of their own).
    Dir,
    /// A symbolic link (never followed).
    Symlink,
    /// Anything else (socket, device, ...).
    Other,
}

/// One entry of a recursive listing of the asset directory.
#[derive(Clone, Debug)]
pub struct ListedEntry {
    /// The entry's path relative to the asset directory, as the platform prints it.
    pub rel: String,
    /// The entry's full path, as handed back to the reader.
    pub path: String,
    /// What the entry is (not following symlinks).
    pub kind: EntryKind,
}

/// A decoded font's bytes plus a content-addressed id for cache keying.
#[derive(Debug)]
pub struct FontData {
    /// The raw font file bytes (e.g. TTF/OTF).
    pub bytes: Arc<[u8]>,
    /// Content-addressed id (hash of `bytes`), stable across allocations.
    pub id: u64,
}

/// The `count` low-order bytes of `n`, least significant first.
pub open spec fn le_bytes(n: nat, count: nat) -> Seq<u8>
    decreases count,
{
    if count == 0 {
        Seq::empty()
    } else {
        seq![(n % 256) as u8] + le_bytes(n / 256, (count - 1) as nat)
    }
}

/// `usize::to_ne_bytes`: the memory representation of `n` in the target's byte order, which is
/// little-endian or big-endian. That is all that is claimed of it, for the order is the
/// machine's.
#[verifier::external_body]
fn native_bytes(n: usize) -> (p: Vec<u8>)
    ensures
        p@ == le_bytes(n as nat, (usize::BITS / 8) as nat) || p@ == le_bytes(
            n as nat,
            (usize::BITS / 8) as nat,
        ).reverse(),
{
    n.to_ne_bytes().to_vec()
}

impl FontData {
    /// Wraps font bytes with a content-addressed id: the `DefaultHasher` digest of the bytes as
    /// `Hash` feeds them (the length as a `usize` in the target's byte order, then the bytes),
    /// stable across allocations so renderer caches never confuse two different fonts.
    pub fn new(bytes: Arc<[u8]>) -> (f: Self)
        ensures
            f.bytes@ == bytes@,
            f.id == DefaultHasher::spec_finish(
                seq![le_bytes(bytes@.len(), (usize::BITS / 8) as nat), bytes@],
            ) || f.id == DefaultHasher::spec_finish(
                seq![le_bytes(bytes@.len(), (usize::BITS / 8) as nat).reverse(), bytes@],
            ),
    {
        let mut h = DefaultHasher::new();
        let prefix = native_bytes(bytes.len());
        h.write(prefix.as_slice());
        h.write(&bytes);
        assert(h@ =~= seq![prefix@, bytes@]);
        let id = h.finish();
        FontData { id, bytes }
    }
}

/// `rel` with every `\` turned into `/`: the key an asset is looked up by.
pub open spec fn key_spec(rel: Seq<char>) -> Seq<char> {
    Seq::new(rel.len(), |i: int| if rel[i] == '\\' { '/' } else { rel[i] })
}

/// The lookup key of a listed path: `\` separators normalized to `/`.
pub fn index_key(rel: &str) -> (k: String)
    ensures
        k@ == key_spec(rel@),
{
    let cs = chars_of(rel);
    let mut out: Vec<char> = Vec::new();
    let mut i: usize = 0;
    while i < cs.len()
        invariant
            i <= cs.len(),
            cs@ == rel@,
            out@ == key_spec(rel@).take(i as int),
        decreases cs.len() - i,
    {
        let c = cs[i];
        out.push(if c == '\\' { '/' } else { c });
        assert(out@ =~= key_spec(rel@).take(i + 1));
        i += 1;
    }
    assert(key_spec(rel@).take(cs.len() as int) =~= key_spec(rel@));
    string_from_chars(&out)
}

/// The index a listing produces: every regular file, keyed by its normalized relative path;
/// a later entry under the same key replaces an earlier one. Directories, symlinks and other
/// entries are left out (symlinks so that an asset link cannot escape the skin directory).
pub open spec fn listing_index(listing: Seq<ListedEntry>) -> Map<Seq<char>, Seq<char>>
    decreases listing.len(),
{
    if listing.len() == 0 {
        Map::empty()
    } else {
        let e = listing.last();
        let prev = listing_index(listing.drop_last());
        if e.kind == EntryKind::File {
            prev.insert(key_spec(e.rel@), e.path@)
        } else {
            prev
        }
    }
}

/// Where `name` resolves in `index`: nowhere when it contains `..` or is not indexed.
pub open spec fn locate_spec(index: Map<Seq<char>, Seq<char>>, name: Seq<char>) -> Option<
    Seq<char>,
> {
    if find_spec(name, seq!['.', '.']) is Some || !index.contains_key(name) {
        None
    } else {
        Some(index[name])
    }
}

/// Type-agnostic, sandboxed asset index: a map from asset name to file path.
pub struct AssetResolver {
    index: Vec<(String, String)>,
}

impl View for AssetResolver {
    type V = Map<Seq<char>, Seq<char>>;

    closed spec fn view(&self) -> Map<Seq<char>, Seq<char>> {
        Map::new(
            |k: Seq<char>| exists|i: int| 0 <= i < self.index.len() && self.index@[i].0@ == k,
            |k: Seq<char>|
                self.index@[choose|i: int| 0 <= i < self.index.len() && self.index@[i].0@ == k].1@,
        )
    }
}

impl AssetResolver {
    /// No name occurs twice in the index.
    pub closed spec fn wf(&self) -> bool {
        forall|i: int, j: int|
            0 <= i < self.index.len() && 0 <= j < self.index.len() && i != j
                ==> self.index@[i].0@ != self.index@[j].0@
    }

    /// An empty resolver — for inline skins with no assets. Every lookup is `Unresolved`.
    pub fn empty() -> (r: Self)
        ensures
            r.wf(),
            r@ == Map::<Seq<char>, Seq<char>>::empty(),
    {
        let r = AssetResolver { index: Vec::new() };
        assert(r@ =~= Map::<Seq<char>, Seq<char>>::empty());
        r
    }

    /// Position of `key` in the index, if present.
    fn position(&self, key: &String) -> (p: Option<usize>)
        requires
            self.wf(),
        ensures
            p matches Some(i) ==> i < self.index.len() && self.index@[i as int].0@ == key@,
            p is None ==> forall|i: int| 0 <= i < self.index.len() ==> self.index@[i].0@ != key@,
    {
        let mut i: usize = 0;
        while i < self.index.len()
            invariant
                i <= self.index.len(),
                forall|j: int| 0 <= j < i ==> self.index@[j].0@ != key@,
            decreases self.index.len() - i,
        {
            if self.index[i].0 == *key {
                return Some(i);
            }
            i += 1;
        }
        None
    }

    proof fn lemma_view_at(&self, i: int)
        requires
            self.wf(),
            0 <= i < self.index.len(),
        ensures
            self@.contains_key(self.index@[i].0@),
            self@[self.index@[i].0@] == self.index@[i].1@,
    {
        let k = self.index@[i].0@;
        assert(exists|m: int| 0 <= m < self.index.len() && self.index@[m].0@ == k);
        let c = choose|m: int| 0 <= m < self.index.len() && self.index@[m].0@ == k;
        assert(c == i);
    }

    /// Sets `key` to `path`, replacing any earlier path under the same key.
    fn insert(&mut self, key: String, path: String)
        requires
            old(self).wf(),
        ensures
            final(self).wf(),
            final(self)@ == old(self)@.insert(key@, path@),
    {
        let ghost k = key@;
        let ghost p = path@;
        let ghost mut at: int = 0;
        match self.position(&key) {
            Some(i) => {
                self.index.set(i, (key, path));
                proof {
                    at = i as int;
                }
            },
            None => {
                self.index.push((key, path));
                proof {
                    at = self.index.len() - 1;
                }
            },
        }
        assert(0 <= at < self.index.len() && self.index@[at].0@ == k);
        assert forall|q: Seq<char>| #[trigger] self@.contains_key(q) <==> old(self)@.insert(
            k,
            p,
        ).contains_key(q) by {
            if old(self)@.contains_key(q) && q != k {
                let c = choose|m: int| 0 <= m < old(self).index.len() && old(self).index@[m].0@ == q;
                assert(self.index@[c].0@ == q);
            }
            if self@.contains_key(q) && q != k {
                let c = choose|m: int| 0 <= m < self.index.len() && self.index@[m].0@ == q;
                assert(old(self).index@[c].0@ == q);
            }
            if q == k {
                assert(self.index@[at].0@ == k);
            }
        }
        assert forall|q: Seq<char>| #[trigger] self@.contains_key(q) implies self@[q] == old(
            self,
        )@.insert(k, p)[q] by {
            let c = choose|m: int| 0 <= m < self.index.len() && self.index@[m].0@ == q;
            self.lemma_view_at(c);
            if q != k {
                old(self).lemma_view_at(c);
            }
        }
        assert(self@ =~= old(self)@.insert(k, p));
    }

    /// Builds the index from a recursive listing of the asset directory: every regular file,
    /// keyed by its relative path with `/` separators. Symlinks are skipped so that an asset
    /// link cannot escape the skin directory.
    pub fn resolve(listing: &Vec<ListedEntry>) -> (r: Self)
        ensures
            r.wf(),
            r@ == listing_index(listing@),
    {
        let mut r = AssetResolver::empty();
        let mut i: usize = 0;
        while i < listing.len()
            invariant
                i <= listing.len(),
                r.wf(),
                r@ == listing_index(listing@.take(i as int)),
            decreases listing.len() - i,
        {
            let e = &listing[i];
            assert(listing@.take(i + 1).drop_last() =~= listing@.take(i as int));
            if e.kind == EntryKind::File {
                let key = index_key(e.rel.as_str());
                r.insert(key, e.path.clone());
            }
            i += 1;
        }
        assert(listing@.take(listing.len() as int) =~= listing@);
        r
    }

    /// Where the file named `name` lives. A name containing `..` is refused outright (sandbox
    /// safety) before the index is consulted; a name the index lacks is `Unresolved` too.
    pub fn locate(&self, name: &str) -> (r: Result<String, AssetError>)
        requires
            self.wf(),
        ensures
            match r {
                Ok(p) => locate_spec(self@, name@) == Some(p@),
                Err(AssetError::Unresolved(n)) => locate_spec(self@, name@) is None && n@ == name@,
                Err(_) => false,
            },
    {
        let cs = chars_of(name);
        let dots = vec!['.', '.'];
        assert(dots@ =~= seq!['.', '.']);
        if find(&cs, &dots).is_some() {
            return Err(AssetError::Unresolved(name.to_owned()));
        }
        let key = name.to_owned();
        match self.position(&key) {
            Some(i) => {
                proof {
                    self.lemma_view_at(i as int);
                }
                Ok(self.index[i].1.clone())
            },
            None => Err(AssetError::Unresolved(key)),
        }
    }
}

/// Decodes image file bytes (PNG, JPEG, GIF, BMP) to tightly packed RGBA8 through the `image`
/// crate's `load_from_memory`, `to_rgba8` and `into_raw`: the pixels, width and height, or the
/// error's message. Which decoder runs is the crate's choice (it guesses the format from the bytes
/// and consults the decoding hooks registered in the process), so no more is claimed of a
/// success than what every RGBA8 buffer the crate builds holds: four bytes per pixel.
#[verifier::external_body]
fn decode_rgba8(bytes: &[u8]) -> (r: Result<(Vec<u8>, u32, u32), String>)
    ensures
        r matches Ok((rgba, w, h)) ==> rgba@.len() == (w as int) * (h as int) * 4,
{
    match image::load_from_memory(bytes) {
        Ok(img) => {
            let rgba = img.to_rgba8();
            let (w, h) = (rgba.width(), rgba.height());
            Ok((rgba.into_raw(), w, h))
        },
        Err(e) => Err(format!("{e}")),
    }
}

/// What a decode comes to as an asset: the image, or a [`AssetError::Decode`] with the
/// decoder's message.
pub fn image_from_decode(decoded: Result<(Vec<u8>, u32, u32), String>) -> (r: Result<
    DecodedImage,
    AssetError,
>)
    ensures
        match decoded {
            Ok((rgba, w, h)) => r matches Ok(img) && img.rgba@ == rgba@ && img.width == w
                && img.height == h,
            Err(m) => r matches Err(AssetError::Decode(e)) && e@ == m@,
        },
{
    match decoded {
        Ok((rgba, width, height)) => Ok(DecodedImage { rgba, width, height }),
        Err(msg) => Err(AssetError::Decode(msg)),
    }
}

/// Decodes asset bytes as an image; a failure becomes [`AssetError::Decode`] with the
/// decoder's message. The bytes go to the decoder unchanged and what it answers is handed to
/// [`image_from_decode`]; a decoded image holds four bytes per pixel.
pub fn decode_image(bytes: &[u8]) -> (r: Result<DecodedImage, AssetError>)
    ensures
        r matches Ok(img) ==> img.rgba@.len() == (img.width as int) * (img.height as int) * 4,
        r matches Err(e) ==> e is Decode,
{
    image_from_decode(decode_rgba8(bytes))
}

/// Only regular files are ever indexed: every name the index resolves was listed as a file
/// (never a symlink or a directory), under its normalized relative path.
pub proof fn lemma_index_holds_only_files(listing: Seq<ListedEntry>, key: Seq<char>)
    requires
        listing_index(listing).contains_key(key),
    ensures
        exists|i: int|
            0 <= i < listing.len() && listing[i].kind == EntryKind::File && #[trigger] key_spec(
                listing[i].rel@,
            ) == key && listing_index(listing)[key] == listing[i].path@,
    decreases listing.len(),
{
    let n = listing.len() - 1;
    let e = listing.last();
    if e.kind == EntryKind::File && key_spec(e.rel@) == key {
        assert(key_spec(listing[n].rel@) == key);
    } else {
        lemma_index_holds_only_files(listing.drop_last(), key);
        let i = choose|i: int|
            0 <= i < listing.drop_last().len() && listing.drop_last()[i].kind == EntryKind::File
                && #[trigger] key_spec(listing.drop_last()[i].rel@) == key && listing_index(
                listing.drop_last(),
            )[key] == listing.drop_last()[i].path@;
        assert(listing[i] == listing.drop_last()[i]);
    }
}

/// Every listed regular file is indexed under its normalized relative path, at its own path,
/// unless a later file under the same key replaced it.
pub proof fn lemma_listed_file_is_indexed(listing: Seq<ListedEntry>, i: int)
    requires
        0 <= i < listing.len(),
        listing[i].kind == EntryKind::File,
        forall|j: int|
            i < j < listing.len() && #[trigger] listing[j].kind == EntryKind::File ==> key_spec(
                listing[j].rel@,
            ) != key_spec(listing[i].rel@),
    ensures
        listing_index(listing).contains_key(key_spec(listing[i].rel@)),
        listing_index(listing)[key_spec(listing[i].rel@)] == listing[i].path@,
    decreases listing.len(),
{
    let n = listing.len() - 1;
    if i < n {
        let prefix = listing.drop_last();
        assert forall|j: int|
            i < j < prefix.len() && #[trigger] prefix[j].kind == EntryKind::File implies key_spec(
            prefix[j].rel@,
        ) != key_spec(prefix[i].rel@) by {
            assert(prefix[j] == listing[j]);
        }
        lemma_listed_file_is_indexed(prefix, i);
        assert(prefix[i] == listing[i]);
        if listing[n].kind == EntryKind::File {
            assert(key_spec(listing[n].rel@) != key_spec(listing[i].rel@));
        }
    }
}

/// A listed regular file resolves by its normalized relative path to its own path, when no later
/// file took that name and the name holds no `..`.
pub proof fn lemma_listed_file_resolves(listing: Seq<ListedEntry>, i: int)
    requires
        0 <= i < listing.len(),
        listing[i].kind == EntryKind::File,
        forall|j: int|
            i < j < listing.len() && #[trigger] listing[j].kind == EntryKind::File ==> key_spec(
                listing[j].rel@,
            ) != key_spec(listing[i].rel@),
        find_spec(key_spec(listing[i].rel@), seq!['.', '.']) is None,
    ensures
        locate_spec(listing_index(listing), key_spec(listing[i].rel@)) == Some(listing[i].path@),
{
    lemma_listed_file_is_indexed(listing, i);
}

/// A name containing `..` never resolves, whatever the index holds.
pub proof fn lemma_traversal_never_resolves(index: Map<Seq<char>, Seq<char>>, name: Seq<char>)
    requires
        find_spec(name, seq!['.', '.']) is Some,
    ensures
        locate_spec(index, name) is None,
{
}

/// The empty resolver resolves nothing.
pub proof fn lemma_empty_resolves_nothing(name: Seq<char>)
    ensures
        locate_spec(Map::empty(), name) is None,
{
}

/// The lookup key differs from the listed path only where the path has a backslash: every other
/// character is kept in place, and each backslash becomes `/`.
pub proof fn lemma_key_changes_only_backslashes(rel: Seq<char>)
    ensures
        key_spec(rel).len() == rel.len(),
        forall|i: int| 0 <= i < rel.len() && rel[i] != '\\' ==> #[trigger] key_spec(rel)[i] == rel[i],
        forall|i: int| 0 <= i < rel.len() && rel[i] == '\\' ==> #[trigger] key_spec(rel)[i] == '/',
        (forall|i: int| 0 <= i < rel.len() ==> #[trigger] rel[i] != '\\') ==> key_spec(rel) == rel,
{
    if forall|i: int| 0 <= i < rel.len() ==> #[trigger] rel[i] != '\\' {
        assert(key_spec(rel) =~= rel);
    }
}

/// A listed regular file whose relative path has no backslash and no `..` resolves under that
/// very path, to its own full path, when no later file took the name.
pub proof fn lemma_plain_path_resolves_as_listed(listing: Seq<ListedEntry>, i: int)
    requires
        0 <= i < listing.len(),
        listing[i].kind == EntryKind::File,
        forall|k: int| 0 <= k < listing[i].rel@.len() ==> #[trigger] listing[i].rel@[k] != '\\',
        find_spec(listing[i].rel@, seq!['.', '.']) is None,
        forall|j: int|
            i < j < listing.len() && #[trigger] listing[j].kind == EntryKind::File ==> key_spec(
                listing[j].rel@,
            ) != listing[i].rel@,
    ensures
        locate_spec(listing_index(listing), listing[i].rel@) == Some(listing[i].path@),
{
    lemma_key_changes_only_backslashes(listing[i].rel@);
    lemma_listed_file_resolves(listing, i);
}

} // verus!
