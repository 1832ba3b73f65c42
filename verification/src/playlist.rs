//! The playlist: which files of a directory listing are clips, the order they
//! play in, and moving along that order by index.

use crate::text;
use std::collections::hash_map::{DefaultHasher, RandomState};
use std::hash::{BuildHasher, Hasher};
use vstd::prelude::*;

verus! {

/// One clip of the playlist, as far as playback reads its path.
pub struct ClipFile {
    /// The full path, as text.
    pub path: String,
    /// The path's components, as bytes: what paths are ordered by.
    pub key: Vec<Vec<u8>>,
    /// The file name, when it is valid Unicode.
    pub name: Option<String>,
}

/// One file of a directory listing.
pub struct ListedFile {
    pub path: String,
    pub key: Vec<Vec<u8>>,
    pub name: Option<String>,
    /// The file name's extension, when it has one that is valid Unicode.
    pub extension: Option<String>,
}

/// A walk over a directory tree. A directory is known here by a number.
pub struct Scan {
    /// Directories found and not read yet.
    pub pending: Vec<u64>,
    /// Files found.
    pub files: Vec<ListedFile>,
}

/// Why a listing gives no playlist.
#[derive(Debug)]
pub enum ScanError {
    /// The directory holds no clip. An empty corpus is a deployment fault.
    NoClips { dir: String },
}

impl ScanError {
    /// The error in words.
    pub fn message(&self) -> (text: String)
        ensures
            text@ == (match *self {
                ScanError::NoClips { dir } => "no .mp4 files found in "@ + dir@,
            }),
    {
        match self {
            ScanError::NoClips { dir } => "no .mp4 files found in ".to_string().concat(dir.as_str()),
        }
    }
}

/// `a` comes before `b`, or is `b`, byte by byte.
pub open spec fn bytes_le(a: Seq<u8>, b: Seq<u8>) -> bool
    decreases a.len(),
{
    if a.len() == 0 {
        true
    } else if b.len() == 0 {
        false
    } else if a[0] == b[0] {
        bytes_le(a.drop_first(), b.drop_first())
    } else {
        a[0] < b[0]
    }
}

/// The bytes of a path's components.
pub open spec fn components(key: Vec<Vec<u8>>) -> Seq<Seq<u8>> {
    key@.map_values(|c: Vec<u8>| c@)
}

/// Path `a` comes before path `b`, or is `b`, component by component.
pub open spec fn path_le(a: Seq<Seq<u8>>, b: Seq<Seq<u8>>) -> bool
    decreases a.len(),
{
    if a.len() == 0 {
        true
    } else if b.len() == 0 {
        false
    } else if a[0] == b[0] {
        path_le(a.drop_first(), b.drop_first())
    } else {
        bytes_le(a[0], b[0])
    }
}

/// A listed file is a clip when its extension is `mp4`, in any case.
pub open spec fn is_clip(file: ListedFile) -> bool {
    file.extension matches Some(extension) && extension@.map_values(|c: char| text::ascii_lower(c))
        == "mp4"@.map_values(|c: char| text::ascii_lower(c))
}

/// The clip a listed file becomes.
pub open spec fn clip_of(file: ListedFile) -> ClipFile {
    ClipFile { path: file.path, key: file.key, name: file.name }
}

/// The clips among the listed files.
pub open spec fn clips_among(files: Seq<ListedFile>) -> Seq<ClipFile> {
    files.filter(|f: ListedFile| is_clip(f)).map_values(|f: ListedFile| clip_of(f))
}

/// `files` are in path order.
pub open spec fn in_path_order(files: Seq<ClipFile>) -> bool {
    forall|i: int, j: int|
        0 <= i <= j < files.len() ==> path_le(
            components(#[trigger] files[i].key),
            components(#[trigger] files[j].key),
        )
}

proof fn lemma_bytes_le_total(a: Seq<u8>, b: Seq<u8>)
    ensures
        bytes_le(a, b) || bytes_le(b, a),
        bytes_le(a, a),
    decreases a.len(),
{
    if a.len() > 0 {
        lemma_bytes_le_total(a.drop_first(), b.drop_first());
    }
}

proof fn lemma_bytes_le_antisymmetric(a: Seq<u8>, b: Seq<u8>)
    requires
        bytes_le(a, b),
        bytes_le(b, a),
    ensures
        a == b,
    decreases a.len(),
{
    if a.len() > 0 && b.len() > 0 {
        lemma_bytes_le_antisymmetric(a.drop_first(), b.drop_first());
        assert(a =~= seq![a[0]] + a.drop_first());
        assert(b =~= seq![b[0]] + b.drop_first());
    } else {
        assert(a =~= b);
    }
}

proof fn lemma_bytes_le_transitive(a: Seq<u8>, b: Seq<u8>, c: Seq<u8>)
    requires
        bytes_le(a, b),
        bytes_le(b, c),
    ensures
        bytes_le(a, c),
    decreases a.len(),
{
    if a.len() > 0 && b.len() > 0 && c.len() > 0 && a[0] == b[0] && b[0] == c[0] {
        lemma_bytes_le_transitive(a.drop_first(), b.drop_first(), c.drop_first());
    }
}

proof fn lemma_path_le_total(a: Seq<Seq<u8>>, b: Seq<Seq<u8>>)
    ensures
        path_le(a, b) || path_le(b, a),
        path_le(a, a),
    decreases a.len(),
{
    if a.len() > 0 {
        lemma_path_le_total(a.drop_first(), b.drop_first());
        if b.len() > 0 {
            lemma_bytes_le_total(a[0], b[0]);
        }
    }
}

proof fn lemma_path_le_transitive(a: Seq<Seq<u8>>, b: Seq<Seq<u8>>, c: Seq<Seq<u8>>)
    requires
        path_le(a, b),
        path_le(b, c),
    ensures
        path_le(a, c),
    decreases a.len(),
{
    if a.len() > 0 && b.len() > 0 && c.len() > 0 {
        if a[0] == b[0] && b[0] == c[0] {
            lemma_path_le_transitive(a.drop_first(), b.drop_first(), c.drop_first());
        } else if a[0] != b[0] && b[0] != c[0] {
            lemma_bytes_le_transitive(a[0], b[0], c[0]);
            if a[0] == c[0] {
                lemma_bytes_le_antisymmetric(a[0], b[0]);
            }
        }
    }
}

fn byte_string_le(a: &Vec<u8>, b: &Vec<u8>) -> (le: bool)
    ensures
        le == bytes_le(a@, b@),
{
    let mut i: usize = 0;
    assert(a@.skip(0) =~= a@);
    assert(b@.skip(0) =~= b@);
    while i < a.len()
        invariant
            i <= a.len(),
            i <= b.len(),
            bytes_le(a@, b@) == bytes_le(a@.skip(i as int), b@.skip(i as int)),
        decreases a.len() - i,
    {
        if i >= b.len() {
            return false;
        }
        if a[i] != b[i] {
            return a[i] < b[i];
        }
        assert(a@.skip(i as int).drop_first() =~= a@.skip(i as int + 1));
        assert(b@.skip(i as int).drop_first() =~= b@.skip(i as int + 1));
        i = i + 1;
    }
    true
}

fn same_bytes(a: &Vec<u8>, b: &Vec<u8>) -> (yes: bool)
    ensures
        yes == (a@ == b@),
{
    if a.len() != b.len() {
        return false;
    }
    let mut i: usize = 0;
    while i < a.len()
        invariant
            i <= a.len(),
            a.len() == b.len(),
            forall|j: int| 0 <= j < i ==> a[j] == b[j],
        decreases a.len() - i,
    {
        if a[i] != b[i] {
            return false;
        }
        i = i + 1;
    }
    assert(a@ =~= b@);
    true
}

fn path_key_le(a: &Vec<Vec<u8>>, b: &Vec<Vec<u8>>) -> (le: bool)
    ensures
        le == path_le(components(*a), components(*b)),
{
    let ghost sa = components(*a);
    let ghost sb = components(*b);
    let mut i: usize = 0;
    assert(sa.skip(0) =~= sa);
    assert(sb.skip(0) =~= sb);
    while i < a.len()
        invariant
            i <= a.len(),
            i <= b.len(),
            sa == components(*a),
            sb == components(*b),
            path_le(sa, sb) == path_le(sa.skip(i as int), sb.skip(i as int)),
        decreases a.len() - i,
    {
        if i >= b.len() {
            return false;
        }
        assert(sa.skip(i as int)[0] == a[i as int]@);
        assert(sb.skip(i as int)[0] == b[i as int]@);
        if !same_bytes(&a[i], &b[i]) {
            return byte_string_le(&a[i], &b[i]);
        }
        assert(sa.skip(i as int).drop_first() =~= sa.skip(i as int + 1));
        assert(sb.skip(i as int).drop_first() =~= sb.skip(i as int + 1));
        i = i + 1;
    }
    true
}

/// Put `clip` where path order wants it among `files`, before any file of the
/// same path.
fn insert_in_order(files: &mut Vec<ClipFile>, clip: ClipFile)
    requires
        in_path_order(old(files)@),
    ensures
        in_path_order(final(files)@),
        final(files)@.to_multiset() == old(files)@.to_multiset().insert(clip),
{
    let mut at: usize = 0;
    while at < files.len() && !path_key_le(&clip.key, &files[at].key)
        invariant
            at <= files.len(),
            files@ == old(files)@,
            forall|i: int| 0 <= i < at ==> !path_le(components(clip.key), components(#[trigger] files@[i].key)),
        decreases files.len() - at,
    {
        at = at + 1;
    }
    let ghost was = files@;
    files.insert(at, clip);
    proof {
        vstd::seq_lib::to_multiset_insert(was, at as int, clip);
        assert forall|i: int, j: int| 0 <= i <= j < files@.len() implies path_le(
            components(#[trigger] files@[i].key),
            components(#[trigger] files@[j].key),
        ) by {
            let k = components(clip.key);
            if i == at && j == at {
                lemma_path_le_total(k, k);
            } else if i == at {
                lemma_path_le_transitive(
                    k,
                    components(was[at as int].key),
                    components(was[j - 1].key),
                );
            } else if j == at {
                lemma_path_le_total(k, components(was[i].key));
            } else {
                let a = if i < at { was[i] } else { was[i - 1] };
                let b = if j < at { was[j] } else { was[j - 1] };
                assert(path_le(components(a.key), components(b.key)));
            }
        }
    }
}

/// The playlist of the files listed under `dir`: the clips among them, in path
/// order.
pub fn playlist_of(dir: &str, files: Vec<ListedFile>) -> (playlist: Result<Vec<ClipFile>, ScanError>)
    ensures
        playlist is Ok <==> clips_among(files@).len() > 0,
        playlist matches Ok(clips) ==> {
            &&& clips@.to_multiset() == clips_among(files@).to_multiset()
            &&& clips@.len() == clips_among(files@).len()
            &&& in_path_order(clips@)
            &&& forall|i: int, j: int|
                0 <= i <= j < clips@.len() ==> path_le(
                    (#[trigger] clips@[i]).key@.map_values(|c: Vec<u8>| c@),
                    (#[trigger] clips@[j]).key@.map_values(|c: Vec<u8>| c@),
                )
        },
        playlist matches Err(ScanError::NoClips { dir: d }) ==> d@ == dir@,
{
    let mut left: Vec<ListedFile> = files;
    let mut clips: Vec<ClipFile> = Vec::new();
    let ghost all = files@;
    proof {
        assert(all.skip(all.len() as int) =~= Seq::empty());
        assert(clips_among(Seq::empty()) =~= Seq::empty()) by {
            reveal(Seq::filter);
        }
    }
    loop
        invariant
            left@.len() <= all.len(),
            left@ == all.take(left@.len() as int),
            in_path_order(clips@),
            clips@.to_multiset() == clips_among(all.skip(left@.len() as int)).to_multiset(),
        ensures
            left@.len() == 0,
        decreases left@.len(),
    {
        let ghost n = left@.len() as int;
        match left.pop() {
            None => {
                break;
            },
            Some(file) => {
                proof {
                    assert(left@ =~= all.take(n - 1));
                    assert(file == all[n - 1]);
                    lemma_clips_among_front(all, n - 1);
                }
                let clip: bool = match &file.extension {
                    Some(extension) => text::same_ignoring_ascii_case(extension.as_str(), "mp4"),
                    None => false,
                };
                if clip {
                    let ListedFile { path, key, name, extension: _ } = file;
                    insert_in_order(&mut clips, ClipFile { path, key, name });
                }
            },
        }
    }
    assert(all.skip(0) =~= all);
    proof {
        vstd::seq_lib::to_multiset_len(clips@);
        vstd::seq_lib::to_multiset_len(clips_among(all));
    }
    if clips.len() == 0 {
        Err(ScanError::NoClips { dir: dir.to_string() })
    } else {
        Ok(clips)
    }
}

/// One more file in front adds its clip, when it is one.
proof fn lemma_clips_among_front(all: Seq<ListedFile>, i: int)
    requires
        0 <= i < all.len(),
    ensures
        clips_among(all.skip(i)).to_multiset() == (if is_clip(all[i]) {
            clips_among(all.skip(i + 1)).to_multiset().insert(clip_of(all[i]))
        } else {
            clips_among(all.skip(i + 1)).to_multiset()
        }),
{
    let pred = |f: ListedFile| is_clip(f);
    let view = |f: ListedFile| clip_of(f);
    let head = seq![all[i]];
    let tail = all.skip(i + 1);
    assert(all.skip(i) =~= head + tail);
    Seq::filter_distributes_over_add(head, tail, pred);
    assert(head.filter(pred) =~= if is_clip(all[i]) {
        head
    } else {
        Seq::empty()
    }) by {
        reveal(Seq::filter);
        assert(head.drop_last() =~= Seq::empty());
        assert(head.drop_last().filter(pred) =~= Seq::empty());
    }
    if is_clip(all[i]) {
        assert(clips_among(all.skip(i)) =~= clips_among(tail).insert(0, clip_of(all[i])));
        vstd::seq_lib::to_multiset_insert(clips_among(tail), 0, clip_of(all[i]));
    } else {
        assert(clips_among(all.skip(i)) =~= clips_among(tail));
    }
}

impl Scan {
    /// A walk that starts at `root`.
    pub fn new(root: u64) -> (scan: Scan)
        ensures
            scan.pending@ == seq![root],
            scan.files@ == Seq::<ListedFile>::empty(),
    {
        let mut pending: Vec<u64> = Vec::new();
        pending.push(root);
        assert(pending@ =~= seq![root]);
        Scan { pending, files: Vec::new() }
    }

    /// The directory to read next; `None` when the whole tree is read.
    pub fn next_dir(&mut self) -> (dir: Option<u64>)
        ensures
            final(self).files == old(self).files,
            old(self).pending@.len() == 0 ==> dir is None && final(self).pending@
                == old(self).pending@,
            old(self).pending@.len() > 0 ==> {
                &&& dir == Some(old(self).pending@.last())
                &&& final(self).pending@ == old(self).pending@.drop_last()
            },
    {
        self.pending.pop()
    }

    /// A directory was found in the one being read.
    pub fn found_dir(&mut self, dir: u64)
        ensures
            final(self).pending@ == old(self).pending@.push(dir),
            final(self).files == old(self).files,
    {
        self.pending.push(dir);
    }

    /// A file was found in the directory being read.
    pub fn found_file(&mut self, file: ListedFile)
        ensures
            final(self).files@ == old(self).files@.push(file),
            final(self).pending == old(self).pending,
    {
        self.files.push(file);
    }
}

/// A walk from `root` after `n` directories were read, as the directories read
/// and those pending; `subdirs` gives the directories in each.
pub open spec fn scanned(root: u64, subdirs: spec_fn(u64) -> Seq<u64>, n: nat) -> (
    Seq<u64>,
    Seq<u64>,
)
    decreases n,
{
    if n == 0 {
        (Seq::empty(), seq![root])
    } else {
        let (read, pending) = scanned(root, subdirs, (n - 1) as nat);
        if pending.len() == 0 {
            (read, pending)
        } else {
            (read.push(pending.last()), pending.drop_last() + subdirs(pending.last()))
        }
    }
}

proof fn lemma_scan_keeps_track(root: u64, subdirs: spec_fn(u64) -> Seq<u64>, n: nat)
    ensures
        ({
            let (read, pending) = scanned(root, subdirs, n);
            &&& read.contains(root) || pending.contains(root)
            &&& forall|dir: u64, sub: u64| #[trigger]
                read.contains(dir) && #[trigger] subdirs(dir).contains(sub) ==> read.contains(sub)
                    || pending.contains(sub)
        }),
    decreases n,
{
    if n == 0 {
        assert(seq![root][0] == root);
    } else {
        lemma_scan_keeps_track(root, subdirs, (n - 1) as nat);
        let (read, pending) = scanned(root, subdirs, (n - 1) as nat);
        if pending.len() > 0 {
            let last = pending.last();
            let read2 = read.push(last);
            let pending2 = pending.drop_last() + subdirs(last);
            assert(read2[read.len() as int] == last);
            assert forall|dir: u64| read.contains(dir) implies read2.contains(dir) by {
                let i = read.index_of(dir);
                assert(read2[i] == dir);
            }
            assert forall|dir: u64| pending.contains(dir) implies read2.contains(dir)
                || pending2.contains(dir) by {
                let i = pending.index_of(dir);
                if i < pending.len() - 1 {
                    assert(pending2[i] == dir);
                }
            }
            assert forall|sub: u64| subdirs(last).contains(sub) implies pending2.contains(sub) by {
                let i = subdirs(last).index_of(sub);
                assert(pending2[pending.len() - 1 + i] == sub);
            }
            assert forall|dir: u64, sub: u64| #[trigger]
                read2.contains(dir) && #[trigger] subdirs(dir).contains(
                sub,
            ) implies read2.contains(sub) || pending2.contains(sub) by {
                let i = read2.index_of(dir);
                if i < read.len() {
                    assert(read[i] == dir);
                    assert(read.contains(dir));
                }
            }
        }
    }
}

/// A finished walk has missed no directory: when none is pending, the root was
/// read, and so was every directory found in one that was read.
pub proof fn law_a_finished_scan_missed_nothing(root: u64, subdirs: spec_fn(u64) -> Seq<u64>, n: nat)
    requires
        scanned(root, subdirs, n).1.len() == 0,
    ensures
        scanned(root, subdirs, n).0.contains(root),
        forall|dir: u64, sub: u64| #[trigger]
            scanned(root, subdirs, n).0.contains(dir) && #[trigger] subdirs(dir).contains(sub)
                ==> scanned(root, subdirs, n).0.contains(sub),
{
    lemma_scan_keeps_track(root, subdirs, n);
}

/// How far a skip or a step back moves: a count below one is treated as one.
pub open spec fn at_least_one(n: int) -> int {
    if n < 1 {
        1
    } else {
        n
    }
}

/// Playlist index `n` clips forward of `active`, wrapping. `n < 1` is treated
/// as 1.
pub fn skip_index(active: usize, n: i32, len: usize) -> (index: usize)
    requires
        len > 0,
    ensures
        index == (active + at_least_one(n as int)) % (len as int),
        n >= 1 ==> index == (active + n) % (len as int),
        n < 1 ==> index == (active + 1) % (len as int),
        index < len,
{
    let by: u128 = if n < 1 { 1 } else { n as u128 };
    ((active as u128 + by) % (len as u128)) as usize
}

/// Playlist index `n` clips back of `active`, wrapping. `n < 1` is treated as
/// 1.
pub fn back_index(active: usize, n: i32, len: usize) -> (index: usize)
    requires
        len > 0,
    ensures
        index == (active - at_least_one(n as int)) % (len as int),
        n >= 1 ==> index == (active - n) % (len as int),
        n < 1 ==> index == (active - 1) % (len as int),
        index < len,
{
    let by: u128 = (if n < 1 { 1 } else { n as u128 }) % (len as u128);
    proof {
        let m = at_least_one(n as int);
        vstd::arithmetic::div_mod::lemma_sub_mod_noop_right(active as int, m, len as int);
        vstd::arithmetic::div_mod::lemma_mod_add_multiples_vanish(active - by, len as int);
    }
    ((active as u128 + len as u128 - by) % (len as u128)) as usize
}

/// Stepping back as many clips as were skipped, or skipping as many as were
/// stepped back, returns to the clip it started from.
pub proof fn law_back_undoes_skip(active: int, n: int, len: int)
    requires
        0 <= active < len,
    ensures
        ((active + n) % len - n) % len == active,
        ((active - n) % len + n) % len == active,
{
    vstd::arithmetic::div_mod::lemma_sub_mod_noop(active + n, n, len);
    vstd::arithmetic::div_mod::lemma_sub_mod_noop((active + n) % len, n, len);
    vstd::arithmetic::div_mod::lemma_mod_twice(active + n, len);
    vstd::arithmetic::div_mod::lemma_add_mod_noop(active - n, n, len);
    vstd::arithmetic::div_mod::lemma_add_mod_noop((active - n) % len, n, len);
    vstd::arithmetic::div_mod::lemma_mod_twice(active - n, len);
    vstd::arithmetic::div_mod::lemma_small_mod(active as nat, len as nat);
}

/// The clip a random draw picks out of `len`.
pub fn drawn_index(draw: u64, len: usize) -> (index: usize)
    requires
        len > 0,
    ensures
        index == draw as int % len as int,
        index < len,
{
    (draw as u128 % len as u128) as usize
}

/// `std::collections::hash_map::RandomState::new`: a hasher builder with keys
/// of its own. Nothing is claimed of the keys.
pub assume_specification[ RandomState::new ]() -> RandomState
;

/// `std::hash::BuildHasher::build_hasher` of `RandomState`: a hasher with the
/// builder's keys. Nothing is claimed of its state.
#[verifier::external_body]
fn keyed_hasher(state: &RandomState) -> DefaultHasher {
    state.build_hasher()
}

/// A number to pick a clip by: what a freshly keyed hasher makes of no input.
/// Good enough to pick a clip; no claim is made of its distribution.
pub(crate) fn random_draw() -> u64 {
    keyed_hasher(&RandomState::new()).finish()
}

/// Byte strings are ordered by the first byte in which they differ, by its
/// value: the smaller byte comes first.
pub proof fn law_bytes_are_ordered_by_their_first_difference(a: Seq<u8>, b: Seq<u8>, k: int)
    requires
        0 <= k < a.len(),
        k < b.len(),
        forall|j: int| 0 <= j < k ==> a[j] == b[j],
        a[k] < b[k],
    ensures
        bytes_le(a, b),
        !bytes_le(b, a),
    decreases k,
{
    if k > 0 {
        law_bytes_are_ordered_by_their_first_difference(a.drop_first(), b.drop_first(), k - 1);
    }
}

/// A byte string comes before every longer one that begins with it.
pub proof fn law_a_beginning_comes_first(a: Seq<u8>, rest: Seq<u8>)
    ensures
        bytes_le(a, a + rest),
        rest.len() > 0 ==> !bytes_le(a + rest, a),
    decreases a.len(),
{
    if a.len() > 0 {
        assert((a + rest).drop_first() =~= a.drop_first() + rest);
        law_a_beginning_comes_first(a.drop_first(), rest);
    }
}

proof fn lemma_paths_differ_at(a: Seq<Seq<u8>>, b: Seq<Seq<u8>>, k: int)
    requires
        0 <= k < a.len(),
        k < b.len(),
        forall|j: int| 0 <= j < k ==> a[j] == b[j],
        a[k] != b[k],
    ensures
        path_le(a, b) == bytes_le(a[k], b[k]),
    decreases k,
{
    if k > 0 {
        lemma_paths_differ_at(a.drop_first(), b.drop_first(), k - 1);
    }
}

/// Paths are ordered by the first component in which they differ, and that by
/// the first byte in which it differs: the smaller byte comes first.
pub proof fn law_paths_are_ordered_by_their_first_difference(
    a: Seq<Seq<u8>>,
    b: Seq<Seq<u8>>,
    k: int,
    m: int,
)
    requires
        0 <= k < a.len(),
        k < b.len(),
        forall|j: int| 0 <= j < k ==> a[j] == b[j],
        0 <= m < a[k].len(),
        m < b[k].len(),
        forall|j: int| 0 <= j < m ==> a[k][j] == b[k][j],
        a[k][m] < b[k][m],
    ensures
        path_le(a, b),
        !path_le(b, a),
{
    assert(a[k] != b[k]);
    lemma_paths_differ_at(a, b, k);
    lemma_paths_differ_at(b, a, k);
    law_bytes_are_ordered_by_their_first_difference(a[k], b[k], m);
}

/// A component comes before every longer one that begins with it, whatever
/// follows in the two paths.
pub proof fn law_a_shorter_component_comes_first(
    a: Seq<Seq<u8>>,
    b: Seq<Seq<u8>>,
    k: int,
    rest: Seq<u8>,
)
    requires
        0 <= k < a.len(),
        k < b.len(),
        forall|j: int| 0 <= j < k ==> a[j] == b[j],
        rest.len() > 0,
        b[k] == a[k] + rest,
    ensures
        path_le(a, b),
        !path_le(b, a),
{
    assert(a[k].len() != b[k].len());
    lemma_paths_differ_at(a, b, k);
    lemma_paths_differ_at(b, a, k);
    law_a_beginning_comes_first(a[k], rest);
}

/// A path comes before every longer one that begins with its components, and is
/// in order with itself.
pub proof fn law_a_directory_comes_before_what_is_in_it(a: Seq<Seq<u8>>, rest: Seq<Seq<u8>>)
    ensures
        path_le(a, a + rest),
        rest.len() > 0 ==> !path_le(a + rest, a),
    decreases a.len(),
{
    if a.len() > 0 {
        assert((a + rest).drop_first() =~= a.drop_first() + rest);
        law_a_directory_comes_before_what_is_in_it(a.drop_first(), rest);
    }
}

/// The components of a path are those of its key, each as it is.
pub proof fn law_components_are_the_keys(key: Vec<Vec<u8>>)
    ensures
        components(key).len() == key@.len(),
        forall|i: int| 0 <= i < key@.len() ==> components(key)[i] == #[trigger] key@[i]@,
{
}

/// Files in path order hold none that comes after a later one, wherever the two
/// stand.
pub proof fn law_order_holds_between_any_two(files: Seq<ClipFile>, i: int, j: int)
    requires
        in_path_order(files),
        0 <= i <= j < files.len(),
    ensures
        path_le(components(files[i].key), components(files[j].key)),
{
    assert(path_le(components(files[i].key), components(files[j].key)));
}

/// A file is a clip exactly when its extension is the three letters `mp4`, the
/// first two in either case.
pub proof fn law_a_clip_is_told_by_its_extension(file: ListedFile)
    ensures
        is_clip(file) <==> file.extension is Some && ({
            let e = file.extension->0@;
            &&& e.len() == 3
            &&& e[0] == 'm' || e[0] == 'M'
            &&& e[1] == 'p' || e[1] == 'P'
            &&& e[2] == '4'
        }),
{
    reveal_strlit("mp4");
    let low = |c: char| text::ascii_lower(c);
    let want = "mp4"@.map_values(low);
    if file.extension is Some {
        let e = file.extension->0@;
        let got = e.map_values(low);
        if is_clip(file) {
            assert(got.len() == want.len());
            assert(got[0] == want[0] && got[1] == want[1] && got[2] == want[2]);
            assert(low(e[0]) == low('m') && low(e[1]) == low('p') && low(e[2]) == low('4'));
        } else if e.len() == 3 && (e[0] == 'm' || e[0] == 'M') && (e[1] == 'p' || e[1] == 'P')
            && e[2] == '4' {
            assert(got =~= want);
        }
    }
}

/// The clips of one listing after another are the clips of the first, then
/// those of the second; of one file, the clip it is, with its path, key and
/// name, or none.
pub proof fn law_clips_are_taken_file_by_file(
    first: Seq<ListedFile>,
    second: Seq<ListedFile>,
    file: ListedFile,
)
    ensures
        clips_among(first + second) == clips_among(first) + clips_among(second),
        clips_among(Seq::empty()) == Seq::<ClipFile>::empty(),
        clips_among(seq![file]) == (if is_clip(file) {
            seq![ClipFile { path: file.path, key: file.key, name: file.name }]
        } else {
            Seq::empty()
        }),
{
    let pred = |f: ListedFile| is_clip(f);
    Seq::filter_distributes_over_add(first, second, pred);
    assert(clips_among(first + second) =~= clips_among(first) + clips_among(second));
    reveal(Seq::filter);
    assert(Seq::<ListedFile>::empty().filter(pred) =~= Seq::empty());
    assert(clips_among(Seq::empty()) =~= Seq::<ClipFile>::empty());
    assert(seq![file].drop_last() =~= Seq::empty());
    assert(seq![file].filter(pred) =~= if is_clip(file) {
        seq![file]
    } else {
        Seq::empty()
    });
    assert(clips_among(seq![file]) =~= (if is_clip(file) {
        seq![ClipFile { path: file.path, key: file.key, name: file.name }]
    } else {
        Seq::empty()
    }));
}

/// A move goes as many clips as it asks for, however many, and one when it asks
/// for fewer than one.
pub proof fn law_a_move_goes_as_far_as_asked(active: int, n: int, len: int)
    requires
        len > 0,
    ensures
        n >= 1 ==> (active + at_least_one(n)) % len == (active + n) % len,
        n >= 1 ==> (active - at_least_one(n)) % len == (active - n) % len,
        n < 1 ==> (active + at_least_one(n)) % len == (active + 1) % len,
        n < 1 ==> (active - at_least_one(n)) % len == (active - 1) % len,
{
}

/// Moves add up: skipping `n` clips and one more lands where skipping `n + 1`
/// does, and so for steps back.
pub proof fn law_one_clip_more_is_one_clip_further(active: int, n: int, len: int)
    requires
        len > 0,
        n >= 1,
    ensures
        ((active + at_least_one(n)) % len + 1) % len == (active + at_least_one(n + 1)) % len,
        ((active - at_least_one(n)) % len - 1) % len == (active - at_least_one(n + 1)) % len,
{
    vstd::arithmetic::div_mod::lemma_add_mod_noop(active + n, 1, len);
    vstd::arithmetic::div_mod::lemma_add_mod_noop((active + n) % len, 1, len);
    vstd::arithmetic::div_mod::lemma_mod_twice(active + n, len);
    vstd::arithmetic::div_mod::lemma_sub_mod_noop(active - n, 1, len);
    vstd::arithmetic::div_mod::lemma_sub_mod_noop((active - n) % len, 1, len);
    vstd::arithmetic::div_mod::lemma_mod_twice(active - n, len);
}

} // verus!
