//! The gem file system: a cache of file contents keyed by file name, with
//! the SHA-256 digest of each file cached through `cache_file`, so that the
//! cached copy can later be checked against the file on disk.
//!
//! Reading the disk is left to the caller: each operation that needs the
//! file on disk takes what the disk held for that name (`None` when there
//! is no such file), and decides what to cache and what to answer.

use vstd::prelude::*;
use vstd::hash_map::StringHashMap;
use vstd::string::StringExecFns;
use vstd::string::StrSliceExecFns;

verus! {

/// The SHA-256 digest of `data`, as computed by the `sha2` crate.
pub uninterp spec fn sha256_digest(data: Seq<u8>) -> Seq<u8>;

/// Calls `sha2::Sha256::digest` (through the `Digest` trait) on `data` and
/// returns the digest as a vector. Claimed: the result is the digest named
/// by `sha256_digest` of the bytes of `data`, and it is 32 bytes long (the
/// output size of SHA-256).
#[verifier::external_body]
fn sha256(data: &[u8]) -> (digest: Vec<u8>)
    ensures
        digest@ == sha256_digest(data@),
        digest@.len() == 32,
{
    <sha2::Sha256 as sha2::Digest>::digest(data).to_vec()
}

/// The SHA-256 digest of the whole of `data`.
pub fn process(data: &[u8]) -> (digest: Vec<u8>)
    ensures
        digest@ == sha256_digest(data@),
        digest@.len() == 32,
{
    sha256(data)
}

/// The two digests agree on every byte that both have.
pub open spec fn digests_agree(a: Seq<u8>, b: Seq<u8>) -> bool {
    forall|i: int| 0 <= i < a.len() && i < b.len() ==> a[i] == b[i]
}

/// Compares two digests byte by byte over their common length.
pub fn digests_match(disk_file_hash: &Vec<u8>, cached_file_hash: &Vec<u8>) -> (same: bool)
    ensures
        same == digests_agree(disk_file_hash@, cached_file_hash@),
{
    let n = if disk_file_hash.len() < cached_file_hash.len() {
        disk_file_hash.len()
    } else {
        cached_file_hash.len()
    };
    let mut diff_count: usize = 0;
    let mut i: usize = 0;
    while i < n
        invariant
            n <= disk_file_hash@.len(),
            n <= cached_file_hash@.len(),
            n == disk_file_hash@.len() || n == cached_file_hash@.len(),
            i <= n,
            diff_count <= i,
            diff_count == 0 <==> forall|j: int| 0 <= j < i ==> disk_file_hash@[j] == cached_file_hash@[j],
        decreases n - i,
    {
        if disk_file_hash[i] != cached_file_hash[i] {
            diff_count = diff_count + 1;
        }
        i = i + 1;
    }
    diff_count == 0
}

/// The pieces of `s` between the `'/'` separators, in order: the empty
/// string gives one empty piece, and each separator starts a new piece.
pub open spec fn split_on_slash(s: Seq<char>) -> Seq<Seq<char>>
    decreases s.len(),
{
    if s.len() == 0 {
        seq![Seq::<char>::empty()]
    } else {
        let pieces = split_on_slash(s.drop_last());
        if s.last() == '/' {
            pieces.push(Seq::<char>::empty())
        } else {
            pieces.update(pieces.len() - 1, pieces.last().push(s.last()))
        }
    }
}

pub proof fn lemma_split_nonempty(s: Seq<char>)
    ensures
        split_on_slash(s).len() >= 1,
    decreases s.len(),
{
    if s.len() > 0 {
        lemma_split_nonempty(s.drop_last());
    }
}

pub open spec fn string_views(v: Seq<String>) -> Seq<Seq<char>> {
    v.map_values(|p: String| p@)
}

/// The components of the relative path `file_name`, split at every `'/'`;
/// the file system joins them under its root to find the file on disk.
pub fn path_components(file_name: &str) -> (components: Vec<String>)
    ensures
        string_views(components@) == split_on_slash(file_name@),
{
    let n = file_name.unicode_len();
    let mut components: Vec<String> = Vec::new();
    let mut start: usize = 0;
    let mut i: usize = 0;
    assert(string_views(components@) =~= Seq::<Seq<char>>::empty());
    assert(file_name@.take(0) =~= Seq::<char>::empty());
    assert(file_name@.subrange(0, 0) =~= Seq::<char>::empty());
    assert(string_views(components@).push(file_name@.subrange(0, 0)) =~= seq![Seq::<char>::empty()]);
    while i < n
        invariant
            n == file_name@.len(),
            start <= i <= n,
            string_views(components@).push(file_name@.subrange(start as int, i as int))
                == split_on_slash(file_name@.take(i as int)),
        decreases n - i,
    {
        let c = file_name.get_char(i);
        proof {
            let t = file_name@.take(i as int + 1);
            assert(t.drop_last() =~= file_name@.take(i as int));
            assert(t.last() == c);
            lemma_split_nonempty(file_name@.take(i as int));
        }
        if c == '/' {
            let ghost views0 = string_views(components@);
            let piece = String::from_str(file_name.substring_char(start, i));
            components.push(piece);
            assert(string_views(components@) =~= views0.push(file_name@.subrange(start as int, i as int)));
            start = i + 1;
            assert(file_name@.subrange(start as int, i as int + 1) =~= Seq::<char>::empty());
            assert(string_views(components@).push(file_name@.subrange(start as int, i as int + 1))
                =~= split_on_slash(file_name@.take(i as int + 1)));
        } else {
            assert(file_name@.subrange(start as int, i as int + 1)
                =~= file_name@.subrange(start as int, i as int).push(c));
            assert(string_views(components@).push(file_name@.subrange(start as int, i as int + 1))
                =~= split_on_slash(file_name@.take(i as int + 1)));
        }
        i = i + 1;
    }
    let ghost views0 = string_views(components@);
    let last = String::from_str(file_name.substring_char(start, n));
    components.push(last);
    assert(string_views(components@) =~= views0.push(file_name@.subrange(start as int, n as int)));
    assert(file_name@.take(n as int) =~= file_name@);
    assert(string_views(components@) =~= split_on_slash(file_name@));
    components
}

/// The cached files and their digests.
#[verifier::reject_recursive_types(T)]
pub struct Cache<T> {
    /// File contents by file name.
    pub indexer: StringHashMap<Vec<T>>,
    /// SHA-256 digests by file name.
    pub sha_2: StringHashMap<Vec<u8>>,
}

impl<T> Cache<T> {
    pub fn new() -> (cache: Cache<T>)
        ensures
            cache.files() == Map::<Seq<char>, Seq<T>>::empty(),
            cache.hashes() == Map::<Seq<char>, Seq<u8>>::empty(),
    {
        let cache = Cache { indexer: StringHashMap::new(), sha_2: StringHashMap::new() };
        assert(cache.files() =~= Map::<Seq<char>, Seq<T>>::empty());
        assert(cache.hashes() =~= Map::<Seq<char>, Seq<u8>>::empty());
        cache
    }

    /// Contents of the cached files, by file name.
    pub open spec fn files(&self) -> Map<Seq<char>, Seq<T>> {
        self.indexer@.map_values(|v: Vec<T>| v@)
    }

    /// Cached digests, by file name.
    pub open spec fn hashes(&self) -> Map<Seq<char>, Seq<u8>> {
        self.sha_2@.map_values(|v: Vec<u8>| v@)
    }
}

/// Whether a cached file still has the digest of the file on disk.
#[derive(Clone, Copy, Debug, PartialEq, Eq)]
pub enum FileSyncState {
    HashMatch,
    HashUnmatch,
}

/// Why a request to the file system failed; each error names the file.
#[derive(Debug)]
pub enum GfsError {
    /// The file is not in the cache, so its synchronicity cannot be checked.
    NotInCache(String),
    /// The file is neither in the cache nor on disk, or not on disk.
    NotFound(String),
}

impl GfsError {
    /// The name of the file that the error is about.
    pub open spec fn file_name(&self) -> Seq<char> {
        match self {
            GfsError::NotInCache(name) => name@,
            GfsError::NotFound(name) => name@,
        }
    }

    /// The message that reports the error.
    pub fn message(&self) -> (msg: String)
        ensures
            msg@ == match self {
                GfsError::NotInCache(name) => "Resource not found in cache, cannot check for synchronicity"@ + name@,
                GfsError::NotFound(name) => "Resource not found at path: "@ + name@,
            },
    {
        match self {
            GfsError::NotInCache(name) => {
                let mut err = String::from_str("Resource not found in cache, cannot check for synchronicity");
                err.append(name.as_str());
                err
            },
            GfsError::NotFound(name) => {
                let mut err = String::from_str("Resource not found at path: ");
                err.append(name.as_str());
                err
            },
        }
    }
}

/// A file system that loads files through its cache.
pub trait ReadFile<T> {
    /// Loads `file_name`: from the cache when it is there, else from
    /// `disk_file`, which is what the disk holds under that name.
    fn load(&mut self, file_name: String, disk_file: Option<Vec<u8>>) -> Result<Vec<u8>, GfsError>;
}

/// The gem file system rooted at `root`.
#[verifier::reject_recursive_types(T)]
pub struct GemFileSystem<T> {
    pub cache: Cache<T>,
    pub root: String,
}

/// The text of the path `path` in the alternate `Debug` format of
/// `std::path::Path`.
pub uninterp spec fn path_debug_text(path: Seq<char>) -> Seq<char>;

/// Formats `std::path::Path::new(path)` with `{:#?}` (the `Debug` impl of
/// `Path`, which quotes and escapes the path). Claimed: the text is the one
/// named by `path_debug_text` of `path`.
#[verifier::external_body]
fn path_debug(path: &str) -> (text: String)
    ensures
        text@ == path_debug_text(path@),
{
    format!("{:#?}", std::path::Path::new(path))
}

impl<T> GemFileSystem<T> {
    /// The text that describes the file system: its root path.
    pub fn to_string(&self) -> (text: String)
        ensures
            text@ == "ResourceLoader Path: "@ + path_debug_text(self.root@),
    {
        let mut text = String::from_str("ResourceLoader Path: ");
        let root = path_debug(self.root.as_str());
        text.append(root.as_str());
        text
    }

    /// Contents of the cached files, by file name.
    pub open spec fn files(&self) -> Map<Seq<char>, Seq<T>> {
        self.cache.files()
    }

    /// Cached digests, by file name.
    pub open spec fn hashes(&self) -> Map<Seq<char>, Seq<u8>> {
        self.cache.hashes()
    }
}

/// The answer of a synchronicity check of `name` against `disk_file`, given
/// the cached files and digests.
pub open spec fn sync_answer(
    files: Map<Seq<char>, Seq<u8>>,
    hashes: Map<Seq<char>, Seq<u8>>,
    name: Seq<char>,
    disk_file: Option<Seq<u8>>,
    answer: Result<FileSyncState, GfsError>,
) -> bool {
    if !files.contains_key(name) {
        answer matches Err(e) && e is NotInCache && e.file_name() == name
    } else {
        match disk_file {
            None => answer matches Err(e) && e is NotFound && e.file_name() == name,
            Some(d) => answer == if digests_agree(sha256_digest(d), hashes[name]) {
                Ok::<FileSyncState, GfsError>(FileSyncState::HashMatch)
            } else {
                Ok::<FileSyncState, GfsError>(FileSyncState::HashUnmatch)
            },
        }
    }
}

/// What `load` of `name` gives back, given the cached files and what the
/// disk holds under that name.
pub open spec fn load_answer(
    files: Map<Seq<char>, Seq<u8>>,
    name: Seq<char>,
    disk_file: Option<Seq<u8>>,
    answer: Result<Vec<u8>, GfsError>,
) -> bool {
    if files.contains_key(name) {
        answer matches Ok(v) && v@ == files[name]
    } else {
        match disk_file {
            Some(d) => answer matches Ok(v) && v@ == d,
            None => answer matches Err(e) && e is NotFound && e.file_name() == name,
        }
    }
}

/// The cached files after `load` of `name`: a file found on disk is added.
pub open spec fn files_after_load(
    files: Map<Seq<char>, Seq<u8>>,
    name: Seq<char>,
    disk_file: Option<Seq<u8>>,
) -> Map<Seq<char>, Seq<u8>> {
    if files.contains_key(name) {
        files
    } else {
        match disk_file {
            Some(d) => files.insert(name, d),
            None => files,
        }
    }
}

pub open spec fn opt_view(o: Option<Vec<u8>>) -> Option<Seq<u8>> {
    match o {
        Some(v) => Some(v@),
        None => None,
    }
}

impl GemFileSystem<u8> {
    /// An empty file system rooted at `root`.
    pub fn new(root: String) -> (gfs: GemFileSystem<u8>)
        ensures
            gfs.root == root,
            gfs.files() == Map::<Seq<char>, Seq<u8>>::empty(),
            gfs.hashes() == Map::<Seq<char>, Seq<u8>>::empty(),
    {
        GemFileSystem { cache: Cache::new(), root }
    }

    /// Caches `file_name` and its digest when the file is on disk
    /// (`disk_file` is its contents); does nothing otherwise.
    pub fn cache_file(&mut self, file_name: &String, disk_file: Option<Vec<u8>>)
        ensures
            final(self).root == old(self).root,
            match disk_file {
                Some(d) => {
                    &&& final(self).files() == old(self).files().insert(file_name@, d@)
                    &&& final(self).hashes() == old(self).hashes().insert(file_name@, sha256_digest(d@))
                },
                None => {
                    &&& final(self).files() == old(self).files()
                    &&& final(self).hashes() == old(self).hashes()
                },
            },
    {
        match disk_file {
            Some(file_ptr) => {
                let digest = process(file_ptr.as_slice());
                let ghost d = file_ptr@;
                let ghost files0 = self.files();
                let ghost hashes0 = self.hashes();
                self.cache.indexer.insert(file_name.clone(), file_ptr);
                self.cache.sha_2.insert(file_name.clone(), digest);
                assert(self.files() =~= files0.insert(file_name@, d));
                assert(self.hashes() =~= hashes0.insert(file_name@, sha256_digest(d)));
            },
            None => {},
        }
    }

    /// Caches `file_name` when the file is on disk (`disk_file` is its
    /// contents) and returns the contents; returns `None` otherwise. The
    /// digest is not cached.
    pub fn fetch_and_cache_file(&mut self, file_name: &String, disk_file: Option<Vec<u8>>) -> (fetched: Option<Vec<u8>>)
        ensures
            final(self).root == old(self).root,
            final(self).hashes() == old(self).hashes(),
            opt_view(fetched) == opt_view(disk_file),
            match disk_file {
                Some(d) => final(self).files() == old(self).files().insert(file_name@, d@),
                None => final(self).files() == old(self).files(),
            },
    {
        match disk_file {
            Some(file_ptr) => {
                let ghost files0 = self.files();
                let copy = vstd::slice::slice_to_vec(file_ptr.as_slice());
                self.cache.indexer.insert(file_name.clone(), copy);
                assert(self.files() =~= files0.insert(file_name@, file_ptr@));
                Some(file_ptr)
            },
            None => None,
        }
    }

    /// Checks the cached copy of `file_name` against the file on disk
    /// (`disk_file` is its contents, `None` when there is no such file) by
    /// comparing the cached digest with the digest of the file on disk.
    pub fn check_for_sync_file(&mut self, file_name: String, disk_file: Option<Vec<u8>>) -> (answer: Result<FileSyncState, GfsError>)
        requires
            old(self).files().contains_key(file_name@) && disk_file is Some
                ==> old(self).hashes().contains_key(file_name@),
        ensures
            *final(self) == *old(self),
            sync_answer(old(self).files(), old(self).hashes(), file_name@, opt_view(disk_file), answer),
    {
        if !self.cache.indexer.contains_key(file_name.as_str()) {
            return Err(GfsError::NotInCache(file_name));
        }
        match disk_file {
            None => Err(GfsError::NotFound(file_name)),
            Some(disk_file) => {
                let disk_file_hash = process(disk_file.as_slice());
                let cached = self.cache.sha_2.get(file_name.as_str());
                match cached {
                    Some(cached_file_hash) => {
                        if digests_match(&disk_file_hash, cached_file_hash) {
                            Ok(FileSyncState::HashMatch)
                        } else {
                            Ok(FileSyncState::HashUnmatch)
                        }
                    },
                    None => {
                        // A cached file checked against a file on disk has a
                        // cached digest, by the precondition.
                        proof {
                            assert(self.hashes().contains_key(file_name@));
                            assert(false);
                        }
                        Err(GfsError::NotFound(file_name))
                    },
                }
            },
        }
    }
}

impl ReadFile<u8> for GemFileSystem<u8> {
    fn load(&mut self, file_name: String, disk_file: Option<Vec<u8>>) -> (answer: Result<Vec<u8>, GfsError>)
        ensures
            final(self).root == old(self).root,
            final(self).hashes() == old(self).hashes(),
            final(self).files() == files_after_load(old(self).files(), file_name@, opt_view(disk_file)),
            load_answer(old(self).files(), file_name@, opt_view(disk_file), answer),
    {
        match self.cache.indexer.get(file_name.as_str()) {
            Some(file) => {
                let copy = vstd::slice::slice_to_vec(file.as_slice());
                Ok(copy)
            },
            None => {
                if let Some(file_ptr) = self.fetch_and_cache_file(&file_name, disk_file) {
                    Ok(file_ptr)
                } else {
                    Err(GfsError::NotFound(file_name))
                }
            },
        }
    }
}

/// A file cached by `cache_file` is what `load` then gives back, whatever
/// the disk holds by then.
pub proof fn law_load_returns_cached_file(
    files: Map<Seq<char>, Seq<u8>>,
    name: Seq<char>,
    contents: Seq<u8>,
    disk_file: Option<Seq<u8>>,
    answer: Result<Vec<u8>, GfsError>,
)
    requires
        load_answer(files.insert(name, contents), name, disk_file, answer),
    ensures
        answer matches Ok(v) && v@ == contents,
{
}

/// Right after `cache_file` cached a file, checking it against the same
/// contents on disk finds the digests matching.
pub proof fn law_cached_file_is_in_sync(
    files: Map<Seq<char>, Seq<u8>>,
    hashes: Map<Seq<char>, Seq<u8>>,
    name: Seq<char>,
    contents: Seq<u8>,
    answer: Result<FileSyncState, GfsError>,
)
    requires
        sync_answer(
            files.insert(name, contents),
            hashes.insert(name, sha256_digest(contents)),
            name,
            Some(contents),
            answer,
        ),
    ensures
        answer == Ok::<FileSyncState, GfsError>(FileSyncState::HashMatch),
{
}

/// A load that succeeded leaves the file in the cache: loading it again
/// gives the same contents, whatever the disk holds, and changes nothing.
pub proof fn law_load_is_stable(
    files: Map<Seq<char>, Seq<u8>>,
    name: Seq<char>,
    first_disk_file: Option<Seq<u8>>,
    second_disk_file: Option<Seq<u8>>,
    first: Result<Vec<u8>, GfsError>,
    second: Result<Vec<u8>, GfsError>,
)
    requires
        load_answer(files, name, first_disk_file, first),
        first is Ok,
        load_answer(files_after_load(files, name, first_disk_file), name, second_disk_file, second),
    ensures
        second matches Ok(v2) && first matches Ok(v1) && v1@ == v2@,
        files_after_load(files_after_load(files, name, first_disk_file), name, second_disk_file)
            == files_after_load(files, name, first_disk_file),
{
}

/// A file that is neither cached nor on disk cannot be loaded, and the
/// failed load changes nothing.
pub proof fn law_missing_file_is_not_found(
    files: Map<Seq<char>, Seq<u8>>,
    name: Seq<char>,
    answer: Result<Vec<u8>, GfsError>,
)
    requires
        !files.contains_key(name),
        load_answer(files, name, None, answer),
    ensures
        answer matches Err(e) && e is NotFound && e.file_name() == name,
        files_after_load(files, name, None) == files,
{
}

/// Loading, fetching or caching one file leaves every other cached file
/// as it was.
pub proof fn law_other_files_unchanged(
    files: Map<Seq<char>, Seq<u8>>,
    name: Seq<char>,
    other: Seq<char>,
    disk_file: Option<Seq<u8>>,
)
    requires
        other != name,
    ensures
        files_after_load(files, name, disk_file).contains_key(other) == files.contains_key(other),
        files.contains_key(other) ==> files_after_load(files, name, disk_file)[other] == files[other],
{
}

} // verus!
