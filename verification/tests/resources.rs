use gem::gfs::{
    digests_match, path_components, process, Cache, FileSyncState, GemFileSystem, GfsError,
    ReadFile,
};
use gem::shader::{compiled_shader_path, shader_type_for_extension, str_equals, ShaderType};
use gem::system::Inbox;

const ABC_SHA256: [u8; 32] = [
    0xba, 0x78, 0x16, 0xbf, 0x8f, 0x01, 0xcf, 0xea, 0x41, 0x41, 0x40, 0xde, 0x5d, 0xae, 0x22,
    0x23, 0xb0, 0x03, 0x61, 0xa3, 0x96, 0x17, 0x7a, 0x9c, 0xb4, 0x10, 0xff, 0x61, 0xf2, 0x00,
    0x15, 0xad,
];

fn name(s: &str) -> String {
    s.to_string()
}

#[test]
fn process_is_sha256() {
    assert_eq!(process(b"abc"), ABC_SHA256.to_vec());
    let empty = process(&[]);
    assert_eq!(empty.len(), 32);
    assert_eq!(&empty[..4], &[0xe3, 0xb0, 0xc4, 0x42]);
}

#[test]
fn digests_match_compares_common_prefix() {
    assert!(digests_match(&vec![1, 2, 3], &vec![1, 2, 3]));
    assert!(!digests_match(&vec![1, 2, 3], &vec![1, 9, 3]));
    assert!(digests_match(&vec![1, 2], &vec![1, 2, 3]));
    assert!(digests_match(&vec![], &vec![4]));
}

#[test]
fn new_file_system_is_empty() {
    let gfs = GemFileSystem::new(name("res"));
    assert_eq!(gfs.root, "res");
    assert!(gfs.cache.indexer.is_empty());
    assert!(gfs.cache.sha_2.is_empty());
    let cache: Cache<u32> = Cache::new();
    assert_eq!(cache.indexer.len(), 0);
}

#[test]
fn cached_file_is_loaded_from_cache() {
    let mut gfs = GemFileSystem::new(name("res"));
    gfs.cache_file(&name("a.txt"), Some(vec![1, 2, 3]));
    assert_eq!(gfs.cache.sha_2.get("a.txt").unwrap().len(), 32);
    let loaded = gfs.load(name("a.txt"), Some(vec![9, 9])).unwrap();
    assert_eq!(loaded, vec![1, 2, 3]);
    assert_eq!(gfs.load(name("a.txt"), None).unwrap(), vec![1, 2, 3]);
}

#[test]
fn uncached_file_is_loaded_from_disk_and_cached() {
    let mut gfs = GemFileSystem::new(name("res"));
    let loaded = gfs.load(name("models/Chest.obj"), Some(vec![5, 6])).unwrap();
    assert_eq!(loaded, vec![5, 6]);
    assert_eq!(gfs.cache.indexer.get("models/Chest.obj"), Some(&vec![5, 6]));
    assert!(gfs.cache.sha_2.is_empty());
    assert_eq!(gfs.load(name("models/Chest.obj"), Some(vec![7])).unwrap(), vec![5, 6]);
}

#[test]
fn missing_file_is_not_found() {
    let mut gfs = GemFileSystem::new(name("res"));
    match gfs.load(name("nothing.bin"), None) {
        Err(GfsError::NotFound(file)) => assert_eq!(file, "nothing.bin"),
        other => panic!("unexpected answer {:?}", other),
    }
    assert!(gfs.cache.indexer.is_empty());
}

#[test]
fn fetch_and_cache_file_returns_contents() {
    let mut gfs = GemFileSystem::new(name("res"));
    assert_eq!(gfs.fetch_and_cache_file(&name("x"), None), None);
    assert!(gfs.cache.indexer.is_empty());
    assert_eq!(gfs.fetch_and_cache_file(&name("x"), Some(vec![3])), Some(vec![3]));
    assert_eq!(gfs.cache.indexer.get("x"), Some(&vec![3]));
}

#[test]
fn cache_file_without_disk_file_changes_nothing() {
    let mut gfs = GemFileSystem::new(name("res"));
    gfs.cache_file(&name("gone"), None);
    assert!(gfs.cache.indexer.is_empty());
    assert!(gfs.cache.sha_2.is_empty());
}

#[test]
fn sync_check_matches_same_contents() {
    let mut gfs = GemFileSystem::new(name("res"));
    gfs.cache_file(&name("abc"), Some(b"abc".to_vec()));
    assert_eq!(gfs.cache.sha_2.get("abc"), Some(&ABC_SHA256.to_vec()));
    assert_eq!(gfs.check_for_sync_file(name("abc"), Some(b"abc".to_vec())).unwrap(), FileSyncState::HashMatch);
    assert_eq!(gfs.check_for_sync_file(name("abc"), Some(b"abd".to_vec())).unwrap(), FileSyncState::HashUnmatch);
}

#[test]
fn sync_check_errors() {
    let mut gfs = GemFileSystem::new(name("res"));
    match gfs.check_for_sync_file(name("a"), Some(vec![1])) {
        Err(GfsError::NotInCache(file)) => assert_eq!(file, "a"),
        other => panic!("unexpected answer {:?}", other),
    }
    gfs.cache_file(&name("a"), Some(vec![1]));
    match gfs.check_for_sync_file(name("a"), None) {
        Err(GfsError::NotFound(file)) => assert_eq!(file, "a"),
        other => panic!("unexpected answer {:?}", other),
    }
}

#[test]
fn error_messages_name_the_file() {
    assert_eq!(
        GfsError::NotInCache(name("f.txt")).message(),
        "Resource not found in cache, cannot check for synchronicityf.txt"
    );
    assert_eq!(GfsError::NotFound(name("f.txt")).message(), "Resource not found at path: f.txt");
}

#[test]
fn path_components_split_at_slashes() {
    assert_eq!(path_components("models/Chest.obj"), vec!["models", "Chest.obj"]);
    assert_eq!(path_components("shaders/gen/object.vert.spv"), vec!["shaders", "gen", "object.vert.spv"]);
    assert_eq!(path_components(""), vec![""]);
    assert_eq!(path_components("a//b/"), vec!["a", "", "b", ""]);
    assert_eq!(path_components("/"), vec!["", ""]);
    assert_eq!(path_components("ü/ß"), vec!["ü", "ß"]);
}

#[test]
fn shader_kinds_by_extension() {
    assert_eq!(shader_type_for_extension("vert"), Some(ShaderType::Vertex));
    assert_eq!(shader_type_for_extension("frag"), Some(ShaderType::Fragment));
    assert_eq!(shader_type_for_extension("comp"), None);
    assert_eq!(shader_type_for_extension("verts"), None);
    assert_eq!(shader_type_for_extension(""), None);
}

#[test]
fn compiled_shader_goes_to_gen() {
    assert_eq!(compiled_shader_path("object.vert"), "res/shaders/gen/object.vert.spv");
    assert_eq!(compiled_shader_path(""), "res/shaders/gen/.spv");
}

#[test]
fn str_equals_compares_characters() {
    assert!(str_equals("abc", "abc"));
    assert!(!str_equals("abc", "abd"));
    assert!(!str_equals("ab", "abc"));
    assert!(str_equals("", ""));
}

struct Mailbox {
    packages: Vec<u32>,
}

impl Inbox<u32> for Mailbox {
    fn push(&mut self, package: u32) {
        self.packages.push(package);
    }
}

#[test]
fn inbox_can_be_implemented() {
    let mut mailbox = Mailbox { packages: vec![] };
    mailbox.push(4);
    mailbox.push(2);
    assert_eq!(mailbox.packages, vec![4, 2]);
}
