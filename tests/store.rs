use std::collections::{HashMap, HashSet};
use std::path::{Path, PathBuf};

use flatfs::error::{FlatfsError, IoKind};
use flatfs::flatfs::{key_of_file, Action, Event, Flatfs, Setup, Task};
use flatfs::shard::Shard;

/// A filesystem in memory, enough to carry out the store's actions.
struct MemFs {
    dirs: HashSet<String>,
    files: HashMap<String, Vec<u8>>,
    waits: usize,
}

impl MemFs {
    fn new() -> MemFs {
        MemFs { dirs: HashSet::new(), files: HashMap::new(), waits: 0 }
    }

    /// Carries out a task; returns its outcome and the bytes or length that
    /// its read or length query produced.
    fn run(&mut self, mut task: Task, value: &[u8]) -> (Result<(), FlatfsError>, Option<Vec<u8>>, Option<u64>) {
        let mut read = None;
        let mut size = None;
        let mut action = task.request();
        loop {
            let event = match action {
                Action::CheckDir(p) => Event::Exists(self.dirs.contains(&p)),
                Action::CreateDir(p) => {
                    if self.dirs.contains(&p) {
                        Event::Failed(IoKind::AlreadyExists)
                    } else {
                        self.dirs.insert(p);
                        Event::Done
                    }
                }
                Action::Write(p) => {
                    self.files.insert(p, value.to_vec());
                    Event::Done
                }
                Action::Rename(from, to) => match self.files.remove(&from) {
                    Some(v) => {
                        self.files.insert(to, v);
                        Event::Done
                    }
                    None => Event::Failed(IoKind::NotFound),
                },
                Action::Read(p) => match self.files.get(&p) {
                    Some(v) => {
                        read = Some(v.clone());
                        Event::Done
                    }
                    None => Event::Failed(IoKind::NotFound),
                },
                Action::Stat(p) => match self.files.get(&p) {
                    Some(v) => {
                        size = Some(v.len() as u64);
                        Event::Done
                    }
                    None => Event::Failed(IoKind::NotFound),
                },
                Action::Remove(p) => match self.files.remove(&p) {
                    Some(_) => Event::Done,
                    None => Event::Failed(IoKind::NotFound),
                },
                Action::Wait(_) => {
                    self.waits += 1;
                    Event::Done
                }
                Action::Finish(outcome) => return (outcome, read, size),
            };
            action = task.step(event);
        }
    }

    /// Brings up a store at `root`, creating it when it holds no descriptor.
    fn open(&mut self, root: &str, shard: Shard) -> Result<Flatfs, FlatfsError> {
        let descriptor_file = format!("{}/SHARDING", root);
        let found = self.files.get(&descriptor_file).map(|v| String::from_utf8(v.clone()).unwrap());
        match Flatfs::with_shard(root, shard, found.as_deref())? {
            Setup::Ready(store) => Ok(store),
            Setup::Create { root, descriptor_path, descriptor } => {
                self.dirs.insert(root.clone());
                self.files.insert(descriptor_path.clone(), descriptor.into_bytes());
                let text = String::from_utf8(self.files[&descriptor_path].clone()).unwrap();
                Flatfs::open(&root, shard, &text)
            }
        }
    }

    fn put(&mut self, store: &Flatfs, key: &str, value: &[u8]) -> Result<(), FlatfsError> {
        self.run(store.put(key)?, value).0
    }

    fn get(&mut self, store: &Flatfs, key: &str) -> Result<Vec<u8>, FlatfsError> {
        let (outcome, read, _) = self.run(store.get(key)?, &[]);
        outcome.map(|()| read.unwrap())
    }

    fn get_size(&mut self, store: &Flatfs, key: &str) -> Result<u64, FlatfsError> {
        let (outcome, _, size) = self.run(store.get_size(key)?, &[]);
        outcome.map(|()| size.unwrap())
    }

    fn del(&mut self, store: &Flatfs, key: &str) -> Result<(), FlatfsError> {
        self.run(store.del(key)?, &[]).0
    }
}

#[test]
fn test_create_empty() {
    match Flatfs::new("/tmp/store", None).unwrap() {
        Setup::Create { root, descriptor_path, descriptor } => {
            assert_eq!(root, "/tmp/store");
            assert_eq!(PathBuf::from(&descriptor_path), Path::new("/tmp/store").join("SHARDING"));
            assert_eq!(descriptor, Shard::default().to_descriptor());
        }
        Setup::Ready(_) => panic!("a root without a descriptor is created"),
    }
    let mut fs = MemFs::new();
    let store = fs.open("/tmp/store", Shard::default()).unwrap();
    assert_eq!(store.shard(), Shard::NextToLast(2));
    assert_eq!(fs.files["/tmp/store/SHARDING"], b"/repo/flatfs/shard/v1/next-to-last/2".to_vec());
}

#[test]
fn test_open_empty() {
    let mut fs = MemFs::new();
    {
        let _store = fs.open("/tmp/store", Shard::Prefix(2)).unwrap();
        assert_eq!(fs.files["/tmp/store/SHARDING"], Shard::Prefix(2).to_descriptor().into_bytes());
    }
    let _store = fs.open("/tmp/store", Shard::Prefix(2)).unwrap();
    assert!(fs.open("/tmp/store", Shard::default()).is_err());
}

#[test]
fn test_paths() {
    let mut fs = MemFs::new();
    let store = fs.open("/tmp/store", Shard::default()).unwrap();
    assert_eq!(PathBuf::from(store.as_path("foobar")), Path::new("/tmp/store").join("ba/foobar.data"));
}

#[test]
fn test_put_get() {
    let mut fs = MemFs::new();
    let store = fs.open("/tmp/store", Shard::default()).unwrap();
    for i in 0..10u8 {
        fs.put(&store, &format!("foo{i}"), &[i; 128]).unwrap();
    }
    for i in 0..10u8 {
        assert_eq!(fs.get(&store, &format!("foo{i}")).unwrap(), [i; 128]);
        assert_eq!(fs.get_size(&store, &format!("foo{i}")).unwrap(), 128);
    }
}

#[test]
fn test_put_get_del() {
    let mut fs = MemFs::new();
    let store = fs.open("/tmp/store", Shard::default()).unwrap();
    for i in 0..10u8 {
        fs.put(&store, &format!("foo{i}"), &[i; 128]).unwrap();
    }
    for i in 0..10u8 {
        assert_eq!(fs.get(&store, &format!("foo{i}")).unwrap(), [i; 128]);
    }
    for i in 0..5u8 {
        fs.del(&store, &format!("foo{}", i)).unwrap();
    }
    for i in 0..10u8 {
        if i < 5 {
            assert!(fs.get(&store, &format!("foo{i}")).is_err());
            assert!(fs.del(&store, &format!("foo{i}")).is_err());
        } else {
            assert_eq!(fs.get(&store, &format!("foo{i}")).unwrap(), [i; 128]);
        }
    }
}

#[test]
fn put_then_get_round_trips_and_sizes() {
    let mut fs = MemFs::new();
    let store = fs.open("root", Shard::Suffix(3)).unwrap();
    fs.put(&store, "hello", b"world!").unwrap();
    assert_eq!(fs.get(&store, "hello").unwrap(), b"world!".to_vec());
    assert_eq!(fs.get_size(&store, "hello").unwrap(), 6);
    fs.put(&store, "hello", b"").unwrap();
    assert_eq!(fs.get(&store, "hello").unwrap(), Vec::<u8>::new());
    assert_eq!(fs.get_size(&store, "hello").unwrap(), 0);
    assert!(fs.files.contains_key("root/llo/hello.data"));
    assert!(!fs.files.contains_key("root/llo/hello.temp"));
}

#[test]
fn missing_key_fails_not_found() {
    let mut fs = MemFs::new();
    let store = fs.open("root", Shard::default()).unwrap();
    let missing = FlatfsError::Io { kind: IoKind::NotFound, path: "root/on/none.data".to_string() };
    assert_eq!(fs.get(&store, "none"), Err(missing.clone()));
    assert_eq!(fs.del(&store, "none"), Err(missing.clone()));
    assert_eq!(fs.get_size(&store, "none"), Err(missing));
}

#[test]
fn second_delete_fails() {
    let mut fs = MemFs::new();
    let store = fs.open("root", Shard::default()).unwrap();
    fs.put(&store, "key1", b"v").unwrap();
    assert_eq!(fs.del(&store, "key1"), Ok(()));
    assert!(matches!(fs.del(&store, "key1"), Err(FlatfsError::Io { kind: IoKind::NotFound, .. })));
}

#[test]
fn invalid_keys_are_refused_by_every_operation() {
    let mut fs = MemFs::new();
    let store = fs.open("root", Shard::default()).unwrap();
    for key in ["", "a", "a/b", "/ab", "kéy", "日本"] {
        assert_eq!(store.put(key), Err(FlatfsError::InvalidKey));
        assert_eq!(store.get(key), Err(FlatfsError::InvalidKey));
        assert_eq!(store.get_size(key), Err(FlatfsError::InvalidKey));
        assert_eq!(store.del(key), Err(FlatfsError::InvalidKey));
        assert_eq!(flatfs::flatfs::ensure_valid_key(key), Err(FlatfsError::InvalidKey));
    }
    assert_eq!(flatfs::flatfs::ensure_valid_key("ab"), Ok(()));
    assert_eq!(flatfs::flatfs::ensure_valid_key("a.b-c_d"), Ok(()));
    assert_eq!(fs.files.len(), 1);
}

#[test]
fn reopening_with_another_strategy_fails() {
    let mut fs = MemFs::new();
    fs.open("root", Shard::Prefix(3)).unwrap();
    assert_eq!(
        fs.open("root", Shard::Suffix(3)).err(),
        Some(FlatfsError::ShardMismatch { requested: Shard::Suffix(3), found: Shard::Prefix(3) })
    );
    assert_eq!(
        fs.open("root", Shard::Prefix(2)).err(),
        Some(FlatfsError::ShardMismatch { requested: Shard::Prefix(2), found: Shard::Prefix(3) })
    );
    assert!(fs.open("root", Shard::Prefix(3)).is_ok());
}

#[test]
fn unreadable_descriptor_is_refused() {
    for text in ["", "/repo/flatfs/shard/v1/prefix/", "/repo/flatfs/shard/v1/prefix/x2", "/repo/flatfs/shard/v2/prefix/2",
        "/repo/flatfs/shard/v1/flat/", "/repo/flatfs/shard/v1/suffix/99999999999999999999999", "next-to-last/2"] {
        assert_eq!(Shard::from_descriptor(text), Err(FlatfsError::BadDescriptor));
        assert!(matches!(Flatfs::with_shard("root", Shard::default(), Some(text)), Err(FlatfsError::BadDescriptor)));
    }
}

#[test]
fn descriptors_round_trip() {
    assert_eq!(Shard::NextToLast(2).to_descriptor(), "/repo/flatfs/shard/v1/next-to-last/2");
    assert_eq!(Shard::Prefix(10).to_descriptor(), "/repo/flatfs/shard/v1/prefix/10");
    assert_eq!(Shard::Suffix(0).to_descriptor(), "/repo/flatfs/shard/v1/suffix/0");
    assert_eq!(Shard::Flat.to_descriptor(), "/repo/flatfs/shard/v1/flat");
    for shard in [Shard::Flat, Shard::Prefix(1), Shard::Suffix(407), Shard::NextToLast(2), Shard::Prefix(usize::MAX)] {
        assert_eq!(Shard::from_descriptor(&shard.to_descriptor()), Ok(shard));
    }
    assert_eq!(Shard::from_descriptor("/repo/flatfs/shard/v1/prefix/007"), Ok(Shard::Prefix(7)));
}

#[test]
fn dir_of_each_strategy() {
    assert_eq!(Shard::Flat.dir("foobar"), "");
    assert_eq!(Shard::Prefix(2).dir("foobar"), "fo");
    assert_eq!(Shard::Suffix(2).dir("foobar"), "ar");
    assert_eq!(Shard::NextToLast(2).dir("foobar"), "ba");
    assert_eq!(Shard::NextToLast(3).dir("foobar"), "oba");
    assert_eq!(Shard::Prefix(9).dir("abc"), "abc");
    assert_eq!(Shard::Suffix(9).dir("abc"), "abc");
    assert_eq!(Shard::NextToLast(9).dir("abc"), "ab");
    assert_eq!(Shard::default(), Shard::NextToLast(2));
}

#[test]
fn flat_store_keeps_files_under_root() {
    let mut fs = MemFs::new();
    let store = fs.open("root", Shard::Flat).unwrap();
    assert_eq!(store.as_path("abc"), "root/abc.data");
    fs.put(&store, "abc", b"1").unwrap();
    assert!(fs.files.contains_key("root/abc.data"));
}

#[test]
fn iteration_finds_each_stored_pair() {
    let mut fs = MemFs::new();
    let store = fs.open("root", Shard::default()).unwrap();
    let n = 12u8;
    for i in 0..n {
        fs.put(&store, &format!("key{i}"), &[i; 3]).unwrap();
    }
    fs.files.insert("root/y1/key1.temp".to_string(), vec![9]);
    let mut pairs = HashMap::new();
    for (path, value) in fs.files.iter() {
        let name = path.rsplit('/').next().unwrap();
        if let Some(key) = key_of_file(name) {
            pairs.insert(key, value.clone());
        }
    }
    assert_eq!(pairs.len(), n as usize);
    for i in 0..n {
        assert_eq!(pairs[&format!("key{i}")], vec![i; 3]);
    }
    assert_eq!(key_of_file("SHARDING"), None);
    assert_eq!(key_of_file("key1.temp"), None);
    assert_eq!(key_of_file("a.data"), None);
    assert_eq!(key_of_file(".data"), None);
    assert_eq!(key_of_file("ab.data"), Some("ab".to_string()));
}

#[test]
fn failing_read_is_retried_then_reported() {
    let store = match Flatfs::new("root", Some("/repo/flatfs/shard/v1/next-to-last/2")).unwrap() {
        Setup::Ready(s) => s,
        Setup::Create { .. } => panic!("the descriptor is there"),
    };
    let mut task = store.get("abcd").unwrap();
    assert_eq!(task.request(), Action::Read("root/bc/abcd.data".to_string()));
    for _ in 0..5 {
        assert_eq!(task.step(Event::Failed(IoKind::Other)), Action::Wait(200));
        assert_eq!(task.step(Event::Done), Action::Read("root/bc/abcd.data".to_string()));
    }
    assert_eq!(
        task.step(Event::Failed(IoKind::Other)),
        Action::Finish(Err(FlatfsError::Io { kind: IoKind::Other, path: "root/bc/abcd.data".to_string() }))
    );
    assert!(task.is_over());
}

#[test]
fn size_query_is_not_retried() {
    let mut fs = MemFs::new();
    let store = fs.open("root", Shard::default()).unwrap();
    assert!(fs.get_size(&store, "nothing").is_err());
    assert_eq!(fs.waits, 0);
    assert!(fs.get(&store, "nothing").is_err());
    assert_eq!(fs.waits, 5);
}

#[test]
fn directory_created_by_another_writer_is_fine() {
    let store = match Flatfs::with_shard("root", Shard::Prefix(2), Some("/repo/flatfs/shard/v1/prefix/2")).unwrap() {
        Setup::Ready(s) => s,
        Setup::Create { .. } => panic!("the descriptor is there"),
    };
    let mut task = store.put("abcd").unwrap();
    assert_eq!(task.request(), Action::CheckDir("root/ab".to_string()));
    assert_eq!(task.step(Event::Exists(false)), Action::CreateDir("root/ab".to_string()));
    for _ in 0..5 {
        assert_eq!(task.step(Event::Failed(IoKind::AlreadyExists)), Action::Wait(200));
        assert_eq!(task.step(Event::Done), Action::CreateDir("root/ab".to_string()));
    }
    assert_eq!(task.step(Event::Failed(IoKind::AlreadyExists)), Action::Write("root/ab/abcd.temp".to_string()));
    assert_eq!(task.step(Event::Done), Action::Rename("root/ab/abcd.temp".to_string(), "root/ab/abcd.data".to_string()));
    assert_eq!(task.step(Event::Done), Action::Finish(Ok(())));
}

#[test]
fn failed_directory_creation_is_reported() {
    let store = match Flatfs::with_shard("root", Shard::Prefix(2), Some("/repo/flatfs/shard/v1/prefix/2")).unwrap() {
        Setup::Ready(s) => s,
        Setup::Create { .. } => panic!("the descriptor is there"),
    };
    let mut task = store.put("abcd").unwrap();
    let mut action = task.step(Event::Exists(false));
    for _ in 0..11 {
        let event = if matches!(action, Action::Wait(_)) { Event::Done } else { Event::Failed(IoKind::Other) };
        action = task.step(event);
    }
    assert_eq!(action, Action::Finish(Err(FlatfsError::Io { kind: IoKind::Other, path: "root/ab".to_string() })));
}

#[test]
fn retry_counts_attempts() {
    let mut retry = flatfs::retry::Retry::new();
    for _ in 0..5 {
        assert!(retry.on_failure());
    }
    assert!(!retry.on_failure());
    assert_eq!(retry.failures, flatfs::retry::RETRY_ATTEMPTS);
}
