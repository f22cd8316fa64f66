use vstd::prelude::*;

use crate::error::{FlatfsError, IoKind};
use crate::retry::{Retry, RETRY_ATTEMPTS, RETRY_DELAY_MS};
use crate::shard::{lemma_descriptor_round_trip, parse_descriptor, Shard, FILE_NAME};
use crate::text::{chars_of, push_char, push_str};

verus! {

/// Extension of the file that holds a stored value.
pub const EXTENSION: &'static str = ".data";

/// Extension of the file that a value is written to before it is renamed into place.
pub const TEMP_EXTENSION: &'static str = ".temp";

/// A key is at least two characters long, ASCII, and holds no `/`.
pub open spec fn valid_key(key: Seq<char>) -> bool {
    &&& key.len() >= 2
    &&& vstd::utf8::is_ascii_chars(key)
    &&& !key.contains('/')
}

/// The directory that holds the value file of `key`.
pub open spec fn dir_path(root: Seq<char>, shard: Shard, key: Seq<char>) -> Seq<char> {
    if shard.dir_spec(key).len() == 0 {
        root
    } else {
        root + seq!['/'] + shard.dir_spec(key)
    }
}

/// `root/<shard dir>/<key>.data`: the file that holds the value of `key`.
pub open spec fn value_path(root: Seq<char>, shard: Shard, key: Seq<char>) -> Seq<char> {
    dir_path(root, shard, key) + seq!['/'] + key + EXTENSION@
}

/// The file that a new value of `key` is written to before it replaces the value file.
pub open spec fn temp_path(root: Seq<char>, shard: Shard, key: Seq<char>) -> Seq<char> {
    dir_path(root, shard, key) + seq!['/'] + key + TEMP_EXTENSION@
}

/// `root/SHARDING`: the file that holds the root's descriptor.
pub open spec fn descriptor_path(root: Seq<char>) -> Seq<char> {
    root + seq!['/'] + FILE_NAME@
}

/// The outcome of opening a root whose descriptor reads `text` with the strategy `shard`.
pub open spec fn open_outcome(shard: Shard, text: Seq<char>) -> Result<(), FlatfsError> {
    match parse_descriptor(text) {
        None => Err(FlatfsError::BadDescriptor),
        Some(found) => if found == shard {
            Ok(())
        } else {
            Err(FlatfsError::ShardMismatch { requested: shard, found })
        },
    }
}

/// A store rooted at a directory, with the sharding strategy its descriptor names.
pub struct Flatfs {
    path: String,
    shard: Shard,
}

/// What the store is, as contracts see it.
pub struct FlatfsView {
    pub root: Seq<char>,
    pub shard: Shard,
}

impl View for Flatfs {
    type V = FlatfsView;

    closed spec fn view(&self) -> FlatfsView {
        FlatfsView { root: self.path@, shard: self.shard }
    }
}

/// The first step of bringing up a store at a root.
pub enum Setup {
    /// The root holds a descriptor of the requested strategy: the store is ready.
    Ready(Flatfs),
    /// The root holds no descriptor. Create the directory `root` with its
    /// parents, write `descriptor` to the file `descriptor_path`, then read that
    /// file back and pass its text to `Flatfs::open`.
    Create { root: String, descriptor_path: String, descriptor: String },
}

/// Which key operation a task carries out.
#[derive(Debug, Clone, Copy, PartialEq, Eq, Structural)]
pub enum Op {
    Put,
    Get,
    GetSize,
    Del,
}

/// The filesystem call that a task is at.
#[derive(Debug, Clone, Copy, PartialEq, Eq, Structural)]
pub enum Stage {
    /// Whether the value's directory exists.
    CheckDir,
    /// Create the value's directory.
    CreateDir,
    /// Write the value to the temporary file.
    Write,
    /// Rename the temporary file onto the value file.
    Rename,
    /// Read the value file.
    Read,
    /// Query the value file's length.
    Stat,
    /// Remove the value file.
    Remove,
    /// The task has finished.
    Over,
}

/// What a task asks of the filesystem next.
#[derive(Debug, PartialEq, Eq)]
pub enum Action {
    /// Report with `Event::Exists` whether a directory exists at the path.
    CheckDir(String),
    /// Create the directory at the path (its parent exists).
    CreateDir(String),
    /// Write the value being stored to the path, replacing any file there.
    Write(String),
    /// Rename the file at the first path onto the second.
    Rename(String, String),
    /// Read the whole file at the path; keep its bytes as the result of `get`.
    Read(String),
    /// Query the length of the file at the path; keep it as the result of `get_size`.
    Stat(String),
    /// Remove the file at the path.
    Remove(String),
    /// Wait this many milliseconds, then report `Event::Done`.
    Wait(u64),
    /// The task is over with this outcome.
    Finish(Result<(), FlatfsError>),
}

/// What came of the last action.
#[derive(Debug, Clone, Copy, PartialEq, Eq, Structural)]
pub enum Event {
    /// The call succeeded, or the wait is over.
    Done,
    /// The answer to `Action::CheckDir`.
    Exists(bool),
    /// The call failed.
    Failed(IoKind),
}

/// One key operation in progress: the store decides each filesystem call, the
/// caller makes it and reports how it went.
#[derive(Debug, Clone, PartialEq, Eq)]
pub struct Task {
    pub op: Op,
    pub stage: Stage,
    /// The current call failed and is to be made again after a wait.
    pub waiting: bool,
    /// Failures of the current call so far.
    pub retry: Retry,
    pub dir: String,
    pub target: String,
    pub temp: String,
}

impl Task {
    /// A task that is not over has attempts left for its current call.
    pub open spec fn wf(self) -> bool {
        self.stage != Stage::Over ==> !self.retry.exhausted()
    }

    /// The action that the task's current stage asks for.
    pub open spec fn request_spec(self) -> Action {
        match self.stage {
            Stage::CheckDir => Action::CheckDir(self.dir),
            Stage::CreateDir => Action::CreateDir(self.dir),
            Stage::Write => Action::Write(self.temp),
            Stage::Rename => Action::Rename(self.temp, self.target),
            Stage::Read => Action::Read(self.target),
            Stage::Stat => Action::Stat(self.target),
            Stage::Remove => Action::Remove(self.target),
            Stage::Over => Action::Finish(Ok(())),
        }
    }

    /// The file or directory that the current stage's call is about.
    pub open spec fn stage_path(self) -> String {
        match self.stage {
            Stage::CheckDir | Stage::CreateDir => self.dir,
            Stage::Write => self.temp,
            _ => self.target,
        }
    }

    /// The stage after the current call succeeded, with `event` its outcome;
    /// `Over` once the operation is done.
    pub open spec fn next_stage(self, event: Event) -> Stage {
        match self.stage {
            Stage::CheckDir => if event == Event::Exists(true) {
                Stage::Write
            } else {
                Stage::CreateDir
            },
            Stage::CreateDir => Stage::Write,
            Stage::Write => Stage::Rename,
            _ => Stage::Over,
        }
    }

    /// The task and action after the current call succeeded.
    pub open spec fn advance_spec(self, event: Event) -> (Task, Action) {
        let t = Task { stage: self.next_stage(event), waiting: false, retry: Retry { failures: 0 }, ..self };
        if t.stage == Stage::Over {
            (t, Action::Finish(Ok(())))
        } else {
            (t, t.request_spec())
        }
    }

    /// The task and action after `event` came of the last action. A failed call
    /// is made again after a wait while attempts are left, except the length
    /// query, which is made once. A directory that could not be created
    /// because it already exists is taken as created. Any other last failure
    /// ends the task with an error that names the call's path.
    pub open spec fn step_spec(self, event: Event) -> (Task, Action) {
        if self.waiting {
            (Task { waiting: false, ..self }, self.request_spec())
        } else {
            match event {
                Event::Failed(kind) if self.stage != Stage::CheckDir => {
                    let retry = Retry { failures: (self.retry.failures + 1) as usize };
                    if self.stage != Stage::Stat && !retry.exhausted() {
                        (Task { waiting: true, retry, ..self }, Action::Wait(RETRY_DELAY_MS))
                    } else if self.stage == Stage::CreateDir && kind == IoKind::AlreadyExists {
                        self.advance_spec(event)
                    } else {
                        (
                            Task { stage: Stage::Over, retry, ..self },
                            Action::Finish(Err(FlatfsError::Io { kind, path: self.stage_path() })),
                        )
                    }
                },
                _ => self.advance_spec(event),
            }
        }
    }

    /// The action that the task's current stage asks for.
    pub fn request(&self) -> (r: Action)
        ensures
            r == self.request_spec(),
    {
        match self.stage {
            Stage::CheckDir => Action::CheckDir(self.dir.clone()),
            Stage::CreateDir => Action::CreateDir(self.dir.clone()),
            Stage::Write => Action::Write(self.temp.clone()),
            Stage::Rename => Action::Rename(self.temp.clone(), self.target.clone()),
            Stage::Read => Action::Read(self.target.clone()),
            Stage::Stat => Action::Stat(self.target.clone()),
            Stage::Remove => Action::Remove(self.target.clone()),
            Stage::Over => Action::Finish(Ok(())),
        }
    }

    /// Whether the task has finished.
    pub fn is_over(&self) -> (r: bool)
        ensures
            r == (self.stage == Stage::Over),
    {
        self.stage == Stage::Over
    }

    fn advance(&mut self, event: Event) -> (r: Action)
        ensures
            (*final(self), r) == old(self).advance_spec(event),
    {
        self.stage = match self.stage {
            Stage::CheckDir => if event == Event::Exists(true) {
                Stage::Write
            } else {
                Stage::CreateDir
            },
            Stage::CreateDir => Stage::Write,
            Stage::Write => Stage::Rename,
            _ => Stage::Over,
        };
        self.waiting = false;
        self.retry = Retry::new();
        if self.stage == Stage::Over {
            Action::Finish(Ok(()))
        } else {
            self.request()
        }
    }

    /// Takes in what came of the last action and returns the next one.
    pub fn step(&mut self, event: Event) -> (r: Action)
        requires
            old(self).wf(),
            old(self).stage != Stage::Over,
        ensures
            (*final(self), r) == old(self).step_spec(event),
            final(self).wf(),
    {
        if self.waiting {
            self.waiting = false;
            return self.request();
        }
        match event {
            Event::Failed(kind) if self.stage != Stage::CheckDir => {
                let path = match self.stage {
                    Stage::CheckDir | Stage::CreateDir => self.dir.clone(),
                    Stage::Write => self.temp.clone(),
                    _ => self.target.clone(),
                };
                let again = self.retry.on_failure();
                if self.stage != Stage::Stat && again {
                    self.waiting = true;
                    Action::Wait(RETRY_DELAY_MS)
                } else if self.stage == Stage::CreateDir && kind == IoKind::AlreadyExists {
                    self.advance(event)
                } else {
                    self.stage = Stage::Over;
                    Action::Finish(Err(FlatfsError::Io { kind, path }))
                }
            },
            _ => self.advance(event),
        }
    }
}

/// The first call of each operation.
pub open spec fn first_stage(op: Op) -> Stage {
    match op {
        Op::Put => Stage::CheckDir,
        Op::Get => Stage::Read,
        Op::GetSize => Stage::Stat,
        Op::Del => Stage::Remove,
    }
}

/// `r` is what starting `op` on `key` in `store` gives: an invalid key is
/// refused before any filesystem call; a valid one gives a task at the
/// operation's first call, on the key's paths.
pub open spec fn begins(store: FlatfsView, op: Op, key: Seq<char>, r: Result<Task, FlatfsError>) -> bool {
    if valid_key(key) {
        &&& r is Ok
        &&& r->Ok_0.op == op
        &&& r->Ok_0.stage == first_stage(op)
        &&& !r->Ok_0.waiting
        &&& r->Ok_0.retry.failures == 0
        &&& r->Ok_0.dir@ == dir_path(store.root, store.shard, key)
        &&& r->Ok_0.target@ == value_path(store.root, store.shard, key)
        &&& r->Ok_0.temp@ == temp_path(store.root, store.shard, key)
    } else {
        r == Err::<Task, FlatfsError>(FlatfsError::InvalidKey)
    }
}

/// Checks that `key` is a valid key.
pub fn ensure_valid_key(key: &str) -> (r: Result<(), FlatfsError>)
    ensures
        r is Ok <==> valid_key(key@),
        r is Err ==> r == Err::<(), FlatfsError>(FlatfsError::InvalidKey),
{
    if !key.is_ascii() {
        return Err(FlatfsError::InvalidKey);
    }
    let cs = chars_of(key);
    if cs.len() < 2 {
        return Err(FlatfsError::InvalidKey);
    }
    let mut i: usize = 0;
    while i < cs.len()
        invariant
            cs@ == key@,
            i <= cs@.len(),
            forall|j: int| 0 <= j < i ==> cs@[j] != '/',
        decreases cs@.len() - i,
    {
        if cs[i] == '/' {
            assert(key@[i as int] == '/');
            return Err(FlatfsError::InvalidKey);
        }
        i = i + 1;
    }
    Ok(())
}

impl Flatfs {
    /// Brings up a store at `path` with the default strategy; see `with_shard`.
    pub fn new(path: &str, found: Option<&str>) -> (r: Result<Setup, FlatfsError>)
        ensures
            found is None ==> (r matches Ok(Setup::Create { root, descriptor_path: d, descriptor })
                && root@ == path@ && d@ == descriptor_path(path@) && descriptor@
                == crate::shard::default_shard().descriptor_spec()),
            found is Some && open_outcome(crate::shard::default_shard(), found->0@) is Ok ==> (r matches Ok(
                Setup::Ready(store),
            ) && store@ == (FlatfsView { root: path@, shard: crate::shard::default_shard() })),
            found is Some && open_outcome(crate::shard::default_shard(), found->0@) is Err ==> r == Err::<Setup, FlatfsError>(
                open_outcome(crate::shard::default_shard(), found->0@)->Err_0,
            ),
    {
        Flatfs::with_shard(path, Shard::default(), found)
    }

    /// Brings up a store at `path` with the strategy `shard`. `found` is the
    /// text of the root's descriptor file, or `None` where the root or the file
    /// does not exist: the root is then to be created (`Setup::Create`).
    /// Otherwise this is `open`.
    pub fn with_shard(path: &str, shard: Shard, found: Option<&str>) -> (r: Result<Setup, FlatfsError>)
        ensures
            found is None ==> (r matches Ok(Setup::Create { root, descriptor_path: d, descriptor })
                && root@ == path@ && d@ == descriptor_path(path@) && descriptor@
                == shard.descriptor_spec()),
            found is Some && open_outcome(shard, found->0@) is Ok ==> (r matches Ok(
                Setup::Ready(store),
            ) && store@ == (FlatfsView { root: path@, shard: shard })),
            found is Some && open_outcome(shard, found->0@) is Err ==> r == Err::<Setup, FlatfsError>(
                open_outcome(shard, found->0@)->Err_0,
            ),
    {
        match found {
            None => {
                let root = path.to_owned();
                let mut file = path.to_owned();
                push_char(&mut file, '/');
                push_str(&mut file, FILE_NAME);
                assert(file@ =~= descriptor_path(path@));
                Ok(Setup::Create { root, descriptor_path: file, descriptor: shard.to_descriptor() })
            },
            Some(text) => match Flatfs::open(path, shard, text) {
                Ok(store) => Ok(Setup::Ready(store)),
                Err(e) => Err(e),
            },
        }
    }

    /// Opens the store at `path`, whose descriptor file reads `descriptor`,
    /// with the strategy `shard`. Fails when the descriptor cannot be read or
    /// names another strategy.
    pub fn open(path: &str, shard: Shard, descriptor: &str) -> (r: Result<Flatfs, FlatfsError>)
        ensures
            open_outcome(shard, descriptor@) is Ok ==> r is Ok && r->Ok_0@ == (FlatfsView {
                root: path@,
                shard,
            }),
            open_outcome(shard, descriptor@) is Err ==> r == Err::<Flatfs, FlatfsError>(
                open_outcome(shard, descriptor@)->Err_0,
            ),
    {
        match Shard::from_descriptor(descriptor) {
            Err(e) => Err(e),
            Ok(found) => if found == shard {
                Ok(Flatfs { path: path.to_owned(), shard })
            } else {
                Err(FlatfsError::ShardMismatch { requested: shard, found })
            },
        }
    }

    /// The store's sharding strategy.
    pub fn shard(&self) -> (r: Shard)
        ensures
            r == self@.shard,
    {
        self.shard
    }

    /// The store's root directory.
    pub fn root(&self) -> (r: &str)
        ensures
            r@ == self@.root,
    {
        self.path.as_str()
    }

    fn dir_of(&self, key: &str) -> (r: String)
        ensures
            r@ == dir_path(self@.root, self@.shard, key@),
    {
        let d = self.shard.dir(key);
        let mut r = self.path.clone();
        if !d.as_str().is_empty() {
            push_char(&mut r, '/');
            push_str(&mut r, d.as_str());
        }
        r
    }

    fn file_of(&self, key: &str, extension: &str) -> (r: String)
        ensures
            r@ == dir_path(self@.root, self@.shard, key@) + seq!['/'] + key@ + extension@,
    {
        let mut r = self.dir_of(key);
        push_char(&mut r, '/');
        push_str(&mut r, key);
        push_str(&mut r, extension);
        proof {
            assert(r@ =~= dir_path(self@.root, self@.shard, key@) + seq!['/'] + key@ + extension@);
        }
        r
    }

    /// The file that holds the value of `key`.
    pub fn as_path(&self, key: &str) -> (r: String)
        ensures
            r@ == value_path(self@.root, self@.shard, key@),
    {
        self.file_of(key, EXTENSION)
    }

    fn task(&self, op: Op, key: &str) -> (r: Result<Task, FlatfsError>)
        ensures
            begins(self@, op, key@, r),
            r is Ok ==> r->Ok_0.wf(),
    {
        match ensure_valid_key(key) {
            Err(e) => Err(e),
            Ok(()) => Ok(
                Task {
                    op,
                    stage: match op {
                        Op::Put => Stage::CheckDir,
                        Op::Get => Stage::Read,
                        Op::GetSize => Stage::Stat,
                        Op::Del => Stage::Remove,
                    },
                    waiting: false,
                    retry: Retry::new(),
                    dir: self.dir_of(key),
                    target: self.file_of(key, EXTENSION),
                    temp: self.file_of(key, TEMP_EXTENSION),
                },
            ),
        }
    }

    /// Starts storing a value under `key`: make sure the key's directory
    /// exists, write the value to a temporary file, then rename it onto the
    /// value file.
    pub fn put(&self, key: &str) -> (r: Result<Task, FlatfsError>)
        ensures
            begins(self@, Op::Put, key@, r),
            r is Ok ==> r->Ok_0.wf(),
    {
        self.task(Op::Put, key)
    }

    /// Starts reading the value under `key`.
    pub fn get(&self, key: &str) -> (r: Result<Task, FlatfsError>)
        ensures
            begins(self@, Op::Get, key@, r),
            r is Ok ==> r->Ok_0.wf(),
    {
        self.task(Op::Get, key)
    }

    /// Starts querying the size of the value under `key`.
    pub fn get_size(&self, key: &str) -> (r: Result<Task, FlatfsError>)
        ensures
            begins(self@, Op::GetSize, key@, r),
            r is Ok ==> r->Ok_0.wf(),
    {
        self.task(Op::GetSize, key)
    }

    /// Starts deleting the value under `key`; a missing value is an error.
    pub fn del(&self, key: &str) -> (r: Result<Task, FlatfsError>)
        ensures
            begins(self@, Op::Del, key@, r),
            r is Ok ==> r->Ok_0.wf(),
    {
        self.task(Op::Del, key)
    }
}

/// Opening a root with the strategy that created it succeeds; opening it with
/// any other strategy fails with a mismatch that names both.
pub proof fn lemma_descriptor_compatibility(created: Shard, requested: Shard)
    ensures
        open_outcome(created, created.descriptor_spec()) == Ok::<(), FlatfsError>(()),
        requested != created ==> open_outcome(requested, created.descriptor_spec()) == Err::<
            (),
            FlatfsError,
        >(FlatfsError::ShardMismatch { requested, found: created }),
{
    lemma_descriptor_round_trip(created);
}

/// The task and last action after the current call failed `n` times in a row
/// with `kind`, each failure but the last followed by the wait it asked for.
pub open spec fn after_failures(t: Task, kind: IoKind, n: nat) -> (Task, Action)
    decreases n,
{
    if n <= 1 {
        t.step_spec(Event::Failed(kind))
    } else {
        after_failures(
            t.step_spec(Event::Failed(kind)).0.step_spec(Event::Done).0,
            kind,
            (n - 1) as nat,
        )
    }
}

/// A call that the store retries on every failure of this kind.
pub open spec fn retried(stage: Stage, kind: IoKind) -> bool {
    ||| stage == Stage::Write
    ||| stage == Stage::Rename
    ||| stage == Stage::Read
    ||| stage == Stage::Remove
    ||| (stage == Stage::CreateDir && kind != IoKind::AlreadyExists)
}

proof fn lemma_failing_call_from(t: Task, kind: IoKind, n: nat)
    requires
        !t.waiting,
        retried(t.stage, kind),
        1 <= n,
        t.retry.failures + n <= RETRY_ATTEMPTS,
    ensures
        t.retry.failures + n < RETRY_ATTEMPTS ==> after_failures(t, kind, n).1 == Action::Wait(
            RETRY_DELAY_MS,
        ),
        t.retry.failures + n == RETRY_ATTEMPTS ==> after_failures(t, kind, n).1 == Action::Finish(
            Err(FlatfsError::Io { kind, path: t.stage_path() }),
        ) && after_failures(t, kind, n).0.stage == Stage::Over,
    decreases n,
{
    if n > 1 {
        let t2 = t.step_spec(Event::Failed(kind)).0.step_spec(Event::Done).0;
        assert(t2.stage == t.stage && t2.stage_path() == t.stage_path() && !t2.waiting);
        lemma_failing_call_from(t2, kind, (n - 1) as nat);
    }
}

/// A retried call that keeps failing is attempted `RETRY_ATTEMPTS` times:
/// each failure but the last asks for a wait of `RETRY_DELAY_MS`, and the last
/// one ends the task with that failure's kind and the call's path.
pub proof fn lemma_failing_call(t: Task, kind: IoKind, n: nat)
    requires
        !t.waiting,
        t.retry.failures == 0,
        retried(t.stage, kind),
        1 <= n <= RETRY_ATTEMPTS,
    ensures
        n < RETRY_ATTEMPTS ==> after_failures(t, kind, n).1 == Action::Wait(RETRY_DELAY_MS),
        n == RETRY_ATTEMPTS ==> after_failures(t, kind, n).1 == Action::Finish(
            Err(FlatfsError::Io { kind, path: t.stage_path() }),
        ) && after_failures(t, kind, n).0.stage == Stage::Over,
{
    lemma_failing_call_from(t, kind, n);
}

/// A put whose calls all succeed creates the key's directory if it is
/// missing, writes the value to the temporary file, renames that file onto the
/// value file, and only then reports success.
pub proof fn lemma_put_writes_then_renames(t: Task)
    requires
        t.stage == Stage::CheckDir,
        !t.waiting,
        t.retry.failures == 0,
    ensures
        t.step_spec(Event::Exists(false)).1 == Action::CreateDir(t.dir),
        t.step_spec(Event::Exists(false)).0.step_spec(Event::Done)
            == t.step_spec(Event::Exists(true)),
        t.step_spec(Event::Exists(true)).1 == Action::Write(t.temp),
        t.step_spec(Event::Exists(true)).0.step_spec(Event::Done).1 == Action::Rename(
            t.temp,
            t.target,
        ),
        t.step_spec(Event::Exists(true)).0.step_spec(Event::Done).0.step_spec(Event::Done).1
            == Action::Finish(Ok::<(), FlatfsError>(())),
{
}

/// The key whose value file is named `name`: a valid key followed by the value
/// file extension. The descriptor file and temporary files have none.
pub open spec fn entry_key(name: Seq<char>) -> Option<Seq<char>> {
    let stem_len = name.len() - EXTENSION@.len();
    if stem_len >= 0 && name.skip(stem_len) == EXTENSION@ && valid_key(name.take(stem_len)) {
        Some(name.take(stem_len))
    } else {
        None
    }
}

/// Recovers the key from the name of a file found under the root, or `None`
/// where the file holds no value.
pub fn key_of_file(name: &str) -> (r: Option<String>)
    ensures
        r is Some <==> entry_key(name@) is Some,
        r is Some ==> r->0@ == entry_key(name@)->0,
{
    let cs = chars_of(name);
    let ext = chars_of(EXTENSION);
    if cs.len() < ext.len() {
        return None;
    }
    let total = cs.len();
    let stem_len = total - ext.len();
    let mut i: usize = 0;
    while i < ext.len()
        invariant
            cs@ == name@,
            ext@ == EXTENSION@,
            total == cs@.len(),
            stem_len + ext@.len() == total,
            i <= ext@.len(),
            forall|j: int| 0 <= j < i ==> cs@[stem_len + j] == ext@[j],
        decreases ext@.len() - i,
    {
        if cs[stem_len + i] != ext[i] {
            assert(name@.skip(stem_len as int)[i as int] != EXTENSION@[i as int]);
            return None;
        }
        i = i + 1;
    }
    assert(name@.skip(stem_len as int) =~= EXTENSION@);
    let mut key = String::new();
    crate::text::push_range(&mut key, &cs, 0, stem_len);
    assert(key@ =~= name@.take(stem_len as int));
    match ensure_valid_key(key.as_str()) {
        Ok(()) => Some(key),
        Err(_) => None,
    }
}

/// The name of a key's value file gives back the key; the name of a temporary
/// file and that of the descriptor file give no key.
pub proof fn lemma_entry_key(key: Seq<char>)
    requires
        valid_key(key),
    ensures
        entry_key(key + EXTENSION@) == Some(key),
        entry_key(key + TEMP_EXTENSION@) is None,
        entry_key(FILE_NAME@) is None,
{
    reveal_strlit(".data");
    reveal_strlit(".temp");
    reveal_strlit("SHARDING");
    let v = key + EXTENSION@;
    assert(v.skip(key.len() as int) =~= EXTENSION@);
    assert(v.take(key.len() as int) =~= key);
    let t = key + TEMP_EXTENSION@;
    assert(t.skip(key.len() as int)[1] == 't');
    let f = FILE_NAME@;
    assert(f.skip(3)[0] == 'R');
}

} // verus!
