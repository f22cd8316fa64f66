use vstd::prelude::*;

use crate::error::{FlatfsError, IoKind};
use crate::flatfs::{begins, temp_path, valid_key, value_path, Action, Event, FlatfsView, Op, Task};

verus! {

/// A filesystem that behaves as a set of directories and a map from file paths to contents.
pub struct FsModel {
    pub dirs: Set<Seq<char>>,
    pub files: Map<Seq<char>, Seq<u8>>,
}

/// What such a filesystem does with `action`, when `value` is what a write
/// writes: the state after and the event reported.
pub open spec fn perform(fs: FsModel, action: Action, value: Seq<u8>) -> (FsModel, Event) {
    match action {
        Action::CheckDir(p) => (fs, Event::Exists(fs.dirs.contains(p@))),
        Action::CreateDir(p) => if fs.dirs.contains(p@) {
            (fs, Event::Failed(IoKind::AlreadyExists))
        } else {
            (FsModel { dirs: fs.dirs.insert(p@), ..fs }, Event::Done)
        },
        Action::Write(p) => (FsModel { files: fs.files.insert(p@, value), ..fs }, Event::Done),
        Action::Rename(from, to) => if fs.files.contains_key(from@) {
            (
                FsModel { files: fs.files.remove(from@).insert(to@, fs.files[from@]), ..fs },
                Event::Done,
            )
        } else {
            (fs, Event::Failed(IoKind::NotFound))
        },
        Action::Read(p) | Action::Stat(p) => if fs.files.contains_key(p@) {
            (fs, Event::Done)
        } else {
            (fs, Event::Failed(IoKind::NotFound))
        },
        Action::Remove(p) => if fs.files.contains_key(p@) {
            (FsModel { files: fs.files.remove(p@), ..fs }, Event::Done)
        } else {
            (fs, Event::Failed(IoKind::NotFound))
        },
        _ => (fs, Event::Done),
    }
}

/// Carries out `task`, whose next action is `action`, for at most `fuel`
/// actions; gives the filesystem after and the last action.
pub open spec fn run(fs: FsModel, task: Task, action: Action, value: Seq<u8>, fuel: nat) -> (
    FsModel,
    Action,
)
    decreases fuel,
{
    if fuel == 0 || action is Finish {
        (fs, action)
    } else {
        let (fs2, event) = perform(fs, action, value);
        let (task2, action2) = task.step_spec(event);
        run(fs2, task2, action2, value, (fuel - 1) as nat)
    }
}

proof fn lemma_run_step(fs: FsModel, task: Task, action: Action, value: Seq<u8>, fuel: nat)
    requires
        fuel > 0,
        !(action is Finish),
    ensures
        run(fs, task, action, value, fuel) == run(
            perform(fs, action, value).0,
            task.step_spec(perform(fs, action, value).1).0,
            task.step_spec(perform(fs, action, value).1).1,
            value,
            (fuel - 1) as nat,
        ),
{
}

proof fn lemma_temp_is_not_value(store: FlatfsView, key: Seq<char>)
    ensures
        temp_path(store.root, store.shard, key) != value_path(store.root, store.shard, key),
{
    reveal_strlit(".data");
    reveal_strlit(".temp");
    let t = temp_path(store.root, store.shard, key);
    let v = value_path(store.root, store.shard, key);
    assert(t[t.len() - 4] == 't');
    assert(v[v.len() - 4] == 'd');
}

/// On a filesystem that behaves as a map, a put of `value` under a valid key
/// succeeds and leaves `value` in the key's value file; a get of that key
/// then succeeds on the file that holds `value`, and a length query on it
/// succeeds on the same file, whose length is that of `value`.
pub proof fn lemma_put_then_get(
    store: FlatfsView,
    key: Seq<char>,
    put: Task,
    get: Task,
    size: Task,
    fs: FsModel,
    value: Seq<u8>,
)
    requires
        begins(store, Op::Put, key, Ok(put)),
        begins(store, Op::Get, key, Ok(get)),
        begins(store, Op::GetSize, key, Ok(size)),
        valid_key(key),
    ensures
        ({
            let (after, last) = run(fs, put, put.request_spec(), value, 5);
            &&& last == Action::Finish(Ok::<(), FlatfsError>(()))
            &&& after.files.contains_key(value_path(store.root, store.shard, key))
            &&& after.files[value_path(store.root, store.shard, key)] == value
            &&& get.target@ == value_path(store.root, store.shard, key)
            &&& run(after, get, get.request_spec(), Seq::empty(), 2).1 == Action::Finish(
                Ok::<(), FlatfsError>(()),
            )
            &&& size.target@ == value_path(store.root, store.shard, key)
            &&& run(after, size, size.request_spec(), Seq::empty(), 2).1 == Action::Finish(
                Ok::<(), FlatfsError>(()),
            )
        }),
{
    lemma_temp_is_not_value(store, key);
    let target = value_path(store.root, store.shard, key);
    let a0 = put.request_spec();
    lemma_run_step(fs, put, a0, value, 5);
    let (fs1, e1) = perform(fs, a0, value);
    let (t1, a1) = put.step_spec(e1);
    let fuel: nat = if fs.dirs.contains(put.dir@) {
        4
    } else {
        3
    };
    let (fsw, tw) = if fs.dirs.contains(put.dir@) {
        (fs1, t1)
    } else {
        lemma_run_step(fs1, t1, a1, value, 4);
        (perform(fs1, a1, value).0, t1.step_spec(perform(fs1, a1, value).1).0)
    };
    assert(tw.stage == crate::flatfs::Stage::Write && !tw.waiting);
    assert(run(fs, put, a0, value, 5) == run(fsw, tw, Action::Write(put.temp), value, fuel));
    lemma_run_step(fsw, tw, Action::Write(put.temp), value, fuel);
    let fs3 = FsModel { files: fsw.files.insert(put.temp@, value), ..fsw };
    let t3 = tw.step_spec(Event::Done).0;
    assert(tw.step_spec(Event::Done).1 == Action::Rename(put.temp, put.target));
    lemma_run_step(fs3, t3, Action::Rename(put.temp, put.target), value, (fuel - 1) as nat);
    let fs4 = FsModel { files: fs3.files.remove(put.temp@).insert(put.target@, value), ..fs3 };
    assert(t3.step_spec(Event::Done).1 == Action::Finish(Ok::<(), FlatfsError>(())));
    assert(run(fs, put, a0, value, 5).0 == fs4);
    lemma_run_step(fs4, get, get.request_spec(), Seq::empty(), 2);
    lemma_run_step(fs4, size, size.request_spec(), Seq::empty(), 2);
}

proof fn lemma_missing_file_from(fs: FsModel, t: Task)
    requires
        t.stage == crate::flatfs::Stage::Remove || t.stage == crate::flatfs::Stage::Read,
        !t.waiting,
        t.retry.failures < crate::retry::RETRY_ATTEMPTS,
        !fs.files.contains_key(t.target@),
    ensures
        run(
            fs,
            t,
            t.request_spec(),
            Seq::empty(),
            (2 * (crate::retry::RETRY_ATTEMPTS - t.retry.failures) - 1) as nat,
        ).1 == Action::Finish(
            Err::<(), FlatfsError>(FlatfsError::Io { kind: IoKind::NotFound, path: t.target }),
        ),
    decreases crate::retry::RETRY_ATTEMPTS - t.retry.failures,
{
    let fuel = (2 * (crate::retry::RETRY_ATTEMPTS - t.retry.failures) - 1) as nat;
    lemma_run_step(fs, t, t.request_spec(), Seq::empty(), fuel);
    let (t1, a1) = t.step_spec(Event::Failed(IoKind::NotFound));
    if t.retry.failures + 1 < crate::retry::RETRY_ATTEMPTS {
        lemma_run_step(fs, t1, a1, Seq::empty(), (fuel - 1) as nat);
        let t2 = t1.step_spec(Event::Done).0;
        lemma_missing_file_from(fs, t2);
    }
}

/// On a filesystem that behaves as a map, a get or a delete of a key whose
/// value file is missing fails with `NotFound` on that file, after every
/// attempt.
pub proof fn lemma_missing_key_fails(
    store: FlatfsView,
    key: Seq<char>,
    get: Task,
    del: Task,
    fs: FsModel,
)
    requires
        begins(store, Op::Get, key, Ok(get)),
        begins(store, Op::Del, key, Ok(del)),
        valid_key(key),
        !fs.files.contains_key(value_path(store.root, store.shard, key)),
    ensures
        run(fs, get, get.request_spec(), Seq::empty(), 11).1 == Action::Finish(
            Err::<(), FlatfsError>(FlatfsError::Io { kind: IoKind::NotFound, path: get.target }),
        ),
        run(fs, del, del.request_spec(), Seq::empty(), 11).1 == Action::Finish(
            Err::<(), FlatfsError>(FlatfsError::Io { kind: IoKind::NotFound, path: del.target }),
        ),
{
    lemma_missing_file_from(fs, get);
    lemma_missing_file_from(fs, del);
}

/// On a filesystem that behaves as a map, deleting a stored key succeeds
/// once; deleting it again fails with `NotFound`.
pub proof fn lemma_delete_twice(store: FlatfsView, key: Seq<char>, del: Task, again: Task, fs: FsModel)
    requires
        begins(store, Op::Del, key, Ok(del)),
        begins(store, Op::Del, key, Ok(again)),
        valid_key(key),
        fs.files.contains_key(value_path(store.root, store.shard, key)),
    ensures
        run(fs, del, del.request_spec(), Seq::empty(), 1).1 == Action::Finish(
            Ok::<(), FlatfsError>(()),
        ),
        run(run(fs, del, del.request_spec(), Seq::empty(), 1).0, again, again.request_spec(), Seq::empty(), 11).1
            == Action::Finish(
            Err::<(), FlatfsError>(FlatfsError::Io { kind: IoKind::NotFound, path: again.target }),
        ),
{
    lemma_run_step(fs, del, del.request_spec(), Seq::empty(), 1);
    let after = run(fs, del, del.request_spec(), Seq::empty(), 1).0;
    assert(after.files == fs.files.remove(del.target@));
    lemma_missing_file_from(after, again);
}

} // verus!
