//! A model of a store of named files with transactions.
//!
//! The files are kept in memory: a [`Session`] is not a connection to a
//! storage service, and what it holds is gone with it. The model states
//! what the operations of such a service do to the files, for code that is
//! written against them.
//!
//! A session sees the files as they were last committed. Changes made
//! through a [`Transaction`] are seen only inside the transaction until it
//! is committed; a transaction that is discarded, or given up without
//! either, leaves nothing behind. Changes made through the session itself
//! are committed at once.
//!
//! The model has no notion of an open file: a [`SecureFile`] is a name,
//! and closing it tells the session nothing. A file can therefore be
//! renamed or removed while it is open, which a storage service refuses,
//! and a listing is a value that does not outlive anything.

use crate::error::SysError;
use vstd::prelude::*;

verus! {

/// The service that a session connects to.
#[derive(Clone, Copy, Debug, PartialEq, Eq, Structural)]
pub enum Port {
    /// Storage that detects tampering and is wiped on factory reset.
    TamperDetect,
    /// Storage that detects tampering and is there before the system has booted.
    TamperDetectEarlyAccess,
    /// A port that does not exist.
    TestPortNonExistent,
}

/// An error of the store.
#[derive(Clone, Copy, Debug, PartialEq, Eq, Structural)]
pub enum Error {
    /// The store refused the operation.
    Code(SysError),
}

/// How a file is opened.
#[derive(Clone, Copy, Debug, PartialEq, Eq, Structural)]
pub enum OpenMode {
    /// Open a file that exists.
    Open,
    /// Open the file, creating it empty if it does not exist.
    Create,
    /// Create the file empty; fail if it exists.
    CreateExclusive,
    /// Open a file that exists and empty it.
    TruncateExisting,
    /// Open the file empty, whether it existed or not.
    TruncateOrCreate,
}

/// How a listed file stands with respect to the open transaction.
#[derive(Clone, Copy, Debug, PartialEq, Eq, Structural)]
pub enum FileState {
    /// The file is committed.
    Committed,
    /// The file was created in the transaction.
    Added,
    /// The file was removed in the transaction.
    Removed,
}

/// The files of a store: their contents by name.
pub type Files = Map<Seq<char>, Seq<u8>>;

/// What opening `name` in `mode` does to the files, or why it fails.
pub open spec fn opened(files: Files, name: Seq<char>, mode: OpenMode) -> Result<Files, SysError> {
    let exists = files.contains_key(name);
    match mode {
        OpenMode::Open => if exists {
            Ok(files)
        } else {
            Err(SysError::NotFound)
        },
        OpenMode::Create => if exists {
            Ok(files)
        } else {
            Ok(files.insert(name, Seq::empty()))
        },
        OpenMode::CreateExclusive => if exists {
            Err(SysError::AlreadyExists)
        } else {
            Ok(files.insert(name, Seq::empty()))
        },
        OpenMode::TruncateExisting => if exists {
            Ok(files.insert(name, Seq::empty()))
        } else {
            Err(SysError::NotFound)
        },
        OpenMode::TruncateOrCreate => Ok(files.insert(name, Seq::empty())),
    }
}

/// `data` with `bytes` written at `offset`: the file grows when the bytes
/// go past its end.
pub open spec fn overwritten(data: Seq<u8>, offset: int, bytes: Seq<u8>) -> Seq<u8> {
    data.subrange(0, offset) + bytes + if offset + bytes.len() < data.len() {
        data.subrange(offset + bytes.len(), data.len() as int)
    } else {
        Seq::empty()
    }
}

/// `data` cut or extended with zeros to `size` bytes.
pub open spec fn resized(data: Seq<u8>, size: int) -> Seq<u8> {
    if size <= data.len() {
        data.subrange(0, size)
    } else {
        data + Seq::new((size - data.len()) as nat, |i: int| 0u8)
    }
}

/// What writing `bytes` over the whole file `name` does to the files.
pub open spec fn written(files: Files, name: Seq<char>, bytes: Seq<u8>) -> Result<Files, SysError> {
    if files.contains_key(name) {
        Ok(files.insert(name, bytes))
    } else {
        Err(SysError::NotFound)
    }
}

/// What writing `bytes` at `offset` of the file `name` does to the files.
/// An offset beyond the end of the file is refused.
pub open spec fn written_at(files: Files, name: Seq<char>, offset: int, bytes: Seq<u8>) -> Result<
    Files,
    SysError,
> {
    if !files.contains_key(name) {
        Err(SysError::NotFound)
    } else if offset > files[name].len() || offset + bytes.len() > usize::MAX {
        Err(SysError::InvalidArgs)
    } else {
        Ok(files.insert(name, overwritten(files[name], offset, bytes)))
    }
}

/// What setting the size of the file `name` does to the files.
pub open spec fn sized(files: Files, name: Seq<char>, size: int) -> Result<Files, SysError> {
    if files.contains_key(name) {
        Ok(files.insert(name, resized(files[name], size)))
    } else {
        Err(SysError::NotFound)
    }
}

/// What renaming `from` to `to` does to the files: a file that was at
/// `to` is replaced.
pub open spec fn renamed(files: Files, from: Seq<char>, to: Seq<char>) -> Result<Files, SysError> {
    if files.contains_key(from) {
        Ok(files.remove(from).insert(to, files[from]))
    } else {
        Err(SysError::NotFound)
    }
}

/// What removing `name` does to the files.
pub open spec fn removed(files: Files, name: Seq<char>) -> Result<Files, SysError> {
    if files.contains_key(name) {
        Ok(files.remove(name))
    } else {
        Err(SysError::NotFound)
    }
}

/// What reading at most `room` bytes at `offset` of the file `name`
/// gives. An offset beyond the end of the file is refused.
pub open spec fn read_from(files: Files, name: Seq<char>, offset: int, room: int) -> Result<
    Seq<u8>,
    SysError,
> {
    if !files.contains_key(name) {
        Err(SysError::NotFound)
    } else if offset > files[name].len() {
        Err(SysError::InvalidArgs)
    } else if files[name].len() - offset < room {
        Ok(files[name].subrange(offset, files[name].len() as int))
    } else {
        Ok(files[name].subrange(offset, offset + room))
    }
}

/// What reading the whole file `name` into `room` bytes gives.
pub open spec fn read_whole(files: Files, name: Seq<char>, room: int) -> Result<Seq<u8>, SysError> {
    if !files.contains_key(name) {
        Err(SysError::NotFound)
    } else if files[name].len() > room {
        Err(SysError::NotEnoughBuffer)
    } else {
        Ok(files[name])
    }
}

/// The state in which a name is listed, given what is committed and what
/// the transaction sees; `None` for a name that is in neither.
pub open spec fn state_of(persisted: Files, files: Files, name: Seq<char>) -> Option<FileState> {
    if persisted.contains_key(name) {
        if files.contains_key(name) {
            Some(FileState::Committed)
        } else {
            Some(FileState::Removed)
        }
    } else if files.contains_key(name) {
        Some(FileState::Added)
    } else {
        None
    }
}

/// One file of a store.
#[derive(Debug, PartialEq, Eq)]
struct Entry {
    name: String,
    data: Vec<u8>,
}

/// Whether some entry has the name.
spec fn has(entries: Seq<Entry>, name: Seq<char>) -> bool {
    exists|i: int| 0 <= i < entries.len() && (#[trigger] entries[i]).name@ == name
}

/// The position of an entry with the name.
spec fn position(entries: Seq<Entry>, name: Seq<char>) -> int {
    choose|i: int| 0 <= i < entries.len() && (#[trigger] entries[i]).name@ == name
}

/// No two entries have the same name.
spec fn distinct(entries: Seq<Entry>) -> bool {
    forall|i: int, j: int|
        0 <= i < j < entries.len() ==> (#[trigger] entries[i]).name@ != (#[trigger] entries[j]).name@
}

/// The files that the entries hold.
spec fn as_files(entries: Seq<Entry>) -> Files {
    Map::new(|name: Seq<char>| has(entries, name), |name: Seq<char>| entries[position(entries, name)].data@)
}

/// The position of the entry with the name, if there is one.
fn find(entries: &Vec<Entry>, name: &str) -> (r: Option<usize>)
    ensures
        r is Some <==> has(entries@, name@),
        r matches Some(i) ==> i < entries@.len() && entries@[i as int].name@ == name@,
{
    let wanted = name.to_owned();
    let mut i: usize = 0;
    while i < entries.len()
        invariant
            i <= entries@.len(),
            wanted@ == name@,
            forall|k: int| 0 <= k < i ==> (#[trigger] entries@[k]).name@ != name@,
        decreases entries@.len() - i,
    {
        if entries[i].name == wanted {
            return Some(i);
        }
        i = i + 1;
    }
    None
}

/// A copy of the entries.
fn copy_entries(entries: &Vec<Entry>) -> (r: Vec<Entry>)
    ensures
        r@.len() == entries@.len(),
        forall|i: int|
            0 <= i < r@.len() ==> (#[trigger] r@[i]).name@ == entries@[i].name@ && r@[i].data@
                == entries@[i].data@,
        distinct(entries@) ==> distinct(r@) && as_files(r@) == as_files(entries@),
{
    let mut out: Vec<Entry> = Vec::new();
    let mut i: usize = 0;
    while i < entries.len()
        invariant
            i <= entries@.len(),
            out@.len() == i,
            forall|k: int|
                0 <= k < i ==> (#[trigger] out@[k]).name@ == entries@[k].name@ && out@[k].data@
                    == entries@[k].data@,
        decreases entries@.len() - i,
    {
        let name = entries[i].name.clone();
        let data = vstd::slice::slice_to_vec(entries[i].data.as_slice());
        out.push(Entry { name, data });
        i = i + 1;
    }
    proof {
        lemma_same_entries_same_files(out@, entries@);
    }
    out
}

/// Entries with the same names and contents hold the same files.
proof fn lemma_same_entries_same_files(a: Seq<Entry>, b: Seq<Entry>)
    requires
        a.len() == b.len(),
        forall|i: int|
            0 <= i < a.len() ==> (#[trigger] a[i]).name@ == b[i].name@ && a[i].data@ == b[i].data@,
    ensures
        distinct(b) ==> distinct(a),
        distinct(b) ==> as_files(a) == as_files(b),
{
    if distinct(b) {
        assert forall|i: int, j: int| 0 <= i < j < a.len() implies (#[trigger] a[i]).name@ != (
        #[trigger] a[j]).name@ by {
            assert(b[i].name@ != b[j].name@);
        }
        assert forall|name: Seq<char>| has(a, name) == has(b, name) by {
            if has(a, name) {
                let i = position(a, name);
                assert(b[i].name@ == name);
            }
            if has(b, name) {
                let i = position(b, name);
                assert(a[i].name@ == name);
            }
        }
        assert forall|name: Seq<char>| has(a, name) implies a[position(a, name)].data@ == b[position(
            b,
            name,
        )].data@ by {
            let i = position(a, name);
            let j = position(b, name);
            assert(b[i].name@ == name);
            if i < j {
                assert(b[i].name@ != b[j].name@);
            }
            if j < i {
                assert(b[j].name@ != b[i].name@);
            }
        }
        assert(as_files(a) =~= as_files(b));
    }
}


/// With distinct names, the entry at a position is the one that its name
/// finds.
proof fn lemma_position_is_unique(entries: Seq<Entry>, i: int)
    requires
        distinct(entries),
        0 <= i < entries.len(),
    ensures
        has(entries, entries[i].name@),
        position(entries, entries[i].name@) == i,
        as_files(entries).contains_key(entries[i].name@),
        as_files(entries)[entries[i].name@] == entries[i].data@,
{
    let j = position(entries, entries[i].name@);
    if i < j {
        assert(entries[i].name@ != entries[j].name@);
    }
    if j < i {
        assert(entries[j].name@ != entries[i].name@);
    }
}

/// The contents of the file with the name, if there is one.
fn get<'a>(entries: &'a Vec<Entry>, name: &str) -> (r: Option<&'a Vec<u8>>)
    requires
        distinct(entries@),
    ensures
        r is Some <==> as_files(entries@).contains_key(name@),
        r matches Some(data) ==> data@ == as_files(entries@)[name@],
{
    match find(entries, name) {
        Some(i) => {
            proof {
                lemma_position_is_unique(entries@, i as int);
            }
            Some(&entries[i].data)
        },
        None => None,
    }
}

/// Sets the contents of the file with the name, creating the file after
/// all others if it is not there.
fn put(entries: &mut Vec<Entry>, name: &str, data: Vec<u8>)
    requires
        distinct(old(entries)@),
    ensures
        distinct(final(entries)@),
        as_files(final(entries)@) == as_files(old(entries)@).insert(name@, data@),
{
    let ghost before = entries@;
    match find(entries, name) {
        Some(i) => {
            let owned = name.to_owned();
            entries.set(i, Entry { name: owned, data });
            proof {
                let after = entries@;
                assert forall|a: int, b: int| 0 <= a < b < after.len() implies (
                #[trigger] after[a]).name@ != (#[trigger] after[b]).name@ by {
                    assert(before[a].name@ != before[b].name@);
                }
                assert forall|n: Seq<char>| has(after, n) == has(before, n) by {
                    if has(after, n) {
                        assert(before[position(after, n)].name@ == n);
                    }
                    if has(before, n) {
                        assert(after[position(before, n)].name@ == n);
                    }
                }
                assert forall|n: Seq<char>| has(after, n) implies after[position(after, n)].data@
                    == as_files(before).insert(name@, data@)[n] by {
                    let k = position(after, n);
                    lemma_position_is_unique(after, k);
                    if k != i {
                        lemma_position_is_unique(before, k);
                    }
                }
                assert(as_files(after) =~= as_files(before).insert(name@, data@));
            }
        },
        None => {
            let owned = name.to_owned();
            entries.push(Entry { name: owned, data });
            proof {
                let after = entries@;
                let last = after.len() - 1;
                assert forall|a: int, b: int| 0 <= a < b < after.len() implies (
                #[trigger] after[a]).name@ != (#[trigger] after[b]).name@ by {
                    if b < last {
                        assert(before[a].name@ != before[b].name@);
                    } else {
                        assert(before[a].name@ != name@);
                    }
                }
                assert forall|n: Seq<char>| has(after, n) == (has(before, n) || n == name@) by {
                    if has(after, n) {
                        let k = position(after, n);
                        if k < last {
                            assert(before[k].name@ == n);
                        }
                    }
                    if has(before, n) {
                        assert(after[position(before, n)].name@ == n);
                    }
                    if n == name@ {
                        assert(after[last].name@ == n);
                    }
                }
                assert forall|n: Seq<char>| has(after, n) implies after[position(after, n)].data@
                    == as_files(before).insert(name@, data@)[n] by {
                    let k = position(after, n);
                    lemma_position_is_unique(after, k);
                    if k < last {
                        lemma_position_is_unique(before, k);
                    }
                }
                assert(as_files(after) =~= as_files(before).insert(name@, data@));
            }
        },
    }
}

/// Takes the file with the name out of the entries, if it is there.
fn take_out(entries: &mut Vec<Entry>, name: &str) -> (r: Option<Vec<u8>>)
    requires
        distinct(old(entries)@),
    ensures
        distinct(final(entries)@),
        r is Some <==> as_files(old(entries)@).contains_key(name@),
        r matches Some(data) ==> data@ == as_files(old(entries)@)[name@],
        as_files(final(entries)@) == as_files(old(entries)@).remove(name@),
        r is None ==> as_files(final(entries)@) == as_files(old(entries)@),
{
    let ghost before = entries@;
    match find(entries, name) {
        Some(i) => {
            proof {
                lemma_position_is_unique(before, i as int);
            }
            let entry = entries.remove(i);
            proof {
                let after = entries@;
                assert forall|k: int| 0 <= k < after.len() implies #[trigger] after[k] == before[if k
                    < i {
                    k
                } else {
                    k + 1
                }] by {}
                assert forall|a: int, b: int| 0 <= a < b < after.len() implies (
                #[trigger] after[a]).name@ != (#[trigger] after[b]).name@ by {
                    let a0 = if a < i {
                        a
                    } else {
                        a + 1
                    };
                    let b0 = if b < i {
                        b
                    } else {
                        b + 1
                    };
                    assert(before[a0].name@ != before[b0].name@);
                }
                assert forall|n: Seq<char>| has(after, n) == (has(before, n) && n != name@) by {
                    if has(after, n) {
                        let k = position(after, n);
                        let k0 = if k < i {
                            k
                        } else {
                            k + 1
                        };
                        assert(before[k0].name@ == n);
                        if n == name@ {
                            if k0 < i {
                                assert(before[k0].name@ != before[i as int].name@);
                            } else {
                                assert(before[i as int].name@ != before[k0].name@);
                            }
                        }
                    }
                    if has(before, n) && n != name@ {
                        let k0 = position(before, n);
                        let k = if k0 < i {
                            k0
                        } else {
                            k0 - 1
                        };
                        assert(after[k].name@ == n);
                    }
                }
                assert forall|n: Seq<char>| has(after, n) implies after[position(after, n)].data@
                    == as_files(before).remove(name@)[n] by {
                    let k = position(after, n);
                    let k0 = if k < i {
                        k
                    } else {
                        k + 1
                    };
                    lemma_position_is_unique(after, k);
                    lemma_position_is_unique(before, k0);
                }
                assert(as_files(after) =~= as_files(before).remove(name@));
            }
            Some(entry.data)
        },
        None => {
            assert(as_files(before) =~= as_files(before).remove(name@));
            None
        },
    }
}


/// `data` with `bytes` written at `offset`.
fn overwrite(data: &Vec<u8>, offset: usize, bytes: &[u8]) -> (r: Vec<u8>)
    requires
        offset <= data@.len(),
        offset + bytes@.len() <= usize::MAX,
    ensures
        r@ == overwritten(data@, offset as int, bytes@),
{
    let mut out: Vec<u8> = Vec::new();
    out.extend_from_slice(vstd::slice::slice_subrange(data.as_slice(), 0, offset));
    out.extend_from_slice(bytes);
    let end = offset + bytes.len();
    if end < data.len() {
        out.extend_from_slice(vstd::slice::slice_subrange(data.as_slice(), end, data.len()));
    }
    assert(out@ =~= overwritten(data@, offset as int, bytes@));
    out
}

/// `data` cut or extended with zeros to `size` bytes.
fn resize(data: &Vec<u8>, size: usize) -> (r: Vec<u8>)
    ensures
        r@ == resized(data@, size as int),
{
    let mut out: Vec<u8> = Vec::new();
    if size <= data.len() {
        out.extend_from_slice(vstd::slice::slice_subrange(data.as_slice(), 0, size));
        assert(out@ =~= resized(data@, size as int));
    } else {
        out.extend_from_slice(data.as_slice());
        let mut n: usize = data.len();
        while n < size
            invariant
                data@.len() <= n <= size,
                out@.len() == n,
                forall|k: int| 0 <= k < data@.len() ==> out@[k] == data@[k],
                forall|k: int| data@.len() <= k < n ==> out@[k] == 0u8,
            decreases size - n,
        {
            out.push(0u8);
            n = n + 1;
        }
        assert(out@ =~= resized(data@, size as int));
    }
    out
}

/// Copies `data` to the front of `buf` and hands out the part that was
/// written.
fn fill<'buf>(data: &[u8], buf: &'buf mut [u8]) -> (r: &'buf [u8])
    requires
        data@.len() <= old(buf)@.len(),
    ensures
        r@ == data@,
        final(buf)@ == data@ + old(buf)@.subrange(data@.len() as int, old(buf)@.len() as int),
{
    let mut i: usize = 0;
    while i < data.len()
        invariant
            i <= data@.len() <= buf@.len(),
            buf@.len() == old(buf)@.len(),
            forall|k: int| 0 <= k < i ==> buf@[k] == data@[k],
            forall|k: int| i <= k < buf@.len() ==> buf@[k] == old(buf)@[k],
        decreases data@.len() - i,
    {
        buf[i] = data[i];
        i = i + 1;
    }
    let n = data.len();
    let out = vstd::slice::slice_subrange(&*buf, 0, n);
    assert(out@ =~= data@);
    assert(buf@ =~= data@ + old(buf)@.subrange(data@.len() as int, old(buf)@.len() as int));
    out
}

/// An open file of a store.
#[derive(Debug, PartialEq, Eq)]
pub struct SecureFile {
    name: String,
}

impl SecureFile {
    /// The name under which the file was opened.
    pub closed spec fn name(&self) -> Seq<char> {
        self.name@
    }

    /// Gives the file up.
    pub fn close(self) {
    }
}

/// Whether an operation that must leave `wanted`, or fail with the given error
/// and leave the files as they were, has done so.
pub open spec fn settled(
    wanted: Result<Files, SysError>,
    before: Files,
    r: Result<(), Error>,
    after: Files,
) -> bool {
    match wanted {
        Ok(files) => r is Ok && after == files,
        Err(code) => r == Err::<(), Error>(Error::Code(code)) && after == before,
    }
}

/// Whether a read that must give `wanted` into a buffer that held `before`
/// has done so: the bytes read stand at the front of the buffer, the rest
/// of the buffer is as it was, and a failed read changes nothing.
pub open spec fn delivered(
    wanted: Result<Seq<u8>, SysError>,
    before: Seq<u8>,
    r: Result<&[u8], Error>,
    after: Seq<u8>,
) -> bool {
    match wanted {
        Ok(data) => r matches Ok(out) && out@ == data && after == data + before.subrange(
            data.len() as int,
            before.len() as int,
        ),
        Err(code) => r == Err::<&[u8], Error>(Error::Code(code)) && after == before,
    }
}

/// The files of the model, committed and as the open transaction sees
/// them.
#[derive(Debug, PartialEq, Eq)]
pub struct Session {
    committed: Vec<Entry>,
    current: Vec<Entry>,
}

impl Session {
    /// The files as they are committed.
    pub closed spec fn persisted(&self) -> Files {
        as_files(self.committed@)
    }

    /// The files as the open transaction sees them.
    pub closed spec fn files(&self) -> Files {
        as_files(self.current@)
    }

    /// The session is in a state that its own operations lead to.
    pub closed spec fn wf(&self) -> bool {
        distinct(self.committed@) && distinct(self.current@)
    }

    /// Forgets what is not committed.
    fn reset(&mut self)
        requires
            old(self).wf(),
        ensures
            final(self).wf(),
            final(self).persisted() == old(self).persisted(),
            final(self).files() == old(self).persisted(),
    {
        self.current = copy_entries(&self.committed);
    }

    /// Commits what the transaction sees.
    fn settle(&mut self)
        requires
            old(self).wf(),
        ensures
            final(self).wf(),
            final(self).persisted() == old(self).files(),
            final(self).files() == old(self).files(),
    {
        self.committed = copy_entries(&self.current);
    }

    fn open_file_impl(&mut self, name: &str, mode: OpenMode) -> (r: Result<SecureFile, Error>)
        requires
            old(self).wf(),
        ensures
            final(self).wf(),
            final(self).persisted() == old(self).persisted(),
            match opened(old(self).files(), name@, mode) {
                Ok(files) => r matches Ok(file) && file.name() == name@ && final(self).files()
                    == files,
                Err(code) => r == Err::<SecureFile, Error>(Error::Code(code)) && final(self).files()
                    == old(self).files(),
            },
    {
        let exists = get(&self.current, name).is_some();
        let create = match mode {
            OpenMode::Open => {
                if !exists {
                    return Err(Error::Code(SysError::NotFound));
                }
                false
            },
            OpenMode::Create => !exists,
            OpenMode::CreateExclusive => {
                if exists {
                    return Err(Error::Code(SysError::AlreadyExists));
                }
                true
            },
            OpenMode::TruncateExisting => {
                if !exists {
                    return Err(Error::Code(SysError::NotFound));
                }
                true
            },
            OpenMode::TruncateOrCreate => true,
        };
        if create {
            put(&mut self.current, name, Vec::new());
        }
        Ok(SecureFile { name: name.to_owned() })
    }

    fn read_all_impl<'buf>(&self, file: &SecureFile, buf: &'buf mut [u8]) -> (r: Result<
        &'buf [u8],
        Error,
    >)
        requires
            self.wf(),
        ensures
            delivered(
                read_whole(self.files(), file.name(), old(buf)@.len() as int),
                old(buf)@,
                r,
                final(buf)@,
            ),
    {
        match get(&self.current, file.name.as_str()) {
            None => Err(Error::Code(SysError::NotFound)),
            Some(data) => {
                if data.len() > buf.len() {
                    Err(Error::Code(SysError::NotEnoughBuffer))
                } else {
                    Ok(fill(data.as_slice(), buf))
                }
            },
        }
    }

    fn read_at_impl<'buf>(&self, file: &SecureFile, offset: usize, buf: &'buf mut [u8]) -> (r:
        Result<&'buf [u8], Error>)
        requires
            self.wf(),
        ensures
            delivered(
                read_from(self.files(), file.name(), offset as int, old(buf)@.len() as int),
                old(buf)@,
                r,
                final(buf)@,
            ),
    {
        match get(&self.current, file.name.as_str()) {
            None => Err(Error::Code(SysError::NotFound)),
            Some(data) => {
                if offset > data.len() {
                    Err(Error::Code(SysError::InvalidArgs))
                } else {
                    let rest = data.len() - offset;
                    let count = if rest < buf.len() {
                        rest
                    } else {
                        buf.len()
                    };
                    let part = vstd::slice::slice_subrange(data.as_slice(), offset, offset + count);
                    Ok(fill(part, buf))
                }
            },
        }
    }

    fn write_all_impl(&mut self, file: &mut SecureFile, buf: &[u8]) -> (r: Result<(), Error>)
        requires
            old(self).wf(),
        ensures
            final(self).wf(),
            final(self).persisted() == old(self).persisted(),
            final(file).name() == old(file).name(),
            settled(
                written(old(self).files(), old(file).name(), buf@),
                old(self).files(),
                r,
                final(self).files(),
            ),
    {
        if get(&self.current, file.name.as_str()).is_none() {
            return Err(Error::Code(SysError::NotFound));
        }
        put(&mut self.current, file.name.as_str(), vstd::slice::slice_to_vec(buf));
        Ok(())
    }

    fn write_at_impl(&mut self, file: &mut SecureFile, offset: usize, buf: &[u8]) -> (r: Result<
        (),
        Error,
    >)
        requires
            old(self).wf(),
        ensures
            final(self).wf(),
            final(self).persisted() == old(self).persisted(),
            final(file).name() == old(file).name(),
            settled(
                written_at(old(self).files(), old(file).name(), offset as int, buf@),
                old(self).files(),
                r,
                final(self).files(),
            ),
    {
        let data = match get(&self.current, file.name.as_str()) {
            None => {
                return Err(Error::Code(SysError::NotFound));
            },
            Some(data) => {
                if offset > data.len() || buf.len() > usize::MAX - offset {
                    return Err(Error::Code(SysError::InvalidArgs));
                }
                overwrite(data, offset, buf)
            },
        };
        put(&mut self.current, file.name.as_str(), data);
        Ok(())
    }

    fn get_size_impl(&self, file: &SecureFile) -> (r: Result<usize, Error>)
        requires
            self.wf(),
        ensures
            match r {
                Ok(size) => self.files().contains_key(file.name()) && size == self.files()[file.name()].len(),
                Err(e) => !self.files().contains_key(file.name()) && e == Error::Code(SysError::NotFound),
            },
    {
        match get(&self.current, file.name.as_str()) {
            None => Err(Error::Code(SysError::NotFound)),
            Some(data) => Ok(data.len()),
        }
    }

    fn set_size_impl(&mut self, file: &mut SecureFile, size: usize) -> (r: Result<(), Error>)
        requires
            old(self).wf(),
        ensures
            final(self).wf(),
            final(self).persisted() == old(self).persisted(),
            final(file).name() == old(file).name(),
            settled(
                sized(old(self).files(), old(file).name(), size as int),
                old(self).files(),
                r,
                final(self).files(),
            ),
    {
        let data = match get(&self.current, file.name.as_str()) {
            None => {
                return Err(Error::Code(SysError::NotFound));
            },
            Some(data) => resize(data, size),
        };
        put(&mut self.current, file.name.as_str(), data);
        Ok(())
    }

    fn rename_impl(&mut self, from: &str, to: &str) -> (r: Result<(), Error>)
        requires
            old(self).wf(),
        ensures
            final(self).wf(),
            final(self).persisted() == old(self).persisted(),
            settled(
                renamed(old(self).files(), from@, to@),
                old(self).files(),
                r,
                final(self).files(),
            ),
    {
        match take_out(&mut self.current, from) {
            None => Err(Error::Code(SysError::NotFound)),
            Some(data) => {
                put(&mut self.current, to, data);
                Ok(())
            },
        }
    }

    fn remove_impl(&mut self, name: &str) -> (r: Result<(), Error>)
        requires
            old(self).wf(),
        ensures
            final(self).wf(),
            final(self).persisted() == old(self).persisted(),
            settled(removed(old(self).files(), name@), old(self).files(), r, final(self).files()),
    {
        match take_out(&mut self.current, name) {
            None => Err(Error::Code(SysError::NotFound)),
            Some(_) => Ok(()),
        }
    }
}


/// Whether one of the first `count` entries has the name.
spec fn among(entries: Seq<Entry>, count: int, name: Seq<char>) -> bool {
    exists|m: int| 0 <= m < count && (#[trigger] entries[m]).name@ == name
}

/// Whether the list names the file.
spec fn listed(list: Seq<(String, FileState)>, name: Seq<char>) -> bool {
    exists|k: int| 0 <= k < list.len() && (#[trigger] list[k]).0@ == name
}

/// Whether `list` names every file that is committed or seen by the
/// transaction exactly once, each with its state, the files that the
/// transaction has added after all others.
pub open spec fn lists(list: Seq<(String, FileState)>, persisted: Files, files: Files) -> bool {
    &&& forall|k: int|
        0 <= k < list.len() ==> state_of(persisted, files, (#[trigger] list[k]).0@) == Some(
            list[k].1,
        )
    &&& forall|name: Seq<char>|
        persisted.contains_key(name) || files.contains_key(name) ==> exists|k: int|
            0 <= k < list.len() && (#[trigger] list[k]).0@ == name
    &&& forall|i: int, j: int|
        0 <= i < j < list.len() ==> (#[trigger] list[i]).0@ != (#[trigger] list[j]).0@
    &&& forall|i: int, j: int|
        0 <= i < j < list.len() && (#[trigger] list[i]).1 == FileState::Added ==> (
        #[trigger] list[j]).1 == FileState::Added
}

impl Session {
    #[verifier::loop_isolation(false)]
    fn list_files_impl(&self) -> (r: Vec<(String, FileState)>)
        requires
            self.wf(),
        ensures
            lists(r@, self.persisted(), self.files()),
    {
        let mut out: Vec<(String, FileState)> = Vec::new();
        let mut i: usize = 0;
        while i < self.committed.len()
            invariant
                i <= self.committed@.len(),
                out@.len() == i,
                forall|k: int|
                    0 <= k < i ==> (#[trigger] out@[k]).0@ == self.committed@[k].name@ && state_of(
                        self.persisted(),
                        self.files(),
                        out@[k].0@,
                    ) == Some(out@[k].1),
                forall|k: int| 0 <= k < i ==> (#[trigger] out@[k]).1 != FileState::Added,
            decreases self.committed@.len() - i,
        {
            let name = self.committed[i].name.clone();
            proof {
                lemma_position_is_unique(self.committed@, i as int);
            }
            let state = if get(&self.current, name.as_str()).is_some() {
                FileState::Committed
            } else {
                FileState::Removed
            };
            out.push((name, state));
            i = i + 1;
        }
        let first = out.len();
        let mut j: usize = 0;
        while j < self.current.len()
            invariant
                j <= self.current@.len(),
                first == self.committed@.len(),
                first <= out@.len(),
                forall|k: int|
                    0 <= k < first ==> (#[trigger] out@[k]).0@ == self.committed@[k].name@,
                forall|k: int|
                    0 <= k < out@.len() ==> state_of(
                        self.persisted(),
                        self.files(),
                        (#[trigger] out@[k]).0@,
                    ) == Some(out@[k].1),
                forall|k: int| 0 <= k < first ==> (#[trigger] out@[k]).1 != FileState::Added,
                forall|k: int| first <= k < out@.len() ==> (#[trigger] out@[k]).1 == FileState::Added,
                forall|k: int|
                    first <= k < out@.len() ==> among(self.current@, j as int, (#[trigger] out@[k]).0@),
                forall|m: int| 0 <= m < j ==> listed(out@, (#[trigger] self.current@[m]).name@),
                forall|a: int, b: int|
                    0 <= a < b < out@.len() ==> (#[trigger] out@[a]).0@ != (#[trigger] out@[b]).0@,
            decreases self.current@.len() - j,
        {
            let name = self.current[j].name.clone();
            proof {
                lemma_position_is_unique(self.current@, j as int);
            }
            let ghost before = out@;
            match find(&self.committed, name.as_str()) {
                Some(at) => {
                    assert(out@[at as int].0@ == name@);
                    assert forall|k: int| first <= k < out@.len() implies among(
                        self.current@,
                        j + 1,
                        (#[trigger] out@[k]).0@,
                    ) by {
                        let m = choose|m: int|
                            0 <= m < j && (#[trigger] self.current@[m]).name@ == out@[k].0@;
                        assert(self.current@[m].name@ == out@[k].0@);
                    }
                },
                None => {
                    out.push((name, FileState::Added));
                    proof {
                        let last = out@.len() - 1;
                        assert(out@[last].0@ == name@);
                        assert forall|a: int, b: int| 0 <= a < b < out@.len() implies (
                        #[trigger] out@[a]).0@ != (#[trigger] out@[b]).0@ by {
                            if b == last {
                                if a < first {
                                    assert(self.committed@[a].name@ == out@[a].0@);
                                } else {
                                    assert(before[a] == out@[a]);
                                    assert(among(self.current@, j as int, before[a].0@));
                                    let m = choose|m: int|
                                        0 <= m < j && (#[trigger] self.current@[m]).name@
                                            == before[a].0@;
                                    assert(self.current@[m].name@ != self.current@[j as int].name@);
                                }
                            } else {
                                assert(before[a] == out@[a] && before[b] == out@[b]);
                            }
                        }
                        assert forall|k: int| first <= k < out@.len() implies among(
                            self.current@,
                            j + 1,
                            (#[trigger] out@[k]).0@,
                        ) by {
                            if k == last {
                                assert(self.current@[j as int].name@ == out@[k].0@);
                            } else {
                                assert(before[k] == out@[k]);
                                assert(among(self.current@, j as int, before[k].0@));
                                let m = choose|m: int|
                                    0 <= m < j && (#[trigger] self.current@[m]).name@
                                        == before[k].0@;
                                assert(self.current@[m].name@ == out@[k].0@);
                            }
                        }
                        assert forall|m: int| 0 <= m < j implies listed(
                            out@,
                            (#[trigger] self.current@[m]).name@,
                        ) by {
                            assert(listed(before, self.current@[m].name@));
                            let k = choose|k: int|
                                0 <= k < before.len() && (#[trigger] before[k]).0@
                                    == self.current@[m].name@;
                            assert(out@[k] == before[k]);
                        }
                    }
                },
            }
            j = j + 1;
        }
        proof {
            assert forall|name: Seq<char>|
                self.persisted().contains_key(name) || self.files().contains_key(
                    name,
                ) implies exists|k: int| 0 <= k < out@.len() && (#[trigger] out@[k]).0@ == name by {
                if self.persisted().contains_key(name) {
                    let k = position(self.committed@, name);
                    assert(out@[k].0@ == name);
                } else {
                    let m = position(self.current@, name);
                    assert(listed(out@, self.current@[m].name@));
                }
            }
        }
        out
    }

    /// Connects to the store behind `port`. A port that does not exist is
    /// `NotFound`, whether or not the caller is willing to wait for it.
    pub fn new(port: Port, wait_for_port: bool) -> (r: Result<Session, Error>)
        ensures
            r is Ok <==> port != Port::TestPortNonExistent,
            r matches Ok(session) ==> session.wf() && session.persisted() == Files::empty()
                && session.files() == Files::empty(),
            r matches Err(e) ==> e == Error::Code(SysError::NotFound),
    {
        match port {
            Port::TestPortNonExistent => Err(Error::Code(SysError::NotFound)),
            _ => {
                let session = Session { committed: Vec::new(), current: Vec::new() };
                assert(session.persisted() =~= Files::empty());
                assert(session.files() =~= Files::empty());
                Ok(session)
            },
        }
    }

    /// Ends the session.
    pub fn close(self) {
    }

    /// Opens the file `name` as `mode` says and commits what that changes.
    pub fn open_file(&mut self, name: &str, mode: OpenMode) -> (r: Result<SecureFile, Error>)
        requires
            old(self).wf(),
        ensures
            final(self).wf(),
            final(self).files() == final(self).persisted(),
            match opened(old(self).persisted(), name@, mode) {
                Ok(files) => r matches Ok(file) && file.name() == name@ && final(self).persisted()
                    == files,
                Err(code) => r == Err::<SecureFile, Error>(Error::Code(code)) && final(self).persisted() == old(self).persisted(),
            },
    {
        self.reset();
        let r = self.open_file_impl(name, mode);
        self.settle();
        r
    }

    /// Reads the whole committed file `name` into `buf` and hands out the
    /// part of `buf` that holds it.
    pub fn read<'buf>(&mut self, name: &str, buf: &'buf mut [u8]) -> (r: Result<&'buf [u8], Error>)
        requires
            old(self).wf(),
        ensures
            final(self).wf(),
            final(self).persisted() == old(self).persisted(),
            final(self).files() == final(self).persisted(),
            delivered(
                read_whole(old(self).persisted(), name@, old(buf)@.len() as int),
                old(buf)@,
                r,
                final(buf)@,
            ),
    {
        self.reset();
        let file = SecureFile { name: name.to_owned() };
        self.read_all_impl(&file, buf)
    }

    /// Makes `data` the committed contents of the file `name`, creating the
    /// file if it does not exist.
    pub fn write(&mut self, name: &str, data: &[u8]) -> (r: Result<(), Error>)
        requires
            old(self).wf(),
        ensures
            final(self).wf(),
            r is Ok,
            final(self).persisted() == old(self).persisted().insert(name@, data@),
            final(self).files() == final(self).persisted(),
    {
        self.reset();
        put(&mut self.current, name, vstd::slice::slice_to_vec(data));
        self.settle();
        Ok(())
    }

    /// Reads the whole committed file into `buf` and hands out the part of
    /// `buf` that holds it; `NotEnoughBuffer` if the file is longer than
    /// `buf`.
    pub fn read_all<'buf>(&mut self, file: &SecureFile, buf: &'buf mut [u8]) -> (r: Result<
        &'buf [u8],
        Error,
    >)
        requires
            old(self).wf(),
        ensures
            final(self).wf(),
            final(self).persisted() == old(self).persisted(),
            final(self).files() == final(self).persisted(),
            delivered(
                read_whole(old(self).persisted(), file.name(), old(buf)@.len() as int),
                old(buf)@,
                r,
                final(buf)@,
            ),
    {
        self.reset();
        self.read_all_impl(file, buf)
    }

    /// Reads the committed file from `offset` on, as far as `buf` has room.
    pub fn read_at<'buf>(&mut self, file: &SecureFile, offset: usize, buf: &'buf mut [u8]) -> (r:
        Result<&'buf [u8], Error>)
        requires
            old(self).wf(),
        ensures
            final(self).wf(),
            final(self).persisted() == old(self).persisted(),
            final(self).files() == final(self).persisted(),
            delivered(
                read_from(old(self).persisted(), file.name(), offset as int, old(buf)@.len() as int),
                old(buf)@,
                r,
                final(buf)@,
            ),
    {
        self.reset();
        self.read_at_impl(file, offset, buf)
    }

    /// Makes `buf` the committed contents of the file.
    pub fn write_all(&mut self, file: &mut SecureFile, buf: &[u8]) -> (r: Result<(), Error>)
        requires
            old(self).wf(),
        ensures
            final(self).wf(),
            final(file).name() == old(file).name(),
            final(self).files() == final(self).persisted(),
            settled(
                written(old(self).persisted(), old(file).name(), buf@),
                old(self).persisted(),
                r,
                final(self).persisted(),
            ),
    {
        self.reset();
        let r = self.write_all_impl(file, buf);
        self.settle();
        r
    }

    /// Writes `buf` into the committed file at `offset`.
    pub fn write_at(&mut self, file: &mut SecureFile, offset: usize, buf: &[u8]) -> (r: Result<
        (),
        Error,
    >)
        requires
            old(self).wf(),
        ensures
            final(self).wf(),
            final(file).name() == old(file).name(),
            final(self).files() == final(self).persisted(),
            settled(
                written_at(old(self).persisted(), old(file).name(), offset as int, buf@),
                old(self).persisted(),
                r,
                final(self).persisted(),
            ),
    {
        self.reset();
        let r = self.write_at_impl(file, offset, buf);
        self.settle();
        r
    }

    /// The size of the committed file in bytes.
    pub fn get_size(&mut self, file: &SecureFile) -> (r: Result<usize, Error>)
        requires
            old(self).wf(),
        ensures
            final(self).wf(),
            final(self).persisted() == old(self).persisted(),
            final(self).files() == final(self).persisted(),
            match r {
                Ok(size) => old(self).persisted().contains_key(file.name()) && size == old(self).persisted()[file.name()].len(),
                Err(e) => !old(self).persisted().contains_key(file.name()) && e == Error::Code(SysError::NotFound),
            },
    {
        self.reset();
        self.get_size_impl(file)
    }

    /// Cuts the committed file, or extends it with zeros, to `size` bytes.
    pub fn set_size(&mut self, file: &mut SecureFile, size: usize) -> (r: Result<(), Error>)
        requires
            old(self).wf(),
        ensures
            final(self).wf(),
            final(file).name() == old(file).name(),
            final(self).files() == final(self).persisted(),
            settled(
                sized(old(self).persisted(), old(file).name(), size as int),
                old(self).persisted(),
                r,
                final(self).persisted(),
            ),
    {
        self.reset();
        let r = self.set_size_impl(file, size);
        self.settle();
        r
    }

    /// Renames the committed file `from` to `to`. That `from` is open
    /// is no obstacle here: open files are not known to the model.
    pub fn rename(&mut self, from: &str, to: &str) -> (r: Result<(), Error>)
        requires
            old(self).wf(),
        ensures
            final(self).wf(),
            final(self).files() == final(self).persisted(),
            settled(
                renamed(old(self).persisted(), from@, to@),
                old(self).persisted(),
                r,
                final(self).persisted(),
            ),
    {
        self.reset();
        let r = self.rename_impl(from, to);
        self.settle();
        r
    }

    /// Removes the committed file `name`. That the file is open is no
    /// obstacle here: open files are not known to the model.
    pub fn remove(&mut self, name: &str) -> (r: Result<(), Error>)
        requires
            old(self).wf(),
        ensures
            final(self).wf(),
            final(self).files() == final(self).persisted(),
            settled(
                removed(old(self).persisted(), name@),
                old(self).persisted(),
                r,
                final(self).persisted(),
            ),
    {
        self.reset();
        let r = self.remove_impl(name);
        self.settle();
        r
    }

    /// The committed files, each once, all in the state `Committed`.
    /// The order among them is not stated.
    pub fn list_files(&mut self) -> (r: Result<Vec<(String, FileState)>, Error>)
        requires
            old(self).wf(),
        ensures
            final(self).wf(),
            final(self).persisted() == old(self).persisted(),
            final(self).files() == final(self).persisted(),
            r matches Ok(list) && lists(list@, old(self).persisted(), old(self).persisted()),
    {
        self.reset();
        Ok(self.list_files_impl())
    }

    /// Starts a transaction on the committed files.
    pub fn begin_transaction(&mut self) -> (t: Transaction<'_>)
        requires
            old(self).wf(),
        ensures
            t.session.wf(),
            t.session.persisted() == old(self).persisted(),
            t.session.files() == old(self).persisted(),
            *final(self) == *final(t.session),
    {
        self.reset();
        Transaction { session: self }
    }
}

/// A group of changes that are committed together or not at all.
pub struct Transaction<'s> {
    pub session: &'s mut Session,
}

impl<'s> Transaction<'s> {
    /// Commits the changes of the transaction.
    pub fn commit(self) -> (r: Result<(), Error>)
        requires
            old(self.session).wf(),
        ensures
            r is Ok,
            final(self.session).wf(),
            final(self.session).persisted() == old(self.session).files(),
            final(self.session).files() == old(self.session).files(),
    {
        self.end_transaction(true)
    }

    /// Ends the transaction and forgets its changes.
    pub fn discard(self) -> (r: Result<(), Error>)
        requires
            old(self.session).wf(),
        ensures
            r is Ok,
            final(self.session).wf(),
            final(self.session).persisted() == old(self.session).persisted(),
            final(self.session).files() == old(self.session).persisted(),
    {
        self.end_transaction(false)
    }

    fn end_transaction(self, complete: bool) -> (r: Result<(), Error>)
        requires
            old(self.session).wf(),
        ensures
            r is Ok,
            final(self.session).wf(),
            final(self.session).files() == final(self.session).persisted(),
            final(self.session).persisted() == if complete {
                old(self.session).files()
            } else {
                old(self.session).persisted()
            },
    {
        if complete {
            self.session.settle();
        } else {
            self.session.reset();
        }
        Ok(())
    }

    /// Opens the file `name` as `mode` says; what that changes is part of
    /// the transaction.
    pub fn open_file(&mut self, name: &str, mode: OpenMode) -> (r: Result<SecureFile, Error>)
        requires
            old(self).session.wf(),
        ensures
            final(self).session.wf(),
            *final(final(self).session) == *final(old(self).session),
            final(self).session.persisted() == old(self).session.persisted(),
            match opened(old(self).session.files(), name@, mode) {
                Ok(files) => r matches Ok(file) && file.name() == name@ && final(self).session.files() == files,
                Err(code) => r == Err::<SecureFile, Error>(Error::Code(code)) && final(self).session.files() == old(self).session.files(),
            },
    {
        self.session.open_file_impl(name, mode)
    }

    /// Reads the whole file, as the transaction sees it, into `buf` and
    /// hands out the part of `buf` that holds it; `NotEnoughBuffer` if the
    /// file is longer than `buf`.
    pub fn read_all<'buf>(&mut self, file: &SecureFile, buf: &'buf mut [u8]) -> (r: Result<
        &'buf [u8],
        Error,
    >)
        requires
            old(self).session.wf(),
        ensures
            *final(self).session == *old(self).session,
            *final(final(self).session) == *final(old(self).session),
            delivered(
                read_whole(old(self).session.files(), file.name(), old(buf)@.len() as int),
                old(buf)@,
                r,
                final(buf)@,
            ),
    {
        self.session.read_all_impl(file, buf)
    }

    /// Reads the file, as the transaction sees it, from `offset` on, as far
    /// as `buf` has room.
    pub fn read_at<'buf>(&mut self, file: &SecureFile, offset: usize, buf: &'buf mut [u8]) -> (r:
        Result<&'buf [u8], Error>)
        requires
            old(self).session.wf(),
        ensures
            *final(self).session == *old(self).session,
            *final(final(self).session) == *final(old(self).session),
            delivered(
                read_from(
                    old(self).session.files(),
                    file.name(),
                    offset as int,
                    old(buf)@.len() as int,
                ),
                old(buf)@,
                r,
                final(buf)@,
            ),
    {
        self.session.read_at_impl(file, offset, buf)
    }

    /// Makes `buf` the contents of the file in the transaction.
    pub fn write_all(&mut self, file: &mut SecureFile, buf: &[u8]) -> (r: Result<(), Error>)
        requires
            old(self).session.wf(),
        ensures
            final(self).session.wf(),
            *final(final(self).session) == *final(old(self).session),
            final(self).session.persisted() == old(self).session.persisted(),
            final(file).name() == old(file).name(),
            settled(
                written(old(self).session.files(), old(file).name(), buf@),
                old(self).session.files(),
                r,
                final(self).session.files(),
            ),
    {
        self.session.write_all_impl(file, buf)
    }

    /// Writes `buf` into the file at `offset` in the transaction.
    pub fn write_at(&mut self, file: &mut SecureFile, offset: usize, buf: &[u8]) -> (r: Result<
        (),
        Error,
    >)
        requires
            old(self).session.wf(),
        ensures
            final(self).session.wf(),
            *final(final(self).session) == *final(old(self).session),
            final(self).session.persisted() == old(self).session.persisted(),
            final(file).name() == old(file).name(),
            settled(
                written_at(old(self).session.files(), old(file).name(), offset as int, buf@),
                old(self).session.files(),
                r,
                final(self).session.files(),
            ),
    {
        self.session.write_at_impl(file, offset, buf)
    }

    /// The size in bytes of the file as the transaction sees it.
    pub fn get_size(&mut self, file: &SecureFile) -> (r: Result<usize, Error>)
        requires
            old(self).session.wf(),
        ensures
            *final(self).session == *old(self).session,
            *final(final(self).session) == *final(old(self).session),
            match r {
                Ok(size) => old(self).session.files().contains_key(file.name()) && size == old(self).session.files()[file.name()].len(),
                Err(e) => !old(self).session.files().contains_key(file.name()) && e == Error::Code(SysError::NotFound),
            },
    {
        self.session.get_size_impl(file)
    }

    /// Cuts the file, or extends it with zeros, to `size` bytes in the
    /// transaction.
    pub fn set_size(&mut self, file: &mut SecureFile, size: usize) -> (r: Result<(), Error>)
        requires
            old(self).session.wf(),
        ensures
            final(self).session.wf(),
            *final(final(self).session) == *final(old(self).session),
            final(self).session.persisted() == old(self).session.persisted(),
            final(file).name() == old(file).name(),
            settled(
                sized(old(self).session.files(), old(file).name(), size as int),
                old(self).session.files(),
                r,
                final(self).session.files(),
            ),
    {
        self.session.set_size_impl(file, size)
    }

    /// Renames `from` to `to` in the transaction. That `from` is open is
    /// no obstacle here: open files are not known to the model.
    pub fn rename(&mut self, from: &str, to: &str) -> (r: Result<(), Error>)
        requires
            old(self).session.wf(),
        ensures
            final(self).session.wf(),
            *final(final(self).session) == *final(old(self).session),
            final(self).session.persisted() == old(self).session.persisted(),
            settled(
                renamed(old(self).session.files(), from@, to@),
                old(self).session.files(),
                r,
                final(self).session.files(),
            ),
    {
        self.session.rename_impl(from, to)
    }

    /// Removes the file `name` in the transaction. That the file is open
    /// is no obstacle here: open files are not known to the model.
    pub fn remove(&mut self, name: &str) -> (r: Result<(), Error>)
        requires
            old(self).session.wf(),
        ensures
            final(self).session.wf(),
            *final(final(self).session) == *final(old(self).session),
            final(self).session.persisted() == old(self).session.persisted(),
            settled(
                removed(old(self).session.files(), name@),
                old(self).session.files(),
                r,
                final(self).session.files(),
            ),
    {
        self.session.remove_impl(name)
    }

    /// The files that are committed or seen by the transaction, each once,
    /// with its state: first those that are committed or removed, then
    /// those that the transaction has added. The order within each of the
    /// two groups is not stated.
    pub fn list_files(&mut self) -> (r: Result<Vec<(String, FileState)>, Error>)
        requires
            old(self).session.wf(),
        ensures
            *final(self).session == *old(self).session,
            *final(final(self).session) == *final(old(self).session),
            r matches Ok(list) && lists(
                list@,
                old(self).session.persisted(),
                old(self).session.files(),
            ),
    {
        Ok(self.session.list_files_impl())
    }
}

} // verus!
