//! A store of secrets by key, kept as one file per secret.
//!
//! The file of a secret is named after its key: a fixed prefix followed by
//! the key in hexadecimal. Keys are not confidential.
//!
//! The files are those of the model in [`crate::storage`]: a
//! [`SecureStore`] keeps its secrets in memory, and they are gone with it.

use crate::error::SysError;
use crate::storage::{Error, FileState, Files, OpenMode, Port, Session};
use crate::uuid::{hex_text, hex_value, lemma_hex_text_shape, lemma_hex_value_of_text, pow16, push_hex};
use vstd::prelude::*;
use vstd::string::*;

verus! {

/// The failure of an operation of the store of secrets.
#[derive(Clone, Copy, Debug, PartialEq, Eq, Structural)]
pub enum StoreError {
    /// The storage underneath failed.
    UnexpectedError,
}

/// The prefix of the name of every file that holds a secret.
pub open spec fn prefix() -> Seq<char> {
    seq!['v', '1', '_']
}

/// The bytes of `key` in hexadecimal, two lower-case digits for each.
pub open spec fn key_hex(key: Seq<u8>) -> Seq<char>
    decreases key.len(),
{
    if key.len() == 0 {
        Seq::empty()
    } else {
        key_hex(key.drop_last()) + hex_text(key.last() as nat, 2)
    }
}

/// The name of the file that holds the secret of `key`.
pub open spec fn filename_of(key: Seq<u8>) -> Seq<char> {
    prefix() + key_hex(key)
}

/// Whether `name` starts with the prefix of the files of secrets.
pub open spec fn has_prefix(name: Seq<char>) -> bool {
    name.len() >= 3 && name[0] == 'v' && name[1] == '1' && name[2] == '_'
}

/// The hexadecimal form of a key has two digits for each byte.
pub proof fn lemma_key_hex_len(key: Seq<u8>)
    ensures
        key_hex(key).len() == 2 * key.len(),
    decreases key.len(),
{
    if key.len() > 0 {
        lemma_key_hex_len(key.drop_last());
        lemma_hex_text_shape(key.last() as nat, 2);
    }
}

/// Different keys have different hexadecimal forms.
pub proof fn lemma_key_hex_injective(a: Seq<u8>, b: Seq<u8>)
    requires
        key_hex(a) == key_hex(b),
    ensures
        a == b,
    decreases a.len(),
{
    lemma_key_hex_len(a);
    lemma_key_hex_len(b);
    if a.len() > 0 {
        let ha = key_hex(a.drop_last());
        let hb = key_hex(b.drop_last());
        let ta = hex_text(a.last() as nat, 2);
        let tb = hex_text(b.last() as nat, 2);
        lemma_key_hex_len(a.drop_last());
        lemma_key_hex_len(b.drop_last());
        lemma_hex_text_shape(a.last() as nat, 2);
        lemma_hex_text_shape(b.last() as nat, 2);
        assert(ha =~= key_hex(a).subrange(0, ha.len() as int));
        assert(hb =~= key_hex(b).subrange(0, hb.len() as int));
        assert(ta =~= key_hex(a).subrange(ha.len() as int, key_hex(a).len() as int));
        assert(tb =~= key_hex(b).subrange(hb.len() as int, key_hex(b).len() as int));
        reveal_with_fuel(pow16, 3);
        lemma_hex_value_of_text(a.last() as nat, 2);
        lemma_hex_value_of_text(b.last() as nat, 2);
        assert(hex_value(ta) == hex_value(tb));
        lemma_key_hex_injective(a.drop_last(), b.drop_last());
        assert(a =~= a.drop_last().push(a.last()));
        assert(b =~= b.drop_last().push(b.last()));
    } else {
        assert(a =~= b);
    }
}

/// Different keys are kept in different files, and every file of a secret
/// has the prefix.
pub proof fn lemma_filename_injective(a: Seq<u8>, b: Seq<u8>)
    ensures
        has_prefix(filename_of(a)),
        filename_of(a) == filename_of(b) ==> a == b,
{
    if filename_of(a) == filename_of(b) {
        assert(key_hex(a) =~= filename_of(a).subrange(3, filename_of(a).len() as int));
        assert(key_hex(b) =~= filename_of(b).subrange(3, filename_of(b).len() as int));
        lemma_key_hex_injective(a, b);
    }
}

/// The name of the file that holds the secret of `key`.
pub fn filename(key: &[u8]) -> (r: String)
    ensures
        r@ == filename_of(key@),
{
    let mut result = String::new();
    proof {
        reveal_strlit("v1_");
    }
    result.append("v1_");
    assert(result@ =~= prefix());
    let mut i: usize = 0;
    assert(key@.subrange(0, 0) =~= Seq::<u8>::empty());
    while i < key.len()
        invariant
            i <= key@.len(),
            result@ == prefix() + key_hex(key@.subrange(0, i as int)),
        decreases key@.len() - i,
    {
        let ghost before = result@;
        push_hex(&mut result, key[i] as u64, 2);
        proof {
            let part = key@.subrange(0, i + 1);
            assert(part.drop_last() =~= key@.subrange(0, i as int));
            assert(part.last() == key@[i as int]);
            assert(result@ =~= prefix() + key_hex(part));
        }
        i = i + 1;
    }
    assert(key@.subrange(0, i as int) =~= key@);
    result
}

/// Whether `name` starts with the prefix of the files of secrets.
pub fn is_secret_file(name: &str) -> (r: bool)
    ensures
        r == has_prefix(name@),
{
    if name.unicode_len() < 3 {
        return false;
    }
    name.get_char(0) == 'v' && name.get_char(1) == '1' && name.get_char(2) == '_'
}


/// Whether one of the first `count` entries of the list names the file.
spec fn seen(list: Seq<(String, FileState)>, count: int, name: Seq<char>) -> bool {
    exists|k: int| 0 <= k < count && (#[trigger] list[k]).0@ == name
}

/// The secret that `files` hold for `key`, if any.
pub open spec fn secret_in(files: Files, key: Seq<u8>) -> Option<Seq<u8>> {
    if files.contains_key(filename_of(key)) {
        Some(files[filename_of(key)])
    } else {
        None
    }
}

/// A store of secrets by key, over the in-memory model of the storage.
pub struct SecureStore {
    session: Session,
}

impl Default for SecureStore {
    /// A store without secrets.
    fn default() -> (r: Self)
        ensures
            r.wf(),
            r.files() == Files::empty(),
    {
        match Session::new(Port::TamperDetect, true) {
            Ok(session) => SecureStore { session },
            Err(_) => {
                loop
                    invariant
                        false,
                    decreases 0int,
                {
                }
            },
        }
    }
}

impl SecureStore {
    /// The committed files of the storage underneath.
    pub closed spec fn files(&self) -> Files {
        self.session.persisted()
    }

    /// The store is in a state that its own operations lead to.
    pub closed spec fn wf(&self) -> bool {
        self.session.wf()
    }

    /// The secret kept for `key`, if any.
    pub open spec fn secret(&self, key: Seq<u8>) -> Option<Seq<u8>> {
        secret_in(self.files(), key)
    }

    /// Keeps `val` as the secret of `key`, in place of any secret that the
    /// key had.
    pub fn store(&mut self, key: &[u8], val: &[u8]) -> (r: Result<(), StoreError>)
        requires
            old(self).wf(),
        ensures
            final(self).wf(),
            r is Ok,
            final(self).files() == old(self).files().insert(filename_of(key@), val@),
            forall|k: Seq<u8>|
                #[trigger] final(self).secret(k) == if k == key@ {
                    Some(val@)
                } else {
                    old(self).secret(k)
                },
    {
        let filename = filename(key);
        let mut file = match self.session.open_file(filename.as_str(), OpenMode::Create) {
            Ok(file) => file,
            Err(_) => {
                return Err(StoreError::UnexpectedError);
            },
        };
        let written = self.session.write_all(&mut file, val);
        proof {
            assert(final(self).files() =~= old(self).files().insert(filename_of(key@), val@));
            assert forall|k: Seq<u8>| #[trigger]
                final(self).secret(k) == if k == key@ {
                    Some(val@)
                } else {
                    old(self).secret(k)
                } by {
                lemma_filename_injective(k, key@);
            }
        }
        match written {
            Ok(()) => Ok(()),
            Err(_) => Err(StoreError::UnexpectedError),
        }
    }

    /// The secret of `key`, or `None` if the key has none.
    #[verifier::loop_isolation(false)]
    pub fn get(&mut self, key: &[u8]) -> (r: Result<Option<Vec<u8>>, StoreError>)
        requires
            old(self).wf(),
        ensures
            final(self).wf(),
            final(self).files() == old(self).files(),
            r matches Ok(found) && match found {
                Some(val) => old(self).secret(key@) == Some(val@),
                None => old(self).secret(key@) is None,
            },
    {
        let filename = filename(key);
        let file = match self.session.open_file(filename.as_str(), OpenMode::Open) {
            Ok(f) => f,
            Err(Error::Code(SysError::NotFound)) => {
                return Ok(None);
            },
            Err(_) => {
                return Err(StoreError::UnexpectedError);
            },
        };
        let size = match self.session.get_size(&file) {
            Ok(size) => size,
            Err(_) => {
                return Err(StoreError::UnexpectedError);
            },
        };
        let mut buffer: Vec<u8> = Vec::new();
        let mut n: usize = 0;
        while n < size
            invariant
                n <= size,
                buffer@.len() == n,
            decreases size - n,
        {
            buffer.push(0u8);
            n = n + 1;
        }
        let total_size = match self.session.read_all(&file, buffer.as_mut_slice()) {
            Ok(content) => content.len(),
            Err(_) => {
                return Err(StoreError::UnexpectedError);
            },
        };
        buffer.truncate(total_size);
        assert(buffer@ =~= old(self).files()[filename_of(key@)]);
        Ok(Some(buffer))
    }

    /// Forgets the secret of `key`. A key without a secret is no error.
    pub fn delete(&mut self, key: &[u8]) -> (r: Result<(), StoreError>)
        requires
            old(self).wf(),
        ensures
            final(self).wf(),
            r is Ok,
            final(self).files() == old(self).files().remove(filename_of(key@)),
            forall|k: Seq<u8>|
                #[trigger] final(self).secret(k) == if k == key@ {
                    None
                } else {
                    old(self).secret(k)
                },
    {
        let filename = filename(key);
        let removed = self.session.remove(filename.as_str());
        proof {
            assert(final(self).files() =~= old(self).files().remove(filename_of(key@)));
            assert forall|k: Seq<u8>| #[trigger]
                final(self).secret(k) == if k == key@ {
                    None
                } else {
                    old(self).secret(k)
                } by {
                lemma_filename_injective(k, key@);
            }
        }
        match removed {
            Ok(_) => Ok(()),
            Err(Error::Code(SysError::NotFound)) => Ok(()),
            Err(_) => Err(StoreError::UnexpectedError),
        }
    }

    /// Forgets every secret. Files that are not files of secrets stay.
    pub fn delete_all(&mut self) -> (r: Result<(), StoreError>)
        requires
            old(self).wf(),
        ensures
            final(self).wf(),
            r is Ok,
            final(self).files() == old(self).files().remove_keys(
                Set::new(|name: Seq<char>| has_prefix(name)),
            ),
            forall|k: Seq<u8>| #[trigger] final(self).secret(k) is None,
    {
        let mut failed = false;
        let entries = match self.session.list_files() {
            Ok(entries) => entries,
            Err(_) => {
                return Err(StoreError::UnexpectedError);
            },
        };
        let ghost start = self.session.persisted();
        let mut i: usize = 0;
        while i < entries.len()
            invariant
                i <= entries@.len(),
                self.session.wf(),
                !failed,
                crate::storage::lists(entries@, start, start),
                forall|name: Seq<char>|
                    #[trigger] self.session.persisted().contains_key(name) <==> start.contains_key(
                        name,
                    ) && !(has_prefix(name) && seen(entries@, i as int, name)),
                forall|name: Seq<char>|
                    self.session.persisted().contains_key(name)
                        ==> #[trigger] self.session.persisted()[name] == start[name],
            decreases entries@.len() - i,
        {
            let name = entries[i].0.as_str();
            let ghost before = self.session.persisted();
            proof {
                assert(start.contains_key(name@));
                if seen(entries@, i as int, name@) {
                    let k = choose|k: int|
                        0 <= k < i && (#[trigger] entries@[k]).0@ == entries@[i as int].0@;
                    assert(entries@[k].0@ != entries@[i as int].0@);
                }
                assert(before.contains_key(name@));
            }
            if is_secret_file(name) {
                let result = self.session.remove(name);
                if result.is_err() {
                    failed = true;
                }
            }
            proof {
                assert forall|n: Seq<char>|
                    #[trigger] self.session.persisted().contains_key(n) <==> start.contains_key(n)
                        && !(has_prefix(n) && seen(entries@, i + 1, n)) by {
                    assert(before.contains_key(n) <==> start.contains_key(n) && !(has_prefix(n)
                        && seen(entries@, i as int, n)));
                    if seen(entries@, i as int, n) {
                        let k = choose|k: int| 0 <= k < i && (#[trigger] entries@[k]).0@ == n;
                        assert(0 <= k < i + 1 && entries@[k].0@ == n);
                    }
                    if n == name@ {
                        assert(0 <= i < i + 1 && entries@[i as int].0@ == n);
                    }
                    if seen(entries@, i + 1, n) {
                        let k = choose|k: int| 0 <= k < i + 1 && (#[trigger] entries@[k]).0@ == n;
                        if k < i {
                            assert(0 <= k < i && entries@[k].0@ == n);
                        }
                    }
                }
                assert forall|n: Seq<char>|
                    self.session.persisted().contains_key(
                        n,
                    ) implies #[trigger] self.session.persisted()[n] == start[n] by {
                    assert(before.contains_key(n));
                    assert(before[n] == start[n]);
                }
            }
            i = i + 1;
        }
        proof {
            let prefixed = Set::new(|name: Seq<char>| has_prefix(name));
            assert forall|name: Seq<char>|
                #[trigger] self.session.persisted().contains_key(name) <==> start.contains_key(name)
                    && !has_prefix(name) by {
                if start.contains_key(name) {
                    let k = choose|k: int|
                        0 <= k < entries@.len() && (#[trigger] entries@[k]).0@ == name;
                    assert(0 <= k < i && entries@[k].0@ == name);
                }
            }
            assert(self.session.persisted() =~= start.remove_keys(prefixed));
            assert forall|k: Seq<u8>| #[trigger] final(self).secret(k) is None by {
                lemma_filename_injective(k, k);
            }
        }
        if failed {
            Err(StoreError::UnexpectedError)
        } else {
            Ok(())
        }
    }
}

} // verus!
