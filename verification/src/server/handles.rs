//! The table of open files and directories of a server session, and the
//! opaque handle strings that name its entries on the wire.
//!
//! A handle reads `russh-sftp:<kind>:<n>`, where the kind is `f` for a file
//! and `d` for a directory and `n` is the decimal index of the entry.  A
//! table recognises a handle only when it issued it, under that kind, and the
//! entry is still open.

use std::collections::HashMap;
use std::marker::PhantomData;

use vstd::prelude::*;
use vstd::utf8::{decode_utf8, encode_utf8};

use crate::protocol::by_handle::Handle;
use crate::protocol::status::StatusCode;
use crate::text::{
    all_ascii, ascii_chars, ascii_text, decimal_bytes, lemma_ascii_encode,
    lemma_decimal_roundtrip, parse_decimal, parse_decimal_u64, spec_decimal,
};

verus! {

broadcast use vstd::std_specs::hash::group_hash_axioms, vstd::utf8::group_utf8_lib;

/// The kind letter of file handles (`f`).
pub const FILE_KIND: u8 = 102;

/// The kind letter of directory handles (`d`).
pub const DIR_KIND: u8 = 100;

/// The bytes of `russh-sftp`, the prefix of every handle.
pub open spec fn magic_bytes() -> Seq<u8> {
    seq![114u8, 117u8, 115u8, 115u8, 104u8, 45u8, 115u8, 102u8, 116u8, 112u8]
}

/// `russh-sftp:<kind>:`
pub open spec fn handle_prefix(kind: u8) -> Seq<u8> {
    magic_bytes() + seq![58u8, kind, 58u8]
}

/// The bytes of the handle of entry `n` of the given kind.
pub open spec fn handle_bytes(kind: u8, n: u64) -> Seq<u8> {
    handle_prefix(kind) + spec_decimal(n as nat)
}

/// The text of the handle of entry `n` of the given kind.
pub open spec fn handle_text(kind: u8, n: u64) -> Seq<char> {
    ascii_chars(handle_bytes(kind, n))
}

/// Marks what kind of entry a handle names.
pub trait HandleTag {
    spec fn spec_kind() -> u8;

    /// The ASCII letter of the kind.
    fn kind() -> (k: u8)
        ensures
            k == Self::spec_kind(),
            k < 128,
    ;

    /// The kind letter is ASCII.
    proof fn lemma_kind_ascii()
        ensures
            Self::spec_kind() < 128,
    ;
}

/// Kind of the handles of open files.
#[derive(Debug)]
pub struct FileTag;

/// Kind of the handles of open directories.
#[derive(Debug)]
pub struct DirTag;

impl HandleTag for FileTag {
    open spec fn spec_kind() -> u8 {
        FILE_KIND
    }

    fn kind() -> (k: u8) {
        FILE_KIND
    }

    proof fn lemma_kind_ascii() {
    }
}

impl HandleTag for DirTag {
    open spec fn spec_kind() -> u8 {
        DIR_KIND
    }

    fn kind() -> (k: u8) {
        DIR_KIND
    }

    proof fn lemma_kind_ascii() {
    }
}

proof fn lemma_handle_ascii(kind: u8, n: u64)
    requires
        kind < 128,
    ensures
        all_ascii(handle_bytes(kind, n)),
        encode_utf8(handle_text(kind, n)) == handle_bytes(kind, n),
        handle_bytes(kind, n).len() >= 14,
{
    lemma_decimal_roundtrip(n as nat);
    crate::text::lemma_decimal_ascii(n as nat);
    let b = handle_bytes(kind, n);
    assert forall|i: int| 0 <= i < b.len() implies b[i] < 128 by {
        if i >= 13 {
            assert(b[i] == spec_decimal(n as nat)[i - 13]);
        }
    }
    lemma_ascii_encode(b);
}

/// Distinct entries, or entries of distinct kinds, have distinct handles.
pub proof fn lemma_handle_text_injective(k1: u8, n1: u64, k2: u8, n2: u64)
    requires
        handle_text(k1, n1) == handle_text(k2, n2),
    ensures
        k1 == k2,
        n1 == n2,
{
    let b1 = handle_bytes(k1, n1);
    let b2 = handle_bytes(k2, n2);
    assert(ascii_chars(b1).len() == b1.len());
    assert(b1.len() == b2.len());
    assert forall|i: int| 0 <= i < b1.len() implies b1[i] == b2[i] by {
        assert(ascii_chars(b1)[i] == ascii_chars(b2)[i]);
        assert((b1[i] as char) as u8 == b1[i]);
        assert((b2[i] as char) as u8 == b2[i]);
    }
    assert(b1 =~= b2);
    assert(b1[11] == k1);
    assert(b2[11] == k2);
    let d1 = spec_decimal(n1 as nat);
    let d2 = spec_decimal(n2 as nat);
    assert(b1.skip(13) =~= d1);
    assert(b2.skip(13) =~= d2);
    lemma_decimal_roundtrip(n1 as nat);
    lemma_decimal_roundtrip(n2 as nat);
}

/// Distinct entries, or entries of distinct kinds, have distinct handle bytes.
pub proof fn lemma_handle_bytes_injective(k1: u8, n1: u64, k2: u8, n2: u64)
    requires
        handle_bytes(k1, n1) == handle_bytes(k2, n2),
    ensures
        k1 == k2,
        n1 == n2,
{
    assert(handle_text(k1, n1) =~= handle_text(k2, n2));
    lemma_handle_text_injective(k1, n1, k2, n2);
}

/// A file handle is never a directory handle.
pub proof fn lemma_file_and_dir_handles_differ(n: u64, m: u64)
    ensures
        handle_text(FILE_KIND, n) != handle_text(DIR_KIND, m),
{
    if handle_text(FILE_KIND, n) == handle_text(DIR_KIND, m) {
        lemma_handle_text_injective(FILE_KIND, n, DIR_KIND, m);
    }
}

/// The handle of an open entry of kind `K`.
#[derive(Debug)]
pub struct SessionHandle<K: HandleTag> {
    raw: String,
    index: u64,
    _kind: PhantomData<K>,
}

/// The handle of an open file.
pub type FileHandle = SessionHandle<FileTag>;

/// The handle of an open directory.
pub type DirHandle = SessionHandle<DirTag>;

impl<K: HandleTag> View for SessionHandle<K> {
    type V = Seq<char>;

    closed spec fn view(&self) -> Seq<char> {
        self.raw@
    }
}

impl<K: HandleTag> SessionHandle<K> {
    #[verifier::type_invariant]
    closed spec fn inv(self) -> bool {
        &&& K::spec_kind() < 128
        &&& self.raw@ == handle_text(K::spec_kind(), self.index)
    }

    /// The index of the entry that the handle names.
    pub closed spec fn index(&self) -> u64 {
        self.index
    }

    /// The handle text.
    pub fn as_str(&self) -> (s: &str)
        ensures
            s@ == self@,
            s@ == handle_text(K::spec_kind(), self.index()),
    {
        proof {
            use_type_invariant(self);
        }
        self.raw.as_str()
    }

    /// The handle text, owned.
    pub fn into_string(self) -> (s: String)
        ensures
            s@ == self@,
            s@ == handle_text(K::spec_kind(), self.index()),
    {
        proof {
            use_type_invariant(&self);
        }
        self.raw
    }

    /// The UTF-8 bytes of the handle, as they go into a handle reply.
    pub fn into_bytes(self) -> (b: Vec<u8>)
        ensures
            b@ == handle_bytes(K::spec_kind(), self.index()),
    {
        proof {
            use_type_invariant(&self);
            lemma_handle_ascii(K::spec_kind(), self.index);
        }
        let b = self.raw.as_str().as_bytes();
        vstd::slice::slice_to_vec(b)
    }
}

impl<K: HandleTag> Clone for SessionHandle<K> {
    fn clone(&self) -> (c: Self)
        ensures
            c@ == self@,
            c.index() == self.index(),
    {
        proof {
            use_type_invariant(self);
        }
        SessionHandle { raw: self.raw.clone(), index: self.index, _kind: PhantomData }
    }
}

/// Overwrites or reads through a mutable reference into a map entry.
/// Trusted: std's `HashMap::get_mut` returns the entry of `k` when there is
/// one, and writes through it land in that entry and nowhere else.
#[verifier::external_body]
fn map_get_mut<V>(m: &mut HashMap<u64, V>, k: u64) -> (r: Option<&mut V>)
    ensures
        match r {
            Some(v) => {
                &&& old(m)@.contains_key(k)
                &&& *v == old(m)@[k]
                &&& final(m)@ == old(m)@.insert(k, *final(v))
            },
            None => !old(m)@.contains_key(k) && final(m)@ == old(m)@,
        },
{
    m.get_mut(&k)
}

/// What the handle of a request names: an open file or an open directory.
#[derive(Debug)]
pub enum HandleTarget {
    File(FileHandle),
    Dir(DirHandle),
}

/// The state of a closed entry, handed back to the user's handler.
#[derive(Debug)]
pub enum ClosedEntry<F, D> {
    File(F),
    Dir(D),
}

/// The open files and directories of a session.
#[derive(Debug)]
pub struct SessionHandles<F, D> {
    files: HashMap<u64, F>,
    dirs: HashMap<u64, D>,
    next: u64,
}

impl<F, D> SessionHandles<F, D> {
    /// Every entry's index is below the next index, so a new entry never
    /// takes the place of an open one.
    pub closed spec fn wf(&self) -> bool {
        &&& forall|k: u64| #[trigger] self.files@.contains_key(k) ==> k < self.next
        &&& forall|k: u64| #[trigger] self.dirs@.contains_key(k) ==> k < self.next
    }

    /// The open files, by index.
    pub closed spec fn files(&self) -> Map<u64, F> {
        self.files@
    }

    /// The open directories, by index.
    pub closed spec fn dirs(&self) -> Map<u64, D> {
        self.dirs@
    }

    /// The index the next entry gets; every entry so far has a smaller one.
    pub closed spec fn next_index(&self) -> u64 {
        self.next
    }

    /// The index the next entry gets.
    pub fn next_handle_index(&self) -> (n: u64)
        ensures
            n == self.next_index(),
    {
        self.next
    }

    /// An empty table.
    pub fn new() -> (h: Self)
        ensures
            h.wf(),
            h.files() == Map::<u64, F>::empty(),
            h.dirs() == Map::<u64, D>::empty(),
            h.next_index() == 0,
    {
        SessionHandles { files: HashMap::new(), dirs: HashMap::new(), next: 0 }
    }

    /// Issues the handle of the next index.
    fn new_handle<K: HandleTag>(&mut self) -> (h: SessionHandle<K>)
        requires
            old(self).wf(),
            old(self).next_index() < u64::MAX,
        ensures
            final(self).wf(),
            h.index() == old(self).next_index(),
            h@ == handle_text(K::spec_kind(), old(self).next_index()),
            final(self).next_index() == old(self).next_index() + 1,
            final(self).files() == old(self).files(),
            final(self).dirs() == old(self).dirs(),
    {
        let n = self.next;
        let kind = K::kind();
        let mut b: Vec<u8> = Vec::new();
        push_prefix(&mut b, kind);
        let digits = decimal_bytes(n);
        crate::wire::put_slice(&mut b, digits.as_slice());
        proof {
            lemma_handle_ascii(kind, n);
            assert(b@ =~= handle_bytes(kind, n));
        }
        let raw = ascii_text(b.as_slice());
        self.next = n + 1;
        SessionHandle { raw, index: n, _kind: PhantomData }
    }

    /// Records an open file and returns its handle.
    pub fn insert_file(&mut self, value: F) -> (h: FileHandle)
        requires
            old(self).wf(),
            old(self).next_index() < u64::MAX,
        ensures
            final(self).wf(),
            h.index() == old(self).next_index(),
            h@ == handle_text(FILE_KIND, old(self).next_index()),
            !old(self).files().contains_key(old(self).next_index()),
            final(self).files() == old(self).files().insert(old(self).next_index(), value),
            final(self).dirs() == old(self).dirs(),
            final(self).next_index() == old(self).next_index() + 1,
    {
        let handle = self.new_handle::<FileTag>();
        self.files.insert(handle.index, value);
        handle
    }

    /// Records an open directory and returns its handle.
    pub fn insert_dir(&mut self, value: D) -> (h: DirHandle)
        requires
            old(self).wf(),
            old(self).next_index() < u64::MAX,
        ensures
            final(self).wf(),
            h.index() == old(self).next_index(),
            h@ == handle_text(DIR_KIND, old(self).next_index()),
            !old(self).dirs().contains_key(old(self).next_index()),
            final(self).dirs() == old(self).dirs().insert(old(self).next_index(), value),
            final(self).files() == old(self).files(),
            final(self).next_index() == old(self).next_index() + 1,
    {
        let handle = self.new_handle::<DirTag>();
        self.dirs.insert(handle.index, value);
        handle
    }

    /// The open file a handle names, for reading and updating in place.
    pub fn get_file_mut(&mut self, handle: &FileHandle) -> (r: Option<&mut F>)
        requires
            old(self).wf(),
        ensures
            final(self).wf(),
            match r {
                Some(v) => {
                    &&& old(self).files().contains_key(handle.index())
                    &&& *v == old(self).files()[handle.index()]
                    &&& final(self).files() == old(self).files().insert(
                        handle.index(),
                        *final(v),
                    )
                },
                None => !old(self).files().contains_key(handle.index()) && final(self).files()
                    == old(self).files(),
            },
            final(self).dirs() == old(self).dirs(),
            final(self).next_index() == old(self).next_index(),
    {
        map_get_mut(&mut self.files, handle.index)
    }

    /// The open directory a handle names, for reading and updating in place.
    pub fn get_dir_mut(&mut self, handle: &DirHandle) -> (r: Option<&mut D>)
        requires
            old(self).wf(),
        ensures
            final(self).wf(),
            match r {
                Some(v) => {
                    &&& old(self).dirs().contains_key(handle.index())
                    &&& *v == old(self).dirs()[handle.index()]
                    &&& final(self).dirs() == old(self).dirs().insert(
                        handle.index(),
                        *final(v),
                    )
                },
                None => !old(self).dirs().contains_key(handle.index()) && final(self).dirs()
                    == old(self).dirs(),
            },
            final(self).files() == old(self).files(),
            final(self).next_index() == old(self).next_index(),
    {
        map_get_mut(&mut self.dirs, handle.index)
    }

    /// Closes a file: takes it out of the table and returns it.
    pub fn remove_file(&mut self, handle: &FileHandle) -> (r: Option<F>)
        requires
            old(self).wf(),
        ensures
            final(self).wf(),
            match r {
                Some(v) => old(self).files().contains_key(handle.index()) && v == old(
                    self,
                ).files()[handle.index()],
                None => !old(self).files().contains_key(handle.index()),
            },
            final(self).files() == old(self).files().remove(handle.index()),
            final(self).dirs() == old(self).dirs(),
            final(self).next_index() == old(self).next_index(),
    {
        self.files.remove(&handle.index)
    }

    /// Closes a directory: takes it out of the table and returns it.
    pub fn remove_dir(&mut self, handle: &DirHandle) -> (r: Option<D>)
        requires
            old(self).wf(),
        ensures
            final(self).wf(),
            match r {
                Some(v) => old(self).dirs().contains_key(handle.index()) && v == old(
                    self,
                ).dirs()[handle.index()],
                None => !old(self).dirs().contains_key(handle.index()),
            },
            final(self).dirs() == old(self).dirs().remove(handle.index()),
            final(self).files() == old(self).files(),
            final(self).next_index() == old(self).next_index(),
    {
        self.dirs.remove(&handle.index)
    }

    /// Does `raw` name an open file of this table?
    pub open spec fn names_file(&self, raw: Seq<char>) -> bool {
        exists|n: u64| self.files().contains_key(n) && raw == #[trigger] handle_text(FILE_KIND, n)
    }

    /// Does `raw` name an open directory of this table?
    pub open spec fn names_dir(&self, raw: Seq<char>) -> bool {
        exists|n: u64| self.dirs().contains_key(n) && raw == #[trigger] handle_text(DIR_KIND, n)
    }

    /// The handle of the open file that `raw` names, if it names one.
    pub fn decode_file(&self, raw: &str) -> (r: Option<FileHandle>)
        ensures
            r is Some <==> self.names_file(raw@),
            r matches Some(h) ==> h@ == raw@ && self.files().contains_key(h.index()) && raw@
                == handle_text(FILE_KIND, h.index()),
    {
        let handle = match self.decode::<FileTag>(raw) {
            Some(h) => h,
            None => return None,
        };
        if self.files.contains_key(&handle.index) {
            Some(handle)
        } else {
            proof {
                self.lemma_unopened_file(raw@, handle.index());
            }
            None
        }
    }

    /// The handle of the open directory that `raw` names, if it names one.
    pub fn decode_dir(&self, raw: &str) -> (r: Option<DirHandle>)
        ensures
            r is Some <==> self.names_dir(raw@),
            r matches Some(h) ==> h@ == raw@ && self.dirs().contains_key(h.index()) && raw@
                == handle_text(DIR_KIND, h.index()),
    {
        let handle = match self.decode::<DirTag>(raw) {
            Some(h) => h,
            None => return None,
        };
        if self.dirs.contains_key(&handle.index) {
            Some(handle)
        } else {
            proof {
                self.lemma_unopened_dir(raw@, handle.index());
            }
            None
        }
    }

    proof fn lemma_unopened_file(&self, raw: Seq<char>, n: u64)
        requires
            raw == handle_text(FILE_KIND, n),
            !self.files().contains_key(n),
        ensures
            !self.names_file(raw),
    {
        assert forall|m: u64| self.files().contains_key(m) implies raw != #[trigger] handle_text(
            FILE_KIND,
            m,
        ) by {
            if raw == handle_text(FILE_KIND, m) {
                lemma_handle_text_injective(FILE_KIND, m, FILE_KIND, n);
            }
        }
    }

    proof fn lemma_unopened_dir(&self, raw: Seq<char>, n: u64)
        requires
            raw == handle_text(DIR_KIND, n),
            !self.dirs().contains_key(n),
        ensures
            !self.names_dir(raw),
    {
        assert forall|m: u64| self.dirs().contains_key(m) implies raw != #[trigger] handle_text(
            DIR_KIND,
            m,
        ) by {
            if raw == handle_text(DIR_KIND, m) {
                lemma_handle_text_injective(DIR_KIND, m, DIR_KIND, n);
            }
        }
    }

    /// Do the bytes `raw` name an open file of this table?
    pub open spec fn names_file_bytes(&self, raw: Seq<u8>) -> bool {
        exists|n: u64| self.files().contains_key(n) && raw == #[trigger] handle_bytes(FILE_KIND, n)
    }

    /// Do the bytes `raw` name an open directory of this table?
    pub open spec fn names_dir_bytes(&self, raw: Seq<u8>) -> bool {
        exists|n: u64| self.dirs().contains_key(n) && raw == #[trigger] handle_bytes(DIR_KIND, n)
    }

    /// The open file that the handle bytes of a request name; `Failure`
    /// when they name none.
    pub fn resolve_file(&self, raw: &[u8]) -> (r: Result<FileHandle, StatusCode>)
        ensures
            r is Ok <==> self.names_file_bytes(raw@),
            r matches Ok(h) ==> self.files().contains_key(h.index()) && raw@ == handle_bytes(
                FILE_KIND,
                h.index(),
            ),
            r matches Err(e) ==> e == StatusCode::Failure,
    {
        match decode_handle_bytes::<FileTag>(raw) {
            Some(h) => {
                if self.files.contains_key(&h.index) {
                    Ok(h)
                } else {
                    proof {
                        assert forall|m: u64| self.files().contains_key(m) implies raw@
                            != #[trigger] handle_bytes(FILE_KIND, m) by {
                            if raw@ == handle_bytes(FILE_KIND, m) {
                                lemma_handle_bytes_injective(FILE_KIND, m, FILE_KIND, h.index());
                            }
                        }
                    }
                    Err(StatusCode::Failure)
                }
            },
            None => Err(StatusCode::Failure),
        }
    }

    /// The open directory that the handle bytes of a request name; `Failure`
    /// when they name none.
    pub fn resolve_dir(&self, raw: &[u8]) -> (r: Result<DirHandle, StatusCode>)
        ensures
            r is Ok <==> self.names_dir_bytes(raw@),
            r matches Ok(h) ==> self.dirs().contains_key(h.index()) && raw@ == handle_bytes(
                DIR_KIND,
                h.index(),
            ),
            r matches Err(e) ==> e == StatusCode::Failure,
    {
        match decode_handle_bytes::<DirTag>(raw) {
            Some(h) => {
                if self.dirs.contains_key(&h.index) {
                    Ok(h)
                } else {
                    proof {
                        assert forall|m: u64| self.dirs().contains_key(m) implies raw@
                            != #[trigger] handle_bytes(DIR_KIND, m) by {
                            if raw@ == handle_bytes(DIR_KIND, m) {
                                lemma_handle_bytes_injective(DIR_KIND, m, DIR_KIND, h.index());
                            }
                        }
                    }
                    Err(StatusCode::Failure)
                }
            },
            None => Err(StatusCode::Failure),
        }
    }

    /// The open file or directory that the handle bytes of a request name,
    /// files first; `Failure` when they name neither.
    pub fn resolve(&self, raw: &[u8]) -> (r: Result<HandleTarget, StatusCode>)
        ensures
            self.names_file_bytes(raw@) ==> (r matches Ok(HandleTarget::File(h)) && raw@
                == handle_bytes(FILE_KIND, h.index()) && self.files().contains_key(h.index())),
            !self.names_file_bytes(raw@) && self.names_dir_bytes(raw@) ==> (r matches Ok(
                HandleTarget::Dir(h),
            ) && raw@ == handle_bytes(DIR_KIND, h.index()) && self.dirs().contains_key(h.index())),
            !self.names_file_bytes(raw@) && !self.names_dir_bytes(raw@) ==> r == Err::<
                HandleTarget,
                StatusCode,
            >(StatusCode::Failure),
    {
        match self.resolve_file(raw) {
            Ok(h) => Ok(HandleTarget::File(h)),
            Err(_) => match self.resolve_dir(raw) {
                Ok(h) => Ok(HandleTarget::Dir(h)),
                Err(e) => Err(e),
            },
        }
    }

    /// Records a file that the user's handler opened and answers the open
    /// request with its handle.
    pub fn open_file(&mut self, id: u32, file: F) -> (r: Handle)
        requires
            old(self).wf(),
            old(self).next_index() < u64::MAX,
        ensures
            final(self).wf(),
            r.id == id,
            r.handle@ == handle_bytes(FILE_KIND, old(self).next_index()),
            final(self).files() == old(self).files().insert(old(self).next_index(), file),
            final(self).dirs() == old(self).dirs(),
            final(self).next_index() == old(self).next_index() + 1,
    {
        let handle = self.insert_file(file);
        Handle { id, handle: handle.into_bytes() }
    }

    /// Records a directory that the user's handler opened and answers the
    /// opendir request with its handle.
    pub fn open_dir(&mut self, id: u32, dir: D) -> (r: Handle)
        requires
            old(self).wf(),
            old(self).next_index() < u64::MAX,
        ensures
            final(self).wf(),
            r.id == id,
            r.handle@ == handle_bytes(DIR_KIND, old(self).next_index()),
            final(self).dirs() == old(self).dirs().insert(old(self).next_index(), dir),
            final(self).files() == old(self).files(),
            final(self).next_index() == old(self).next_index() + 1,
    {
        let handle = self.insert_dir(dir);
        Handle { id, handle: handle.into_bytes() }
    }

    /// Closes the file or directory that the handle bytes of a close request
    /// name, files first, and hands its state back; `Failure` when they name
    /// neither, and then the table is unchanged.
    pub fn close_entry(&mut self, raw: &[u8]) -> (r: Result<ClosedEntry<F, D>, StatusCode>)
        requires
            old(self).wf(),
        ensures
            final(self).wf(),
            final(self).next_index() == old(self).next_index(),
            old(self).names_file_bytes(raw@) ==> exists|n: u64|
                {
                    &&& raw@ == #[trigger] handle_bytes(FILE_KIND, n)
                    &&& old(self).files().contains_key(n)
                    &&& r == Ok::<ClosedEntry<F, D>, StatusCode>(
                        ClosedEntry::File(old(self).files()[n]),
                    )
                    &&& final(self).files() == old(self).files().remove(n)
                    &&& final(self).dirs() == old(self).dirs()
                },
            !old(self).names_file_bytes(raw@) && old(self).names_dir_bytes(raw@) ==> exists|n: u64|
                {
                    &&& raw@ == #[trigger] handle_bytes(DIR_KIND, n)
                    &&& old(self).dirs().contains_key(n)
                    &&& r == Ok::<ClosedEntry<F, D>, StatusCode>(
                        ClosedEntry::Dir(old(self).dirs()[n]),
                    )
                    &&& final(self).dirs() == old(self).dirs().remove(n)
                    &&& final(self).files() == old(self).files()
                },
            !old(self).names_file_bytes(raw@) && !old(self).names_dir_bytes(raw@) ==> r == Err::<
                ClosedEntry<F, D>,
                StatusCode,
            >(StatusCode::Failure) && final(self).files() == old(self).files() && final(self).dirs()
                == old(self).dirs(),
    {
        match self.resolve(raw) {
            Ok(HandleTarget::File(h)) => match self.remove_file(&h) {
                Some(f) => Ok(ClosedEntry::File(f)),
                None => Err(StatusCode::Failure),
            },
            Ok(HandleTarget::Dir(h)) => match self.remove_dir(&h) {
                Some(d) => Ok(ClosedEntry::Dir(d)),
                None => Err(StatusCode::Failure),
            },
            Err(e) => Err(e),
        }
    }

    /// Reads `raw` as a handle of kind `K`: it must be exactly the handle
    /// text of some index.
    fn decode<K: HandleTag>(&self, raw: &str) -> (r: Option<SessionHandle<K>>)
        ensures
            r is Some <==> exists|n: u64| raw@ == #[trigger] handle_text(K::spec_kind(), n),
            r matches Some(h) ==> h@ == raw@ && raw@ == handle_text(K::spec_kind(), h.index()),
    {
        let b = raw.as_bytes();
        proof {
            assert(b@ == encode_utf8(raw@));
            assert(decode_utf8(b@) == raw@);
        }
        let r = decode_handle_bytes::<K>(b);
        proof {
            if r is Some {
                let h = r->Some_0;
                K::lemma_kind_ascii();
                lemma_handle_ascii(K::spec_kind(), h.index());
                assert(raw@ == decode_utf8(encode_utf8(h@)));
            } else {
                assert forall|n: u64| raw@ != #[trigger] handle_text(K::spec_kind(), n) by {
                    if raw@ == handle_text(K::spec_kind(), n) {
                        K::lemma_kind_ascii();
                        lemma_handle_ascii(K::spec_kind(), n);
                    }
                }
            }
        }
        r
    }
}

/// Reads the bytes of a handle of kind `K`: they must be exactly the handle
/// bytes of some index.
pub fn decode_handle_bytes<K: HandleTag>(b: &[u8]) -> (r: Option<SessionHandle<K>>)
    ensures
        r is Some <==> exists|n: u64| b@ == #[trigger] handle_bytes(K::spec_kind(), n),
        r matches Some(h) ==> b@ == handle_bytes(K::spec_kind(), h.index()) && h@ == handle_text(
            K::spec_kind(),
            h.index(),
        ),
{
    let kind = K::kind();
    let ghost bytes = b@;
    if b.len() < 13 || !has_handle_prefix(b, kind) {
        proof {
            assert forall|n: u64| bytes != #[trigger] handle_bytes(K::spec_kind(), n) by {
                if bytes == handle_bytes(kind, n) {
                    lemma_handle_ascii(kind, n);
                    assert(bytes.take(13) =~= handle_prefix(kind));
                }
            }
        }
        return None;
    }
    let digits = vstd::slice::slice_subrange(b, 13, b.len());
    let n = match parse_decimal_u64(digits) {
        Some(n) => n,
        None => {
            proof {
                assert forall|m: u64| bytes != #[trigger] handle_bytes(K::spec_kind(), m) by {
                    if bytes == handle_bytes(kind, m) {
                        lemma_decimal_roundtrip(m as nat);
                        assert(digits@ =~= spec_decimal(m as nat));
                    }
                }
            }
            return None;
        },
    };
    let canonical = decimal_bytes(n);
    if !bytes_eq(canonical.as_slice(), digits) {
        proof {
            assert forall|m: u64| bytes != #[trigger] handle_bytes(K::spec_kind(), m) by {
                if bytes == handle_bytes(kind, m) {
                    lemma_decimal_roundtrip(m as nat);
                    assert(digits@ =~= spec_decimal(m as nat));
                    lemma_decimal_roundtrip(n as nat);
                }
            }
        }
        return None;
    }
    proof {
        lemma_handle_ascii(kind, n);
        assert(bytes =~= handle_bytes(kind, n));
    }
    let raw = ascii_text(b);
    Some(SessionHandle { raw, index: n, _kind: PhantomData })
}

/// A table that holds no entry recognises no handle: a handle issued by one
/// session never resolves in a fresh one.
pub proof fn lemma_empty_table_names_nothing<F, D>(t: SessionHandles<F, D>, raw: Seq<char>)
    requires
        t.files() == Map::<u64, F>::empty(),
        t.dirs() == Map::<u64, D>::empty(),
    ensures
        !t.names_file(raw),
        !t.names_dir(raw),
{
}

/// The handle of an open file resolves as a file, and never as a directory.
pub proof fn lemma_open_file_handle_resolves<F, D>(t: SessionHandles<F, D>, n: u64)
    requires
        t.files().contains_key(n),
    ensures
        t.names_file(handle_text(FILE_KIND, n)),
        !t.names_dir(handle_text(FILE_KIND, n)),
{
    lemma_file_handle_is_not_dir_handle(t, handle_text(FILE_KIND, n));
}

/// The handle of an open directory resolves as a directory, and never as a
/// file.
pub proof fn lemma_open_dir_handle_resolves<F, D>(t: SessionHandles<F, D>, n: u64)
    requires
        t.dirs().contains_key(n),
    ensures
        t.names_dir(handle_text(DIR_KIND, n)),
        !t.names_file(handle_text(DIR_KIND, n)),
{
    lemma_file_handle_is_not_dir_handle(t, handle_text(DIR_KIND, n));
}

/// No text names both an open file and an open directory.
pub proof fn lemma_file_handle_is_not_dir_handle<F, D>(t: SessionHandles<F, D>, raw: Seq<char>)
    ensures
        !(t.names_file(raw) && t.names_dir(raw)),
{
    if t.names_file(raw) && t.names_dir(raw) {
        let n = choose|n: u64| t.files().contains_key(n) && raw == #[trigger] handle_text(FILE_KIND, n);
        let m = choose|m: u64| t.dirs().contains_key(m) && raw == #[trigger] handle_text(DIR_KIND, m);
        lemma_file_and_dir_handles_differ(n, m);
    }
}

/// Once a file is closed, its handle is stale: it no longer resolves.
pub proof fn lemma_closed_file_handle_is_stale<F, D>(
    before: SessionHandles<F, D>,
    after: SessionHandles<F, D>,
    n: u64,
)
    requires
        after.files() == before.files().remove(n),
    ensures
        !after.names_file(handle_text(FILE_KIND, n)),
{
    after.lemma_unopened_file(handle_text(FILE_KIND, n), n);
}

/// Once a directory is closed, its handle is stale: it no longer resolves.
pub proof fn lemma_closed_dir_handle_is_stale<F, D>(
    before: SessionHandles<F, D>,
    after: SessionHandles<F, D>,
    n: u64,
)
    requires
        after.dirs() == before.dirs().remove(n),
    ensures
        !after.names_dir(handle_text(DIR_KIND, n)),
{
    after.lemma_unopened_dir(handle_text(DIR_KIND, n), n);
}

/// Opening a file issues a handle that named nothing before and resolves
/// now, and leaves what every other text names as it was.
pub proof fn lemma_inserted_file_handle_is_fresh<F, D>(
    before: SessionHandles<F, D>,
    after: SessionHandles<F, D>,
    value: F,
)
    requires
        before.wf(),
        after.files() == before.files().insert(before.next_index(), value),
    ensures
        !before.names_file(handle_text(FILE_KIND, before.next_index())),
        after.names_file(handle_text(FILE_KIND, before.next_index())),
        forall|raw: Seq<char>|
            #[trigger] after.names_file(raw) <==> (before.names_file(raw) || raw == handle_text(
                FILE_KIND,
                before.next_index(),
            )),
{
    let k = before.next_index();
    let fresh = handle_text(FILE_KIND, k);
    before.lemma_unopened_file(fresh, k);
    assert(after.files().contains_key(k));
    assert forall|raw: Seq<char>|
        #[trigger] after.names_file(raw) <==> (before.names_file(raw) || raw == fresh) by {
        if after.names_file(raw) {
            let n = choose|n: u64| after.files().contains_key(n) && raw == #[trigger] handle_text(FILE_KIND, n);
            if n != k {
                assert(before.files().contains_key(n));
            }
        }
        if before.names_file(raw) {
            let n = choose|n: u64| before.files().contains_key(n) && raw == #[trigger] handle_text(FILE_KIND, n);
            assert(after.files().contains_key(n));
        }
    }
}

/// Opening a directory issues a handle that named nothing before and
/// resolves now, and leaves what every other text names as it was.
pub proof fn lemma_inserted_dir_handle_is_fresh<F, D>(
    before: SessionHandles<F, D>,
    after: SessionHandles<F, D>,
    value: D,
)
    requires
        before.wf(),
        after.dirs() == before.dirs().insert(before.next_index(), value),
    ensures
        !before.names_dir(handle_text(DIR_KIND, before.next_index())),
        after.names_dir(handle_text(DIR_KIND, before.next_index())),
        forall|raw: Seq<char>|
            #[trigger] after.names_dir(raw) <==> (before.names_dir(raw) || raw == handle_text(
                DIR_KIND,
                before.next_index(),
            )),
{
    let k = before.next_index();
    let fresh = handle_text(DIR_KIND, k);
    before.lemma_unopened_dir(fresh, k);
    assert(after.dirs().contains_key(k));
    assert forall|raw: Seq<char>|
        #[trigger] after.names_dir(raw) <==> (before.names_dir(raw) || raw == fresh) by {
        if after.names_dir(raw) {
            let n = choose|n: u64| after.dirs().contains_key(n) && raw == #[trigger] handle_text(DIR_KIND, n);
            if n != k {
                assert(before.dirs().contains_key(n));
            }
        }
        if before.names_dir(raw) {
            let n = choose|n: u64| before.dirs().contains_key(n) && raw == #[trigger] handle_text(DIR_KIND, n);
            assert(after.dirs().contains_key(n));
        }
    }
}

impl<F, D> Default for SessionHandles<F, D> {
    fn default() -> (h: Self)
        ensures
            h.wf(),
            h.files() == Map::<u64, F>::empty(),
            h.dirs() == Map::<u64, D>::empty(),
            h.next_index() == 0,
    {
        Self::new()
    }
}

/// Appends `russh-sftp:<kind>:`.
fn push_prefix(out: &mut Vec<u8>, kind: u8)
    ensures
        final(out)@ == old(out)@ + handle_prefix(kind),
{
    out.push(114u8);
    out.push(117u8);
    out.push(115u8);
    out.push(115u8);
    out.push(104u8);
    out.push(45u8);
    out.push(115u8);
    out.push(102u8);
    out.push(116u8);
    out.push(112u8);
    out.push(58u8);
    out.push(kind);
    out.push(58u8);
    assert(out@ =~= old(out)@ + handle_prefix(kind));
}

/// Does `b` start with `russh-sftp:<kind>:`?
fn has_handle_prefix(b: &[u8], kind: u8) -> (r: bool)
    requires
        b@.len() >= 13,
    ensures
        r == (b@.take(13) == handle_prefix(kind)),
{
    let mut expected: Vec<u8> = Vec::new();
    push_prefix(&mut expected, kind);
    assert(expected@ =~= handle_prefix(kind));
    let mut i: usize = 0;
    while i < 13
        invariant
            i <= 13,
            b@.len() >= 13,
            expected@ == handle_prefix(kind),
            forall|j: int| 0 <= j < i ==> b@[j] == expected@[j],
        decreases 13 - i,
    {
        if b[i] != expected[i] {
            assert(b@.take(13)[i as int] != handle_prefix(kind)[i as int]);
            return false;
        }
        i = i + 1;
    }
    assert(b@.take(13) =~= handle_prefix(kind));
    true
}

/// Are two byte strings equal?
fn bytes_eq(a: &[u8], b: &[u8]) -> (r: bool)
    ensures
        r == (a@ == b@),
{
    if a.len() != b.len() {
        return false;
    }
    let mut i: usize = 0;
    while i < a.len()
        invariant
            i <= a@.len(),
            a@.len() == b@.len(),
            forall|j: int| 0 <= j < i ==> a@[j] == b@[j],
        decreases a@.len() - i,
    {
        if a[i] != b[i] {
            return false;
        }
        i = i + 1;
    }
    assert(a@ =~= b@);
    true
}

} // verus!
