//! `SSH_FXP_NAME` (a list of directory entries) and `SSH_FXP_ATTRS`.

use vstd::prelude::*;

use super::file_attrs::{
    encode_attrs, encode_file, file_canonical, file_fits, lemma_attrs_roundtrip,
    lemma_file_min_len, lemma_file_roundtrip, parse_attrs, parse_file, wire_normal,
    FileAttributes, FileAttributesView, File,
};
use crate::buf::Reader;
use crate::error::{is_bad_message, Error};
use crate::text::{decimal_chars, decimal_text};
use vstd::string::StringExecFns;
use crate::wire::{checked_u32_len, get_u32_spec, lemma_get_put_u32, put_u32, u32_be};

verus! {

/// The most entries a name reply may announce.
pub const MAX_NAME_ENTRIES: usize = 16384;

/// How many entries are reserved for ahead of decoding them.
pub const MAX_NAME_PREALLOC: usize = 256;

/// The value of a directory entry.
pub type FileView = (Seq<char>, Seq<char>, FileAttributesView);

/// Decodes `n` directory entries one after the other.
pub open spec fn parse_files(s: Seq<u8>, n: nat) -> Option<(Seq<FileView>, Seq<u8>)>
    decreases n,
{
    if n == 0 {
        Some((Seq::empty(), s))
    } else {
        match parse_file(s) {
            None => None,
            Some((f, s1)) => match parse_files(s1, (n - 1) as nat) {
                None => None,
                Some((fs, s2)) => Some((seq![f] + fs, s2)),
            },
        }
    }
}

/// Directory entries one after the other.
pub open spec fn encode_files(fs: Seq<FileView>) -> Seq<u8>
    decreases fs.len(),
{
    if fs.len() == 0 {
        Seq::empty()
    } else {
        encode_file(fs[0]) + encode_files(fs.drop_first())
    }
}

/// Layout `uint32 id, uint32 count, count entries`.  A count that the bytes
/// left could not hold (each entry takes twelve bytes at least), or that is
/// above [`MAX_NAME_ENTRIES`], is refused.
pub open spec fn parse_name(s: Seq<u8>) -> Option<((u32, Seq<FileView>), Seq<u8>)> {
    match get_u32_spec(s) {
        None => None,
        Some((id, s1)) => match get_u32_spec(s1) {
            None => None,
            Some((count, s2)) => if count > s2.len() / 12 || count > MAX_NAME_ENTRIES {
                None
            } else {
                match parse_files(s2, count as nat) {
                    None => None,
                    Some((fs, s3)) => Some(((id, fs), s3)),
                }
            },
        },
    }
}

pub open spec fn encode_name(v: (u32, Seq<FileView>)) -> Seq<u8> {
    u32_be(v.0) + (u32_be(v.1.len() as u32) + encode_files(v.1))
}

pub open spec fn name_fits(v: (u32, Seq<FileView>)) -> bool {
    &&& v.1.len() <= u32::MAX
    &&& forall|i: int| 0 <= i < v.1.len() ==> #[trigger] file_fits(v.1[i])
}

pub open spec fn name_canonical(v: (u32, Seq<FileView>)) -> bool {
    forall|i: int| 0 <= i < v.1.len() ==> #[trigger] file_canonical(v.1[i])
}

proof fn lemma_files_min_len(fs: Seq<FileView>)
    ensures
        encode_files(fs).len() >= 12 * fs.len(),
    decreases fs.len(),
{
    if fs.len() > 0 {
        lemma_file_min_len(fs[0]);
        lemma_files_min_len(fs.drop_first());
    }
}

proof fn lemma_files_tail(fs: Seq<FileView>)
    requires
        fs.len() > 0,
        forall|i: int| 0 <= i < fs.len() ==> #[trigger] file_fits(fs[i]),
        forall|i: int| 0 <= i < fs.len() ==> #[trigger] file_canonical(fs[i]),
    ensures
        forall|i: int| 0 <= i < fs.drop_first().len() ==> #[trigger] file_fits(fs.drop_first()[i]),
        forall|i: int| 0 <= i < fs.drop_first().len() ==> #[trigger] file_canonical(fs.drop_first()[i]),
        file_fits(fs[0]),
        file_canonical(fs[0]),
{
    let tail = fs.drop_first();
    assert forall|i: int| 0 <= i < tail.len() implies #[trigger] file_fits(tail[i]) by {
        assert(tail[i] == fs[i + 1]);
        assert(file_fits(fs[i + 1]));
    }
    assert forall|i: int| 0 <= i < tail.len() implies #[trigger] file_canonical(tail[i]) by {
        assert(tail[i] == fs[i + 1]);
        assert(file_canonical(fs[i + 1]));
    }
    assert(file_fits(fs[0]));
    assert(file_canonical(fs[0]));
}

proof fn lemma_files_roundtrip(fs: Seq<FileView>, rest: Seq<u8>)
    requires
        forall|i: int| 0 <= i < fs.len() ==> #[trigger] file_fits(fs[i]),
        forall|i: int| 0 <= i < fs.len() ==> #[trigger] file_canonical(fs[i]),
    ensures
        parse_files(encode_files(fs) + rest, fs.len()) == Some((fs, rest)),
    decreases fs.len(),
{
    if fs.len() > 0 {
        let tail = fs.drop_first();
        lemma_files_tail(fs);
        lemma_files_roundtrip(tail, rest);
        let s1 = encode_files(tail) + rest;
        assert(encode_files(fs) + rest =~= encode_file(fs[0]) + s1);
        lemma_file_roundtrip(fs[0], s1);
        let head = fs[0];
        reveal(file_canonical);
        assert(wire_normal(head.2) == head.2);
        assert((head.0, head.1, wire_normal(head.2)) == head);
        assert(parse_file(encode_files(fs) + rest) == Some((head, s1)));
        assert(seq![head] + tail =~= fs);
    } else {
        assert(encode_files(fs) + rest =~= rest);
    }
}

/// A name reply reads back as it was written, when every entry fits the wire
/// format and has wire-normal attributes and there are at most
/// [`MAX_NAME_ENTRIES`] entries.
pub proof fn lemma_name(v: (u32, Seq<FileView>), rest: Seq<u8>)
    requires
        name_fits(v),
        name_canonical(v),
        v.1.len() <= MAX_NAME_ENTRIES,
    ensures
        parse_name(encode_name(v) + rest) == Some((v, rest)),
{
    let s2 = encode_files(v.1) + rest;
    let s1 = u32_be(v.1.len() as u32) + s2;
    assert(encode_name(v) + rest =~= u32_be(v.0) + s1);
    lemma_get_put_u32(v.0, s1);
    lemma_get_put_u32(v.1.len() as u32, s2);
    lemma_files_min_len(v.1);
    assert(v.1.len() <= s2.len() / 12);
    lemma_files_roundtrip(v.1, rest);
}

/// Implementation for `SSH_FXP_NAME`
#[derive(Debug, Clone)]
pub struct Name {
    pub id: u32,
    pub files: Vec<File>,
}

pub open spec fn files_view(files: Seq<File>) -> Seq<FileView> {
    files.map_values(|f: File| f@)
}

impl View for Name {
    type V = (u32, Seq<FileView>);

    open spec fn view(&self) -> (u32, Seq<FileView>) {
        (self.id, files_view(self.files@))
    }
}

/// The text of the error for a name count over a limit.
pub open spec fn count_error_text(count: nat, limit: nat, what: Seq<char>) -> Seq<char> {
    "name count "@ + decimal_chars(count) + " exceeds maximum "@ + what + " entries "@
        + decimal_chars(limit)
}

fn count_error(count: usize, limit: usize, what: &str) -> (e: Error)
    ensures
        e matches Error::BadMessage(m) && m@ == count_error_text(count as nat, limit as nat, what@),
{
    let mut msg = "name count ".to_owned();
    let a = decimal_text(count as u64);
    msg.append(a.as_str());
    msg.append(" exceeds maximum ");
    msg.append(what);
    msg.append(" entries ");
    let b = decimal_text(limit as u64);
    msg.append(b.as_str());
    Error::BadMessage(msg)
}

impl Name {
    /// Decodes the packet body that follows the type byte.
    pub fn from_bytes(input: &mut Reader) -> (r: Result<Name, Error>)
        ensures
            match parse_name(old(input)@) {
                Some((v, rest)) => r matches Ok(p) && p@ == v && final(input)@ == rest,
                None => is_bad_message(r),
            },
    {
        let id = input.try_get_u32()?;
        let count = input.try_get_u32()? as usize;
        let max_count = input.remaining() / 12;
        if count > max_count {
            return Err(count_error(count, max_count, "possible"));
        }
        if count > MAX_NAME_ENTRIES {
            return Err(count_error(count, MAX_NAME_ENTRIES, "supported"));
        }
        let ghost start = input@;
        assert(parse_name(old(input)@) == match parse_files(start, count as nat) {
            Some((fs, s3)) => Some(((id, fs), s3)),
            None => None,
        });
        let mut files: Vec<File> = Vec::with_capacity(if count < MAX_NAME_PREALLOC {
            count
        } else {
            MAX_NAME_PREALLOC
        });
        let mut i: usize = 0;
        while i < count
            invariant
                i <= count,
                files@.len() == i,
                parse_name(old(input)@) == match parse_files(start, count as nat) {
                    Some((fs, s3)) => Some(((id, fs), s3)),
                    None => None,
                },
                parse_files(start, count as nat) == match parse_files(input@, (count - i) as nat) {
                    Some((fs, r)) => Some((files_view(files@) + fs, r)),
                    None => None,
                },
            decreases count - i,
        {
            let ghost before = input@;
            let ghost done = files_view(files@);
            let f = match File::from_bytes(input) {
                Ok(f) => f,
                Err(e) => {
                    assert(parse_file(before) is None);
                    assert(parse_files(before, (count - i) as nat) is None);
                    return Err(e);
                },
            };
            assert(parse_files(before, (count - i) as nat) == match parse_files(
                input@,
                (count - i - 1) as nat,
            ) {
                Some((fs, r)) => Some((seq![f@] + fs, r)),
                None => None,
            });
            files.push(f);
            assert(files_view(files@) =~= done.push(f@));
            proof {
                match parse_files(input@, (count - i - 1) as nat) {
                    Some((fs, r)) => {
                        assert(done + (seq![f@] + fs) =~= files_view(files@) + fs);
                    },
                    None => {},
                }
            }
            i = i + 1;
        }
        assert(files_view(files@) + Seq::<FileView>::empty() =~= files_view(files@));
        Ok(Name { id, files })
    }

    /// Appends the packet body; fails, writing nothing, when there are more
    /// entries than a `uint32` counts or a name is too long for the wire
    /// format.
    pub fn serialize_into(&self, out: &mut Vec<u8>) -> (r: Result<(), Error>)
        ensures
            r is Ok <==> name_fits(self@),
            r is Ok ==> final(out)@ == old(out)@ + encode_name(self@),
            r is Err ==> final(out)@ == old(out)@ && is_bad_message(r),
    {
        reveal(super::file_attrs::file_fits);
        let n = checked_u32_len(self.files.len())?;
        let mut k: usize = 0;
        while k < self.files.len()
            invariant
                k <= self.files@.len(),
                forall|j: int| 0 <= j < k ==> #[trigger] file_fits(self.files@[j]@),
            decreases self.files@.len() - k,
        {
            proof {
                reveal(super::file_attrs::file_fits);
            }
            let f = &self.files[k];
            if f.filename.as_str().as_bytes().len() > u32::MAX as usize
                || f.longname.as_str().as_bytes().len() > u32::MAX as usize {
                assert(!file_fits(self.files@[k as int]@));
                assert(self@.1[k as int] == self.files@[k as int]@);
                return Err(Error::BadMessage("length exceeds u32::MAX".to_owned()));
            }
            k = k + 1;
        }
        assert(name_fits(self@)) by {
            assert forall|i: int| 0 <= i < self@.1.len() implies #[trigger] file_fits(self@.1[i]) by {
                assert(file_fits(self.files@[i]@));
            }
        }
        put_u32(out, self.id);
        put_u32(out, n);
        let ghost head = out@;
        let mut i: usize = 0;
        while i < self.files.len()
            invariant
                i <= self.files@.len(),
                forall|j: int| 0 <= j < self.files@.len() ==> #[trigger] file_fits(self.files@[j]@),
                out@ == head + encode_files(files_view(self.files@).take(i as int)),
            decreases self.files@.len() - i,
        {
            let ghost before = out@;
            let r = self.files[i].serialize_into(out);
            assert(file_fits(self.files@[i as int]@));
            assert(r is Ok);
            proof {
                lemma_encode_files_push(files_view(self.files@).take(i as int), self.files@[i as int]@);
                assert(files_view(self.files@).take(i as int).push(self.files@[i as int]@)
                    =~= files_view(self.files@).take(i + 1));
            }
            i = i + 1;
        }
        assert(files_view(self.files@).take(i as int) =~= files_view(self.files@));
        assert(out@ =~= old(out)@ + encode_name(self@));
        Ok(())
    }
}

proof fn lemma_encode_files_push(fs: Seq<FileView>, f: FileView)
    ensures
        encode_files(fs.push(f)) == encode_files(fs) + encode_file(f),
    decreases fs.len(),
{
    if fs.len() == 0 {
        let one = fs.push(f);
        assert(one.drop_first() =~= Seq::<FileView>::empty());
        assert(one[0] == f);
        assert(encode_files(one.drop_first()) == Seq::<u8>::empty());
        assert(encode_files(one) == encode_file(f) + encode_files(one.drop_first()));
        assert(encode_files(one) =~= encode_file(f));
        assert(encode_files(fs) + encode_file(f) =~= encode_file(f));
    } else {
        lemma_encode_files_push(fs.drop_first(), f);
        assert(fs.push(f).drop_first() =~= fs.drop_first().push(f));
        assert(encode_files(fs.push(f)) =~= encode_files(fs) + encode_file(f));
    }
}

/// Layout `uint32 id, ATTRS attrs`.
pub open spec fn parse_attrs_reply(s: Seq<u8>) -> Option<((u32, FileAttributesView), Seq<u8>)> {
    match get_u32_spec(s) {
        None => None,
        Some((id, s1)) => match parse_attrs(s1) {
            None => None,
            Some((a, s2)) => Some(((id, a), s2)),
        },
    }
}

pub open spec fn encode_attrs_reply(v: (u32, FileAttributesView)) -> Seq<u8> {
    u32_be(v.0) + encode_attrs(v.1)
}

pub proof fn lemma_attrs_reply(v: (u32, FileAttributesView), rest: Seq<u8>)
    ensures
        parse_attrs_reply(encode_attrs_reply(v) + rest) == Some(((v.0, wire_normal(v.1)), rest)),
{
    let s1 = encode_attrs(v.1) + rest;
    assert(encode_attrs_reply(v) + rest =~= u32_be(v.0) + s1);
    lemma_get_put_u32(v.0, s1);
    lemma_attrs_roundtrip(v.1, rest);
}

/// Implementation for `SSH_FXP_ATTRS`
#[derive(Debug, Clone)]
pub struct Attrs {
    pub id: u32,
    pub attrs: FileAttributes,
}

impl View for Attrs {
    type V = (u32, FileAttributesView);

    open spec fn view(&self) -> (u32, FileAttributesView) {
        (self.id, self.attrs@)
    }
}

impl Attrs {
    /// Decodes the packet body that follows the type byte.
    pub fn from_bytes(input: &mut Reader) -> (r: Result<Attrs, Error>)
        ensures
            match parse_attrs_reply(old(input)@) {
                Some((v, rest)) => r matches Ok(p) && p@ == v && final(input)@ == rest,
                None => is_bad_message(r),
            },
    {
        let id = input.try_get_u32()?;
        let attrs = FileAttributes::from_bytes(input)?;
        Ok(Attrs { id, attrs })
    }

    /// Appends the packet body.
    pub fn serialize_into(&self, out: &mut Vec<u8>)
        ensures
            final(out)@ == old(out)@ + encode_attrs_reply(self@),
    {
        put_u32(out, self.id);
        self.attrs.serialize_into(out);
        assert(out@ =~= old(out)@ + encode_attrs_reply(self@));
    }
}

} // verus!
