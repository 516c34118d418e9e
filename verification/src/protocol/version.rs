//! Protocol version negotiation: `SSH_FXP_INIT` from the client and
//! `SSH_FXP_VERSION` from the server, each with a set of named extensions.

use vstd::prelude::*;

use crate::buf::{Reader, TryBuf};
use crate::error::{is_bad_message, Error};
use crate::wire::{
    get_string_spec, get_u32_spec, lemma_get_put_string, lemma_get_put_u32, put_string,
    put_string_spec, put_u32, text_fits, u32_be,
};
use vstd::pervasive::VecAdditionalExecFns;

verus! {

/// The protocol version this crate speaks.
pub const VERSION: u32 = 3;

/// Extension names and their data, each name at most once.
pub type Extensions = Seq<(Seq<char>, Seq<char>)>;

/// Every extension name occurs once.
pub open spec fn names_distinct(m: Extensions) -> bool {
    forall|i: int, j: int| 0 <= i < m.len() && 0 <= j < m.len() && i != j ==> m[i].0 != m[j].0
}

/// Does an extension of this name occur?
pub open spec fn has_name(m: Extensions, k: Seq<char>) -> bool {
    exists|i: int| 0 <= i < m.len() && #[trigger] m[i].0 == k
}

/// Records `k` with data `v`: a name seen before gets the new data, a new
/// name is added at the end.
pub open spec fn ext_insert(m: Extensions, k: Seq<char>, v: Seq<char>) -> Extensions {
    if has_name(m, k) {
        m.update(choose|i: int| 0 <= i < m.len() && #[trigger] m[i].0 == k, (k, v))
    } else {
        m.push((k, v))
    }
}

/// Reads name and data pairs up to the end of the packet, recording each in
/// `acc`.
pub open spec fn parse_extensions(s: Seq<u8>, acc: Extensions) -> Option<Extensions>
    decreases s.len(),
{
    if s.len() == 0 {
        Some(acc)
    } else {
        match get_string_spec(s) {
            None => None,
            Some((k, s1)) => match get_string_spec(s1) {
                None => None,
                Some((v, s2)) => parse_extensions(s2, ext_insert(acc, k, v)),
            },
        }
    }
}

/// Name and data pairs one after the other.
pub open spec fn encode_extensions(m: Extensions) -> Seq<u8>
    decreases m.len(),
{
    if m.len() == 0 {
        Seq::empty()
    } else {
        put_string_spec(m[0].0) + (put_string_spec(m[0].1) + encode_extensions(m.drop_first()))
    }
}

pub open spec fn extensions_fit(m: Extensions) -> bool {
    forall|i: int| 0 <= i < m.len() ==> text_fits(#[trigger] m[i].0) && text_fits(m[i].1)
}

/// Layout `uint32 version, then name and data strings to the end of the packet`.
pub open spec fn parse_version(s: Seq<u8>) -> Option<((u32, Extensions), Seq<u8>)> {
    match get_u32_spec(s) {
        None => None,
        Some((version, s1)) => match parse_extensions(s1, Seq::empty()) {
            None => None,
            Some(m) => Some(((version, m), Seq::empty())),
        },
    }
}

pub open spec fn encode_version(v: (u32, Extensions)) -> Seq<u8> {
    u32_be(v.0) + encode_extensions(v.1)
}

/// What the tail of a list of extensions keeps once its first entry is
/// recorded.
proof fn lemma_extensions_tail(m: Extensions, acc: Extensions)
    requires
        m.len() > 0,
        names_distinct(m),
        extensions_fit(m),
        forall|i: int| 0 <= i < m.len() ==> !has_name(acc, #[trigger] m[i].0),
    ensures
        names_distinct(m.drop_first()),
        extensions_fit(m.drop_first()),
        forall|i: int|
            0 <= i < m.drop_first().len() ==> !has_name(acc.push(m[0]), #[trigger] m.drop_first()[i].0),
{
    let tail = m.drop_first();
    let acc2 = acc.push(m[0]);
    assert forall|i: int| 0 <= i < tail.len() implies !has_name(acc2, #[trigger] tail[i].0) by {
        assert(tail[i] == m[i + 1]);
        assert(!has_name(acc, m[i + 1].0));
        assert(m[i + 1].0 != m[0].0);
        if has_name(acc2, tail[i].0) {
            let j = choose|j: int| 0 <= j < acc2.len() && #[trigger] acc2[j].0 == tail[i].0;
            if j < acc.len() {
                assert(acc[j].0 == tail[i].0);
            }
        }
    }
    assert(names_distinct(tail)) by {
        assert forall|i: int, j: int|
            0 <= i < tail.len() && 0 <= j < tail.len() && i != j implies tail[i].0
            != tail[j].0 by {
            assert(tail[i] == m[i + 1]);
            assert(tail[j] == m[j + 1]);
        }
    }
    assert(extensions_fit(tail)) by {
        assert forall|i: int| 0 <= i < tail.len() implies text_fits(#[trigger] tail[i].0)
            && text_fits(tail[i].1) by {
            assert(tail[i] == m[i + 1]);
        }
    }
}

proof fn lemma_extensions_roundtrip(m: Extensions, acc: Extensions)
    requires
        names_distinct(m),
        extensions_fit(m),
        forall|i: int| 0 <= i < m.len() ==> !has_name(acc, #[trigger] m[i].0),
    ensures
        parse_extensions(encode_extensions(m), acc) == Some(acc + m),
    decreases m.len(),
{
    if m.len() == 0 {
        assert(acc + m =~= acc);
    } else {
        let k = m[0].0;
        let v = m[0].1;
        let tail = m.drop_first();
        let s2 = encode_extensions(tail);
        let s1 = put_string_spec(v) + s2;
        assert(text_fits(k) && text_fits(v));
        lemma_get_put_string(k, s1);
        lemma_get_put_string(v, s2);
        assert(encode_extensions(m) == put_string_spec(k) + s1);
        assert(!has_name(acc, k));
        let acc2 = acc.push((k, v));
        assert(ext_insert(acc, k, v) == acc2);
        lemma_extensions_tail(m, acc);
        assert(s1.len() < encode_extensions(m).len()) by {
            assert(put_string_spec(k).len() >= 4);
        }
        assert(encode_extensions(m).len() > 0);
        lemma_extensions_roundtrip(tail, acc2);
        assert(acc2 + tail =~= acc + m);
    }
}

/// A version announcement reads back as it was written, when every
/// extension name occurs once and every text fits the wire format.
pub proof fn lemma_version(v: (u32, Extensions))
    requires
        names_distinct(v.1),
        extensions_fit(v.1),
    ensures
        parse_version(encode_version(v)) == Some((v, Seq::<u8>::empty())),
{
    lemma_get_put_u32(v.0, encode_extensions(v.1));
    assert forall|i: int| 0 <= i < v.1.len() implies !has_name(Seq::empty(), #[trigger] v.1[i].0) by {}
    lemma_extensions_roundtrip(v.1, Seq::empty());
    assert(Seq::<(Seq<char>, Seq<char>)>::empty() + v.1 =~= v.1);
}

/// The value of a list of extensions.
pub open spec fn extensions_view(e: Seq<(String, String)>) -> Extensions {
    e.map_values(|p: (String, String)| (p.0@, p.1@))
}

/// Records `k` with data `v` in `entries`.
fn insert_extension(entries: &mut Vec<(String, String)>, k: String, v: String)
    requires
        names_distinct(extensions_view(old(entries)@)),
    ensures
        names_distinct(extensions_view(final(entries)@)),
        extensions_view(final(entries)@) == ext_insert(extensions_view(old(entries)@), k@, v@),
{
    let ghost m = extensions_view(entries@);
    let mut i: usize = 0;
    while i < entries.len()
        invariant
            i <= entries@.len(),
            entries@ == old(entries)@,
            m == extensions_view(entries@),
            names_distinct(m),
            forall|j: int| 0 <= j < i ==> m[j].0 != k@,
        decreases entries@.len() - i,
    {
        if entries[i].0 == k {
            let ghost kv = k@;
            let ghost vv = v@;
            entries.set(i, (k, v));
            proof {
                assert(m[i as int].0 == kv);
                assert(has_name(m, kv));
                let c = choose|c: int| 0 <= c < m.len() && #[trigger] m[c].0 == kv;
                assert(c == i as int);
                assert(extensions_view(entries@) =~= m.update(i as int, (kv, vv)));
                let m2 = m.update(i as int, (kv, vv));
                assert forall|a: int, b: int|
                    0 <= a < m2.len() && 0 <= b < m2.len() && a != b implies m2[a].0 != m2[b].0 by {
                    assert(m2[a].0 == m[a].0);
                    assert(m2[b].0 == m[b].0);
                }
            }
            return;
        }
        i = i + 1;
    }
    let ghost kv = k@;
    let ghost vv = v@;
    entries.push((k, v));
    proof {
        assert(!has_name(m, kv));
        assert(extensions_view(entries@) =~= m.push((kv, vv)));
    }
}

/// Reads a version word and the extensions after it.
fn read_version_body(input: &mut Reader) -> (r: Result<(u32, Vec<(String, String)>), Error>)
    ensures
        match parse_version(old(input)@) {
            Some((v, rest)) => r matches Ok(x) && x.0 == v.0 && extensions_view(x.1@) == v.1
                && names_distinct(v.1) && final(input)@ == rest,
            None => is_bad_message(r),
        },
{
    let version = input.try_get_u32()?;
    let mut entries: Vec<(String, String)> = Vec::new();
    let ghost start = input@;
    assert(extensions_view(entries@) =~= Seq::<(Seq<char>, Seq<char>)>::empty());
    while input.has_remaining()
        invariant
            names_distinct(extensions_view(entries@)),
            parse_version(old(input)@) == match parse_extensions(start, Seq::empty()) {
                None => None,
                Some(m) => Some(((version, m), Seq::<u8>::empty())),
            },
            parse_extensions(start, Seq::empty()) == parse_extensions(
                input@,
                extensions_view(entries@),
            ),
        decreases input@.len(),
    {
        let ghost before = input@;
        let k = input.try_get_string()?;
        let v = input.try_get_string()?;
        insert_extension(&mut entries, k, v);
    }
    Ok((version, entries))
}

fn write_version_body(out: &mut Vec<u8>, version: u32, entries: &Vec<(String, String)>) -> (r: Result<(), Error>)
    ensures
        r is Ok <==> extensions_fit(extensions_view(entries@)),
        r is Ok ==> final(out)@ == old(out)@ + encode_version((version, extensions_view(entries@))),
        r is Err ==> final(out)@ == old(out)@ && is_bad_message(r),
{
    let ghost m = extensions_view(entries@);
    let mut k: usize = 0;
    while k < entries.len()
        invariant
            k <= entries@.len(),
            m == extensions_view(entries@),
            forall|j: int| 0 <= j < k ==> text_fits(#[trigger] m[j].0) && text_fits(m[j].1),
        decreases entries@.len() - k,
    {
        if entries[k].0.as_str().as_bytes().len() > u32::MAX as usize
            || entries[k].1.as_str().as_bytes().len() > u32::MAX as usize {
            assert(m[k as int].0 == entries@[k as int].0@);
            assert(!extensions_fit(m));
            return Err(Error::BadMessage("length exceeds u32::MAX".to_owned()));
        }
        k = k + 1;
    }
    put_u32(out, version);
    let ghost head = out@;
    let mut i: usize = 0;
    while i < entries.len()
        invariant
            i <= entries@.len(),
            m == extensions_view(entries@),
            extensions_fit(m),
            out@ == head + encode_extensions(m.take(i as int)),
        decreases entries@.len() - i,
    {
        let ghost before = out@;
        let r1 = put_string(out, entries[i].0.as_str());
        assert(text_fits(m[i as int].0));
        assert(r1 is Ok);
        let r2 = put_string(out, entries[i].1.as_str());
        assert(r2 is Ok);
        proof {
            lemma_encode_extensions_push(m.take(i as int), m[i as int]);
            assert(m.take(i as int).push(m[i as int]) =~= m.take(i + 1));
        }
        i = i + 1;
    }
    assert(m.take(i as int) =~= m);
    assert(out@ =~= old(out)@ + encode_version((version, m)));
    Ok(())
}

proof fn lemma_encode_extensions_push(m: Extensions, e: (Seq<char>, Seq<char>))
    ensures
        encode_extensions(m.push(e)) == encode_extensions(m) + (put_string_spec(e.0)
            + put_string_spec(e.1)),
    decreases m.len(),
{
    if m.len() == 0 {
        let one = m.push(e);
        assert(one.drop_first() =~= Seq::<(Seq<char>, Seq<char>)>::empty());
        assert(one[0] == e);
        assert(encode_extensions(one.drop_first()) == Seq::<u8>::empty());
        assert(encode_extensions(one) =~= put_string_spec(e.0) + put_string_spec(e.1));
        assert(encode_extensions(m) + (put_string_spec(e.0) + put_string_spec(e.1))
            =~= put_string_spec(e.0) + put_string_spec(e.1));
    } else {
        lemma_encode_extensions_push(m.drop_first(), e);
        assert(m.push(e).drop_first() =~= m.drop_first().push(e));
        assert(encode_extensions(m.push(e)) =~= encode_extensions(m) + (put_string_spec(e.0)
            + put_string_spec(e.1)));
    }
}

/// Implementation for `SSH_FXP_VERSION`
#[derive(Debug, Clone)]
pub struct Version {
    pub version: u32,
    pub extensions: Vec<(String, String)>,
}

impl View for Version {
    type V = (u32, Extensions);

    open spec fn view(&self) -> (u32, Extensions) {
        (self.version, extensions_view(self.extensions@))
    }
}

impl Version {
    /// Decodes the packet body that follows the type byte; a name that
    /// occurs twice keeps the data of its last occurrence.
    pub fn from_bytes(input: &mut Reader) -> (r: Result<Version, Error>)
        ensures
            match parse_version(old(input)@) {
                Some((v, rest)) => r matches Ok(p) && p@ == v && names_distinct(v.1)
                    && final(input)@ == rest,
                None => is_bad_message(r),
            },
    {
        let (version, extensions) = read_version_body(input)?;
        Ok(Version { version, extensions })
    }

    /// The server's announcement of protocol version 3 with no extensions.
    pub fn new() -> (v: Version)
        ensures
            v@ == (VERSION, Seq::<(Seq<char>, Seq<char>)>::empty()),
    {
        let v = Version { version: VERSION, extensions: Vec::new() };
        assert(extensions_view(v.extensions@) =~= Seq::<(Seq<char>, Seq<char>)>::empty());
        v
    }

    /// Appends the packet body; fails, writing nothing, when a text is too
    /// long for the wire format.
    pub fn serialize_into(&self, out: &mut Vec<u8>) -> (r: Result<(), Error>)
        ensures
            r is Ok <==> extensions_fit(self@.1),
            r is Ok ==> final(out)@ == old(out)@ + encode_version(self@),
            r is Err ==> final(out)@ == old(out)@ && is_bad_message(r),
    {
        write_version_body(out, self.version, &self.extensions)
    }
}

impl Default for Version {
    fn default() -> (v: Version)
        ensures
            v@ == (VERSION, Seq::<(Seq<char>, Seq<char>)>::empty()),
    {
        Version::new()
    }
}

/// Implementation for `SSH_FXP_INIT`
#[derive(Debug, Clone)]
pub struct Init {
    pub version: u32,
    pub extensions: Vec<(String, String)>,
}

impl View for Init {
    type V = (u32, Extensions);

    open spec fn view(&self) -> (u32, Extensions) {
        (self.version, extensions_view(self.extensions@))
    }
}

impl Init {
    /// The client's opening request for protocol version 3 with no
    /// extensions.
    pub fn new() -> (v: Init)
        ensures
            v@ == (VERSION, Seq::<(Seq<char>, Seq<char>)>::empty()),
    {
        let v = Init { version: VERSION, extensions: Vec::new() };
        assert(extensions_view(v.extensions@) =~= Seq::<(Seq<char>, Seq<char>)>::empty());
        v
    }

    /// Decodes the packet body that follows the type byte; a name that
    /// occurs twice keeps the data of its last occurrence.
    pub fn from_bytes(input: &mut Reader) -> (r: Result<Init, Error>)
        ensures
            match parse_version(old(input)@) {
                Some((v, rest)) => r matches Ok(p) && p@ == v && names_distinct(v.1)
                    && final(input)@ == rest,
                None => is_bad_message(r),
            },
    {
        let (version, extensions) = read_version_body(input)?;
        Ok(Init { version, extensions })
    }

    /// Appends the packet body; fails, writing nothing, when a text is too
    /// long for the wire format.
    pub fn serialize_into(&self, out: &mut Vec<u8>) -> (r: Result<(), Error>)
        ensures
            r is Ok <==> extensions_fit(self@.1),
            r is Ok ==> final(out)@ == old(out)@ + encode_version(self@),
            r is Err ==> final(out)@ == old(out)@ && is_bad_message(r),
    {
        write_version_body(out, self.version, &self.extensions)
    }
}

} // verus!
