//! The fsmonitor cache file, which lets the fsmonitor helper read a snapshot
//! without asking the daemon.
//!
//! File format, integers little-endian:
//!
//! ```text
//! header (24 bytes): magic "GITY", version 1, 3 reserved zero bytes,
//!                    generation (8), path count (4), path bytes (4)
//! per path:          length (2), UTF-8 bytes
//! ```
//!
//! Counts and lengths are written modulo their field's range; a snapshot
//! whose fields fit reads back as it was written.
use sha1::Digest;
use vstd::prelude::*;
use vstd::bytes::{
    spec_u16_from_le_bytes, spec_u16_to_le_bytes, spec_u32_from_le_bytes, spec_u32_to_le_bytes,
    spec_u64_from_le_bytes, spec_u64_to_le_bytes,
};
use vstd::utf8::{decode_utf8, encode_utf8, valid_utf8};

use crate::ipc::{FsMonitorSnapshot, StatusView};
use crate::pathname::{join_child, spec_join_child};
use crate::text::names_of;

verus! {

broadcast use vstd::string::group_string_axioms;

/// The SHA-1 digest of `data`.
pub uninterp spec fn sha1_digest(data: Seq<u8>) -> Seq<u8>;

/// `sha1::Sha1::digest`: the 20-byte SHA-1 digest of `data`.
#[verifier::external_body]
pub(crate) fn sha1(data: &[u8]) -> (d: Vec<u8>)
    ensures
        d@ == sha1_digest(data@),
        d@.len() == 20,
{
    sha1::Sha1::digest(data).to_vec()
}

/// The lowercase hexadecimal digit for `n` (below 16).
pub open spec fn hex_digit(n: u8) -> char {
    if n < 10 {
        (48 + n) as char
    } else {
        (87 + n) as char
    }
}

/// Two lowercase hexadecimal digits per byte, high nibble first.
pub open spec fn hex_lower(bytes: Seq<u8>) -> Seq<char>
    decreases bytes.len(),
{
    if bytes.len() == 0 {
        Seq::empty()
    } else {
        hex_lower(bytes.drop_last()) + seq![hex_digit(bytes.last() / 16), hex_digit(bytes.last() % 16)]
    }
}

pub proof fn lemma_hex_len(bytes: Seq<u8>)
    ensures
        hex_lower(bytes).len() == 2 * bytes.len(),
    decreases bytes.len(),
{
    if bytes.len() > 0 {
        lemma_hex_len(bytes.drop_last());
    }
}

/// `hex::encode`: each byte as two lowercase hexadecimal digits.
#[verifier::external_body]
pub(crate) fn hex_encode(bytes: &[u8]) -> (s: String)
    ensures
        s@ == hex_lower(bytes@),
{
    hex::encode(bytes)
}

/// `String::from_utf8_lossy` on bytes that are not valid UTF-8.
pub uninterp spec fn utf8_lossy(bytes: Seq<u8>) -> Seq<char>;

/// The text `String::from_utf8_lossy` makes of `bytes`.
pub open spec fn lossy_text(bytes: Seq<u8>) -> Seq<char> {
    if valid_utf8(bytes) {
        decode_utf8(bytes)
    } else {
        utf8_lossy(bytes)
    }
}

/// `String::from_utf8_lossy`, owned: valid UTF-8 decodes as it is; other
/// input gets replacement characters.
#[verifier::external_body]
fn from_utf8_lossy(bytes: &[u8]) -> (s: String)
    ensures
        !valid_utf8(bytes@) ==> s@ == utf8_lossy(bytes@),
        valid_utf8(bytes@) ==> s@ == decode_utf8(bytes@),
{
    String::from_utf8_lossy(bytes).into_owned()
}

/// "GITY"
pub open spec fn magic() -> Seq<u8> {
    seq![71u8, 73u8, 84u8, 89u8]
}

/// Bytes a path takes in the file: its UTF-8 length, then the UTF-8.
pub open spec fn path_entry(p: Seq<char>) -> Seq<u8> {
    let b = encode_utf8(p);
    spec_u16_to_le_bytes((b.len() % 65536) as u16) + b
}

pub open spec fn entries_bytes(paths: Seq<Seq<char>>) -> Seq<u8>
    decreases paths.len(),
{
    if paths.len() == 0 {
        Seq::empty()
    } else {
        path_entry(paths[0]) + entries_bytes(paths.drop_first())
    }
}

/// Total bytes of the path entries.
pub open spec fn paths_size(paths: Seq<Seq<char>>) -> nat
    decreases paths.len(),
{
    if paths.len() == 0 {
        0
    } else {
        paths_size(paths.drop_last()) + 2 + encode_utf8(paths.last()).len()
    }
}

/// The cache file of a snapshot with `generation` and `paths`.
pub open spec fn spec_encode(generation: u64, paths: Seq<Seq<char>>) -> Seq<u8> {
    magic() + seq![1u8, 0u8, 0u8, 0u8] + spec_u64_to_le_bytes(generation) + spec_u32_to_le_bytes(
        (paths.len() % 0x1_0000_0000) as u32,
    ) + spec_u32_to_le_bytes((paths_size(paths) % 0x1_0000_0000) as u32) + entries_bytes(paths)
}

/// The header is long enough and names this format and version.
pub open spec fn header_ok(b: Seq<u8>) -> bool {
    &&& b.len() >= 24
    &&& b.subrange(0, 4) == magic()
    &&& b[4] == 1
}

/// `count` path entries read from `b` at `off`.
pub open spec fn parse_entries(b: Seq<u8>, off: int, count: nat) -> Option<Seq<Seq<char>>>
    decreases count,
{
    if count == 0 {
        Some(Seq::empty())
    } else if off + 2 > b.len() {
        None
    } else {
        let l = spec_u16_from_le_bytes(b.subrange(off, off + 2)) as int;
        if off + 2 + l > b.len() {
            None
        } else {
            match parse_entries(b, off + 2 + l, (count - 1) as nat) {
                Some(rest) => Some(seq![lossy_text(b.subrange(off + 2, off + 2 + l))] + rest),
                None => None,
            }
        }
    }
}

/// The generation and paths a cache file holds; `None` for a file that is
/// not one or is cut short.
pub open spec fn spec_decode(b: Seq<u8>) -> Option<(u64, Seq<Seq<char>>)> {
    if !header_ok(b) {
        None
    } else {
        match parse_entries(b, 24, spec_u32_from_le_bytes(b.subrange(16, 20)) as nat) {
            Some(paths) => Some((spec_u64_from_le_bytes(b.subrange(8, 16)), paths)),
            None => None,
        }
    }
}

/// The generation in a cache file's header.
pub open spec fn spec_decode_generation(b: Seq<u8>) -> Option<u64> {
    if header_ok(b) {
        Some(spec_u64_from_le_bytes(b.subrange(8, 16)))
    } else {
        None
    }
}

/// The file contents for `snapshot`.
pub fn encode_snapshot(snapshot: &FsMonitorSnapshot) -> (b: Vec<u8>)
    ensures
        b@ == spec_encode(snapshot.generation, names_of(snapshot.dirty_paths@)),
{
    let paths = &snapshot.dirty_paths;
    let ghost ps = names_of(paths@);
    // Path bytes, modulo 2^32.
    let mut size: u64 = 0;
    let mut i: usize = 0;
    while i < paths.len()
        invariant
            i <= paths@.len(),
            ps == names_of(paths@),
            size == paths_size(ps.take(i as int)) % 0x1_0000_0000,
        decreases paths@.len() - i,
    {
        proof {
            assert(ps.take(i + 1).drop_last() =~= ps.take(i as int));
            assert(ps.take(i + 1).last() == paths@[i as int]@);
        }
        let len = paths[i].as_str().as_bytes().len();
        let t: u64 = ((len as u64) % 0x1_0000_0000) + 2;
        proof {
            let a = paths_size(ps.take(i as int)) as int;
            let l = len as int;
            vstd::arithmetic::div_mod::lemma_add_mod_noop(a, l + 2, 0x1_0000_0000);
            vstd::arithmetic::div_mod::lemma_add_mod_noop(l, 2, 0x1_0000_0000);
            vstd::arithmetic::div_mod::lemma_mod_twice(l, 0x1_0000_0000);
            vstd::arithmetic::div_mod::lemma_add_mod_noop(size as int, t as int, 0x1_0000_0000);
            vstd::arithmetic::div_mod::lemma_add_mod_noop(l % 0x1_0000_0000, 2, 0x1_0000_0000);
        }
        size = (size + t) % 0x1_0000_0000;
        i = i + 1;
    }
    proof {
        assert(ps.take(paths@.len() as int) =~= ps);
    }
    let mut buf: Vec<u8> = Vec::new();
    buf.push(71u8);
    buf.push(73u8);
    buf.push(84u8);
    buf.push(89u8);
    buf.push(1u8);
    buf.push(0u8);
    buf.push(0u8);
    buf.push(0u8);
    let mut g = vstd::bytes::u64_to_le_bytes(snapshot.generation);
    buf.append(&mut g);
    let count = ((paths.len() as u64) % 0x1_0000_0000) as u32;
    let mut c = vstd::bytes::u32_to_le_bytes(count);
    buf.append(&mut c);
    let mut s = vstd::bytes::u32_to_le_bytes(size as u32);
    buf.append(&mut s);
    let ghost header = buf@;
    proof {
        assert(header =~= magic() + seq![1u8, 0u8, 0u8, 0u8] + spec_u64_to_le_bytes(snapshot.generation)
            + spec_u32_to_le_bytes((ps.len() % 0x1_0000_0000) as u32) + spec_u32_to_le_bytes(
            (paths_size(ps) % 0x1_0000_0000) as u32,
        ));
        assert(entries_bytes(ps.take(0)) =~= Seq::<u8>::empty());
        assert(buf@ =~= header + entries_bytes(ps.take(0)));
    }
    let mut k: usize = 0;
    while k < paths.len()
        invariant
            k <= paths@.len(),
            ps == names_of(paths@),
            buf@ == header + entries_bytes(ps.take(k as int)),
        decreases paths@.len() - k,
    {
        let mut bytes = vstd::slice::slice_to_vec(paths[k].as_str().as_bytes());
        let l = ((bytes.len() as u64) % 65536) as u16;
        let mut lb = vstd::bytes::u16_to_le_bytes(l);
        let ghost before = buf@;
        buf.append(&mut lb);
        buf.append(&mut bytes);
        proof {
            assert(ps.take(k + 1) =~= ps.take(k as int).push(ps[k as int]));
            lemma_entries_push(ps.take(k as int), ps[k as int]);
            assert(buf@ =~= header + entries_bytes(ps.take(k + 1)));
        }
        k = k + 1;
    }
    proof {
        assert(ps.take(paths@.len() as int) =~= ps);
    }
    buf
}

pub proof fn lemma_entries_push(ps: Seq<Seq<char>>, p: Seq<char>)
    ensures
        entries_bytes(ps.push(p)) == entries_bytes(ps) + path_entry(p),
    decreases ps.len(),
{
    if ps.len() == 0 {
        assert(ps.push(p).drop_first() =~= Seq::<Seq<char>>::empty());
        assert(entries_bytes(Seq::<Seq<char>>::empty()) == Seq::<u8>::empty());
        assert(entries_bytes(ps) == Seq::<u8>::empty());
        assert(entries_bytes(ps.push(p)) =~= path_entry(p));
    } else {
        assert(ps.push(p).drop_first() =~= ps.drop_first().push(p));
        lemma_entries_push(ps.drop_first(), p);
        assert(entries_bytes(ps.push(p)) =~= entries_bytes(ps) + path_entry(p));
    }
}

fn read_u16(b: &Vec<u8>, off: usize) -> (x: u16)
    requires
        off + 2 <= b.len(),
    ensures
        x == spec_u16_from_le_bytes(b@.subrange(off as int, off + 2)),
{
    vstd::bytes::u16_from_le_bytes(vstd::slice::slice_subrange(b.as_slice(), off, off + 2))
}

/// Reads a snapshot of `repo_path` back from the file contents `bytes`;
/// `None` when they are not a cache file or are cut short.
pub fn decode_snapshot(repo_path: String, bytes: &Vec<u8>) -> (r: Option<FsMonitorSnapshot>)
    ensures
        match spec_decode(bytes@) {
            None => r is None,
            Some((g, paths)) => r matches Some(s) && s@ == (StatusView {
                repo_path: repo_path@,
                dirty_paths: paths,
                generation: g,
            }),
        },
{
    let generation = match decode_generation(bytes) {
        Some(g) => g,
        None => return None,
    };
    let count = vstd::bytes::u32_from_le_bytes(vstd::slice::slice_subrange(bytes.as_slice(), 16, 20));
    let ghost b = bytes@;
    let ghost total = parse_entries(b, 24, count as nat);
    let mut dirty_paths: Vec<String> = Vec::new();
    let mut offset: usize = 24;
    let mut k: u32 = 0;
    while k < count
        invariant
            k <= count,
            b == bytes@,
            24 <= offset <= b.len(),
            total == parse_entries(b, 24, count as nat),
            spec_decode(b) == match total {
                Some(ps) => Some((generation, ps)),
                None => None::<(u64, Seq<Seq<char>>)>,
            },
            total == match parse_entries(b, offset as int, (count - k) as nat) {
                Some(rest) => Some(names_of(dirty_paths@) + rest),
                None => None::<Seq<Seq<char>>>,
            },
        decreases count - k,
    {
        if bytes.len() < 2 || offset > bytes.len() - 2 {
            proof {
                assert(parse_entries(b, offset as int, (count - k) as nat) is None);
            }
            return None;
        }
        let path_len = read_u16(bytes, offset) as usize;
        offset = offset + 2;
        if path_len > bytes.len() - offset {
            proof {
                assert(parse_entries(b, offset - 2, (count - k) as nat) is None);
            }
            return None;
        }
        let piece = vstd::slice::slice_subrange(bytes.as_slice(), offset, offset + path_len);
        let text = from_utf8_lossy(piece);
        let ghost before = names_of(dirty_paths@);
        dirty_paths.push(text);
        proof {
            let rest = parse_entries(b, (offset + path_len) as int, (count - k - 1) as nat);
            assert(names_of(dirty_paths@) =~= before.push(text@));
            match rest {
                Some(r) => {
                    assert(before + (seq![text@] + r) =~= before.push(text@) + r);
                },
                None => {},
            }
        }
        offset = offset + path_len;
        k = k + 1;
    }
    proof {
        assert(names_of(dirty_paths@) + Seq::<Seq<char>>::empty() =~= names_of(dirty_paths@));
    }
    Some(FsMonitorSnapshot { repo_path, dirty_paths, generation })
}

/// The generation in the header of the file contents `bytes`, without
/// reading the paths.
pub fn decode_generation(bytes: &Vec<u8>) -> (r: Option<u64>)
    ensures
        r == spec_decode_generation(bytes@),
{
    if bytes.len() < 24 {
        return None;
    }
    if bytes[0] != 71u8 || bytes[1] != 73u8 || bytes[2] != 84u8 || bytes[3] != 89u8 || bytes[4] != 1u8 {
        proof {
            if bytes@.subrange(0, 4) == magic() {
                assert(bytes@.subrange(0, 4)[1] == bytes@[1]);
            }
        }
        return None;
    }
    proof {
        assert(bytes@.subrange(0, 4) =~= magic());
    }
    Some(vstd::bytes::u64_from_le_bytes(vstd::slice::slice_subrange(bytes.as_slice(), 8, 16)))
}

proof fn lemma_parse_entries(pre: Seq<u8>, ps: Seq<Seq<char>>)
    requires
        forall|i: int| 0 <= i < ps.len() ==> encode_utf8(#[trigger] ps[i]).len() < 65536,
    ensures
        parse_entries(pre + entries_bytes(ps), pre.len() as int, ps.len()) == Some(ps),
    decreases ps.len(),
{
    broadcast use vstd::utf8::encode_utf8_valid_utf8, vstd::utf8::encode_utf8_decode_utf8;

    if ps.len() > 0 {
        let p = ps[0];
        let e = encode_utf8(p);
        let b = pre + entries_bytes(ps);
        let off = pre.len() as int;
        let pre2 = pre + path_entry(p);
        assert(b =~= pre2 + entries_bytes(ps.drop_first()));
        vstd::bytes::lemma_auto_spec_u16_to_from_le_bytes();
        assert(e.len() % 65536 == e.len());
        assert(b.subrange(off, off + 2) =~= spec_u16_to_le_bytes((e.len() % 65536) as u16));
        assert(b.subrange(off + 2, off + 2 + e.len()) =~= e);
        assert forall|i: int| 0 <= i < ps.drop_first().len() implies encode_utf8(
            #[trigger] ps.drop_first()[i],
        ).len() < 65536 by {
            assert(ps.drop_first()[i] == ps[i + 1]);
        }
        lemma_parse_entries(pre2, ps.drop_first());
        assert(pre2.len() == off + 2 + e.len());
        assert(seq![p] + ps.drop_first() =~= ps);
    }
}

/// A snapshot whose paths are each shorter than 64 KiB in UTF-8, and fewer
/// than 2^32, reads back from its cache file exactly as it was written.
pub proof fn lemma_decode_encode(generation: u64, paths: Seq<Seq<char>>)
    requires
        paths.len() < 0x1_0000_0000,
        forall|i: int| 0 <= i < paths.len() ==> encode_utf8(#[trigger] paths[i]).len() < 65536,
    ensures
        spec_decode(spec_encode(generation, paths)) == Some((generation, paths)),
        spec_decode_generation(spec_encode(generation, paths)) == Some(generation),
{
    let b = spec_encode(generation, paths);
    let header = magic() + seq![1u8, 0u8, 0u8, 0u8] + spec_u64_to_le_bytes(generation)
        + spec_u32_to_le_bytes((paths.len() % 0x1_0000_0000) as u32) + spec_u32_to_le_bytes(
        (paths_size(paths) % 0x1_0000_0000) as u32,
    );
    vstd::bytes::lemma_auto_spec_u64_to_from_le_bytes();
    vstd::bytes::lemma_auto_spec_u32_to_from_le_bytes();
    assert(header.len() == 24);
    assert(b == header + entries_bytes(paths));
    assert(b.subrange(0, 4) =~= magic());
    assert(b.subrange(8, 16) =~= spec_u64_to_le_bytes(generation));
    assert(b.subrange(16, 20) =~= spec_u32_to_le_bytes((paths.len() % 0x1_0000_0000) as u32));
    lemma_parse_entries(header, paths);
}

/// The fsmonitor cache of the repositories, one file per repository in
/// `cache_dir`.
pub struct FsMonitorCache {
    cache_dir: String,
}

/// The file name of a repository's cache: the first 16 hexadecimal digits
/// of the SHA-1 of its path, then `.cache`.
pub open spec fn cache_file_name(repo_path: Seq<char>) -> Seq<char> {
    hex_lower(sha1_digest(encode_utf8(repo_path))).take(16) + ".cache"@
}

impl FsMonitorCache {
    /// A cache kept in `cache_dir`, which the caller creates.
    pub fn new(cache_dir: String) -> (c: FsMonitorCache)
        ensures
            c.dir() == cache_dir@,
    {
        FsMonitorCache { cache_dir }
    }

    pub closed spec fn dir(&self) -> Seq<char> {
        self.cache_dir@
    }

    pub fn cache_dir(&self) -> (d: &String)
        ensures
            d@ == self.dir(),
    {
        &self.cache_dir
    }

    /// The cache file of `repo_path`.
    pub fn cache_path(&self, repo_path: &String) -> (p: String)
        ensures
            p@ == spec_join_child(self.dir(), cache_file_name(repo_path@)),
    {
        let digest = sha1(repo_path.as_str().as_bytes());
        let hex = hex_encode(digest.as_slice());
        proof {
            lemma_hex_len(digest@);
        }
        let mut name = String::from_str(hex.as_str().substring_char(0, 16));
        name.append(".cache");
        join_child(&self.cache_dir, name.as_str())
    }
}

} // verus!
