use vstd::prelude::*;
use crate::error::Error;
use crate::hashsum::HashSum;
use crate::sync::{joined, path_join};
use vstd::utf8::*;

verus! {

#[verifier::external_type_specification]
#[verifier::external_body]
pub struct ExContext(ring::digest::Context);

/// The bytes that a digest context has taken in so far.
pub uninterp spec fn absorbed(c: ring::digest::Context) -> Seq<u8>;

/// The SHA-256 digest of a byte string.
pub uninterp spec fn sha256_of(data: Seq<u8>) -> Seq<u8>;

/// Relies on ring::digest::Context::update: it appends `data` to what the
/// context has taken in.
pub assume_specification[ ring::digest::Context::update ](
    c: &mut ring::digest::Context,
    data: &[u8],
)
    ensures
        absorbed(*final(c)) == absorbed(*old(c)) + data@,
;

/// Relies on ring::digest::Context::new with ring::digest::SHA256: a fresh
/// context has taken in nothing.
#[verifier::external_body]
fn sha256_context() -> (c: ring::digest::Context)
    ensures
        absorbed(c) == Seq::<u8>::empty(),
{
    ring::digest::Context::new(&ring::digest::SHA256)
}

/// Relies on ring::digest::Context::finish and Digest::as_ref: the SHA-256
/// digest (32 bytes) of all the context took in. The hasher's context is
/// always made by `sha256_context`. `finish` panics only when the bit count
/// overflows a u64, which `MAX_FED` keeps out.
#[verifier::external_body]
fn finish_sha256(h: DirHasher) -> (r: Vec<u8>)
    requires
        absorbed(h.ctx).len() <= MAX_FED,
    ensures
        r@ == sha256_of(absorbed(h.ctx)),
        r@.len() == 32,
{
    h.ctx.finish().as_ref().to_vec()
}

/// The most bytes a hasher takes in: the bit count must fit in a u64.
pub const MAX_FED: u64 = 0x1fff_ffff_ffff_ffff;

/// Byte that ends an entry's path.
pub const PATH_END: u8 = 0;

/// Tag byte of a regular file.
pub const TAG_FILE: u8 = 1;

/// Tag byte of a directory.
pub const TAG_DIR: u8 = 2;

/// What a directory entry is.
#[derive(Clone, Copy, Debug, PartialEq, Eq, Structural)]
pub enum EntryKind {
    File,
    Directory,
    Symlink,
}

/// The `n` low bytes of `v`, least significant first.
pub open spec fn le_bytes(v: nat, n: nat) -> Seq<u8>
    decreases n,
{
    if n == 0 {
        Seq::empty()
    } else {
        seq![(v % 256) as u8] + le_bytes(v / 256, (n - 1) as nat)
    }
}

/// What an entry contributes ahead of its content: its relative path as
/// UTF-8, a zero byte, the kind's tag and the size as 8 little-endian bytes.
pub open spec fn entry_header(path: Seq<char>, is_file: bool, size: u64) -> Seq<u8> {
    vstd::utf8::encode_utf8(path) + seq![PATH_END] + seq![
        if is_file {
            TAG_FILE
        } else {
            TAG_DIR
        },
    ] + le_bytes(size as nat, 8)
}

/// `v` as 8 little-endian bytes.
pub fn le_bytes_of(v: u64) -> (r: Vec<u8>)
    ensures
        r@ == le_bytes(v as nat, 8),
{
    let mut r: Vec<u8> = Vec::new();
    let mut rest: u64 = v;
    let mut i: usize = 0;
    while i < 8
        invariant
            0 <= i <= 8,
            r@ + le_bytes(rest as nat, (8 - i) as nat) == le_bytes(v as nat, 8),
        decreases 8 - i,
    {
        proof {
            assert(le_bytes(rest as nat, (8 - i) as nat) == seq![(rest as nat % 256) as u8]
                + le_bytes(rest as nat / 256, (8 - i - 1) as nat));
        }
        r.push((rest % 256) as u8);
        rest = rest / 256;
        i = i + 1;
        proof {
            assert(r@ + le_bytes(rest as nat, (8 - i) as nat) =~= le_bytes(v as nat, 8));
        }
    }
    proof {
        assert(le_bytes(rest as nat, 0) =~= Seq::<u8>::empty());
        assert(r@ =~= r@ + le_bytes(rest as nat, 0));
    }
    r
}

/// A running digest of a directory tree, fed one entry at a time in the
/// order of the walk, each file's content right after its entry.
pub struct DirHasher {
    ctx: ring::digest::Context,
    count: u64,
    root: String,
}

impl DirHasher {
    /// The directory whose tree is hashed.
    pub closed spec fn root(&self) -> Seq<char> {
        self.root@
    }

    /// The bytes fed so far.
    pub closed spec fn fed(&self) -> Seq<u8> {
        absorbed(self.ctx)
    }

    pub closed spec fn wf(&self) -> bool {
        self.count as int == absorbed(self.ctx).len() && self.count <= MAX_FED
    }

    /// A hasher of the tree under `root` that has been fed nothing.
    pub fn new(root: &str) -> (h: DirHasher)
        ensures
            h.wf(),
            h.fed() == Seq::<u8>::empty(),
            h.root() == root@,
    {
        DirHasher { ctx: sha256_context(), count: 0, root: String::from_str(root) }
    }

    fn feed(&mut self, data: &[u8]) -> (r: Result<(), Error>)
        requires
            old(self).wf(),
        ensures
            final(self).wf(),
            final(self).root() == old(self).root(),
            r is Ok <==> old(self).fed().len() + data@.len() <= MAX_FED,
            r is Ok ==> final(self).fed() == old(self).fed() + data@,
            r is Err ==> r == Err::<(), Error>(Error::HashInputTooLarge) && final(self).fed()
                == old(self).fed(),
    {
        if data.len() as u64 > MAX_FED - self.count {
            return Err(Error::HashInputTooLarge);
        }
        self.ctx.update(data);
        self.count = self.count + data.len() as u64;
        Ok(())
    }

    /// Feeds one entry of the walk, given its path relative to the root, its
    /// kind and its size. A symbolic link is refused with its path under the
    /// root, and nothing is fed.
    pub fn add_entry(&mut self, relative_path: &str, kind: EntryKind, size: u64) -> (r: Result<
        (),
        Error,
    >)
        requires
            old(self).wf(),
        ensures
            final(self).wf(),
            final(self).root() == old(self).root(),
            kind == EntryKind::Symlink ==> (r matches Err(Error::Symlink(p)) && p@ == joined(
                old(self).root(),
                relative_path@,
            ) && final(self).fed() == old(self).fed()),
            kind != EntryKind::Symlink ==> (r is Ok <==> old(self).fed().len() + entry_header(
                relative_path@,
                kind == EntryKind::File,
                size,
            ).len() <= MAX_FED),
            kind != EntryKind::Symlink && r is Ok ==> final(self).fed() == old(self).fed()
                + entry_header(relative_path@, kind == EntryKind::File, size),
            kind != EntryKind::Symlink && r is Err ==> r == Err::<(), Error>(
                Error::HashInputTooLarge,
            ),
    {
        if kind == EntryKind::Symlink {
            return Err(Error::Symlink(path_join(self.root.as_str(), relative_path)));
        }
        let mut header: Vec<u8> = relative_path.as_bytes_vec();
        header.push(PATH_END);
        header.push(if kind == EntryKind::File { TAG_FILE } else { TAG_DIR });
        let mut size_bytes = le_bytes_of(size);
        header.append(&mut size_bytes);
        proof {
            assert(header@ =~= entry_header(relative_path@, kind == EntryKind::File, size));
        }
        self.feed(header.as_slice())
    }

    /// Feeds the next chunk of the current file's content.
    pub fn add_content(&mut self, chunk: &[u8]) -> (r: Result<(), Error>)
        requires
            old(self).wf(),
        ensures
            final(self).wf(),
            final(self).root() == old(self).root(),
            r is Ok <==> old(self).fed().len() + chunk@.len() <= MAX_FED,
            r is Ok ==> final(self).fed() == old(self).fed() + chunk@,
            r is Err ==> r == Err::<(), Error>(Error::HashInputTooLarge) && final(self).fed()
                == old(self).fed(),
    {
        self.feed(chunk)
    }

    /// The digest of everything fed.
    pub fn finish(self) -> (r: HashSum)
        requires
            self.wf(),
        ensures
            r@ == sha256_of(self.fed()),
    {
        let bytes = finish_sha256(self);
        match HashSum::from_bytes(bytes.as_slice()) {
            Ok(h) => h,
            Err(_) => {
                proof {
                    assert(false);
                }
                HashSum::default()
            },
        }
    }
}

/// Hashing is deterministic: two hashers fed the same bytes, as two walks of
/// an unchanged tree feed them, give the same digest.
pub proof fn lemma_digest_deterministic(a: DirHasher, b: DirHasher)
    requires
        a.fed() == b.fed(),
    ensures
        sha256_of(a.fed()) == sha256_of(b.fed()),
{
}

/// What a file entry contributes: its header, then its content.
pub open spec fn file_stream(path: Seq<char>, content: Seq<u8>) -> Seq<u8> {
    entry_header(path, true, content.len() as u64) + content
}

/// Whether a path holds no NUL character, as no file name does.
pub open spec fn no_nul(path: Seq<char>) -> bool {
    forall|i: int| 0 <= i < path.len() ==> path[i] != '\0'
}

proof fn lemma_scalar_no_zero_byte(c: u32)
    requires
        c != 0,
    ensures
        forall|i: int| 0 <= i < encode_scalar(c).len() ==> encode_scalar(c)[i] != 0,
{
    assert(has_width_1_encoding(c) ==> leading_byte_width_1(c) != 0) by (bit_vector)
        requires
            c != 0,
    ;
    assert(leading_byte_width_2(c) != 0) by (bit_vector);
    assert(leading_byte_width_3(c) != 0) by (bit_vector);
    assert(leading_byte_width_4(c) != 0) by (bit_vector);
    assert(last_continuation_byte(c) != 0) by (bit_vector);
    assert(second_last_continuation_byte(c) != 0) by (bit_vector);
    assert(third_last_continuation_byte(c) != 0) by (bit_vector);
}

proof fn lemma_encoding_no_zero_byte(path: Seq<char>)
    requires
        no_nul(path),
    ensures
        forall|i: int|
            0 <= i < encode_utf8(path).len() ==> #[trigger] encode_utf8(path)[i] != 0,
    decreases path.len(),
{
    if path.len() > 0 {
        assert(path[0] != '\0');
        assert((path[0] as u32) != 0) by {
            if (path[0] as u32) == 0 {
                char_u32_cast(path[0], 0);
                assert(0u32 as char == '\0');
            }
        }
        lemma_scalar_no_zero_byte(path[0] as u32);
        let rest = path.drop_first();
        assert(no_nul(rest)) by {
            assert forall|i: int| 0 <= i < rest.len() implies rest[i] != '\0' by {
                assert(rest[i] == path[i + 1]);
            }
        }
        lemma_encoding_no_zero_byte(rest);
        let head = encode_scalar(path[0] as u32);
        assert forall|i: int| 0 <= i < encode_utf8(path).len() implies #[trigger] encode_utf8(
            path,
        )[i] != 0 by {
            if i < head.len() {
                assert(encode_utf8(path)[i] == head[i]);
            } else {
                assert(encode_utf8(path)[i] == encode_utf8(rest)[i - head.len()]);
            }
        }
    }
}

proof fn lemma_le_bytes_injective(a: nat, b: nat, n: nat)
    requires
        le_bytes(a, n) == le_bytes(b, n),
        a < pow256(n),
        b < pow256(n),
    ensures
        a == b,
    decreases n,
{
    if n == 0 {
    } else {
        assert(le_bytes(a, n)[0] == (a % 256) as u8);
        assert(le_bytes(b, n)[0] == (b % 256) as u8);
        assert(a % 256 == b % 256);
        assert(le_bytes(a, n).drop_first() =~= le_bytes(a / 256, (n - 1) as nat));
        assert(le_bytes(b, n).drop_first() =~= le_bytes(b / 256, (n - 1) as nat));
        assert(a / 256 < pow256((n - 1) as nat));
        assert(b / 256 < pow256((n - 1) as nat));
        lemma_le_bytes_injective(a / 256, b / 256, (n - 1) as nat);
    }
}

/// 256 to the power `n`.
pub open spec fn pow256(n: nat) -> nat
    decreases n,
{
    if n == 0 {
        1
    } else {
        256 * pow256((n - 1) as nat)
    }
}

proof fn lemma_le_bytes_len(v: nat, n: nat)
    ensures
        le_bytes(v, n).len() == n,
    decreases n,
{
    if n > 0 {
        lemma_le_bytes_len(v / 256, (n - 1) as nat);
    }
}

/// A file entry's bytes tell its path and its content: two file entries, of
/// paths without NUL, that feed the same bytes have the same path and the
/// same content. So renaming, resizing or changing one file changes what is
/// fed.
pub proof fn lemma_file_stream_injective(
    p1: Seq<char>,
    c1: Seq<u8>,
    p2: Seq<char>,
    c2: Seq<u8>,
)
    requires
        no_nul(p1),
        no_nul(p2),
        c1.len() <= u64::MAX,
        c2.len() <= u64::MAX,
        file_stream(p1, c1) == file_stream(p2, c2),
    ensures
        p1 == p2,
        c1 == c2,
{
    let e1 = encode_utf8(p1);
    let e2 = encode_utf8(p2);
    let s = file_stream(p1, c1);
    lemma_encoding_no_zero_byte(p1);
    lemma_encoding_no_zero_byte(p2);
    assert(s[e1.len() as int] == PATH_END);
    assert(file_stream(p2, c2)[e2.len() as int] == PATH_END);
    if e1.len() < e2.len() {
        assert(file_stream(p2, c2)[e1.len() as int] == e2[e1.len() as int]);
        assert(false);
    }
    if e2.len() < e1.len() {
        assert(s[e2.len() as int] == e1[e2.len() as int]);
        assert(false);
    }
    assert(e1 =~= s.subrange(0, e1.len() as int));
    assert(e2 =~= file_stream(p2, c2).subrange(0, e2.len() as int));
    encode_utf8_decode_utf8(p1);
    encode_utf8_decode_utf8(p2);
    let k: int = e1.len() as int + 2;
    lemma_le_bytes_len(c1.len(), 8);
    lemma_le_bytes_len(c2.len(), 8);
    assert(le_bytes(c1.len(), 8) =~= s.subrange(k, k + 8));
    assert(le_bytes(c2.len(), 8) =~= file_stream(p2, c2).subrange(k, k + 8));
    reveal_with_fuel(pow256, 9);
    assert(pow256(8) == 0x1_0000_0000_0000_0000);
    lemma_le_bytes_injective(c1.len(), c2.len(), 8);
    assert(c1 =~= s.subrange(k + 8, s.len() as int));
    assert(c2 =~= file_stream(p2, c2).subrange(k + 8, s.len() as int));
}

} // verus!
