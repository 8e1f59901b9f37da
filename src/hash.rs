//! Domain-separated hashing: leaves, internal nodes and plain digests.
use vstd::prelude::*;

verus! {

/// Number of bytes in a digest.
pub const HASH_BYTES: usize = 32;

/// What BLAKE3 returns for a byte string.
pub uninterp spec fn blake3_of(data: Seq<u8>) -> Seq<u8>;

/// Relies on `blake3::hash`: the 32-byte BLAKE3 digest of `data`, which depends
/// on the bytes alone.
#[verifier::external_body]
fn blake3_digest(data: &[u8]) -> (r: [u8; 32])
    ensures
        r@ == blake3_of(data@),
{
    *blake3::hash(data).as_bytes()
}

/// The tag hashed in front of every leaf.
pub open spec fn leaf_tag() -> Seq<u8> {
    seq![76u8, 69u8, 65u8, 70u8]
}

/// The tag hashed in front of every internal node.
pub open spec fn node_tag() -> Seq<u8> {
    seq![78u8, 79u8, 68u8, 69u8]
}

/// The bytes of several parts, one after the other.
pub open spec fn concat_parts(parts: Seq<Seq<u8>>) -> Seq<u8>
    decreases parts.len(),
{
    if parts.len() == 0 {
        Seq::empty()
    } else {
        concat_parts(parts.drop_last()) + parts.last()
    }
}

/// The byte strings that a slice of slices holds.
pub open spec fn parts_of(data: Seq<&[u8]>) -> Seq<Seq<u8>> {
    data.map_values(|p: &[u8]| p@)
}

/// Lexicographic `<=` on byte strings, from position `i` on.
pub open spec fn lex_le_from(a: Seq<u8>, b: Seq<u8>, i: int) -> bool
    decreases a.len() - i,
{
    if i < 0 || i >= a.len() || i >= b.len() {
        a.len() <= b.len()
    } else if a[i] != b[i] {
        a[i] < b[i]
    } else {
        lex_le_from(a, b, i + 1)
    }
}

/// Lexicographic `<=` on byte strings.
pub open spec fn lex_le(a: Seq<u8>, b: Seq<u8>) -> bool {
    lex_le_from(a, b, 0)
}

/// The hash of an internal node: its two children are put in byte order first.
pub open spec fn node_hash(a: Seq<u8>, b: Seq<u8>) -> Seq<u8> {
    if lex_le(a, b) {
        blake3_of(node_tag() + a + b)
    } else {
        blake3_of(node_tag() + b + a)
    }
}

/// The hash of a leaf over the given fields.
pub open spec fn leaf_hash(parts: Seq<Seq<u8>>) -> Seq<u8> {
    blake3_of(leaf_tag() + concat_parts(parts))
}

/// A 32-byte digest.
#[derive(Clone, Copy, PartialEq, Debug, Default)]
pub struct Hash {
    pub value: [u8; 32],
}

/// A digest that stands for a leaf of a Merkle tree.
#[derive(Clone, Copy, PartialEq, Debug)]
pub struct Leaf(pub Hash);

impl View for Hash {
    type V = Seq<u8>;

    open spec fn view(&self) -> Seq<u8> {
        self.value@
    }
}

impl View for Leaf {
    type V = Seq<u8>;

    open spec fn view(&self) -> Seq<u8> {
        self.0.value@
    }
}

/// The digests that a sequence of hashes holds.
pub open spec fn hashes_view(s: Seq<Hash>) -> Seq<Seq<u8>> {
    s.map_values(|h: Hash| h@)
}

/// Appends the bytes of `s` to `buf`.
pub fn append_bytes(buf: &mut Vec<u8>, s: &[u8])
    ensures
        final(buf)@ == old(buf)@ + s@,
{
    let mut i: usize = 0;
    while i < s.len()
        invariant
            i <= s@.len(),
            buf@ == old(buf)@ + s@.subrange(0, i as int),
        decreases s@.len() - i,
    {
        buf.push(s[i]);
        i = i + 1;
        assert(s@.subrange(0, i as int) == s@.subrange(0, i - 1) + seq![s@[i - 1]]);
    }
    assert(s@.subrange(0, s@.len() as int) == s@);
}

/// Appends every part of `data` to `buf`, in order.
fn append_parts(buf: &mut Vec<u8>, data: &[&[u8]])
    ensures
        final(buf)@ == old(buf)@ + concat_parts(parts_of(data@)),
{
    let mut i: usize = 0;
    while i < data.len()
        invariant
            i <= data@.len(),
            buf@ == old(buf)@ + concat_parts(parts_of(data@.subrange(0, i as int))),
        decreases data@.len() - i,
    {
        let part: &[u8] = data[i];
        append_bytes(buf, part);
        assert(parts_of(data@.subrange(0, i + 1)).drop_last() == parts_of(
            data@.subrange(0, i as int),
        ));
        i = i + 1;
    }
    assert(data@.subrange(0, data@.len() as int) == data@);
}

/// The all-zero digest.
pub open spec fn zero_digest() -> Seq<u8> {
    Seq::new(32, |k: int| 0u8)
}

impl Hash {
    /// The all-zero digest.
    pub fn zeroed() -> (r: Hash)
        ensures
            r@ == zero_digest(),
    {
        let value: [u8; 32] = [0u8; 32];
        assert(value@ =~= zero_digest());
        Hash { value }
    }

    /// Number of bytes in a digest.
    pub const LEN: usize = 32;

    /// A digest with the 32 bytes of `hash_slice`.
    pub fn new(hash_slice: &[u8]) -> (r: Hash)
        requires
            hash_slice@.len() == 32,
        ensures
            r@ == hash_slice@,
    {
        let mut value: [u8; 32] = [0u8; 32];
        let mut i: usize = 0;
        while i < 32
            invariant
                i <= 32,
                hash_slice@.len() == 32,
                value@.len() == 32,
                forall|j: int| 0 <= j < i ==> value@[j] == hash_slice@[j],
            decreases 32 - i,
        {
            value[i] = hash_slice[i];
            i = i + 1;
        }
        assert(value@ == hash_slice@);
        Hash { value }
    }

    /// A digest with the given bytes.
    pub fn new_from_array(hash_array: [u8; 32]) -> (r: Hash)
        ensures
            r@ == hash_array@,
    {
        Hash { value: hash_array }
    }

    /// The bytes of the digest.
    pub fn to_bytes(self) -> (r: [u8; 32])
        ensures
            r@ == self@,
    {
        self.value
    }

    /// The same digest, taken as a leaf.
    pub fn as_leaf(self) -> (r: Leaf)
        ensures
            r@ == self@,
    {
        Leaf(self)
    }

    /// The digest that a leaf stands for.
    pub fn from_leaf(leaf: Leaf) -> (r: Hash)
        ensures
            r@ == leaf@,
    {
        leaf.0
    }
}

impl Leaf {
    /// The leaf over the given fields: the digest of the leaf tag followed by
    /// every field in order.
    pub fn new(data: &[&[u8]]) -> (r: Leaf)
        ensures
            r@ == leaf_hash(parts_of(data@)),
    {
        let mut buf: Vec<u8> = Vec::new();
        buf.push(76u8);
        buf.push(69u8);
        buf.push(65u8);
        buf.push(70u8);
        assert(buf@ == leaf_tag());
        append_parts(&mut buf, data);
        Leaf(Hash { value: blake3_digest(buf.as_slice()) })
    }

    /// A leaf that stands for the given bytes as they are.
    pub fn from_array(value: [u8; 32]) -> (r: Leaf)
        ensures
            r@ == value@,
    {
        Leaf(Hash { value })
    }

    /// The bytes of the leaf.
    pub fn to_bytes(self) -> (r: [u8; 32])
        ensures
            r@ == self@,
    {
        self.0.value
    }
}

/// The digest of all parts of `data`, one after the other.
pub fn hashv(data: &[&[u8]]) -> (r: Hash)
    ensures
        r@ == blake3_of(concat_parts(parts_of(data@))),
{
    let mut buf: Vec<u8> = Vec::new();
    append_parts(&mut buf, data);
    assert(buf@ == concat_parts(parts_of(data@)));
    Hash { value: blake3_digest(buf.as_slice()) }
}

/// The digest of `data`.
pub fn hash(data: &[u8]) -> (r: Hash)
    ensures
        r@ == blake3_of(data@),
{
    Hash { value: blake3_digest(data) }
}

/// Whether `a` comes before `b` in byte order, or equals it.
pub fn bytes_le(a: &[u8; 32], b: &[u8; 32]) -> (r: bool)
    ensures
        r == lex_le(a@, b@),
{
    let mut i: usize = 0;
    while i < 32
        invariant
            i <= 32,
            a@.len() == 32,
            b@.len() == 32,
            lex_le(a@, b@) == lex_le_from(a@, b@, i as int),
        decreases 32 - i,
    {
        if a[i] != b[i] {
            return a[i] < b[i];
        }
        i = i + 1;
    }
    true
}

/// The hash of an internal node over two children, whichever order they
/// come in.
pub fn hash_left_right(left: Hash, right: Hash) -> (r: Hash)
    ensures
        r@ == node_hash(left@, right@),
{
    let mut buf: Vec<u8> = Vec::new();
    buf.push(78u8);
    buf.push(79u8);
    buf.push(68u8);
    buf.push(69u8);
    assert(buf@ == node_tag());
    if bytes_le(&left.value, &right.value) {
        append_bytes(&mut buf, left.value.as_slice());
        append_bytes(&mut buf, right.value.as_slice());
    } else {
        append_bytes(&mut buf, right.value.as_slice());
        append_bytes(&mut buf, left.value.as_slice());
    }
    Hash { value: blake3_digest(buf.as_slice()) }
}

/// Whether two digests hold the same bytes.
pub fn hash_eq(a: &Hash, b: &Hash) -> (r: bool)
    ensures
        r == (a@ == b@),
{
    let mut i: usize = 0;
    while i < 32
        invariant
            i <= 32,
            a@.len() == 32,
            b@.len() == 32,
            forall|j: int| 0 <= j < i ==> a@[j] == b@[j],
        decreases 32 - i,
    {
        if a.value[i] != b.value[i] {
            return false;
        }
        i = i + 1;
    }
    assert(a@ == b@);
    true
}

proof fn lemma_lex_total_antisym(a: Seq<u8>, b: Seq<u8>, i: int)
    requires
        0 <= i <= a.len(),
        i <= b.len(),
    ensures
        lex_le_from(a, b, i) || lex_le_from(b, a, i),
        lex_le_from(a, b, i) && lex_le_from(b, a, i) ==> a.subrange(i, a.len() as int)
            == b.subrange(i, b.len() as int),
    decreases a.len() - i,
{
    if i < a.len() && i < b.len() {
        lemma_lex_total_antisym(a, b, i + 1);
        if a[i] == b[i] {
            assert(a.subrange(i, a.len() as int) == seq![a[i]] + a.subrange(i + 1, a.len() as int));
            assert(b.subrange(i, b.len() as int) == seq![b[i]] + b.subrange(i + 1, b.len() as int));
        }
    } else {
        assert(a.subrange(i, a.len() as int) =~= Seq::<u8>::empty() || b.subrange(i, b.len() as int)
            =~= Seq::<u8>::empty());
    }
}

/// The node hash does not depend on the order of the two children.
pub proof fn lemma_node_hash_commutes(a: Seq<u8>, b: Seq<u8>)
    ensures
        node_hash(a, b) == node_hash(b, a),
{
    lemma_lex_total_antisym(a, b, 0);
    assert(a.subrange(0, a.len() as int) == a);
    assert(b.subrange(0, b.len() as int) == b);
}

/// The node hash does not depend on the order of the two children.
pub proof fn lemma_node_hash_symmetric(a: Hash, b: Hash)
    ensures
        node_hash(a@, b@) == node_hash(b@, a@),
{
    lemma_node_hash_commutes(a@, b@);
}

} // verus!
