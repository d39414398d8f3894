//! Display mesh and its compact little-endian encoding for the 3D client:
//!
//! ```text
//! magic "WSMh" | version u32 = 1 | vertex_count u32 | index_count u32
//! positions f32 × vertex_count·3 | normals f32 × vertex_count·3 | indices u32 × index_count
//! ```
//!
//! Coordinates are carried as the IEEE-754 bit patterns of their `f32`
//! values, so encoding and decoding are exact byte manipulations. Binary
//! STL files are read here as well.

use vstd::prelude::*;

use vstd::utf8::{decode_utf8, valid_utf8};

use crate::entities::ModelFormat;
use crate::formats::{le_u32, read_u32, spec_binary_stl_count};
use crate::text::{chars_of, copy_all, eq_lit, lines, lines_of, string_of, tokens, utf8_str, ws_tokens};

verus! {

/// Triangle mesh: per-vertex positions and normals (flattened `x,y,z`,
/// `f32` bit patterns) and three vertex indices per triangle.
#[derive(Debug, Clone, PartialEq, Default)]
pub struct Mesh {
    /// Coordinates, `3 × vertex count` values.
    pub positions: Vec<u32>,
    /// Normals aligned on `positions`.
    pub normals: Vec<u32>,
    /// Vertex indices, three per triangle.
    pub indices: Vec<u32>,
}

/// Mathematical value of a mesh.
pub struct MeshView {
    pub positions: Seq<u32>,
    pub normals: Seq<u32>,
    pub indices: Seq<u32>,
}

impl Mesh {
    pub open spec fn view(&self) -> MeshView {
        MeshView { positions: self.positions@, normals: self.normals@, indices: self.indices@ }
    }

    /// Number of vertices (`positions.len() / 3`).
    pub fn vertex_count(&self) -> (r: usize)
        ensures
            r == self.positions@.len() / 3,
    {
        self.positions.len() / 3
    }
}

/// Decoding or parsing failure.
#[derive(Debug, Clone, Copy, PartialEq, Eq)]
pub enum MeshError {
    /// Wrong magic or version.
    BadHeader,
    /// Size inconsistent with the counts in the header.
    Truncated,
    /// Unreadable STL, with the reason.
    InvalidStl(&'static str),
}

impl MeshError {
    /// Text of the error.
    pub open spec fn spec_message(self) -> Seq<char> {
        match self {
            MeshError::BadHeader => "en-tête de maillage invalide"@,
            MeshError::Truncated => "tampon de maillage tronqué"@,
            MeshError::InvalidStl(why) => "STL invalide : "@ + why@,
        }
    }

    /// Text of the error, as shown to users.
    pub fn message(&self) -> (r: String)
        ensures
            r@ == self.spec_message(),
    {
        match self {
            MeshError::BadHeader => "en-tête de maillage invalide".to_owned(),
            MeshError::Truncated => "tampon de maillage tronqué".to_owned(),
            MeshError::InvalidStl(why) => crate::errors::concat2("STL invalide : ", why),
        }
    }
}

// --- Bytes -------------------------------------------------------------------

/// Byte `j` (little-endian) of `x`.
pub open spec fn word_byte(x: u32, j: int) -> u8 {
    if j == 0 {
        (x & 0xff) as u8
    } else if j == 1 {
        ((x >> 8u32) & 0xff) as u8
    } else if j == 2 {
        ((x >> 16u32) & 0xff) as u8
    } else {
        ((x >> 24u32) & 0xff) as u8
    }
}

/// Little-endian bytes of a sequence of 32-bit words.
pub open spec fn words_bytes(s: Seq<u32>) -> Seq<u8> {
    Seq::new(4 * s.len(), |k: int| word_byte(s[k / 4], k % 4))
}

/// Little-endian bytes of one word.
pub open spec fn le_bytes(x: u32) -> Seq<u8> {
    words_bytes(seq![x])
}

proof fn lemma_le_u32_of_bytes(x: u32)
    ensures
        ((x & 0xff) as u8 as u32) | ((((x >> 8u32) & 0xff) as u8 as u32) << 8u32) | ((((x
            >> 16u32) & 0xff) as u8 as u32) << 16u32) | ((((x >> 24u32) & 0xff) as u8 as u32)
            << 24u32) == x,
{
    assert(((x & 0xff) as u8 as u32) | ((((x >> 8u32) & 0xff) as u8 as u32) << 8u32) | ((((x
        >> 16u32) & 0xff) as u8 as u32) << 16u32) | ((((x >> 24u32) & 0xff) as u8 as u32)
        << 24u32) == x) by (bit_vector);
}

/// Reading back the bytes of a word gives the word.
pub proof fn lemma_read_word(b: Seq<u8>, off: int, x: u32)
    requires
        0 <= off,
        off + 4 <= b.len(),
        b[off] == word_byte(x, 0),
        b[off + 1] == word_byte(x, 1),
        b[off + 2] == word_byte(x, 2),
        b[off + 3] == word_byte(x, 3),
    ensures
        le_u32(b, off) == x,
{
    lemma_le_u32_of_bytes(x);
}

/// Appends the little-endian bytes of `x`.
pub fn push_u32(out: &mut Vec<u8>, x: u32)
    ensures
        final(out)@ == old(out)@ + le_bytes(x),
{
    out.push((x & 0xff) as u8);
    out.push(((x >> 8u32) & 0xff) as u8);
    out.push(((x >> 16u32) & 0xff) as u8);
    out.push(((x >> 24u32) & 0xff) as u8);
    assert(final(out)@ =~= old(out)@ + le_bytes(x));
}

proof fn lemma_words_bytes_push(s: Seq<u32>, x: u32)
    ensures
        words_bytes(s.push(x)) == words_bytes(s) + le_bytes(x),
{
    let a = words_bytes(s.push(x));
    let b = words_bytes(s) + le_bytes(x);
    assert forall|k: int| 0 <= k < a.len() implies a[k] == b[k] by {
        if k < 4 * s.len() {
            assert(k / 4 < s.len());
        } else {
            assert(k / 4 == s.len());
            assert((k - 4 * s.len()) / 4 == 0);
            assert(k % 4 == (k - 4 * s.len()) % 4);
        }
    }
    assert(a =~= b);
}

/// Appends the little-endian bytes of every word of `words`.
pub fn push_words(out: &mut Vec<u8>, words: &Vec<u32>)
    ensures
        final(out)@ == old(out)@ + words_bytes(words@),
{
    let ghost start = out@;
    let mut i: usize = 0;
    assert(words_bytes(words@.take(0)) =~= Seq::<u8>::empty());
    assert(out@ =~= start + words_bytes(words@.take(0)));
    while i < words.len()
        invariant
            i <= words.len(),
            out@ == start + words_bytes(words@.take(i as int)),
        decreases words.len() - i,
    {
        proof {
            lemma_words_bytes_push(words@.take(i as int), words@[i as int]);
            assert(words@.take(i as int).push(words@[i as int]) =~= words@.take(i + 1));
        }
        push_u32(out, words[i]);
        i = i + 1;
        assert(out@ =~= start + words_bytes(words@.take(i as int)));
    }
    assert(words@.take(words.len() as int) =~= words@);
}

/// The words stored little-endian at `off`, `off + 4`, … (`n` of them).
pub open spec fn words_at(b: Seq<u8>, off: int, n: int) -> Seq<u32> {
    Seq::new(n as nat, |i: int| le_u32(b, off + 4 * i))
}

/// Reads `n` little-endian words from `off`.
pub fn read_words(b: &[u8], off: usize, n: usize) -> (r: Vec<u32>)
    requires
        off + 4 * n <= b.len(),
    ensures
        r@ == words_at(b@, off as int, n as int),
{
    let mut r: Vec<u32> = Vec::new();
    let mut i: usize = 0;
    while i < n
        invariant
            off + 4 * n <= b.len(),
            i <= n,
            r@ == words_at(b@, off as int, i as int),
        decreases n - i,
    {
        r.push(read_u32(b, off + 4 * i));
        i = i + 1;
        assert(r@ =~= words_at(b@, off as int, i as int));
    }
    r
}

// --- Encoding ----------------------------------------------------------------

/// `"WSMh"`.
pub open spec fn mesh_magic() -> Seq<u8> {
    seq![87u8, 83u8, 77u8, 104u8]
}

/// Encoding of a mesh: header (magic, version 1, vertex count, index count)
/// then positions, normals and indices. The counts are truncated to 32 bits
/// as the `as u32` conversions do.
pub open spec fn spec_encode(m: MeshView) -> Seq<u8> {
    mesh_magic() + le_bytes(1) + le_bytes((m.positions.len() / 3) as u32) + le_bytes(
        m.indices.len() as u32,
    ) + words_bytes(m.positions) + words_bytes(m.normals) + words_bytes(m.indices)
}

/// Decoding of a buffer: `BadHeader` for a short buffer, a wrong magic or a
/// version other than 1; `Truncated` when the size disagrees with the
/// counts; the three arrays otherwise.
pub open spec fn spec_decode(b: Seq<u8>) -> Result<MeshView, MeshError> {
    if b.len() < 16 || b.take(4) != mesh_magic() {
        Err(MeshError::BadHeader)
    } else if le_u32(b, 4) != 1 {
        Err(MeshError::BadHeader)
    } else {
        let vc = le_u32(b, 8) as int;
        let ic = le_u32(b, 12) as int;
        if b.len() != 16 + vc * 3 * 4 * 2 + ic * 4 {
            Err(MeshError::Truncated)
        } else {
            Ok(
                MeshView {
                    positions: words_at(b, 16, vc * 3),
                    normals: words_at(b, 16 + 12 * vc, vc * 3),
                    indices: words_at(b, 16 + 24 * vc, ic),
                },
            )
        }
    }
}

impl Mesh {
    /// Encodes the mesh in the compact binary format.
    pub fn encode(&self) -> (r: Vec<u8>)
        ensures
            r@ == spec_encode(self.view()),
    {
        let vertex_count = (self.positions.len() / 3) as u32;
        let index_count = self.indices.len() as u32;
        let mut out: Vec<u8> = Vec::new();
        out.push(87u8);
        out.push(83u8);
        out.push(77u8);
        out.push(104u8);
        assert(out@ =~= mesh_magic());
        push_u32(&mut out, 1);
        push_u32(&mut out, vertex_count);
        push_u32(&mut out, index_count);
        push_words(&mut out, &self.positions);
        push_words(&mut out, &self.normals);
        push_words(&mut out, &self.indices);
        out
    }

    /// Decodes a buffer produced by [`Mesh::encode`].
    pub fn decode(bytes: &[u8]) -> (r: Result<Mesh, MeshError>)
        ensures
            match r {
                Ok(m) => spec_decode(bytes@) == Ok::<MeshView, MeshError>(m.view()),
                Err(e) => spec_decode(bytes@) == Err::<MeshView, MeshError>(e),
            },
    {
        if bytes.len() < 16 || !(bytes[0] == 87u8 && bytes[1] == 83u8 && bytes[2] == 77u8
            && bytes[3] == 104u8) {
            proof {
                if bytes@.len() >= 16 {
                    assert(bytes@.take(4) != mesh_magic()) by {
                        if bytes@.take(4) == mesh_magic() {
                            assert(bytes@.take(4)[0] == bytes@[0]);
                            assert(bytes@.take(4)[1] == bytes@[1]);
                            assert(bytes@.take(4)[2] == bytes@[2]);
                            assert(bytes@.take(4)[3] == bytes@[3]);
                        }
                    }
                }
            }
            return Err(MeshError::BadHeader);
        }
        assert(bytes@.take(4) =~= mesh_magic());
        let version = read_u32(bytes, 4);
        if version != 1 {
            return Err(MeshError::BadHeader);
        }
        let vertex_count = read_u32(bytes, 8) as u64;
        let index_count = read_u32(bytes, 12) as u64;
        let floats: u64 = vertex_count * 3;
        let expected: u64 = 16 + floats * 4 * 2 + index_count * 4;
        if bytes.len() as u64 != expected {
            return Err(MeshError::Truncated);
        }
        let floats = floats as usize;
        let positions = read_words(bytes, 16, floats);
        let normals = read_words(bytes, 16 + 4 * floats, floats);
        let indices = read_words(bytes, 16 + 8 * floats, index_count as usize);
        let m = Mesh { positions, normals, indices };
        assert(m.view() == spec_decode(bytes@).unwrap());
        Ok(m)
    }
}

/// Meshes that encode and decode back unchanged: as many normals as
/// positions, whole vertices, and counts and size that fit the header.
pub open spec fn well_formed(m: MeshView) -> bool {
    &&& m.positions.len() % 3 == 0
    &&& m.normals.len() == m.positions.len()
    &&& m.positions.len() / 3 <= u32::MAX
    &&& m.indices.len() <= u32::MAX
}

proof fn lemma_words_at_bytes(pre: Seq<u8>, s: Seq<u32>, post: Seq<u8>)
    ensures
        words_at(pre + words_bytes(s) + post, pre.len() as int, s.len() as int) == s,
{
    let b = pre + words_bytes(s) + post;
    let off = pre.len() as int;
    assert forall|i: int| 0 <= i < s.len() implies #[trigger] words_at(b, off, s.len() as int)[i]
        == s[i] by {
        let k = 4 * i;
        assert(k / 4 == i);
        assert((k + 1) / 4 == i);
        assert((k + 2) / 4 == i);
        assert((k + 3) / 4 == i);
        assert(b[off + k] == words_bytes(s)[k]);
        assert(b[off + k + 1] == words_bytes(s)[k + 1]);
        assert(b[off + k + 2] == words_bytes(s)[k + 2]);
        assert(b[off + k + 3] == words_bytes(s)[k + 3]);
        lemma_read_word(b, off + k, s[i]);
    }
    assert(words_at(b, off, s.len() as int) =~= s);
}

/// Decoding the encoding of a well-formed mesh gives the mesh back.
pub proof fn law_mesh_round_trip(m: MeshView)
    requires
        well_formed(m),
    ensures
        spec_decode(spec_encode(m)) == Ok::<MeshView, MeshError>(m),
{
    let vc = (m.positions.len() / 3) as u32;
    let ic = m.indices.len() as u32;
    let head = mesh_magic() + le_bytes(1) + le_bytes(vc) + le_bytes(ic);
    let b = spec_encode(m);
    assert(head.len() == 16);
    assert(b.take(4) =~= mesh_magic());
    assert(b[4] == le_bytes(1)[0] && b[5] == le_bytes(1)[1] && b[6] == le_bytes(1)[2] && b[7]
        == le_bytes(1)[3]);
    lemma_read_word(b, 4, 1);
    assert(b[8] == le_bytes(vc)[0] && b[9] == le_bytes(vc)[1] && b[10] == le_bytes(vc)[2]
        && b[11] == le_bytes(vc)[3]);
    lemma_read_word(b, 8, vc);
    assert(b[12] == le_bytes(ic)[0] && b[13] == le_bytes(ic)[1] && b[14] == le_bytes(ic)[2]
        && b[15] == le_bytes(ic)[3]);
    lemma_read_word(b, 12, ic);
    let wp = words_bytes(m.positions);
    let wn = words_bytes(m.normals);
    let wi = words_bytes(m.indices);
    assert(b =~= head + wp + (wn + wi));
    lemma_words_at_bytes(head, m.positions, wn + wi);
    assert(b =~= (head + wp) + wn + wi);
    lemma_words_at_bytes(head + wp, m.normals, wi);
    assert(b =~= (head + wp + wn) + wi + Seq::<u8>::empty());
    lemma_words_at_bytes(head + wp + wn, m.indices, Seq::<u8>::empty());
    let d = spec_decode(b).unwrap();
    assert(d.positions =~= m.positions);
    assert(d.normals =~= m.normals);
    assert(d.indices =~= m.indices);
}

// --- Binary STL --------------------------------------------------------------

/// A coherent binary STL: 80-byte header, `u32` count `n`, `n × 50` bytes.
pub open spec fn spec_is_binary_stl(b: Seq<u8>) -> bool {
    spec_binary_stl_count(ModelFormat::Stl, b) is Some
}

/// Whether `bytes` is a coherent binary STL (checked on its exact size, so
/// an ASCII file starting with `solid` is not mistaken for one).
pub fn is_binary_stl(bytes: &[u8]) -> (r: bool)
    ensures
        r == spec_is_binary_stl(bytes@),
{
    crate::formats::binary_stl_triangle_count(ModelFormat::Stl, bytes).is_some()
}

/// Mesh of a binary STL with `n` triangles: three vertices per facet, the
/// facet normal repeated on each, sequential indices.
pub open spec fn spec_binary_stl_mesh(b: Seq<u8>, n: int) -> MeshView {
    MeshView {
        positions: Seq::new((9 * n) as nat, |p: int| le_u32(b, 84 + 50 * (p / 9) + 12 + 4 * (p % 9))),
        normals: Seq::new((9 * n) as nat, |p: int| le_u32(b, 84 + 50 * (p / 9) + 4 * (p % 3))),
        indices: Seq::new((3 * n) as nat, |k: int| (k % 0x1_0000_0000) as u32),
    }
}

/// The running index `3t` (truncated to 32 bits) of every facet leaves room
/// for the two that follow it: otherwise the index arithmetic overflows.
pub open spec fn stl_indices_fit(n: int) -> bool {
    forall|t: int| 0 <= t < n ==> #[trigger] ((3 * t) % 0x1_0000_0000) <= 0xFFFF_FFFD
}

/// Parses a coherent binary STL.
pub fn parse_binary_stl(bytes: &[u8]) -> (r: Mesh)
    requires
        spec_is_binary_stl(bytes@),
        stl_indices_fit(le_u32(bytes@, 80) as int),
    ensures
        r.view() == spec_binary_stl_mesh(bytes@, le_u32(bytes@, 80) as int),
{
    let n = read_u32(bytes, 80) as usize;
    let ghost b = bytes@;
    let mut positions: Vec<u32> = Vec::new();
    let mut normals: Vec<u32> = Vec::new();
    let mut indices: Vec<u32> = Vec::new();
    let mut t: usize = 0;
    while t < n
        invariant
            n == le_u32(b, 80),
            b == bytes@,
            b.len() == bytes.len(),
            84 + 50 * n == b.len(),
            stl_indices_fit(n as int),
            t <= n,
            positions@ == spec_binary_stl_mesh(b, t as int).positions,
            normals@ == spec_binary_stl_mesh(b, t as int).normals,
            indices@ == spec_binary_stl_mesh(b, t as int).indices,
        decreases n - t,
    {
        let off = 84 + 50 * t;
        let nx = read_u32(bytes, off);
        let ny = read_u32(bytes, off + 4);
        let nz = read_u32(bytes, off + 8);
        let ghost p0 = positions@;
        let ghost n0 = normals@;
        let mut v: usize = 0;
        while v < 3
            invariant
                n == le_u32(b, 80),
                b == bytes@,
                b.len() == bytes.len(),
                84 + 50 * n == b.len(),
                t < n,
                off == 84 + 50 * t,
                v <= 3,
                nx == le_u32(b, off as int),
                ny == le_u32(b, off + 4),
                nz == le_u32(b, off + 8),
                positions@ == p0 + Seq::new((3 * v) as nat, |q: int| le_u32(b, off + 12 + 4 * q)),
                normals@ == n0 + Seq::new(
                    (3 * v) as nat,
                    |q: int|
                        if q % 3 == 0 {
                            nx
                        } else if q % 3 == 1 {
                            ny
                        } else {
                            nz
                        },
                ),
            decreases 3 - v,
        {
            let base = off + 12 + 12 * v;
            positions.push(read_u32(bytes, base));
            positions.push(read_u32(bytes, base + 4));
            positions.push(read_u32(bytes, base + 8));
            normals.push(nx);
            normals.push(ny);
            normals.push(nz);
            v = v + 1;
            assert(positions@ =~= p0 + Seq::new(
                (3 * v) as nat,
                |q: int| le_u32(b, off + 12 + 4 * q),
            ));
            assert(normals@ =~= n0 + Seq::new(
                (3 * v) as nat,
                |q: int|
                    if q % 3 == 0 {
                        nx
                    } else if q % 3 == 1 {
                        ny
                    } else {
                        nz
                    },
            ));
        }
        assert((3 * t) % 0x1_0000_0000 <= 0xFFFF_FFFD);
        let base_index = ((3 * (t as u64)) % 0x1_0000_0000) as u32;
        indices.push(base_index);
        indices.push(base_index + 1);
        indices.push(base_index + 2);
        t = t + 1;
        let ghost m = spec_binary_stl_mesh(b, t as int);
        assert(((3 * (t - 1) + 1) % 0x1_0000_0000) == base_index + 1);
        assert(((3 * (t - 1) + 2) % 0x1_0000_0000) == base_index + 2);
        assert forall|p: int| 9 * (t - 1) <= p < 9 * t implies #[trigger] m.positions[p] == positions@[p] by {
            assert(p / 9 == t - 1);
            assert(p % 9 == p - 9 * (t - 1));
        }
        assert forall|p: int| 9 * (t - 1) <= p < 9 * t implies #[trigger] m.normals[p] == normals@[p] by {
            assert(p / 9 == t - 1);
            assert(p % 3 == (p - 9 * (t - 1)) % 3);
        }
        assert(positions@ =~= m.positions);
        assert(normals@ =~= m.normals);
        assert(indices@ =~= m.indices);
    }
    Mesh { positions, normals, indices }
}

// --- ASCII STL ---------------------------------------------------------------

/// A meaningful line of an ASCII STL, its numbers left as text (`None`
/// for a number that is missing).
#[derive(Debug, Clone, PartialEq, Eq)]
pub enum StlLine {
    /// `facet normal nx ny nz`.
    Facet(Option<String>, Option<String>, Option<String>),
    /// `vertex x y z`.
    Vertex(Option<String>, Option<String>, Option<String>),
    /// `endfacet`.
    EndFacet,
}

/// Mathematical value of an ASCII STL line.
pub enum StlLineView {
    Facet(Option<Seq<char>>, Option<Seq<char>>, Option<Seq<char>>),
    Vertex(Option<Seq<char>>, Option<Seq<char>>, Option<Seq<char>>),
    EndFacet,
}

pub open spec fn opt_text(o: Option<String>) -> Option<Seq<char>> {
    match o {
        Some(s) => Some(s@),
        None => None,
    }
}

impl StlLine {
    pub open spec fn view(&self) -> StlLineView {
        match self {
            StlLine::Facet(a, b, c) => StlLineView::Facet(opt_text(*a), opt_text(*b), opt_text(*c)),
            StlLine::Vertex(a, b, c) => StlLineView::Vertex(opt_text(*a), opt_text(*b), opt_text(*c)),
            StlLine::EndFacet => StlLineView::EndFacet,
        }
    }
}

/// Token `i` of a line, if there is one.
pub open spec fn token_at(toks: Seq<Seq<char>>, i: int) -> Option<Seq<char>> {
    if 0 <= i < toks.len() {
        Some(toks[i])
    } else {
        None
    }
}

/// The meaning of an ASCII STL line, by its first token: `facet` (the
/// normal is read after the next token), `vertex`, `endfacet`; any other
/// line is ignored.
pub open spec fn stl_line(line: Seq<char>) -> Option<StlLineView> {
    let toks = ws_tokens(line);
    if toks.len() == 0 {
        None
    } else if toks[0] == "facet"@ {
        Some(StlLineView::Facet(token_at(toks, 2), token_at(toks, 3), token_at(toks, 4)))
    } else if toks[0] == "vertex"@ {
        Some(StlLineView::Vertex(token_at(toks, 1), token_at(toks, 2), token_at(toks, 3)))
    } else if toks[0] == "endfacet"@ {
        Some(StlLineView::EndFacet)
    } else {
        None
    }
}

/// The meaningful lines among `ls`, in order.
pub open spec fn stl_lines_of(ls: Seq<Seq<char>>) -> Seq<StlLineView>
    decreases ls.len(),
{
    if ls.len() == 0 {
        Seq::empty()
    } else {
        match stl_line(ls.last()) {
            Some(x) => stl_lines_of(ls.drop_last()).push(x),
            None => stl_lines_of(ls.drop_last()),
        }
    }
}

/// Views of a sequence of lines.
pub open spec fn stl_lines_view(v: Seq<StlLine>) -> Seq<StlLineView> {
    Seq::new(v.len(), |i: int| v[i].view())
}

fn token_at_exec(toks: &Vec<Vec<char>>, i: usize) -> (r: Option<String>)
    ensures
        opt_text(r) == token_at(toks.deep_view(), i as int),
{
    if i < toks.len() {
        let t = copy_all(&toks[i]);
        assert(t@ =~= toks.deep_view()[i as int]);
        Some(string_of(&t))
    } else {
        None
    }
}

/// Reads the lines of an ASCII STL file that matter to its mesh; the file
/// must be UTF-8.
pub fn ascii_stl_lines(bytes: &[u8]) -> (r: Result<Vec<StlLine>, MeshError>)
    ensures
        !valid_utf8(bytes@) ==> r == Err::<Vec<StlLine>, MeshError>(
            MeshError::InvalidStl("non UTF-8"),
        ),
        valid_utf8(bytes@) ==> (r matches Ok(v) && stl_lines_view(v@) == stl_lines_of(
            lines_of(decode_utf8(bytes@)),
        )),
{
    let text = match utf8_str(bytes) {
        Some(t) => t,
        None => return Err(MeshError::InvalidStl("non UTF-8")),
    };
    let cv = chars_of(text.as_str());
    let ls = lines(&cv);
    let ghost lv = ls.deep_view();
    let mut out: Vec<StlLine> = Vec::new();
    let mut i: usize = 0;
    while i < ls.len()
        invariant
            i <= ls.len(),
            lv == ls.deep_view(),
            stl_lines_view(out@) == stl_lines_of(lv.take(i as int)),
        decreases ls.len() - i,
    {
        assert(lv.take(i + 1).drop_last() =~= lv.take(i as int));
        assert(ls@[i as int]@ =~= lv[i as int]);
        let toks = tokens(&ls[i]);
        let ghost tv = toks.deep_view();
        if toks.len() > 0 {
            let ghost before = out@;
            let first = copy_all(&toks[0]);
            assert(first@ =~= tv[0]);
            if eq_lit(&first, "facet") {
                out.push(StlLine::Facet(token_at_exec(&toks, 2), token_at_exec(&toks, 3), token_at_exec(&toks, 4)));
                assert(stl_lines_view(out@) =~= stl_lines_view(before).push(out@.last().view()));
            } else if eq_lit(&first, "vertex") {
                out.push(StlLine::Vertex(token_at_exec(&toks, 1), token_at_exec(&toks, 2), token_at_exec(&toks, 3)));
                assert(stl_lines_view(out@) =~= stl_lines_view(before).push(out@.last().view()));
            } else if eq_lit(&first, "endfacet") {
                out.push(StlLine::EndFacet);
                assert(stl_lines_view(out@) =~= stl_lines_view(before).push(out@.last().view()));
            }
        }
        i = i + 1;
    }
    assert(lv.take(ls.len() as int) =~= lv);
    Ok(out)
}

/// An ASCII STL line with its numbers read as `f32` bit patterns: the
/// facet normal (an unreadable component counts as `0.0`), or the vertex
/// position when its three coordinates are readable.
#[derive(Debug, Clone, Copy, PartialEq, Eq)]
pub enum StlRow {
    Facet([u32; 3]),
    Vertex(Option<[u32; 3]>),
    EndFacet,
}

/// State of the ASCII STL reader: current normal, vertices of the current
/// facet, and the mesh so far.
pub struct AsciiState {
    pub normal: Seq<u32>,
    pub verts: int,
    pub positions: Seq<u32>,
    pub normals: Seq<u32>,
    pub indices: Seq<u32>,
}

/// One line of the reader: a facet sets the normal and restarts the
/// vertex count; a vertex appends its position, the current normal and the
/// next index; `endfacet` requires exactly three vertices.
pub open spec fn ascii_step(st: AsciiState, row: StlRow) -> Result<AsciiState, MeshError> {
    match row {
        StlRow::Facet(n) => Ok(AsciiState { normal: n@, verts: 0, ..st }),
        StlRow::Vertex(None) => Err(MeshError::InvalidStl("sommet illisible")),
        StlRow::Vertex(Some(p)) => {
            let positions = st.positions + p@;
            Ok(
                AsciiState {
                    verts: st.verts + 1,
                    positions,
                    normals: st.normals + st.normal,
                    indices: st.indices.push((positions.len() / 3 - 1) as u32),
                    ..st
                },
            )
        },
        StlRow::EndFacet => if st.verts != 3 {
            Err(MeshError::InvalidStl("facette non triangulaire"))
        } else {
            Ok(st)
        },
    }
}

/// The reader after the first `n` rows.
pub open spec fn ascii_fold(rows: Seq<StlRow>, n: int) -> Result<AsciiState, MeshError>
    decreases n,
{
    if n <= 0 {
        Ok(
            AsciiState {
                normal: seq![0u32, 0u32, 0u32],
                verts: 0,
                positions: Seq::empty(),
                normals: Seq::empty(),
                indices: Seq::empty(),
            },
        )
    } else {
        match ascii_fold(rows, n - 1) {
            Err(e) => Err(e),
            Ok(st) => ascii_step(st, rows[n - 1]),
        }
    }
}

proof fn lemma_ascii_fold_err(rows: Seq<StlRow>, k: int, n: int)
    requires
        0 <= k <= n,
        ascii_fold(rows, k) is Err,
    ensures
        ascii_fold(rows, n) == ascii_fold(rows, k),
    decreases n - k,
{
    if n > k {
        lemma_ascii_fold_err(rows, k, n - 1);
    }
}

/// Mesh of an ASCII STL from its rows: the first error, or `aucune
/// facette` when no vertex was read.
pub open spec fn spec_assemble_ascii(rows: Seq<StlRow>) -> Result<MeshView, MeshError> {
    match ascii_fold(rows, rows.len() as int) {
        Err(e) => Err(e),
        Ok(st) => if st.indices.len() == 0 {
            Err(MeshError::InvalidStl("aucune facette"))
        } else {
            Ok(MeshView { positions: st.positions, normals: st.normals, indices: st.indices })
        },
    }
}

/// Builds the mesh of an ASCII STL from its rows: unindexed, three vertices
/// per facet, the facet normal repeated on each, sequential indices.
pub fn assemble_ascii_stl(rows: &Vec<StlRow>) -> (r: Result<Mesh, MeshError>)
    ensures
        match spec_assemble_ascii(rows@) {
            Ok(m) => r matches Ok(mesh) && mesh.view() == m,
            Err(e) => r == Err::<Mesh, MeshError>(e),
        },
{
    let mut normal: [u32; 3] = [0u32, 0u32, 0u32];
    let mut verts: usize = 0;
    let mut positions: Vec<u32> = Vec::new();
    let mut normals: Vec<u32> = Vec::new();
    let mut indices: Vec<u32> = Vec::new();
    let mut i: usize = 0;
    assert(normal@ =~= seq![0u32, 0u32, 0u32]);
    while i < rows.len()
        invariant
            i <= rows.len(),
            verts <= i,
            ascii_fold(rows@, i as int) == Ok::<AsciiState, MeshError>(
                AsciiState {
                    normal: normal@,
                    verts: verts as int,
                    positions: positions@,
                    normals: normals@,
                    indices: indices@,
                },
            ),
        decreases rows.len() - i,
    {
        match rows[i] {
            StlRow::Facet(n) => {
                normal = n;
                verts = 0;
            },
            StlRow::Vertex(None) => {
                proof {
                    lemma_ascii_fold_err(rows@, i + 1, rows@.len() as int);
                }
                return Err(MeshError::InvalidStl("sommet illisible"));
            },
            StlRow::Vertex(Some(p)) => {
                let ghost old_positions = positions@;
                let ghost old_normals = normals@;
                positions.push(p[0]);
                positions.push(p[1]);
                positions.push(p[2]);
                normals.push(normal[0]);
                normals.push(normal[1]);
                normals.push(normal[2]);
                assert(positions@ =~= old_positions + p@);
                assert(normals@ =~= old_normals + normal@);
                let idx = (positions.len() / 3 - 1) as u32;
                indices.push(idx);
                verts = verts + 1;
            },
            StlRow::EndFacet => {
                if verts != 3 {
                    proof {
                        lemma_ascii_fold_err(rows@, i + 1, rows@.len() as int);
                    }
                    return Err(MeshError::InvalidStl("facette non triangulaire"));
                }
            },
        }
        i = i + 1;
    }
    if indices.len() == 0 {
        return Err(MeshError::InvalidStl("aucune facette"));
    }
    Ok(Mesh { positions, normals, indices })
}


// --- Laws of the ASCII STL reader ---------------------------------------------

/// A well-formed facet: its normal and its three vertex positions.
pub type FacetData = ([u32; 3], [u32; 3], [u32; 3], [u32; 3]);

/// The rows of well-formed facets: `facet normal`, three readable
/// `vertex` rows, `endfacet`, for each facet in order.
pub open spec fn facet_rows(fs: Seq<FacetData>) -> Seq<StlRow>
    decreases fs.len(),
{
    if fs.len() == 0 {
        Seq::empty()
    } else {
        let (n, a, b, c) = fs.last();
        facet_rows(fs.drop_last()) + seq![
            StlRow::Facet(n),
            StlRow::Vertex(Some(a)),
            StlRow::Vertex(Some(b)),
            StlRow::Vertex(Some(c)),
            StlRow::EndFacet,
        ]
    }
}

/// The vertex positions of the facets, three vertices each, in order.
pub open spec fn facet_positions(fs: Seq<FacetData>) -> Seq<u32>
    decreases fs.len(),
{
    if fs.len() == 0 {
        Seq::empty()
    } else {
        let (n, a, b, c) = fs.last();
        facet_positions(fs.drop_last()) + a@ + b@ + c@
    }
}

/// The facet normals, repeated on each of the three vertices.
pub open spec fn facet_normals(fs: Seq<FacetData>) -> Seq<u32>
    decreases fs.len(),
{
    if fs.len() == 0 {
        Seq::empty()
    } else {
        let (n, a, b, c) = fs.last();
        facet_normals(fs.drop_last()) + n@ + n@ + n@
    }
}

proof fn lemma_facet_rows_len(fs: Seq<FacetData>)
    ensures
        facet_rows(fs).len() == 5 * fs.len(),
        facet_positions(fs).len() == 9 * fs.len(),
        facet_normals(fs).len() == 9 * fs.len(),
    decreases fs.len(),
{
    if fs.len() > 0 {
        lemma_facet_rows_len(fs.drop_last());
    }
}

proof fn lemma_fold_same_prefix(r1: Seq<StlRow>, r2: Seq<StlRow>, n: int)
    requires
        0 <= n <= r1.len(),
        n <= r2.len(),
        forall|i: int| 0 <= i < n ==> r1[i] == r2[i],
    ensures
        ascii_fold(r1, n) == ascii_fold(r2, n),
    decreases n,
{
    if n > 0 {
        lemma_fold_same_prefix(r1, r2, n - 1);
    }
}

proof fn lemma_fold_facets(fs: Seq<FacetData>)
    requires
        3 * fs.len() <= 0x1_0000_0000,
    ensures
        ascii_fold(facet_rows(fs), 5 * fs.len() as int) matches Ok(st) && st.positions == facet_positions(fs)
            && st.normals == facet_normals(fs) && st.indices == Seq::new(
            3 * fs.len(),
            |i: int| i as u32,
        ) && (fs.len() > 0 ==> st.verts == 3),
    decreases fs.len(),
{
    lemma_facet_rows_len(fs);
    if fs.len() == 0 {
        assert(Seq::new(0, |i: int| i as u32) =~= Seq::<u32>::empty());
    } else {
        let k: int = fs.len() - 1;
        let fp = fs.drop_last();
        let (n, a, b, c) = fs.last();
        let rows = facet_rows(fs);
        lemma_fold_facets(fp);
        lemma_facet_rows_len(fp);
        assert forall|i: int| 0 <= i < 5 * k implies rows[i] == facet_rows(fp)[i] by {}
        lemma_fold_same_prefix(rows, facet_rows(fp), 5 * k);
        let st0 = ascii_fold(rows, 5 * k)->Ok_0;
        assert(rows[5 * k] == StlRow::Facet(n));
        assert(rows[5 * k + 1] == StlRow::Vertex(Some(a)));
        assert(rows[5 * k + 2] == StlRow::Vertex(Some(b)));
        assert(rows[5 * k + 3] == StlRow::Vertex(Some(c)));
        assert(rows[5 * k + 4] == StlRow::EndFacet);
        let st1 = ascii_fold(rows, 5 * k + 1)->Ok_0;
        assert(st1.verts == 0 && st1.normal == n@);
        let st2 = ascii_fold(rows, 5 * k + 2)->Ok_0;
        assert(st2.positions.len() == 9 * k + 3);
        assert(st2.indices == st0.indices.push((3 * k) as u32));
        let st3 = ascii_fold(rows, 5 * k + 3)->Ok_0;
        assert(st3.positions.len() == 9 * k + 6);
        assert(st3.indices == st2.indices.push((3 * k + 1) as u32));
        let st4 = ascii_fold(rows, 5 * k + 4)->Ok_0;
        assert(st4.positions.len() == 9 * k + 9);
        assert(st4.indices == st3.indices.push((3 * k + 2) as u32));
        assert(st4.verts == 3);
        let st5 = ascii_fold(rows, 5 * k + 5)->Ok_0;
        assert(st5 == st4);
        assert(st5.positions =~= facet_positions(fs));
        assert(st5.normals =~= facet_normals(fs));
        assert(st5.indices =~= Seq::new(3 * fs.len(), |i: int| i as u32));
    }
}

/// A `facet` row starts a new facet: whatever the reader held, the vertex
/// count restarts at zero and the row's normal becomes the current one;
/// the mesh read so far is kept.
pub proof fn law_facet_restarts_vertex_count(st: AsciiState, n: [u32; 3])
    ensures
        ascii_step(st, StlRow::Facet(n)) matches Ok(s) && s.verts == 0 && s.normal == n@
            && s.positions == st.positions && s.normals == st.normals && s.indices == st.indices,
{
}

/// An ASCII STL made of `k > 0` well-formed facets is read without error
/// into `3k` vertices: their positions in file order, each facet's normal on
/// its three vertices, and the indices `0, 1, …, 3k-1`.
pub proof fn law_well_formed_facets_are_read(fs: Seq<FacetData>)
    requires
        fs.len() > 0,
        3 * fs.len() <= 0x1_0000_0000,
    ensures
        spec_assemble_ascii(facet_rows(fs)) == Ok::<MeshView, MeshError>(
            MeshView {
                positions: facet_positions(fs),
                normals: facet_normals(fs),
                indices: Seq::new(3 * fs.len(), |i: int| i as u32),
            },
        ),
        spec_assemble_ascii(facet_rows(fs)) matches Ok(m) && m.indices.len() == 3 * fs.len()
            && m.positions.len() == 9 * fs.len(),
{
    lemma_fold_facets(fs);
    lemma_facet_rows_len(fs);
}

} // verus!
