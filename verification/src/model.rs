use vstd::prelude::*;

verus! {

// Records handed to the graphics pipeline. Every scalar is held as the
// 32-bit pattern of the IEEE-754 value the shader will read, so the packed
// byte layout below is bit-exact without this crate doing any float
// arithmetic itself.

/// The four bytes of one 32-bit word, least significant first.
pub open spec fn word_le_bytes(w: u32) -> Seq<u8> {
    seq![
        (w & 0xff) as u8,
        ((w >> 8) & 0xff) as u8,
        ((w >> 16) & 0xff) as u8,
        ((w >> 24) & 0xff) as u8,
    ]
}

/// A sequence of 32-bit words, packed tightly as little-endian bytes.
pub open spec fn words_le_bytes(ws: Seq<u32>) -> Seq<u8>
    decreases ws.len(),
{
    if ws.len() == 0 {
        Seq::empty()
    } else {
        words_le_bytes(ws.drop_last()) + word_le_bytes(ws.last())
    }
}

/// Packing words is four bytes per word.
pub proof fn lemma_words_le_bytes_len(ws: Seq<u32>)
    ensures
        words_le_bytes(ws).len() == 4 * ws.len(),
    decreases ws.len(),
{
    if ws.len() > 0 {
        lemma_words_le_bytes_len(ws.drop_last());
    }
}

proof fn lemma_words_le_bytes_push(ws: Seq<u32>, w: u32)
    ensures
        words_le_bytes(ws.push(w)) == words_le_bytes(ws) + word_le_bytes(w),
{
    assert(ws.push(w).drop_last() =~= ws);
    assert(ws.push(w).last() == w);
}

/// Appends the four little-endian bytes of `w`.
fn push_word_le(out: &mut Vec<u8>, w: u32)
    ensures
        final(out)@ == old(out)@ + word_le_bytes(w),
{
    out.push((w & 0xff) as u8);
    out.push(((w >> 8) & 0xff) as u8);
    out.push(((w >> 16) & 0xff) as u8);
    out.push(((w >> 24) & 0xff) as u8);
    proof {
        assert(final(out)@ =~= old(out)@ + word_le_bytes(w));
    }
}

/// Packs `words` tightly as little-endian bytes.
pub fn pack_words(words: &Vec<u32>) -> (out: Vec<u8>)
    ensures
        out@ == words_le_bytes(words@),
        out@.len() == 4 * words@.len(),
{
    let mut out: Vec<u8> = Vec::new();
    let n = words.len();
    let mut i: usize = 0;
    while i < n
        invariant
            i <= n,
            n == words@.len(),
            out@ == words_le_bytes(words@.take(i as int)),
        decreases n - i,
    {
        push_word_le(&mut out, words[i]);
        proof {
            assert(words@.take(i + 1) =~= words@.take(i as int).push(words@[i as int]));
            lemma_words_le_bytes_push(words@.take(i as int), words@[i as int]);
        }
        i = i + 1;
    }
    proof {
        assert(words@.take(n as int) =~= words@);
        lemma_words_le_bytes_len(words@);
    }
    out
}

/// One corner of a mesh: a position and a surface normal, each a 3-vector
/// of 32-bit words.
#[derive(Clone, Copy, Debug, PartialEq, Eq)]
pub struct MeshVertex {
    pub position: [u32; 3],
    pub normal: [u32; 3],
}

impl MeshVertex {
    /// The vertex's six words in buffer order: position, then normal.
    pub open spec fn words(self) -> Seq<u32> {
        self.position@ + self.normal@
    }

    /// The 24-byte packed form consumed by the vertex buffer.
    pub open spec fn spec_bytes(self) -> Seq<u8> {
        words_le_bytes(self.words())
    }

    /// The vertex's words as a vector, in buffer order.
    pub fn to_words(&self) -> (out: Vec<u32>)
        ensures
            out@ == self.words(),
    {
        let mut out: Vec<u32> = Vec::new();
        out.push(self.position[0]);
        out.push(self.position[1]);
        out.push(self.position[2]);
        out.push(self.normal[0]);
        out.push(self.normal[1]);
        out.push(self.normal[2]);
        proof {
            assert(out@ =~= self.words());
        }
        out
    }
}

/// One drawable occurrence of a model: a 4-by-4 transform, the matching
/// 3-by-3 normal matrix, and an RGB color, flattened in the order the
/// instance buffer's vertex attributes declare.
#[derive(Clone, Copy, Debug, PartialEq, Eq)]
pub struct ModelInstance {
    pub model: [u32; 16],
    pub normal: [u32; 9],
    pub color: [u32; 3],
}

/// How many bytes one packed instance record occupies: 28 words of 4 bytes.
pub const INSTANCE_BYTES: usize = 112;

impl ModelInstance {
    /// The record's 28 words in buffer order: transform, normal matrix, color.
    pub open spec fn words(self) -> Seq<u32> {
        self.model@ + self.normal@ + self.color@
    }

    /// The 112-byte packed form consumed by the instance buffer: tightly
    /// packed little-endian words, no padding.
    pub open spec fn spec_bytes(self) -> Seq<u8> {
        words_le_bytes(self.words())
    }

    /// The record's words as a vector, in buffer order.
    pub fn to_words(&self) -> (out: Vec<u32>)
        ensures
            out@ == self.words(),
            out@.len() == 28,
    {
        let mut out: Vec<u32> = Vec::new();
        let mut i: usize = 0;
        while i < 16
            invariant
                i <= 16,
                out@ == self.model@.take(i as int),
            decreases 16 - i,
        {
            out.push(self.model[i]);
            proof {
                assert(self.model@.take(i + 1) =~= self.model@.take(i as int).push(
                    self.model@[i as int],
                ));
            }
            i = i + 1;
        }
        let mut j: usize = 0;
        while j < 9
            invariant
                j <= 9,
                out@ == self.model@ + self.normal@.take(j as int),
            decreases 9 - j,
        {
            out.push(self.normal[j]);
            proof {
                assert(self.model@ + self.normal@.take(j + 1) =~= (self.model@
                    + self.normal@.take(j as int)).push(self.normal@[j as int]));
            }
            j = j + 1;
        }
        let mut k: usize = 0;
        while k < 3
            invariant
                k <= 3,
                out@ == self.model@ + self.normal@ + self.color@.take(k as int),
            decreases 3 - k,
        {
            out.push(self.color[k]);
            proof {
                assert(self.model@ + self.normal@ + self.color@.take(k + 1) =~= (self.model@
                    + self.normal@ + self.color@.take(k as int)).push(self.color@[k as int]));
            }
            k = k + 1;
        }
        proof {
            assert(self.model@.take(16) =~= self.model@);
            assert(self.normal@.take(9) =~= self.normal@);
            assert(self.color@.take(3) =~= self.color@);
        }
        out
    }

    /// The 112-byte packed record.
    pub fn to_bytes(&self) -> (out: Vec<u8>)
        ensures
            out@ == self.spec_bytes(),
            out@.len() == INSTANCE_BYTES,
    {
        let words = self.to_words();
        pack_words(&words)
    }
}

/// A dense sequence of instance records, packed back to back: the exact
/// image a model's instance buffer holds from offset 0.
pub open spec fn instances_le_bytes(s: Seq<ModelInstance>) -> Seq<u8>
    decreases s.len(),
{
    if s.len() == 0 {
        Seq::empty()
    } else {
        instances_le_bytes(s.drop_last()) + s.last().spec_bytes()
    }
}

/// Packed instances occupy exactly `INSTANCE_BYTES` each.
pub proof fn lemma_instances_le_bytes_len(s: Seq<ModelInstance>)
    ensures
        instances_le_bytes(s).len() == INSTANCE_BYTES * s.len(),
    decreases s.len(),
{
    if s.len() > 0 {
        lemma_instances_le_bytes_len(s.drop_last());
        lemma_words_le_bytes_len(s.last().words());
    }
}

proof fn lemma_instances_le_bytes_push(s: Seq<ModelInstance>, inst: ModelInstance)
    ensures
        instances_le_bytes(s.push(inst)) == instances_le_bytes(s) + inst.spec_bytes(),
{
    assert(s.push(inst).drop_last() =~= s);
    assert(s.push(inst).last() == inst);
}

/// Packs a dense block of instances for one bulk buffer upload.
pub fn pack_instances(vals: &[ModelInstance]) -> (out: Vec<u8>)
    ensures
        out@ == instances_le_bytes(vals@),
        out@.len() == INSTANCE_BYTES * vals@.len(),
{
    let mut out: Vec<u8> = Vec::new();
    let n = vals.len();
    let mut i: usize = 0;
    while i < n
        invariant
            i <= n,
            n == vals@.len(),
            out@ == instances_le_bytes(vals@.take(i as int)),
        decreases n - i,
    {
        let mut chunk = vals[i].to_bytes();
        out.append(&mut chunk);
        proof {
            assert(vals@.take(i + 1) =~= vals@.take(i as int).push(vals@[i as int]));
            lemma_instances_le_bytes_push(vals@.take(i as int), vals@[i as int]);
        }
        i = i + 1;
    }
    proof {
        assert(vals@.take(n as int) =~= vals@);
        lemma_instances_le_bytes_len(vals@);
    }
    out
}

/// The two bytes of one 16-bit index, least significant first.
pub open spec fn index_le_bytes(x: u16) -> Seq<u8> {
    seq![(x & 0xff) as u8, ((x >> 8) & 0xff) as u8]
}

/// A sequence of 16-bit indices, packed tightly as little-endian bytes.
pub open spec fn indices_le_bytes(xs: Seq<u16>) -> Seq<u8>
    decreases xs.len(),
{
    if xs.len() == 0 {
        Seq::empty()
    } else {
        indices_le_bytes(xs.drop_last()) + index_le_bytes(xs.last())
    }
}

/// Packed indices occupy two bytes each.
pub proof fn lemma_indices_le_bytes_len(xs: Seq<u16>)
    ensures
        indices_le_bytes(xs).len() == 2 * xs.len(),
    decreases xs.len(),
{
    if xs.len() > 0 {
        lemma_indices_le_bytes_len(xs.drop_last());
    }
}

/// A mesh's geometry as the pipeline consumes it: vertices and a triangle
/// list of indices into them.
pub struct Model {
    pub vertices: Vec<MeshVertex>,
    pub indices: Vec<u16>,
}

/// Vertices packed back to back: the image of the mesh's vertex buffer.
pub open spec fn vertices_le_bytes(s: Seq<MeshVertex>) -> Seq<u8>
    decreases s.len(),
{
    if s.len() == 0 {
        Seq::empty()
    } else {
        vertices_le_bytes(s.drop_last()) + s.last().spec_bytes()
    }
}

impl Model {
    /// The packed image of this mesh's vertex buffer.
    pub fn vertex_bytes(&self) -> (out: Vec<u8>)
        ensures
            out@ == vertices_le_bytes(self.vertices@),
    {
        let mut out: Vec<u8> = Vec::new();
        let n = self.vertices.len();
        let mut i: usize = 0;
        while i < n
            invariant
                i <= n,
                n == self.vertices@.len(),
                out@ == vertices_le_bytes(self.vertices@.take(i as int)),
            decreases n - i,
        {
            let words = self.vertices[i].to_words();
            let mut chunk = pack_words(&words);
            out.append(&mut chunk);
            proof {
                let s = self.vertices@.take(i as int);
                let v = self.vertices@[i as int];
                assert(self.vertices@.take(i + 1) =~= s.push(v));
                assert(s.push(v).drop_last() =~= s);
                assert(s.push(v).last() == v);
            }
            i = i + 1;
        }
        proof {
            assert(self.vertices@.take(n as int) =~= self.vertices@);
        }
        out
    }

    /// The packed image of this mesh's index buffer.
    pub fn index_bytes(&self) -> (out: Vec<u8>)
        ensures
            out@ == indices_le_bytes(self.indices@),
            out@.len() == 2 * self.indices@.len(),
    {
        let mut out: Vec<u8> = Vec::new();
        let n = self.indices.len();
        let mut i: usize = 0;
        while i < n
            invariant
                i <= n,
                n == self.indices@.len(),
                out@ == indices_le_bytes(self.indices@.take(i as int)),
        decreases n - i,
        {
            let x = self.indices[i];
            out.push((x & 0xff) as u8);
            out.push(((x >> 8) & 0xff) as u8);
            proof {
                let s = self.indices@.take(i as int);
                assert(self.indices@.take(i + 1) =~= s.push(self.indices@[i as int]));
                assert(s.push(self.indices@[i as int]).drop_last() =~= s);
                assert(out@ =~= indices_le_bytes(s) + index_le_bytes(self.indices@[i as int]));
            }
            i = i + 1;
        }
        proof {
            assert(self.indices@.take(n as int) =~= self.indices@);
            lemma_indices_le_bytes_len(self.indices@);
        }
        out
    }
}

} // verus!
