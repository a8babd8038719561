//! A particle as the pool holds it, and the record that a draw reads.

use crate::random::advance;
use crate::random::clamp;
use crate::random::variate;
use crate::random::Randf32;
use crate::ParticleSystemBounds;
use vstd::prelude::*;

verus! {

/// The number of steps that the generator takes for one particle.
pub const PARTICLE_DRAWS: usize = 17;

/// The sum of two numbers, held to the 64-bit range.
pub fn clamped_sum(a: i64, b: i64) -> (r: i64)
    ensures
        r == clamp(a + b),
{
    let x: i128 = a as i128 + b as i128;
    if x < -0x8000_0000_0000_0000 {
        -0x8000_0000_0000_0000
    } else if x > 0x7fff_ffff_ffff_ffff {
        0x7fff_ffff_ffff_ffff
    } else {
        x as i64
    }
}

/// One slot of the pool.  The traits are those that the particle was spawned
/// with; `life` is what is left of its lifetime, and the slot is dead, and
/// free to be used again, once that is zero or less.
#[derive(Clone, Copy, Debug, PartialEq, Eq)]
pub struct Particle {
    pub position: [i64; 3],
    pub velocity: [i64; 3],
    /// The rotation's four parts, the scalar part first.
    pub rotation: [i64; 4],
    pub scale: i64,
    pub life: i64,
    pub mass: i64,
    pub color: [i64; 4],
    /// Whether the slot stands in the queue of free slots.
    pub queued: bool,
}

impl Particle {
    /// The particle that is spawned at `pos` from the generator's state `s`:
    /// one variate for each number, in the order
    /// offset, velocity, rotation, colour, scale, life, mass.
    pub open spec fn sampled(s: u64, bounds: ParticleSystemBounds, pos: [i64; 3]) -> Particle {
        Particle {
            position: [
                clamp(variate(s, 1, bounds.area[0]) + pos[0]),
                clamp(variate(s, 2, bounds.area[1]) + pos[1]),
                clamp(variate(s, 3, bounds.area[2]) + pos[2]),
            ],
            velocity: [
                variate(s, 4, bounds.velocity[0]),
                variate(s, 5, bounds.velocity[1]),
                variate(s, 6, bounds.velocity[2]),
            ],
            rotation: [
                variate(s, 7, bounds.rotation[0]),
                variate(s, 8, bounds.rotation[1]),
                variate(s, 9, bounds.rotation[2]),
                variate(s, 10, bounds.rotation[3]),
            ],
            color: [
                variate(s, 11, bounds.color[0]),
                variate(s, 12, bounds.color[1]),
                variate(s, 13, bounds.color[2]),
                variate(s, 14, bounds.color[3]),
            ],
            scale: variate(s, 15, bounds.scale),
            life: variate(s, 16, bounds.life),
            mass: variate(s, 17, bounds.mass),
            queued: false,
        }
    }

    /// The particle of a slot that was never used: dead, and queued.
    pub open spec fn unused() -> Particle {
        Particle {
            position: [0, 0, 0],
            velocity: [0, 0, 0],
            rotation: [0, 0, 0, 0],
            scale: 0,
            life: 0,
            mass: 0,
            color: [0, 0, 0, 0],
            queued: true,
        }
    }

    /// Whether the particle is alive.
    pub open spec fn alive(self) -> bool {
        self.life > 0
    }

    /// Spawns a particle at `pos`, its traits drawn within `bounds`.
    pub fn new(rand: &mut Randf32, bounds: &ParticleSystemBounds, pos: &[i64; 3]) -> (p: Self)
        ensures
            final(rand)@ == advance(old(rand)@, PARTICLE_DRAWS as nat),
            p == Self::sampled(old(rand)@, *bounds, *pos),
    {
        let ghost s = rand@;
        let offset: [i64; 3] = rand.vec3_in(&bounds.area);
        let velocity: [i64; 3] = rand.vec3_in(&bounds.velocity);
        let rotation: [i64; 4] = rand.quat_in(&bounds.rotation);
        let color: [i64; 4] = rand.vec4_in(&bounds.color);
        let scale: i64 = rand.f32_in(&bounds.scale);
        let life: i64 = rand.f32_in(&bounds.life);
        let mass: i64 = rand.f32_in(&bounds.mass);
        let p = Self {
            position: [
                clamped_sum(offset[0], pos[0]),
                clamped_sum(offset[1], pos[1]),
                clamped_sum(offset[2], pos[2]),
            ],
            velocity,
            rotation,
            color,
            scale,
            life,
            mass,
            queued: false,
        };
        proof {
            crate::random::lemma_advance_add(s, 3, 3);
            crate::random::lemma_advance_add(s, 6, 4);
            crate::random::lemma_advance_add(s, 10, 4);
            crate::random::lemma_advance_add(s, 14, 1);
            crate::random::lemma_advance_add(s, 15, 1);
            crate::random::lemma_advance_add(s, 16, 1);
            assert forall|k: nat, j: nat, b: (i64, i64)|
                variate(advance(s, k), j, b) == variate(s, k + j, b) by {
                crate::random::lemma_advance_add(s, k, j);
            }
            let q = Self::sampled(s, *bounds, *pos);
            assert(p.position =~= q.position);
            assert(p.velocity =~= q.velocity);
            assert(p.rotation =~= q.rotation);
            assert(p.color =~= q.color);
        }
        p
    }
}

impl Default for Particle {
    fn default() -> (p: Self)
        ensures
            p == Self::unused(),
    {
        Self {
            position: [0, 0, 0],
            velocity: [0, 0, 0],
            rotation: [0, 0, 0, 0],
            scale: 0,
            life: 0,
            mass: 0,
            color: [0, 0, 0, 0],
            queued: true,
        }
    }
}

/// The size of a record in bytes: sixteen, nine and four numbers of four
/// bytes each, with nothing between them.
pub open spec fn instance_size() -> nat {
    4 * (16 + 9 + 4)
}

/// The record of one particle that a draw reads: the matrix that places the
/// model, the matrix that turns its normals, and its colour.  Each number is
/// held as the 32 bits of a floating-point number, so that a record of zeros
/// is a model of no size.
#[derive(Clone, Copy, Debug, PartialEq, Eq)]
pub struct ParticleInstance {
    /// The model matrix, by column.
    pub model: [[u32; 4]; 4],
    /// The normal matrix, by column.
    pub normal: [[u32; 3]; 3],
    pub color: [u32; 4],
}

impl ParticleInstance {
    /// The record of zeros.
    pub open spec fn spec_empty() -> ParticleInstance {
        ParticleInstance {
            model: [[0, 0, 0, 0], [0, 0, 0, 0], [0, 0, 0, 0], [0, 0, 0, 0]],
            normal: [[0, 0, 0], [0, 0, 0], [0, 0, 0]],
            color: [0, 0, 0, 0],
        }
    }

    /// The size of a record in bytes.
    pub fn size() -> (bytes: u64)
        ensures
            bytes == instance_size(),
            bytes == 116,
    {
        116
    }

    /// The record of zeros, which draws nothing.
    pub fn empty() -> (instance: Self)
        ensures
            instance == Self::spec_empty(),
    {
        Self {
            model: [[0, 0, 0, 0], [0, 0, 0, 0], [0, 0, 0, 0], [0, 0, 0, 0]],
            normal: [[0, 0, 0], [0, 0, 0], [0, 0, 0]],
            color: [0, 0, 0, 0],
        }
    }
}

impl ParticleInstance {
    /// The record's numbers in the order in which a buffer holds them: the
    /// model matrix column by column, the normal matrix column by column, the
    /// colour.
    pub open spec fn spec_words(self) -> Seq<u32> {
        self.model[0]@ + self.model[1]@ + self.model[2]@ + self.model[3]@ + self.normal[0]@
            + self.normal[1]@ + self.normal[2]@ + self.color@
    }

    /// Appends the record's numbers to `words`, in the order in which a
    /// buffer holds them.
    pub fn push_words(&self, words: &mut Vec<u32>)
        ensures
            final(words)@ == old(words)@ + self.spec_words(),
            self.spec_words().len() == INSTANCE_WORDS,
    {
        let ghost start = words@;
        let mut c: usize = 0;
        while c < 4
            invariant
                c <= 4,
                words@.len() == start.len() + 4 * c,
                forall|i: int| 0 <= i < start.len() ==> words@[i] == start[i],
                forall|a: int, b: int|
                    0 <= a < c && 0 <= b < 4 ==> words@[start.len() + 4 * a + b] == self.model[a][b],
            decreases 4 - c,
        {
            let column: [u32; 4] = self.model[c];
            words.push(column[0]);
            words.push(column[1]);
            words.push(column[2]);
            words.push(column[3]);
            c += 1;
        }
        let mut c: usize = 0;
        while c < 3
            invariant
                c <= 3,
                words@.len() == start.len() + 16 + 3 * c,
                forall|i: int| 0 <= i < start.len() ==> words@[i] == start[i],
                forall|a: int, b: int|
                    0 <= a < 4 && 0 <= b < 4 ==> words@[start.len() + 4 * a + b] == self.model[a][b],
                forall|a: int, b: int|
                    0 <= a < c && 0 <= b < 3 ==> words@[start.len() + 16 + 3 * a + b] == self.normal[a][b],
            decreases 3 - c,
        {
            let column: [u32; 3] = self.normal[c];
            words.push(column[0]);
            words.push(column[1]);
            words.push(column[2]);
            c += 1;
        }
        words.push(self.color[0]);
        words.push(self.color[1]);
        words.push(self.color[2]);
        words.push(self.color[3]);
        proof {
            let all = start + self.spec_words();
            assert(words@.len() == all.len());
            assert forall|i: int| 0 <= i < all.len() implies words@[i] == all[i] by {
                let j = i - start.len();
                if j < 0 {
                } else if j < 16 {
                    let a = j / 4;
                    let b = j % 4;
                    assert(words@[start.len() + 4 * a + b] == self.model[a][b]);
                } else if j < 25 {
                    let a = (j - 16) / 3;
                    let b = (j - 16) % 3;
                    assert(words@[start.len() + 16 + 3 * a + b] == self.normal[a][b]);
                } else {
                }
            }
            assert(words@ =~= all);
        }
    }
}

/// The number of numbers in a record.
pub const INSTANCE_WORDS: usize = 29;

/// The numbers of `records`, one record after another.
pub open spec fn record_words(records: Seq<ParticleInstance>) -> Seq<u32>
    decreases records.len(),
{
    if records.len() == 0 {
        Seq::empty()
    } else {
        record_words(records.drop_last()) + records.last().spec_words()
    }
}

/// `records` hold 29 numbers each.
pub proof fn lemma_record_words_len(records: Seq<ParticleInstance>)
    ensures
        record_words(records).len() == INSTANCE_WORDS * records.len(),
    decreases records.len(),
{
    if records.len() > 0 {
        lemma_record_words_len(records.drop_last());
    }
}

/// The numbers of `records`, one record after another, as a buffer holds
/// them.
pub fn instance_words(records: &Vec<ParticleInstance>) -> (words: Vec<u32>)
    ensures
        words@ == record_words(records@),
        words@.len() == INSTANCE_WORDS * records@.len(),
{
    let mut words: Vec<u32> = Vec::new();
    let mut i: usize = 0;
    while i < records.len()
        invariant
            i <= records.len(),
            words@ == record_words(records@.take(i as int)),
        decreases records.len() - i,
    {
        records[i].push_words(&mut words);
        proof {
            assert(records@.take(i + 1).drop_last() =~= records@.take(i as int));
        }
        i += 1;
    }
    proof {
        assert(records@.take(i as int) =~= records@);
        lemma_record_words_len(records@);
    }
    words
}

/// The four bytes of `word`: the lowest first if `little`, the highest first
/// if not.
pub open spec fn ordered_bytes(word: u32, little: bool) -> Seq<u8> {
    let b0 = (word & 0xff) as u8;
    let b1 = ((word >> 8) & 0xff) as u8;
    let b2 = ((word >> 16) & 0xff) as u8;
    let b3 = ((word >> 24) & 0xff) as u8;
    if little {
        seq![b0, b1, b2, b3]
    } else {
        seq![b3, b2, b1, b0]
    }
}

/// The bytes of `words`, four for each in the order of the words, the bytes
/// of a word as `ordered_bytes` orders them.
pub open spec fn ordered_words_bytes(words: Seq<u32>, little: bool) -> Seq<u8> {
    Seq::new(4 * words.len(), |i: int| ordered_bytes(words[i / 4], little)[i % 4])
}

/// The bytes of `words` as this machine holds them in memory, by
/// `bytemuck::cast_slice`: four bytes for each number, in the order of the
/// numbers, and the bytes of a number in the machine's order, which is the
/// lowest first or the highest first.
#[verifier::external_body]
fn word_bytes(words: &Vec<u32>) -> (bytes: Vec<u8>)
    ensures
        bytes@ == ordered_words_bytes(words@, true) || bytes@ == ordered_words_bytes(words@, false),
{
    bytemuck::cast_slice::<u32, u8>(words.as_slice()).to_vec()
}

/// The bytes of `records` as a buffer holds them: the records one after
/// another, each `ParticleInstance::size()` bytes long, its numbers in the
/// order of `spec_words` and each number as this machine holds it in memory.
pub fn instance_bytes(records: &Vec<ParticleInstance>) -> (bytes: Vec<u8>)
    ensures
        bytes@.len() == instance_size() * records@.len(),
        exists|little: bool| bytes@ == ordered_words_bytes(record_words(records@), little),
{
    let words: Vec<u32> = instance_words(records);
    let bytes: Vec<u8> = word_bytes(&words);
    assert(instance_size() == 4 * INSTANCE_WORDS);
    assert(bytes@.len() == 116 * records@.len());
    bytes
}

/// The format of a number or a vector that a vertex shader reads.
#[derive(Clone, Copy, Debug, PartialEq, Eq)]
pub enum VertexFormat {
    /// Two floating-point numbers of 32 bits.
    Float32x2,
    /// Three floating-point numbers of 32 bits.
    Float32x3,
    /// Four floating-point numbers of 32 bits.
    Float32x4,
}

/// Whether a buffer is read once for each vertex or once for each instance.
#[derive(Clone, Copy, Debug, PartialEq, Eq)]
pub enum VertexStepMode {
    Vertex,
    Instance,
}

/// One input of the vertex shader: where it starts within a record, and the
/// shader location that reads it.
#[derive(Clone, Copy, Debug, PartialEq, Eq)]
pub struct VertexAttribute {
    pub format: VertexFormat,
    pub offset: u64,
    pub shader_location: u32,
}

/// How the records of a buffer are laid out for the vertex shader.
pub struct VertexBufferLayout {
    /// The number of bytes from one record to the next.
    pub array_stride: u64,
    pub step_mode: VertexStepMode,
    pub attributes: Vec<VertexAttribute>,
}

/// The size of a format in bytes.
pub open spec fn format_size(format: VertexFormat) -> nat {
    match format {
        VertexFormat::Float32x2 => 8,
        VertexFormat::Float32x3 => 12,
        VertexFormat::Float32x4 => 16,
    }
}

/// The size of `format` in bytes, by `wgpu::VertexFormat::size`: 8, 12 and
/// 16 for two, three and four numbers of 32 bits.
#[verifier::external_body]
fn size_of_format(format: VertexFormat) -> (size: u64)
    ensures
        size == format_size(format),
{
    let outside = match format {
        VertexFormat::Float32x2 => wgpu::VertexFormat::Float32x2,
        VertexFormat::Float32x3 => wgpu::VertexFormat::Float32x3,
        VertexFormat::Float32x4 => wgpu::VertexFormat::Float32x4,
    };
    outside.size()
}

/// Where the `k`-th attribute starts when the attributes are packed in their
/// order, nothing between them: the sum of the sizes of those before it.
pub open spec fn packed_offset(entries: Seq<(u32, VertexFormat)>, k: int) -> nat
    decreases k,
{
    if k <= 0 {
        0
    } else {
        packed_offset(entries, k - 1) + format_size(entries[k - 1].1)
    }
}

/// No attribute is larger than 16 bytes.
pub proof fn lemma_packed_offset_bound(entries: Seq<(u32, VertexFormat)>, k: int)
    requires
        0 <= k,
    ensures
        packed_offset(entries, k) <= 16 * k,
    decreases k,
{
    if k > 0 {
        lemma_packed_offset_bound(entries, k - 1);
    }
}

/// The attributes for `entries`, each a shader location and a format: the
/// attributes are packed in the order of the entries, nothing between them.
pub fn vertex_attr_array(entries: &Vec<(u32, VertexFormat)>) -> (attributes: Vec<VertexAttribute>)
    requires
        16 * entries.len() <= u64::MAX,
    ensures
        attributes@.len() == entries@.len(),
        forall|k: int|
            0 <= k < entries@.len() ==> #[trigger] attributes@[k] == (VertexAttribute {
                format: entries@[k].1,
                offset: packed_offset(entries@, k) as u64,
                shader_location: entries@[k].0,
            }),
{
    let mut attributes: Vec<VertexAttribute> = Vec::new();
    let mut offset: u64 = 0;
    let mut i: usize = 0;
    while i < entries.len()
        invariant
            i <= entries.len(),
            16 * entries.len() <= u64::MAX,
            offset == packed_offset(entries@, i as int),
            attributes@.len() == i,
            forall|k: int|
                0 <= k < i ==> #[trigger] attributes@[k] == (VertexAttribute {
                    format: entries@[k].1,
                    offset: packed_offset(entries@, k) as u64,
                    shader_location: entries@[k].0,
                }),
        decreases entries.len() - i,
    {
        let entry: (u32, VertexFormat) = entries[i];
        attributes.push(VertexAttribute { format: entry.1, offset, shader_location: entry.0 });
        proof {
            lemma_packed_offset_bound(entries@, i + 1);
        }
        offset = offset + size_of_format(entry.1);
        i += 1;
    }
    attributes
}

/// A record that a vertex shader reads, with the layout of its buffer.
pub trait VertexLayout {
    fn layout() -> VertexBufferLayout;
}

impl ParticleInstance {
    /// The attributes of a record: the four columns of the model matrix at
    /// the shader locations 5 to 8, the three columns of the normal matrix at
    /// 9 to 11, the colour at 12.
    pub open spec fn spec_attributes() -> Seq<VertexAttribute> {
        seq![
            VertexAttribute { format: VertexFormat::Float32x4, offset: 0, shader_location: 5 },
            VertexAttribute { format: VertexFormat::Float32x4, offset: 16, shader_location: 6 },
            VertexAttribute { format: VertexFormat::Float32x4, offset: 32, shader_location: 7 },
            VertexAttribute { format: VertexFormat::Float32x4, offset: 48, shader_location: 8 },
            VertexAttribute { format: VertexFormat::Float32x3, offset: 64, shader_location: 9 },
            VertexAttribute { format: VertexFormat::Float32x3, offset: 76, shader_location: 10 },
            VertexAttribute { format: VertexFormat::Float32x3, offset: 88, shader_location: 11 },
            VertexAttribute { format: VertexFormat::Float32x4, offset: 100, shader_location: 12 },
        ]
    }
}

impl VertexLayout for ParticleInstance {
    /// One record for each instance, 116 bytes long.
    fn layout() -> (layout: VertexBufferLayout)
        ensures
            layout.array_stride == instance_size(),
            layout.step_mode == VertexStepMode::Instance,
            layout.attributes@ == Self::spec_attributes(),
    {
        let entries: Vec<(u32, VertexFormat)> = vec![
            (5, VertexFormat::Float32x4),
            (6, VertexFormat::Float32x4),
            (7, VertexFormat::Float32x4),
            (8, VertexFormat::Float32x4),
            (9, VertexFormat::Float32x3),
            (10, VertexFormat::Float32x3),
            (11, VertexFormat::Float32x3),
            (12, VertexFormat::Float32x4),
        ];
        let attributes: Vec<VertexAttribute> = vertex_attr_array(&entries);
        proof {
            reveal_with_fuel(packed_offset, 9);
            assert(attributes@ =~= Self::spec_attributes());
        }
        VertexBufferLayout {
            array_stride: Self::size(),
            step_mode: VertexStepMode::Instance,
            attributes,
        }
    }
}

/// A vertex of the model that each particle is drawn as.  Each number is
/// held as the 32 bits of a floating-point number.
#[derive(Clone, Copy, Debug, PartialEq, Eq)]
pub struct ParticleVertex {
    pub position: [u32; 3],
    pub tex_coords: [u32; 2],
    pub normal: [u32; 3],
}

impl Default for ParticleVertex {
    fn default() -> (vertex: Self)
        ensures
            vertex == Self::zero(),
    {
        Self { position: [0, 0, 0], tex_coords: [0, 0], normal: [0, 0, 0] }
    }
}

impl ParticleVertex {
    /// The vertex of zeros, which `default` gives.
    pub open spec fn zero() -> ParticleVertex {
        ParticleVertex { position: [0, 0, 0], tex_coords: [0, 0], normal: [0, 0, 0] }
    }

    /// The size of a vertex in bytes: eight numbers of four bytes each.
    pub open spec fn spec_size() -> nat {
        4 * (3 + 2 + 3)
    }

    /// The attributes of a vertex: the position at the shader location 0, the
    /// texture coordinates at 1, the normal at 2.
    pub open spec fn spec_attributes() -> Seq<VertexAttribute> {
        seq![
            VertexAttribute { format: VertexFormat::Float32x3, offset: 0, shader_location: 0 },
            VertexAttribute { format: VertexFormat::Float32x2, offset: 12, shader_location: 1 },
            VertexAttribute { format: VertexFormat::Float32x3, offset: 20, shader_location: 2 },
        ]
    }
}

impl ParticleVertex {
    /// The vertex's numbers in the order in which a buffer holds them: the
    /// position, the texture coordinates, the normal.
    pub open spec fn spec_words(self) -> Seq<u32> {
        self.position@ + self.tex_coords@ + self.normal@
    }

    /// Appends the vertex's numbers to `words`, in the order in which a
    /// buffer holds them.
    pub fn push_words(&self, words: &mut Vec<u32>)
        ensures
            final(words)@ == old(words)@ + self.spec_words(),
            self.spec_words().len() == VERTEX_WORDS,
    {
        words.push(self.position[0]);
        words.push(self.position[1]);
        words.push(self.position[2]);
        words.push(self.tex_coords[0]);
        words.push(self.tex_coords[1]);
        words.push(self.normal[0]);
        words.push(self.normal[1]);
        words.push(self.normal[2]);
        assert(words@ =~= old(words)@ + self.spec_words());
    }
}

/// The number of numbers in a vertex.
pub const VERTEX_WORDS: usize = 8;

/// The numbers of `vertices`, one vertex after another.
pub open spec fn vertex_list_words(vertices: Seq<ParticleVertex>) -> Seq<u32>
    decreases vertices.len(),
{
    if vertices.len() == 0 {
        Seq::empty()
    } else {
        vertex_list_words(vertices.drop_last()) + vertices.last().spec_words()
    }
}

/// `vertices` hold eight numbers each.
pub proof fn lemma_vertex_list_words_len(vertices: Seq<ParticleVertex>)
    ensures
        vertex_list_words(vertices).len() == VERTEX_WORDS * vertices.len(),
    decreases vertices.len(),
{
    if vertices.len() > 0 {
        lemma_vertex_list_words_len(vertices.drop_last());
    }
}

/// The numbers of `vertices`, one vertex after another, as a buffer holds
/// them.
pub fn vertex_words(vertices: &Vec<ParticleVertex>) -> (words: Vec<u32>)
    ensures
        words@ == vertex_list_words(vertices@),
        words@.len() == VERTEX_WORDS * vertices@.len(),
{
    let mut words: Vec<u32> = Vec::new();
    let mut i: usize = 0;
    while i < vertices.len()
        invariant
            i <= vertices.len(),
            words@ == vertex_list_words(vertices@.take(i as int)),
        decreases vertices.len() - i,
    {
        vertices[i].push_words(&mut words);
        proof {
            assert(vertices@.take(i + 1).drop_last() =~= vertices@.take(i as int));
        }
        i += 1;
    }
    proof {
        assert(vertices@.take(i as int) =~= vertices@);
        lemma_vertex_list_words_len(vertices@);
    }
    words
}

/// The bytes of `vertices` as a buffer holds them: the vertices one after
/// another, 32 bytes each, the numbers of a vertex in the order of
/// `spec_words` and each number as this machine holds it in memory.
pub fn vertex_bytes(vertices: &Vec<ParticleVertex>) -> (bytes: Vec<u8>)
    ensures
        bytes@.len() == ParticleVertex::spec_size() * vertices@.len(),
        exists|little: bool| bytes@ == ordered_words_bytes(vertex_list_words(vertices@), little),
{
    let words: Vec<u32> = vertex_words(vertices);
    let bytes: Vec<u8> = word_bytes(&words);
    assert(ParticleVertex::spec_size() == 4 * VERTEX_WORDS);
    assert(bytes@.len() == 32 * vertices@.len());
    bytes
}

impl VertexLayout for ParticleVertex {
    /// One record for each vertex, 32 bytes long.
    fn layout() -> (layout: VertexBufferLayout)
        ensures
            layout.array_stride == Self::spec_size(),
            layout.step_mode == VertexStepMode::Vertex,
            layout.attributes@ == Self::spec_attributes(),
    {
        let entries: Vec<(u32, VertexFormat)> = vec![
            (0, VertexFormat::Float32x3),
            (1, VertexFormat::Float32x2),
            (2, VertexFormat::Float32x3),
        ];
        let attributes: Vec<VertexAttribute> = vertex_attr_array(&entries);
        proof {
            reveal_with_fuel(packed_offset, 4);
            assert(attributes@ =~= Self::spec_attributes());
        }
        VertexBufferLayout { array_stride: 32, step_mode: VertexStepMode::Vertex, attributes }
    }
}

} // verus!
