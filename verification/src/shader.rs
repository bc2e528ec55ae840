//! The arithmetic of the draw calls: how vertex attributes are laid out, and
//! which vertices make up the triangles of a run of rectangles.

use vstd::prelude::*;

verus! {

/// The number of bytes of one vertex component.
pub const COMPONENT_BYTES: u32 = 4;

/// One attribute of a vertex: how many components it has, and the name the
/// shader knows it by.
#[derive(Clone, Copy, Debug)]
pub struct AttributeInfo<'a> {
    pub size: u32,
    pub name: &'a str,
}

/// Where an attribute lies within a vertex, in components.
#[derive(Clone, Copy, Debug, PartialEq, Eq, Structural)]
pub struct AttributeSlot {
    /// The number of components before the attribute.
    pub offset: u32,
    /// The number of components of the attribute.
    pub size: u32,
}

/// The number of components of a vertex with the given attributes.
pub open spec fn components(attributes: Seq<AttributeInfo<'_>>) -> nat
    decreases attributes.len(),
{
    if attributes.len() == 0 {
        0
    } else {
        components(attributes.drop_last()) + attributes.last().size as nat
    }
}

/// The slot of each attribute: they follow one another without gaps.
pub open spec fn slots(attributes: Seq<AttributeInfo<'_>>) -> Seq<AttributeSlot> {
    Seq::new(
        attributes.len(),
        |i: int|
            AttributeSlot {
                offset: components(attributes.take(i)) as u32,
                size: attributes[i].size,
            },
    )
}

/// The six vertex indices of rectangle number `n`, whose corners are the
/// vertices `4 * n` to `4 * n + 3`: top right, bottom right, bottom left, top
/// left. Two triangles: bottom right, bottom left, top left; and top right,
/// bottom right, top left.
pub open spec fn rectangle(n: int) -> Seq<int> {
    seq![4 * n + 1, 4 * n + 2, 4 * n + 3, 4 * n, 4 * n + 1, 4 * n + 3]
}

/// The vertex indices of the first `count` rectangles, one rectangle after
/// another.
pub open spec fn rectangles(count: nat) -> Seq<int>
    decreases count,
{
    if count == 0 {
        Seq::empty()
    } else {
        rectangles((count - 1) as nat) + rectangle(count - 1)
    }
}

/// The attributes of a text vertex: a position and a texture coordinate.
pub fn text_shader_attributes() -> (attributes: Vec<AttributeInfo<'static>>)
    ensures
        attributes@.len() == 2,
        attributes@[0].size == 2,
        attributes@[0].name@ == "aPos"@,
        attributes@[1].size == 2,
        attributes@[1].name@ == "aTexCoord"@,
        components(attributes@) == 4,
{
    let mut attributes: Vec<AttributeInfo<'static>> = Vec::new();
    attributes.push(AttributeInfo { size: 2, name: "aPos" });
    attributes.push(AttributeInfo { size: 2, name: "aTexCoord" });
    proof {
        lemma_components_of_two(attributes@);
    }
    attributes
}

/// The attributes of a shape vertex: a position and a colour.
pub fn shape_shader_attributes() -> (attributes: Vec<AttributeInfo<'static>>)
    ensures
        attributes@.len() == 2,
        attributes@[0].size == 2,
        attributes@[0].name@ == "aPos"@,
        attributes@[1].size == 4,
        attributes@[1].name@ == "inColour"@,
        components(attributes@) == 6,
{
    let mut attributes: Vec<AttributeInfo<'static>> = Vec::new();
    attributes.push(AttributeInfo { size: 2, name: "aPos" });
    attributes.push(AttributeInfo { size: 4, name: "inColour" });
    proof {
        lemma_components_of_two(attributes@);
    }
    attributes
}

/// A vertex of two attributes has as many components as both together.
pub proof fn lemma_components_of_two(attributes: Seq<AttributeInfo<'_>>)
    requires
        attributes.len() == 2,
    ensures
        components(attributes) == attributes[0].size + attributes[1].size,
{
    let first = attributes.drop_last();
    assert(first.len() == 1);
    assert(first.drop_last().len() == 0);
    assert(components(first.drop_last()) == 0);
    assert(first.last() == attributes[0]);
    assert(components(first) == attributes[0].size);
}

/// The layout of a vertex: the distance in bytes from one vertex to the next,
/// and the slot of each attribute.
pub fn vertex_layout(attributes: &[AttributeInfo<'_>]) -> (layout: (u32, Vec<AttributeSlot>))
    requires
        components(attributes@) * COMPONENT_BYTES <= u32::MAX,
    ensures
        layout.0 == components(attributes@) * COMPONENT_BYTES,
        layout.1@ == slots(attributes@),
{
    let mut placed: Vec<AttributeSlot> = Vec::new();
    let mut offset: u32 = 0;
    let mut i: usize = 0;
    while i < attributes.len()
        invariant
            i <= attributes.len(),
            offset == components(attributes@.take(i as int)),
            components(attributes@) * COMPONENT_BYTES <= u32::MAX,
            placed@ == slots(attributes@).take(i as int),
        decreases attributes.len() - i,
    {
        proof {
            assert(attributes@.take(i + 1).drop_last() =~= attributes@.take(i as int));
            lemma_components_grow(attributes@, i + 1);
        }
        placed.push(AttributeSlot { offset, size: attributes[i].size });
        offset = offset + attributes[i].size;
        i += 1;
        assert(placed@ =~= slots(attributes@).take(i as int));
    }
    proof {
        assert(attributes@.take(attributes@.len() as int) =~= attributes@);
        assert(placed@ =~= slots(attributes@));
    }
    (offset * COMPONENT_BYTES, placed)
}

/// The first attributes of a vertex have no more components than all of
/// them.
pub proof fn lemma_components_grow(attributes: Seq<AttributeInfo<'_>>, count: int)
    requires
        0 <= count <= attributes.len(),
    ensures
        components(attributes.take(count)) <= components(attributes),
    decreases attributes.len() - count,
{
    if count == attributes.len() {
        assert(attributes.take(count) =~= attributes);
    } else {
        lemma_components_grow(attributes, count + 1);
        assert(attributes.take(count + 1).drop_last() =~= attributes.take(count));
    }
}

/// The vertex indices that draw `count` rectangles as triangles.
pub fn rectangle_indices(count: usize) -> (indices: Vec<u32>)
    requires
        4 * count <= u32::MAX,
    ensures
        indices@.len() == 6 * count,
        indices@.map_values(|index: u32| index as int) == rectangles(count as nat),
{
    let mut indices: Vec<u32> = Vec::new();
    let mut n: usize = 0;
    while n < count
        invariant
            n <= count,
            4 * count <= u32::MAX,
            indices@.len() == 6 * n,
            indices@.map_values(|index: u32| index as int) == rectangles(n as nat),
        decreases count - n,
    {
        let offset: u32 = (n as u32) * 4;
        let ghost before = indices@;
        indices.push(offset + 1);
        indices.push(offset + 2);
        indices.push(offset + 3);
        indices.push(offset);
        indices.push(offset + 1);
        indices.push(offset + 3);
        assert(indices@.map_values(|index: u32| index as int) =~= before.map_values(
            |index: u32| index as int,
        ) + rectangle(n as int));
        n += 1;
    }
    indices
}

} // verus!
