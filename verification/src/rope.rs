//! A rope: text held as a tree of leaves, so that joining two long texts
//! copies neither.

use crate::text::{byte_len, lemma_byte_len_is_encoded_len};
use std::rc::Rc;
use vstd::prelude::*;

verus! {

/// Two leaves are joined into one leaf where each holds fewer bytes than
/// this.
pub const MIN_LEAF_LENGTH: u32 = 4096;

/// A text as a tree: a leaf holds a piece of it, a node two ropes and a
/// weight.
pub enum Rope {
    Concat { left: Rc<Rope>, right: Rc<Rope>, weight: u32 },
    Leaf(String),
}

impl Rope {
    /// Whether the rope is a leaf short enough to be merged with another.
    pub open spec fn is_short_leaf(&self) -> bool {
        match self {
            Rope::Leaf(text) => byte_len(text@) < MIN_LEAF_LENGTH,
            _ => false,
        }
    }

    /// The weight of a rope: the one noted at a node; at a leaf the number of
    /// its bytes, cut to 32 bits.
    pub open spec fn weight_of(&self) -> u32 {
        match self {
            Rope::Concat { weight, .. } => *weight,
            Rope::Leaf(text) => byte_len(text@) as u32,
        }
    }

    /// What joining two ropes gives. Two short leaves become one leaf, which
    /// holds the second rope's text and then the first's. Any other pair
    /// becomes a node over the two, first on the left, with the first rope's
    /// weight.
    pub open spec fn joined(rope1: Rope, rope2: Rope, result: Rope) -> bool {
        if rope1.is_short_leaf() && rope2.is_short_leaf() {
            match result {
                Rope::Leaf(text) => text@ == rope2->Leaf_0@ + rope1->Leaf_0@,
                _ => false,
            }
        } else {
            match result {
                Rope::Concat { left, right, weight } => *left == rope1 && *right == rope2 && weight
                    == rope1.weight_of(),
                _ => false,
            }
        }
    }

    /// The number of bytes of a text.
    fn bytes_of(text: &String) -> (bytes: usize)
        ensures
            bytes == byte_len(text@),
    {
        proof {
            lemma_byte_len_is_encoded_len(text@);
        }
        text.as_str().as_bytes().len()
    }

    /// Joins two ropes.
    pub fn concat(rope1: Rope, rope2: Rope) -> (rope: Rope)
        ensures
            Rope::joined(rope1, rope2, rope),
    {
        let short = match (&rope1, &rope2) {
            (Rope::Leaf(first), Rope::Leaf(second)) => Rope::bytes_of(first)
                < MIN_LEAF_LENGTH as usize && Rope::bytes_of(second) < MIN_LEAF_LENGTH as usize,
            _ => false,
        };
        if short {
            match (&rope1, &rope2) {
                (Rope::Leaf(first), Rope::Leaf(second)) => {
                    let mut new_leaf = String::new();
                    new_leaf.append(second.as_str());
                    new_leaf.append(first.as_str());
                    assert(new_leaf@ =~= second@ + first@);
                    return Rope::Leaf(new_leaf);
                },
                _ => {},
            }
        }
        let weight = rope1.weight();
        Rope::Concat { weight, left: Rc::new(rope1), right: Rc::new(rope2) }
    }

    /// The weight of the rope.
    pub fn weight(&self) -> (weight: u32)
        ensures
            weight == self.weight_of(),
    {
        match self {
            Rope::Concat { weight, .. } => *weight,
            Rope::Leaf(text) => {
                let bytes: usize = Rope::bytes_of(text);
                #[verifier::truncate]
                (bytes as u32)
            },
        }
    }
}

impl From<String> for Rope {
    fn from(other: String) -> (rope: Rope) {
        Rope::Leaf(other)
    }
}

impl vstd::std_specs::convert::FromSpecImpl<String> for Rope {
    open spec fn obeys_from_spec() -> bool {
        true
    }

    open spec fn from_spec(other: String) -> Rope {
        Rope::Leaf(other)
    }
}

} // verus!
