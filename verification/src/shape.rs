//! What the text of a note commitment tree holds.
use vstd::prelude::*;
use vstd::slice::slice_subrange;
use vstd::string::*;
use vstd::utf8::encode_utf8;

use crate::chain::{
    accepts_orchard_commitment, accepts_sapling_commitment, is_orchard_node, is_sapling_node,
};

verus! {

/// The value of a hexadecimal digit.
pub open spec fn nibble(digit: u8) -> Option<u8> {
    if 48 <= digit <= 57 {
        Some((digit - 48) as u8)
    } else if 97 <= digit <= 102 {
        Some((digit - 87) as u8)
    } else if 65 <= digit <= 70 {
        Some((digit - 55) as u8)
    } else {
        None
    }
}

/// Whether a text is made of pairs of hexadecimal digits.
pub open spec fn is_hex(text: Seq<u8>) -> bool {
    text.len() % 2 == 0 && forall|i: int|
        0 <= i < text.len() ==> nibble(#[trigger] text[i]) is Some
}

/// The bytes that pairs of hexadecimal digits spell.
pub open spec fn unhexed(text: Seq<u8>) -> Seq<u8> {
    Seq::new(
        text.len() / 2,
        |i: int| (16 * nibble(text[2 * i])->Some_0 + nibble(text[2 * i + 1])->Some_0) as u8,
    )
}

/// The two shapes of tree.
#[derive(Clone, Copy, Debug, PartialEq, Eq, Structural)]
pub enum Kind {
    Sapling,
    Orchard,
}

impl Kind {
    /// Whether bytes are a node of a tree of the kind.
    pub open spec fn is_node(self, bytes: Seq<u8>) -> bool {
        match self {
            Kind::Sapling => is_sapling_node(bytes),
            Kind::Orchard => is_orchard_node(bytes),
        }
    }

    /// Reads an optional node: whether it is there, and where it ends.
    pub open spec fn node_at(self, bytes: Seq<u8>, at: int) -> Option<(bool, int)> {
        if at >= bytes.len() {
            None
        } else if bytes[at] == 0 {
            Some((false, at + 1))
        } else if bytes[at] == 1 && at + 33 <= bytes.len() && self.is_node(
            bytes.subrange(at + 1, at + 33),
        ) {
            Some((true, at + 33))
        } else {
            None
        }
    }

    /// Reads optional nodes: whether any is there.
    pub open spec fn nodes_at(self, bytes: Seq<u8>, at: int, count: nat) -> Option<bool>
        decreases count,
    {
        if count == 0 {
            Some(false)
        } else {
            match self.node_at(bytes, at) {
                None => None,
                Some((present, end)) => match self.nodes_at(bytes, end, (count - 1) as nat) {
                    None => None,
                    Some(other) => Some(present || other),
                },
            }
        }
    }

    /// What the bytes of a tree hold: its two leaves, the number of its parents, and the parents.
    pub open spec fn shape_of_bytes(self, bytes: Seq<u8>) -> Shape {
        match self.node_at(bytes, 0) {
            None => Shape::Malformed,
            Some((left, middle)) => match self.node_at(bytes, middle) {
                None => Shape::Malformed,
                Some((right, end)) => if end >= bytes.len() || bytes[end] >= 32 {
                    Shape::Malformed
                } else {
                    match self.nodes_at(bytes, end + 1, bytes[end] as nat) {
                        None => Shape::Malformed,
                        Some(parent) => if !left && (right || parent) {
                            Shape::Rootless
                        } else {
                            Shape::Rooted
                        },
                    }
                },
            },
        }
    }

    /// What the text of a tree holds. A tree without text is empty.
    pub open spec fn shape(self, text: Seq<char>) -> Shape {
        if encode_utf8(text).len() == 0 {
            Shape::Rooted
        } else if is_hex(encode_utf8(text)) {
            self.shape_of_bytes(unhexed(encode_utf8(text)))
        } else {
            Shape::Malformed
        }
    }

    fn accepts(self, bytes: &[u8]) -> (accepted: bool)
        ensures
            accepted == self.is_node(bytes@),
    {
        match self {
            Kind::Sapling => accepts_sapling_commitment(bytes),
            Kind::Orchard => accepts_orchard_commitment(bytes),
        }
    }

    fn read_node(self, bytes: &[u8], at: usize) -> (node: Option<(bool, usize)>)
        ensures
            match node {
                Some((present, end)) => self.node_at(bytes@, at as int) == Some(
                    (present, end as int),
                ) && end <= bytes@.len(),
                None => self.node_at(bytes@, at as int) is None,
            },
    {
        let len: usize = bytes.len();
        if at >= len {
            return None;
        }
        if bytes[at] == 0 {
            return Some((false, at + 1));
        }
        if bytes[at] != 1 || len - at < 33 {
            return None;
        }
        if self.accepts(slice_subrange(bytes, at + 1, at + 33)) {
            Some((true, at + 33))
        } else {
            None
        }
    }

    fn read_nodes(self, bytes: &[u8], at: usize, count: usize) -> (found: Option<bool>)
        ensures
            found == self.nodes_at(bytes@, at as int, count as nat),
    {
        let mut place: usize = at;
        let mut left: usize = count;
        let mut any: bool = false;
        while left > 0
            invariant
                left <= count,
                self.nodes_at(bytes@, at as int, count as nat) == (match self.nodes_at(
                    bytes@,
                    place as int,
                    left as nat,
                ) {
                    None => None,
                    Some(other) => Some(any || other),
                }),
            decreases left,
        {
            match self.read_node(bytes, place) {
                None => return None,
                Some((present, end)) => {
                    any = any || present;
                    place = end;
                    left = left - 1;
                },
            }
        }
        Some(any)
    }

    fn read(self, bytes: &[u8]) -> (shape: Shape)
        ensures
            shape == self.shape_of_bytes(bytes@),
    {
        let (left, middle) = match self.read_node(bytes, 0) {
            Some(node) => node,
            None => return Shape::Malformed,
        };
        let (right, end) = match self.read_node(bytes, middle) {
            Some(node) => node,
            None => return Shape::Malformed,
        };
        if end >= bytes.len() || bytes[end] >= 32 {
            return Shape::Malformed;
        }
        match self.read_nodes(bytes, end + 1, bytes[end] as usize) {
            None => Shape::Malformed,
            Some(parent) => if !left && (right || parent) {
                Shape::Rootless
            } else {
                Shape::Rooted
            },
        }
    }

    /// What the text of a tree holds.
    pub fn read_text(self, text: &str) -> (shape: Shape)
        ensures
            shape == self.shape(text@),
    {
        let encoded = text.as_bytes();
        if encoded.len() == 0 {
            return Shape::Rooted;
        }
        match unhex(encoded) {
            Some(bytes) => self.read(bytes.as_slice()),
            None => Shape::Malformed,
        }
    }
}

/// What the text of a tree holds.
#[derive(Clone, Copy, Debug, PartialEq, Eq, Structural)]
pub enum Shape {
    /// It is no tree.
    Malformed,
    /// A tree that has no first leaf, but a second one or a parent.
    Rootless,
    /// Any other tree.
    Rooted,
}

fn hex_digit(digit: u8) -> (value: Option<u8>)
    ensures
        value == nibble(digit),
        value matches Some(value) ==> value < 16,
{
    if 48 <= digit && digit <= 57 {
        Some(digit - 48)
    } else if 97 <= digit && digit <= 102 {
        Some(digit - 87)
    } else if 65 <= digit && digit <= 70 {
        Some(digit - 55)
    } else {
        None
    }
}

/// The bytes that pairs of hexadecimal digits spell, if a text is made of them.
pub fn unhex(text: &[u8]) -> (bytes: Option<Vec<u8>>)
    ensures
        match bytes {
            Some(bytes) => is_hex(text@) && bytes@ == unhexed(text@),
            None => !is_hex(text@),
        },
{
    let len: usize = text.len();
    if len % 2 != 0 {
        return None;
    }
    let mut bytes: Vec<u8> = Vec::new();
    let mut i: usize = 0;
    while i < len
        invariant
            len == text@.len(),
            len % 2 == 0,
            i % 2 == 0,
            i <= len,
            bytes@.len() == i / 2,
            forall|k: int| 0 <= k < i ==> nibble(#[trigger] text@[k]) is Some,
            forall|k: int| 0 <= k < i / 2 ==> #[trigger] bytes@[k] == unhexed(text@)[k],
        decreases len - i,
    {
        let (high, low) = match (hex_digit(text[i]), hex_digit(text[i + 1])) {
            (Some(high), Some(low)) => (high, low),
            _ => return None,
        };
        bytes.push(16 * high + low);
        i += 2;
    }
    assert(bytes@ =~= unhexed(text@));
    Some(bytes)
}

/// A hexadecimal digit has the value of its place among the digits, whether it is a small letter or
/// a capital.
pub proof fn digits_have_their_values(digit: u8, value: u8)
    requires
        value < 16,
    ensures
        nibble(digit) == Some(value) <==> "0123456789abcdef"@[value as int] == digit as char
            || "0123456789ABCDEF"@[value as int] == digit as char,
        nibble(digit) matches Some(found) ==> found < 16,
{
    reveal_strlit("0123456789abcdef");
    reveal_strlit("0123456789ABCDEF");
}

/// The bytes of an optional node of a tree.
pub open spec fn node_bytes(node: Option<Seq<u8>>) -> Seq<u8> {
    match node {
        None => seq![0u8],
        Some(node) => seq![1u8] + node,
    }
}

/// The bytes of optional nodes, one after the other.
pub open spec fn nodes_bytes(nodes: Seq<Option<Seq<u8>>>) -> Seq<u8>
    decreases nodes.len(),
{
    if nodes.len() == 0 {
        seq![]
    } else {
        node_bytes(nodes[0]) + nodes_bytes(nodes.skip(1))
    }
}

proof fn a_written_node_is_read(kind: Kind, before: Seq<u8>, node: Option<Seq<u8>>, after: Seq<u8>)
    requires
        node matches Some(node) ==> kind.is_node(node),
    ensures
        kind.node_at(before + node_bytes(node) + after, before.len() as int) == Some(
            (node is Some, (before.len() + node_bytes(node).len()) as int),
        ),
{
    let bytes = before + node_bytes(node) + after;
    let at = before.len() as int;
    if let Some(node) = node {
        assert(bytes.subrange(at + 1, at + 33) =~= node);
    }
}

proof fn written_nodes_are_read(
    kind: Kind,
    before: Seq<u8>,
    nodes: Seq<Option<Seq<u8>>>,
    after: Seq<u8>,
)
    requires
        forall|i: int|
            0 <= i < nodes.len() && #[trigger] nodes[i] is Some ==> kind.is_node(nodes[i]->Some_0),
    ensures
        kind.nodes_at(before + nodes_bytes(nodes) + after, before.len() as int, nodes.len())
            == Some(exists|i: int| 0 <= i < nodes.len() && #[trigger] nodes[i] is Some),
    decreases nodes.len(),
{
    let bytes = before + nodes_bytes(nodes) + after;
    if nodes.len() > 0 {
        let rest = nodes.skip(1);
        let first = before + node_bytes(nodes[0]);
        assert forall|i: int|
            0 <= i < rest.len() && #[trigger] rest[i] is Some implies kind.is_node(
            rest[i]->Some_0,
        ) by {
            assert(nodes[i + 1] is Some);
        }
        written_nodes_are_read(kind, first, rest, after);
        a_written_node_is_read(kind, before, nodes[0], nodes_bytes(rest) + after);
        assert(bytes =~= before + node_bytes(nodes[0]) + (nodes_bytes(rest) + after));
        assert(bytes =~= first + nodes_bytes(rest) + after);
        if exists|i: int| 0 <= i < nodes.len() && #[trigger] nodes[i] is Some {
            let i = choose|i: int| 0 <= i < nodes.len() && #[trigger] nodes[i] is Some;
            if i > 0 {
                assert(rest[i - 1] is Some);
            }
        }
        if exists|i: int| 0 <= i < rest.len() && #[trigger] rest[i] is Some {
            let i = choose|i: int| 0 <= i < rest.len() && #[trigger] rest[i] is Some;
            assert(nodes[i + 1] is Some);
        }
    }
}

/// Written trees are read: the bytes of two optional leaves, the number of parents and optional
/// parents, all of them nodes, are a tree. It is rootless where it has no first leaf, but a second
/// one or a parent. What follows the tree does not matter.
pub proof fn written_trees_are_read(
    kind: Kind,
    left: Option<Seq<u8>>,
    right: Option<Seq<u8>>,
    parents: Seq<Option<Seq<u8>>>,
    after: Seq<u8>,
)
    requires
        left matches Some(node) ==> kind.is_node(node),
        right matches Some(node) ==> kind.is_node(node),
        parents.len() < 32,
        forall|i: int|
            0 <= i < parents.len() && #[trigger] parents[i] is Some ==> kind.is_node(
                parents[i]->Some_0,
            ),
    ensures
        ({
            let bytes = node_bytes(left) + node_bytes(right) + seq![parents.len() as u8]
                + nodes_bytes(parents) + after;
            let parent = exists|i: int| 0 <= i < parents.len() && #[trigger] parents[i] is Some;
            kind.shape_of_bytes(bytes) == if left is None && (right is Some || parent) {
                Shape::Rootless
            } else {
                Shape::Rooted
            }
        }),
{
    let count = seq![parents.len() as u8];
    let bytes = node_bytes(left) + node_bytes(right) + count + nodes_bytes(parents) + after;
    let tail = nodes_bytes(parents) + after;
    a_written_node_is_read(kind, seq![], left, node_bytes(right) + count + tail);
    assert(bytes =~= Seq::<u8>::empty() + node_bytes(left) + (node_bytes(right) + count + tail));
    a_written_node_is_read(kind, node_bytes(left), right, count + tail);
    assert(bytes =~= node_bytes(left) + node_bytes(right) + (count + tail));
    let head = node_bytes(left) + node_bytes(right) + count;
    written_nodes_are_read(kind, head, parents, after);
    assert(bytes =~= head + nodes_bytes(parents) + after);
    let place: int = (node_bytes(left).len() + node_bytes(right).len()) as int;
    assert(bytes[place] == parents.len());
}

} // verus!
