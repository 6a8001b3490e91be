//! The content hash: a deterministic pure function of a node's id, name,
//! payload and children — recursively, in child order. Permissions and
//! observers never contribute, so replicas that agree on the document
//! content agree on the hash whatever their access control or subscribers.
//!
//! The tree is folded into a canonical tagged, length-prefixed byte string,
//! which is then digested with the 64-bit FNV-1a function.

use crate::data::{Data, DataView};
use crate::events::deliveries;
use crate::node::{
    change_data_event, child_index, lemma_child_index, lemma_node_views_of, node_view, Node,
    NodeView,
};
use vstd::bytes::{
    spec_u128_to_le_bytes, spec_u32_to_le_bytes, spec_u64_to_le_bytes, u128_to_le_bytes,
    u32_to_le_bytes, u64_to_le_bytes,
};
use vstd::prelude::*;
use vstd::slice::slice_to_vec;
use vstd::string::StringSliceAdditionalSpecFns;

verus! {

/// FNV-1a 64-bit offset basis.
pub const FNV_OFFSET: u64 = 0xcbf29ce484222325;

/// FNV-1a 64-bit prime.
pub const FNV_PRIME: u64 = 0x100000001b3;

/// One FNV-1a step: fold one byte into the state.
pub open spec fn fnv1a_step(h: u64, b: u8) -> u64 {
    vstd::wrapping::u64_specs::wrapping_mul(h ^ (b as u64), FNV_PRIME)
}

/// FNV-1a folded over `bytes` starting from state `h`.
pub open spec fn fnv1a_from(h: u64, bytes: Seq<u8>) -> u64
    decreases bytes,
{
    if bytes.len() == 0 {
        h
    } else {
        fnv1a_from(fnv1a_step(h, bytes.first()), bytes.drop_first())
    }
}

/// The FNV-1a digest of a byte string.
pub open spec fn fnv1a(bytes: Seq<u8>) -> u64 {
    fnv1a_from(FNV_OFFSET, bytes)
}

/// Digests a byte string with FNV-1a.
pub fn fnv1a_hash(bytes: &Vec<u8>) -> (h: u64)
    ensures
        h == fnv1a(bytes@),
{
    let mut h: u64 = FNV_OFFSET;
    proof {
        assert(bytes@.skip(0) =~= bytes@);
    }
    let mut i: usize = 0;
    while i < bytes.len()
        invariant
            i <= bytes@.len(),
            fnv1a_from(h, bytes@.skip(i as int)) == fnv1a(bytes@),
        decreases bytes@.len() - i,
    {
        proof {
            let rest = bytes@.skip(i as int);
            assert(rest.first() == bytes@[i as int]);
            assert(rest.drop_first() =~= bytes@.skip(i as int + 1));
        }
        h = (h ^ (bytes[i] as u64)).wrapping_mul(FNV_PRIME);
        i += 1;
    }
    proof {
        assert(bytes@.skip(bytes@.len() as int) =~= Seq::<u8>::empty());
    }
    h
}

/// Canonical encoding of a payload: a tag byte, then the value, with
/// numeric payloads as little-endian bit patterns and every variable-length
/// part length-prefixed.
pub open spec fn encode_data(d: DataView) -> Seq<u8>
    decreases d,
{
    match d {
        DataView::Folder => seq![0u8],
        DataView::Button(n) => seq![1u8] + spec_u64_to_le_bytes(n),
        DataView::Float32(bits) => seq![2u8] + spec_u32_to_le_bytes(bits),
        DataView::Float64(bits) => seq![3u8] + spec_u64_to_le_bytes(bits),
        DataView::Int32(v) => seq![4u8] + spec_u32_to_le_bytes(v as u32),
        DataView::Int64(v) => seq![5u8] + spec_u64_to_le_bytes(v as u64),
        DataView::UInt32(v) => seq![6u8] + spec_u32_to_le_bytes(v),
        DataView::UInt64(v) => seq![7u8] + spec_u64_to_le_bytes(v),
        DataView::Text(s) => seq![8u8] + encode_text(s),
        DataView::Bool(b) => seq![
            9u8,
            if b {
                1u8
            } else {
                0u8
            },
        ],
        DataView::Tuple(arity, items) => seq![10u8] + spec_u64_to_le_bytes(arity as u64)
            + spec_u64_to_le_bytes(items.len() as u64) + encode_data_seq(items),
        DataView::List(items) => seq![11u8] + spec_u64_to_le_bytes(items.len() as u64)
            + encode_data_seq(items),
    }
}

/// Canonical encoding of a string: its UTF-8 byte length, then its bytes.
pub open spec fn encode_text(s: Seq<char>) -> Seq<u8> {
    spec_u64_to_le_bytes(vstd::utf8::encode_utf8(s).len() as u64) + vstd::utf8::encode_utf8(s)
}

/// Concatenated encodings of a payload sequence, in order.
pub open spec fn encode_data_seq(items: Seq<DataView>) -> Seq<u8>
    decreases items,
{
    if items.len() == 0 {
        Seq::empty()
    } else {
        encode_data(items.first()) + encode_data_seq(items.drop_first())
    }
}

/// Canonical encoding of a node: id, optional name, payload, then the
/// child count and each child's encoding in order. Neither the permission
/// nor the observer list contributes.
pub open spec fn encode_node(t: NodeView) -> Seq<u8>
    decreases t,
{
    spec_u128_to_le_bytes(t.id) + (match t.name {
        None => seq![0u8],
        Some(n) => seq![1u8] + encode_text(n),
    }) + encode_data(t.data) + spec_u64_to_le_bytes(t.children.len() as u64) + encode_node_seq(
        t.children,
    )
}

/// Concatenated encodings of a forest, in order.
pub open spec fn encode_node_seq(s: Seq<NodeView>) -> Seq<u8>
    decreases s,
{
    if s.len() == 0 {
        Seq::empty()
    } else {
        encode_node(s.first()) + encode_node_seq(s.drop_first())
    }
}

/// The content hash of the tree rooted at `t`.
pub open spec fn hash_of(t: NodeView) -> u64 {
    fnv1a(encode_node(t))
}

/// `encode_data_seq` commutes with appending one payload.
pub proof fn lemma_encode_data_seq_push(items: Seq<DataView>, d: DataView)
    ensures
        encode_data_seq(items.push(d)) == encode_data_seq(items) + encode_data(d),
    decreases items,
{
    if items.len() == 0 {
        assert(items.push(d).first() == d);
        assert(items.push(d).drop_first() =~= Seq::<DataView>::empty());
        assert(encode_data_seq(items.push(d).drop_first()) == Seq::<u8>::empty());
        assert(encode_data_seq(items) == Seq::<u8>::empty());
        assert(encode_data_seq(items.push(d)) =~= encode_data_seq(items) + encode_data(d));
    } else {
        assert(items.push(d).first() == items.first());
        assert(items.push(d).drop_first() =~= items.drop_first().push(d));
        lemma_encode_data_seq_push(items.drop_first(), d);
        assert(encode_data_seq(items.push(d)) == encode_data(items.first()) + encode_data_seq(
            items.drop_first().push(d),
        ));
        assert(encode_data(items.first()) + (encode_data_seq(items.drop_first()) + encode_data(d))
            =~= (encode_data(items.first()) + encode_data_seq(items.drop_first())) + encode_data(
            d,
        ));
    }
}

/// `encode_node_seq` commutes with appending one subtree.
pub proof fn lemma_encode_node_seq_push(s: Seq<NodeView>, t: NodeView)
    ensures
        encode_node_seq(s.push(t)) == encode_node_seq(s) + encode_node(t),
    decreases s,
{
    if s.len() == 0 {
        assert(s.push(t).first() == t);
        assert(s.push(t).drop_first() =~= Seq::<NodeView>::empty());
        assert(encode_node_seq(s.push(t).drop_first()) == Seq::<u8>::empty());
        assert(encode_node_seq(s) == Seq::<u8>::empty());
        assert(encode_node_seq(s.push(t)) =~= encode_node_seq(s) + encode_node(t));
    } else {
        assert(s.push(t).first() == s.first());
        assert(s.push(t).drop_first() =~= s.drop_first().push(t));
        lemma_encode_node_seq_push(s.drop_first(), t);
        assert(encode_node_seq(s.push(t)) == encode_node(s.first()) + encode_node_seq(
            s.drop_first().push(t),
        ));
        assert(encode_node(s.first()) + (encode_node_seq(s.drop_first()) + encode_node(t)) =~= (
        encode_node(s.first()) + encode_node_seq(s.drop_first())) + encode_node(t));
    }
}

/// Appends the canonical encoding of a string to `out`.
fn encode_text_into(s: &String, out: &mut Vec<u8>)
    ensures
        final(out)@ == old(out)@ + encode_text(s@),
{
    let bytes = slice_to_vec(s.as_str().as_bytes());
    let mut len_bytes = u64_to_le_bytes(bytes.len() as u64);
    out.append(&mut len_bytes);
    let mut bytes = bytes;
    out.append(&mut bytes);
    proof {
        assert(out@ =~= old(out)@ + encode_text(s@));
    }
}

/// Appends the canonical encoding of a payload to `out`.
fn encode_data_into(d: &Data, out: &mut Vec<u8>)
    ensures
        final(out)@ == old(out)@ + encode_data(d@),
    decreases d,
{
    match d {
        Data::Folder => {
            out.push(0u8);
            proof {
                assert(out@ =~= old(out)@ + encode_data(d@));
            }
        },
        Data::Button(n) => {
            out.push(1u8);
            let mut bs = u64_to_le_bytes(*n);
            out.append(&mut bs);
            proof {
                assert(out@ =~= old(out)@ + encode_data(d@));
            }
        },
        Data::Float32(bits) => {
            out.push(2u8);
            let mut bs = u32_to_le_bytes(*bits);
            out.append(&mut bs);
            proof {
                assert(out@ =~= old(out)@ + encode_data(d@));
            }
        },
        Data::Float64(bits) => {
            out.push(3u8);
            let mut bs = u64_to_le_bytes(*bits);
            out.append(&mut bs);
            proof {
                assert(out@ =~= old(out)@ + encode_data(d@));
            }
        },
        Data::Int32(v) => {
            out.push(4u8);
            let mut bs = u32_to_le_bytes(#[verifier::truncate] (*v as u32));
            out.append(&mut bs);
            proof {
                assert(out@ =~= old(out)@ + encode_data(d@));
            }
        },
        Data::Int64(v) => {
            out.push(5u8);
            let mut bs = u64_to_le_bytes(#[verifier::truncate] (*v as u64));
            out.append(&mut bs);
            proof {
                assert(out@ =~= old(out)@ + encode_data(d@));
            }
        },
        Data::UInt32(v) => {
            out.push(6u8);
            let mut bs = u32_to_le_bytes(*v);
            out.append(&mut bs);
            proof {
                assert(out@ =~= old(out)@ + encode_data(d@));
            }
        },
        Data::UInt64(v) => {
            out.push(7u8);
            let mut bs = u64_to_le_bytes(*v);
            out.append(&mut bs);
            proof {
                assert(out@ =~= old(out)@ + encode_data(d@));
            }
        },
        Data::Text(s) => {
            out.push(8u8);
            encode_text_into(s, out);
            proof {
                assert(out@ =~= old(out)@ + encode_data(d@));
            }
        },
        Data::Bool(b) => {
            out.push(9u8);
            out.push(if *b {
                1u8
            } else {
                0u8
            });
            proof {
                assert(out@ =~= old(out)@ + encode_data(d@));
            }
        },
        Data::Tuple(arity, items) => {
            out.push(10u8);
            let mut bs = u64_to_le_bytes(*arity as u64);
            out.append(&mut bs);
            encode_data_vec_into(items, out);
            proof {
                assert(out@ =~= old(out)@ + encode_data(d@));
            }
        },
        Data::List(items) => {
            out.push(11u8);
            encode_data_vec_into(items, out);
            proof {
                assert(out@ =~= old(out)@ + encode_data(d@));
            }
        },
    }
}

/// Appends the length prefix and the encodings of a payload vector to
/// `out`.
fn encode_data_vec_into(items: &Vec<Data>, out: &mut Vec<u8>)
    ensures
        final(out)@ == old(out)@ + spec_u64_to_le_bytes(
            crate::data::data_views_of(items@).len() as u64,
        ) + encode_data_seq(crate::data::data_views_of(items@)),
    decreases items,
{
    proof {
        crate::data::lemma_data_views_of(items@);
    }
    let mut bs = u64_to_le_bytes(items.len() as u64);
    out.append(&mut bs);
    let ghost base = out@;
    let mut i: usize = 0;
    while i < items.len()
        invariant
            i <= items@.len(),
            base == old(out)@ + spec_u64_to_le_bytes(crate::data::data_views_of(items@).len()
                as u64),
            crate::data::data_views_of(items@).len() == items@.len(),
            forall|k: int|
                0 <= k < items@.len() ==> #[trigger] crate::data::data_views_of(items@)[k]
                    == items@[k]@,
            out@ == base + encode_data_seq(crate::data::data_views_of(items@).take(i as int)),
        decreases items@.len() - i,
    {
        encode_data_into(&items[i], out);
        proof {
            let views = crate::data::data_views_of(items@);
            assert(views.take(i as int).push(views[i as int]) =~= views.take(i as int + 1));
            lemma_encode_data_seq_push(views.take(i as int), views[i as int]);
            assert(out@ =~= base + encode_data_seq(views.take(i as int + 1)));
        }
        i += 1;
    }
    proof {
        let views = crate::data::data_views_of(items@);
        assert(views.take(views.len() as int) =~= views);
        assert(out@ =~= old(out)@ + spec_u64_to_le_bytes(views.len() as u64) + encode_data_seq(
            views,
        ));
    }
}

/// Appends the canonical encoding of the subtree rooted at `node` to `out`.
fn encode_node_into(node: &Node, out: &mut Vec<u8>)
    ensures
        final(out)@ == old(out)@ + encode_node(node@),
    decreases node@,
{
    proof {
        lemma_node_views_of(node.children@);
    }
    let mut bs = u128_to_le_bytes(node.id.value);
    out.append(&mut bs);
    match &node.name {
        None => {
            out.push(0u8);
        },
        Some(n) => {
            out.push(1u8);
            encode_text_into(n, out);
        },
    }
    encode_data_into(&node.data, out);
    let mut bs = u64_to_le_bytes(node.children.len() as u64);
    out.append(&mut bs);
    let ghost base = out@;
    let mut i: usize = 0;
    while i < node.children.len()
        invariant
            i <= node.children@.len(),
            node@.children.len() == node.children@.len(),
            forall|k: int|
                0 <= k < node.children@.len() ==> #[trigger] node@.children[k] == node_view(
                    node.children@[k],
                ),
            out@ == base + encode_node_seq(node@.children.take(i as int)),
        decreases node.children@.len() - i,
    {
        proof {
            assert(node@.children[i as int] == node_view(node.children@[i as int]));
        }
        encode_node_into(&node.children[i], out);
        proof {
            let views = node@.children;
            assert(views.take(i as int).push(views[i as int]) =~= views.take(i as int + 1));
            lemma_encode_node_seq_push(views.take(i as int), views[i as int]);
            assert(out@ =~= base + encode_node_seq(views.take(i as int + 1)));
        }
        i += 1;
    }
    proof {
        assert(node@.children.take(node@.children.len() as int) =~= node@.children);
        assert(out@ =~= old(out)@ + encode_node(node@));
    }
}

impl Node {
    /// The content hash of the tree rooted at this node: a deterministic
    /// pure function of id, name, payload and children, recursively.
    pub fn get_hash(&self) -> (h: u64)
        ensures
            h == hash_of(self@),
    {
        let mut buf: Vec<u8> = Vec::new();
        encode_node_into(self, &mut buf);
        proof {
            assert(Seq::<u8>::empty() + encode_node(self@) =~= encode_node(self@));
        }
        fnv1a_hash(&buf)
    }
}

/// The content hash is a function of id, name, payload and children
/// alone: neither the permission nor the observer list affects it.
pub proof fn lemma_hash_ignores_permissions_and_observers(
    t: NodeView,
    p: crate::permissions::PermissionsView,
    subs: Seq<u64>,
)
    ensures
        hash_of(NodeView { permissions: p, subscribers: subs, ..t }) == hash_of(t),
{
    assert(encode_node(NodeView { permissions: p, subscribers: subs, ..t }) == encode_node(t));
}

/// Re-applying `change_data` with the node's current payload leaves the
/// node — and hence the content hash of any tree it stands in —
/// unchanged, while the owed notifications still fire: one per subscriber.
pub proof fn lemma_same_data_same_hash(t: NodeView, d: DataView)
    requires
        d == t.data,
    ensures
        (NodeView { data: d, ..t }) == t,
        hash_of(NodeView { data: d, ..t }) == hash_of(t),
        deliveries(t.subscribers, t.id, change_data_event(t.data, d)).len()
            == t.subscribers.len(),
{
}

/// `remove_child` detaches exactly the subtree rooted at the matched
/// child: every sibling subtree is exactly as it was, in order, and so
/// keeps its content hash.
pub proof fn lemma_remove_child_preserves_siblings(t: NodeView, id: u128)
    requires
        child_index(t.children, id) >= 0,
    ensures
        ({
            let idx = child_index(t.children, id);
            let after = (NodeView { children: t.children.remove(idx), ..t });
            &&& after.children.len() == t.children.len() - 1
            &&& (forall|k: int|
                0 <= k < idx ==> #[trigger] after.children[k] == t.children[k] && hash_of(
                    after.children[k],
                ) == hash_of(t.children[k]))
            &&& (forall|k: int|
                idx <= k < after.children.len() ==> #[trigger] after.children[k] == t.children[k
                    + 1] && hash_of(after.children[k]) == hash_of(t.children[k + 1]))
        }),
{
    lemma_child_index(t.children, id);
}

} // verus!
