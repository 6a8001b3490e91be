//! The payload carried by a node: a tagged value.
//!
//! Floating-point payloads are carried as their IEEE-754 bit patterns, which
//! is also exactly what the content hash consumes; conversion from and to the
//! machine float types is the caller's concern.

use vstd::prelude::*;

verus! {

/// A node's payload.
///
/// `Folder` is a pure container marker; `Button` counts how often it was
/// pressed; `Float32`/`Float64` hold IEEE-754 bit patterns; `Tuple` carries
/// its arity next to the values; `List` holds a dynamic sequence.
#[derive(Debug)]
pub enum Data {
    Folder,
    Button(u64),
    Float32(u32),
    Float64(u64),
    Int32(i32),
    Int64(i64),
    UInt32(u32),
    UInt64(u64),
    Text(String),
    Bool(bool),
    Tuple(usize, Vec<Data>),
    List(Vec<Data>),
}

/// Abstract value of a `Data`: strings become character sequences, vectors
/// become sequences.
pub enum DataView {
    Folder,
    Button(u64),
    Float32(u32),
    Float64(u64),
    Int32(i32),
    Int64(i64),
    UInt32(u32),
    UInt64(u64),
    Text(Seq<char>),
    Bool(bool),
    Tuple(nat, Seq<DataView>),
    List(Seq<DataView>),
}

/// Abstract values of a sequence of payloads, element by element.
pub open spec fn data_views_of(items: Seq<Data>) -> Seq<DataView>
    decreases items,
{
    if items.len() == 0 {
        Seq::empty()
    } else {
        data_views_of(items.drop_last()).push(data_view(items.last()))
    }
}

/// Abstract value of a `Data`.
pub open spec fn data_view(d: Data) -> DataView
    decreases d,
{
    match d {
        Data::Folder => DataView::Folder,
        Data::Button(n) => DataView::Button(n),
        Data::Float32(bits) => DataView::Float32(bits),
        Data::Float64(bits) => DataView::Float64(bits),
        Data::Int32(v) => DataView::Int32(v),
        Data::Int64(v) => DataView::Int64(v),
        Data::UInt32(v) => DataView::UInt32(v),
        Data::UInt64(v) => DataView::UInt64(v),
        Data::Text(s) => DataView::Text(s@),
        Data::Bool(b) => DataView::Bool(b),
        Data::Tuple(arity, items) => DataView::Tuple(arity as nat, data_views_of(items@)),
        Data::List(items) => DataView::List(data_views_of(items@)),
    }
}

impl View for Data {
    type V = DataView;

    open spec fn view(&self) -> DataView {
        data_view(*self)
    }
}

impl Clone for Data {
    /// A clone has the same abstract value.
    fn clone(&self) -> (r: Self)
        ensures
            r@ == self@,
    {
        clone_data(self)
    }
}

/// Structure-preserving copy of a payload.
pub fn clone_data(d: &Data) -> (r: Data)
    ensures
        r@ == d@,
    decreases d,
{
    match d {
        Data::Folder => Data::Folder,
        Data::Button(n) => Data::Button(*n),
        Data::Float32(bits) => Data::Float32(*bits),
        Data::Float64(bits) => Data::Float64(*bits),
        Data::Int32(v) => Data::Int32(*v),
        Data::Int64(v) => Data::Int64(*v),
        Data::UInt32(v) => Data::UInt32(*v),
        Data::UInt64(v) => Data::UInt64(*v),
        Data::Text(s) => Data::Text(s.clone()),
        Data::Bool(b) => Data::Bool(*b),
        Data::Tuple(arity, items) => {
            let copy = clone_data_vec(items);
            proof {
                lemma_data_views_of_pointwise(copy@, items@);
            }
            Data::Tuple(*arity, copy)
        },
        Data::List(items) => {
            let copy = clone_data_vec(items);
            proof {
                lemma_data_views_of_pointwise(copy@, items@);
            }
            Data::List(copy)
        },
    }
}

/// Element-wise copy of a payload vector; each element keeps its abstract
/// value.
fn clone_data_vec(items: &Vec<Data>) -> (r: Vec<Data>)
    ensures
        r@.len() == items@.len(),
        forall|i: int| 0 <= i < items@.len() ==> #[trigger] r@[i]@ == items@[i]@,
    decreases items,
{
    let mut r: Vec<Data> = Vec::new();
    let mut i: usize = 0;
    while i < items.len()
        invariant
            i <= items@.len(),
            r@.len() == i,
            forall|k: int| 0 <= k < i ==> #[trigger] r@[k]@ == items@[k]@,
        decreases items@.len() - i,
    {
        r.push(clone_data(&items[i]));
        i += 1;
    }
    r
}

/// `data_views_of` maps each element to its abstract value.
pub proof fn lemma_data_views_of(items: Seq<Data>)
    ensures
        data_views_of(items).len() == items.len(),
        forall|i: int|
            0 <= i < items.len() ==> #[trigger] data_views_of(items)[i] == data_view(items[i]),
    decreases items,
{
    if items.len() > 0 {
        lemma_data_views_of(items.drop_last());
    }
}

/// Two payload sequences whose elements agree pairwise on their abstract
/// values have equal abstract values as sequences.
pub proof fn lemma_data_views_of_pointwise(a: Seq<Data>, b: Seq<Data>)
    requires
        a.len() == b.len(),
        forall|i: int| 0 <= i < b.len() ==> #[trigger] a[i]@ == b[i]@,
    ensures
        data_views_of(a) == data_views_of(b),
{
    lemma_data_views_of(a);
    lemma_data_views_of(b);
    assert forall|i: int| 0 <= i < a.len() implies data_views_of(a)[i] == data_views_of(b)[i] by {
        assert(a[i]@ == b[i]@);
        assert(data_views_of(a)[i] == data_view(a[i]));
        assert(data_views_of(b)[i] == data_view(b[i]));
    }
    assert(data_views_of(a) =~= data_views_of(b));
}

} // verus!
