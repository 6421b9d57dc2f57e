//! Network skeletons: parameter enumeration, flattened indices, shape
//! propagation, and the gradient-buffer layout.

use vstd::prelude::*;

use crate::layers::{flatten_pair, LayerShape, ParamIndex};

verus! {

/// Sum of the parameter counts of the first `k` layers.
pub open spec fn params_before(layers: Seq<LayerShape>, k: int) -> nat
    decreases k,
{
    if k <= 0 {
        0
    } else {
        params_before(layers, k - 1) + layers[k - 1].param_count()
    }
}

/// Total parameter count of the whole stack.
pub open spec fn total_params(layers: Seq<LayerShape>) -> nat {
    params_before(layers, layers.len() as int)
}

/// Whether `index` addresses an existing weight of the stack.
pub open spec fn param_in_range(layers: Seq<LayerShape>, index: ParamIndex) -> bool {
    &&& index.layer < layers.len()
    &&& index.param < layers[index.layer as int].param_count()
}

/// Flattened position of a weight: the parameters of all preceding layers
/// come first, then the weight's offset within its own layer.
pub open spec fn flat_index_spec(layers: Seq<LayerShape>, index: ParamIndex) -> nat {
    params_before(layers, index.layer as int) + index.param as nat
}

proof fn lemma_params_before_monotone(layers: Seq<LayerShape>, j: int, k: int)
    requires
        0 <= j <= k,
    ensures
        params_before(layers, j) <= params_before(layers, k),
    decreases k,
{
    if j < k {
        lemma_params_before_monotone(layers, j, k - 1);
    }
}

/// A weight's flattened index lies below the stack's total parameter count.
pub proof fn lemma_flat_index_in_range(layers: Seq<LayerShape>, index: ParamIndex)
    requires
        param_in_range(layers, index),
    ensures
        flat_index_spec(layers, index) < total_params(layers),
{
    assert(params_before(layers, index.layer as int + 1) == params_before(
        layers,
        index.layer as int,
    ) + layers[index.layer as int].param_count());
    lemma_params_before_monotone(layers, index.layer as int + 1, layers.len() as int);
}

/// Distinct weights have distinct flattened indices: the flattening is
/// injective on in-range parameter addresses.
pub proof fn lemma_flat_index_injective(layers: Seq<LayerShape>, p: ParamIndex, q: ParamIndex)
    requires
        param_in_range(layers, p),
        param_in_range(layers, q),
        flat_index_spec(layers, p) == flat_index_spec(layers, q),
    ensures
        p == q,
{
    if p.layer < q.layer {
        assert(params_before(layers, p.layer as int + 1) == params_before(layers, p.layer as int)
            + layers[p.layer as int].param_count());
        lemma_params_before_monotone(layers, p.layer as int + 1, q.layer as int);
    } else if q.layer < p.layer {
        assert(params_before(layers, q.layer as int + 1) == params_before(layers, q.layer as int)
            + layers[q.layer as int].param_count());
        lemma_params_before_monotone(layers, q.layer as int + 1, p.layer as int);
    }
}

/// The flattening respects (layer, within-layer) order: one weight comes
/// before another in the flattened order exactly when its layer comes
/// earlier, or both share a layer and its within-layer offset is smaller.
pub proof fn lemma_flat_index_ordered(layers: Seq<LayerShape>, p: ParamIndex, q: ParamIndex)
    requires
        param_in_range(layers, p),
        param_in_range(layers, q),
    ensures
        flat_index_spec(layers, p) < flat_index_spec(layers, q) <==> (p.layer < q.layer || (
        p.layer == q.layer && p.param < q.param)),
{
    if p.layer < q.layer {
        assert(params_before(layers, p.layer as int + 1) == params_before(layers, p.layer as int)
            + layers[p.layer as int].param_count());
        lemma_params_before_monotone(layers, p.layer as int + 1, q.layer as int);
    } else if q.layer < p.layer {
        assert(params_before(layers, q.layer as int + 1) == params_before(layers, q.layer as int)
            + layers[q.layer as int].param_count());
        lemma_params_before_monotone(layers, q.layer as int + 1, p.layer as int);
    }
}

/// Any sequence that places, at every position `i` below the total count, an
/// in-range weight whose flattened index is `i` lists every weight of the
/// stack exactly once: the enumeration is a bijection between parameter
/// addresses and the flattened indices `0 .. total_params`.
pub proof fn lemma_param_enumeration_complete(
    layers: Seq<LayerShape>,
    s: Seq<ParamIndex>,
    p: ParamIndex,
)
    requires
        s.len() == total_params(layers),
        forall|i: int|
            0 <= i < s.len() ==> param_in_range(layers, #[trigger] s[i]) && flat_index_spec(
                layers,
                s[i],
            ) == i,
        param_in_range(layers, p),
    ensures
        flat_index_spec(layers, p) < s.len(),
        s[flat_index_spec(layers, p) as int] == p,
{
    lemma_flat_index_in_range(layers, p);
    let i = flat_index_spec(layers, p) as int;
    lemma_flat_index_injective(layers, s[i], p);
}

/// Width of the row after the first `k` layers have been applied to an input
/// row of width `input_len`.
pub open spec fn width_after(layers: Seq<LayerShape>, input_len: nat, k: int) -> nat
    decreases k,
{
    if k <= 0 {
        input_len
    } else {
        layers[k - 1].output_width(width_after(layers, input_len, k - 1))
    }
}

/// Whether each of the first `k` layers accepts the row width the layers
/// before it produce.
pub open spec fn widths_ok_upto(layers: Seq<LayerShape>, input_len: nat, k: int) -> bool
    decreases k,
{
    k <= 0 || (widths_ok_upto(layers, input_len, k - 1) && layers[k - 1].accepts(
        width_after(layers, input_len, k - 1),
    ))
}

/// Whether an input row of width `input_len` flows through the whole stack.
pub open spec fn shape_ok(layers: Seq<LayerShape>, input_len: nat) -> bool {
    widths_ok_upto(layers, input_len, layers.len() as int)
}

/// Width of the stack's output row for an input row of width `input_len`.
pub open spec fn network_output_width(layers: Seq<LayerShape>, input_len: nat) -> nat {
    width_after(layers, input_len, layers.len() as int)
}

proof fn lemma_widths_ok_prefix(layers: Seq<LayerShape>, input_len: nat, j: int, k: int)
    requires
        0 <= j <= k,
        widths_ok_upto(layers, input_len, k),
    ensures
        widths_ok_upto(layers, input_len, j),
    decreases k,
{
    if j < k {
        lemma_widths_ok_prefix(layers, input_len, j, k - 1);
    }
}

/// The structural skeleton of a network: the ordered layer shapes together
/// with the derived total parameter count.
pub struct NetworkShape {
    pub layers: Vec<LayerShape>,
    pub num_params: usize,
}

impl NetworkShape {
    /// The cached total matches the layer shapes.
    pub open spec fn wf(self) -> bool {
        self.num_params == total_params(self.layers@)
    }

    /// Builds the skeleton and derives the total parameter count, refusing a
    /// stack whose total does not fit in `usize`.
    pub fn from_layers(layers: Vec<LayerShape>) -> (r: Option<NetworkShape>)
        ensures
            r is Some <==> total_params(layers@) <= usize::MAX,
            r matches Some(n) ==> n.wf() && n.layers@ == layers@,
    {
        let mut total: usize = 0;
        let mut i: usize = 0;
        while i < layers.len()
            invariant
                i <= layers.len(),
                total == params_before(layers@, i as int),
            decreases layers.len() - i,
        {
            proof {
                assert(params_before(layers@, i as int + 1) == params_before(layers@, i as int)
                    + layers@[i as int].param_count());
            }
            let count = match layers[i].checked_param_count() {
                Some(c) => c,
                None => {
                    proof {
                        lemma_params_before_monotone(layers@, i as int + 1, layers@.len() as int);
                    }
                    return None;
                },
            };
            total = match total.checked_add(count) {
                Some(t) => t,
                None => {
                    proof {
                        lemma_params_before_monotone(layers@, i as int + 1, layers@.len() as int);
                    }
                    return None;
                },
            };
            i = i + 1;
        }
        Some(NetworkShape { layers, num_params: total })
    }

    /// Whether `index` addresses an existing weight of this network.
    pub fn param_valid(&self, index: ParamIndex) -> (b: bool)
        requires
            self.wf(),
        ensures
            b == param_in_range(self.layers@, index),
    {
        if index.layer < self.layers.len() {
            proof {
                assert(params_before(self.layers@, index.layer as int + 1) == params_before(
                    self.layers@,
                    index.layer as int,
                ) + self.layers@[index.layer as int].param_count());
                lemma_params_before_monotone(
                    self.layers@,
                    index.layer as int + 1,
                    self.layers@.len() as int,
                );
            }
            index.param < self.layers[index.layer].num_params()
        } else {
            false
        }
    }

    /// Flattened index of the weight addressed by `index`: the parameters of
    /// all preceding layers come first, then the offset within its layer.
    pub fn flat_index(&self, index: ParamIndex) -> (f: usize)
        requires
            self.wf(),
            param_in_range(self.layers@, index),
        ensures
            f == flat_index_spec(self.layers@, index),
            f < self.num_params,
    {
        proof {
            lemma_flat_index_in_range(self.layers@, index);
        }
        let mut flattened: usize = index.param;
        let mut i: usize = 0;
        while i < index.layer
            invariant
                self.wf(),
                param_in_range(self.layers@, index),
                i <= index.layer,
                flattened == index.param + params_before(self.layers@, i as int),
            decreases index.layer - i,
        {
            proof {
                assert(params_before(self.layers@, i as int + 1) == params_before(
                    self.layers@,
                    i as int,
                ) + self.layers@[i as int].param_count());
                lemma_params_before_monotone(self.layers@, i as int + 1, index.layer as int);
                lemma_flat_index_in_range(self.layers@, index);
            }
            flattened = flattened + self.layers[i].num_params();
            i = i + 1;
        }
        flattened
    }

    /// Every weight's address, in increasing flattened-index order. Together
    /// with [`lemma_flat_index_injective`] and
    /// [`lemma_param_enumeration_complete`] this enumeration is a bijection
    /// between parameter addresses and the indices `0 .. num_params`.
    pub fn param_iter(&self) -> (v: Vec<ParamIndex>)
        requires
            self.wf(),
        ensures
            v@.len() == self.num_params,
            forall|i: int|
                0 <= i < v@.len() ==> param_in_range(self.layers@, #[trigger] v@[i])
                    && flat_index_spec(self.layers@, v@[i]) == i,
    {
        let mut v: Vec<ParamIndex> = Vec::new();
        let mut l: usize = 0;
        while l < self.layers.len()
            invariant
                self.wf(),
                l <= self.layers.len(),
                v@.len() == params_before(self.layers@, l as int),
                forall|i: int|
                    0 <= i < v@.len() ==> param_in_range(self.layers@, #[trigger] v@[i])
                        && flat_index_spec(self.layers@, v@[i]) == i,
            decreases self.layers.len() - l,
        {
            proof {
                assert(params_before(self.layers@, l as int + 1) == params_before(
                    self.layers@,
                    l as int,
                ) + self.layers@[l as int].param_count());
                lemma_params_before_monotone(self.layers@, l as int + 1, self.layers@.len() as int);
            }
            let count = self.layers[l].num_params();
            let mut j: usize = 0;
            while j < count
                invariant
                    self.wf(),
                    l < self.layers@.len(),
                    count == self.layers@[l as int].param_count(),
                    j <= count,
                    v@.len() == params_before(self.layers@, l as int) + j,
                    forall|i: int|
                        0 <= i < v@.len() ==> param_in_range(self.layers@, #[trigger] v@[i])
                            && flat_index_spec(self.layers@, v@[i]) == i,
                decreases count - j,
            {
                v.push(ParamIndex { layer: l, param: j });
                j = j + 1;
            }
            l = l + 1;
        }
        v
    }

    /// Width of the network's output row for an input row of width
    /// `input_len`, or `None` when some layer rejects the width handed to it
    /// (a shape violation, which callers must treat as fatal).
    pub fn output_len(&self, input_len: usize) -> (r: Option<usize>)
        ensures
            r is Some <==> shape_ok(self.layers@, input_len as nat),
            r matches Some(n) ==> n == network_output_width(self.layers@, input_len as nat),
    {
        let mut cur: usize = input_len;
        let mut i: usize = 0;
        while i < self.layers.len()
            invariant
                i <= self.layers.len(),
                widths_ok_upto(self.layers@, input_len as nat, i as int),
                cur == width_after(self.layers@, input_len as nat, i as int),
            decreases self.layers.len() - i,
        {
            match self.layers[i] {
                LayerShape::Linear { in_size, out_size } => {
                    if cur != in_size {
                        proof {
                            if shape_ok(self.layers@, input_len as nat) {
                                lemma_widths_ok_prefix(
                                    self.layers@,
                                    input_len as nat,
                                    i as int + 1,
                                    self.layers@.len() as int,
                                );
                            }
                        }
                        return None;
                    }
                    cur = out_size;
                },
                LayerShape::Sigmoid => {},
            }
            i = i + 1;
        }
        Some(cur)
    }

    /// Length of the gradient buffer for this network and an output row of
    /// width `out_dim`: one row of `out_dim` cells per trainable parameter.
    /// `None` when that length does not fit in `usize`.
    pub fn grad_buffer_len(&self, out_dim: usize) -> (r: Option<usize>)
        requires
            self.wf(),
        ensures
            r is Some <==> self.num_params * out_dim <= usize::MAX,
            r matches Some(n) ==> n == self.num_params * out_dim,
    {
        self.num_params.checked_mul(out_dim)
    }
}

/// The active-parameter offset handed to layer `i` during a forward pass
/// that tracks the weight addressed by `active`: the weight's within-layer
/// offset at the layer that owns it, nothing at every other layer. So for
/// any one pass, at most one layer of the stack receives an active
/// parameter.
pub fn active_for_layer(i: usize, active: Option<ParamIndex>) -> (r: Option<usize>)
    ensures
        r is Some <==> (active matches Some(p) && p.layer == i),
        r matches Some(j) ==> (active matches Some(p) && j == p.param),
{
    match active {
        Some(p) if p.layer == i => Some(p.param),
        _ => None,
    }
}

/// Start, in the flat gradient buffer, of the row that holds the derivative
/// of every output component with respect to the weight with flattened index
/// `flat`; rows are `out_dim` cells wide, so the cell for output component
/// `j` is `flatten_pair(flat, out_dim, j)`, which is `start + j`. `None` when
/// the start does not fit in `usize`.
pub fn grad_row_start(flat: usize, out_dim: usize) -> (r: Option<usize>)
    ensures
        r is Some <==> flat * out_dim <= usize::MAX,
        r matches Some(k) ==> k == flatten_pair(flat as nat, out_dim as nat, 0),
{
    flat.checked_mul(out_dim)
}

/// A gradient row lies inside the buffer: with `total` parameters and rows of
/// width `out_dim`, the row of the weight with flattened index `flat` ends at
/// or before the buffer's end.
pub proof fn lemma_grad_row_in_buffer(flat: nat, total: nat, out_dim: nat)
    requires
        flat < total,
    ensures
        flatten_pair(flat, out_dim, 0) + out_dim <= total * out_dim,
{
    assert(flat * out_dim + out_dim <= total * out_dim) by (nonlinear_arith)
        requires
            flat < total,
    ;
}

} // verus!

