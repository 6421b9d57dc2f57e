//! Layer shapes, parameter addresses, and the row-major weight layout.

use vstd::prelude::*;

verus! {

/// Address of one trainable weight: the layer that owns it and the offset
/// within that layer's flat parameter vector.
#[derive(Clone, Copy, Debug, PartialEq, Eq, Structural)]
pub struct ParamIndex {
    pub layer: usize,
    pub param: usize,
}

/// The shape of one layer: everything needed to count its parameters and to
/// propagate row widths, with the numeric weights themselves held elsewhere.
#[derive(Clone, Copy, Debug, PartialEq, Eq, Structural)]
pub enum LayerShape {
    /// Affine transform from `in_size` inputs to `out_size` outputs, owning a
    /// row-major weight matrix of `in_size * out_size` entries (no bias).
    Linear { in_size: usize, out_size: usize },
    /// Pointwise logistic nonlinearity; owns no parameters.
    Sigmoid,
}

impl LayerShape {
    /// How many trainable parameters the layer owns.
    pub open spec fn param_count(self) -> nat {
        match self {
            LayerShape::Linear { in_size, out_size } => (in_size * out_size) as nat,
            LayerShape::Sigmoid => 0,
        }
    }

    /// Whether the parameter count fits the machine word.
    pub open spec fn fits(self) -> bool {
        self.param_count() <= usize::MAX
    }

    /// Whether the layer accepts an input row of the given width.
    pub open spec fn accepts(self, input_len: nat) -> bool {
        match self {
            LayerShape::Linear { in_size, .. } => input_len == in_size,
            LayerShape::Sigmoid => true,
        }
    }

    /// Width of the row the layer produces from an input row of the given width.
    pub open spec fn output_width(self, input_len: nat) -> nat {
        match self {
            LayerShape::Linear { out_size, .. } => out_size as nat,
            LayerShape::Sigmoid => input_len,
        }
    }

    /// The layer's parameter count.
    pub fn num_params(&self) -> (n: usize)
        requires
            self.fits(),
        ensures
            n == self.param_count(),
    {
        match *self {
            LayerShape::Linear { in_size, out_size } => in_size * out_size,
            LayerShape::Sigmoid => 0,
        }
    }

    /// The layer's parameter count, or `None` when it does not fit in `usize`.
    pub fn checked_param_count(&self) -> (r: Option<usize>)
        ensures
            r is Some <==> self.fits(),
            r matches Some(n) ==> n == self.param_count(),
    {
        match *self {
            LayerShape::Linear { in_size, out_size } => in_size.checked_mul(out_size),
            LayerShape::Sigmoid => Some(0),
        }
    }
}

/// Pointwise logistic activation layer; owns no trainable parameters, so it
/// never carries an active parameter and contributes nothing to the
/// flattened-index enumeration.
pub struct Sigmoid {}

impl Sigmoid {
    /// A sigmoid layer owns no parameters.
    pub fn num_params(&self) -> (n: usize)
        ensures
            n == 0,
    {
        0
    }

    /// The shape of a sigmoid layer.
    pub fn shape(&self) -> (s: LayerShape)
        ensures
            s == LayerShape::Sigmoid,
    {
        LayerShape::Sigmoid
    }
}

/// Cell holding the pair `(row, col)` in a row-major flattening whose rows
/// are `width` cells wide.
pub open spec fn flatten_pair(row: nat, width: nat, col: nat) -> nat {
    row * width + col
}

/// Row-major flattening is injective: two pairs with in-range columns that
/// land in the same cell are the same pair. This is what lets a single
/// flat scalar index stand for a (row, column) address, both in a linear
/// layer's weight matrix and in the gradient buffer.
pub proof fn lemma_flatten_pair_injective(r1: nat, c1: nat, r2: nat, c2: nat, width: nat)
    requires
        c1 < width,
        c2 < width,
        flatten_pair(r1, width, c1) == flatten_pair(r2, width, c2),
    ensures
        r1 == r2,
        c1 == c2,
{
    assert(r1 == r2 && c1 == c2) by (nonlinear_arith)
        requires
            c1 < width,
            c2 < width,
            r1 * width + c1 == r2 * width + c2,
    ;
}

/// Each cell of a row-major flattening with positive width is the cell of
/// exactly one pair: row `k / width` and column `k % width`. Together with
/// [`lemma_flatten_pair_injective`] this makes a flat cell index and a
/// (row, column) pair interchangeable addresses, so a test against one flat
/// active-parameter index picks out at most one weight of a linear layer
/// per forward pass.
pub proof fn lemma_flatten_pair_inverse(width: nat, height: nat, k: nat)
    requires
        0 < width,
        k < width * height,
    ensures
        k / width < height,
        k % width < width,
        flatten_pair(k / width, width, k % width) == k,
{
    assert((k / width) * width + k % width == k && k / width < height && k % width < width)
        by (nonlinear_arith)
        requires
            0 < width,
            k < width * height,
    ;
}

/// Position, in a linear layer's flat weight vector, of the weight that
/// multiplies input component `i` in the sum for output column `column`.
pub fn weight_cell(in_size: usize, out_size: usize, column: usize, i: usize) -> (k: usize)
    requires
        column < out_size,
        i < in_size,
        in_size * out_size <= usize::MAX,
    ensures
        k == flatten_pair(column as nat, in_size as nat, i as nat),
        k < in_size * out_size,
{
    proof {
        assert(column * in_size + i < in_size * out_size) by (nonlinear_arith)
            requires
                column < out_size,
                i < in_size,
        ;
    }
    column * in_size + i
}

} // verus!
