//! The parametric curve capability.
//!
//! A shape is sampled at a normalized position `t` (millionths of one full
//! trace) and yields an XY point of the unit square.  Sampling is a pure,
//! total function of the shape and the parameter: out-of-range parameters
//! are wrapped (for closed shapes) or clamped (for open ones), never
//! rejected.

use vstd::prelude::*;

use crate::buffer::XYSample;
use crate::fx::{div_tz, Fx, FX_ONE};

verus! {

/// Whether a sampled point lies within the unit square.
pub open spec fn sample_in_unit_square(p: (int, int)) -> bool {
    -FX_ONE <= p.0 <= FX_ONE && -FX_ONE <= p.1 <= FX_ONE
}

/// A shape that can be traced as an oscilloscope curve.
///
/// `t = 0` is the start of the outline, `t = FX_ONE` its end (closed shapes
/// wrap back to the start).  Coordinates range over the unit square with
/// the origin at the centre.
pub trait Shape: Sized {
    /// The point this shape yields at a parameter, as a pure function of
    /// the shape and the parameter.
    spec fn sample_spec(&self, t: int) -> (int, int);

    /// Whether the shape's parameters confine its outline to the unit
    /// square.
    spec fn in_unit_square(&self) -> bool;

    /// The display name of the shape.
    spec fn name_spec(&self) -> Seq<char>;

    /// The length hint of the shape.
    spec fn length_spec(&self) -> int;

    /// Whether the end of the outline connects back to its start.
    spec fn closed_spec(&self) -> bool;

    /// Sample the shape at parameter `t`.
    fn sample(&self, t: Fx) -> (r: (Fx, Fx))
        ensures
            r.0 as int == self.sample_spec(t as int).0,
            r.1 as int == self.sample_spec(t as int).1,
    ;

    /// The name of this shape (for display).
    fn name(&self) -> (r: &str)
        ensures
            r@ == self.name_spec(),
    ;

    /// The approximate length of the outline, a sampling-density hint.
    fn length(&self) -> (r: Fx)
        ensures
            r as int == self.length_spec(),
    ;

    /// Whether this shape is closed.
    fn is_closed(&self) -> (r: bool)
        ensures
            r == self.closed_spec(),
    ;

    /// A shape confined to the unit square samples within the unit square,
    /// at every parameter.
    proof fn lemma_sample_in_unit_square(&self, t: int)
        requires
            self.in_unit_square(),
        ensures
            sample_in_unit_square(self.sample_spec(t)),
    ;
}

/// One concrete shape of any kind, for collections that mix them: the
/// polymorphic curve capability as a tagged union with match dispatch.
pub enum AnyShape {
    Circle(crate::primitives::Circle),
    Line(crate::primitives::Line),
    Rectangle(crate::primitives::Rectangle),
    Polygon(crate::primitives::Polygon),
    Path(crate::path::Path),
}

impl Shape for AnyShape {
    open spec fn sample_spec(&self, t: int) -> (int, int) {
        match self {
            AnyShape::Circle(s) => s.sample_spec(t),
            AnyShape::Line(s) => s.sample_spec(t),
            AnyShape::Rectangle(s) => s.sample_spec(t),
            AnyShape::Polygon(s) => s.sample_spec(t),
            AnyShape::Path(s) => s.sample_spec(t),
        }
    }

    open spec fn in_unit_square(&self) -> bool {
        match self {
            AnyShape::Circle(s) => s.in_unit_square(),
            AnyShape::Line(s) => s.in_unit_square(),
            AnyShape::Rectangle(s) => s.in_unit_square(),
            AnyShape::Polygon(s) => s.in_unit_square(),
            AnyShape::Path(s) => s.in_unit_square(),
        }
    }

    open spec fn name_spec(&self) -> Seq<char> {
        match self {
            AnyShape::Circle(s) => s.name_spec(),
            AnyShape::Line(s) => s.name_spec(),
            AnyShape::Rectangle(s) => s.name_spec(),
            AnyShape::Polygon(s) => s.name_spec(),
            AnyShape::Path(s) => s.name_spec(),
        }
    }

    open spec fn length_spec(&self) -> int {
        match self {
            AnyShape::Circle(s) => s.length_spec(),
            AnyShape::Line(s) => s.length_spec(),
            AnyShape::Rectangle(s) => s.length_spec(),
            AnyShape::Polygon(s) => s.length_spec(),
            AnyShape::Path(s) => s.length_spec(),
        }
    }

    open spec fn closed_spec(&self) -> bool {
        match self {
            AnyShape::Circle(s) => s.closed_spec(),
            AnyShape::Line(s) => s.closed_spec(),
            AnyShape::Rectangle(s) => s.closed_spec(),
            AnyShape::Polygon(s) => s.closed_spec(),
            AnyShape::Path(s) => s.closed_spec(),
        }
    }

    fn sample(&self, t: Fx) -> (r: (Fx, Fx)) {
        match self {
            AnyShape::Circle(s) => s.sample(t),
            AnyShape::Line(s) => s.sample(t),
            AnyShape::Rectangle(s) => s.sample(t),
            AnyShape::Polygon(s) => s.sample(t),
            AnyShape::Path(s) => s.sample(t),
        }
    }

    fn name(&self) -> (r: &str) {
        match self {
            AnyShape::Circle(s) => s.name(),
            AnyShape::Line(s) => s.name(),
            AnyShape::Rectangle(s) => s.name(),
            AnyShape::Polygon(s) => s.name(),
            AnyShape::Path(s) => s.name(),
        }
    }

    fn length(&self) -> (r: Fx) {
        match self {
            AnyShape::Circle(s) => s.length(),
            AnyShape::Line(s) => s.length(),
            AnyShape::Rectangle(s) => s.length(),
            AnyShape::Polygon(s) => s.length(),
            AnyShape::Path(s) => s.length(),
        }
    }

    fn is_closed(&self) -> (r: bool) {
        match self {
            AnyShape::Circle(s) => s.is_closed(),
            AnyShape::Line(s) => s.is_closed(),
            AnyShape::Rectangle(s) => s.is_closed(),
            AnyShape::Polygon(s) => s.is_closed(),
            AnyShape::Path(s) => s.is_closed(),
        }
    }

    proof fn lemma_sample_in_unit_square(&self, t: int) {
        match self {
            AnyShape::Circle(s) => s.lemma_sample_in_unit_square(t),
            AnyShape::Line(s) => s.lemma_sample_in_unit_square(t),
            AnyShape::Rectangle(s) => s.lemma_sample_in_unit_square(t),
            AnyShape::Polygon(s) => s.lemma_sample_in_unit_square(t),
            AnyShape::Path(s) => s.lemma_sample_in_unit_square(t),
        }
    }
}

/// The parameter handed to a shape for sample `i` of `n`: `i/n` of a trace.
pub open spec fn sample_param_spec(i: int, n: int) -> int {
    div_tz(i * FX_ONE, n)
}

/// Convert a shape to a vector of XY samples: the shape evaluated at `n`
/// evenly spaced parameters from `0` (inclusive) to one trace (exclusive).
pub fn shape_to_samples<S: Shape>(shape: &S, num_samples: usize) -> (r: Vec<XYSample>)
    ensures
        r@.len() == num_samples,
        forall|i: int|
            0 <= i < num_samples ==> {
                let p = shape.sample_spec(sample_param_spec(i, num_samples as int));
                #[trigger] r@[i] == (XYSample { x: p.0 as i64, y: p.1 as i64 })
            },
{
    let mut samples: Vec<XYSample> = Vec::new();
    let mut i: usize = 0;
    while i < num_samples
        invariant
            i <= num_samples,
            samples@.len() == i,
            forall|j: int|
                0 <= j < i ==> {
                    let p = shape.sample_spec(sample_param_spec(j, num_samples as int));
                    #[trigger] samples@[j] == (XYSample { x: p.0 as i64, y: p.1 as i64 })
                },
        decreases num_samples - i,
    {
        assert(0 <= i as int * FX_ONE as int <= num_samples as int * FX_ONE as int
            && num_samples as int * FX_ONE as int <= 18446744073709551615000000int)
            by (nonlinear_arith)
            requires
                0 <= i as int <= num_samples as int,
                num_samples as int <= 18446744073709551615int,
        ;
        let wide: i128 = (i as i128) * (FX_ONE as i128);
        proof {
            vstd::arithmetic::div_mod::lemma_div_pos_is_pos(wide as int, num_samples as int);
            vstd::arithmetic::div_mod::lemma_div_is_ordered(wide as int,
                num_samples as int * FX_ONE as int, num_samples as int);
            vstd::arithmetic::div_mod::lemma_div_multiples_vanish(FX_ONE as int,
                num_samples as int);
        }
        let t: Fx = (wide / (num_samples as i128)) as i64;
        let p: (Fx, Fx) = shape.sample(t);
        samples.push(XYSample { x: p.0, y: p.1 });
        i = i + 1;
    }
    samples
}

} // verus!
