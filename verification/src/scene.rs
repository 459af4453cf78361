//! Scene composition: several shapes share one trace.
//!
//! Each enabled shape is allocated a slice of the trace proportional to its
//! weight.  Sampling routes the parameter to the shape whose slice contains
//! it, remapped linearly to that shape's own full trace.

use vstd::prelude::*;

use crate::fx::{div_tz, fx_add, fx_add_spec, fx_mul, fx_mul_spec, fx_wrap, Fx, FX_ONE};
use crate::shapes::{AnyShape, Shape};

verus! {

/// The weight below which a scene entry is never allowed to fall.
pub const MIN_WEIGHT: i64 = 100_000;

/// A shape entry in the scene with its configuration.
pub struct SceneShape {
    /// The shape.
    shape: AnyShape,
    /// Weight for time allocation (higher = more time).
    weight: Fx,
    /// Whether this shape is enabled.
    enabled: bool,
}

impl SceneShape {
    /// The shape of this entry.
    pub closed spec fn shape_view(&self) -> AnyShape {
        self.shape
    }

    /// The weight of this entry.
    pub closed spec fn weight_spec(&self) -> int {
        self.weight as int
    }

    /// Whether this entry is enabled.
    pub closed spec fn enabled_spec(&self) -> bool {
        self.enabled
    }

    /// Create a new scene entry with unit weight.
    pub fn new(shape: AnyShape) -> (r: Self)
        ensures
            r.shape_view() == shape,
            r.weight_spec() == FX_ONE,
            r.enabled_spec(),
    {
        SceneShape { shape, weight: FX_ONE, enabled: true }
    }

    /// Create a scene entry with a specific weight.
    ///
    /// The weight is clamped to the minimum already at construction, the
    /// same discipline `set_weight` enforces, so no entry can ever carry a
    /// degenerate or negative share of the trace.
    pub fn with_weight(shape: AnyShape, weight: Fx) -> (r: Self)
        ensures
            r.shape_view() == shape,
            r.weight_spec() == clamp_weight_spec(weight as int),
            r.enabled_spec(),
    {
        let w: Fx = if weight < MIN_WEIGHT {
            MIN_WEIGHT
        } else {
            weight
        };
        SceneShape { shape, weight: w, enabled: true }
    }

    /// Get the shape's name.
    pub fn name(&self) -> (r: &str)
        ensures
            r@ == self.shape_view().name_spec(),
    {
        self.shape.name()
    }

    /// Get the weight.
    pub fn weight(&self) -> (r: Fx)
        ensures
            r == self.weight_spec(),
    {
        self.weight
    }

    /// Set the weight, clamped to the minimum.
    pub fn set_weight(&mut self, weight: Fx)
        ensures
            final(self).weight_spec() == clamp_weight_spec(weight as int),
            final(self).shape_view() == old(self).shape_view(),
            final(self).enabled_spec() == old(self).enabled_spec(),
    {
        self.weight = if weight < MIN_WEIGHT {
            MIN_WEIGHT
        } else {
            weight
        };
    }

    /// Check if enabled.
    pub fn is_enabled(&self) -> (r: bool)
        ensures
            r == self.enabled_spec(),
    {
        self.enabled
    }

    /// Toggle enabled state.
    pub fn set_enabled(&mut self, enabled: bool)
        ensures
            final(self).enabled_spec() == enabled,
            final(self).shape_view() == old(self).shape_view(),
            final(self).weight_spec() == old(self).weight_spec(),
    {
        self.enabled = enabled;
    }
}

/// A weight clamped to the minimum.
pub open spec fn clamp_weight_spec(w: int) -> int {
    if w < MIN_WEIGHT {
        MIN_WEIGHT as int
    } else {
        w
    }
}

/// Total weight of the enabled entries.
pub open spec fn enabled_weight_sum(shapes: Seq<SceneShape>) -> int
    decreases shapes.len(),
{
    if shapes.len() == 0 {
        0
    } else {
        enabled_weight_sum(shapes.drop_last()) + if shapes.last().enabled_spec() {
            shapes.last().weight_spec()
        } else {
            0
        }
    }
}

/// The parameter within a slice `[s, e)`, remapped to a full trace.
pub open spec fn remap_spec(t: int, s: int, e: int) -> int {
    div_tz((t - s) * FX_ONE, e - s)
}

/// The first boundary whose slice contains `t`, as the index of its shape
/// and the remapped local parameter.
pub open spec fn find_boundary_spec(bs: Seq<(i64, i64, usize)>, t: int) -> Option<(int, int)>
    decreases bs.len(),
{
    if bs.len() == 0 {
        None
    } else if bs[0].0 <= t < bs[0].1 {
        Some((bs[0].2 as int, remap_spec(t, bs[0].0 as int, bs[0].1 as int)))
    } else {
        find_boundary_spec(bs.drop_first(), t)
    }
}

/// What every stored boundary list satisfies: slices chain from zero,
/// stay within one trace, point at enabled shapes, and each slice's width
/// is its shape's weight as a share of the total enabled weight.
pub open spec fn boundaries_wf(shapes: Seq<SceneShape>, bs: Seq<(i64, i64, usize)>) -> bool {
    &&& (forall|k: int|
        0 <= k < bs.len() ==> {
            let b = #[trigger] bs[k];
            &&& 0 <= b.0 <= b.1 <= FX_ONE
            &&& (b.2 as int) < shapes.len()
            &&& shapes[b.2 as int].enabled_spec()
            &&& b.1 - b.0 == div_tz(
                shapes[b.2 as int].weight_spec() * FX_ONE,
                enabled_weight_sum(shapes),
            )
        })
    &&& (forall|k: int| 0 <= k < bs.len() - 1 ==> (#[trigger] bs[k + 1]).0 == bs[k].1)
    &&& (bs.len() > 0 ==> bs[0].0 == 0)
}

/// The boundary prefix the first `k` entries determine, given the total
/// enabled weight: walking the entries in order, each enabled one appends
/// a slice of width `weight * FX_ONE / total`, starting where the previous
/// slice ended (the first at zero).
pub open spec fn canonical_boundaries_prefix(
    shapes: Seq<SceneShape>,
    total: int,
    k: int,
) -> Seq<(i64, i64, usize)>
    decreases k,
{
    if k <= 0 {
        Seq::empty()
    } else {
        let prev = canonical_boundaries_prefix(shapes, total, k - 1);
        if shapes[k - 1].enabled_spec() {
            let start: int = if prev.len() == 0 {
                0
            } else {
                prev.last().1 as int
            };
            let width = div_tz(shapes[k - 1].weight_spec() * FX_ONE, total);
            prev.push((start as i64, (start + width) as i64, (k - 1) as usize))
        } else {
            prev
        }
    }
}

/// The one boundary list a shape list determines: one slice per enabled
/// entry, in list order, chained from zero, each slice's width its
/// weight's share of the total enabled weight (truncated to millionths,
/// so the last slice ends at the truncated sum, not exactly at one);
/// empty when no entry is enabled.
pub open spec fn canonical_boundaries(shapes: Seq<SceneShape>) -> Seq<(i64, i64, usize)> {
    if enabled_weight_sum(shapes) <= 0 {
        Seq::empty()
    } else {
        canonical_boundaries_prefix(shapes, enabled_weight_sum(shapes), shapes.len() as int)
    }
}

/// Total length hint of the enabled entries: each shape's length times its
/// weight, summed.
pub open spec fn scene_length_sum(shapes: Seq<SceneShape>) -> int
    decreases shapes.len(),
{
    if shapes.len() == 0 {
        0
    } else {
        fx_add_spec(
            scene_length_sum(shapes.drop_last()),
            if shapes.last().enabled_spec() {
                fx_mul_spec(shapes.last().shape_view().length_spec(), shapes.last().weight_spec())
            } else {
                0
            },
        )
    }
}

/// Whether all enabled entries are closed.
pub open spec fn scene_all_closed(shapes: Seq<SceneShape>) -> bool {
    forall|i: int|
        0 <= i < shapes.len() && (#[trigger] shapes[i]).enabled_spec()
            ==> shapes[i].shape_view().closed_spec()
}

/// A scene containing multiple shapes, each drawn for a share of the trace
/// proportional to its weight.
pub struct Scene {
    /// Shapes in the scene.
    shapes: Vec<SceneShape>,
    /// Cached slice boundaries for each enabled shape: start, end, index.
    boundaries: Vec<(Fx, Fx, usize)>,
    /// Name of the scene.
    name: String,
}

impl Scene {
    /// The entries of the scene.
    pub closed spec fn shapes_view(&self) -> Seq<SceneShape> {
        self.shapes@
    }

    /// The cached slice boundaries.
    pub closed spec fn boundaries_view(&self) -> Seq<(i64, i64, usize)> {
        self.boundaries@
    }

    /// The scene's structural invariant: the stored boundary list is
    /// exactly the canonical one (one slice per enabled entry, in list
    /// order, chained from zero, widths the weights' shares of the total),
    /// it satisfies the per-slice bounds, and every weight is at least the
    /// minimum.
    pub open spec fn well_formed(&self) -> bool {
        &&& self.boundaries_view() == canonical_boundaries(self.shapes_view())
        &&& boundaries_wf(self.shapes_view(), self.boundaries_view())
        &&& self.shapes_view().len() <= 1_000_000
        &&& (forall|i: int|
            0 <= i < self.shapes_view().len() ==> (#[trigger] self.shapes_view()[i]).weight_spec()
                >= MIN_WEIGHT)
    }

    /// Create an empty scene.
    pub fn new(name: String) -> (r: Self)
        ensures
            r.shapes_view().len() == 0,
            r.name_spec() == name@,
            r.well_formed(),
    {
        Scene { shapes: Vec::new(), boundaries: Vec::new(), name }
    }

    /// Add a shape to the scene with unit weight.
    pub fn add(&mut self, shape: AnyShape)
        requires
            old(self).well_formed(),
            old(self).shapes_view().len() < 1_000_000,
        ensures
            final(self).well_formed(),
            final(self).shapes_view().len() == old(self).shapes_view().len() + 1,
            final(self).shapes_view().last().shape_view() == shape,
            final(self).shapes_view().last().weight_spec() == FX_ONE,
            final(self).shapes_view().last().enabled_spec(),
            final(self).shapes_view().drop_last() == old(self).shapes_view(),
            final(self).name_spec() == old(self).name_spec(),
    {
        self.shapes.push(SceneShape::new(shape));
        self.recompute_boundaries();
    }

    /// Add a shape with a specific weight (clamped to the minimum).
    pub fn add_weighted(&mut self, shape: AnyShape, weight: Fx)
        requires
            old(self).well_formed(),
            old(self).shapes_view().len() < 1_000_000,
        ensures
            final(self).well_formed(),
            final(self).shapes_view().len() == old(self).shapes_view().len() + 1,
            final(self).shapes_view().last().shape_view() == shape,
            final(self).shapes_view().last().weight_spec() == clamp_weight_spec(weight as int),
            final(self).shapes_view().last().enabled_spec(),
            final(self).shapes_view().drop_last() == old(self).shapes_view(),
            final(self).name_spec() == old(self).name_spec(),
    {
        self.shapes.push(SceneShape::with_weight(shape, weight));
        self.recompute_boundaries();
    }

    /// Remove a shape by index; out-of-range indices remove nothing.
    pub fn remove(&mut self, index: usize) -> (r: Option<SceneShape>)
        requires
            old(self).well_formed(),
        ensures
            final(self).well_formed(),
            final(self).name_spec() == old(self).name_spec(),
            index < old(self).shapes_view().len() ==> {
                &&& final(self).shapes_view() == old(self).shapes_view().remove(index as int)
                &&& r is Some
            },
            index >= old(self).shapes_view().len() ==> {
                &&& final(self).shapes_view() == old(self).shapes_view()
                &&& r is None
            },
    {
        if index < self.shapes.len() {
            let shape = self.shapes.remove(index);
            self.recompute_boundaries();
            Some(shape)
        } else {
            None
        }
    }

    /// Get the number of shapes.
    pub fn len(&self) -> (r: usize)
        ensures
            r == self.shapes_view().len(),
    {
        self.shapes.len()
    }

    /// Check if the scene is empty.
    pub fn is_empty(&self) -> (r: bool)
        ensures
            r == (self.shapes_view().len() == 0),
    {
        self.shapes.len() == 0
    }

    /// Get a reference to a shape entry.
    pub fn get(&self, index: usize) -> (r: Option<&SceneShape>)
        ensures
            index < self.shapes_view().len() ==> r == Some(&self.shapes_view()[index as int]),
            index >= self.shapes_view().len() ==> r is None,
    {
        if index < self.shapes.len() {
            Some(&self.shapes[index])
        } else {
            None
        }
    }

    /// Enable or disable a shape by index, keeping the slices consistent;
    /// out-of-range indices change nothing.
    pub fn set_enabled(&mut self, index: usize, enabled: bool)
        requires
            old(self).well_formed(),
        ensures
            final(self).well_formed(),
            final(self).name_spec() == old(self).name_spec(),
            final(self).shapes_view().len() == old(self).shapes_view().len(),
            index < old(self).shapes_view().len() ==> {
                &&& final(self).shapes_view()[index as int].enabled_spec() == enabled
                &&& final(self).shapes_view()[index as int].shape_view() == old(
                    self,
                ).shapes_view()[index as int].shape_view()
                &&& final(self).shapes_view()[index as int].weight_spec() == old(
                    self,
                ).shapes_view()[index as int].weight_spec()
                &&& (forall|i: int|
                    0 <= i < old(self).shapes_view().len() && i != index
                        ==> final(self).shapes_view()[i] == old(self).shapes_view()[i])
            },
            index >= old(self).shapes_view().len() ==> final(self).shapes_view() == old(
                self,
            ).shapes_view(),
    {
        if index < self.shapes.len() {
            let mut entry = self.shapes.remove(index);
            entry.set_enabled(enabled);
            self.shapes.insert(index, entry);
            proof {
                assert(self.shapes@ =~= old(self).shapes@.update(
                    index as int,
                    self.shapes@[index as int],
                ));
            }
            self.recompute_boundaries();
        }
    }

    /// Move a shape up in the order.
    pub fn move_up(&mut self, index: usize)
        requires
            old(self).well_formed(),
        ensures
            final(self).well_formed(),
            final(self).name_spec() == old(self).name_spec(),
            0 < index < old(self).shapes_view().len() ==> final(self).shapes_view() == old(
                self,
            ).shapes_view().update(index as int - 1, old(self).shapes_view()[index as int]).update(
                index as int,
                old(self).shapes_view()[index as int - 1],
            ),
            !(0 < index < old(self).shapes_view().len()) ==> final(self).shapes_view() == old(
                self,
            ).shapes_view(),
    {
        if index > 0 && index < self.shapes.len() {
            let entry = self.shapes.remove(index);
            self.shapes.insert(index - 1, entry);
            proof {
                assert(self.shapes@ =~= old(self).shapes@.update(
                    index as int - 1,
                    old(self).shapes@[index as int],
                ).update(index as int, old(self).shapes@[index as int - 1]));
            }
            self.recompute_boundaries();
        }
    }

    /// Move a shape down in the order.
    pub fn move_down(&mut self, index: usize)
        requires
            old(self).well_formed(),
        ensures
            final(self).well_formed(),
            final(self).name_spec() == old(self).name_spec(),
            index + 1 < old(self).shapes_view().len() ==> final(self).shapes_view() == old(
                self,
            ).shapes_view().update(index as int, old(self).shapes_view()[index as int + 1]).update(
                index as int + 1,
                old(self).shapes_view()[index as int],
            ),
            index + 1 >= old(self).shapes_view().len() ==> final(self).shapes_view() == old(
                self,
            ).shapes_view(),
    {
        if self.shapes.len() > 0 && index < self.shapes.len() - 1 {
            let entry = self.shapes.remove(index);
            self.shapes.insert(index + 1, entry);
            proof {
                assert(self.shapes@ =~= old(self).shapes@.update(
                    index as int,
                    old(self).shapes@[index as int + 1],
                ).update(index as int + 1, old(self).shapes@[index as int]));
            }
            self.recompute_boundaries();
        }
    }

    /// Update a shape's weight (clamped to the minimum) and recompute the
    /// slices; out-of-range indices change nothing.
    pub fn set_weight(&mut self, index: usize, weight: Fx)
        requires
            old(self).well_formed(),
        ensures
            final(self).well_formed(),
            final(self).name_spec() == old(self).name_spec(),
            final(self).shapes_view().len() == old(self).shapes_view().len(),
            index < old(self).shapes_view().len() ==> {
                &&& final(self).shapes_view()[index as int].weight_spec() == clamp_weight_spec(
                    weight as int,
                )
                &&& final(self).shapes_view()[index as int].shape_view() == old(
                    self,
                ).shapes_view()[index as int].shape_view()
                &&& final(self).shapes_view()[index as int].enabled_spec() == old(
                    self,
                ).shapes_view()[index as int].enabled_spec()
            },
            index >= old(self).shapes_view().len() ==> final(self).shapes_view() == old(
                self,
            ).shapes_view(),
    {
        if index < self.shapes.len() {
            let mut entry = self.shapes.remove(index);
            entry.set_weight(weight);
            self.shapes.insert(index, entry);
            proof {
                assert(self.shapes@ =~= old(self).shapes@.update(
                    index as int,
                    self.shapes@[index as int],
                ));
            }
            self.recompute_boundaries();
        }
    }

    /// Recompute the slice boundaries from the current weights.
    fn recompute_boundaries(&mut self)
        requires
            old(self).shapes@.len() <= 1_000_000,
            forall|i: int|
                0 <= i < old(self).shapes@.len() ==> (#[trigger] old(self).shapes@[i]).weight_spec()
                    >= MIN_WEIGHT,
        ensures
            final(self).shapes@ == old(self).shapes@,
            final(self).name@ == old(self).name@,
            boundaries_wf(final(self).shapes@, final(self).boundaries@),
            final(self).boundaries@ == canonical_boundaries(final(self).shapes@),
    {
        let n: usize = self.shapes.len();
        let mut total: i128 = 0;
        let mut i: usize = 0;
        while i < n
            invariant
                n == self.shapes@.len() <= 1_000_000,
                self == old(self),
                forall|k: int|
                    0 <= k < n ==> (#[trigger] self.shapes@[k]).weight_spec() >= MIN_WEIGHT,
                i <= n,
                total as int == enabled_weight_sum(self.shapes@.subrange(0, i as int)),
                0 <= total <= i as i128 * i64::MAX as i128,
            decreases n - i,
        {
            proof {
                assert(self.shapes@.subrange(0, i as int + 1).drop_last() =~= self.shapes@
                    .subrange(0, i as int));
            }
            if self.shapes[i].is_enabled() {
                total = total + self.shapes[i].weight as i128;
            }
            i = i + 1;
        }
        proof {
            assert(self.shapes@.subrange(0, n as int) =~= self.shapes@);
        }
        let mut boundaries: Vec<(Fx, Fx, usize)> = Vec::new();
        if total <= 0 {
            proof {
                assert(boundaries@ =~= canonical_boundaries(self.shapes@));
            }
            self.boundaries = boundaries;
            return ;
        }
        let mut current: Fx = 0;
        let mut j: usize = 0;
        while j < n
            invariant
                n == self.shapes@.len() <= 1_000_000,
                self == old(self),
                forall|k: int|
                    0 <= k < n ==> (#[trigger] self.shapes@[k]).weight_spec() >= MIN_WEIGHT,
                j <= n,
                total as int == enabled_weight_sum(self.shapes@),
                total > 0,
                0 <= current <= FX_ONE,
                boundaries@.len() == 0 ==> current == 0,
                current as int <= div_tz(
                    enabled_weight_sum(self.shapes@.subrange(0, j as int)) * FX_ONE,
                    total as int,
                ),
                forall|k: int|
                    0 <= k < boundaries@.len() ==> {
                        let b = #[trigger] boundaries@[k];
                        &&& 0 <= b.0 <= b.1 <= FX_ONE
                        &&& (b.2 as int) < n
                        &&& self.shapes@[b.2 as int].enabled_spec()
                        &&& b.1 - b.0 == div_tz(
                            self.shapes@[b.2 as int].weight_spec() * FX_ONE,
                            total as int,
                        )
                    },
                forall|k: int|
                    0 <= k < boundaries@.len() - 1 ==> (#[trigger] boundaries@[k + 1]).0
                        == boundaries@[k].1,
                boundaries@.len() > 0 ==> boundaries@[0].0 == 0,
                boundaries@.len() > 0 ==> boundaries@.last().1 == current,
                boundaries@ == canonical_boundaries_prefix(self.shapes@, total as int, j as int),
            decreases n - j,
        {
            proof {
                assert(self.shapes@.subrange(0, j as int + 1).drop_last() =~= self.shapes@
                    .subrange(0, j as int));
            }
            if self.shapes[j].is_enabled() {
                let w: i64 = self.shapes[j].weight;
                proof {
                    let acc = enabled_weight_sum(self.shapes@.subrange(0, j as int));
                    lemma_enabled_weight_sum_prefix(self.shapes@, j as int);
                    lemma_enabled_weight_sum_prefix(self.shapes@, j as int + 1);
                    assert(enabled_weight_sum(self.shapes@.subrange(0, j as int + 1)) == acc
                        + w as int);
                    assert(0 <= acc && 0 <= w as int && acc + w as int <= total as int);
                    assert(0 <= w as int * FX_ONE as int <= total as int * FX_ONE as int)
                        by (nonlinear_arith)
                        requires
                            0 <= w as int,
                            (w as int) <= total as int,
                            0 < total as int,
                    ;
                    vstd::arithmetic::div_mod::lemma_div_pos_is_pos(w as int * FX_ONE as int,
                        total as int);
                    vstd::arithmetic::div_mod::lemma_div_is_ordered(w as int * FX_ONE as int,
                        total as int * FX_ONE as int, total as int);
                    vstd::arithmetic::div_mod::lemma_div_multiples_vanish(FX_ONE as int,
                        total as int);
                    lemma_div_superadd(acc * FX_ONE, w as int * FX_ONE as int, total as int);
                    assert((acc + w as int) * FX_ONE == acc * FX_ONE + w as int * FX_ONE)
                        by (nonlinear_arith);
                    assert(acc * FX_ONE >= 0 && (acc + w as int) * FX_ONE <= total as int
                        * FX_ONE as int) by (nonlinear_arith)
                        requires
                            0 <= acc,
                            0 <= w as int,
                            acc + w as int <= total as int,
                            0 < total as int,
                    ;
                    vstd::arithmetic::div_mod::lemma_div_is_ordered(
                        (acc + w as int) * FX_ONE,
                        total as int * FX_ONE as int,
                        total as int,
                    );
                }
                let duration: i64 = (((w as i128) * (FX_ONE as i128)) / total) as i64;
                let ghost pre = boundaries@;
                boundaries.push((current, current + duration, j));
                current = current + duration;
                proof {
                    assert(boundaries@ =~= pre.push(
                        (
                            if pre.len() == 0 {
                                0int
                            } else {
                                pre.last().1 as int
                            } as i64,
                            ((if pre.len() == 0 {
                                0int
                            } else {
                                pre.last().1 as int
                            }) + div_tz(self.shapes@[j as int].weight_spec() * FX_ONE,
                                total as int)) as i64,
                            j as usize,
                        ),
                    ));
                }
            }
            j = j + 1;
        }
        proof {
            assert(self.shapes@.subrange(0, n as int) =~= self.shapes@);
            assert(boundaries@ =~= canonical_boundaries(self.shapes@));
        }
        self.boundaries = boundaries;
    }
}

impl Shape for Scene {
    /// The wrapped parameter is routed to the shape whose slice contains
    /// it, remapped to that shape's own trace.  Past the last slice the
    /// last shape holds its final position; with no slice at all the first
    /// shape (or the origin, for an empty scene) is traced directly.
    closed spec fn sample_spec(&self, t: int) -> (int, int) {
        let tw = t % (FX_ONE as int);
        match find_boundary_spec(self.boundaries@, tw) {
            Some(f) => if 0 <= f.0 < self.shapes@.len() {
                self.shapes@[f.0].shape.sample_spec(f.1)
            } else {
                (0, 0)
            },
            None => if self.boundaries@.len() > 0 && tw >= self.boundaries@.last().1 {
                if (self.boundaries@.last().2 as int) < self.shapes@.len() {
                    self.shapes@[self.boundaries@.last().2 as int].shape.sample_spec(999_000)
                } else {
                    (0, 0)
                }
            } else if self.shapes@.len() > 0 {
                self.shapes@[0].shape.sample_spec(tw)
            } else {
                (0, 0)
            },
        }
    }

    /// A scene is confined when each of its entries' shapes is.
    closed spec fn in_unit_square(&self) -> bool {
        forall|i: int|
            0 <= i < self.shapes@.len() ==> (#[trigger] self.shapes@[i]).shape.in_unit_square()
    }

    closed spec fn name_spec(&self) -> Seq<char> {
        self.name@
    }

    /// The length hints of the enabled entries, each weighted.
    closed spec fn length_spec(&self) -> int {
        scene_length_sum(self.shapes@)
    }

    /// A scene is closed when all enabled entries are.
    closed spec fn closed_spec(&self) -> bool {
        scene_all_closed(self.shapes@)
    }

    fn sample(&self, t: Fx) -> (r: (Fx, Fx)) {
        let tw: Fx = fx_wrap(t);
        proof {
            assert(self.boundaries@.skip(0) =~= self.boundaries@);
        }
        let mut i: usize = 0;
        while i < self.boundaries.len()
            invariant
                i <= self.boundaries@.len(),
                0 <= tw < FX_ONE,
                tw as int == (t as int) % (FX_ONE as int),
                find_boundary_spec(self.boundaries@, tw as int) == find_boundary_spec(
                    self.boundaries@.skip(i as int),
                    tw as int,
                ),
            decreases self.boundaries@.len() - i,
        {
            let b: (Fx, Fx, usize) = self.boundaries[i];
            proof {
                assert(self.boundaries@.skip(i as int).drop_first() =~= self.boundaries@.skip(
                    i as int + 1));
                assert(self.boundaries@.skip(i as int)[0] == self.boundaries@[i as int]);
            }
            if b.0 <= tw && tw < b.1 {
                let offset: i128 = tw as i128 - b.0 as i128;
                let span: i128 = b.1 as i128 - b.0 as i128;
                assert(0 <= offset as int * 1_000_000int
                    <= 20000000000000000000000000int) by (nonlinear_arith)
                    requires
                        0 <= offset as int,
                        (offset as int) <= 20000000000000000000int,
                ;
                let wide: i128 = offset * (FX_ONE as i128);
                proof {
                    vstd::arithmetic::div_mod::lemma_div_pos_is_pos(wide as int, span as int);
                    assert(wide as int <= span as int * FX_ONE as int) by (nonlinear_arith)
                        requires
                            0 <= offset as int,
                            (offset as int) < span as int,
                            wide as int == offset as int * 1_000_000int,
                    ;
                    vstd::arithmetic::div_mod::lemma_div_is_ordered(wide as int,
                        span as int * FX_ONE as int, span as int);
                    vstd::arithmetic::div_mod::lemma_div_multiples_vanish(FX_ONE as int,
                        span as int);
                }
                let local: i64 = (wide / span) as i64;
                if b.2 < self.shapes.len() {
                    return self.shapes[b.2].shape.sample(local);
                } else {
                    return (0, 0);
                }
            }
            i = i + 1;
        }
        proof {
            assert(self.boundaries@.skip(self.boundaries@.len() as int) =~= Seq::<(i64, i64,
                usize)>::empty());
        }
        if self.boundaries.len() > 0 {
            let last: (Fx, Fx, usize) = self.boundaries[self.boundaries.len() - 1];
            if tw >= last.1 {
                if last.2 < self.shapes.len() {
                    return self.shapes[last.2].shape.sample(999_000);
                } else {
                    return (0, 0);
                }
            }
        }
        if self.shapes.len() > 0 {
            self.shapes[0].shape.sample(tw)
        } else {
            (0, 0)
        }
    }

    fn name(&self) -> (r: &str) {
        self.name.as_str()
    }

    fn length(&self) -> (r: Fx) {
        let mut acc: Fx = 0;
        let mut i: usize = 0;
        while i < self.shapes.len()
            invariant
                i <= self.shapes@.len(),
                acc as int == scene_length_sum(self.shapes@.subrange(0, i as int)),
            decreases self.shapes@.len() - i,
        {
            proof {
                assert(self.shapes@.subrange(0, i as int + 1).drop_last() =~= self.shapes@
                    .subrange(0, i as int));
            }
            if self.shapes[i].is_enabled() {
                let len: Fx = self.shapes[i].shape.length();
                acc = fx_add(acc, fx_mul(len, self.shapes[i].weight));
            } else {
                proof {
                    assert(crate::fx::sat64(acc as int + 0) == acc as int);
                }
            }
            i = i + 1;
        }
        proof {
            assert(self.shapes@.subrange(0, self.shapes@.len() as int) =~= self.shapes@);
        }
        acc
    }

    fn is_closed(&self) -> (r: bool) {
        let mut i: usize = 0;
        while i < self.shapes.len()
            invariant
                i <= self.shapes@.len(),
                forall|k: int|
                    0 <= k < i && (#[trigger] self.shapes@[k]).enabled_spec()
                        ==> self.shapes@[k].shape.closed_spec(),
            decreases self.shapes@.len() - i,
        {
            if self.shapes[i].is_enabled() && !self.shapes[i].shape.is_closed() {
                return false;
            }
            i = i + 1;
        }
        true
    }

    proof fn lemma_sample_in_unit_square(&self, t: int) {
        let tw = t % (FX_ONE as int);
        match find_boundary_spec(self.boundaries@, tw) {
            Some(f) => {
                if 0 <= f.0 < self.shapes@.len() {
                    self.shapes@[f.0].shape.lemma_sample_in_unit_square(f.1);
                }
            },
            None => {
                if self.boundaries@.len() > 0 && tw >= self.boundaries@.last().1 {
                    if (self.boundaries@.last().2 as int) < self.shapes@.len() {
                        self.shapes@[self.boundaries@.last().2 as int].shape
                            .lemma_sample_in_unit_square(999_000);
                    }
                } else if self.shapes@.len() > 0 {
                    self.shapes@[0].shape.lemma_sample_in_unit_square(tw);
                }
            },
        }
    }
}

impl Scene {
    /// The slices of a well-formed scene route the trace: within slice `k`
    /// the scene samples exactly the slice's shape, at the parameter
    /// remapped linearly from the slice to that shape's full trace.
    pub proof fn lemma_scene_routing(&self, k: int, t: int)
        requires
            self.well_formed(),
            0 <= k < self.boundaries_view().len(),
            self.boundaries_view()[k].0 <= t < self.boundaries_view()[k].1,
            0 <= t < FX_ONE,
        ensures
            ({
                let b = self.boundaries_view()[k];
                self.sample_spec(t) == self.shapes_view()[b.2 as int].shape_view().sample_spec(
                    remap_spec(t, b.0 as int, b.1 as int),
                )
            }),
    {
        vstd::arithmetic::div_mod::lemma_small_mod(t as nat, FX_ONE as nat);
        lemma_find_boundary_hit(self.boundaries@, t, k);
    }
}

/// Boundary starts never decrease along a chained boundary list.
proof fn lemma_chain_reaches(bs: Seq<(i64, i64, usize)>, k: int)
    requires
        0 < k < bs.len(),
        forall|j: int| 0 <= j < bs.len() - 1 ==> (#[trigger] bs[j + 1]).0 == bs[j].1,
        forall|j: int| 0 <= j < bs.len() ==> (#[trigger] bs[j]).0 <= bs[j].1,
    ensures
        bs[0].1 <= bs[k].0,
    decreases k,
{
    assert(bs[(k - 1) + 1].0 == bs[k - 1].1);
    assert(bs[k - 1].0 <= bs[k - 1].1);
    if k > 1 {
        lemma_chain_reaches(bs, k - 1);
    }
}

/// Finding the slice that contains a parameter lands on that slice, when
/// the list is chained.
proof fn lemma_find_boundary_hit(bs: Seq<(i64, i64, usize)>, t: int, k: int)
    requires
        0 <= k < bs.len(),
        forall|j: int| 0 <= j < bs.len() - 1 ==> (#[trigger] bs[j + 1]).0 == bs[j].1,
        forall|j: int| 0 <= j < bs.len() ==> (#[trigger] bs[j]).0 <= bs[j].1,
        bs[k].0 <= t < bs[k].1,
    ensures
        find_boundary_spec(bs, t) == Some(
            (bs[k].2 as int, remap_spec(t, bs[k].0 as int, bs[k].1 as int)),
        ),
    decreases k,
{
    if k == 0 {
    } else {
        lemma_chain_reaches(bs, k);
        let rest = bs.drop_first();
        assert forall|j: int| 0 <= j < rest.len() - 1 implies (#[trigger] rest[j + 1]).0
            == rest[j].1 by {
            assert(rest[j + 1] == bs[j + 2]);
            assert(rest[j] == bs[j + 1]);
        }
        assert forall|j: int| 0 <= j < rest.len() implies (#[trigger] rest[j]).0 <= rest[j].1 by {
            assert(rest[j] == bs[j + 1]);
        }
        lemma_find_boundary_hit(rest, t, k - 1);
    }
}

/// Floor division distributes superadditively over sums of nonnegative
/// values.
proof fn lemma_div_superadd(x: int, y: int, d: int)
    requires
        0 <= x,
        0 <= y,
        0 < d,
    ensures
        x / d + y / d <= (x + y) / d,
{
    vstd::arithmetic::div_mod::lemma_fundamental_div_mod(x, d);
    vstd::arithmetic::div_mod::lemma_fundamental_div_mod(y, d);
    let q = x / d + y / d;
    vstd::arithmetic::mul::lemma_mul_is_distributive_add(d, x / d, y / d);
    vstd::arithmetic::div_mod::lemma_mod_bound(x, d);
    vstd::arithmetic::div_mod::lemma_mod_bound(y, d);
    vstd::arithmetic::div_mod::lemma_div_multiples_vanish(q, d);
    vstd::arithmetic::div_mod::lemma_div_is_ordered(d * q, x + y, d);
}

/// A prefix of the entries never weighs more than all of them, when no
/// weight is negative.
proof fn lemma_enabled_weight_sum_prefix(shapes: Seq<SceneShape>, i: int)
    requires
        0 <= i <= shapes.len(),
        forall|k: int| 0 <= k < shapes.len() ==> (#[trigger] shapes[k]).weight_spec() >= 0,
    ensures
        enabled_weight_sum(shapes.subrange(0, i)) <= enabled_weight_sum(shapes),
        0 <= enabled_weight_sum(shapes.subrange(0, i)),
    decreases shapes.len() - i,
{
    assert forall|j: int| 0 <= j < i implies (#[trigger] shapes.subrange(0, i)[j]).weight_spec()
        >= 0 by {
        assert(shapes.subrange(0, i)[j] == shapes[j]);
    }
    lemma_enabled_weight_sum_nonneg(shapes.subrange(0, i));
    if i == shapes.len() {
        assert(shapes.subrange(0, i) =~= shapes);
    } else {
        lemma_enabled_weight_sum_prefix(shapes, i + 1);
        assert(shapes.subrange(0, i + 1).drop_last() =~= shapes.subrange(0, i));
    }
}

/// A sum of nonnegative weights is nonnegative.
proof fn lemma_enabled_weight_sum_nonneg(shapes: Seq<SceneShape>)
    requires
        forall|k: int| 0 <= k < shapes.len() ==> (#[trigger] shapes[k]).weight_spec() >= 0,
    ensures
        0 <= enabled_weight_sum(shapes),
    decreases shapes.len(),
{
    if shapes.len() > 0 {
        lemma_enabled_weight_sum_nonneg(shapes.drop_last());
    }
}

} // verus!
