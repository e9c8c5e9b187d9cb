//! The camera's state between ticks: lens and pose, the image size, the
//! sample counters and the buffer in which full-resolution samples add up.
//!
//! Every way of changing what the camera sees empties the accumulation,
//! so sums of samples never mix two views. A tick is planned here, carried
//! out by the caller, who traces the rays, and recorded here again.

use vstd::prelude::*;
use vstd::arithmetic::power2::pow2;
use crate::scalar::Scalar;
use crate::vec3::{Color, Point3, Vec3};
use crate::window::{Coord2, Size};

verus! {

/// Depth of recursion for the rays of a full-resolution pass.
pub const SETTLED_DEPTH: u16 = 50;

/// Depth of recursion for the rays of a coarse preview pass.
pub const PREVIEW_DEPTH: u16 = 10;

/// The steepest pitch, in degrees: the encoding of 89.
pub const PITCH_LIMIT_BITS: u32 = 0x42b2_0000;

/// The four ways to walk: sideways along the camera's `u` axis, or along
/// its viewing axis `w`, which points backwards.
#[derive(Debug, Clone, Copy, PartialEq, Eq, Structural)]
pub enum Direction {
    Left,
    Right,
    Forward,
    Backward,
}

/// An axis of the camera's frame.
#[derive(Debug, Clone, Copy, PartialEq, Eq, Structural)]
pub enum Axis {
    U,
    W,
}

impl Direction {
    /// The axis along which this direction moves the camera.
    pub fn axis(&self) -> (r: Axis)
        ensures
            r == (if *self == Direction::Left || *self == Direction::Right {
                Axis::U
            } else {
                Axis::W
            }),
    {
        match self {
            Direction::Left => Axis::U,
            Direction::Right => Axis::U,
            Direction::Forward => Axis::W,
            Direction::Backward => Axis::W,
        }
    }

    /// Whether the step goes against the axis: to the left, and forwards.
    pub fn against_axis(&self) -> (r: bool)
        ensures
            r == (*self == Direction::Left || *self == Direction::Forward),
    {
        match self {
            Direction::Left => true,
            Direction::Right => false,
            Direction::Forward => true,
            Direction::Backward => false,
        }
    }
}

/// What the camera needs to be told before it can trace a ray, and what it
/// has gathered since it was last told.
pub struct Camera {
    fov: Scalar,
    focus_dist: Scalar,
    defocus_angle: Scalar,
    center: Point3,
    yaw: Scalar,
    pitch: Scalar,
    image_size: Size,
    sample_max: u16,
    sample_current: u16,
    sample_ratio: u16,
    full_res_count: u32,
    color_buffer: Vec<Color>,
}

/// What the caller does in one tick.
#[derive(Debug, Clone, Copy, PartialEq, Eq, Structural)]
pub enum Pass {
    /// The budget is spent: no ray is traced, and the picture is derived
    /// again from the accumulation as it stands.
    Idle,
    /// One ray for each block of `block_size` by `block_size` pixels, in a
    /// grid of `cols` by `rows` blocks, traced to `depth`.
    Coarse { block_size: usize, cols: usize, rows: usize, depth: u16 },
    /// One ray for each pixel, traced to `depth` and added to the
    /// accumulation.
    Full { depth: u16 },
}

/// Side of the preview blocks after `samples` ticks: the ratio halved once
/// per tick, and never below one pixel.
pub open spec fn block_side(ratio: u16, samples: u16) -> nat {
    let shrunk = ratio as nat / pow2(samples as nat);
    if shrunk >= 1 {
        shrunk
    } else {
        1
    }
}

/// Number of blocks of side `side` that cover `extent` pixels.
pub open spec fn blocks_across(extent: nat, side: nat) -> nat {
    ((extent + side - 1) / (side as int)) as nat
}

/// What a tick does to a camera with the given counters and image.
pub open spec fn pass_for(
    size: Size,
    sample_max: u16,
    sample_current: u16,
    sample_ratio: u16,
    full_res_count: u32,
) -> Pass {
    if sample_current >= sample_max {
        Pass::Idle
    } else if block_side(sample_ratio, sample_current) > 1 && full_res_count == 0 {
        Pass::Coarse {
            block_size: block_side(sample_ratio, sample_current) as usize,
            cols: blocks_across(size.w as nat, block_side(sample_ratio, sample_current)) as usize,
            rows: blocks_across(size.h as nat, block_side(sample_ratio, sample_current)) as usize,
            depth: PREVIEW_DEPTH,
        }
    } else {
        Pass::Full { depth: SETTLED_DEPTH }
    }
}

impl Camera {
    /// Vertical field of view, in degrees.
    pub closed spec fn view_fov(&self) -> Scalar {
        self.fov
    }

    /// Distance to the plane of perfect focus.
    pub closed spec fn view_focus_dist(&self) -> Scalar {
        self.focus_dist
    }

    /// Angle of the cone of the lens, in degrees.
    pub closed spec fn view_defocus_angle(&self) -> Scalar {
        self.defocus_angle
    }

    /// Where the camera stands.
    pub closed spec fn view_center(&self) -> Point3 {
        self.center
    }

    /// Heading, in degrees.
    pub closed spec fn view_yaw(&self) -> Scalar {
        self.yaw
    }

    /// Elevation, in degrees.
    pub closed spec fn view_pitch(&self) -> Scalar {
        self.pitch
    }

    /// Size of the image.
    pub closed spec fn view_size(&self) -> Size {
        self.image_size
    }

    /// Number of ticks that a picture may take.
    pub closed spec fn budget(&self) -> u16 {
        self.sample_max
    }

    /// Number of ticks that have sampled since the view last changed.
    pub closed spec fn samples(&self) -> u16 {
        self.sample_current
    }

    /// Side of the first preview's blocks.
    pub closed spec fn ratio(&self) -> u16 {
        self.sample_ratio
    }

    /// Number of full-resolution samples that the accumulation holds.
    pub closed spec fn full_samples(&self) -> u32 {
        self.full_res_count
    }

    /// The sums of the full-resolution samples, pixel by pixel in row-major
    /// order.
    pub closed spec fn accumulation(&self) -> Seq<Color> {
        self.color_buffer@
    }

    /// The accumulation has one entry per pixel and holds nothing but
    /// black while no full-resolution sample was taken, and the counters
    /// are in order.
    #[verifier::type_invariant]
    spec fn inv(&self) -> bool {
        &&& self.image_size.cells() <= usize::MAX
        &&& self.color_buffer@.len() == self.image_size.cells()
        &&& self.full_res_count <= self.sample_current
        &&& self.sample_current <= self.sample_max
        &&& self.full_res_count == 0 ==> forall|i: int|
            0 <= i < self.color_buffer@.len() ==> (#[trigger] self.color_buffer@[i]).is_black()
    }

    /// Nothing has been sampled for the present view: both counters are
    /// zero and every sum is black.
    pub open spec fn fresh(&self) -> bool {
        &&& self.samples() == 0
        &&& self.full_samples() == 0
        &&& forall|i: int|
            0 <= i < self.accumulation().len() ==> (#[trigger] self.accumulation()[i]).is_black()
    }

    /// Lens, pose, image size, budget and ratio of the two cameras agree.
    pub open spec fn same_view(&self, other: &Camera) -> bool {
        &&& self.view_fov() == other.view_fov()
        &&& self.view_focus_dist() == other.view_focus_dist()
        &&& self.view_defocus_angle() == other.view_defocus_angle()
        &&& self.view_center() == other.view_center()
        &&& self.view_yaw() == other.view_yaw()
        &&& self.view_pitch() == other.view_pitch()
        &&& self.same_frame(other)
    }

    /// Image size, budget and ratio of the two cameras agree.
    pub open spec fn same_frame(&self, other: &Camera) -> bool {
        &&& self.view_size() == other.view_size()
        &&& self.budget() == other.budget()
        &&& self.ratio() == other.ratio()
    }

    /// What the next tick does.
    pub open spec fn pass(&self) -> Pass {
        pass_for(self.view_size(), self.budget(), self.samples(), self.ratio(), self.full_samples())
    }
}

/// `n` black pixels.
fn black_buffer(n: usize) -> (r: Vec<Color>)
    ensures
        r@.len() == n,
        forall|i: int| 0 <= i < n ==> (#[trigger] r@[i]).is_black(),
{
    let mut v: Vec<Color> = Vec::new();
    let mut i: usize = 0;
    while i < n
        invariant
            i <= n,
            v@.len() == i,
            forall|j: int| 0 <= j < i ==> (#[trigger] v@[j]).is_black(),
        decreases n - i,
    {
        v.push(Vec3::zero());
        i = i + 1;
    }
    v
}

impl Camera {
    /// A camera at `(0, 1, 3)` that looks along the negative `z` axis
    /// (yaw -90, pitch 0) through a lens of angle 0.6 focused at distance
    /// 3.4, with nothing sampled yet.
    pub fn new(fov: Scalar, image_size: Size, sample_max: u16, sample_ratio: u16) -> (r: Camera)
        requires
            image_size.cells() <= usize::MAX,
        ensures
            r.fresh(),
            r.view_fov() == fov,
            r.view_size() == image_size,
            r.budget() == sample_max,
            r.ratio() == sample_ratio,
            r.view_defocus_angle().bits == 0x3f19_999a,
            r.view_focus_dist().bits == 0x4059_999a,
            r.view_center() == (Vec3 {
                x: Scalar { bits: 0 },
                y: Scalar { bits: 0x3f80_0000 },
                z: Scalar { bits: 0x4040_0000 },
            }),
            r.view_yaw().bits == 0xc2b4_0000,
            r.view_pitch().bits == 0,
    {
        let n = image_size.area();
        Camera {
            fov,
            focus_dist: Scalar::from_bits(0x4059_999a),
            defocus_angle: Scalar::from_bits(0x3f19_999a),
            center: Vec3::from_bits(0, 0x3f80_0000, 0x4040_0000),
            yaw: Scalar::from_bits(0xc2b4_0000),
            pitch: Scalar::zero(),
            image_size,
            sample_max,
            sample_current: 0,
            sample_ratio,
            full_res_count: 0,
            color_buffer: black_buffer(n),
        }
    }

    /// Vertical field of view, in degrees.
    pub fn fov(&self) -> (r: Scalar)
        ensures
            r == self.view_fov(),
    {
        self.fov
    }

    /// Distance to the plane of perfect focus.
    pub fn focus_dist(&self) -> (r: Scalar)
        ensures
            r == self.view_focus_dist(),
    {
        self.focus_dist
    }

    /// Angle of the cone of the lens, in degrees.
    pub fn defocus_angle(&self) -> (r: Scalar)
        ensures
            r == self.view_defocus_angle(),
    {
        self.defocus_angle
    }

    /// Where the camera stands.
    pub fn center(&self) -> (r: Point3)
        ensures
            r == self.view_center(),
    {
        self.center
    }

    /// Heading, in degrees.
    pub fn yaw(&self) -> (r: Scalar)
        ensures
            r == self.view_yaw(),
    {
        self.yaw
    }

    /// Elevation, in degrees.
    pub fn pitch(&self) -> (r: Scalar)
        ensures
            r == self.view_pitch(),
    {
        self.pitch
    }

    /// Size of the image.
    pub fn image_size(&self) -> (r: Size)
        ensures
            r == self.view_size(),
    {
        self.image_size
    }

    /// Number of ticks that a picture may take.
    pub fn sample_max(&self) -> (r: u16)
        ensures
            r == self.budget(),
    {
        self.sample_max
    }

    /// Number of ticks that have sampled since the view last changed.
    pub fn sample_current(&self) -> (r: u16)
        ensures
            r == self.samples(),
    {
        self.sample_current
    }

    /// Side of the first preview's blocks.
    pub fn sample_ratio(&self) -> (r: u16)
        ensures
            r == self.ratio(),
    {
        self.sample_ratio
    }

    /// Number of full-resolution samples in the accumulation.
    pub fn full_res_count(&self) -> (r: u32)
        ensures
            r == self.full_samples(),
            r <= self.samples() <= self.budget(),
    {
        proof {
            use_type_invariant(self);
        }
        self.full_res_count
    }

    /// The sums of the full-resolution samples.
    pub fn color_buffer(&self) -> (r: &Vec<Color>)
        ensures
            r@ == self.accumulation(),
            r@.len() == self.view_size().cells(),
            self.full_samples() == 0 ==> forall|i: int|
                0 <= i < r@.len() ==> (#[trigger] r@[i]).is_black(),
    {
        proof {
            use_type_invariant(self);
        }
        &self.color_buffer
    }

    /// Whether rays start at the camera's centre rather than on the lens:
    /// so it is when the lens angle is zero or less.
    pub fn is_pinhole(&self) -> (r: bool)
        ensures
            r == self.view_defocus_angle().at_most(Scalar { bits: 0 }),
    {
        self.defocus_angle.le(&Scalar::zero())
    }

    /// Forgets every sample: both counters go to zero and the accumulation
    /// to black. The view stays.
    pub fn clear(&mut self)
        ensures
            final(self).fresh(),
            final(self).same_view(old(self)),
    {
        proof {
            use_type_invariant(&*self);
        }
        let n = self.color_buffer.len();
        self.color_buffer = black_buffer(n);
        self.full_res_count = 0;
        self.sample_current = 0;
    }

    /// Takes a new image size and forgets every sample.
    pub fn resize(&mut self, image_size: Size)
        requires
            image_size.cells() <= usize::MAX,
        ensures
            final(self).fresh(),
            final(self).view_size() == image_size,
            final(self).budget() == old(self).budget(),
            final(self).ratio() == old(self).ratio(),
            final(self).view_fov() == old(self).view_fov(),
            final(self).view_focus_dist() == old(self).view_focus_dist(),
            final(self).view_defocus_angle() == old(self).view_defocus_angle(),
            final(self).view_center() == old(self).view_center(),
            final(self).view_yaw() == old(self).view_yaw(),
            final(self).view_pitch() == old(self).view_pitch(),
    {
        let n = image_size.area();
        *self = Camera {
            fov: self.fov,
            focus_dist: self.focus_dist,
            defocus_angle: self.defocus_angle,
            center: self.center,
            yaw: self.yaw,
            pitch: self.pitch,
            image_size,
            sample_max: self.sample_max,
            sample_current: 0,
            sample_ratio: self.sample_ratio,
            full_res_count: 0,
            color_buffer: black_buffer(n),
        };
    }

    /// Takes a new field of view and forgets every sample.
    pub fn set_fov(&mut self, fov: Scalar)
        ensures
            final(self).fresh(),
            final(self).view_fov() == fov,
            final(self).view_focus_dist() == old(self).view_focus_dist(),
            final(self).view_defocus_angle() == old(self).view_defocus_angle(),
            final(self).view_center() == old(self).view_center(),
            final(self).view_yaw() == old(self).view_yaw(),
            final(self).view_pitch() == old(self).view_pitch(),
            final(self).same_frame(old(self)),
    {
        proof {
            use_type_invariant(&*self);
        }
        self.fov = fov;
        self.clear();
    }

    /// Takes a new focus distance and forgets every sample.
    pub fn set_focus_dist(&mut self, focus_dist: Scalar)
        ensures
            final(self).fresh(),
            final(self).view_focus_dist() == focus_dist,
            final(self).view_fov() == old(self).view_fov(),
            final(self).view_defocus_angle() == old(self).view_defocus_angle(),
            final(self).view_center() == old(self).view_center(),
            final(self).view_yaw() == old(self).view_yaw(),
            final(self).view_pitch() == old(self).view_pitch(),
            final(self).same_frame(old(self)),
    {
        proof {
            use_type_invariant(&*self);
        }
        self.focus_dist = focus_dist;
        self.clear();
    }

    /// Takes a new lens angle and forgets every sample.
    pub fn set_defocus_angle(&mut self, defocus_angle: Scalar)
        ensures
            final(self).fresh(),
            final(self).view_defocus_angle() == defocus_angle,
            final(self).view_fov() == old(self).view_fov(),
            final(self).view_focus_dist() == old(self).view_focus_dist(),
            final(self).view_center() == old(self).view_center(),
            final(self).view_yaw() == old(self).view_yaw(),
            final(self).view_pitch() == old(self).view_pitch(),
            final(self).same_frame(old(self)),
    {
        proof {
            use_type_invariant(&*self);
        }
        self.defocus_angle = defocus_angle;
        self.clear();
    }

    /// Puts the camera at `center` and forgets every sample.
    pub fn set_center(&mut self, center: Point3)
        ensures
            final(self).fresh(),
            final(self).view_center() == center,
            final(self).view_fov() == old(self).view_fov(),
            final(self).view_focus_dist() == old(self).view_focus_dist(),
            final(self).view_defocus_angle() == old(self).view_defocus_angle(),
            final(self).view_yaw() == old(self).view_yaw(),
            final(self).view_pitch() == old(self).view_pitch(),
            final(self).same_frame(old(self)),
    {
        proof {
            use_type_invariant(&*self);
        }
        self.center = center;
        self.clear();
    }

    /// Turns the camera to the given heading and elevation and forgets
    /// every sample. The elevation is kept within 89 degrees of the
    /// horizon, so that the view never flips over.
    pub fn set_orientation(&mut self, yaw: Scalar, pitch: Scalar)
        ensures
            final(self).fresh(),
            final(self).view_yaw() == yaw,
            final(self).view_pitch() == steepest(pitch),
            final(self).view_fov() == old(self).view_fov(),
            final(self).view_focus_dist() == old(self).view_focus_dist(),
            final(self).view_defocus_angle() == old(self).view_defocus_angle(),
            final(self).view_center() == old(self).view_center(),
            final(self).same_frame(old(self)),
    {
        proof {
            use_type_invariant(&*self);
        }
        let high = Scalar::from_bits(PITCH_LIMIT_BITS);
        let low = high.negated();
        self.yaw = yaw;
        self.pitch = pitch.clamp(&low, &high);
        self.clear();
    }
}

/// An elevation brought within 89 degrees of the horizon; a NaN stays.
pub open spec fn steepest(pitch: Scalar) -> Scalar {
    if (Scalar { bits: PITCH_LIMIT_BITS }).less(pitch) {
        Scalar { bits: PITCH_LIMIT_BITS }
    } else if pitch.less(Scalar { bits: 0xc2b2_0000 }) {
        Scalar { bits: 0xc2b2_0000 }
    } else {
        pitch
    }
}

/// The block, counted row by row through the grid, that covers the pixel
/// at place `i` of an image `width` pixels wide.
pub open spec fn block_under(width: nat, side: nat, cols: nat, i: int) -> int {
    ((i / (width as int)) / (side as int)) * cols + (i % (width as int)) / (side as int)
}

/// The pixel whose ray stands for block `bi`: the block's middle, or the
/// image's last column or row where the middle lies beyond it.
pub open spec fn block_middle(size: Size, side: nat, cols: nat, bi: int) -> Coord2 {
    let x = (bi % (cols as int)) * side + side / 2;
    let y = (bi / (cols as int)) * side + side / 2;
    Coord2 {
        x: (if x < size.w - 1 {
            x
        } else {
            size.w - 1
        }) as usize,
        y: (if y < size.h - 1 {
            y
        } else {
            size.h - 1
        }) as usize,
    }
}

/// Counting the blocks that cover an extent: the count is the least whose
/// blocks reach the end.
pub proof fn lemma_blocks_across(extent: nat, side: nat)
    requires
        side >= 1,
    ensures
        blocks_across(extent, side) == extent / side + (if extent % side != 0 {
            1nat
        } else {
            0nat
        }),
        blocks_across(extent, side) * side >= extent,
        extent > 0 ==> (blocks_across(extent, side) - 1) * side < extent,
        extent > 0 ==> blocks_across(extent, side) >= 1,
        blocks_across(extent, side) <= extent,
{
    let e = extent as int;
    let d = side as int;
    let q = e / d;
    let m = e % d;
    vstd::arithmetic::div_mod::lemma_fundamental_div_mod(e, d);
    vstd::arithmetic::div_mod::lemma_mod_bound(e, d);
    assert(e == d * q + m);
    assert(q >= 0) by {
        vstd::arithmetic::div_mod::lemma_div_pos_is_pos(e, d);
    }
    if m == 0 {
        assert(e + d - 1 == q * d + (d - 1)) by (nonlinear_arith)
            requires
                e == d * q + m,
                m == 0,
        ;
        vstd::arithmetic::div_mod::lemma_fundamental_div_mod_converse(e + d - 1, d, q, d - 1);
        assert(q * d <= e && q <= q * d) by (nonlinear_arith)
            requires
                e == d * q + m,
                m == 0,
                q >= 0,
                d >= 1,
        ;
        assert(((q - 1) * d < e && q >= 1) || e == 0) by (nonlinear_arith)
            requires
                e == d * q + m,
                m == 0,
                q >= 0,
                d >= 1,
        ;
    } else {
        assert(e + d - 1 == (q + 1) * d + (m - 1)) by (nonlinear_arith)
            requires
                e == d * q + m,
        ;
        vstd::arithmetic::div_mod::lemma_fundamental_div_mod_converse(e + d - 1, d, q + 1, m - 1);
        assert((q + 1) * d >= e && q * d < e && q + 1 <= e) by (nonlinear_arith)
            requires
                e == d * q + m,
                0 < m < d,
                q >= 0,
                d >= 1,
        ;
    }
}

/// The blocks are at least a pixel wide and no wider than the ratio.
pub proof fn lemma_block_side_bounds(ratio: u16, samples: u16)
    ensures
        1 <= block_side(ratio, samples) <= 0xffff,
        ratio >= 1 ==> block_side(ratio, samples) <= ratio,
{
    vstd::arithmetic::power2::lemma_pow2_pos(samples as nat);
    vstd::arithmetic::div_mod::lemma_div_nonincreasing(ratio as int, pow2(samples as nat) as int);
}

/// Side of the preview blocks after `samples` ticks.
fn block_size(ratio: u16, samples: u16) -> (r: u16)
    ensures
        r == block_side(ratio, samples),
        r >= 1,
{
    let shrunk: u16 = if samples < 16 {
        proof {
            vstd::bits::lemma_u16_shr_is_div(ratio, samples);
        }
        ratio >> samples
    } else {
        proof {
            vstd::arithmetic::power2::lemma2_to64();
            if samples > 16 {
                vstd::arithmetic::power2::lemma_pow2_strictly_increases(16, samples as nat);
            }
            vstd::arithmetic::div_mod::lemma_basic_div(ratio as int, pow2(samples as nat) as int);
        }
        0
    };
    if shrunk >= 1 {
        shrunk
    } else {
        1
    }
}

/// Number of blocks of side `side` that cover `extent` pixels.
fn count_blocks(extent: usize, side: usize) -> (r: usize)
    requires
        side >= 1,
    ensures
        r == blocks_across(extent as nat, side as nat),
{
    proof {
        lemma_blocks_across(extent as nat, side as nat);
    }
    if extent % side != 0 {
        extent / side + 1
    } else {
        extent / side
    }
}

impl Camera {
    /// What the next tick does: nothing once the budget is spent; a coarse
    /// preview while the blocks are larger than a pixel and no
    /// full-resolution sample has been taken; else a full-resolution pass.
    pub fn plan(&self) -> (r: Pass)
        ensures
            r == self.pass(),
            r matches Pass::Coarse { block_size, cols, rows, depth } ==> {
                &&& block_size == block_side(self.ratio(), self.samples())
                &&& block_size > 1
                &&& cols == blocks_across(self.view_size().w as nat, block_size as nat)
                &&& rows == blocks_across(self.view_size().h as nat, block_size as nat)
            },
    {
        proof {
            use_type_invariant(self);
            lemma_block_side_bounds(self.sample_ratio, self.sample_current);
            lemma_blocks_across(
                self.image_size.w as nat,
                block_side(self.sample_ratio, self.sample_current),
            );
            lemma_blocks_across(
                self.image_size.h as nat,
                block_side(self.sample_ratio, self.sample_current),
            );
        }
        if self.sample_current >= self.sample_max {
            return Pass::Idle;
        }
        let side = block_size(self.sample_ratio, self.sample_current) as usize;
        if side > 1 && self.full_res_count == 0 {
            Pass::Coarse {
                block_size: side,
                cols: count_blocks(self.image_size.w, side),
                rows: count_blocks(self.image_size.h, side),
                depth: PREVIEW_DEPTH,
            }
        } else {
            Pass::Full { depth: SETTLED_DEPTH }
        }
    }

    /// The pixel at place `i` of the row-major order, if the image has
    /// that many pixels.
    pub fn pixel(&self, i: usize) -> (r: Option<Coord2>)
        ensures
            r == (if i < self.view_size().cells() {
                Some(Coord2 { x: i % self.view_size().w, y: i / self.view_size().w })
            } else {
                None
            }),
    {
        proof {
            use_type_invariant(self);
        }
        if i < self.color_buffer.len() {
            assert(self.image_size.w > 0) by (nonlinear_arith)
                requires
                    i < self.image_size.w * self.image_size.h,
            ;
            Some(Coord2 { x: i % self.image_size.w, y: i / self.image_size.w })
        } else {
            None
        }
    }

    /// The pixel through which the ray of block `bi` goes, if the next
    /// tick is a coarse preview and its grid has that many blocks.
    pub fn block_center(&self, bi: usize) -> (r: Option<Coord2>)
        ensures
            r == (match self.pass() {
                Pass::Coarse { block_size, cols, rows, depth } => if bi < cols * rows {
                    Some(block_middle(self.view_size(), block_size as nat, cols as nat, bi as int))
                } else {
                    None
                },
                _ => None,
            }),
    {
        proof {
            use_type_invariant(&*self);
        }
        match self.plan() {
            Pass::Coarse { block_size, cols, rows, depth } => {
                let w = self.image_size.w;
                let h = self.image_size.h;
                proof {
                    lemma_blocks_across(w as nat, block_size as nat);
                    lemma_blocks_across(h as nat, block_size as nat);
                    lemma_grid_fits(w as nat, h as nat, cols as nat, rows as nat);
                }
                if bi < cols * rows {
                    assert(cols > 0 && rows > 0) by (nonlinear_arith)
                        requires
                            bi < cols * rows,
                    ;
                    let bx = bi % cols;
                    let by = bi / cols;
                    proof {
                        lemma_cell_of_grid(cols as int, rows as int, bi as int);
                        lemma_block_start(w as int, block_size as int, cols as int, bx as int);
                        lemma_block_start(h as int, block_size as int, rows as int, by as int);
                    }
                    let half = block_size / 2;
                    let left = bx * block_size;
                    let top = by * block_size;
                    let x = if half < (w - 1) - left {
                        left + half
                    } else {
                        w - 1
                    };
                    let y = if half < (h - 1) - top {
                        top + half
                    } else {
                        h - 1
                    };
                    Some(Coord2 { x, y })
                } else {
                    None
                }
            },
            _ => None,
        }
    }

    /// Records a coarse preview. `block_colors` holds the packed colour of
    /// each block, row by row through the grid. Where the next tick is a
    /// coarse preview, `block_colors` has one colour per block and `buffer`
    /// one entry per pixel, every pixel takes the colour of the block that
    /// covers it and the tick is counted; the accumulation is not touched.
    /// Otherwise nothing changes and the result is false.
    pub fn finish_coarse(&mut self, block_colors: &Vec<u32>, buffer: &mut Vec<u32>) -> (r: bool)
        ensures
            final(self).same_view(old(self)),
            final(self).accumulation() == old(self).accumulation(),
            final(self).full_samples() == old(self).full_samples(),
            r == (old(self).pass() matches Pass::Coarse { block_size, cols, rows, depth }
                && block_colors@.len() == cols * rows && old(buffer)@.len() == old(
                self,
            ).view_size().cells()),
            !r ==> final(self).samples() == old(self).samples() && final(buffer)@ == old(buffer)@,
            r ==> final(self).samples() == old(self).samples() + 1,
            r ==> final(buffer)@.len() == old(buffer)@.len(),
            r ==> (old(self).pass() matches Pass::Coarse { block_size, cols, rows, depth }
                && forall|i: int|
                0 <= i < final(buffer)@.len() ==> #[trigger] final(buffer)@[i] == block_colors@[block_under(
                    old(self).view_size().w as nat,
                    block_size as nat,
                    cols as nat,
                    i,
                )]),
    {
        proof {
            use_type_invariant(&*self);
        }
        match self.plan() {
            Pass::Coarse { block_size, cols, rows, depth } => {
                let w = self.image_size.w;
                let h = self.image_size.h;
                let n = self.color_buffer.len();
                proof {
                    lemma_blocks_across(w as nat, block_size as nat);
                    lemma_blocks_across(h as nat, block_size as nat);
                    lemma_grid_fits(w as nat, h as nat, cols as nat, rows as nat);
                }
                if block_colors.len() != cols * rows || buffer.len() != n {
                    return false;
                }
                let mut i: usize = 0;
                while i < n
                    invariant
                        i <= n,
                        n == w * h,
                        buffer@.len() == n,
                        block_size >= 1,
                        block_colors@.len() == cols * rows,
                        cols * rows <= usize::MAX,
                        cols * block_size >= w,
                        rows * block_size >= h,
                        forall|j: int|
                            0 <= j < i ==> #[trigger] buffer@[j] == block_colors@[block_under(
                                w as nat,
                                block_size as nat,
                                cols as nat,
                                j,
                            )],
                    decreases n - i,
                {
                    assert(w > 0) by (nonlinear_arith)
                        requires
                            i < w * h,
                    ;
                    let x = i % w;
                    let y = i / w;
                    proof {
                        lemma_pixel_of_image(w as int, h as int, i as int);
                        lemma_block_of_pixel(
                            block_size as int,
                            cols as int,
                            rows as int,
                            w as int,
                            h as int,
                            x as int,
                            y as int,
                        );
                    }
                    let by = y / block_size;
                    let bx = x / block_size;
                    assert(by * cols + bx < cols * rows);
                    assert(by * cols <= by * cols + bx);
                    let b = by * cols + bx;
                    buffer.set(i, block_colors[b]);
                    i = i + 1;
                }
                self.sample_current = self.sample_current + 1;
                true
            },
            _ => false,
        }
    }

    /// Records a full-resolution pass. `sums` holds, for each pixel, the
    /// accumulation's entry with the pixel's new sample added. Where the
    /// next tick is a full-resolution pass and `sums` has one entry per
    /// pixel, `sums` becomes the accumulation and both counters go up by
    /// one. Otherwise nothing changes and the result is false.
    pub fn finish_full(&mut self, sums: Vec<Color>) -> (r: bool)
        ensures
            final(self).same_view(old(self)),
            r == (old(self).pass() is Full && sums@.len() == old(self).view_size().cells()),
            r ==> final(self).accumulation() == sums@,
            r ==> final(self).samples() == old(self).samples() + 1,
            r ==> final(self).full_samples() == old(self).full_samples() + 1,
            !r ==> final(self).accumulation() == old(self).accumulation(),
            !r ==> final(self).samples() == old(self).samples(),
            !r ==> final(self).full_samples() == old(self).full_samples(),
    {
        proof {
            use_type_invariant(&*self);
        }
        match self.plan() {
            Pass::Full { depth } => {
                if sums.len() != self.color_buffer.len() {
                    return false;
                }
                self.sample_current = self.sample_current + 1;
                self.full_res_count = self.full_res_count + 1;
                self.color_buffer = sums;
                true
            },
            _ => false,
        }
    }
}

/// A grid of blocks has no more cells than the image has pixels.
proof fn lemma_grid_fits(w: nat, h: nat, cols: nat, rows: nat)
    requires
        cols <= w,
        rows <= h,
    ensures
        cols * rows <= w * h,
{
    assert(cols * rows <= w * h) by (nonlinear_arith)
        requires
            cols <= w,
            rows <= h,
    ;
}

/// Column and row of a cell of a grid.
proof fn lemma_cell_of_grid(cols: int, rows: int, bi: int)
    requires
        cols > 0,
        0 <= bi < cols * rows,
    ensures
        0 <= bi % cols < cols,
        0 <= bi / cols < rows,
{
    vstd::arithmetic::div_mod::lemma_fundamental_div_mod(bi, cols);
    vstd::arithmetic::div_mod::lemma_mod_bound(bi, cols);
    vstd::arithmetic::div_mod::lemma_div_pos_is_pos(bi, cols);
    let q = bi / cols;
    let m = bi % cols;
    assert(q < rows) by (nonlinear_arith)
        requires
            bi == cols * q + m,
            0 <= m,
            bi < cols * rows,
            cols > 0,
    ;
}

/// Column and row of a pixel of an image.
proof fn lemma_pixel_of_image(w: int, h: int, i: int)
    requires
        w > 0,
        0 <= i < w * h,
    ensures
        0 <= i % w < w,
        0 <= i / w < h,
{
    lemma_cell_of_grid(w, h, i);
}

/// A block of the grid starts inside the image.
proof fn lemma_block_start(extent: int, side: int, count: int, b: int)
    requires
        side >= 1,
        0 <= b < count,
        (count - 1) * side < extent,
    ensures
        0 <= b * side <= extent - 1,
{
    assert(0 <= b * side <= (count - 1) * side) by (nonlinear_arith)
        requires
            0 <= b <= count - 1,
            side >= 1,
    ;
}

/// The block over a pixel is a cell of the grid.
proof fn lemma_block_of_pixel(side: int, cols: int, rows: int, w: int, h: int, x: int, y: int)
    requires
        side >= 1,
        0 <= x < w,
        0 <= y < h,
        cols * side >= w,
        rows * side >= h,
    ensures
        0 <= x / side < cols,
        0 <= y / side < rows,
        0 <= (y / side) * cols + x / side < cols * rows,
        (y / side) * cols <= (y / side) * cols + x / side,
{
    vstd::arithmetic::div_mod::lemma_fundamental_div_mod(x, side);
    vstd::arithmetic::div_mod::lemma_mod_bound(x, side);
    vstd::arithmetic::div_mod::lemma_div_pos_is_pos(x, side);
    vstd::arithmetic::div_mod::lemma_fundamental_div_mod(y, side);
    vstd::arithmetic::div_mod::lemma_mod_bound(y, side);
    vstd::arithmetic::div_mod::lemma_div_pos_is_pos(y, side);
    let bx = x / side;
    let by = y / side;
    assert(bx < cols) by (nonlinear_arith)
        requires
            x == side * bx + x % side,
            0 <= x % side,
            x < w,
            w <= cols * side,
            side >= 1,
    ;
    assert(by < rows) by (nonlinear_arith)
        requires
            y == side * by + y % side,
            0 <= y % side,
            y < h,
            h <= rows * side,
            side >= 1,
    ;
    assert(0 <= by * cols + bx < cols * rows && by * cols >= 0) by (nonlinear_arith)
        requires
            0 <= bx < cols,
            0 <= by < rows,
    ;
}

} // verus!
