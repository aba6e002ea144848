//! The in-memory point-cloud model: oriented, colored, translucent Gaussian
//! splats held as five parallel sequences.
//!
//! Every float scalar is kept as the raw IEEE 754 bit pattern of an `f32`
//! (see `floatbits`); colors are kept as the bytes the file format stores.
use vstd::prelude::*;
use crate::error::Error;
use crate::floatbits::{f32_key, f32_min, f32_max, F32_INFINITY_BITS, F32_NEG_INFINITY_BITS};

verus! {

/// Three float scalars (a position or a per-axis scale), each as an `f32`
/// bit pattern.
#[derive(Clone, Copy, PartialEq, Eq, Structural, Debug)]
pub struct Float3 {
    pub x: u32,
    pub y: u32,
    pub z: u32,
}

/// A quaternion (w, x, y, z), each component as an `f32` bit pattern.
#[derive(Clone, Copy, PartialEq, Eq, Structural, Debug)]
pub struct Quat {
    pub w: u32,
    pub x: u32,
    pub y: u32,
    pub z: u32,
}

/// An RGB color, one byte per channel, exactly as the file format stores it.
/// A channel byte stands for the fraction `byte / 255`.
#[derive(Clone, Copy, PartialEq, Eq, Structural, Debug)]
pub struct Color3 {
    pub r: u8,
    pub g: u8,
    pub b: u8,
}

/// One splat: the five fields of a point, in the order the file format keeps
/// them. This is the named record contract of the codec.
#[derive(Clone, Copy, PartialEq, Eq, Structural, Debug)]
pub struct SplatRecord {
    pub position: Float3,
    pub scale: Float3,
    pub rotation: Quat,
    pub color: Color3,
    pub opacity: u32,
}

/// The axis-aligned box spanned by a cloud's positions, as bit patterns.
#[derive(Clone, Copy, PartialEq, Eq, Structural, Debug)]
pub struct BoundingBox {
    pub min: Float3,
    pub max: Float3,
}

/// The all-zero vector (the bit pattern of `0.0` on every axis).
pub open spec fn zero3() -> Float3 {
    Float3 { x: 0, y: 0, z: 0 }
}

impl BoundingBox {
    /// True when `p` lies inside the box on every axis, in float order.
    pub open spec fn contains(self, p: Float3) -> bool {
        &&& f32_key(self.min.x) <= f32_key(p.x) <= f32_key(self.max.x)
        &&& f32_key(self.min.y) <= f32_key(p.y) <= f32_key(self.max.y)
        &&& f32_key(self.min.z) <= f32_key(p.z) <= f32_key(self.max.z)
    }

    /// True when every face of the box touches some point of `ps`.
    pub open spec fn attained(self, ps: Seq<Float3>) -> bool {
        &&& exists|i: int| 0 <= i < ps.len() && f32_key(ps[i].x) == f32_key(self.min.x)
        &&& exists|i: int| 0 <= i < ps.len() && f32_key(ps[i].y) == f32_key(self.min.y)
        &&& exists|i: int| 0 <= i < ps.len() && f32_key(ps[i].z) == f32_key(self.min.z)
        &&& exists|i: int| 0 <= i < ps.len() && f32_key(ps[i].x) == f32_key(self.max.x)
        &&& exists|i: int| 0 <= i < ps.len() && f32_key(ps[i].y) == f32_key(self.max.y)
        &&& exists|i: int| 0 <= i < ps.len() && f32_key(ps[i].z) == f32_key(self.max.z)
    }
}

impl Default for BoundingBox {
    /// The degenerate box at the origin.
    fn default() -> (r: BoundingBox)
        ensures
            r.min == zero3() && r.max == zero3(),
    {
        BoundingBox { min: Float3 { x: 0, y: 0, z: 0 }, max: Float3 { x: 0, y: 0, z: 0 } }
    }
}

/// A set of Gaussian splats: a count and five parallel sequences that all
/// hold `count` entries when the cloud is consistent, plus optional
/// per-point spherical-harmonics coefficients that the codec never persists.
#[derive(Clone, Debug)]
pub struct GaussianCloud {
    /// Number of Gaussians.
    pub count: usize,
    /// Positions, one triple of `f32` bit patterns per point.
    pub positions: Vec<Float3>,
    /// Per-axis extents, one triple per point.
    pub scales: Vec<Float3>,
    /// Unit quaternions (w, x, y, z), one per point.
    pub rotations: Vec<Quat>,
    /// Colors, one byte triple per point.
    pub colors: Vec<Color3>,
    /// Opacity in [0, 1], one `f32` bit pattern per point.
    pub opacity: Vec<u32>,
    /// Optional view-dependent color coefficients; never persisted.
    pub sh_coefficients: Option<Vec<Vec<u32>>>,
}

impl GaussianCloud {
    /// True when all five sequences hold exactly `count` entries.
    pub open spec fn wf(&self) -> bool {
        &&& self.positions@.len() == self.count
        &&& self.scales@.len() == self.count
        &&& self.rotations@.len() == self.count
        &&& self.colors@.len() == self.count
        &&& self.opacity@.len() == self.count
    }

    /// The splats of a consistent cloud, as one record per point.
    pub open spec fn records(&self) -> Seq<SplatRecord> {
        Seq::new(
            self.count as nat,
            |i: int|
                SplatRecord {
                    position: self.positions@[i],
                    scale: self.scales@[i],
                    rotation: self.rotations@[i],
                    color: self.colors@[i],
                    opacity: self.opacity@[i],
                },
        )
    }

    /// True when the cloud holds exactly the given records, in order, and no
    /// spherical-harmonics data.
    pub open spec fn holds_records(&self, rs: Seq<SplatRecord>) -> bool {
        &&& self.wf()
        &&& self.count == rs.len()
        &&& self.records() == rs
        &&& self.sh_coefficients is None
    }

    /// Creates a new empty cloud.
    pub fn new() -> (r: GaussianCloud)
        ensures
            r.count == 0,
            r.wf(),
            r.sh_coefficients is None,
    {
        GaussianCloud {
            count: 0,
            positions: Vec::new(),
            scales: Vec::new(),
            rotations: Vec::new(),
            colors: Vec::new(),
            opacity: Vec::new(),
            sh_coefficients: None,
        }
    }

    /// Creates an empty cloud with room reserved for `capacity` points. The
    /// capacity is a hint only; the cloud is observably equal to a new one.
    pub fn with_capacity(capacity: usize) -> (r: GaussianCloud)
        ensures
            r.count == 0,
            r.wf(),
            r.sh_coefficients is None,
    {
        GaussianCloud {
            count: 0,
            positions: Vec::with_capacity(capacity),
            scales: Vec::with_capacity(capacity),
            rotations: Vec::with_capacity(capacity),
            colors: Vec::with_capacity(capacity),
            opacity: Vec::with_capacity(capacity),
            sh_coefficients: None,
        }
    }

    /// Appends one splat: pushes onto all five sequences together and raises
    /// the count by one.
    pub fn add_gaussian(
        &mut self,
        position: Float3,
        scale: Float3,
        rotation: Quat,
        color: Color3,
        opacity: u32,
    )
        requires
            old(self).count < usize::MAX,
        ensures
            final(self).count == old(self).count + 1,
            final(self).positions@ == old(self).positions@.push(position),
            final(self).scales@ == old(self).scales@.push(scale),
            final(self).rotations@ == old(self).rotations@.push(rotation),
            final(self).colors@ == old(self).colors@.push(color),
            final(self).opacity@ == old(self).opacity@.push(opacity),
            final(self).sh_coefficients == old(self).sh_coefficients,
            old(self).wf() ==> final(self).wf(),
    {
        self.positions.push(position);
        self.scales.push(scale);
        self.rotations.push(rotation);
        self.colors.push(color);
        self.opacity.push(opacity);
        self.count = self.count + 1;
    }

    /// The bounding box of all stored positions, in float order per axis.
    /// An empty cloud yields the degenerate box at the origin. Every stored
    /// position lies inside the returned box, and for a consistent non-empty
    /// cloud each bound is attained by some point.
    pub fn bounds(&self) -> (r: BoundingBox)
        ensures
            self.count == 0 ==> r.min == zero3() && r.max == zero3(),
            self.count != 0 ==> forall|i: int|
                0 <= i < self.positions@.len() ==> r.contains(#[trigger] self.positions@[i]),
            self.count != 0 && self.positions@.len() > 0 ==> r.attained(self.positions@),
            self.count != 0 && self.positions@.len() == 0 ==> r.min == (Float3 {
                x: F32_INFINITY_BITS,
                y: F32_INFINITY_BITS,
                z: F32_INFINITY_BITS,
            }) && r.max == (Float3 {
                x: F32_NEG_INFINITY_BITS,
                y: F32_NEG_INFINITY_BITS,
                z: F32_NEG_INFINITY_BITS,
            }),
    {
        if self.count == 0 {
            return BoundingBox {
                min: Float3 { x: 0, y: 0, z: 0 },
                max: Float3 { x: 0, y: 0, z: 0 },
            };
        }
        let n = self.positions.len();
        if n == 0 {
            return BoundingBox {
                min: Float3 { x: F32_INFINITY_BITS, y: F32_INFINITY_BITS, z: F32_INFINITY_BITS },
                max: Float3 {
                    x: F32_NEG_INFINITY_BITS,
                    y: F32_NEG_INFINITY_BITS,
                    z: F32_NEG_INFINITY_BITS,
                },
            };
        }
        let first = self.positions[0];
        let mut min = first;
        let mut max = first;
        let mut i: usize = 1;
        proof {
            assert(self.positions@.subrange(0, 1)[0] == self.positions@[0]);
            assert((BoundingBox { min, max }).attained(self.positions@.subrange(0, 1)));
        }
        while i < n
            invariant
                n == self.positions@.len(),
                1 <= i <= n,
                forall|j: int| 0 <= j < i ==> (BoundingBox { min, max }).contains(
                    #[trigger] self.positions@[j],
                ),
                (BoundingBox { min, max }).attained(self.positions@.subrange(0, i as int)),
            decreases n - i,
        {
            let ghost prev_min = min;
            let ghost prev_max = max;
            let p = self.positions[i];
            min = Float3 { x: f32_min(min.x, p.x), y: f32_min(min.y, p.y), z: f32_min(min.z, p.z) };
            max = Float3 { x: f32_max(max.x, p.x), y: f32_max(max.y, p.y), z: f32_max(max.z, p.z) };
            proof {
                let ps = self.positions@.subrange(0, i as int + 1);
                assert(ps[i as int] == self.positions@[i as int]);
                assert forall|j: int| 0 <= j < i + 1 implies (BoundingBox { min, max }).contains(
                    #[trigger] self.positions@[j],
                ) by {
                    if j < i {
                        assert((BoundingBox { min: prev_min, max: prev_max }).contains(
                            self.positions@[j],
                        ));
                    }
                }
                let prev = self.positions@.subrange(0, i as int);
                assert forall|k: int| 0 <= k < prev.len() implies prev[k] == ps[k] by {}
                assert((BoundingBox { min, max }).attained(ps));
            }
            i += 1;
        }
        proof {
            assert(self.positions@.subrange(0, n as int) =~= self.positions@);
        }
        BoundingBox { min, max }
    }

    /// Checks that all five sequences hold exactly `count` entries; reports
    /// an invalid-cloud error naming the inconsistency otherwise.
    pub fn validate(&self) -> (r: Result<(), Error>)
        ensures
            match r {
                Ok(()) => self.wf(),
                Err(e) => !self.wf() && (e matches Error::InvalidGaussianCloud(m) && m@
                    == "Inconsistent array lengths"@),
            },
    {
        if self.positions.len() != self.count || self.scales.len() != self.count
            || self.rotations.len() != self.count || self.colors.len() != self.count
            || self.opacity.len() != self.count {
            return Err(Error::InvalidGaussianCloud("Inconsistent array lengths".to_owned()));
        }
        Ok(())
    }
}

} // verus!
