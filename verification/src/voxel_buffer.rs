//! Array-backed voxel buffers behind a generic buffer interface.
//!
//! [`ArrayVoxelBuffer`] is a dense store: every cell of the volume has a
//! record, empty or not. Coordinate `(0, 0, 0)` is the bottom-left corner
//! closest to the viewer; `x` grows to the right, `y` away from the viewer,
//! and `z` up.

use vstd::prelude::*;
use crate::buffer::{spec_id, lemma_coord_id_roundtrip};

verus! {

/// A generic view of a voxel as a fixed-width byte record.
pub trait Voxel: Sized + Copy {
    /// The declared byte width of one record of this voxel kind.
    spec fn spec_width() -> nat;

    /// The byte window that one record serializes to.
    spec fn as_byte_seq(&self) -> Seq<u8>;

    /// The record that a byte window parses to.
    spec fn of_byte_seq(s: Seq<u8>) -> Self;

    /// The byte width is a constant of the voxel kind, at least one byte and
    /// small enough for any per-record slot of a model-exchange format.
    proof fn width_properties()
        ensures
            1 <= Self::spec_width() <= 255,
    ;

    /// Serialization is lossless: parsing a record's own bytes restores it.
    proof fn bytes_round_trip(&self)
        ensures
            self.as_byte_seq().len() == Self::spec_width(),
            Self::of_byte_seq(self.as_byte_seq()) == *self,
    ;

    /// The byte width of one record.
    fn width() -> (r: u8)
        ensures
            r as nat == Self::spec_width(),
    ;

    /// Serialize one record to exactly `width` bytes.
    fn to_bytes(&self) -> (r: Vec<u8>)
        ensures
            r@ == self.as_byte_seq(),
    ;

    /// Parse one record from exactly `width` bytes.
    fn from_bytes(bytes: &[u8]) -> (r: Self)
        requires
            bytes@.len() == Self::spec_width(),
        ensures
            r == Self::of_byte_seq(bytes@),
    ;

    /// The record whose bytes are all zero; buffers start filled with it.
    fn zeroed() -> (r: Self)
        ensures
            r == Self::of_byte_seq(Seq::new(Self::spec_width(), |i: int| 0u8)),
    ;
}

/// An RGBA voxel channel count.
pub const CHANNEL_COUNT_RGBA: usize = 4;

/// An RGBA voxel: one byte per channel, in the order red, green, blue,
/// alpha. A voxel with alpha `0` is treated as empty by the model encoder.
#[derive(Clone, Copy, Debug, Eq, PartialEq, Hash)]
pub struct Rgba(pub [u8; CHANNEL_COUNT_RGBA]);

impl Voxel for Rgba {
    open spec fn spec_width() -> nat {
        4
    }

    open spec fn as_byte_seq(&self) -> Seq<u8> {
        self.0@
    }

    open spec fn of_byte_seq(s: Seq<u8>) -> Self {
        Rgba([s[0], s[1], s[2], s[3]])
    }

    proof fn width_properties() {
    }

    proof fn bytes_round_trip(&self) {
        assert(Self::of_byte_seq(self.as_byte_seq()).0 =~= self.0);
    }

    fn width() -> (r: u8) {
        4
    }

    fn to_bytes(&self) -> (r: Vec<u8>) {
        let mut v: Vec<u8> = Vec::new();
        v.push(self.0[0]);
        v.push(self.0[1]);
        v.push(self.0[2]);
        v.push(self.0[3]);
        proof {
            assert(v@ =~= self.as_byte_seq());
        }
        v
    }

    fn from_bytes(bytes: &[u8]) -> (r: Self) {
        let r = Rgba([bytes[0], bytes[1], bytes[2], bytes[3]]);
        proof {
            assert(r.0 =~= Self::of_byte_seq(bytes@).0);
        }
        r
    }

    fn zeroed() -> (r: Self) {
        let r = Rgba([0, 0, 0, 0]);
        proof {
            assert(r.0 =~= Self::of_byte_seq(Seq::new(Self::spec_width(), |i: int| 0u8)).0);
        }
        r
    }
}

/// A generic voxel buffer: bounds-checked coordinate access over an owned
/// volume of records.
pub trait VoxelBuffer: Sized {
    /// The record type one cell holds.
    type Voxel;

    /// The declared dimensions `(size_x, size_y, size_z)`.
    spec fn spec_dimensions(&self) -> (u32, u32, u32);

    /// The stored records, in ascending row-major linear-index order.
    spec fn contents(&self) -> Seq<Self::Voxel>;

    /// The buffer holds exactly one record per declared cell.
    spec fn buffer_wf(&self) -> bool;

    /// Get the voxel buffer dimensions as `(size_x, size_y, size_z)`.
    fn dimensions(&self) -> (r: (u32, u32, u32))
        ensures
            r == self.spec_dimensions(),
    ;

    /// A reference to the voxel at `(x, y, z)`.
    ///
    /// Out-of-range coordinates are a programming error; callers validate
    /// against the dimensions first.
    fn voxel(&self, x: u32, y: u32, z: u32) -> (r: &Self::Voxel)
        requires
            self.buffer_wf(),
            x < self.spec_dimensions().0,
            y < self.spec_dimensions().1,
            z < self.spec_dimensions().2,
        ensures
            *r == self.contents()[spec_id(
                self.spec_dimensions().0 as nat,
                self.spec_dimensions().1 as nat,
                x as nat,
                y as nat,
                z as nat,
            ) as int],
    ;

    /// A mutable reference to the voxel at `(x, y, z)`.
    ///
    /// Out-of-range coordinates are a programming error; callers validate
    /// against the dimensions first.
    fn voxel_mut(&mut self, x: u32, y: u32, z: u32) -> (r: &mut Self::Voxel)
        requires
            old(self).buffer_wf(),
            x < old(self).spec_dimensions().0,
            y < old(self).spec_dimensions().1,
            z < old(self).spec_dimensions().2,
        ensures
            *r == old(self).contents()[spec_id(
                old(self).spec_dimensions().0 as nat,
                old(self).spec_dimensions().1 as nat,
                x as nat,
                y as nat,
                z as nat,
            ) as int],
            final(self).contents() == old(self).contents().update(
                spec_id(
                    old(self).spec_dimensions().0 as nat,
                    old(self).spec_dimensions().1 as nat,
                    x as nat,
                    y as nat,
                    z as nat,
                ) as int,
                *final(r),
            ),
            final(self).spec_dimensions() == old(self).spec_dimensions(),
            final(self).buffer_wf(),
    ;
}

/// A generic array-based voxel buffer.
///
/// Dense: every cell of the volume stores a record, so memory use is
/// `size_x * size_y * size_z * voxel_width` bytes. Suited to fast updates
/// rather than sparse volumes.
pub struct ArrayVoxelBuffer<T> {
    size_x: u32,
    size_y: u32,
    size_z: u32,
    data: Vec<T>,
}

impl<T: Voxel> ArrayVoxelBuffer<T> {
    /// The stored voxel records, in ascending linear-index order.
    pub closed spec fn voxels(&self) -> Seq<T> {
        self.data@
    }

    /// The declared dimensions.
    pub closed spec fn dims(&self) -> (u32, u32, u32) {
        (self.size_x, self.size_y, self.size_z)
    }

    /// The number of cells the dimensions declare.
    pub open spec fn total(&self) -> nat {
        self.dims().0 as nat * self.dims().1 as nat * self.dims().2 as nat
    }

    /// Well-formedness: one record per declared cell, and the byte size of
    /// the whole store is addressable.
    pub open spec fn wf(&self) -> bool {
        &&& self.voxels().len() == self.total()
        &&& T::spec_width() * (self.dims().0 as nat) <= usize::MAX
        &&& T::spec_width() * (self.dims().0 as nat) * (self.dims().1 as nat) <= usize::MAX
        &&& T::spec_width() * (self.dims().0 as nat) * (self.dims().1 as nat) * (
        self.dims().2 as nat) <= usize::MAX
    }

    /// The byte length of the store needed for the given dimensions, or
    /// `None` where the running product overflows the addressable-size type.
    pub fn len(size_x: u32, size_y: u32, size_z: u32) -> (r: Option<usize>)
        ensures
            match r {
                Some(n) => {
                    &&& n == T::spec_width() * (size_x as nat) * (size_y as nat) * (size_z as nat)
                    &&& T::spec_width() * (size_x as nat) <= usize::MAX
                    &&& T::spec_width() * (size_x as nat) * (size_y as nat) <= usize::MAX
                    &&& T::spec_width() * (size_x as nat) * (size_y as nat) * (size_z as nat)
                        <= usize::MAX
                },
                None => {
                    T::spec_width() * (size_x as nat) > usize::MAX || T::spec_width() * (
                    size_x as nat) * (size_y as nat) > usize::MAX || T::spec_width() * (
                    size_x as nat) * (size_y as nat) * (size_z as nat) > usize::MAX
                },
            },
    {
        let width = T::width() as usize;
        match width.checked_mul(size_x as usize) {
            None => None,
            Some(s1) => match s1.checked_mul(size_y as usize) {
                None => None,
                Some(s2) => s2.checked_mul(size_z as usize),
            },
        }
    }

    /// Create a new empty (all-zero) array-based voxel buffer.
    ///
    /// Inputs whose store size overflows the addressable-size type are not
    /// accepted; [`ArrayVoxelBuffer::len`] reports them as `None`.
    pub fn new(size_x: u32, size_y: u32, size_z: u32) -> (r: ArrayVoxelBuffer<T>)
        requires
            T::spec_width() * (size_x as nat) <= usize::MAX,
            T::spec_width() * (size_x as nat) * (size_y as nat) <= usize::MAX,
            T::spec_width() * (size_x as nat) * (size_y as nat) * (size_z as nat) <= usize::MAX,
        ensures
            r.wf(),
            r.dims() == (size_x, size_y, size_z),
            r.voxels() == Seq::new(
                r.total(),
                |i: int| T::of_byte_seq(Seq::new(T::spec_width(), |j: int| 0u8)),
            ),
    {
        proof {
            T::width_properties();
            assert((size_x as nat) * (size_y as nat) * (size_z as nat) <= T::spec_width() * (
            size_x as nat) * (size_y as nat) * (size_z as nat) && (size_x as nat) * (
            size_y as nat) <= T::spec_width() * (size_x as nat) * (size_y as nat))
                by (nonlinear_arith)
                requires
                    T::spec_width() >= 1,
            ;
        }
        let count = (size_x as usize) * (size_y as usize) * (size_z as usize);
        let mut data: Vec<T> = Vec::new();
        let zero = T::zeroed();
        let mut i: usize = 0;
        while i < count
            invariant
                i <= count,
                count == (size_x as nat) * (size_y as nat) * (size_z as nat),
                zero == T::of_byte_seq(Seq::new(T::spec_width(), |j: int| 0u8)),
                data@ =~= Seq::new(i as nat, |k: int| zero),
            decreases count - i,
        {
            data.push(zero);
            i += 1;
        }
        let r = ArrayVoxelBuffer { size_x, size_y, size_z, data };
        proof {
            assert(r.voxels() =~= Seq::new(
                r.total(),
                |i: int| T::of_byte_seq(Seq::new(T::spec_width(), |j: int| 0u8)),
            ));
        }
        r
    }

    /// The linear index of an in-range coordinate.
    fn id_unchecked(&self, x: u32, y: u32, z: u32) -> (r: usize)
        requires
            self.wf(),
            x < self.dims().0,
            y < self.dims().1,
            z < self.dims().2,
        ensures
            r as nat == spec_id(self.dims().0 as nat, self.dims().1 as nat, x as nat, y as nat, z as nat),
            r < self.total(),
    {
        proof {
            T::width_properties();
            lemma_avb_total_le_max(
                T::spec_width(),
                self.dims().0 as nat,
                self.dims().1 as nat,
                self.dims().2 as nat,
            );
            lemma_coord_id_roundtrip(
                self.dims().0 as nat,
                self.dims().1 as nat,
                self.dims().2 as nat,
                x as nat,
                y as nat,
                z as nat,
            );
            assert((self.dims().0 as nat) * (self.dims().1 as nat) <= self.total())
                by (nonlinear_arith)
                requires
                    self.dims().2 >= 1,
                    self.total() == (self.dims().0 as nat) * (self.dims().1 as nat) * (
                    self.dims().2 as nat),
            ;
        }
        x as usize + (y as usize * self.size_x as usize) + (z as usize * (self.size_x as usize
            * self.size_y as usize))
    }
}

/// The cell count of a grid is addressable whenever its byte size is: a
/// record is at least one byte wide.
proof fn lemma_avb_total_le_max(width: nat, sx: nat, sy: nat, sz: nat)
    requires
        1 <= width,
        width * sx <= usize::MAX,
        width * sx * sy <= usize::MAX,
        width * sx * sy * sz <= usize::MAX,
    ensures
        sx <= usize::MAX,
        sx * sy <= usize::MAX,
        sx * sy * sz <= usize::MAX,
{
    assert(sx <= width * sx && sx * sy <= width * sx * sy && sx * sy * sz <= width * sx * sy
        * sz) by (nonlinear_arith)
        requires
            1 <= width,
    ;
}

impl<V: Voxel> VoxelBuffer for ArrayVoxelBuffer<V> {
    type Voxel = V;

    open spec fn spec_dimensions(&self) -> (u32, u32, u32) {
        self.dims()
    }

    open spec fn contents(&self) -> Seq<V> {
        self.voxels()
    }

    open spec fn buffer_wf(&self) -> bool {
        self.wf()
    }

    fn dimensions(&self) -> (r: (u32, u32, u32)) {
        (self.size_x, self.size_y, self.size_z)
    }

    fn voxel(&self, x: u32, y: u32, z: u32) -> (r: &V) {
        let i = self.id_unchecked(x, y, z);
        &self.data[i]
    }

    fn voxel_mut(&mut self, x: u32, y: u32, z: u32) -> (r: &mut V) {
        let i = self.id_unchecked(x, y, z);
        &mut self.data[i]
    }
}

impl ArrayVoxelBuffer<Rgba> {
    /// The buffer's colors as plain byte tuples, in ascending linear-index
    /// order: what the model encoder reads.
    pub open spec fn color_seq(&self) -> Seq<crate::vox::ColorBytes> {
        Seq::new(self.voxels().len(), |i: int| avb_rgba_color(self.voxels()[i]))
    }

    /// Encode the buffer into the complete binary model file.
    ///
    /// Returns `None` exactly when the buffer falls outside what the
    /// format's record layout can carry: a dimension above 256 or more than
    /// 255 distinct colors among the non-transparent voxels.
    pub fn encode(&self) -> (r: Option<Vec<u8>>)
        requires
            self.wf(),
        ensures
            match r {
                Some(bytes) => {
                    &&& self.dims().0 <= 256
                    &&& self.dims().1 <= 256
                    &&& self.dims().2 <= 256
                    &&& crate::vox::palette_of(self.color_seq()).len() <= 255
                    &&& bytes@ == crate::vox::encode_spec(
                        self.dims().0,
                        self.dims().1,
                        self.dims().2,
                        self.color_seq(),
                    )
                },
                None => self.dims().0 > 256 || self.dims().1 > 256 || self.dims().2 > 256
                    || crate::vox::palette_of(self.color_seq()).len() > 255,
            },
    {
        let mut colors: Vec<crate::vox::ColorBytes> = Vec::new();
        let mut i: usize = 0;
        let total = self.data.len();
        while i < total
            invariant
                i <= total,
                total == self.voxels().len(),
                colors@ =~= self.color_seq().take(i as int),
            decreases total - i,
        {
            let v = self.data[i];
            colors.push((v.0[0], v.0[1], v.0[2], v.0[3]));
            i += 1;
        }
        proof {
            assert(colors@ =~= self.color_seq());
        }
        crate::vox::encode_colors(self.size_x, self.size_y, self.size_z, &colors)
    }
}

/// The plain byte channels of one RGBA voxel: `(red, green, blue, alpha)`.
pub open spec fn avb_rgba_color(v: Rgba) -> crate::vox::ColorBytes {
    (v.0@[0], v.0@[1], v.0@[2], v.0@[3])
}

} // verus!
