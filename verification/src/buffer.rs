//! Dense volumetric image buffers.
//!
//! A [`VolumeBuffer`] owns a contiguous store of fixed-width voxel records,
//! addressed either by `(x, y, z)` coordinate or by linear index. The linear
//! index is row-major: `x` varies fastest, then `y`, then `z`.

use vstd::prelude::*;
use vstd::arithmetic::div_mod::lemma_fundamental_div_mod_converse;

verus! {

/// A generalized voxel: a fixed-width byte record.
///
/// Every voxel kind declares its byte width and converts losslessly to and
/// from a byte window of exactly that width.
pub trait Voxel: Sized + Copy {
    /// The declared byte width of one record of this voxel kind.
    spec fn spec_width() -> nat;

    /// The byte window that one record serializes to.
    spec fn as_byte_seq(&self) -> Seq<u8>;

    /// The record that a byte window parses to.
    spec fn of_byte_seq(s: Seq<u8>) -> Self;

    /// The byte width is a constant of the voxel kind, at least one byte and
    /// small enough for any per-record slot of a model-exchange format.
    proof fn width_properties()
        ensures
            1 <= Self::spec_width() <= 255,
    ;

    /// Serialization is lossless: parsing a record's own bytes restores it.
    proof fn bytes_round_trip(&self)
        ensures
            self.as_byte_seq().len() == Self::spec_width(),
            Self::of_byte_seq(self.as_byte_seq()) == *self,
    ;

    /// The byte width of one record.
    fn width() -> (r: u8)
        ensures
            r as nat == Self::spec_width(),
    ;

    /// Serialize one record to exactly `width` bytes.
    fn to_bytes(&self) -> (r: Vec<u8>)
        ensures
            r@ == self.as_byte_seq(),
    ;

    /// Parse one record from exactly `width` bytes.
    fn from_bytes(bytes: &[u8]) -> (r: Self)
        requires
            bytes@.len() == Self::spec_width(),
        ensures
            r == Self::of_byte_seq(bytes@),
    ;

    /// The record whose bytes are all zero; buffers start filled with it.
    fn zeroed() -> (r: Self)
        ensures
            r == Self::of_byte_seq(Seq::new(Self::spec_width(), |i: int| 0u8)),
    ;
}

/// The number of channels of an RGBA voxel.
pub const CHANNEL_COUNT_RGBA: usize = 4;

/// A simple RGBA voxel: one byte per channel, in the order red, green, blue,
/// alpha.
///
/// A voxel with alpha `0` is treated as empty by the model encoder.
#[derive(Clone, Copy, Debug, Eq, PartialEq, Hash)]
pub struct Rgba(pub [u8; CHANNEL_COUNT_RGBA]);

impl Voxel for Rgba {
    open spec fn spec_width() -> nat {
        4
    }

    open spec fn as_byte_seq(&self) -> Seq<u8> {
        self.0@
    }

    open spec fn of_byte_seq(s: Seq<u8>) -> Self {
        Rgba([s[0], s[1], s[2], s[3]])
    }

    proof fn width_properties() {
    }

    proof fn bytes_round_trip(&self) {
        assert(Self::of_byte_seq(self.as_byte_seq()).0 =~= self.0);
    }

    fn width() -> (r: u8) {
        4
    }

    fn to_bytes(&self) -> (r: Vec<u8>) {
        let mut v: Vec<u8> = Vec::new();
        v.push(self.0[0]);
        v.push(self.0[1]);
        v.push(self.0[2]);
        v.push(self.0[3]);
        proof {
            assert(v@ =~= self.as_byte_seq());
        }
        v
    }

    fn from_bytes(bytes: &[u8]) -> (r: Self) {
        let r = Rgba([bytes[0], bytes[1], bytes[2], bytes[3]]);
        proof {
            assert(r.0 =~= Self::of_byte_seq(bytes@).0);
        }
        r
    }

    fn zeroed() -> (r: Self) {
        let r = Rgba([0, 0, 0, 0]);
        proof {
            assert(r.0 =~= Self::of_byte_seq(Seq::new(Self::spec_width(), |i: int| 0u8)).0);
        }
        r
    }
}

/// The row-major linear index of coordinate `(x, y, z)` in a grid of width
/// `w` and depth `d`.
pub open spec fn spec_id(w: nat, d: nat, x: nat, y: nat, z: nat) -> nat {
    x + y * w + z * (w * d)
}

/// The coordinate of row-major linear index `i` in a grid of width `w` and
/// depth `d`: the exact inverse of [`spec_id`] on in-range input.
pub open spec fn spec_coord(w: nat, d: nat, i: nat) -> (nat, nat, nat) {
    let z = i / (w * d);
    let rem = i % (w * d);
    (rem % w, rem / w, z)
}

/// Coordinate-to-index round trip: on any coordinate inside a `w * d * h`
/// grid, [`spec_coord`] exactly inverts [`spec_id`], and the index is inside
/// the grid's linear range.
pub proof fn lemma_coord_id_roundtrip(w: nat, d: nat, h: nat, x: nat, y: nat, z: nat)
    requires
        x < w,
        y < d,
        z < h,
    ensures
        spec_id(w, d, x, y, z) < w * d * h,
        spec_coord(w, d, spec_id(w, d, x, y, z)) == (x, y, z),
{
    let plane = (x + y * w) as nat;
    let i = spec_id(w, d, x, y, z);
    assert(plane < w * d) by (nonlinear_arith)
        requires
            x < w,
            y < d,
            plane == x + y * w,
    ;
    assert(i < w * d * h) by (nonlinear_arith)
        requires
            plane < w * d,
            z < h,
            i == plane + z * (w * d),
    ;
    lemma_fundamental_div_mod_converse(i as int, (w * d) as int, z as int, plane as int);
    lemma_fundamental_div_mod_converse(plane as int, w as int, y as int, x as int);
}

/// Index-to-coordinate round trip, the other direction: every linear index
/// inside a `w * d * h` grid names exactly one in-range coordinate, and
/// [`spec_id`] maps that coordinate back to it. Together with
/// [`lemma_coord_id_roundtrip`] this makes the coordinate-index mapping a
/// bijection, so a walk over the linear indices visits every cell exactly
/// once.
pub proof fn lemma_id_coord_roundtrip(w: nat, d: nat, h: nat, i: nat)
    requires
        i < w * d * h,
    ensures
        spec_coord(w, d, i).0 < w,
        spec_coord(w, d, i).1 < d,
        spec_coord(w, d, i).2 < h,
        spec_id(w, d, spec_coord(w, d, i).0, spec_coord(w, d, i).1, spec_coord(w, d, i).2) == i,
{
    assert(w >= 1 && d >= 1 && h >= 1) by (nonlinear_arith)
        requires
            i < w * d * h,
            i >= 0,
    ;
    lemma_coord_in_range(w, d, h, i);
    let plane = (w * d) as int;
    let z = i as int / plane;
    let rem = i as int % plane;
    let y = rem / w as int;
    let x = rem % w as int;
    vstd::arithmetic::div_mod::lemma_fundamental_div_mod(i as int, plane);
    vstd::arithmetic::div_mod::lemma_fundamental_div_mod(rem, w as int);
    assert(x + y * w + z * plane == (w as int * y + x) + plane * z) by (nonlinear_arith);
}

/// Generic volumetric image buffer.
///
/// Owns a dense store of `width * depth * height` voxel records. Dimensions
/// are immutable after construction; coordinate `(0, 0, 0)` is one fixed
/// corner of the volume.
pub struct VolumeBuffer<T> {
    width: u32,
    depth: u32,
    height: u32,
    data: Vec<T>,
}

impl<T: Voxel> VolumeBuffer<T> {
    /// The buffer's width (extent of the `x` axis).
    pub closed spec fn spec_width(&self) -> u32 {
        self.width
    }

    /// The buffer's depth (extent of the `y` axis).
    pub closed spec fn spec_depth(&self) -> u32 {
        self.depth
    }

    /// The buffer's height (extent of the `z` axis).
    pub closed spec fn spec_height(&self) -> u32 {
        self.height
    }

    /// The stored voxel records, in ascending linear-index order.
    pub closed spec fn voxels(&self) -> Seq<T> {
        self.data@
    }

    /// The number of voxel records the dimensions declare.
    pub open spec fn total(&self) -> nat {
        self.spec_width() as nat * self.spec_depth() as nat * self.spec_height() as nat
    }

    /// Well-formedness: the store holds exactly one record per declared cell,
    /// and the byte size of the whole store is addressable.
    pub open spec fn wf(&self) -> bool {
        &&& self.voxels().len() == self.total()
        &&& T::spec_width() * (self.spec_width() as nat) <= usize::MAX
        &&& T::spec_width() * (self.spec_width() as nat) * (self.spec_depth() as nat)
            <= usize::MAX
        &&& T::spec_width() * (self.spec_width() as nat) * (self.spec_depth() as nat) * (
        self.spec_height() as nat) <= usize::MAX
    }

    /// The byte length of the store needed for the given dimensions, or
    /// `None` where the running product `width * depth * height * voxel_width`
    /// overflows the addressable-size type.
    pub fn len(width: u32, depth: u32, height: u32) -> (r: Option<usize>)
        ensures
            match r {
                Some(n) => {
                    &&& n == T::spec_width() * (width as nat) * (depth as nat) * (height as nat)
                    &&& T::spec_width() * (width as nat) <= usize::MAX
                    &&& T::spec_width() * (width as nat) * (depth as nat) <= usize::MAX
                    &&& T::spec_width() * (width as nat) * (depth as nat) * (height as nat)
                        <= usize::MAX
                },
                None => {
                    T::spec_width() * (width as nat) > usize::MAX || T::spec_width() * (
                    width as nat) * (depth as nat) > usize::MAX || T::spec_width() * (
                    width as nat) * (depth as nat) * (height as nat) > usize::MAX
                },
            },
    {
        let size = T::width() as usize;
        let r1 = size.checked_mul(width as usize);
        match r1 {
            None => None,
            Some(s1) => {
                let r2 = s1.checked_mul(depth as usize);
                match r2 {
                    None => None,
                    Some(s2) => s2.checked_mul(height as usize),
                }
            },
        }
    }

    /// Allocate a zero-filled buffer of the given dimensions.
    ///
    /// Inputs whose store size overflows the addressable-size type are not
    /// accepted; [`VolumeBuffer::len`] reports them as `None`.
    pub fn new(width: u32, depth: u32, height: u32) -> (r: VolumeBuffer<T>)
        requires
            T::spec_width() * (width as nat) <= usize::MAX,
            T::spec_width() * (width as nat) * (depth as nat) <= usize::MAX,
            T::spec_width() * (width as nat) * (depth as nat) * (height as nat) <= usize::MAX,
        ensures
            r.wf(),
            r.spec_width() == width,
            r.spec_depth() == depth,
            r.spec_height() == height,
            r.voxels() == Seq::new(r.total(), |i: int| T::of_byte_seq(Seq::new(T::spec_width(), |j: int| 0u8))),
    {
        proof {
            T::width_properties();
            assert((width as nat) * (depth as nat) * (height as nat) <= T::spec_width() * (
            width as nat) * (depth as nat) * (height as nat)) by (nonlinear_arith)
                requires
                    T::spec_width() >= 1,
            ;
            assert((width as nat) * (depth as nat) <= T::spec_width() * (width as nat) * (
            depth as nat)) by (nonlinear_arith)
                requires
                    T::spec_width() >= 1,
            ;
        }
        let count = (width as usize) * (depth as usize) * (height as usize);
        let mut data: Vec<T> = Vec::new();
        let zero = T::zeroed();
        let mut i: usize = 0;
        while i < count
            invariant
                i <= count,
                count == (width as nat) * (depth as nat) * (height as nat),
                zero == T::of_byte_seq(Seq::new(T::spec_width(), |j: int| 0u8)),
                data@ =~= Seq::new(i as nat, |k: int| zero),
            decreases count - i,
        {
            data.push(zero);
            i += 1;
        }
        let r = VolumeBuffer { width, depth, height, data };
        proof {
            assert(r.voxels() =~= Seq::new(
                r.total(),
                |i: int| T::of_byte_seq(Seq::new(T::spec_width(), |j: int| 0u8)),
            ));
        }
        r
    }

    /// The buffer's width (extent of the `x` axis).
    pub fn width(&self) -> (r: u32)
        ensures
            r == self.spec_width(),
    {
        self.width
    }

    /// The buffer's depth (extent of the `y` axis).
    pub fn depth(&self) -> (r: u32)
        ensures
            r == self.spec_depth(),
    {
        self.depth
    }

    /// The buffer's height (extent of the `z` axis).
    pub fn height(&self) -> (r: u32)
        ensures
            r == self.spec_height(),
    {
        self.height
    }

    /// The linear index of coordinate `(x, y, z)`, or `None` when any
    /// coordinate reaches past its dimension.
    pub fn id(&self, x: u32, y: u32, z: u32) -> (r: Option<usize>)
        requires
            self.wf(),
        ensures
            match r {
                Some(i) => {
                    &&& x < self.spec_width()
                    &&& y < self.spec_depth()
                    &&& z < self.spec_height()
                    &&& i as nat == spec_id(
                        self.spec_width() as nat,
                        self.spec_depth() as nat,
                        x as nat,
                        y as nat,
                        z as nat,
                    )
                    &&& i < self.total()
                },
                None => x >= self.spec_width() || y >= self.spec_depth() || z
                    >= self.spec_height(),
            },
    {
        if x >= self.width || y >= self.depth || z >= self.height {
            return None;
        }
        Some(self.id_unchecked(x, y, z))
    }

    /// The linear index of an in-range coordinate.
    fn id_unchecked(&self, x: u32, y: u32, z: u32) -> (r: usize)
        requires
            self.wf(),
            x < self.spec_width(),
            y < self.spec_depth(),
            z < self.spec_height(),
        ensures
            r as nat == spec_id(
                self.spec_width() as nat,
                self.spec_depth() as nat,
                x as nat,
                y as nat,
                z as nat,
            ),
            r < self.total(),
    {
        proof {
            T::width_properties();
            lemma_total_le_max(
                T::spec_width(),
                self.spec_width() as nat,
                self.spec_depth() as nat,
                self.spec_height() as nat,
            );
            lemma_coord_id_roundtrip(
                self.spec_width() as nat,
                self.spec_depth() as nat,
                self.spec_height() as nat,
                x as nat,
                y as nat,
                z as nat,
            );
            assert((self.spec_width() as nat) * (self.spec_depth() as nat) <= self.total())
                by (nonlinear_arith)
                requires
                    self.spec_height() >= 1,
                    self.total() == (self.spec_width() as nat) * (self.spec_depth() as nat) * (
                    self.spec_height() as nat),
            ;
        }
        x as usize + (y as usize * self.width as usize) + (z as usize * (self.width as usize
            * self.depth as usize))
    }

    /// The coordinate of linear index `i`, or `None` when `i` reaches past
    /// the grid.
    pub fn coordinate(&self, i: usize) -> (r: Option<(u32, u32, u32)>)
        requires
            self.wf(),
        ensures
            match r {
                Some(c) => {
                    &&& i < self.total()
                    &&& (c.0 as nat, c.1 as nat, c.2 as nat) == spec_coord(
                        self.spec_width() as nat,
                        self.spec_depth() as nat,
                        i as nat,
                    )
                    &&& c.0 < self.spec_width()
                    &&& c.1 < self.spec_depth()
                    &&& c.2 < self.spec_height()
                },
                None => i >= self.total(),
            },
    {
        proof {
            T::width_properties();
            lemma_total_le_max(
                T::spec_width(),
                self.spec_width() as nat,
                self.spec_depth() as nat,
                self.spec_height() as nat,
            );
        }
        if self.height == 0 || self.depth == 0 || self.width == 0 {
            proof {
                assert(self.total() == 0) by (nonlinear_arith)
                    requires
                        self.total() == (self.spec_width() as nat) * (self.spec_depth() as nat) * (
                        self.spec_height() as nat),
                        self.spec_width() == 0 || self.spec_depth() == 0 || self.spec_height()
                            == 0,
                ;
            }
            return None;
        }
        proof {
            assert((self.spec_width() as nat) * (self.spec_depth() as nat) <= self.total())
                by (nonlinear_arith)
                requires
                    self.spec_height() >= 1,
                    self.total() == (self.spec_width() as nat) * (self.spec_depth() as nat) * (
                    self.spec_height() as nat),
            ;
            assert((self.spec_width() as nat) * (self.spec_depth() as nat) >= 1)
                by (nonlinear_arith)
                requires
                    self.spec_width() >= 1,
                    self.spec_depth() >= 1,
            ;
        }
        let plane_size = self.width as usize * self.depth as usize;
        let total = plane_size * self.height as usize;
        if i >= total {
            return None;
        }
        Some(self.coordinate_unchecked(i))
    }

    /// The coordinate of an in-range linear index.
    fn coordinate_unchecked(&self, i: usize) -> (r: (u32, u32, u32))
        requires
            self.wf(),
            i < self.total(),
        ensures
            (r.0 as nat, r.1 as nat, r.2 as nat) == spec_coord(
                self.spec_width() as nat,
                self.spec_depth() as nat,
                i as nat,
            ),
            r.0 < self.spec_width(),
            r.1 < self.spec_depth(),
            r.2 < self.spec_height(),
    {
        let ghost w = self.spec_width() as nat;
        let ghost d = self.spec_depth() as nat;
        let ghost h = self.spec_height() as nat;
        proof {
            assert(w >= 1 && d >= 1 && h >= 1) by (nonlinear_arith)
                requires
                    i < w * d * h,
                    w == self.spec_width() as nat,
                    d == self.spec_depth() as nat,
                    h == self.spec_height() as nat,
                    i >= 0,
            ;
            assert(w * d >= 1 && w * d <= w * d * h) by (nonlinear_arith)
                requires
                    w >= 1,
                    d >= 1,
                    h >= 1,
            ;
            T::width_properties();
            lemma_total_le_max(T::spec_width(), w, d, h);
        }
        let plane_size = self.width as usize * self.depth as usize;
        let z = i / plane_size;
        let rem = i % plane_size;
        let y = rem / (self.width as usize);
        let x = rem % (self.width as usize);
        proof {
            lemma_coord_in_range(w, d, h, i as nat);
        }
        (x as u32, y as u32, z as u32)
    }
}

impl<T: Voxel> VolumeBuffer<T> {
    /// A reference to the voxel record at coordinate `(x, y, z)`.
    ///
    /// Out-of-range coordinates are a programming error; callers validate
    /// with [`VolumeBuffer::id`] first.
    pub fn get(&self, x: u32, y: u32, z: u32) -> (r: &T)
        requires
            self.wf(),
            x < self.spec_width(),
            y < self.spec_depth(),
            z < self.spec_height(),
        ensures
            *r == self.voxels()[spec_id(
                self.spec_width() as nat,
                self.spec_depth() as nat,
                x as nat,
                y as nat,
                z as nat,
            ) as int],
    {
        let i = self.id_unchecked(x, y, z);
        &self.data[i]
    }

    /// A mutable reference to the voxel record at coordinate `(x, y, z)`.
    ///
    /// Out-of-range coordinates are a programming error; callers validate
    /// with [`VolumeBuffer::id`] first.
    pub fn get_mut(&mut self, x: u32, y: u32, z: u32) -> (r: &mut T)
        requires
            old(self).wf(),
            x < old(self).spec_width(),
            y < old(self).spec_depth(),
            z < old(self).spec_height(),
        ensures
            *r == old(self).voxels()[spec_id(
                old(self).spec_width() as nat,
                old(self).spec_depth() as nat,
                x as nat,
                y as nat,
                z as nat,
            ) as int],
            final(self).voxels() == old(self).voxels().update(
                spec_id(
                    old(self).spec_width() as nat,
                    old(self).spec_depth() as nat,
                    x as nat,
                    y as nat,
                    z as nat,
                ) as int,
                *final(r),
            ),
            final(self).spec_width() == old(self).spec_width(),
            final(self).spec_depth() == old(self).spec_depth(),
            final(self).spec_height() == old(self).spec_height(),
            final(self).wf(),
    {
        let i = self.id_unchecked(x, y, z);
        &mut self.data[i]
    }

    /// A reference to the voxel record at linear index `i`.
    ///
    /// An out-of-range index is a programming error; callers validate with
    /// [`VolumeBuffer::coordinate`] first.
    pub fn get_id(&self, i: usize) -> (r: &T)
        requires
            self.wf(),
            i < self.total(),
        ensures
            *r == self.voxels()[i as int],
    {
        &self.data[i]
    }

    /// A mutable reference to the voxel record at linear index `i`.
    ///
    /// An out-of-range index is a programming error; callers validate with
    /// [`VolumeBuffer::coordinate`] first.
    pub fn get_id_mut(&mut self, i: usize) -> (r: &mut T)
        requires
            old(self).wf(),
            i < old(self).total(),
        ensures
            *r == old(self).voxels()[i as int],
            final(self).voxels() == old(self).voxels().update(i as int, *final(r)),
            final(self).spec_width() == old(self).spec_width(),
            final(self).spec_depth() == old(self).spec_depth(),
            final(self).spec_height() == old(self).spec_height(),
            final(self).wf(),
    {
        &mut self.data[i]
    }

    /// A restartable cursor over all voxels in ascending linear-index order.
    pub fn enumerate_voxels(&self) -> (r: EnumerateVoxels<'_, T>)
        requires
            self.wf(),
        ensures
            r.buffer() == *self,
            r.position() == 0,
            r.wf(),
    {
        EnumerateVoxels { buf: self, next_id: 0 }
    }

    /// A cursor that walks all voxels in ascending linear-index order and can
    /// overwrite each one in place.
    ///
    /// The cursor takes the buffer; [`EnumerateVoxelsMut::into_buffer`] gives
    /// it back when the walk is done.
    pub fn enumerate_voxels_mut(self) -> (r: EnumerateVoxelsMut<T>)
        requires
            self.wf(),
        ensures
            r.buffer() == self,
            r.position() == 0,
            r.wf(),
    {
        EnumerateVoxelsMut { buf: self, next_id: 0 }
    }
}

/// The plain byte channels of one RGBA voxel: `(red, green, blue, alpha)`.
pub open spec fn rgba_color(v: Rgba) -> crate::vox::ColorBytes {
    (v.0@[0], v.0@[1], v.0@[2], v.0@[3])
}

impl VolumeBuffer<Rgba> {
    /// The buffer's colors as plain byte tuples, in ascending linear-index
    /// order: what the model encoder reads.
    pub open spec fn color_seq(&self) -> Seq<crate::vox::ColorBytes> {
        Seq::new(self.voxels().len(), |i: int| rgba_color(self.voxels()[i]))
    }

    /// Encode the buffer into the complete binary model file.
    ///
    /// Returns `None` exactly when the buffer falls outside what the
    /// format's record layout can carry: a dimension above 256 or more than
    /// 255 distinct colors among the non-transparent voxels.
    pub fn encode(&self) -> (r: Option<Vec<u8>>)
        requires
            self.wf(),
        ensures
            match r {
                Some(bytes) => {
                    &&& self.spec_width() <= 256
                    &&& self.spec_depth() <= 256
                    &&& self.spec_height() <= 256
                    &&& crate::vox::palette_of(self.color_seq()).len() <= 255
                    &&& bytes@ == crate::vox::encode_spec(
                        self.spec_width(),
                        self.spec_depth(),
                        self.spec_height(),
                        self.color_seq(),
                    )
                },
                None => self.spec_width() > 256 || self.spec_depth() > 256
                    || self.spec_height() > 256 || crate::vox::palette_of(self.color_seq()).len()
                    > 255,
            },
    {
        let mut colors: Vec<crate::vox::ColorBytes> = Vec::new();
        let mut i: usize = 0;
        let total = self.data.len();
        while i < total
            invariant
                i <= total,
                total == self.voxels().len(),
                colors@ =~= self.color_seq().take(i as int),
            decreases total - i,
        {
            let v = self.data[i];
            colors.push((v.0[0], v.0[1], v.0[2], v.0[3]));
            i += 1;
        }
        proof {
            assert(colors@ =~= self.color_seq());
        }
        crate::vox::encode_colors(self.width, self.depth, self.height, &colors)
    }
}

/// A cursor that yields every voxel of a [`VolumeBuffer`] exactly once, as
/// `(x, y, z, voxel)`, in ascending linear-index order (`x` varies fastest,
/// then `y`, then `z`).
pub struct EnumerateVoxels<'a, T> {
    buf: &'a VolumeBuffer<T>,
    next_id: usize,
}

impl<'a, T: Voxel> EnumerateVoxels<'a, T> {
    /// The buffer being walked.
    pub closed spec fn buffer(&self) -> VolumeBuffer<T> {
        *self.buf
    }

    /// The linear index that the next call of `next` yields.
    pub closed spec fn position(&self) -> nat {
        self.next_id as nat
    }

    /// The cursor's buffer is well formed and its position never passes the
    /// cell count.
    pub open spec fn wf(&self) -> bool {
        &&& self.buffer().wf()
        &&& self.position() <= self.buffer().total()
    }

    /// Yield the voxel at the current position together with its coordinate,
    /// then advance; after the last voxel, yield `None` and stay put.
    pub fn next(&mut self) -> (r: Option<(u32, u32, u32, T)>)
        requires
            old(self).wf(),
        ensures
            final(self).wf(),
            final(self).buffer() == old(self).buffer(),
            match r {
                Some(item) => {
                    &&& old(self).position() < old(self).buffer().total()
                    &&& final(self).position() == old(self).position() + 1
                    &&& (item.0 as nat, item.1 as nat, item.2 as nat) == spec_coord(
                        old(self).buffer().spec_width() as nat,
                        old(self).buffer().spec_depth() as nat,
                        old(self).position(),
                    )
                    &&& item.3 == old(self).buffer().voxels()[old(self).position() as int]
                },
                None => {
                    &&& old(self).position() == old(self).buffer().total()
                    &&& final(self).position() == old(self).position()
                },
            },
    {
        match self.buf.coordinate(self.next_id) {
            None => None,
            Some((x, y, z)) => {
                let v = *self.buf.get_id(self.next_id);
                proof {
                    T::width_properties();
                    lemma_total_le_max(
                        T::spec_width(),
                        self.buf.spec_width() as nat,
                        self.buf.spec_depth() as nat,
                        self.buf.spec_height() as nat,
                    );
                }
                self.next_id += 1;
                Some((x, y, z, v))
            },
        }
    }
}

/// A cursor that yields every voxel of a [`VolumeBuffer`] exactly once in
/// ascending linear-index order and lets the caller overwrite the voxel it
/// last yielded.
pub struct EnumerateVoxelsMut<T> {
    buf: VolumeBuffer<T>,
    next_id: usize,
}

impl<T: Voxel> EnumerateVoxelsMut<T> {
    /// The buffer being walked, in its current state.
    pub closed spec fn buffer(&self) -> VolumeBuffer<T> {
        self.buf
    }

    /// The linear index that the next call of `next` yields.
    pub closed spec fn position(&self) -> nat {
        self.next_id as nat
    }

    /// The cursor's buffer is well formed and its position never passes the
    /// cell count.
    pub open spec fn wf(&self) -> bool {
        &&& self.buffer().wf()
        &&& self.position() <= self.buffer().total()
    }

    /// Yield the voxel at the current position together with its coordinate,
    /// then advance; after the last voxel, yield `None` and stay put.
    pub fn next(&mut self) -> (r: Option<(u32, u32, u32, T)>)
        requires
            old(self).wf(),
        ensures
            final(self).wf(),
            final(self).buffer() == old(self).buffer(),
            match r {
                Some(item) => {
                    &&& old(self).position() < old(self).buffer().total()
                    &&& final(self).position() == old(self).position() + 1
                    &&& (item.0 as nat, item.1 as nat, item.2 as nat) == spec_coord(
                        old(self).buffer().spec_width() as nat,
                        old(self).buffer().spec_depth() as nat,
                        old(self).position(),
                    )
                    &&& item.3 == old(self).buffer().voxels()[old(self).position() as int]
                },
                None => {
                    &&& old(self).position() == old(self).buffer().total()
                    &&& final(self).position() == old(self).position()
                },
            },
    {
        match self.buf.coordinate(self.next_id) {
            None => None,
            Some((x, y, z)) => {
                let v = *self.buf.get_id(self.next_id);
                proof {
                    T::width_properties();
                    lemma_total_le_max(
                        T::spec_width(),
                        self.buf.spec_width() as nat,
                        self.buf.spec_depth() as nat,
                        self.buf.spec_height() as nat,
                    );
                }
                self.next_id += 1;
                Some((x, y, z, v))
            },
        }
    }

    /// Overwrite the voxel that the last call of `next` yielded.
    ///
    /// Calling it before any voxel was yielded is a programming error.
    pub fn set(&mut self, v: T)
        requires
            old(self).wf(),
            old(self).position() >= 1,
        ensures
            final(self).wf(),
            final(self).position() == old(self).position(),
            final(self).buffer().spec_width() == old(self).buffer().spec_width(),
            final(self).buffer().spec_depth() == old(self).buffer().spec_depth(),
            final(self).buffer().spec_height() == old(self).buffer().spec_height(),
            final(self).buffer().voxels() == old(self).buffer().voxels().update(
                old(self).position() - 1,
                v,
            ),
    {
        let i = self.next_id - 1;
        let cell = self.buf.get_id_mut(i);
        *cell = v;
    }

    /// Give the buffer back.
    pub fn into_buffer(self) -> (r: VolumeBuffer<T>)
        ensures
            r == self.buffer(),
    {
        self.buf
    }
}

/// The cell count of a grid is addressable whenever its byte size is: a
/// record is at least one byte wide.
proof fn lemma_total_le_max(size: nat, w: nat, d: nat, h: nat)
    requires
        1 <= size,
        size * w <= usize::MAX,
        size * w * d <= usize::MAX,
        size * w * d * h <= usize::MAX,
    ensures
        w <= usize::MAX,
        w * d <= usize::MAX,
        w * d * h <= usize::MAX,
{
    assert(w <= size * w && w * d <= size * w * d && w * d * h <= size * w * d * h)
        by (nonlinear_arith)
        requires
            1 <= size,
    ;
}

/// The coordinate of an in-range index is itself in range.
pub(crate) proof fn lemma_coord_in_range(w: nat, d: nat, h: nat, i: nat)
    requires
        1 <= w,
        1 <= d,
        1 <= h,
        i < w * d * h,
    ensures
        spec_coord(w, d, i).0 < w,
        spec_coord(w, d, i).1 < d,
        spec_coord(w, d, i).2 < h,
{
    let z = i / (w * d);
    let rem = i % (w * d);
    assert(w * d >= 1) by (nonlinear_arith)
        requires
            w >= 1,
            d >= 1,
    ;
    vstd::arithmetic::div_mod::lemma_mod_bound(i as int, (w * d) as int);
    vstd::arithmetic::div_mod::lemma_mod_bound(rem as int, w as int);
    assert(z < h) by (nonlinear_arith)
        requires
            i < w * d * h,
            w * d >= 1,
            z == i / (w * d),
    ;
    assert(rem / w < d) by (nonlinear_arith)
        requires
            rem < w * d,
            w >= 1,
    ;
}

} // verus!
