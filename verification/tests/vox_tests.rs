use voxgen::buffer::{Rgba, VolumeBuffer};
use voxgen::voxel_buffer::{ArrayVoxelBuffer, Rgba as AvbRgba, VoxelBuffer};

fn u32_at(bytes: &[u8], offset: usize) -> u32 {
    u32::from_le_bytes([
        bytes[offset],
        bytes[offset + 1],
        bytes[offset + 2],
        bytes[offset + 3],
    ])
}

#[test]
fn empty_buffer_encodes_well_formed_file() {
    let vol = VolumeBuffer::<Rgba>::new(3, 3, 3);
    let bytes = vol.encode().unwrap();
    assert_eq!(bytes.len(), 1096);
    assert_eq!(&bytes[0..4], b"VOX ");
    assert_eq!(u32_at(&bytes, 4), 150);
    assert_eq!(&bytes[8..12], b"MAIN");
    assert_eq!(u32_at(&bytes, 12), 0);
    assert_eq!(u32_at(&bytes, 16), 1076);
    assert_eq!(&bytes[20..24], b"SIZE");
    assert_eq!(u32_at(&bytes, 24), 12);
    assert_eq!(u32_at(&bytes, 28), 0);
    assert_eq!(u32_at(&bytes, 32), 3);
    assert_eq!(u32_at(&bytes, 36), 3);
    assert_eq!(u32_at(&bytes, 40), 3);
    assert_eq!(&bytes[44..48], b"XYZI");
    assert_eq!(u32_at(&bytes, 48), 4);
    assert_eq!(u32_at(&bytes, 52), 0);
    // No non-transparent voxel: the record count is zero ...
    assert_eq!(u32_at(&bytes, 56), 0);
    assert_eq!(&bytes[60..64], b"RGBA");
    assert_eq!(u32_at(&bytes, 64), 1024);
    assert_eq!(u32_at(&bytes, 68), 0);
    // ... and the palette chunk is entirely zero.
    assert!(bytes[72..1096].iter().all(|&b| b == 0));
}

#[test]
fn single_opaque_voxel_gets_slot_one() {
    let mut vol = VolumeBuffer::<Rgba>::new(3, 3, 3);
    *vol.get_mut(2, 1, 0) = Rgba([10, 20, 30, 255]);
    let bytes = vol.encode().unwrap();
    assert_eq!(bytes.len(), 1100);
    // One positional record: coordinate (2, 1, 0), palette slot 1.
    assert_eq!(u32_at(&bytes, 56), 1);
    assert_eq!(&bytes[60..64], &[2, 1, 0, 1]);
    // Exactly one non-zero palette entry, in the slot-1 position.
    let palette = &bytes[76..1100];
    assert_eq!(&palette[0..4], &[10, 20, 30, 255]);
    assert!(palette[4..].iter().all(|&b| b == 0));
}

#[test]
fn encoding_is_deterministic() {
    let mut vol = VolumeBuffer::<Rgba>::new(5, 4, 3);
    *vol.get_mut(0, 0, 0) = Rgba([1, 2, 3, 255]);
    *vol.get_mut(4, 3, 2) = Rgba([4, 5, 6, 128]);
    let first = vol.encode().unwrap();
    let second = vol.encode().unwrap();
    assert_eq!(first, second);
}

#[test]
fn palette_slots_are_first_seen_and_shared() {
    let mut vol = VolumeBuffer::<Rgba>::new(4, 1, 1);
    let red = Rgba([255, 0, 0, 255]);
    let blue = Rgba([0, 0, 255, 255]);
    *vol.get_mut(0, 0, 0) = red;
    *vol.get_mut(1, 0, 0) = blue;
    *vol.get_mut(3, 0, 0) = red;
    let bytes = vol.encode().unwrap();
    assert_eq!(u32_at(&bytes, 56), 3);
    // Records in ascending index order; red keeps slot 1, blue takes slot 2.
    assert_eq!(&bytes[60..64], &[0, 0, 0, 1]);
    assert_eq!(&bytes[64..68], &[1, 0, 0, 2]);
    assert_eq!(&bytes[68..72], &[3, 0, 0, 1]);
    let palette = &bytes[84..84 + 1024];
    assert_eq!(&palette[0..4], &[255, 0, 0, 255]);
    assert_eq!(&palette[4..8], &[0, 0, 255, 255]);
    assert!(palette[8..].iter().all(|&b| b == 0));
}

#[test]
fn transparent_voxels_take_no_palette_slot() {
    let mut vol = VolumeBuffer::<Rgba>::new(2, 1, 1);
    // A transparent non-zero color first, an opaque one second.
    *vol.get_mut(0, 0, 0) = Rgba([9, 9, 9, 0]);
    *vol.get_mut(1, 0, 0) = Rgba([1, 1, 1, 255]);
    let bytes = vol.encode().unwrap();
    assert_eq!(u32_at(&bytes, 56), 1);
    assert_eq!(&bytes[60..64], &[1, 0, 0, 1]);
    let palette = &bytes[76..1100];
    assert_eq!(&palette[0..4], &[1, 1, 1, 255]);
    assert!(palette[4..].iter().all(|&b| b == 0));
}

#[test]
fn oversized_dimension_is_refused() {
    let vol = VolumeBuffer::<Rgba>::new(257, 1, 1);
    assert!(vol.encode().is_none());
    let fits = VolumeBuffer::<Rgba>::new(256, 1, 1);
    assert!(fits.encode().is_some());
}

#[test]
fn too_many_distinct_colors_are_refused() {
    // 16 * 16 * 1 = 256 cells, each its own opaque color: 256 slots needed,
    // one more than the 255 the format offers.
    let mut vol = VolumeBuffer::<Rgba>::new(16, 16, 1);
    for i in 0..256u32 {
        let (x, y) = (i % 16, i / 16);
        *vol.get_mut(x, y, 0) = Rgba([(i % 256) as u8, (i / 256) as u8, 0, 255]);
    }
    assert!(vol.encode().is_none());
    // With two cells sharing one color, 255 slots suffice.
    *vol.get_mut(15, 15, 0) = Rgba([0, 0, 0, 255]);
    *vol.get_mut(14, 15, 0) = Rgba([0, 0, 0, 255]);
    assert!(vol.encode().is_some());
}

#[test]
fn array_buffer_encodes_like_volume_buffer() {
    let mut avb = ArrayVoxelBuffer::<AvbRgba>::new(3, 3, 3);
    *avb.voxel_mut(2, 1, 0) = AvbRgba([10, 20, 30, 255]);
    let mut vol = VolumeBuffer::<Rgba>::new(3, 3, 3);
    *vol.get_mut(2, 1, 0) = Rgba([10, 20, 30, 255]);
    assert_eq!(avb.encode().unwrap(), vol.encode().unwrap());
}
