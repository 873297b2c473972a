use hoard::blob::{NonZeroU32, ValidateBlob, ValidateBoolError, ValidateNonZeroIntError, ValidateArrayError};
use hoard::height::{GetHeight, Height, NonZeroHeight, TryFromIntError, ValidateHeightError};
use hoard::offset::{Kind, OFFSET_MAX, Offset, OffsetMut, ValidateOffsetError};
use hoard::own::Own;
use hoard::pile::TryPile;

#[test]
fn height_new_bounds() {
    assert!(Height::new(63).is_ok());
    assert!(Height::new(64).is_err());
    assert_eq!(Height::new(0).unwrap().get(), 0);
    assert_eq!(Height::new(200), Err(TryFromIntError));
}

#[test]
fn non_zero_height_bounds() {
    assert!(NonZeroHeight::new(0).is_err());
    assert!(NonZeroHeight::new(64).is_err());
    assert_eq!(NonZeroHeight::new(1).unwrap().get(), 1);
    assert_eq!(NonZeroHeight::new(63).unwrap().get(), 63);
}

#[test]
fn height_len_is_power_of_two() {
    assert_eq!(Height::new(0).unwrap().len(), 1);
    assert_eq!(Height::new(5).unwrap().len(), 32);
    assert_eq!(Height::new(63).unwrap().len(), 1usize << 63);
}

#[test]
fn height_increment_and_decrement() {
    let h = Height::new(62).unwrap().try_increment().unwrap();
    assert_eq!(h.get(), 63);
    assert!(Height::new(63).unwrap().try_increment().is_none());
    assert_eq!(h.decrement().get(), 62);
    assert_eq!(NonZeroHeight::new(1).unwrap().decrement().get(), 0);
}

#[test]
fn height_conversions() {
    assert_eq!(Height::try_from(5u8).unwrap().get(), 5);
    assert!(Height::try_from(64u8).is_err());
    assert_eq!(Height::try_from(63usize).unwrap().get(), 63);
    assert!(Height::try_from(300usize).is_err());
    assert!(NonZeroHeight::try_from(Height::new(0).unwrap()).is_err());
    assert_eq!(NonZeroHeight::try_from(Height::new(4).unwrap()).unwrap().get(), 4);
    assert!(NonZeroHeight::try_from(0usize).is_err());
    assert_eq!(NonZeroHeight::try_from(9usize).unwrap().get(), 9);
    assert_eq!(u8::from(Height::new(7).unwrap()), 7);
    assert_eq!(usize::from(Height::new(7).unwrap()), 7);
    let n = NonZeroHeight::new(8).unwrap();
    assert_eq!(Height::from(n).get(), 8);
    assert_eq!(u8::from(n), 8);
    assert_eq!(usize::from(n), 8);
}

#[test]
fn get_height_impls() {
    let h = Height::new(3).unwrap();
    assert_eq!(GetHeight::get(&h).get(), 3);
    let n = NonZeroHeight::new(5).unwrap();
    assert_eq!(GetHeight::get(&n).get(), 5);
    let units = [(); 6];
    assert_eq!(GetHeight::get(&units[..]).get(), 6);
}

#[test]
fn height_blobs() {
    assert_eq!(Height::validate(&[63]).unwrap().get(), 63);
    assert_eq!(Height::validate(&[64]).unwrap_err(), ValidateHeightError);
    assert_eq!(NonZeroHeight::validate(&[0]).unwrap_err(), ValidateHeightError);
    assert_eq!(NonZeroHeight::validate(&[64]).unwrap_err(), ValidateHeightError);
    assert_eq!(NonZeroHeight::validate(&[12]).unwrap().get(), 12);
}

#[test]
fn bool_blobs() {
    assert_eq!(bool::validate(&[0]), Ok(false));
    assert_eq!(bool::validate(&[1]), Ok(true));
    assert_eq!(bool::validate(&[2]), Err(ValidateBoolError));
}

#[test]
fn integer_blobs_are_little_endian() {
    assert_eq!(u8::validate(&[200]).unwrap(), 200);
    assert_eq!(u16::validate(&[0x34, 0x12]).unwrap(), 0x1234);
    assert_eq!(u32::validate(&[0x12, 0x34, 0x56, 0x78]).unwrap(), 0x78563412);
    assert_eq!(u64::validate(&[1, 0, 0, 0, 0, 0, 0, 0x80]).unwrap(), 0x8000_0000_0000_0001);
    let mut b = [0u8; 16];
    b[15] = 1;
    assert_eq!(u128::validate(&b).unwrap(), 1u128 << 120);
}

#[test]
fn non_zero_blobs() {
    assert_eq!(NonZeroU32::validate(&[0, 0, 0, 0]).unwrap_err(), ValidateNonZeroIntError);
    assert_eq!(NonZeroU32::validate(&[0, 0, 1, 0]).unwrap().get(), 0x10000);
    assert!(NonZeroU32::new(0).is_none());
    assert_eq!(NonZeroU32::new(5).unwrap().get(), 5);
}

#[test]
fn array_blobs() {
    assert_eq!(<[u8; 0]>::validate(&[]).unwrap(), []);
    assert_eq!(<[u16; 2]>::validate(&[1, 0, 2, 0]).unwrap(), [1, 2]);
    assert_eq!(<[bool; 3]>::validate(&[1, 5, 7]).unwrap_err(),
               ValidateArrayError { idx: 1, err: ValidateBoolError });
    assert_eq!(<[[bool; 2]; 2]>::validate(&[0, 1, 1, 3]).unwrap_err(),
               ValidateArrayError { idx: 1, err: ValidateArrayError { idx: 1, err: ValidateBoolError } });
}

#[test]
fn offset_bounds_and_words() {
    assert_eq!(Offset::new(OFFSET_MAX).unwrap().get(), OFFSET_MAX);
    assert!(Offset::new(OFFSET_MAX + 1).is_none());
    assert_eq!(Offset::new(0).unwrap().to_word(), 1);
    assert_eq!(Offset::new(54).unwrap().to_word(), 109);
    assert_eq!(Offset::from_word(109).unwrap().get(), 54);
    assert!(Offset::from_word(108).is_none());
    assert!(Offset::from_word(u64::MAX).is_none());
}

#[test]
fn offset_blobs() {
    assert_eq!(Offset::validate(&13u64.to_le_bytes()).unwrap().get(), 6);
    assert_eq!(Offset::validate(&12u64.to_le_bytes()).unwrap_err(), ValidateOffsetError);
    assert_eq!(OffsetMut::validate(&12u64.to_le_bytes()).unwrap_err(), ValidateOffsetError);
    assert_eq!(OffsetMut::validate(&3u64.to_le_bytes()).unwrap().get_offset().unwrap().get(), 1);
}

#[test]
fn offset_mut_round_trip() {
    let heap = OffsetMut::from_heap_addr(0x1000).unwrap();
    assert_eq!(heap.kind(), Kind::Ptr(0x1000));
    assert_eq!(heap.get_ptr(), Some(0x1000));
    assert!(heap.get_offset().is_none());

    let o = Offset::new(42).unwrap();
    let persistent = OffsetMut::from_offset(o);
    assert_eq!(persistent.kind(), Kind::Offset(o));
    assert_eq!(persistent.get_offset(), Some(o));
    assert!(persistent.get_ptr().is_none());

    assert!(OffsetMut::from_heap_addr(0).is_none());
    assert!(OffsetMut::from_heap_addr(0x1001).is_none());
}

#[test]
fn own_keeps_parts() {
    let own = Own::from_raw_parts(Offset::new(4).unwrap(), 17u64);
    assert_eq!(own.metadata(), 17);
    assert_eq!(own.ptr().get(), 4);
}

#[test]
fn valid_ptr_default_points_at_start() {
    let p: hoard::ptr::ValidPtr<u8> = Default::default();
    assert_eq!(p.get_raw().get(), 0);
    let bytes = [5u8];
    assert_eq!(TryPile::new(&bytes, |pile| pile.try_get(&p).unwrap()), 5);
}
