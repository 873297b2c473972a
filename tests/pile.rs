use hoard::blob::{ValidateArrayError, ValidateBoolError};
use hoard::children::{FullValidator, PtrError};
use hoard::encode::{Encode, OwnEncoder, VecDumper};
use hoard::offset::Offset;
use hoard::pile::{Error, ErrorKind, Pile, PileZone, TryPile, test_trypile};
use hoard::pile_mut::{Ref, TryPileMut};
use hoard::ptr::{OwnedPtr, ValidPtr};

fn word(offset: u64) -> [u8; 8] {
    (offset * 2 + 1).to_le_bytes()
}

#[test]
fn trypile_alloc() {
    let pile = TryPileMut::default();
    let x = pile.allocate(42u8);
    assert_eq!(pile.encode_dirty(&x),
               &[42,
                  1, 0, 0, 0, 0, 0, 0, 0]);

    let x = [pile.allocate(1u8), pile.allocate(2u8), pile.allocate(3u8)];
    assert_eq!(pile.encode_dirty(&x),
               &[1, 2, 3,
                 1, 0, 0, 0, 0, 0, 0, 0,
                 3, 0, 0, 0, 0, 0, 0, 0,
                 5, 0, 0, 0, 0, 0, 0, 0,
                ]);

    let x = [[pile.allocate(1u8), pile.allocate(2u8), pile.allocate(3u8)],
             [pile.allocate(4u8), pile.allocate(5u8), pile.allocate(6u8)]];
    assert_eq!(pile.encode_dirty(&x),
               &[ 1, 2, 3, 4, 5, 6,
                  1, 0, 0, 0, 0, 0, 0, 0,
                  3, 0, 0, 0, 0, 0, 0, 0,
                  5, 0, 0, 0, 0, 0, 0, 0,
                  7, 0, 0, 0, 0, 0, 0, 0,
                  9, 0, 0, 0, 0, 0, 0, 0,
                 11, 0, 0, 0, 0, 0, 0, 0,
                ][..]);

    let x = pile.allocate(x);
    assert_eq!(pile.encode_dirty(&x),
               &[ 1, 2, 3, 4, 5, 6,
                  1, 0, 0, 0, 0, 0, 0, 0,
                  3, 0, 0, 0, 0, 0, 0, 0,
                  5, 0, 0, 0, 0, 0, 0, 0,
                  7, 0, 0, 0, 0, 0, 0, 0,
                  9, 0, 0, 0, 0, 0, 0, 0,
                 11, 0, 0, 0, 0, 0, 0, 0,
                 13, 0, 0, 0, 0, 0, 0, 0,
                ][..]);

    let x = pile.allocate(x);
    assert_eq!(pile.encode_dirty(&x),
               &[ 1, 2, 3, 4, 5, 6,
                  1, 0, 0, 0, 0, 0, 0, 0,
                  3, 0, 0, 0, 0, 0, 0, 0,
                  5, 0, 0, 0, 0, 0, 0, 0,
                  7, 0, 0, 0, 0, 0, 0, 0,
                  9, 0, 0, 0, 0, 0, 0, 0,
                 11, 0, 0, 0, 0, 0, 0, 0,
                 13, 0, 0, 0, 0, 0, 0, 0,
                109, 0, 0, 0, 0, 0, 0, 0,
                ][..]);
}

#[test]
fn empty_pile_tip() {
    let empty = TryPile::empty();
    assert!(empty.try_get_tip::<()>().is_ok());
    let err = empty.try_get_tip::<u8>().unwrap_err();
    assert_eq!(err.kind, ErrorKind::Offset);
    assert_eq!(err.offset.get(), 0);
}

#[test]
fn empty_pile_is_empty() {
    assert_eq!(TryPile::empty().len(), 0);
    assert_eq!(Pile::empty().slice().len(), 0);
    assert_eq!(TryPileMut::default().slice().len(), 0);
}

#[test]
fn tip_read_le_u32() {
    let bytes = [0x12u8, 0x34, 0x56, 0x78];
    let tip = TryPile::new(&bytes, |pile| pile.try_get_tip::<u32>().unwrap());
    assert_eq!(tip, 0x78563412);
}

#[test]
fn tip_read_last_bytes() {
    let bytes = [0xffu8, 0x01, 0x02];
    let tip = TryPile::new(&bytes, |pile| pile.try_get_tip::<u16>().unwrap());
    assert_eq!(tip, 0x0201);
}

#[test]
fn tip_too_short() {
    let bytes = [42u8];
    TryPile::new(&bytes, |pile| {
        assert_eq!(pile.try_get_tip::<u8>().unwrap(), 42);
        let err = pile.try_get_tip::<u32>().unwrap_err();
        assert_eq!(err.kind, ErrorKind::Offset);
        assert!(pile.try_get_tip::<bool>().is_err());
    });
}

#[test]
fn tip_bool_validation() {
    let bad = [0x02u8];
    let err = TryPile::new(&bad, |pile| pile.try_get_tip::<bool>().unwrap_err());
    assert_eq!(err.kind, ErrorKind::Value(ValidateBoolError));
    let good = [0x01u8];
    assert!(TryPile::new(&good, |pile| pile.try_get_tip::<bool>().unwrap()));
    let zero = [0x00u8];
    assert!(!TryPile::new(&zero, |pile| pile.try_get_tip::<bool>().unwrap()));
}

#[test]
fn pile_new_runs_closure() {
    let bytes = [1u8, 2, 3, 4];
    let n = Pile::new(&bytes, |pile| pile.try_pile().try_get_tip::<u8>().unwrap());
    assert_eq!(n, 4);
}

#[test]
fn get_blob_in_range() {
    let bytes = [1u8, 2, 3, 4, 5];
    TryPile::new(&bytes, |pile| {
        let o = Offset::new(1).unwrap();
        assert_eq!(pile.get_blob::<()>(o, 4).unwrap(), &[2, 3, 4, 5]);
        assert_eq!(pile.get_blob::<()>(Offset::new(5).unwrap(), 0).unwrap(), &[] as &[u8]);
    });
}

#[test]
fn get_blob_out_of_range() {
    let bytes = [1u8, 2, 3, 4, 5];
    TryPile::new(&bytes, |pile| {
        let o = Offset::new(2).unwrap();
        let err = pile.get_blob::<()>(o, 4).unwrap_err();
        assert_eq!(err, Error { offset: o, kind: ErrorKind::Offset });
        assert!(pile.get_blob::<()>(Offset::new(6).unwrap(), 0).is_err());
    });
}

#[test]
fn read_through_valid_ptr() {
    let mut bytes = vec![7u8, 0, 1];
    bytes.extend_from_slice(&word(1));
    TryPile::new(&bytes, |pile| {
        let ptr = pile.try_get_tip::<ValidPtr<[bool; 2]>>().unwrap();
        assert_eq!(ptr.get_raw().get(), 1);
        assert_eq!(pile.try_get(&ptr).unwrap(), [false, true]);
    });
}

#[test]
fn array_error_reports_first_bad_index() {
    let bytes = [1u8, 0, 2, 7];
    TryPile::new(&bytes, |pile| {
        let err = pile.try_get_tip::<[bool; 4]>().unwrap_err();
        assert_eq!(err.kind, ErrorKind::Value(ValidateArrayError { idx: 2, err: ValidateBoolError }));
    });
    let bytes = [9u8, 9, 9];
    TryPile::new(&bytes, |pile| {
        let err = pile.try_get_tip::<[bool; 3]>().unwrap_err();
        assert_eq!(err.kind, ErrorKind::Value(ValidateArrayError { idx: 0, err: ValidateBoolError }));
    });
}

#[test]
fn pointer_with_heap_word_is_rejected() {
    let bytes = 2u64.to_le_bytes();
    TryPile::new(&bytes, |pile| {
        assert!(pile.try_get_tip::<ValidPtr<u8>>().is_err());
    });
}

#[test]
fn test_trypile_sums_differing_pairs() {
    // bool pairs at 0 (differ) and 2 (equal); bytes 10 at 4 and 20 at 5.
    let bytes = [1u8, 0, 1, 1, 10, 20];
    TryPile::new(&bytes, |pile| {
        let mut ptr1 = [TryPile::new_valid_ptr::<[bool; 2]>(2); 100];
        ptr1[0] = TryPile::new_valid_ptr(0);
        ptr1[50] = TryPile::new_valid_ptr(0);
        let mut ptr2 = [TryPile::new_valid_ptr::<u8>(5); 100];
        ptr2[0] = TryPile::new_valid_ptr(4);
        assert_eq!(test_trypile(&pile, &ptr1, &ptr2).unwrap(), 30);
    });
}

#[test]
fn test_trypile_reports_bad_reads() {
    let bytes = [1u8, 0, 2, 2];
    TryPile::new(&bytes, |pile| {
        let mut ptr1 = [TryPile::new_valid_ptr::<[bool; 2]>(0); 100];
        ptr1[3] = TryPile::new_valid_ptr(2);
        let ptr2 = [TryPile::new_valid_ptr::<u8>(0); 100];
        let err = test_trypile(&pile, &ptr1, &ptr2).unwrap_err();
        assert_eq!(err.offset.get(), 2);
        assert_eq!(err.kind, ErrorKind::Value(ValidateArrayError { idx: 0, err: ValidateBoolError }));
        let ptr1 = [TryPile::new_valid_ptr::<[bool; 2]>(0); 100];
        let ptr2 = [TryPile::new_valid_ptr::<u8>(4); 100];
        let err = test_trypile(&pile, &ptr1, &ptr2).unwrap_err();
        assert_eq!(err.kind, ErrorKind::Offset);
    });
}

#[test]
fn encode_then_read_back() {
    let pile = TryPileMut::default();
    let x = pile.allocate(0xdeadbeefu32);
    let out = pile.encode_dirty(&x);
    assert_eq!(out.len(), 12);
    TryPile::new(&out, |p| {
        let ptr = p.try_get_tip::<ValidPtr<u32>>().unwrap();
        assert_eq!(ptr.get_raw().get(), 0);
        assert_eq!(p.try_get(&ptr).unwrap(), 0xdeadbeef);
    });
}

#[test]
fn encode_after_existing_pile() {
    let bytes = [9u8, 9, 9];
    TryPile::new(&bytes, |p| {
        let pile = TryPileMut::new(p);
        let x = pile.allocate(5u8);
        let out = pile.encode_dirty(&x);
        let mut expected = vec![5u8];
        expected.extend_from_slice(&word(3));
        assert_eq!(out, expected);
    });
}

#[test]
fn children_precede_parents() {
    let pile = TryPileMut::default();
    let x = pile.allocate([pile.allocate(1u16), pile.allocate(2u16)]);
    let out = pile.encode_dirty(&x);
    // children at 0 and 2, the array at 4, the outer pointer at 20
    let mut expected = vec![1u8, 0, 2, 0];
    expected.extend_from_slice(&word(0));
    expected.extend_from_slice(&word(2));
    expected.extend_from_slice(&word(4));
    assert_eq!(out, expected);
}

#[test]
fn persistent_pointers_are_not_rewritten() {
    let pile = TryPileMut::default();
    let x = [OwnedPtr::<u8>::Persistent(Offset::new(7).unwrap()), pile.allocate(3u8)];
    let out = pile.encode_dirty(&x);
    let mut expected = vec![3u8];
    expected.extend_from_slice(&word(7));
    expected.extend_from_slice(&word(0));
    assert_eq!(out, expected);
}

#[test]
fn dumper_offsets_follow_pile_and_buffer() {
    let bytes = [0u8; 10];
    TryPile::new(&bytes, |p| {
        let mut dumper = VecDumper::new(p, vec![1, 2, 3]);
        let o = dumper.save_blob(vec![4, 5]);
        assert_eq!(o.get(), 13);
        let o = dumper.save_blob(vec![6]);
        assert_eq!(o.get(), 15);
        assert_eq!(dumper.into_buf(), vec![1, 2, 3, 4, 5, 6]);
    });
}

#[test]
fn try_get_dirty_and_persistent() {
    let bytes = [0x34u8, 0x12];
    TryPile::new(&bytes, |p| {
        let pile = TryPileMut::new(p);
        let dirty = pile.allocate(7u16);
        match pile.try_get(&dirty).unwrap() {
            Ref::Dirty(v) => assert_eq!(*v, 7),
            Ref::Persistent(_) => panic!("expected a dirty node"),
        }
        let persistent = OwnedPtr::<u16>::Persistent(Offset::new(0).unwrap());
        assert_eq!(*pile.try_get(&persistent).unwrap().get(), 0x1234);
        let far = OwnedPtr::<u16>::Persistent(Offset::new(1).unwrap());
        assert_eq!(pile.try_get(&far).unwrap_err().kind, ErrorKind::Offset);
    });
}

#[test]
fn try_take_and_make_dirty() {
    let bytes = [0x01u8];
    TryPile::new(&bytes, |p| {
        let pile = TryPileMut::new(p);
        assert_eq!(pile.try_take(pile.allocate(false)).unwrap(), false);
        let ptr = OwnedPtr::<bool>::Persistent(Offset::new(0).unwrap());
        assert_eq!(pile.try_take(ptr).unwrap(), true);

        let mut ptr = OwnedPtr::<bool>::Persistent(Offset::new(0).unwrap());
        pile.make_dirty(&mut ptr).unwrap();
        assert!(ptr.is_dirty());
        assert_eq!(pile.try_take(ptr).unwrap(), true);

        let mut bad = OwnedPtr::<bool>::Persistent(Offset::new(1).unwrap());
        assert!(pile.make_dirty(&mut bad).is_err());
        assert!(!bad.is_dirty());
    });
}

#[test]
fn clone_ptr_is_persistent() {
    let ptr = TryPile::new_valid_ptr::<u8>(3);
    match TryPileMut::clone_ptr(&ptr) {
        OwnedPtr::Persistent(o) => assert_eq!(o.get(), 3),
        OwnedPtr::Dirty(_) => panic!("expected a persistent pointer"),
    }
}

#[test]
fn full_validation_follows_pointers() {
    // a bool at 0, a pointer to it at 1, a pointer to that pointer at 9
    let mut bytes = vec![1u8];
    bytes.extend_from_slice(&word(0));
    bytes.extend_from_slice(&word(1));
    TryPile::new(&bytes, |pile| {
        let v = FullValidator::new(pile);
        let tip = v.validate_tip::<ValidPtr<ValidPtr<bool>>>().unwrap();
        assert_eq!(tip.get_raw().get(), 1);
        let inner = v.validate_ptr(&tip).unwrap();
        assert_eq!(inner.get_raw().get(), 0);
        assert!(v.validate_ptr(&inner).unwrap());
        match v.validate_ptr(&TryPile::new_valid_ptr::<ValidPtr<bool>>(9)) {
            Ok(p) => assert_eq!(p.get_raw().get(), 1),
            Err(_) => panic!("expected a valid pointer"),
        }
        assert!(matches!(v.validate_ptr(&TryPile::new_valid_ptr::<u64>(10)),
                         Err(PtrError::Blob(Error { kind: ErrorKind::Offset, .. }))));
    });
}

#[test]
fn full_validation_reports_bad_grandchild() {
    // a bad bool at 0, a pointer to it at 1, a pointer to that pointer at 9
    let mut bytes = vec![2u8];
    bytes.extend_from_slice(&word(0));
    bytes.extend_from_slice(&word(1));
    TryPile::new(&bytes, |pile| {
        // the tip itself is a legal pointer blob
        assert!(pile.try_get_tip::<ValidPtr<ValidPtr<bool>>>().is_ok());
        let err = FullValidator::new(pile).validate_tip::<ValidPtr<ValidPtr<bool>>>().unwrap_err();
        let offset0 = Offset::new(0).unwrap();
        assert_eq!(err, PtrError::Child(PtrError::Child(PtrError::Blob(Error {
            offset: offset0,
            kind: ErrorKind::Value(ValidateBoolError),
        }))));
    });
}

#[test]
fn full_validation_of_arrays_reports_index() {
    // bools at 0 and 1; the tip holds three pointers: to 0, to 1, and past the end
    let mut bytes = vec![0u8, 1];
    bytes.extend_from_slice(&word(0));
    bytes.extend_from_slice(&word(1));
    bytes.extend_from_slice(&word(100));
    TryPile::new(&bytes, |pile| {
        let err = FullValidator::new(pile).validate_tip::<[ValidPtr<bool>; 3]>().unwrap_err();
        assert_eq!(err, PtrError::Child(ValidateArrayError {
            idx: 2,
            err: PtrError::Blob(Error { offset: Offset::new(100).unwrap(), kind: ErrorKind::Offset }),
        }));
        let ok = FullValidator::new(pile).validate_ptr(&TryPile::new_valid_ptr::<[ValidPtr<bool>; 2]>(2));
        assert!(ok.is_ok());
    });
}

#[test]
fn polling_a_finished_encoder_changes_nothing() {
    let pile = TryPileMut::default();
    let x = pile.allocate(5u8);
    let mut state = x.make_encode_state();
    assert_eq!(state, OwnEncoder::Own);
    let mut dumper = VecDumper::new(pile, vec![]);
    x.encode_poll(&mut state, &mut dumper);
    assert_eq!(state, OwnEncoder::Done { persist_ptr: Offset::new(0).unwrap() });
    x.encode_poll(&mut state, &mut dumper);
    assert_eq!(state, OwnEncoder::Done { persist_ptr: Offset::new(0).unwrap() });
    assert_eq!(dumper.into_buf(), vec![5]);
}

#[test]
fn array_states_start_fresh_per_item() {
    let pile = TryPileMut::default();
    let x = [OwnedPtr::<u8>::Persistent(Offset::new(9).unwrap()), pile.allocate(1u8)];
    let mut state = x.make_encode_state();
    assert_eq!(state, vec![OwnEncoder::Done { persist_ptr: Offset::new(9).unwrap() }, OwnEncoder::Own]);
    let mut dumper = VecDumper::new(pile, vec![]);
    x.encode_poll(&mut state, &mut dumper);
    x.encode_poll(&mut state, &mut dumper);
    let mut blob = vec![];
    x.encode_blob(&state, &mut blob);
    assert_eq!(dumper.into_buf(), vec![1]);
    let mut expected = word(9).to_vec();
    expected.extend_from_slice(&word(0));
    assert_eq!(blob, expected);
}
