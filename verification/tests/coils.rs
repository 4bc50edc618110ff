use modbus_core::frame::coils::pack_coils;
use modbus_core::{
    bool_to_u16_coil, u16_coil_to_bool, unpack_coils, CoilQuantity, Coils, CoilsIter, Error,
};

#[test]
fn from_bool_slice() {
    let bools: &[bool] = &[true, false, true, true];
    let buff: &mut [u8] = &mut [0];
    let coils = Coils::from_bools(bools, buff).unwrap();
    assert_eq!(coils.len(), 4);
    let mut iter = coils.into_iter();
    assert_eq!(iter.next(), Some(true));
    assert_eq!(iter.next(), Some(false));
    assert_eq!(iter.next(), Some(true));
    assert_eq!(iter.next(), Some(true));
    assert_eq!(iter.next(), None);
}

#[test]
fn from_iterator() {
    let iterator = [0, 1, 2, 3].iter().map(|value| value % 2 == 0);
    let buff: &mut [u8] = &mut [0];
    let coils = Coils::from_iter(iterator, buff).unwrap();
    assert_eq!(coils.len(), 4);
    let mut iter = coils.into_iter();
    assert_eq!(iter.next(), Some(true));
    assert_eq!(iter.next(), Some(false));
    assert_eq!(iter.next(), Some(true));
    assert_eq!(iter.next(), Some(false));
    assert_eq!(iter.next(), None);
}

#[test]
fn coils_len() {
    let coils = Coils {
        data: &[0, 1, 2],
        quantity: CoilQuantity { quantity: 5 },
    };
    assert_eq!(coils.len(), 5);
}

#[test]
fn coils_empty() {
    let coils = Coils {
        data: &[0, 1, 2],
        quantity: CoilQuantity { quantity: 0 },
    };
    assert!(coils.is_empty());
}

#[test]
fn coils_get() {
    let coils = Coils {
        data: &[0b1],
        quantity: CoilQuantity { quantity: 1 },
    };
    assert_eq!(coils.get(0), Some(true));
    assert_eq!(coils.get(1), None);

    let coils = Coils {
        data: &[0b01],
        quantity: CoilQuantity { quantity: 2 },
    };
    assert_eq!(coils.get(0), Some(true));
    assert_eq!(coils.get(1), Some(false));
    assert_eq!(coils.get(2), None);

    let coils = Coils {
        data: &[0xff, 0b11],
        quantity: CoilQuantity { quantity: 10 },
    };
    for i in 0..10 {
        assert_eq!(coils.get(i), Some(true));
    }
    assert_eq!(coils.get(11), None);
}

#[test]
fn coils_iter() {
    let coils = Coils {
        data: &[0b0101_0011],
        quantity: CoilQuantity { quantity: 5 },
    };
    let mut coils_iter = CoilsIter { cnt: 0, coils };
    assert_eq!(coils_iter.next(), Some(true));
    assert_eq!(coils_iter.next(), Some(true));
    assert_eq!(coils_iter.next(), Some(false));
    assert_eq!(coils_iter.next(), Some(false));
    assert_eq!(coils_iter.next(), Some(true));
    assert_eq!(coils_iter.next(), None);
}

#[test]
fn coils_into_iter() {
    let coils = Coils {
        data: &[0b0101_0011],
        quantity: CoilQuantity { quantity: 3 },
    };
    let mut coils_iter = coils.into_iter();
    assert_eq!(coils_iter.next(), Some(true));
    assert_eq!(coils_iter.next(), Some(true));
    assert_eq!(coils_iter.next(), Some(false));
    assert_eq!(coils_iter.next(), None);
}

#[test]
fn iter_over_coils() {
    let coils = Coils {
        data: &[0b0101_0011],
        quantity: CoilQuantity { quantity: 3 },
    };
    let mut cnt = 0;
    let mut iter = coils.into_iter();
    while let Some(_) = iter.next() {
        cnt += 1;
    }
    assert_eq!(cnt, 3);
    assert_eq!(iter.next(), None);
    assert_eq!(iter.cnt, 3);
}

#[test]
fn convert_bool_to_coil() {
    assert_eq!(bool_to_u16_coil(true), 0xFF00);
    assert_eq!(bool_to_u16_coil(false), 0x0000);
}

#[test]
fn coils_convert_bool_to_coil() {
    assert_eq!(bool_to_u16_coil(true), 0xFF00);
    assert_eq!(bool_to_u16_coil(false), 0x0000);
}

#[test]
fn convert_coil_to_bool() {
    assert!(u16_coil_to_bool(0xFF00).unwrap());
    assert!(!u16_coil_to_bool(0x0000).unwrap());
    assert_eq!(
        u16_coil_to_bool(0x1234).err().unwrap(),
        Error::CoilValue(0x1234)
    );
}

#[test]
fn coils_convert_coil_to_bool() {
    assert!(u16_coil_to_bool(0xFF00).unwrap());
    assert!(!u16_coil_to_bool(0x0000).unwrap());
    assert_eq!(
        u16_coil_to_bool(0x1234).err().unwrap(),
        Error::CoilValue(0x1234)
    );
    assert_eq!(u16_coil_to_bool(0x00FF), Err(Error::CoilValue(0x00FF)));
}

fn check_pack_coils() {
    assert_eq!(
        pack_coils([false; 0].into_iter(), &mut []).unwrap(),
        CoilQuantity { quantity: 0 }
    );
    assert_eq!(
        pack_coils([false; 0].into_iter(), &mut [0, 0]).unwrap(),
        CoilQuantity { quantity: 0 }
    );
    assert_eq!(
        pack_coils([true; 2].into_iter(), &mut []).err().unwrap(),
        Error::BufferSize
    );

    let buff = &mut [0];
    assert_eq!(
        pack_coils([true].into_iter(), buff).unwrap(),
        CoilQuantity { quantity: 1 }
    );
    assert_eq!(buff, &[0b_1]);

    let buff = &mut [0];
    assert_eq!(
        pack_coils([false].into_iter(), buff).unwrap(),
        CoilQuantity { quantity: 1 }
    );
    assert_eq!(buff, &[0b_0]);

    let buff = &mut [0];
    assert_eq!(
        pack_coils([true, false].into_iter(), buff).unwrap(),
        CoilQuantity { quantity: 2 }
    );
    assert_eq!(buff, &[0b_01]);

    let buff = &mut [0];
    assert_eq!(
        pack_coils([false, true].into_iter(), buff).unwrap(),
        CoilQuantity { quantity: 2 }
    );
    assert_eq!(buff, &[0b_10]);

    let buff = &mut [0];
    assert_eq!(
        pack_coils([true, true].into_iter(), buff).unwrap(),
        CoilQuantity { quantity: 2 }
    );
    assert_eq!(buff, &[0b_11]);

    let buff = &mut [0];
    assert_eq!(
        pack_coils([true; 8].into_iter(), buff).unwrap(),
        CoilQuantity { quantity: 8 }
    );
    assert_eq!(buff, &[0b_1111_1111]);

    let buff = &mut [0];
    assert_eq!(
        pack_coils([false; 8].into_iter(), buff).unwrap(),
        CoilQuantity { quantity: 8 }
    );
    assert_eq!(buff, &[0]);

    let buff = &mut [0, 0];
    assert_eq!(
        pack_coils([true; 9].into_iter(), buff).unwrap(),
        CoilQuantity { quantity: 9 }
    );
    assert_eq!(buff, &[0xff, 1]);

    let buff = &mut [0];
    assert_eq!(
        pack_coils(
            [-1_i32, 1, -1, 1, 1, 1, -1, -1]
                .iter()
                .map(|value| value.is_positive()),
            buff
        )
        .unwrap(),
        CoilQuantity { quantity: 8 }
    );
    assert_eq!(buff, &[0b_0011_1010]);
}

#[test]
fn pack_coils_into_byte_array() {
    check_pack_coils();
}

#[test]
fn coils_pack_coils_into_byte_array() {
    check_pack_coils();
}

fn check_unpack_coils() {
    assert!(unpack_coils(&[], 0, &mut []).is_ok());
    assert!(unpack_coils(&[], 0, &mut [false, false]).is_ok());
    assert!(unpack_coils(&[1, 2, 3], 0, &mut []).is_ok());
    assert_eq!(
        unpack_coils(&[], 1, &mut []).err().unwrap(),
        Error::BufferSize
    );

    let buff = &mut [false];
    assert!(unpack_coils(&[0b1], 1, buff).is_ok());
    assert_eq!(&[true], buff);

    let buff = &mut [false; 2];
    assert!(unpack_coils(&[0b01], 2, buff).is_ok());
    assert_eq!(&[true, false], buff);

    let buff = &mut [false; 2];
    assert!(unpack_coils(&[0b10], 2, buff).is_ok());
    assert_eq!(&[false, true], buff);

    let buff = &mut [false; 3];
    assert!(unpack_coils(&[0b101], 3, buff).is_ok());
    assert_eq!(&[true, false, true], buff);

    let buff = &mut [false; 10];
    assert!(unpack_coils(&[0xff, 0b11], 10, buff).is_ok());
    assert_eq!(&[true; 10], buff);
}

#[test]
fn unpack_coils_from_a_byte_array() {
    check_unpack_coils();
}

#[test]
fn coils_unpack_coils_from_a_byte_array() {
    check_unpack_coils();
}

#[test]
fn unpack_coils_leaves_the_rest() {
    let buff = &mut [true; 4];
    assert_eq!(unpack_coils(&[0b01], 2, buff), Ok(()));
    assert_eq!(buff, &[true, false, true, true]);
}

#[test]
fn packing_sets_and_clears_the_coils_it_packs() {
    let buff = &mut [0b1000_0010, 0xF0];
    let coils = Coils::from_bools(&[true, false, true], buff).unwrap();
    assert_eq!(coils.data, &[0b1000_0101, 0xF0]);
    assert_eq!(coils.len(), 3);
    assert_eq!(coils.packed_len(), 1);
    assert_eq!(coils.get(0), Some(true));
    assert_eq!(coils.get(1), Some(false));
    assert_eq!(coils.get(2), Some(true));
    assert_eq!(coils.get(3), None);
    assert_eq!(coils.get(usize::MAX), None);
}

#[test]
fn packing_reads_back_what_was_packed_whatever_the_buffer_held() {
    let buff = &mut [0xFF];
    let coils = Coils::from_bools(&[false], buff).unwrap();
    assert_eq!(coils.get(0), Some(false));
    assert_eq!(coils.data, &[0xFE]);

    let bools = [false, true, false, false, true, false, false, false, false, true];
    for fill in [0x00u8, 0xFF, 0xA5] {
        let buff = &mut [fill; 3];
        let coils = Coils::from_bools(&bools, buff).unwrap();
        assert_eq!(coils.len(), bools.len());
        for (i, b) in bools.iter().enumerate() {
            assert_eq!(coils.get(i), Some(*b));
        }
        assert_eq!(coils.data[0], 0b0001_0010);
        assert_eq!(coils.data[1] & 0b11, 0b10);
        assert_eq!(coils.data[1] & !0b11, fill & !0b11);
        assert_eq!(coils.data[2], fill);

        let buff = &mut [fill; 3];
        let coils = Coils::from_iter(bools.into_iter(), buff).unwrap();
        for (i, b) in bools.iter().enumerate() {
            assert_eq!(coils.get(i), Some(*b));
        }
        assert_eq!(coils.data[2], fill);

        let buff = &mut [fill; 3];
        assert_eq!(pack_coils(bools.into_iter(), buff).unwrap().packed_len(), 2);
        let out = &mut [true; 10];
        unpack_coils(buff, 10, out).unwrap();
        assert_eq!(out, &bools);
        assert_eq!(buff[2], fill);

        let buff = &mut [fill; 3];
        assert_eq!(modbus_core::util::pack_coils(&bools, buff), Ok(2));
        let out = &mut [true; 10];
        unpack_coils(buff, 10, out).unwrap();
        assert_eq!(out, &bools);
        assert_eq!(buff[2], fill);
    }
}

#[test]
fn packing_fills_a_buffer_that_is_too_small() {
    let buff = &mut [0u8];
    assert_eq!(
        Coils::from_bools(&[true; 9], buff).err(),
        Some(Error::BufferSize)
    );
    assert_eq!(buff, &[0xFF]);
    let buff = &mut [0u8];
    assert_eq!(
        pack_coils([true; 9].into_iter(), buff),
        Err(Error::BufferSize)
    );
    assert_eq!(buff, &[0xFF]);
    let buff = &mut [0u8];
    assert_eq!(
        Coils::from_iter([false, true].into_iter().cycle().take(20), buff).err(),
        Some(Error::BufferSize)
    );
    assert_eq!(buff, &[0b1010_1010]);
}

#[test]
fn packed_len_is_the_ceiling() {
    for (quantity, packed) in [(0usize, 0usize), (1, 1), (7, 1), (8, 1), (9, 2), (16, 2), (17, 3)] {
        let q = CoilQuantity { quantity };
        assert_eq!(q.packed_len(), packed);
        let coils = Coils {
            data: &[0; 3],
            quantity: q,
        };
        assert_eq!(coils.packed_len(), packed);
        assert_eq!(coils.is_empty(), quantity == 0);
        assert_eq!(coils.len(), quantity);
    }
    assert_eq!(
        CoilQuantity {
            quantity: usize::MAX
        }
        .packed_len(),
        usize::MAX / 8 + 1
    );
}

#[test]
fn copy_coils_to_a_buffer() {
    let coils = Coils {
        data: &[0xAB, 0x01, 0x77],
        quantity: CoilQuantity { quantity: 9 },
    };
    let buf = &mut [0xEE; 4];
    coils.copy_to(buf);
    assert_eq!(buf, &[0xAB, 0x01, 0xEE, 0xEE]);
}
