use modbus_core::util::{
    bool_to_u16_coil, pack_coils, packed_coils_len, u16_coil_to_bool, unpack_coils,
};
use modbus_core::Error;

#[test]
fn util_convert_bool_to_coil() {
    assert_eq!(bool_to_u16_coil(true), 0xFF00);
    assert_eq!(bool_to_u16_coil(false), 0x0000);
}

#[test]
fn util_convert_coil_to_bool() {
    assert_eq!(u16_coil_to_bool(0xFF00).unwrap(), true);
    assert_eq!(u16_coil_to_bool(0x0000).unwrap(), false);
    assert_eq!(
        u16_coil_to_bool(0x1234).err().unwrap(),
        Error::CoilValue(0x1234)
    );
}

#[test]
fn util_pack_coils_into_byte_array() {
    assert_eq!(pack_coils(&[], &mut []).unwrap(), 0);
    assert_eq!(pack_coils(&[], &mut [0, 0]).unwrap(), 0);
    assert_eq!(
        pack_coils(&[true; 2], &mut []).err().unwrap(),
        Error::BufferSize
    );

    let buff = &mut [0];
    assert_eq!(pack_coils(&[true], buff).unwrap(), 1);
    assert_eq!(buff, &[0b_1]);

    let buff = &mut [0];
    assert_eq!(pack_coils(&[false], buff).unwrap(), 1);
    assert_eq!(buff, &[0b_0]);

    let buff = &mut [0];
    assert_eq!(pack_coils(&[true, false], buff).unwrap(), 1);
    assert_eq!(buff, &[0b_01]);

    let buff = &mut [0];
    assert_eq!(pack_coils(&[false, true], buff).unwrap(), 1);
    assert_eq!(buff, &[0b_10]);

    let buff = &mut [0];
    assert_eq!(pack_coils(&[true, true], buff).unwrap(), 1);
    assert_eq!(buff, &[0b_11]);

    let buff = &mut [0];
    assert_eq!(pack_coils(&[true; 8], buff).unwrap(), 1);
    assert_eq!(buff, &[0b_1111_1111]);

    let buff = &mut [0];
    assert_eq!(pack_coils(&[false; 8], buff).unwrap(), 1);
    assert_eq!(buff, &[0]);

    let buff = &mut [0, 0];
    assert_eq!(pack_coils(&[true; 9], buff).unwrap(), 2);
    assert_eq!(buff, &[0xff, 1]);
}

#[test]
fn util_unpack_coils_from_a_byte_array() {
    assert!(unpack_coils(&[], 0, &mut []).is_ok());
    assert!(unpack_coils(&[], 0, &mut [false, false]).is_ok());
    assert!(unpack_coils(&[1, 2, 3], 0, &mut []).is_ok());
    assert_eq!(
        unpack_coils(&[], 1, &mut []).err().unwrap(),
        Error::BufferSize
    );

    let buff = &mut [false];
    assert!(unpack_coils(&[0b1], 1, buff).is_ok());
    assert_eq!(&[true], buff);

    let buff = &mut [false; 2];
    assert!(unpack_coils(&[0b01], 2, buff).is_ok());
    assert_eq!(&[true, false], buff);

    let buff = &mut [false; 2];
    assert!(unpack_coils(&[0b10], 2, buff).is_ok());
    assert_eq!(&[false, true], buff);

    let buff = &mut [false; 3];
    assert!(unpack_coils(&[0b101], 3, buff).is_ok());
    assert_eq!(&[true, false, true], buff);

    let buff = &mut [false; 10];
    assert!(unpack_coils(&[0xff, 0b11], 10, buff).is_ok());
    assert_eq!(&[true; 10], buff);
}

#[test]
fn util_packed_coils_len() {
    assert_eq!(packed_coils_len(0), 0);
    assert_eq!(packed_coils_len(1), 1);
    assert_eq!(packed_coils_len(8), 1);
    assert_eq!(packed_coils_len(9), 2);
    assert_eq!(packed_coils_len(usize::MAX), usize::MAX / 8 + 1);
}

#[test]
fn util_pack_coils_leaves_a_small_buffer() {
    let buff = &mut [0u8];
    assert_eq!(pack_coils(&[true; 9], buff), Err(Error::BufferSize));
    assert_eq!(buff, &[0]);
    let buff = &mut [0b1000_0000];
    assert_eq!(pack_coils(&[true, false, true], buff), Ok(1));
    assert_eq!(buff, &[0b1000_0101]);
}
