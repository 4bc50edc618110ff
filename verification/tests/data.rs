use modbus_core::{Data, DataFromBufferError, DataIter, Error};

#[test]
fn from_word_slice() {
    let words: &[u16] = &[0xABCD, 0xEF00, 0x1234];
    let buff: &mut [u8] = &mut [0; 5];
    assert!(Data::from_words(words, buff).is_err());
    let buff: &mut [u8] = &mut [0; 6];
    let data = Data::from_words(words, buff).unwrap();
    assert_eq!(data.len(), 3);
    let mut iter = data.into_iter();
    assert_eq!(iter.next(), Some(0xABCD));
    assert_eq!(iter.next(), Some(0xEF00));
    assert_eq!(iter.next(), Some(0x1234));
    assert_eq!(iter.next(), None);
}

#[test]
fn data_len() {
    let data = Data {
        data: &[0, 1, 2],
        quantity: 5,
    };
    assert_eq!(data.len(), 5);
}

#[test]
fn data_empty() {
    let data = Data {
        data: &[0, 1, 2],
        quantity: 0,
    };
    assert!(data.is_empty());
}

#[test]
fn data_get() {
    let data = Data {
        data: &[0xAB, 0xBC, 0x12],
        quantity: 1,
    };
    assert_eq!(data.get(0), Some(0xABBC));
    assert_eq!(data.get(1), None);

    let data = Data {
        data: &[0xFF, 0xAB, 0xCD, 0xEF, 0x33],
        quantity: 2,
    };
    assert_eq!(data.get(0), Some(0xFFAB));
    assert_eq!(data.get(1), Some(0xCDEF));
    assert_eq!(data.get(2), None);
}

#[test]
fn data_iter() {
    let data = Data {
        data: &[0x01, 0x02, 0x03, 0x04, 0xAA, 0xBB],
        quantity: 3,
    };
    let mut data_iter = DataIter { cnt: 0, data };
    assert_eq!(data_iter.next(), Some(0x0102));
    assert_eq!(data_iter.next(), Some(0x0304));
    assert_eq!(data_iter.next(), Some(0xAABB));
    assert_eq!(data_iter.next(), None);
}

#[test]
fn data_into_iter() {
    let data = Data {
        data: &[0x01, 0x02, 0x03, 0x04, 0xAA, 0xBB],
        quantity: 3,
    };
    let mut data_iter = data.into_iter();
    assert!(data_iter.next().is_some());
    assert!(data_iter.next().is_some());
    assert!(data_iter.next().is_some());
    assert!(data_iter.next().is_none());
}

#[test]
fn data_try_from() {
    assert_eq!(
        Data::try_from(&[] as &[u8]),
        Err(DataFromBufferError),
        "Data from empty buffer is not allowed"
    );
    assert_eq!(
        Data::try_from(&[0u8] as &[u8]),
        Err(DataFromBufferError),
        "Data from buffer with length that is not a multiple of 2 is not allowed"
    );
    assert_eq!(
        Data::try_from(&[0u8, 1, 2] as &[u8]),
        Err(DataFromBufferError),
        "Data from buffer with length that is not a multiple of 2 is not allowed"
    );
    assert_eq!(
        Data::try_from(&[0u8, 1] as &[u8]),
        Ok(Data {
            data: &[0, 1],
            quantity: 1
        }),
        "Data from buffer with even length must succeed"
    );
    assert_eq!(
        Data::try_from(&0x1234_5678_u64.to_be_bytes() as &[u8]),
        Ok(Data {
            data: &0x1234_5678_u64.to_be_bytes(),
            quantity: 4
        }),
        "Data from buffer with even length must succeed"
    );
}

#[test]
fn data_from() {
    assert_eq!(
        Data::from(&[0u8, 1]),
        Data {
            data: &[0, 1],
            quantity: 1
        },
        "Data from buffer with even length must succeed"
    );
    assert_eq!(
        Data::from(&0x1234_5678_u64.to_be_bytes()),
        Data {
            data: &0x1234_5678_u64.to_be_bytes(),
            quantity: 4
        },
        "Data from buffer with even length must succeed"
    );
}

#[test]
fn data_from_an_odd_array_leaves_the_last_byte_out() {
    let data = Data::from(&[1u8, 2, 3]);
    assert_eq!(data.payload(), &[1, 2]);
    assert_eq!(data.len(), 1);
    assert_eq!(data.get(0), Some(0x0102));
    assert_eq!(data.get(1), None);
    let data = Data::from(&[9u8]);
    assert_eq!(data.payload(), &[0u8; 0]);
    assert!(data.is_empty());
}

#[test]
fn from_words_writes_big_endian_and_no_more() {
    let buff: &mut [u8] = &mut [0xEE; 6];
    let data = Data::from_words(&[0x0102, 0xA0B0], buff).unwrap();
    assert_eq!(data.payload(), &[0x01, 0x02, 0xA0, 0xB0]);
    assert_eq!(data.data, &[0x01, 0x02, 0xA0, 0xB0]);
    assert_eq!(data.len(), 2);
    assert!(!data.is_empty());
    assert_eq!(data.get(0), Some(0x0102));
    assert_eq!(data.get(1), Some(0xA0B0));
    assert_eq!(data.get(2), None);
    assert_eq!(data.get(usize::MAX), None);
    assert_eq!(buff, &[0x01, 0x02, 0xA0, 0xB0, 0xEE, 0xEE]);

    let buff: &mut [u8] = &mut [0u8; 4];
    assert_eq!(Data::from_words(&[0xABCD], buff).unwrap().payload(), &[0xAB, 0xCD]);
}

#[test]
fn from_words_refuses_and_leaves_the_buffer() {
    let buff: &mut [u8] = &mut [0xEE; 3];
    assert_eq!(
        Data::from_words(&[1, 2], buff).err(),
        Some(Error::BufferSize)
    );
    assert_eq!(buff, &[0xEE; 3]);
    let buff: &mut [u8] = &mut [0xEE; 3];
    assert_eq!(Data::from_words(&[], buff).err(), Some(Error::BufferSize));
    assert_eq!(buff, &[0xEE; 3]);
}

#[test]
fn copy_words_to_a_buffer() {
    let data = Data {
        data: &[1, 2, 3, 4, 5],
        quantity: 2,
    };
    let buf = &mut [0xEE; 6];
    data.copy_to(buf);
    assert_eq!(buf, &[1, 2, 3, 4, 0xEE, 0xEE]);
}

#[test]
fn data_cursor_stays_at_the_end() {
    let data = Data {
        data: &[1, 2],
        quantity: 1,
    };
    let mut iter = data.into_iter();
    assert_eq!(iter.next(), Some(0x0102));
    assert_eq!(iter.next(), None);
    assert_eq!(iter.next(), None);
    assert_eq!(iter.cnt, 1);
}
