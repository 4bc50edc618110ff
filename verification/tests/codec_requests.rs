use modbus_core::FunctionCode::{
    ReadCoils, ReadDiscreteInputs, ReadHoldingRegisters, ReadInputRegisters,
    ReadWriteMultipleRegisters, WriteMultipleCoils, WriteMultipleRegisters, WriteSingleCoil,
    WriteSingleRegister,
};
use modbus_core::{
    min_request_pdu_len, min_response_pdu_len, CoilQuantity, Coils, Data, Encode, Error,
    Exception, ExceptionResponse, FunctionCode, Request,
};

#[test]
fn exception_response_into_bytes() {
    let bytes: [u8; 2] = ExceptionResponse {
        function: FunctionCode::new(0x03),
        exception: Exception::IllegalDataAddress,
    }
    .into();
    assert_eq!(bytes[0], 0x83);
    assert_eq!(bytes[1], 0x02);
}

#[test]
fn exception_response_from_bytes() {
    let data: &[u8] = &[0x79, 0x02];
    assert!(ExceptionResponse::try_from(data).is_err());

    let bytes: &[u8] = &[0x83, 0x02];
    let rsp = ExceptionResponse::try_from(bytes).unwrap();
    assert_eq!(
        rsp,
        ExceptionResponse {
            function: FunctionCode::new(0x03),
            exception: Exception::IllegalDataAddress,
        }
    );
}

#[test]
fn test_min_request_pdu_len() {
    assert_eq!(min_request_pdu_len(ReadCoils), 5);
    assert_eq!(min_request_pdu_len(ReadDiscreteInputs), 5);
    assert_eq!(min_request_pdu_len(ReadInputRegisters), 5);
    assert_eq!(min_request_pdu_len(WriteSingleCoil), 5);
    assert_eq!(min_request_pdu_len(ReadHoldingRegisters), 5);
    assert_eq!(min_request_pdu_len(WriteSingleRegister), 5);
    assert_eq!(min_request_pdu_len(WriteMultipleCoils), 6);
    assert_eq!(min_request_pdu_len(WriteMultipleRegisters), 6);
    assert_eq!(min_request_pdu_len(ReadWriteMultipleRegisters), 10);
}

#[test]
fn test_min_response_pdu_len() {
    assert_eq!(min_response_pdu_len(ReadCoils), 2);
    assert_eq!(min_response_pdu_len(ReadDiscreteInputs), 2);
    assert_eq!(min_response_pdu_len(ReadInputRegisters), 2);
    assert_eq!(min_response_pdu_len(WriteSingleCoil), 3);
    assert_eq!(min_response_pdu_len(ReadHoldingRegisters), 2);
    assert_eq!(min_response_pdu_len(WriteSingleRegister), 5);
    assert_eq!(min_response_pdu_len(WriteMultipleCoils), 5);
    assert_eq!(min_response_pdu_len(WriteMultipleRegisters), 5);
    assert_eq!(min_response_pdu_len(ReadWriteMultipleRegisters), 2);
}

#[test]
fn read_coils() {
    let bytes = &mut [0; 4];
    assert!(Request::ReadCoils(0x12, 4).encode(bytes).is_err());
    let bytes = &mut [0; 5];
    Request::ReadCoils(0x12, 4).encode(bytes).unwrap();
    assert_eq!(bytes[0], 1);
    assert_eq!(bytes[1], 0x00);
    assert_eq!(bytes[2], 0x12);
    assert_eq!(bytes[3], 0x00);
    assert_eq!(bytes[4], 0x04);

    let data: &[u8] = &[0x01];
    assert!(Request::try_from(data).is_err());
    let data: &[u8] = &[0x01, 0x0, 0x0, 0x22];
    assert!(Request::try_from(data).is_err());

    let data: &[u8] = &[0x01, 0x00, 0x12, 0x0, 0x4];
    let req = Request::try_from(data).unwrap();
    assert_eq!(req, Request::ReadCoils(0x12, 4));
}

#[test]
fn read_discrete_inputs() {
    let bytes = &mut [0; 5];
    Request::ReadDiscreteInputs(0x03, 19).encode(bytes).unwrap();
    assert_eq!(bytes[0], 2);
    assert_eq!(bytes[1], 0x00);
    assert_eq!(bytes[2], 0x03);
    assert_eq!(bytes[3], 0x00);
    assert_eq!(bytes[4], 19);

    let data: &[u8] = &[2, 0x00, 0x03, 0x00, 19];
    let req = Request::try_from(data).unwrap();
    assert_eq!(req, Request::ReadDiscreteInputs(0x03, 19));
}

#[test]
fn write_single_coil() {
    let bytes = &mut [0; 5];
    Request::WriteSingleCoil(0x1234, true)
        .encode(bytes)
        .unwrap();
    assert_eq!(bytes[0], 5);
    assert_eq!(bytes[1], 0x12);
    assert_eq!(bytes[2], 0x34);
    assert_eq!(bytes[3], 0xFF);
    assert_eq!(bytes[4], 0x00);

    let bytes: &[u8] = &[5, 0x12, 0x34, 0xFF, 0x00];
    let req = Request::try_from(bytes).unwrap();
    assert_eq!(req, Request::WriteSingleCoil(0x1234, true));
}

#[test]
fn write_multiple_coils() {
    let states = &[true, false, true, true];
    let buf = &mut [0];
    let bytes = &mut [0; 7];
    Request::WriteMultipleCoils(0x3311, Coils::from_bools(states, buf).unwrap())
        .encode(bytes)
        .unwrap();
    assert_eq!(bytes[0], 0x0F);
    assert_eq!(bytes[1], 0x33);
    assert_eq!(bytes[2], 0x11);
    assert_eq!(bytes[3], 0x00);
    assert_eq!(bytes[4], 0x04);
    assert_eq!(bytes[5], 0x01);
    assert_eq!(bytes[6], 0b_0000_1101);

    let data: &[u8] = &[0x0F, 0x33, 0x11, 0x00, 0x04, 0x02, 0b_0000_1101];
    assert!(Request::try_from(data).is_err());

    let data: &[u8] = &[
        0x0F, 0x33, 0x11, 0x00, 0x04, 0x00, // byte count == 0
    ];
    assert!(Request::try_from(data).is_ok());

    let bytes: &[u8] = &[0x0F, 0x33, 0x11, 0x00, 0x04, 0x01, 0b_0000_1101];
    let req = Request::try_from(bytes).unwrap();
    assert_eq!(
        req,
        Request::WriteMultipleCoils(
            0x3311,
            Coils {
                quantity: CoilQuantity { quantity: 4 },
                data: &[0b1101]
            }
        )
    );
}

#[test]
fn read_input_registers() {
    let bytes = &mut [0; 5];
    Request::ReadInputRegisters(0x09, 77).encode(bytes).unwrap();
    assert_eq!(bytes[0], 4);
    assert_eq!(bytes[1], 0x00);
    assert_eq!(bytes[2], 0x09);
    assert_eq!(bytes[3], 0x00);
    assert_eq!(bytes[4], 0x4D);

    let bytes: &[u8] = &[4, 0x00, 0x09, 0x00, 0x4D];
    let req = Request::try_from(bytes).unwrap();
    assert_eq!(req, Request::ReadInputRegisters(0x09, 77));
}

#[test]
fn read_holding_registers() {
    let bytes = &mut [0; 5];
    Request::ReadHoldingRegisters(0x09, 77)
        .encode(bytes)
        .unwrap();
    assert_eq!(bytes[0], 3);
    assert_eq!(bytes[1], 0x00);
    assert_eq!(bytes[2], 0x09);
    assert_eq!(bytes[3], 0x00);
    assert_eq!(bytes[4], 0x4D);

    let bytes: &[u8] = &[3, 0x00, 0x09, 0x00, 0x4D];
    let req = Request::try_from(bytes).unwrap();
    assert_eq!(req, Request::ReadHoldingRegisters(0x09, 77));
}

#[test]
fn write_single_register() {
    let bytes = &mut [0; 5];
    Request::WriteSingleRegister(0x07, 0xABCD)
        .encode(bytes)
        .unwrap();
    assert_eq!(bytes[0], 6);
    assert_eq!(bytes[1], 0x00);
    assert_eq!(bytes[2], 0x07);
    assert_eq!(bytes[3], 0xAB);
    assert_eq!(bytes[4], 0xCD);

    let bytes: &[u8] = &[6, 0x00, 0x07, 0xAB, 0xCD];
    let req = Request::try_from(bytes).unwrap();
    assert_eq!(req, Request::WriteSingleRegister(0x07, 0xABCD));
}

#[test]
fn write_multiple_registers() {
    let buf = &mut [0; 4];
    let bytes = &mut [0; 10];

    Request::WriteMultipleRegisters(0x06, Data::from_words(&[0xABCD, 0xEF12], buf).unwrap())
        .encode(bytes)
        .unwrap();

    // function code
    assert_eq!(bytes[0], 0x10);

    // write starting address
    assert_eq!(bytes[1], 0x00);
    assert_eq!(bytes[2], 0x06);

    // quantity to write
    assert_eq!(bytes[3], 0x00);
    assert_eq!(bytes[4], 0x02);

    // write byte count
    assert_eq!(bytes[5], 0x04);

    // values
    assert_eq!(bytes[6], 0xAB);
    assert_eq!(bytes[7], 0xCD);
    assert_eq!(bytes[8], 0xEF);
    assert_eq!(bytes[9], 0x12);

    let data: &[u8] = &[0x10, 0x00, 0x06, 0x00, 0x02, 0x05, 0xAB, 0xCD, 0xEF, 0x12];
    assert!(Request::try_from(data).is_err());

    let bytes: &[u8] = &[0x10, 0x00, 0x06, 0x00, 0x02, 0x04, 0xAB, 0xCD, 0xEF, 0x12];
    let req = Request::try_from(bytes).unwrap();
    assert_eq!(
        req,
        Request::WriteMultipleRegisters(
            0x06,
            Data {
                quantity: 2,
                data: &[0xAB, 0xCD, 0xEF, 0x12]
            }
        )
    );
    if let Request::WriteMultipleRegisters(_, data) = req {
        assert_eq!(data.get(0), Some(0xABCD));
        assert_eq!(data.get(1), Some(0xEF12));
    } else {
        unreachable!()
    }
}

#[test]
fn read_write_multiple_registers() {
    let buf = &mut [0; 4];
    let bytes = &mut [0; 14];
    let data = Data::from_words(&[0xABCD, 0xEF12], buf).unwrap();
    Request::ReadWriteMultipleRegisters(0x05, 51, 0x03, data)
        .encode(bytes)
        .unwrap();

    // function code
    assert_eq!(bytes[0], 0x17);

    // read starting address
    assert_eq!(bytes[1], 0x00);
    assert_eq!(bytes[2], 0x05);

    // quantity to read
    assert_eq!(bytes[3], 0x00);
    assert_eq!(bytes[4], 0x33);

    // write starting address
    assert_eq!(bytes[5], 0x00);
    assert_eq!(bytes[6], 0x03);

    // quantity to write
    assert_eq!(bytes[7], 0x00);
    assert_eq!(bytes[8], 0x02);

    // write byte count
    assert_eq!(bytes[9], 0x04);

    // values
    assert_eq!(bytes[10], 0xAB);
    assert_eq!(bytes[11], 0xCD);
    assert_eq!(bytes[12], 0xEF);
    assert_eq!(bytes[13], 0x12);

    let data: &[u8] = &[
        0x17, 0x00, 0x05, 0x00, 0x33, 0x00, 0x03, 0x00, 0x02, 0x05, 0xAB, 0xCD, 0xEF, 0x12,
    ];
    assert!(Request::try_from(data).is_err());
    let bytes: &[u8] = &[
        0x17, 0x00, 0x05, 0x00, 0x33, 0x00, 0x03, 0x00, 0x02, 0x04, 0xAB, 0xCD, 0xEF, 0x12,
    ];
    let req = Request::try_from(bytes).unwrap();
    let data = Data {
        quantity: 2,
        data: &[0xAB, 0xCD, 0xEF, 0x12],
    };
    assert_eq!(
        req,
        Request::ReadWriteMultipleRegisters(0x05, 51, 0x03, data)
    );
    if let Request::ReadWriteMultipleRegisters(_, _, _, data) = req {
        assert_eq!(data.get(0), Some(0xABCD));
        assert_eq!(data.get(1), Some(0xEF12));
    } else {
        unreachable!()
    }
}

#[test]
fn custom() {
    let bytes = &mut [0; 5];
    Request::Custom(FunctionCode::Custom(0x55), &[0xCC, 0x88, 0xAA, 0xFF])
        .encode(bytes)
        .unwrap();
    assert_eq!(bytes[0], 0x55);
    assert_eq!(bytes[1], 0xCC);
    assert_eq!(bytes[2], 0x88);
    assert_eq!(bytes[3], 0xAA);
    assert_eq!(bytes[4], 0xFF);

    let bytes: &[u8] = &[0x55, 0xCC, 0x88, 0xAA, 0xFF];
    let req = Request::try_from(bytes).unwrap();
    assert_eq!(
        req,
        Request::Custom(FunctionCode::Custom(0x55), &[0xCC, 0x88, 0xAA, 0xFF])
    );
}

#[test]
fn empty_request() {
    let data: &[u8] = &[];
    assert!(Request::try_from(data).is_err());
}

#[test]
fn request_errors() {
    let data: &[u8] = &[];
    assert_eq!(Request::try_from(data), Err(Error::BufferSize));
    let data: &[u8] = &[0x05, 0x12, 0x34, 0x12, 0x34];
    assert_eq!(Request::try_from(data), Err(Error::CoilValue(0x1234)));
    let data: &[u8] = &[0x05, 0x12, 0x34, 0x00, 0x00];
    assert_eq!(
        Request::try_from(data),
        Ok(Request::WriteSingleCoil(0x1234, false))
    );
    let data: &[u8] = &[0x0F, 0x33, 0x11, 0x00, 0x04, 0x02, 0x0D];
    assert_eq!(Request::try_from(data), Err(Error::ByteCount(2)));
    let data: &[u8] = &[0x17, 0, 5, 0, 0x33, 0, 3, 0, 2, 5, 0xAB, 0xCD, 0xEF, 0x12];
    assert_eq!(Request::try_from(data), Err(Error::ByteCount(5)));
    let data: &[u8] = &[0x83, 0x02];
    assert_eq!(Request::try_from(data), Err(Error::FnCode(0x83)));
    let data: &[u8] = &[0x16, 1, 2, 3, 4, 5, 6];
    assert_eq!(
        Request::try_from(data),
        Ok(Request::Custom(
            FunctionCode::Custom(0x16),
            &[1, 2, 3, 4, 5, 6]
        ))
    );
}

#[test]
fn request_payload_is_cut_at_the_byte_count() {
    let data: &[u8] = &[0x0F, 0x33, 0x11, 0x00, 0x04, 0x01, 0x0D, 0xEE, 0xEE];
    assert_eq!(
        Request::try_from(data),
        Ok(Request::WriteMultipleCoils(
            0x3311,
            Coils {
                quantity: CoilQuantity { quantity: 4 },
                data: &[0x0D]
            }
        ))
    );
}

#[test]
fn request_encoding_leaves_the_rest_of_the_buffer() {
    let bytes = &mut [0xEE; 7];
    assert_eq!(Request::ReadCoils(0x0102, 0x0304).encode(bytes), Ok(5));
    assert_eq!(bytes, &[0x01, 0x01, 0x02, 0x03, 0x04, 0xEE, 0xEE]);
    let bytes = &mut [0xEE; 4];
    assert_eq!(
        Request::ReadCoils(0x0102, 0x0304).encode(bytes),
        Err(Error::BufferSize)
    );
    assert_eq!(bytes, &[0xEE; 4]);
}

#[test]
fn request_round_trip() {
    let coil_buf = &mut [0; 2];
    let word_buf = &mut [0; 6];
    let coils = Coils::from_bools(&[true, false, true, true, false, false, true, false, true], coil_buf).unwrap();
    let words = Data::from_words(&[0x0102, 0xA0B0, 0xFFFE], word_buf).unwrap();
    let requests = [
        Request::ReadCoils(1, 2),
        Request::ReadDiscreteInputs(0xFFFF, 0),
        Request::WriteSingleCoil(7, true),
        Request::WriteSingleCoil(7, false),
        Request::WriteMultipleCoils(0x0102, coils),
        Request::ReadInputRegisters(3, 4),
        Request::ReadHoldingRegisters(5, 6),
        Request::WriteSingleRegister(0x1234, 0x5678),
        Request::WriteMultipleRegisters(9, words),
        Request::ReadWriteMultipleRegisters(1, 2, 3, words),
        Request::Custom(FunctionCode::Custom(0x55), &[1, 2, 3]),
        Request::Custom(FunctionCode::Custom(0x7F), &[]),
    ];
    for request in requests {
        let len = request.pdu_len();
        let mut bytes = [0u8; 32];
        assert_eq!(request.encode(&mut bytes[..len - 1]), Err(Error::BufferSize));
        assert_eq!(request.encode(&mut bytes[..len]), Ok(len));
        assert_eq!(Request::try_from(&bytes[..len]), Ok(request));
    }
}
