use modbus_core::{
    CoilQuantity, Coils, Data, FrameLocation, FunctionCode, Request, Response,
};

#[test]
fn function_code_into_u8() {
    let x: u8 = FunctionCode::WriteMultipleCoils.value();
    assert_eq!(x, 15);
    let x: u8 = FunctionCode::Custom(0xBB).value();
    assert_eq!(x, 0xBB);
}

#[test]
fn function_code_from_u8() {
    assert_eq!(FunctionCode::new(15), FunctionCode::WriteMultipleCoils);
    assert_eq!(FunctionCode::new(0xBB), FunctionCode::Custom(0xBB));
}

#[test]
fn function_code_from_request() {
    let requests = &[
        (Request::ReadCoils(0, 0), 1),
        (Request::ReadDiscreteInputs(0, 0), 2),
        (Request::WriteSingleCoil(0, true), 5),
        (
            Request::WriteMultipleCoils(
                0,
                Coils {
                    quantity: CoilQuantity { quantity: 0 },
                    data: &[],
                },
            ),
            0x0F,
        ),
        (Request::ReadInputRegisters(0, 0), 0x04),
        (Request::ReadHoldingRegisters(0, 0), 0x03),
        (Request::WriteSingleRegister(0, 0), 0x06),
        (
            Request::WriteMultipleRegisters(
                0,
                Data {
                    quantity: 0,
                    data: &[],
                },
            ),
            0x10,
        ),
        (
            Request::ReadWriteMultipleRegisters(
                0,
                0,
                0,
                Data {
                    quantity: 0,
                    data: &[],
                },
            ),
            0x17,
        ),
        (Request::Custom(FunctionCode::Custom(88), &[]), 88),
    ];
    for (req, expected) in requests {
        let code: u8 = FunctionCode::from(*req).value();
        assert_eq!(*expected, code);
        assert_eq!(req.function_code().value(), code);
    }
}

#[test]
fn function_code_from_response() {
    let responses = &[
        (
            Response::ReadCoils(Coils {
                quantity: CoilQuantity { quantity: 0 },
                data: &[],
            }),
            1,
        ),
        (
            Response::ReadDiscreteInputs(Coils {
                quantity: CoilQuantity { quantity: 0 },
                data: &[],
            }),
            2,
        ),
        (Response::WriteSingleCoil(0x0), 5),
        (Response::WriteMultipleCoils(0x0, 0x0), 0x0F),
        (
            Response::ReadInputRegisters(Data {
                quantity: 0,
                data: &[],
            }),
            0x04,
        ),
        (
            Response::ReadHoldingRegisters(Data {
                quantity: 0,
                data: &[],
            }),
            0x03,
        ),
        (Response::WriteSingleRegister(0, 0), 0x06),
        (Response::WriteMultipleRegisters(0, 0), 0x10),
        (
            Response::ReadWriteMultipleRegisters(Data {
                quantity: 0,
                data: &[],
            }),
            0x17,
        ),
        (Response::Custom(FunctionCode::Custom(99), &[]), 99),
    ];
    for (req, expected) in responses {
        let code: u8 = FunctionCode::from(*req).value();
        assert_eq!(*expected, code);
        assert_eq!(req.function_code().value(), code);
    }
}

#[test]
fn test_request_pdu_len() {
    assert_eq!(Request::ReadCoils(0x12, 5).pdu_len(), 5);
    assert_eq!(Request::WriteSingleRegister(0x12, 0x33).pdu_len(), 5);
    let buf = &mut [0, 0];
    assert_eq!(
        Request::WriteMultipleCoils(0, Coils::from_bools(&[true, false], buf).unwrap()).pdu_len(),
        7
    );
}

#[test]
fn test_response_pdu_len() {
    let buf = &mut [0, 0];
    assert_eq!(
        Response::ReadCoils(Coils::from_bools(&[true], buf).unwrap()).pdu_len(),
        3
    );
}

#[test]
fn pdu_len_of_every_variant() {
    let words = Data {
        data: &[1, 2, 3, 4, 5, 6],
        quantity: 3,
    };
    let coils = Coils {
        data: &[1, 2],
        quantity: CoilQuantity { quantity: 9 },
    };
    assert_eq!(Request::ReadDiscreteInputs(0, 0).pdu_len(), 5);
    assert_eq!(Request::ReadInputRegisters(0, 0).pdu_len(), 5);
    assert_eq!(Request::ReadHoldingRegisters(0, 0).pdu_len(), 5);
    assert_eq!(Request::WriteSingleCoil(0, true).pdu_len(), 5);
    assert_eq!(Request::WriteMultipleCoils(0, coils).pdu_len(), 8);
    assert_eq!(Request::WriteMultipleRegisters(0, words).pdu_len(), 12);
    assert_eq!(
        Request::ReadWriteMultipleRegisters(0, 0, 0, words).pdu_len(),
        16
    );
    assert_eq!(
        Request::Custom(FunctionCode::Custom(9), &[1, 2]).pdu_len(),
        3
    );
    assert_eq!(Response::ReadCoils(coils).pdu_len(), 4);
    assert_eq!(Response::ReadDiscreteInputs(coils).pdu_len(), 4);
    assert_eq!(Response::WriteSingleCoil(0).pdu_len(), 3);
    assert_eq!(Response::WriteMultipleCoils(0, 0).pdu_len(), 5);
    assert_eq!(Response::WriteSingleRegister(0, 0).pdu_len(), 5);
    assert_eq!(Response::WriteMultipleRegisters(0, 0).pdu_len(), 5);
    assert_eq!(Response::ReadInputRegisters(words).pdu_len(), 8);
    assert_eq!(Response::ReadHoldingRegisters(words).pdu_len(), 8);
    assert_eq!(Response::ReadWriteMultipleRegisters(words).pdu_len(), 8);
    assert_eq!(
        Response::Custom(FunctionCode::Custom(9), &[]).pdu_len(),
        1
    );
}

#[test]
fn frame_location_end() {
    assert_eq!(FrameLocation { start: 0, size: 3 }.end(), 3);
    assert_eq!(FrameLocation { start: 2, size: 3 }.end(), 5);
    assert_eq!(FrameLocation { start: 2, size: 0 }.end(), 2);
}

#[test]
fn function_code_classification_is_total() {
    let named = [
        (0x01, FunctionCode::ReadCoils),
        (0x02, FunctionCode::ReadDiscreteInputs),
        (0x03, FunctionCode::ReadHoldingRegisters),
        (0x04, FunctionCode::ReadInputRegisters),
        (0x05, FunctionCode::WriteSingleCoil),
        (0x06, FunctionCode::WriteSingleRegister),
        (0x07, FunctionCode::ReadExceptionStatus),
        (0x08, FunctionCode::Diagnostics),
        (0x0B, FunctionCode::GetCommEventCounter),
        (0x0C, FunctionCode::GetCommEventLog),
        (0x0F, FunctionCode::WriteMultipleCoils),
        (0x10, FunctionCode::WriteMultipleRegisters),
        (0x11, FunctionCode::ReportServerId),
        (0x16, FunctionCode::MaskWriteRegister),
        (0x17, FunctionCode::ReadWriteMultipleRegisters),
    ];
    for byte in 0..=255u8 {
        let code = FunctionCode::new(byte);
        assert_eq!(code.value(), byte);
        match named.iter().find(|(value, _)| *value == byte) {
            Some((_, name)) => assert_eq!(code, *name),
            None => assert_eq!(code, FunctionCode::Custom(byte)),
        }
    }
    assert_eq!(FunctionCode::Custom(0x01).value(), 0x01);
    assert_ne!(
        FunctionCode::new(FunctionCode::Custom(0x01).value()),
        FunctionCode::Custom(0x01)
    );
}
