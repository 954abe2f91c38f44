//! The tensor transport.
use burn_ir::{OperationIr, TensorId, TensorIr, TensorStatus};
use demucs::wire::{
    decode_dtype, encode_dtype, sendable, BoolStore, DType, DeviceId, OpError, TensorIds,
    TensorRef, WireTensor,
    WitBridge, WitChannel, WitClient, WitDevice, WitTensorHandle,
};

const ALL: [DType; 17] = [
    DType::F64,
    DType::F32,
    DType::Flex32,
    DType::F16,
    DType::BF16,
    DType::I64,
    DType::I32,
    DType::I16,
    DType::I8,
    DType::U64,
    DType::U32,
    DType::U16,
    DType::U8,
    DType::Bool(BoolStore::Native),
    DType::QFloat,
    DType::Bool(BoolStore::U8),
    DType::Bool(BoolStore::U32),
];

fn client() -> WitClient {
    WitClient::new(WitDevice::from_host(3))
}

#[test]
fn numbers_of_types() {
    for (i, d) in ALL[..15].iter().enumerate() {
        assert_eq!(encode_dtype(*d), i as u8);
        assert_eq!(client().dtype_usage(*d), i as u8);
    }
    assert_eq!(encode_dtype(DType::Bool(BoolStore::U8)), 13);
    assert_eq!(encode_dtype(DType::Bool(BoolStore::U32)), 13);
}

#[test]
fn types_of_numbers() {
    for (i, d) in ALL[..14].iter().enumerate() {
        assert_eq!(decode_dtype(i as u8), Some(*d));
    }
    for code in 14..=255 {
        assert_eq!(decode_dtype(code), None);
    }
}

#[test]
fn types_read_back_but_for_those_that_say_more() {
    for d in ALL {
        let back = decode_dtype(encode_dtype(d));
        match d {
            DType::Bool(_) => assert_eq!(back, Some(DType::Bool(BoolStore::Native))),
            DType::QFloat => assert_eq!(back, None),
            _ => assert_eq!(back, Some(d)),
        }
    }
}

#[test]
fn devices_and_their_names() {
    assert_eq!(WitDevice::from_host(5).id, 5);
    assert_eq!(WitDevice::from_host(65536 + 7).id, 7);
    let device = WitDevice::from_id(DeviceId { type_id: 4, index_id: 9 });
    assert_eq!(device.id, 9);
    assert_eq!(device.to_id(), DeviceId { type_id: 0, index_id: 9 });
    assert_eq!(WitDevice::from_id(device.to_id()), device);
    assert_eq!(WitClient::new(device).device(), device);
}

#[test]
fn tensors_are_named_in_turn() {
    let mut ids = TensorIds::new();
    assert_eq!(ids.new_tensor_id(), 1);
    assert_eq!(client().create_empty_handle(&mut ids), 2);
    assert_eq!(ids.new_tensor_id(), 3);
    ids.next = u64::MAX;
    assert_eq!(ids.new_tensor_id(), u64::MAX);
    assert_eq!(ids.new_tensor_id(), 0);
}

#[test]
fn contents_are_registered() {
    let mut ids = TensorIds::new();
    ids.new_tensor_id();
    let r = client().register_tensor_data(&mut ids, DType::I16, vec![2, 3], vec![1, 2, 3]);
    assert_eq!(r.tensor.id, 2);
    assert_eq!(r.tensor.shape, [2, 3]);
    assert_eq!(r.tensor.dtype, DType::I16);
    assert_eq!(r.wire.dtype, 7);
    assert_eq!(r.wire.shape, [2, 3]);
    assert_eq!(r.wire.bytes, [1, 2, 3]);
    assert_eq!(ids.next, 3);
}

#[test]
fn contents_are_asked_for() {
    let tensor = TensorRef { id: 42, shape: vec![5, (1 << 32) + 6], dtype: DType::U8 };
    let request = client().read_tensor_request(&tensor);
    assert_eq!(request.id, 42);
    assert_eq!(request.shape, [5, 6]);
    assert_eq!(request.dtype, 12);
}

#[test]
fn contents_are_received() {
    let wire = WireTensor { dtype: 0, shape: vec![4, 1], bytes: vec![9; 32] };
    let blob = client().read_tensor_reply(Ok(wire)).unwrap();
    assert_eq!(blob.dtype, DType::F64);
    assert_eq!(blob.shape, [4, 1]);
    assert_eq!(blob.bytes, [9; 32]);
    let wire = WireTensor { dtype: 99, shape: vec![], bytes: vec![] };
    assert_eq!(client().read_tensor_reply(Ok(wire)).unwrap().dtype, DType::F32);
    assert_eq!(
        client().read_tensor_reply(Err("lost".to_string())).unwrap_err(),
        "read_tensor (host): lost"
    );
}

#[test]
fn what_is_registered_reads_back() {
    let mut ids = TensorIds::new();
    for d in &ALL[..14] {
        let r = client().register_tensor_data(&mut ids, *d, vec![1, 7, 2], vec![8, 6, 4]);
        let blob = client().read_tensor_reply(Ok(r.wire)).unwrap();
        assert_eq!(blob.dtype, *d);
        assert_eq!(blob.shape, [1, 7, 2]);
        assert_eq!(blob.bytes, [8, 6, 4]);
    }
}

#[test]
fn syncing() {
    assert_eq!(client().sync(Ok(())), Ok(()));
    assert_eq!(
        client().sync(Err("busy".to_string())),
        Err("sync (host): busy".to_string())
    );
}

fn dropped(id: u64) -> OperationIr {
    OperationIr::Drop(TensorIr {
        id: TensorId::new(id),
        shape: burn_std::Shape::from(vec![2usize, 3]),
        status: TensorStatus::ReadWrite,
        dtype: burn_std::DType::F32,
    })
}

#[test]
fn operations_are_encoded() {
    let bytes = client().register_op(&dropped(5)).unwrap();
    let back: OperationIr = rmp_serde::from_slice(&bytes).unwrap();
    assert_eq!(back, dropped(5));
    assert_ne!(bytes, client().register_op(&dropped(6)).unwrap());
    // A map of one entry, named by the operation.
    assert_eq!(bytes[..6], [0x81, 0xa4, b'D', b'r', b'o', b'p']);
}

#[test]
fn encodings_are_sent_or_refused() {
    assert_eq!(sendable(Ok(vec![1, 2])), Ok(vec![1, 2]));
    let e = rmp_serde::encode::Error::UnknownLength;
    assert_eq!(sendable(Err(e)), Err(OpError::Encode));
}

#[test]
fn the_channel() {
    let device = WitDevice::from_host(1);
    assert_eq!(WitChannel::name(&device), "wit");
    let client = WitChannel::init_client(&device);
    assert_eq!(client.device(), device);
    let tensor = TensorRef { id: 8, shape: vec![1, 2], dtype: DType::I8 };
    let handle: WitTensorHandle = WitChannel::get_tensor_handle(&tensor, &client);
    assert_eq!(handle.tensor.id, 8);
    assert_eq!(handle.tensor.shape, [1, 2]);
    assert_eq!(handle.tensor.dtype, DType::I8);
    assert_eq!(handle.client, client);
    let _bridge = WitBridge;
}
