//! The tensor transport: what goes to the host's tensor runtime and what comes
//! back, in the numbers that the host's interface has for it.
use vstd::prelude::*;

use crate::text::joined;

verus! {

/// How truth values are stored in a tensor.
#[derive(Clone, Copy, Debug, PartialEq, Eq, Structural)]
pub enum BoolStore {
    Native,
    U8,
    U32,
}

/// The type of a tensor's cells.
#[derive(Clone, Copy, Debug, PartialEq, Eq, Structural)]
pub enum DType {
    F64,
    F32,
    Flex32,
    F16,
    BF16,
    I64,
    I32,
    I16,
    I8,
    U64,
    U32,
    U16,
    U8,
    Bool(BoolStore),
    /// Quantised numbers, of whatever scheme.
    QFloat,
}

/// The number that stands for a type on the wire.
pub open spec fn dtype_code(d: DType) -> u8 {
    match d {
        DType::F64 => 0,
        DType::F32 => 1,
        DType::Flex32 => 2,
        DType::F16 => 3,
        DType::BF16 => 4,
        DType::I64 => 5,
        DType::I32 => 6,
        DType::I16 => 7,
        DType::I8 => 8,
        DType::U64 => 9,
        DType::U32 => 10,
        DType::U16 => 11,
        DType::U8 => 12,
        DType::Bool(_) => 13,
        DType::QFloat => 14,
    }
}

/// Whether the number of a type says all there is to the type: it does not say
/// how truth values are stored, nor by what scheme numbers are quantised.
pub open spec fn survives_wire(d: DType) -> bool {
    match d {
        DType::Bool(store) => store is Native,
        DType::QFloat => false,
        _ => true,
    }
}

/// The type that a number stands for, if any: the one of that number that
/// survives the wire.
pub open spec fn dtype_of(code: u8) -> Option<DType> {
    if exists|d: DType| survives_wire(d) && #[trigger] dtype_code(d) == code {
        Some(choose|d: DType| survives_wire(d) && #[trigger] dtype_code(d) == code)
    } else {
        None
    }
}

/// Types that survive the wire have numbers of their own.
pub proof fn law_codes_differ(a: DType, b: DType)
    requires
        survives_wire(a),
        survives_wire(b),
        dtype_code(a) == dtype_code(b),
    ensures
        a == b,
{
}

/// A type that survives the wire is read back from its number.
pub proof fn law_dtype_round_trip(d: DType)
    ensures
        survives_wire(d) ==> dtype_of(dtype_code(d)) == Some(d),
        d is Bool ==> dtype_of(dtype_code(d)) == Some(DType::Bool(BoolStore::Native)),
        d is QFloat ==> dtype_of(dtype_code(d)) is None,
{
    let read = if d is Bool {
        DType::Bool(BoolStore::Native)
    } else {
        d
    };
    if d !is QFloat {
        assert(survives_wire(read) && dtype_code(read) == dtype_code(d));
        let e = choose|e: DType| survives_wire(e) && #[trigger] dtype_code(e) == dtype_code(d);
        law_codes_differ(read, e);
    }
}

/// Gives the number that stands for a type.
pub fn encode_dtype(d: DType) -> (code: u8)
    ensures
        code == dtype_code(d),
{
    match d {
        DType::F64 => 0,
        DType::F32 => 1,
        DType::Flex32 => 2,
        DType::F16 => 3,
        DType::BF16 => 4,
        DType::I64 => 5,
        DType::I32 => 6,
        DType::I16 => 7,
        DType::I8 => 8,
        DType::U64 => 9,
        DType::U32 => 10,
        DType::U16 => 11,
        DType::U8 => 12,
        DType::Bool(_) => 13,
        DType::QFloat => 14,
    }
}

/// Gives the type that a number stands for.
pub fn decode_dtype(code: u8) -> (r: Option<DType>)
    ensures
        r == dtype_of(code),
        r is Some <==> code < 14,
        r matches Some(d) ==> survives_wire(d) && dtype_code(d) == code,
{
    let d: DType = match code {
        0 => DType::F64,
        1 => DType::F32,
        2 => DType::Flex32,
        3 => DType::F16,
        4 => DType::BF16,
        5 => DType::I64,
        6 => DType::I32,
        7 => DType::I16,
        8 => DType::I8,
        9 => DType::U64,
        10 => DType::U32,
        11 => DType::U16,
        12 => DType::U8,
        13 => DType::Bool(BoolStore::Native),
        _ => {
            return None;
        },
    };
    proof {
        law_dtype_round_trip(d);
    }
    Some(d)
}

/// What names a device among all backends.
#[derive(Clone, Copy, Debug, PartialEq, Eq, Structural)]
pub struct DeviceId {
    pub type_id: u16,
    pub index_id: u16,
}

/// The one device that the host runs.
#[derive(Clone, Copy, Debug, PartialEq, Eq, Hash, Structural)]
pub struct WitDevice {
    pub id: u16,
}

/// What names `device`. There is one type of device only.
pub open spec fn device_id(device: WitDevice) -> DeviceId {
    DeviceId { type_id: 0, index_id: device.id }
}

/// The device that `id` names.
pub open spec fn device_named(id: DeviceId) -> WitDevice {
    WitDevice { id: id.index_id }
}

/// A device is found by what names it, and two devices are not named alike.
pub proof fn law_device_round_trip(a: WitDevice, b: WitDevice)
    ensures
        device_named(device_id(a)) == a,
        device_id(a) == device_id(b) ==> a == b,
{
}

impl WitDevice {
    /// The device that the host reports. The host's number is cut down to the
    /// sixteen bits that a device has.
    pub fn from_host(id: u32) -> (r: WitDevice)
        ensures
            r.id == id % 65536,
    {
        assert((id as u16) == id % 65536) by (bit_vector);
        WitDevice { id: #[verifier::truncate] (id as u16) }
    }

    /// The device that `device_id` names; of what type it says to be does not
    /// matter.
    pub fn from_id(device_id: DeviceId) -> (r: WitDevice)
        ensures
            r == device_named(device_id),
            r.id == device_id.index_id,
    {
        WitDevice { id: device_id.index_id }
    }

    /// What names the device.
    pub fn to_id(&self) -> (r: DeviceId)
        ensures
            r == crate::wire::device_id(*self),
            r.type_id == 0,
            r.index_id == self.id,
    {
        DeviceId { type_id: 0, index_id: self.id }
    }
}

/// Where the names of tensors come from: a counter that starts at one.
#[derive(Debug)]
pub struct TensorIds {
    pub next: u64,
}

/// The name of the tensor that is named after `n` others.
pub open spec fn tensor_id(n: nat) -> u64 {
    ((1 + n) % 0x1_0000_0000_0000_0000) as u64
}

impl TensorIds {
    /// Whether `n` names have been given.
    pub open spec fn given(&self, n: nat) -> bool {
        self.next == tensor_id(n)
    }

    /// A counter that has given no name.
    pub fn new() -> (r: TensorIds)
        ensures
            r.given(0),
            r.next == 1,
    {
        TensorIds { next: 1 }
    }

    /// Gives the next name. Behind the last one it starts over, at zero.
    pub fn new_tensor_id(&mut self) -> (id: u64)
        ensures
            id == old(self).next,
            final(self).next == (old(self).next + 1) % 0x1_0000_0000_0000_0000,
            forall|n: nat| #[trigger]
                old(self).given(n) ==> id == tensor_id(n) && final(self).given(n + 1),
    {
        let id: u64 = self.next;
        self.next = if id == 0xffff_ffff_ffff_ffff {
            0
        } else {
            id + 1
        };
        assert forall|n: nat| #[trigger] old(self).given(n) implies self.given(n + 1) by {
            vstd::arithmetic::div_mod::lemma_add_mod_noop(
                1 + n as int,
                1,
                0x1_0000_0000_0000_0000,
            );
        }
        id
    }
}

/// Tensors are named one, two, three and so on, up to the largest name.
pub proof fn law_tensor_ids_count_up(n: nat)
    requires
        n < 0xffff_ffff_ffff_ffff,
    ensures
        tensor_id(n) == n + 1,
{
}

/// No two tensors are named alike, unless the counter has gone round between
/// them.
pub proof fn law_tensor_ids_differ(m: nat, n: nat)
    requires
        m < n < m + 0x1_0000_0000_0000_0000,
    ensures
        tensor_id(m) != tensor_id(n),
{
    let size: int = 0x1_0000_0000_0000_0000;
    if tensor_id(m) == tensor_id(n) {
        vstd::arithmetic::div_mod::lemma_fundamental_div_mod(1 + m as int, size);
        vstd::arithmetic::div_mod::lemma_fundamental_div_mod(1 + n as int, size);
        let q = (1 + n as int) / size - (1 + m as int) / size;
        assert(n - m == size * q);
        assert(false);
    }
}

/// A tensor of the runtime, as it is spoken of: its name, its dimensions and
/// the type of its cells.
#[derive(Debug)]
pub struct TensorRef {
    pub id: u64,
    pub shape: Vec<usize>,
    pub dtype: DType,
}

/// A tensor's contents on the wire.
#[derive(Debug)]
pub struct WireTensor {
    pub dtype: u8,
    pub shape: Vec<u32>,
    pub bytes: Vec<u8>,
}

/// A tensor's contents.
#[derive(Debug)]
pub struct TensorBlob {
    pub dtype: DType,
    pub shape: Vec<usize>,
    pub bytes: Vec<u8>,
}

/// A request for a tensor's contents.
#[derive(Debug)]
pub struct ReadRequest {
    pub id: u64,
    pub shape: Vec<u32>,
    pub dtype: u8,
}

/// A tensor that is made known to the runtime, and what is sent for it.
#[derive(Debug)]
pub struct Registration {
    pub tensor: TensorRef,
    pub wire: WireTensor,
}

/// Dimensions as they are sent: each cut down to 32 bits.
pub open spec fn wire_shape(shape: Seq<usize>) -> Seq<u32> {
    Seq::new(shape.len(), |i: int| (shape[i] as int % 0x1_0000_0000) as u32)
}

/// Dimensions as they are received.
pub open spec fn host_shape(shape: Seq<u32>) -> Seq<usize> {
    Seq::new(shape.len(), |i: int| shape[i] as usize)
}

fn sent_shape(shape: &Vec<usize>) -> (r: Vec<u32>)
    ensures
        r@ == wire_shape(shape@),
{
    let mut r: Vec<u32> = Vec::with_capacity(shape.len());
    let mut i: usize = 0;
    while i < shape.len()
        invariant
            i <= shape@.len(),
            r@ == wire_shape(shape@).take(i as int),
        decreases shape@.len() - i,
    {
        let d: u64 = shape[i] as u64;
        assert((d as u32) == d % 0x1_0000_0000) by (bit_vector);
        r.push(#[verifier::truncate] (d as u32));
        assert(r@ =~= wire_shape(shape@).take(i + 1));
        i = i + 1;
    }
    assert(r@ =~= wire_shape(shape@));
    r
}

fn received_shape(shape: &Vec<u32>) -> (r: Vec<usize>)
    ensures
        r@ == host_shape(shape@),
{
    let mut r: Vec<usize> = Vec::with_capacity(shape.len());
    let mut i: usize = 0;
    while i < shape.len()
        invariant
            i <= shape@.len(),
            r@ == host_shape(shape@).take(i as int),
        decreases shape@.len() - i,
    {
        r.push(shape[i] as usize);
        assert(r@ =~= host_shape(shape@).take(i + 1));
        i = i + 1;
    }
    assert(r@ =~= host_shape(shape@));
    r
}

/// Dimensions are sent and received one by one, in order, whatever their
/// number: each as its remainder by two to the power of 32, and then unchanged.
pub proof fn law_dimensions_keep_their_order(
    shape: Seq<usize>,
    sent: Seq<u32>,
    got: Seq<usize>,
    i: int,
)
    requires
        sent == wire_shape(shape),
        got == host_shape(sent),
        0 <= i < shape.len(),
    ensures
        sent.len() == shape.len(),
        got.len() == shape.len(),
        sent[i] == shape[i] as int % 0x1_0000_0000,
        got[i] == sent[i],
        shape[i] < 0x1_0000_0000 ==> got[i] == shape[i],
{
}

/// Dimensions that fit 32 bits are received as they were sent.
pub proof fn law_shape_round_trip(shape: Seq<usize>)
    requires
        forall|i: int| 0 <= i < shape.len() ==> #[trigger] shape[i] < 0x1_0000_0000,
    ensures
        host_shape(wire_shape(shape)) == shape,
{
    assert(host_shape(wire_shape(shape)) =~= shape);
}

/// What a reply with a tensor's contents comes to. A type that the wire does
/// not know is taken for single-precision numbers.
pub open spec fn received(wire: WireTensor, blob: TensorBlob) -> bool {
    &&& blob.dtype == (match dtype_of(wire.dtype) {
        Some(d) => d,
        None => DType::F32,
    })
    &&& blob.shape@ == host_shape(wire.shape@)
    &&& blob.bytes@ == wire.bytes@
}

/// Contents that are sent and received again are the same: the dimensions
/// where they fit 32 bits, the type where it survives the wire, and the bytes
/// in any case.
pub proof fn law_contents_round_trip(sent: TensorRef, wire: WireTensor, blob: TensorBlob)
    requires
        wire.dtype == dtype_code(sent.dtype),
        wire.shape@ == wire_shape(sent.shape@),
        received(wire, blob),
    ensures
        blob.bytes@ == wire.bytes@,
        survives_wire(sent.dtype) ==> blob.dtype == sent.dtype,
        (forall|i: int| 0 <= i < sent.shape@.len() ==> #[trigger] sent.shape@[i] < 0x1_0000_0000)
            ==> blob.shape@ == sent.shape@,
{
    law_dtype_round_trip(sent.dtype);
    if forall|i: int| 0 <= i < sent.shape@.len() ==> #[trigger] sent.shape@[i] < 0x1_0000_0000 {
        law_shape_round_trip(sent.shape@);
    }
}

#[verifier::external_type_specification]
#[verifier::external_body]
pub struct ExOperationIr(burn_ir::OperationIr);

#[verifier::external_type_specification]
#[verifier::external_body]
pub struct ExEncodeError(rmp_serde::encode::Error);

/// The MessagePack encoding of an operation.
pub uninterp spec fn op_encoding(op: burn_ir::OperationIr) -> Seq<u8>;

/// Encodes an operation with `rmp_serde::to_vec`.
///
/// The contract names the bytes. It leaves unsaid when the call fails: it does
/// where memory runs out.
#[verifier::external_body]
fn encode_op(op: &burn_ir::OperationIr) -> (r: Result<Vec<u8>, rmp_serde::encode::Error>)
    ensures
        r matches Ok(bytes) ==> bytes@ == op_encoding(*op),
{
    rmp_serde::to_vec(op)
}

/// Why an operation cannot be sent.
#[derive(Clone, Copy, Debug, PartialEq, Eq, Structural)]
pub enum OpError {
    /// It could not be encoded.
    Encode,
}

/// What is sent, or refused, for an operation whose encoding came out as given.
pub fn sendable(encoded: Result<Vec<u8>, rmp_serde::encode::Error>) -> (r: Result<
    Vec<u8>,
    OpError,
>)
    ensures
        match (encoded, r) {
            (Ok(bytes), Ok(sent)) => sent@ == bytes@,
            (Err(_), Err(e)) => e == OpError::Encode,
            _ => false,
        },
{
    match encoded {
        Ok(bytes) => Ok(bytes),
        Err(_) => Err(OpError::Encode),
    }
}

/// A client of the host's tensor runtime.
#[derive(Clone, Copy, Debug, PartialEq, Eq, Structural)]
pub struct WitClient {
    pub device: WitDevice,
}

impl WitClient {
    /// A client for `device`.
    pub fn new(device: WitDevice) -> (r: WitClient)
        ensures
            r.device == device,
    {
        WitClient { device }
    }

    /// The device that the client's operations run on.
    pub fn device(&self) -> (r: WitDevice)
        ensures
            r == self.device,
    {
        self.device
    }

    /// Gives the bytes that are sent for an operation: its encoding, unless it
    /// could not be encoded.
    pub fn register_op(&self, op: &burn_ir::OperationIr) -> (r: Result<Vec<u8>, OpError>)
        ensures
            r matches Ok(bytes) ==> bytes@ == op_encoding(*op),
    {
        sendable(encode_op(op))
    }

    /// Gives the request for the contents of `tensor`.
    pub fn read_tensor_request(&self, tensor: &TensorRef) -> (r: ReadRequest)
        ensures
            r.id == tensor.id,
            r.shape@ == wire_shape(tensor.shape@),
            r.shape@.len() == tensor.shape@.len(),
            forall|i: int|
                0 <= i < tensor.shape@.len() ==> #[trigger] r.shape@[i] == tensor.shape@[i] as int
                    % 0x1_0000_0000,
            r.dtype == dtype_code(tensor.dtype),
    {
        ReadRequest {
            id: tensor.id,
            shape: sent_shape(&tensor.shape),
            dtype: encode_dtype(tensor.dtype),
        }
    }

    /// Reads the reply to a request for contents.
    pub fn read_tensor_reply(&self, reply: Result<WireTensor, String>) -> (r: Result<
        TensorBlob,
        String,
    >)
        ensures
            match (reply, r) {
                (Ok(wire), Ok(blob)) => {
                    &&& received(wire, blob)
                    &&& blob.bytes@ == wire.bytes@
                    &&& blob.shape@.len() == wire.shape@.len()
                    &&& forall|i: int|
                        0 <= i < wire.shape@.len() ==> #[trigger] blob.shape@[i] == wire.shape@[i]
                    &&& wire.dtype >= 14 ==> blob.dtype == DType::F32
                    &&& wire.dtype < 14 ==> dtype_code(blob.dtype) == wire.dtype
                    &&& blob.dtype matches DType::Bool(store) ==> store is Native
                },
                (Err(e), Err(m)) => m@ == "read_tensor (host): "@ + e@,
                _ => false,
            },
    {
        match reply {
            Ok(wire) => {
                let dtype: DType = match decode_dtype(wire.dtype) {
                    Some(d) => d,
                    None => DType::F32,
                };
                let shape: Vec<usize> = received_shape(&wire.shape);
                Ok(TensorBlob { dtype, shape, bytes: wire.bytes })
            },
            Err(e) => Err(joined("read_tensor (host): ", e.as_str())),
        }
    }

    /// Names a new tensor of the contents given, and gives what is sent for it.
    pub fn register_tensor_data(
        &self,
        ids: &mut TensorIds,
        dtype: DType,
        shape: Vec<usize>,
        bytes: Vec<u8>,
    ) -> (r: Registration)
        ensures
            r.tensor.id == old(ids).next,
            r.tensor.dtype == dtype,
            r.tensor.shape@ == shape@,
            r.wire.dtype == dtype_code(dtype),
            r.wire.shape@ == wire_shape(shape@),
            r.wire.shape@.len() == shape@.len(),
            forall|i: int|
                0 <= i < shape@.len() ==> #[trigger] r.wire.shape@[i] == shape@[i] as int
                    % 0x1_0000_0000,
            r.wire.bytes@ == bytes@,
            final(ids).next == (old(ids).next + 1) % 0x1_0000_0000_0000_0000,
            forall|n: nat| #[trigger]
                old(ids).given(n) ==> r.tensor.id == tensor_id(n) && final(ids).given(n + 1),
    {
        let id: u64 = ids.new_tensor_id();
        let wire: WireTensor = WireTensor {
            dtype: encode_dtype(dtype),
            shape: sent_shape(&shape),
            bytes,
        };
        Registration { tensor: TensorRef { id, shape, dtype }, wire }
    }

    /// Reads the reply to a request to finish all operations.
    pub fn sync(&self, reply: Result<(), String>) -> (r: Result<(), String>)
        ensures
            match (reply, r) {
                (Ok(()), Ok(())) => true,
                (Err(e), Err(m)) => m@ == "sync (host): "@ + e@,
                _ => false,
            },
    {
        match reply {
            Ok(()) => Ok(()),
            Err(e) => Err(joined("sync (host): ", e.as_str())),
        }
    }

    /// Names a tensor that has no contents yet.
    pub fn create_empty_handle(&self, ids: &mut TensorIds) -> (id: u64)
        ensures
            id == old(ids).next,
            final(ids).next == (old(ids).next + 1) % 0x1_0000_0000_0000_0000,
            forall|n: nat| #[trigger]
                old(ids).given(n) ==> id == tensor_id(n) && final(ids).given(n + 1),
    {
        ids.new_tensor_id()
    }

    /// Gives the number by which the host is asked what a type can be used for.
    pub fn dtype_usage(&self, dtype: DType) -> (code: u8)
        ensures
            code == dtype_code(dtype),
    {
        encode_dtype(dtype)
    }
}

/// A tensor together with the client that it belongs to.
#[derive(Debug)]
pub struct WitTensorHandle {
    pub tensor: TensorRef,
    pub client: WitClient,
}

/// The bridge between backends. There is one backend only, so nothing ever
/// crosses it.
pub struct WitBridge;

/// The channel to the host's tensor runtime.
#[derive(Clone, Copy, Debug)]
pub struct WitChannel {
    _private: (),
}

impl WitChannel {
    /// The name of the channel, whatever the device.
    pub fn name(_device: &WitDevice) -> (r: String)
        ensures
            r@ == "wit"@,
    {
        "wit".to_string()
    }

    /// A client for `device`.
    pub fn init_client(device: &WitDevice) -> (r: WitClient)
        ensures
            r.device == *device,
    {
        WitClient::new(*device)
    }

    /// A handle on `tensor`, as `client` knows it.
    pub fn get_tensor_handle(tensor: &TensorRef, client: &WitClient) -> (r: WitTensorHandle)
        ensures
            r.tensor.id == tensor.id,
            r.tensor.shape@ == tensor.shape@,
            r.tensor.dtype == tensor.dtype,
            r.client == *client,
    {
        let shape: Vec<usize> = tensor.shape.clone();
        assert(shape@ =~= tensor.shape@);
        WitTensorHandle {
            tensor: TensorRef { id: tensor.id, shape, dtype: tensor.dtype },
            client: *client,
        }
    }
}

} // verus!
