//! The link layer's data: one CAN frame, and text turned into frame bytes.

use vstd::prelude::*;
use vstd::string::StringSliceAdditionalSpecFns;
use aligned_array::{Aligned, A8};

verus! {

/// `bytes` laid out in a frame's eight payload slots, zero-padded at the end.
pub open spec fn padded(bytes: Seq<u8>) -> Seq<u8> {
    Seq::new(8, |i: int| if i < bytes.len() { bytes[i] } else { 0u8 })
}

/// The wrapper type of the `aligned-array` crate, which raises the alignment
/// of the value inside.
#[verifier::external_type_specification]
#[verifier::external_body]
#[verifier::reject_recursive_types(A)]
#[verifier::reject_recursive_types(T)]
pub struct ExAligned<A, T: ?Sized>(aligned_array::Aligned<A, T>);

/// The 8-byte alignment marker of the `aligned-array` crate.
#[verifier::external_type_specification]
#[verifier::external_body]
pub struct ExA8(aligned_array::A8);

/// The eight bytes inside an aligned payload.
pub uninterp spec fn aligned_bytes(payload: Aligned<A8, [u8; 8]>) -> Seq<u8>;

/// `aligned_array::Aligned`, the constructor function: the result holds
/// `bytes`, unchanged.
#[verifier::external_body]
fn aligned(bytes: [u8; 8]) -> (payload: Aligned<A8, [u8; 8]>)
    ensures
        aligned_bytes(payload) == bytes@,
{
    Aligned(bytes)
}

/// `Deref::deref` of `aligned_array::Aligned`: the array inside, copied out.
#[verifier::external_body]
fn unaligned(payload: &Aligned<A8, [u8; 8]>) -> (bytes: [u8; 8])
    ensures
        bytes@ == aligned_bytes(*payload),
{
    **payload
}

/// One link frame: an identifier, a length indicator and eight payload slots.
#[derive(Debug, PartialEq, Eq)]
pub struct CanFrame {
    pub can_id: u32,
    pub can_dlc: u8,
    pub data: Aligned<A8, [u8; 8]>,
}

impl CanFrame {
    /// The length indicator fits the capacity and the unused slots are zero.
    pub open spec fn well_formed(&self) -> bool {
        &&& self.can_dlc <= 8
        &&& aligned_bytes(self.data).len() == 8
        &&& forall|i: int| self.can_dlc <= i < 8 ==> aligned_bytes(self.data)[i] == 0u8
    }

    /// The bytes that the frame carries: the first `can_dlc` slots (all
    /// eight where the indicator is out of range).
    pub open spec fn payload(&self) -> Seq<u8> {
        if self.can_dlc <= 8 {
            aligned_bytes(self.data).take(self.can_dlc as int)
        } else {
            aligned_bytes(self.data)
        }
    }

    /// An empty frame with the given identifier and length indicator.
    pub fn new(can_id: u32, can_dlc: u8) -> (frame: Self)
        ensures
            frame.can_id == can_id,
            frame.can_dlc == can_dlc,
            aligned_bytes(frame.data) == padded(Seq::<u8>::empty()),
    {
        let zeros: [u8; 8] = [0u8; 8];
        assert(zeros@ =~= padded(Seq::<u8>::empty()));
        CanFrame { can_id, can_dlc, data: aligned(zeros) }
    }

    /// The same frame carrying `data`, zero-padded to eight bytes.
    pub fn with_data(self, data: Vec<u8>) -> (frame: Self)
        requires
            data.len() <= 8,
        ensures
            frame.can_id == self.can_id,
            frame.can_dlc == self.can_dlc,
            aligned_bytes(frame.data) == padded(data@),
    {
        CanFrame { can_id: self.can_id, can_dlc: self.can_dlc, data: BinaryModel::convert_to_array(data) }
    }

    /// The carried bytes as a vector.
    pub fn payload_bytes(&self) -> (bytes: Vec<u8>)
        ensures
            bytes@ == self.payload(),
    {
        let n: usize = if self.can_dlc <= 8 { self.can_dlc as usize } else { 8 };
        let slots: [u8; 8] = unaligned(&self.data);
        let mut bytes: Vec<u8> = Vec::new();
        let mut i: usize = 0;
        while i < n
            invariant
                i <= n <= 8,
                bytes@ == slots@.take(i as int),
            decreases n - i,
        {
            bytes.push(slots[i]);
            assert(bytes@ =~= slots@.take(i + 1));
            i += 1;
        }
        assert(slots@.take(8) =~= slots@);
        bytes
    }
}

impl Clone for CanFrame {
    fn clone(&self) -> (frame: Self)
        ensures
            frame.can_id == self.can_id,
            frame.can_dlc == self.can_dlc,
            aligned_bytes(frame.data) == aligned_bytes(self.data),
    {
        CanFrame { can_id: self.can_id, can_dlc: self.can_dlc, data: aligned(unaligned(&self.data)) }
    }
}

/// A piece of text together with its bytes.
#[derive(Debug)]
pub struct BinaryModel {
    value: String,
    bytes: Vec<u8>,
}

/// The error of parsing text into a `BinaryModel`; no text is refused.
#[derive(Debug)]
pub struct ParseIntoBinaryModelErr;

impl BinaryModel {
    fn new(value: String, bytes: Vec<u8>) -> (model: Self)
        ensures
            model.value == value,
            model.bytes == bytes,
    {
        Self { value, bytes }
    }

    /// The text.
    pub closed spec fn spec_text(&self) -> Seq<char> {
        self.value@
    }

    /// The bytes held beside the text.
    pub closed spec fn spec_bytes(&self) -> Seq<u8> {
        self.bytes@
    }

    /// The text.
    pub fn text(&self) -> (text: &String)
        ensures
            text@ == self.spec_text(),
    {
        &self.value
    }

    /// The bytes held beside the text.
    pub fn bytes(&self) -> (bytes: &Vec<u8>)
        ensures
            bytes@ == self.spec_bytes(),
    {
        &self.bytes
    }

    /// The model of `s`: the text and its UTF-8 bytes.
    pub fn parse(s: &str) -> (parsed: Result<Self, ParseIntoBinaryModelErr>)
        ensures
            parsed is Ok,
            parsed->Ok_0.spec_text() == s@,
            parsed->Ok_0.spec_bytes() == s.spec_bytes(),
    {
        let bytes = vstd::slice::slice_to_vec(s.as_bytes());
        Ok(BinaryModel::new(s.to_owned(), bytes))
    }

    /// The first eight bytes as a frame payload.
    pub fn convert_to_frame_data(&self) -> (payload: Aligned<A8, [u8; 8]>)
        requires
            self.spec_bytes().len() >= 8,
        ensures
            aligned_bytes(payload) == self.spec_bytes().take(8),
    {
        let mut ret: [u8; 8] = [0u8; 8];
        let mut i: usize = 0;
        while i < 8
            invariant
                i <= 8,
                self.bytes@.len() >= 8,
                forall|j: int| 0 <= j < i ==> ret@[j] == self.bytes@[j],
            decreases 8 - i,
        {
            ret[i] = self.bytes[i];
            i += 1;
        }
        assert(ret@ =~= self.bytes@.take(8));
        aligned(ret)
    }

    /// `data` as a frame payload, zero-padded to eight bytes.
    pub fn convert_to_array(data: Vec<u8>) -> (payload: Aligned<A8, [u8; 8]>)
        requires
            data.len() <= 8,
        ensures
            aligned_bytes(payload) == padded(data@),
    {
        let mut ret: [u8; 8] = [0u8; 8];
        let mut i: usize = 0;
        while i < data.len()
            invariant
                i <= data.len() <= 8,
                forall|j: int| 0 <= j < i ==> ret@[j] == data@[j],
                forall|j: int| i <= j < 8 ==> ret@[j] == 0u8,
            decreases data.len() - i,
        {
            ret[i] = data[i];
            i += 1;
        }
        assert(ret@ =~= padded(data@));
        aligned(ret)
    }
}

impl std::str::FromStr for BinaryModel {
    type Err = ParseIntoBinaryModelErr;

    /// Every text parses: the model holds the text and its UTF-8 bytes.
    fn from_str(s: &str) -> (parsed: Result<Self, Self::Err>)
        ensures
            parsed is Ok,
            parsed->Ok_0.spec_text() == s@,
            parsed->Ok_0.spec_bytes() == s.spec_bytes(),
    {
        BinaryModel::parse(s)
    }
}

} // verus!
