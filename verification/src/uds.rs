//! The diagnostic service frame that rides on the transport: a service
//! identifier and a text.

use vstd::prelude::*;
use vstd::string::StringSliceAdditionalSpecFns;
use vstd::utf8::{decode_utf8, encode_utf8, valid_utf8};
use crate::isotp::{IsoTPFrame, Receivable, Sendable};
use crate::segment::copy_range;

verus! {

/// A diagnostic request or response.
#[derive(Debug)]
pub struct UDSFrame {
    pub service_id: u16,
    pub service_data: String,
}

/// `String::from_utf8` of std: the text that `bytes` encode where they are
/// valid UTF-8, and nothing where they are not.
#[verifier::external_body]
fn text_from_utf8(bytes: Vec<u8>) -> (text: Option<String>)
    ensures
        text is Some <==> valid_utf8(bytes@),
        text is Some ==> text->Some_0@ == decode_utf8(bytes@),
{
    match String::from_utf8(bytes) {
        Ok(text) => Some(text),
        Err(_) => None,
    }
}

impl UDSFrame {
    /// A frame for the given service with the given text.
    pub fn new(service_id: u16, service_data: String) -> (frame: Self)
        ensures
            frame.service_id == service_id,
            frame.service_data == service_data,
    {
        Self { service_id, service_data }
    }
}

impl Sendable for UDSFrame {
    /// The identifier, high byte first, then the text in UTF-8.
    open spec fn wire_bytes(&self) -> Seq<u8> {
        seq![(self.service_id / 256) as u8, (self.service_id % 256) as u8] + encode_utf8(
            self.service_data@,
        )
    }

    fn convert(&self) -> (bytes: Vec<u8>) {
        let mut vec: Vec<u8> = Vec::new();
        vec.push((self.service_id / 256) as u8);
        vec.push((self.service_id % 256) as u8);
        let mut text = self.service_data.as_str().as_bytes_vec();
        vec.append(&mut text);
        assert(vec@ =~= self.wire_bytes());
        vec
    }
}

impl Receivable for UDSFrame {
    /// The message holds its declared size, at least the two identifier
    /// bytes, whose sum fits one byte, and valid UTF-8 behind them.
    open spec fn readable(f: IsoTPFrame) -> bool {
        &&& 2 <= f.size <= f.data@.len()
        &&& f.data@[0] + f.data@[1] <= 255
        &&& valid_utf8(f.data@.subrange(2, f.size as int))
    }

    /// The identifier is the sum of the first two bytes; the text is what
    /// the rest of the declared size encodes.
    open spec fn reads(f: IsoTPFrame, value: Self) -> bool {
        &&& value.service_id == f.data@[0] + f.data@[1]
        &&& value.service_data@ == decode_utf8(f.data@.subrange(2, f.size as int))
    }

    fn convert(f: IsoTPFrame) -> (value: Option<Self>) {
        if f.size < 2 || f.size > f.data.len() {
            return None;
        }
        let sum: u16 = f.data[0] as u16 + f.data[1] as u16;
        if sum > 255 {
            return None;
        }
        match text_from_utf8(copy_range(&f.data, 2, f.size)) {
            Some(service_data) => Some(UDSFrame { service_id: sum, service_data }),
            None => None,
        }
    }
}

} // verus!
