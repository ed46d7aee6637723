//! Wire encodings of parameters, and the values that the framer writes for
//! delivery orders and signed numbers.
use crate::error::{Error, ErrorView};
use crate::moqt_priority::MoqtDeliveryOrder;
use crate::serde::varint::{spec_var_int, var_int_len, write_var_int, MAX_VAR_INT};
use crate::serde::{lemma_first_step, lemma_then_step, spec_string, then, write_string, wrote};
use vstd::prelude::*;

verus! {

/// A parameter whose value is a string.
pub struct StringParameter {
    enum_type: u64,
    data: String,
}

/// The content of a [`StringParameter`].
pub struct StringParameterView {
    pub enum_type: u64,
    pub data: Seq<char>,
}

impl View for StringParameter {
    type V = StringParameterView;

    closed spec fn view(&self) -> StringParameterView {
        StringParameterView { enum_type: self.enum_type, data: self.data@ }
    }
}

impl StringParameter {
    pub fn new(enum_type: u64, data: String) -> (p: StringParameter)
        ensures
            p@ == (StringParameterView { enum_type, data: data@ }),
    {
        StringParameter { enum_type, data }
    }
}

/// How a string parameter is written: its type, then the string with its
/// length.
pub struct WireStringParameter<'a>(pub &'a StringParameter);

impl WireStringParameter<'_> {
    pub open spec fn spec_wire(p: StringParameterView) -> Result<Seq<u8>, ErrorView> {
        then(spec_var_int(p.enum_type), spec_string(p.data))
    }

    pub fn serialize_into_writer(&self, w: &mut Vec<u8>) -> (res: Result<usize, Error>)
        ensures
            wrote(old(w)@, final(w)@, res, WireStringParameter::spec_wire(self.0@)),
    {
        let ghost old_w = w@;
        let r = write_var_int(self.0.enum_type, w);
        proof {
            lemma_first_step(old_w, w@, r, spec_var_int(self.0.enum_type));
        }
        let l1 = match r {
            Ok(l) => l,
            Err(e) => return Err(e),
        };
        let r = write_string(&self.0.data, w);
        proof {
            lemma_then_step(old_w, spec_var_int(self.0.enum_type)->Ok_0, w@, r, spec_string(self.0.data@));
            crate::serde::lemma_vec_len(w);
        }
        let l2 = match r {
            Ok(l) => l,
            Err(e) => return Err(e),
        };
        Ok(l1 + l2)
    }

    /// The number of bytes the parameter takes on the wire.
    pub fn get_length_on_wire(&self) -> (n: usize)
        requires
            WireStringParameter::spec_wire(self.0@) is Ok,
        ensures
            n == WireStringParameter::spec_wire(self.0@)->Ok_0.len(),
    {
        let bytes = self.0.data.as_str().as_bytes();
        let len = crate::serde::slice_len(bytes);
        proof {
            crate::serde::varint::lemma_var_int_len(self.0.enum_type);
            crate::serde::varint::lemma_var_int_len(len as u64);
        }
        needed_var_int_len(self.0.enum_type) as usize + needed_var_int_len(len as u64) as usize + len
    }
}

/// The number of bytes of the shortest encoding of `value`, 0 where it
/// cannot be encoded.
fn needed_var_int_len(value: u64) -> (n: u64)
    ensures
        n == if value <= MAX_VAR_INT {
            var_int_len(value)
        } else {
            0
        },
{
    if value < 0x40 {
        1
    } else if value < 0x4000 {
        2
    } else if value < 0x4000_0000 {
        4
    } else if value <= MAX_VAR_INT {
        8
    } else {
        0
    }
}

/// A parameter whose value is a number.
pub struct IntParameter {
    enum_type: u64,
    value: u64,
}

impl View for IntParameter {
    type V = (u64, u64);

    closed spec fn view(&self) -> (u64, u64) {
        (self.enum_type, self.value)
    }
}

impl IntParameter {
    pub fn new(enum_type: u64, value: u64) -> (p: IntParameter)
        ensures
            p@ == (enum_type, value),
    {
        IntParameter { enum_type, value }
    }
}

/// How a number parameter is written: its type, the length of the value's
/// encoding, then the value.
pub struct WireIntParameter<'a>(pub &'a IntParameter);

impl WireIntParameter<'_> {
    pub open spec fn spec_wire(p: (u64, u64)) -> Result<Seq<u8>, ErrorView> {
        then(
            then(
                spec_var_int(p.0),
                spec_var_int(
                    if p.1 <= MAX_VAR_INT {
                        var_int_len(p.1) as u64
                    } else {
                        0
                    },
                ),
            ),
            spec_var_int(p.1),
        )
    }

    pub fn serialize_into_writer(&self, w: &mut Vec<u8>) -> (res: Result<usize, Error>)
        ensures
            wrote(old(w)@, final(w)@, res, WireIntParameter::spec_wire(self.0@)),
    {
        let ghost old_w = w@;
        let size = needed_var_int_len(self.0.value);
        let r = write_var_int(self.0.enum_type, w);
        proof {
            lemma_first_step(old_w, w@, r, spec_var_int(self.0.enum_type));
        }
        let l1 = match r {
            Ok(l) => l,
            Err(e) => return Err(e),
        };
        let ghost acc = spec_var_int(self.0.enum_type)->Ok_0;
        let r = write_var_int(size, w);
        proof {
            lemma_then_step(old_w, acc, w@, r, spec_var_int(size));
            crate::serde::lemma_vec_len(w);
        }
        let l2 = match r {
            Ok(l) => l,
            Err(e) => return Err(e),
        };
        let ghost acc2 = acc + spec_var_int(size)->Ok_0;
        let r = write_var_int(self.0.value, w);
        proof {
            lemma_then_step(old_w, acc2, w@, r, spec_var_int(self.0.value));
            crate::serde::lemma_vec_len(w);
        }
        let l3 = match r {
            Ok(l) => l,
            Err(e) => return Err(e),
        };
        Ok(l1 + l2 + l3)
    }

    /// The number of bytes the parameter takes on the wire.
    pub fn get_length_on_wire(&self) -> (n: usize)
        requires
            WireIntParameter::spec_wire(self.0@) is Ok,
        ensures
            n == WireIntParameter::spec_wire(self.0@)->Ok_0.len(),
    {
        let size = needed_var_int_len(self.0.value);
        proof {
            crate::serde::varint::lemma_var_int_len(self.0.enum_type);
            crate::serde::varint::lemma_var_int_len(size);
            crate::serde::varint::lemma_var_int_len(self.0.value);
        }
        needed_var_int_len(self.0.enum_type) as usize + needed_var_int_len(size) as usize + size as usize
    }
}

/// The byte of a delivery order: 1 ascending, 2 descending, 0 none.
pub open spec fn delivery_order_byte(delivery_order: Option<MoqtDeliveryOrder>) -> u8 {
    match delivery_order {
        Some(MoqtDeliveryOrder::kAscending) => 0x01,
        Some(MoqtDeliveryOrder::kDescending) => 0x02,
        None => 0x00,
    }
}

pub fn wire_delivery_order(delivery_order: &Option<MoqtDeliveryOrder>) -> (b: u8)
    ensures
        b == delivery_order_byte(*delivery_order),
{
    match delivery_order {
        Some(MoqtDeliveryOrder::kAscending) => 0x01,
        Some(MoqtDeliveryOrder::kDescending) => 0x02,
        None => 0x00,
    }
}

/// A signed number as the framer writes it: twice its magnitude, plus one
/// where it is negative.
pub fn signed_var_int_serialized_form(value: i64) -> (r: u64)
    requires
        value != i64::MIN,
    ensures
        r == if value < 0 {
            2 * (-value) + 1
        } else {
            2 * value
        },
{
    if value < 0 {
        let m = (-value) as u64;
        assert((m << 1u64) | 1u64 == 2 * m + 1) by (bit_vector)
            requires
                m < 0x8000_0000_0000_0000,
        ;
        (m << 1) | 0x01
    } else {
        let m = value as u64;
        assert(m << 1u64 == 2 * m) by (bit_vector)
            requires
                m < 0x8000_0000_0000_0000,
        ;
        m << 1
    }
}

/// Writes MoQT messages for one session.
#[derive(Default, Copy, Clone, PartialEq, Debug, PartialOrd)]
pub struct MoqtFramer {
    using_webtrans: bool,
}

impl MoqtFramer {
    pub fn new(using_webtrans: bool) -> (f: MoqtFramer)
        ensures
            f.using_webtrans() == using_webtrans,
    {
        MoqtFramer { using_webtrans }
    }

    /// Whether the session runs over WebTransport.
    pub closed spec fn using_webtrans(self) -> bool {
        self.using_webtrans
    }
}

} // verus!
