//! The form that bridge messages take in OSC 1.0.

use crate::float::{nearest_f32, value_of_f64, F32, F64};
use crate::message::{message_views, Arg, ArgView, BridgeMessage, MessageView};
use vstd::prelude::*;

verus! {

/// The name of the adapter.
pub const ADAPTER_ID: &'static str = "osc";

/// An argument of an OSC message.
#[derive(Clone, Debug)]
pub enum OscType {
    /// A truth value.
    Bool(bool),
    /// A 32-bit integer.
    Int(i32),
    /// A single-precision number.
    Float(F32),
    /// A string.
    Str(String),
}

/// An OSC message: an address pattern and its arguments.
#[derive(Clone, Debug)]
pub struct OscMessage {
    /// Where the message goes.
    pub addr: String,
    /// What it carries.
    pub args: Vec<OscType>,
}

/// The 32-bit integer that an integer wraps round to.
pub open spec fn wrapped(i: int) -> int {
    let low = i % 0x1_0000_0000;
    if low < 0x8000_0000 {
        low
    } else {
        low - 0x1_0000_0000
    }
}

/// Whether a single-precision number stands for a double: it is the nearest one of the
/// same sign, and no number where the double is none.
pub open spec fn narrowed(wide: F64, narrow: F32) -> bool {
    &&& narrow.is_nan() == wide.is_nan()
    &&& narrow.negative() == wide.negative()
    &&& !wide.is_nan() ==> nearest_f32(value_of_f64(wide.magnitude()), narrow.magnitude())
}

impl OscType {
    /// Whether this is the OSC form of an argument.
    pub open spec fn stands_for(self, arg: ArgView) -> bool {
        match (self, arg) {
            (OscType::Bool(r), ArgView::Bool(b)) => r == b,
            (OscType::Int(r), ArgView::Int(i)) => r == wrapped(i as int),
            (OscType::Float(r), ArgView::Float(f)) => narrowed(f, r),
            (OscType::Str(r), ArgView::Str(s)) => r@ == s,
            _ => false,
        }
    }
}

impl OscMessage {
    /// Whether this is the OSC form of a bridge message.
    pub open spec fn stands_for(self, message: MessageView) -> bool {
        &&& self.addr@ == message.address
        &&& self.args@.len() == message.args.len()
        &&& forall|i: int|
            0 <= i < message.args.len() ==> (#[trigger] self.args@[i]).stands_for(message.args[i])
    }
}

/// The OSC form of an argument: integers wrap round to 32 bits, numbers are rounded to
/// single precision.
pub fn to_osc_type(arg: &Arg) -> (r: OscType)
    ensures
        r.stands_for(arg@),
{
    match arg {
        Arg::Bool(b) => OscType::Bool(*b),
        Arg::Int(i) => {
            let i: i64 = *i;
            let r: i32 = #[verifier::truncate] (i as i32);
            assert((i - r) % 0x1_0000_0000 == 0) by (bit_vector)
                requires
                    r == i as i32,
            ;
            OscType::Int(r)
        },
        Arg::Float(f) => OscType::Float(f.to_f32()),
        Arg::Str(s) => OscType::Str(s.clone()),
    }
}

/// The OSC form of a message.
pub fn to_osc_message(message: &BridgeMessage) -> (r: OscMessage)
    ensures
        r.stands_for(message@),
{
    let mut args: Vec<OscType> = Vec::new();
    let mut i: usize = 0;
    while i < message.args.len()
        invariant
            i <= message.args.len(),
            args.len() == i,
            forall|k: int| 0 <= k < i ==> (#[trigger] args@[k]).stands_for(message@.args[k]),
        decreases message.args.len() - i,
    {
        args.push(to_osc_type(&message.args[i]));
        i += 1;
    }
    OscMessage { addr: message.address.clone(), args }
}

/// What a batch comes to: one OSC message for each of its messages, in their order.
pub fn deliver(messages: &Vec<BridgeMessage>) -> (r: Vec<OscMessage>)
    ensures
        r.len() == messages.len(),
        forall|i: int|
            0 <= i < r.len() ==> (#[trigger] r@[i]).stands_for(message_views(messages@)[i]),
{
    let mut sent: Vec<OscMessage> = Vec::new();
    let mut i: usize = 0;
    while i < messages.len()
        invariant
            i <= messages.len(),
            sent.len() == i,
            forall|k: int|
                0 <= k < i ==> (#[trigger] sent@[k]).stands_for(message_views(messages@)[k]),
        decreases messages.len() - i,
    {
        sent.push(to_osc_message(&messages[i]));
        i += 1;
    }
    sent
}

/// An integer that fits into 32 bits is sent as it is.
pub proof fn law_small_integer_is_kept(osc: OscType, i: i64)
    requires
        osc.stands_for(ArgView::Int(i)),
        i32::MIN <= i <= i32::MAX,
    ensures
        osc == OscType::Int(i as i32),
{
}

/// An argument keeps its kind: a truth value and a string are sent as they are, an
/// integer as the 32-bit integer that differs from it by a multiple of two to the power
/// of 32, and a number as the single nearest to it, of the same sign.
pub proof fn law_argument_keeps_its_kind(osc: OscType, arg: ArgView)
    requires
        osc.stands_for(arg),
    ensures
        arg matches ArgView::Bool(b) ==> osc == OscType::Bool(b),
        arg matches ArgView::Int(i) ==> (osc matches OscType::Int(r) && (i - r) % 0x1_0000_0000
            == 0),
        arg matches ArgView::Str(s) ==> (osc matches OscType::Str(r) && r@ == s),
        arg matches ArgView::Float(f) ==> (osc matches OscType::Float(r) && (r.is_nan()
            <==> f.is_nan()) && (r.negative() <==> f.negative()) && (!f.is_nan() ==> nearest_f32(
            value_of_f64(f.magnitude()),
            r.magnitude(),
        ))),
{
}

/// A message goes to its address with as many arguments as it has, each in its place.
pub proof fn law_message_keeps_its_parts(osc: OscMessage, message: MessageView, i: int)
    requires
        osc.stands_for(message),
    ensures
        osc.addr@ == message.address,
        osc.args@.len() == message.args.len(),
        0 <= i < message.args.len() ==> osc.args@[i].stands_for(message.args[i]),
{
}

} // verus!
