//! The protocol-neutral currency of the bridge: an address and typed arguments.

use crate::float::F64;
use vstd::prelude::*;

verus! {

/// A single typed argument.
#[derive(Clone, Debug, PartialEq)]
pub enum Arg {
    /// A truth value.
    Bool(bool),
    /// An integer.
    Int(i64),
    /// A floating-point number.
    Float(F64),
    /// A string.
    Str(String),
}

/// What an argument holds.
pub enum ArgView {
    /// A truth value.
    Bool(bool),
    /// An integer.
    Int(i64),
    /// A floating-point number.
    Float(F64),
    /// A string.
    Str(Seq<char>),
}

impl View for Arg {
    type V = ArgView;

    open spec fn view(&self) -> ArgView {
        match *self {
            Arg::Bool(b) => ArgView::Bool(b),
            Arg::Int(i) => ArgView::Int(i),
            Arg::Float(f) => ArgView::Float(f),
            Arg::Str(s) => ArgView::Str(s@),
        }
    }
}

/// What the arguments of a message hold.
pub open spec fn arg_views(args: Seq<Arg>) -> Seq<ArgView> {
    args.map_values(|a: Arg| a@)
}

/// One message: an address and its arguments.
#[derive(Clone, Debug, PartialEq)]
pub struct BridgeMessage {
    /// Where the message goes, in the form of a path.
    pub address: String,
    /// What it carries.
    pub args: Vec<Arg>,
}

/// What a message holds.
pub struct MessageView {
    /// Where the message goes.
    pub address: Seq<char>,
    /// What it carries.
    pub args: Seq<ArgView>,
}

impl View for BridgeMessage {
    type V = MessageView;

    open spec fn view(&self) -> MessageView {
        MessageView { address: self.address@, args: arg_views(self.args@) }
    }
}

/// What a batch of messages holds.
pub open spec fn message_views(messages: Seq<BridgeMessage>) -> Seq<MessageView> {
    messages.map_values(|m: BridgeMessage| m@)
}

impl BridgeMessage {
    /// A message to `address` with `args`.
    pub fn new(address: String, args: Vec<Arg>) -> (r: Self)
        ensures
            r == (BridgeMessage { address, args }),
            r@ == (MessageView { address: address@, args: arg_views(args@) }),
    {
        BridgeMessage { address, args }
    }
}

/// A message holds its address and each of its arguments, in their order and as they
/// are; a batch holds each of its messages.
pub proof fn law_message_holds_its_parts(batch: Seq<BridgeMessage>, k: int, i: int)
    requires
        0 <= k < batch.len(),
        0 <= i < batch[k].args@.len(),
    ensures
        message_views(batch).len() == batch.len(),
        message_views(batch)[k].address == batch[k].address@,
        message_views(batch)[k].args.len() == batch[k].args@.len(),
        message_views(batch)[k].args[i] == (match batch[k].args@[i] {
            Arg::Bool(b) => ArgView::Bool(b),
            Arg::Int(n) => ArgView::Int(n),
            Arg::Float(f) => ArgView::Float(f),
            Arg::Str(s) => ArgView::Str(s@),
        }),
{
}

} // verus!
