//! The cross-chain message and its parts.

use vstd::prelude::*;
use crate::encoding::TokenAmountView;
use crate::word::U256;

verus! {

/// What a message header is, as mathematics.
pub struct HeaderView {
    pub message_id: Seq<u8>,
    pub source_chain_selector: nat,
    pub dest_chain_selector: nat,
    pub on_ramp: Seq<u8>,
    pub sequence_number: nat,
    pub nonce: nat,
}

/// What a message is, as mathematics.
pub struct MessageView {
    pub header: HeaderView,
    pub sender: Seq<u8>,
    pub receiver: Seq<u8>,
    pub data: Seq<u8>,
    pub token_amounts: Seq<TokenAmountView>,
    pub extra_args: Seq<u8>,
}

/// Routing data of a message. The message id is 32 bytes by its type.
#[derive(Debug, Clone, PartialEq, Eq)]
pub struct MessageHeader {
    pub message_id: [u8; 32],
    pub source_chain_selector: u64,
    pub dest_chain_selector: u64,
    pub on_ramp: Vec<u8>,
    pub sequence_number: u64,
    pub nonce: u64,
}

impl View for MessageHeader {
    type V = HeaderView;

    open spec fn view(&self) -> HeaderView {
        HeaderView {
            message_id: self.message_id@,
            source_chain_selector: self.source_chain_selector as nat,
            dest_chain_selector: self.dest_chain_selector as nat,
            on_ramp: self.on_ramp@,
            sequence_number: self.sequence_number as nat,
            nonce: self.nonce as nat,
        }
    }
}

/// One token moved by a message. The amount arrives in 256 bits and is
/// valid only where it fits in 128.
#[derive(Debug, Clone, PartialEq, Eq)]
pub struct TokenAmountTransfer {
    pub source_pool_address: Vec<u8>,
    pub dest_token_address: Vec<u8>,
    pub extra_data: Vec<u8>,
    pub amount: U256,
}

impl View for TokenAmountTransfer {
    type V = TokenAmountView;

    open spec fn view(&self) -> TokenAmountView {
        TokenAmountView {
            source_pool_address: self.source_pool_address@,
            dest_token_address: self.dest_token_address@,
            extra_data: self.extra_data@,
            amount: self.amount@,
        }
    }
}

/// The views of a sequence of token transfers, in order.
pub open spec fn transfer_views(ts: Seq<TokenAmountTransfer>) -> Seq<TokenAmountView> {
    ts.map_values(|t: TokenAmountTransfer| t@)
}

/// A cross-chain message. The order of `token_amounts` is part of its
/// meaning.
#[derive(Debug, Clone, PartialEq, Eq)]
pub struct Message {
    pub header: MessageHeader,
    pub sender: Vec<u8>,
    pub receiver: Vec<u8>,
    pub data: Vec<u8>,
    pub token_amounts: Vec<TokenAmountTransfer>,
    pub extra_args: Vec<u8>,
}

impl View for Message {
    type V = MessageView;

    open spec fn view(&self) -> MessageView {
        MessageView {
            header: self.header@,
            sender: self.sender@,
            receiver: self.receiver@,
            data: self.data@,
            token_amounts: transfer_views(self.token_amounts@),
            extra_args: self.extra_args@,
        }
    }
}

} // verus!
