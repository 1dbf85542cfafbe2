//! The wallet-agnostic statement of what a user means to do.
use vstd::prelude::*;

use crate::text::opt_view;

verus! {

/// The kind of action the user intends.
#[derive(Debug, Clone, Copy, PartialEq, Eq, Structural)]
pub enum ActionType {
    Send,
    Swap,
    Approve,
    Sign,
}

/// What the user intends, next to the details of the proposed transaction.
///
/// The swap slippage is carried as the IEEE-754 binary64 bit pattern of the percentage
/// (`f64::to_bits`), so that its thresholds are decided exactly on the encoded value.
#[derive(Debug, Clone, PartialEq)]
pub struct Intent {
    pub action_type: ActionType,
    pub source_network: Option<String>,
    pub destination_network: Option<String>,
    pub asset_symbol: Option<String>,
    pub asset_identifier: Option<String>,
    pub destination_address: Option<String>,
    pub expected_destination_address: Option<String>,
    pub entered_destination_tag_or_memo: Option<String>,
    pub expected_destination_tag_or_memo: Option<String>,
    pub contract_address: Option<String>,
    pub approval_amount_or_scope: Option<String>,
    pub swap_slippage_percent_bits: Option<u64>,
    pub transaction_origin: Option<String>,
    pub asset_was_unsolicited: bool,
}

/// The mathematical content of an `Intent`.
pub struct IntentView {
    pub action_type: ActionType,
    pub source_network: Option<Seq<char>>,
    pub destination_network: Option<Seq<char>>,
    pub asset_symbol: Option<Seq<char>>,
    pub asset_identifier: Option<Seq<char>>,
    pub destination_address: Option<Seq<char>>,
    pub expected_destination_address: Option<Seq<char>>,
    pub entered_destination_tag_or_memo: Option<Seq<char>>,
    pub expected_destination_tag_or_memo: Option<Seq<char>>,
    pub contract_address: Option<Seq<char>>,
    pub approval_amount_or_scope: Option<Seq<char>>,
    pub swap_slippage_percent_bits: Option<u64>,
    pub transaction_origin: Option<Seq<char>>,
    pub asset_was_unsolicited: bool,
}

impl View for Intent {
    type V = IntentView;

    open spec fn view(&self) -> IntentView {
        IntentView {
            action_type: self.action_type,
            source_network: opt_view(self.source_network),
            destination_network: opt_view(self.destination_network),
            asset_symbol: opt_view(self.asset_symbol),
            asset_identifier: opt_view(self.asset_identifier),
            destination_address: opt_view(self.destination_address),
            expected_destination_address: opt_view(self.expected_destination_address),
            entered_destination_tag_or_memo: opt_view(self.entered_destination_tag_or_memo),
            expected_destination_tag_or_memo: opt_view(self.expected_destination_tag_or_memo),
            contract_address: opt_view(self.contract_address),
            approval_amount_or_scope: opt_view(self.approval_amount_or_scope),
            swap_slippage_percent_bits: self.swap_slippage_percent_bits,
            transaction_origin: opt_view(self.transaction_origin),
            asset_was_unsolicited: self.asset_was_unsolicited,
        }
    }
}

impl ActionType {
    /// SEND or SWAP: the actions that move an asset to a destination.
    pub open spec fn moves_asset(self) -> bool {
        self == ActionType::Send || self == ActionType::Swap
    }
}

} // verus!
