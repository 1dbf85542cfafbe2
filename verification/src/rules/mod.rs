//! The rule groups of the engine and the catalogue of rules they can fire.
use vstd::prelude::*;

use crate::decision::Decision;
use crate::evaluation::{RuleHit, RuleHitView};

pub mod approval;
pub mod security;
pub mod signature;
pub mod token_swap;
pub mod transfer;

verus! {

/// Every rule the engine can fire. Two variants share the identifier
/// `TOKEN_UNKNOWN_SOURCE_NETWORK` and differ in their guidance.
#[derive(Debug, Clone, Copy, PartialEq, Eq, Structural)]
pub enum RuleKind {
    SecuritySeedOrPrivateKeyRequest,
    TransferEmptyDestinationAddress,
    TransferDestinationAddressMismatch,
    TransferMissingDestinationTag,
    TransferDestinationTagMismatch,
    TokenAssetSymbolMismatch,
    TokenUnknownSourceNetwork,
    TokenMissingSourceNetwork,
    TokenUnsupportedSourceNetwork,
    TokenUnknownDestinationNetwork,
    TokenUnsupportedDestinationNetwork,
    TokenUnknownFamiliarSymbol,
    TokenMissingAssetIdentifier,
    SwapInvalidSlippage,
    SwapSlippageReview,
    SwapSlippageStop,
    SwapMissingSlippage,
    SignUnexpectedAirdropInteraction,
    ApprovalMissingScope,
    ApprovalUnlimitedAllowance,
    ReadyIntentMatch,
}

impl RuleKind {
    /// The stable identifier of the rule.
    pub open spec fn spec_rule_id(self) -> Seq<char> {
        match self {
            RuleKind::SecuritySeedOrPrivateKeyRequest => "SECURITY_SEED_OR_PRIVATE_KEY_REQUEST"@,
            RuleKind::TransferEmptyDestinationAddress => "TRANSFER_EMPTY_DESTINATION_ADDRESS"@,
            RuleKind::TransferDestinationAddressMismatch => "TRANSFER_DESTINATION_ADDRESS_MISMATCH"@,
            RuleKind::TransferMissingDestinationTag => "TRANSFER_MISSING_DESTINATION_TAG"@,
            RuleKind::TransferDestinationTagMismatch => "TRANSFER_DESTINATION_TAG_MISMATCH"@,
            RuleKind::TokenAssetSymbolMismatch => "TOKEN_ASSET_SYMBOL_MISMATCH"@,
            RuleKind::TokenUnknownSourceNetwork => "TOKEN_UNKNOWN_SOURCE_NETWORK"@,
            RuleKind::TokenMissingSourceNetwork => "TOKEN_UNKNOWN_SOURCE_NETWORK"@,
            RuleKind::TokenUnsupportedSourceNetwork => "TOKEN_UNSUPPORTED_SOURCE_NETWORK"@,
            RuleKind::TokenUnknownDestinationNetwork => "TOKEN_UNKNOWN_DESTINATION_NETWORK"@,
            RuleKind::TokenUnsupportedDestinationNetwork => "TOKEN_UNSUPPORTED_DESTINATION_NETWORK"@,
            RuleKind::TokenUnknownFamiliarSymbol => "TOKEN_UNKNOWN_FAMILIAR_SYMBOL"@,
            RuleKind::TokenMissingAssetIdentifier => "TOKEN_MISSING_ASSET_IDENTIFIER"@,
            RuleKind::SwapInvalidSlippage => "SWAP_INVALID_SLIPPAGE"@,
            RuleKind::SwapSlippageReview => "SWAP_SLIPPAGE_REVIEW"@,
            RuleKind::SwapSlippageStop => "SWAP_SLIPPAGE_STOP"@,
            RuleKind::SwapMissingSlippage => "SWAP_MISSING_SLIPPAGE"@,
            RuleKind::SignUnexpectedAirdropInteraction => "SIGN_UNEXPECTED_AIRDROP_INTERACTION"@,
            RuleKind::ApprovalMissingScope => "APPROVAL_MISSING_SCOPE"@,
            RuleKind::ApprovalUnlimitedAllowance => "APPROVAL_UNLIMITED_ALLOWANCE"@,
            RuleKind::ReadyIntentMatch => "READY_INTENT_MATCH"@,
        }
    }

    /// The decision the rule leads to.
    pub open spec fn spec_decision(self) -> Decision {
        match self {
            RuleKind::SecuritySeedOrPrivateKeyRequest => Decision::Stop,
            RuleKind::TransferEmptyDestinationAddress => Decision::Stop,
            RuleKind::TransferDestinationAddressMismatch => Decision::Stop,
            RuleKind::TransferMissingDestinationTag => Decision::Stop,
            RuleKind::TransferDestinationTagMismatch => Decision::Stop,
            RuleKind::TokenAssetSymbolMismatch => Decision::Stop,
            RuleKind::TokenUnknownSourceNetwork => Decision::Stop,
            RuleKind::TokenMissingSourceNetwork => Decision::Stop,
            RuleKind::TokenUnsupportedSourceNetwork => Decision::Stop,
            RuleKind::TokenUnknownDestinationNetwork => Decision::Stop,
            RuleKind::TokenUnsupportedDestinationNetwork => Decision::Stop,
            RuleKind::TokenUnknownFamiliarSymbol => Decision::Stop,
            RuleKind::TokenMissingAssetIdentifier => Decision::Stop,
            RuleKind::SwapInvalidSlippage => Decision::Stop,
            RuleKind::SwapSlippageReview => Decision::Review,
            RuleKind::SwapSlippageStop => Decision::Stop,
            RuleKind::SwapMissingSlippage => Decision::Review,
            RuleKind::SignUnexpectedAirdropInteraction => Decision::Stop,
            RuleKind::ApprovalMissingScope => Decision::Stop,
            RuleKind::ApprovalUnlimitedAllowance => Decision::Stop,
            RuleKind::ReadyIntentMatch => Decision::Ready,
        }
    }

    /// The explanation shown when the rule fires.
    pub open spec fn spec_explanation(self) -> Seq<char> {
        match self {
            RuleKind::SecuritySeedOrPrivateKeyRequest => "The request appears to seek a seed phrase or private key, which SendSure does not support."@,
            RuleKind::TransferEmptyDestinationAddress => "A destination address is required for SEND or SWAP requests."@,
            RuleKind::TransferDestinationAddressMismatch => "The destination address does not match the expected recipient."@,
            RuleKind::TransferMissingDestinationTag => "A destination tag or memo is required for this deposit account but was not entered."@,
            RuleKind::TransferDestinationTagMismatch => "The destination tag does not match the expected deposit tag for this account. Do not send until the deposit details are verified."@,
            RuleKind::TokenAssetSymbolMismatch => "The stated asset symbol does not match the registered token identifier."@,
            RuleKind::TokenUnknownSourceNetwork => "The source network is not recognized in SendSure's network registry."@,
            RuleKind::TokenMissingSourceNetwork => "The source network is required and must be recognized when destination network is not provided."@,
            RuleKind::TokenUnsupportedSourceNetwork => "The selected asset is not supported on the source network in SendSure's registry."@,
            RuleKind::TokenUnknownDestinationNetwork => "The destination network is not recognized in SendSure's network registry."@,
            RuleKind::TokenUnsupportedDestinationNetwork => "The selected asset is not supported on the destination network in SendSure's registry."@,
            RuleKind::TokenUnknownFamiliarSymbol => "An unknown token is using a familiar symbol, which can indicate a lookalike asset."@,
            RuleKind::TokenMissingAssetIdentifier => "A familiar token symbol was provided without an asset identifier, which is ambiguous and unsafe."@,
            RuleKind::SwapInvalidSlippage => "The swap slippage is negative or invalid."@,
            RuleKind::SwapSlippageReview => "The swap slippage is above the READY threshold and needs review."@,
            RuleKind::SwapSlippageStop => "The swap slippage is above the acceptable threshold."@,
            RuleKind::SwapMissingSlippage => "SendSure cannot complete the slippage-risk check until swap slippage tolerance is supplied."@,
            RuleKind::SignUnexpectedAirdropInteraction => "The transaction interacts with an unsolicited asset or unexpected airdrop contract."@,
            RuleKind::ApprovalMissingScope => "SendSure cannot determine whether the approval is limited or unlimited until an amount or scope is supplied."@,
            RuleKind::ApprovalUnlimitedAllowance => "The approval grants an unlimited token allowance."@,
            RuleKind::ReadyIntentMatch => "The transaction details match the stated intent under deterministic SendSure rules."@,
        }
    }

    /// The recommended next step shown when the rule fires.
    pub open spec fn spec_next_step(self) -> Seq<char> {
        match self {
            RuleKind::SecuritySeedOrPrivateKeyRequest => "Do not continue and keep the seed phrase or private key private."@,
            RuleKind::TransferEmptyDestinationAddress => "Provide the destination address before continuing."@,
            RuleKind::TransferDestinationAddressMismatch => "Do not send until the recipient address is verified."@,
            RuleKind::TransferMissingDestinationTag => "Do not send until the required tag or memo is added."@,
            RuleKind::TransferDestinationTagMismatch => "Verify the deposit profile in the exchange and correct the destination tag before sending."@,
            RuleKind::TokenAssetSymbolMismatch => "Do not continue until the asset symbol and identifier match."@,
            RuleKind::TokenUnknownSourceNetwork => "Correct the source network before continuing."@,
            RuleKind::TokenMissingSourceNetwork => "Provide a supported source network before continuing."@,
            RuleKind::TokenUnsupportedSourceNetwork => "Choose a supported source network for this asset before continuing."@,
            RuleKind::TokenUnknownDestinationNetwork => "Correct the destination network before continuing."@,
            RuleKind::TokenUnsupportedDestinationNetwork => "Choose a supported network for this asset before continuing."@,
            RuleKind::TokenUnknownFamiliarSymbol => "Do not continue unless you independently verify the token identifier."@,
            RuleKind::TokenMissingAssetIdentifier => "Provide the asset identifier before continuing."@,
            RuleKind::SwapInvalidSlippage => "Enter a valid slippage percentage before proceeding."@,
            RuleKind::SwapSlippageReview => "Review price impact and lower slippage if this was not intentional."@,
            RuleKind::SwapSlippageStop => "Do not proceed with this swap at the current slippage."@,
            RuleKind::SwapMissingSlippage => "Provide slippage tolerance before proceeding with this swap."@,
            RuleKind::SignUnexpectedAirdropInteraction => "Do not sign unsolicited airdrop transactions or messages."@,
            RuleKind::ApprovalMissingScope => "Provide an approval amount or scope before continuing."@,
            RuleKind::ApprovalUnlimitedAllowance => "Use a limited approval amount or reject the request."@,
            RuleKind::ReadyIntentMatch => "Continue only in your wallet after reviewing the final wallet prompt."@,
        }
    }

    /// The hit that the rule produces.
    pub open spec fn spec_hit(self) -> RuleHitView {
        RuleHitView {
            rule_id: self.spec_rule_id(),
            decision: self.spec_decision(),
            explanation: self.spec_explanation(),
            recommended_next_step: self.spec_next_step(),
        }
    }

    /// The decision of the rule.
    pub fn decision(self) -> (d: Decision)
        ensures
            d == self.spec_decision(),
    {
        match self {
            RuleKind::SecuritySeedOrPrivateKeyRequest => Decision::Stop,
            RuleKind::TransferEmptyDestinationAddress => Decision::Stop,
            RuleKind::TransferDestinationAddressMismatch => Decision::Stop,
            RuleKind::TransferMissingDestinationTag => Decision::Stop,
            RuleKind::TransferDestinationTagMismatch => Decision::Stop,
            RuleKind::TokenAssetSymbolMismatch => Decision::Stop,
            RuleKind::TokenUnknownSourceNetwork => Decision::Stop,
            RuleKind::TokenMissingSourceNetwork => Decision::Stop,
            RuleKind::TokenUnsupportedSourceNetwork => Decision::Stop,
            RuleKind::TokenUnknownDestinationNetwork => Decision::Stop,
            RuleKind::TokenUnsupportedDestinationNetwork => Decision::Stop,
            RuleKind::TokenUnknownFamiliarSymbol => Decision::Stop,
            RuleKind::TokenMissingAssetIdentifier => Decision::Stop,
            RuleKind::SwapInvalidSlippage => Decision::Stop,
            RuleKind::SwapSlippageReview => Decision::Review,
            RuleKind::SwapSlippageStop => Decision::Stop,
            RuleKind::SwapMissingSlippage => Decision::Review,
            RuleKind::SignUnexpectedAirdropInteraction => Decision::Stop,
            RuleKind::ApprovalMissingScope => Decision::Stop,
            RuleKind::ApprovalUnlimitedAllowance => Decision::Stop,
            RuleKind::ReadyIntentMatch => Decision::Ready,
        }
    }

    /// The hit that the rule produces, with its texts.
    pub fn to_hit(self) -> (h: RuleHit)
        ensures
            h@ == self.spec_hit(),
    {
        match self {
            RuleKind::SecuritySeedOrPrivateKeyRequest => hit(
                "SECURITY_SEED_OR_PRIVATE_KEY_REQUEST",
                Decision::Stop,
                "The request appears to seek a seed phrase or private key, which SendSure does not support.",
                "Do not continue and keep the seed phrase or private key private.",
            ),
            RuleKind::TransferEmptyDestinationAddress => hit(
                "TRANSFER_EMPTY_DESTINATION_ADDRESS",
                Decision::Stop,
                "A destination address is required for SEND or SWAP requests.",
                "Provide the destination address before continuing.",
            ),
            RuleKind::TransferDestinationAddressMismatch => hit(
                "TRANSFER_DESTINATION_ADDRESS_MISMATCH",
                Decision::Stop,
                "The destination address does not match the expected recipient.",
                "Do not send until the recipient address is verified.",
            ),
            RuleKind::TransferMissingDestinationTag => hit(
                "TRANSFER_MISSING_DESTINATION_TAG",
                Decision::Stop,
                "A destination tag or memo is required for this deposit account but was not entered.",
                "Do not send until the required tag or memo is added.",
            ),
            RuleKind::TransferDestinationTagMismatch => hit(
                "TRANSFER_DESTINATION_TAG_MISMATCH",
                Decision::Stop,
                "The destination tag does not match the expected deposit tag for this account. Do not send until the deposit details are verified.",
                "Verify the deposit profile in the exchange and correct the destination tag before sending.",
            ),
            RuleKind::TokenAssetSymbolMismatch => hit(
                "TOKEN_ASSET_SYMBOL_MISMATCH",
                Decision::Stop,
                "The stated asset symbol does not match the registered token identifier.",
                "Do not continue until the asset symbol and identifier match.",
            ),
            RuleKind::TokenUnknownSourceNetwork => hit(
                "TOKEN_UNKNOWN_SOURCE_NETWORK",
                Decision::Stop,
                "The source network is not recognized in SendSure's network registry.",
                "Correct the source network before continuing.",
            ),
            RuleKind::TokenMissingSourceNetwork => hit(
                "TOKEN_UNKNOWN_SOURCE_NETWORK",
                Decision::Stop,
                "The source network is required and must be recognized when destination network is not provided.",
                "Provide a supported source network before continuing.",
            ),
            RuleKind::TokenUnsupportedSourceNetwork => hit(
                "TOKEN_UNSUPPORTED_SOURCE_NETWORK",
                Decision::Stop,
                "The selected asset is not supported on the source network in SendSure's registry.",
                "Choose a supported source network for this asset before continuing.",
            ),
            RuleKind::TokenUnknownDestinationNetwork => hit(
                "TOKEN_UNKNOWN_DESTINATION_NETWORK",
                Decision::Stop,
                "The destination network is not recognized in SendSure's network registry.",
                "Correct the destination network before continuing.",
            ),
            RuleKind::TokenUnsupportedDestinationNetwork => hit(
                "TOKEN_UNSUPPORTED_DESTINATION_NETWORK",
                Decision::Stop,
                "The selected asset is not supported on the destination network in SendSure's registry.",
                "Choose a supported network for this asset before continuing.",
            ),
            RuleKind::TokenUnknownFamiliarSymbol => hit(
                "TOKEN_UNKNOWN_FAMILIAR_SYMBOL",
                Decision::Stop,
                "An unknown token is using a familiar symbol, which can indicate a lookalike asset.",
                "Do not continue unless you independently verify the token identifier.",
            ),
            RuleKind::TokenMissingAssetIdentifier => hit(
                "TOKEN_MISSING_ASSET_IDENTIFIER",
                Decision::Stop,
                "A familiar token symbol was provided without an asset identifier, which is ambiguous and unsafe.",
                "Provide the asset identifier before continuing.",
            ),
            RuleKind::SwapInvalidSlippage => hit(
                "SWAP_INVALID_SLIPPAGE",
                Decision::Stop,
                "The swap slippage is negative or invalid.",
                "Enter a valid slippage percentage before proceeding.",
            ),
            RuleKind::SwapSlippageReview => hit(
                "SWAP_SLIPPAGE_REVIEW",
                Decision::Review,
                "The swap slippage is above the READY threshold and needs review.",
                "Review price impact and lower slippage if this was not intentional.",
            ),
            RuleKind::SwapSlippageStop => hit(
                "SWAP_SLIPPAGE_STOP",
                Decision::Stop,
                "The swap slippage is above the acceptable threshold.",
                "Do not proceed with this swap at the current slippage.",
            ),
            RuleKind::SwapMissingSlippage => hit(
                "SWAP_MISSING_SLIPPAGE",
                Decision::Review,
                "SendSure cannot complete the slippage-risk check until swap slippage tolerance is supplied.",
                "Provide slippage tolerance before proceeding with this swap.",
            ),
            RuleKind::SignUnexpectedAirdropInteraction => hit(
                "SIGN_UNEXPECTED_AIRDROP_INTERACTION",
                Decision::Stop,
                "The transaction interacts with an unsolicited asset or unexpected airdrop contract.",
                "Do not sign unsolicited airdrop transactions or messages.",
            ),
            RuleKind::ApprovalMissingScope => hit(
                "APPROVAL_MISSING_SCOPE",
                Decision::Stop,
                "SendSure cannot determine whether the approval is limited or unlimited until an amount or scope is supplied.",
                "Provide an approval amount or scope before continuing.",
            ),
            RuleKind::ApprovalUnlimitedAllowance => hit(
                "APPROVAL_UNLIMITED_ALLOWANCE",
                Decision::Stop,
                "The approval grants an unlimited token allowance.",
                "Use a limited approval amount or reject the request.",
            ),
            RuleKind::ReadyIntentMatch => hit(
                "READY_INTENT_MATCH",
                Decision::Ready,
                "The transaction details match the stated intent under deterministic SendSure rules.",
                "Continue only in your wallet after reviewing the final wallet prompt.",
            ),
        }
    }
}

/// Builds a rule hit from its identifier, decision, explanation and next step.
pub fn hit(id: &str, decision: Decision, explanation: &str, step: &str) -> (h: RuleHit)
    ensures
        h.rule_id@ == id@,
        h.decision == decision,
        h.explanation@ == explanation@,
        h.recommended_next_step@ == step@,
{
    RuleHit {
        rule_id: String::from_str(id),
        decision,
        explanation: String::from_str(explanation),
        recommended_next_step: String::from_str(step),
    }
}

} // verus!
