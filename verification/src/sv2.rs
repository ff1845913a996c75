//! Classification of V2 binary messages: the bridge only needs to know
//! which kind of message a frame carries, to spot share submissions and
//! job notifications.

use stratum_core::parsers_sv2;
use vstd::prelude::*;

verus! {

#[verifier::external_type_specification]
#[verifier::external_body]
pub struct ExAnyMessage<'a>(parsers_sv2::AnyMessage<'a>);

#[verifier::external_type_specification]
#[verifier::external_body]
pub struct ExMining<'a>(parsers_sv2::Mining<'a>);

#[verifier::external_type_specification]
#[verifier::external_body]
pub struct ExCommonMessages<'a>(parsers_sv2::CommonMessages<'a>);

/// The kinds of V2 message the bridge tells apart.
#[derive(Clone, Copy, Debug, PartialEq, Eq, Structural)]
pub enum Sv2MessageKind {
    OpenStandardMiningChannel,
    OpenStandardMiningChannelSuccess,
    NewMiningJob,
    SetNewPrevHash,
    SubmitSharesStandard,
    SubmitSharesSuccess,
    SubmitSharesError,
    SetTarget,
    OtherMining,
    SetupConnection,
    SetupConnectionSuccess,
    SetupConnectionError,
    ChannelEndpointChanged,
    OtherCommon,
    Other,
}

/// Relies on matching `parsers_sv2::Mining`'s variants, one arm each.
#[verifier::external_body]
fn classify_mining(msg: &parsers_sv2::Mining<'_>) -> Sv2MessageKind {
    match msg {
        parsers_sv2::Mining::OpenStandardMiningChannel(_) => Sv2MessageKind::OpenStandardMiningChannel,
        parsers_sv2::Mining::OpenStandardMiningChannelSuccess(_) => Sv2MessageKind::OpenStandardMiningChannelSuccess,
        parsers_sv2::Mining::NewMiningJob(_) => Sv2MessageKind::NewMiningJob,
        parsers_sv2::Mining::SetNewPrevHash(_) => Sv2MessageKind::SetNewPrevHash,
        parsers_sv2::Mining::SubmitSharesStandard(_) => Sv2MessageKind::SubmitSharesStandard,
        parsers_sv2::Mining::SubmitSharesSuccess(_) => Sv2MessageKind::SubmitSharesSuccess,
        parsers_sv2::Mining::SubmitSharesError(_) => Sv2MessageKind::SubmitSharesError,
        parsers_sv2::Mining::SetTarget(_) => Sv2MessageKind::SetTarget,
        _ => Sv2MessageKind::OtherMining,
    }
}

/// Relies on matching `parsers_sv2::CommonMessages`'s variants, one arm
/// each.
#[verifier::external_body]
fn classify_common(msg: &parsers_sv2::CommonMessages<'_>) -> Sv2MessageKind {
    match msg {
        parsers_sv2::CommonMessages::SetupConnection(_) => Sv2MessageKind::SetupConnection,
        parsers_sv2::CommonMessages::SetupConnectionSuccess(_) => Sv2MessageKind::SetupConnectionSuccess,
        parsers_sv2::CommonMessages::SetupConnectionError(_) => Sv2MessageKind::SetupConnectionError,
        parsers_sv2::CommonMessages::ChannelEndpointChanged(_) => Sv2MessageKind::ChannelEndpointChanged,
        _ => Sv2MessageKind::OtherCommon,
    }
}

/// The kind a V2 message is: a function of the message's variant alone.
pub uninterp spec fn sv2_kind_of(m: parsers_sv2::AnyMessage) -> Sv2MessageKind;

/// Relies on matching `parsers_sv2::AnyMessage`'s top-level variants; the
/// kind depends on nothing but the message.
#[verifier::external_body]
fn classify_any(msg: &parsers_sv2::AnyMessage<'_>) -> (r: Sv2MessageKind)
    ensures
        r == sv2_kind_of(*msg),
{
    match msg {
        parsers_sv2::AnyMessage::Mining(m) => classify_mining(m),
        parsers_sv2::AnyMessage::Common(m) => classify_common(m),
        _ => Sv2MessageKind::Other,
    }
}

/// The display name of a message kind.
pub open spec fn kind_name(k: Sv2MessageKind) -> Seq<char> {
    match k {
        Sv2MessageKind::OpenStandardMiningChannel => "OpenStandardMiningChannel"@,
        Sv2MessageKind::OpenStandardMiningChannelSuccess => "OpenStandardMiningChannelSuccess"@,
        Sv2MessageKind::NewMiningJob => "NewMiningJob"@,
        Sv2MessageKind::SetNewPrevHash => "SetNewPrevHash"@,
        Sv2MessageKind::SubmitSharesStandard => "SubmitSharesStandard"@,
        Sv2MessageKind::SubmitSharesSuccess => "SubmitSharesSuccess"@,
        Sv2MessageKind::SubmitSharesError => "SubmitSharesError"@,
        Sv2MessageKind::SetTarget => "SetTarget"@,
        Sv2MessageKind::OtherMining => "Unknown Mining Message"@,
        Sv2MessageKind::SetupConnection => "SetupConnection"@,
        Sv2MessageKind::SetupConnectionSuccess => "SetupConnectionSuccess"@,
        Sv2MessageKind::SetupConnectionError => "SetupConnectionError"@,
        Sv2MessageKind::ChannelEndpointChanged => "ChannelEndpointChanged"@,
        Sv2MessageKind::OtherCommon => "Unknown Common Message"@,
        Sv2MessageKind::Other => "Unknown Message Type"@,
    }
}

/// The display name of a message kind.
pub fn message_kind_name(k: Sv2MessageKind) -> (r: &'static str)
    ensures
        r@ == kind_name(k),
{
    match k {
        Sv2MessageKind::OpenStandardMiningChannel => "OpenStandardMiningChannel",
        Sv2MessageKind::OpenStandardMiningChannelSuccess => "OpenStandardMiningChannelSuccess",
        Sv2MessageKind::NewMiningJob => "NewMiningJob",
        Sv2MessageKind::SetNewPrevHash => "SetNewPrevHash",
        Sv2MessageKind::SubmitSharesStandard => "SubmitSharesStandard",
        Sv2MessageKind::SubmitSharesSuccess => "SubmitSharesSuccess",
        Sv2MessageKind::SubmitSharesError => "SubmitSharesError",
        Sv2MessageKind::SetTarget => "SetTarget",
        Sv2MessageKind::OtherMining => "Unknown Mining Message",
        Sv2MessageKind::SetupConnection => "SetupConnection",
        Sv2MessageKind::SetupConnectionSuccess => "SetupConnectionSuccess",
        Sv2MessageKind::SetupConnectionError => "SetupConnectionError",
        Sv2MessageKind::ChannelEndpointChanged => "ChannelEndpointChanged",
        Sv2MessageKind::OtherCommon => "Unknown Common Message",
        Sv2MessageKind::Other => "Unknown Message Type",
    }
}

/// The kind of message a V2 frame carries.
pub fn message_kind(msg: &parsers_sv2::AnyMessage<'_>) -> (r: Sv2MessageKind)
    ensures
        r == sv2_kind_of(*msg),
{
    classify_any(msg)
}

/// Extracts the display name of a V2 message's type.
pub fn get_message_type(msg: &parsers_sv2::AnyMessage<'_>) -> (r: &'static str)
    ensures
        r@ == kind_name(sv2_kind_of(*msg)),
{
    message_kind_name(classify_any(msg))
}

/// Whether a message is a standard share submission.
pub fn is_share_submission(msg: &parsers_sv2::AnyMessage<'_>) -> (r: bool)
    ensures
        r == (sv2_kind_of(*msg) == Sv2MessageKind::SubmitSharesStandard),
{
    let k = classify_any(msg);
    k_is_submit(k)
}

/// Whether a message is a job notification.
pub fn is_new_job(msg: &parsers_sv2::AnyMessage<'_>) -> (r: bool)
    ensures
        r == (sv2_kind_of(*msg) == Sv2MessageKind::NewMiningJob),
{
    let k = classify_any(msg);
    k_is_new_job(k)
}

/// Whether a kind is the standard share submission.
pub fn k_is_submit(k: Sv2MessageKind) -> (r: bool)
    ensures
        r == (k == Sv2MessageKind::SubmitSharesStandard),
{
    match k {
        Sv2MessageKind::SubmitSharesStandard => true,
        _ => false,
    }
}

/// Whether a kind is the job notification.
pub fn k_is_new_job(k: Sv2MessageKind) -> (r: bool)
    ensures
        r == (k == Sv2MessageKind::NewMiningJob),
{
    match k {
        Sv2MessageKind::NewMiningJob => true,
        _ => false,
    }
}

} // verus!
