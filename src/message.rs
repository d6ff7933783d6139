use vstd::prelude::*;
use crate::vdm_t6::BinaryAddressedMessage;
use crate::vdm_t8::BinaryBroadcastMessage;

verus! {

/// Category of the station that sent a sentence, as its talker id tells.
#[derive(Clone, Copy, Debug, PartialEq, Eq, Structural)]
pub enum Station {
    /// `AB`
    BaseStation,
    /// `AD`
    DependentAisBaseStation,
    /// `AI`
    MobileStation,
    /// `AN`
    AidToNavigationStation,
    /// `AR`
    AisReceivingStation,
    /// `AS`
    LimitedBaseStation,
    /// `AT`
    AisTransmittingStation,
    /// `AX`
    RepeaterStation,
    /// Any other talker id.
    Other,
}

impl Default for Station {
    fn default() -> (r: Station)
        ensures
            r == Station::Other,
    {
        Station::Other
    }
}

/// Result of feeding one sentence to the decoder.
#[derive(Clone, Debug, PartialEq, Eq, Structural)]
pub enum ParsedMessage {
    /// More fragments of the message are awaited.
    Incomplete,
    /// Message type 6.
    BinaryAddressedMessage(BinaryAddressedMessage),
    /// Message type 8.
    BinaryBroadcastMessage(BinaryBroadcastMessage),
}

} // verus!
