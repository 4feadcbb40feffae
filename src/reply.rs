use crate::common::{SubcommandId, WireId};
use crate::frame::{Frame, TaggedPayload};
use crate::spi::SPIWriteResult;
use vstd::prelude::*;

verus! {

/// The replies to subcommands that carry at most a status byte.
#[derive(Copy, Clone, Debug)]
pub enum SubcommandReplyEnum {
    SPIWrite(SPIWriteResult),
    SetPlayerLights,
    SetHomeLight,
    SetIMUMode,
    EnableVibration,
}

impl TaggedPayload for SubcommandReplyEnum {
    type Id = SubcommandId;

    open spec fn payload_len() -> nat {
        1
    }

    open spec fn declares(id: SubcommandId) -> bool {
        match id {
            SubcommandId::SPIWrite | SubcommandId::SetPlayerLights | SubcommandId::SetHomeLight
            | SubcommandId::SetIMUMode | SubcommandId::EnableVibration => true,
            _ => false,
        }
    }

    open spec fn spec_id(self) -> SubcommandId {
        match self {
            SubcommandReplyEnum::SPIWrite(_) => SubcommandId::SPIWrite,
            SubcommandReplyEnum::SetPlayerLights => SubcommandId::SetPlayerLights,
            SubcommandReplyEnum::SetHomeLight => SubcommandId::SetHomeLight,
            SubcommandReplyEnum::SetIMUMode => SubcommandId::SetIMUMode,
            SubcommandReplyEnum::EnableVibration => SubcommandId::EnableVibration,
        }
    }

    open spec fn spec_payload(self) -> Seq<u8> {
        match self {
            SubcommandReplyEnum::SPIWrite(w) => seq![w.status],
            _ => seq![0u8],
        }
    }

    open spec fn spec_decode(id: SubcommandId, payload: Seq<u8>) -> Self {
        match id {
            SubcommandId::SPIWrite => SubcommandReplyEnum::SPIWrite(
                SPIWriteResult { status: payload[0] },
            ),
            SubcommandId::SetPlayerLights => SubcommandReplyEnum::SetPlayerLights,
            SubcommandId::SetHomeLight => SubcommandReplyEnum::SetHomeLight,
            SubcommandId::SetIMUMode => SubcommandReplyEnum::SetIMUMode,
            _ => SubcommandReplyEnum::EnableVibration,
        }
    }

    proof fn lemma_payload(self) {
    }

    fn region_len() -> (r: usize) {
        1
    }

    fn is_declared(id: SubcommandId) -> (r: bool) {
        match id {
            SubcommandId::SPIWrite | SubcommandId::SetPlayerLights | SubcommandId::SetHomeLight
            | SubcommandId::SetIMUMode | SubcommandId::EnableVibration => true,
            _ => false,
        }
    }

    fn id(&self) -> (r: SubcommandId) {
        match self {
            SubcommandReplyEnum::SPIWrite(_) => SubcommandId::SPIWrite,
            SubcommandReplyEnum::SetPlayerLights => SubcommandId::SetPlayerLights,
            SubcommandReplyEnum::SetHomeLight => SubcommandId::SetHomeLight,
            SubcommandReplyEnum::SetIMUMode => SubcommandId::SetIMUMode,
            SubcommandReplyEnum::EnableVibration => SubcommandId::EnableVibration,
        }
    }

    fn payload(&self) -> (r: Vec<u8>) {
        match self {
            SubcommandReplyEnum::SPIWrite(w) => vec![w.status],
            _ => vec![0u8],
        }
    }

    fn decode(id: SubcommandId, payload: &[u8]) -> (r: Self) {
        match id {
            SubcommandId::SPIWrite => SubcommandReplyEnum::SPIWrite(
                SPIWriteResult { status: payload[0] },
            ),
            SubcommandId::SetPlayerLights => SubcommandReplyEnum::SetPlayerLights,
            SubcommandId::SetHomeLight => SubcommandReplyEnum::SetHomeLight,
            SubcommandId::SetIMUMode => SubcommandReplyEnum::SetIMUMode,
            _ => SubcommandReplyEnum::EnableVibration,
        }
    }
}

/// A subcommand reply: an acknowledgement byte, the subcommand's identifier and a
/// one-byte payload region.
pub type SubcommandReply = Frame<SubcommandReplyEnum, 1, 0>;

} // verus!
