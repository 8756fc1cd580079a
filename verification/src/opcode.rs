use vstd::prelude::*;

verus! {

/// The opcode of a gateway envelope: a small integer tag selecting the
/// envelope's purpose. The known values are fixed by the gateway protocol;
/// every other number is carried in `Unknown` unchanged, so an envelope
/// whose opcode lies outside the known set is neither rejected nor altered.
#[derive(Clone, Copy, Debug, PartialEq, Eq, Structural)]
pub enum GatewayOpCodes {
    Dispatch,
    Heartbeat,
    Identify,
    PresenceUpdate,
    VoiceStateUpdate,
    Resume,
    Reconnect,
    RequestGuildMembers,
    InvalidSession,
    Hello,
    HeartbeatAck,
    Unknown(u64),
}

impl GatewayOpCodes {
    /// The wire value of this opcode.
    pub open spec fn spec_code(self) -> u64 {
        match self {
            GatewayOpCodes::Dispatch => 0,
            GatewayOpCodes::Heartbeat => 1,
            GatewayOpCodes::Identify => 2,
            GatewayOpCodes::PresenceUpdate => 3,
            GatewayOpCodes::VoiceStateUpdate => 4,
            GatewayOpCodes::Resume => 6,
            GatewayOpCodes::Reconnect => 7,
            GatewayOpCodes::RequestGuildMembers => 8,
            GatewayOpCodes::InvalidSession => 9,
            GatewayOpCodes::Hello => 10,
            GatewayOpCodes::HeartbeatAck => 11,
            GatewayOpCodes::Unknown(n) => n,
        }
    }

    /// True when `n` is the wire value of one of the known opcodes.
    pub open spec fn spec_is_known_code(n: u64) -> bool {
        n == 0 || n == 1 || n == 2 || n == 3 || n == 4 || n == 6 || n == 7 || n == 8 || n == 9
            || n == 10 || n == 11
    }

    /// The opcode a wire value stands for.
    pub open spec fn spec_from_code(n: u64) -> GatewayOpCodes {
        if n == 0 {
            GatewayOpCodes::Dispatch
        } else if n == 1 {
            GatewayOpCodes::Heartbeat
        } else if n == 2 {
            GatewayOpCodes::Identify
        } else if n == 3 {
            GatewayOpCodes::PresenceUpdate
        } else if n == 4 {
            GatewayOpCodes::VoiceStateUpdate
        } else if n == 6 {
            GatewayOpCodes::Resume
        } else if n == 7 {
            GatewayOpCodes::Reconnect
        } else if n == 8 {
            GatewayOpCodes::RequestGuildMembers
        } else if n == 9 {
            GatewayOpCodes::InvalidSession
        } else if n == 10 {
            GatewayOpCodes::Hello
        } else if n == 11 {
            GatewayOpCodes::HeartbeatAck
        } else {
            GatewayOpCodes::Unknown(n)
        }
    }

    /// A well-formed opcode never hides a known wire value inside `Unknown`,
    /// so distinct opcodes always have distinct wire values.
    pub open spec fn wf(self) -> bool {
        match self {
            GatewayOpCodes::Unknown(n) => !Self::spec_is_known_code(n),
            _ => true,
        }
    }

    /// The wire value of this opcode.
    pub fn code(&self) -> (n: u64)
        ensures
            n == self.spec_code(),
    {
        match self {
            GatewayOpCodes::Dispatch => 0,
            GatewayOpCodes::Heartbeat => 1,
            GatewayOpCodes::Identify => 2,
            GatewayOpCodes::PresenceUpdate => 3,
            GatewayOpCodes::VoiceStateUpdate => 4,
            GatewayOpCodes::Resume => 6,
            GatewayOpCodes::Reconnect => 7,
            GatewayOpCodes::RequestGuildMembers => 8,
            GatewayOpCodes::InvalidSession => 9,
            GatewayOpCodes::Hello => 10,
            GatewayOpCodes::HeartbeatAck => 11,
            GatewayOpCodes::Unknown(n) => *n,
        }
    }

    /// The opcode a wire value stands for; never fails.
    pub fn from_code(n: u64) -> (op: GatewayOpCodes)
        ensures
            op == Self::spec_from_code(n),
            op.wf(),
            op.spec_code() == n,
    {
        if n == 0 {
            GatewayOpCodes::Dispatch
        } else if n == 1 {
            GatewayOpCodes::Heartbeat
        } else if n == 2 {
            GatewayOpCodes::Identify
        } else if n == 3 {
            GatewayOpCodes::PresenceUpdate
        } else if n == 4 {
            GatewayOpCodes::VoiceStateUpdate
        } else if n == 6 {
            GatewayOpCodes::Resume
        } else if n == 7 {
            GatewayOpCodes::Reconnect
        } else if n == 8 {
            GatewayOpCodes::RequestGuildMembers
        } else if n == 9 {
            GatewayOpCodes::InvalidSession
        } else if n == 10 {
            GatewayOpCodes::Hello
        } else if n == 11 {
            GatewayOpCodes::HeartbeatAck
        } else {
            GatewayOpCodes::Unknown(n)
        }
    }

    /// Wire values identify well-formed opcodes uniquely: reading an opcode's
    /// own wire value back gives the same opcode.
    pub proof fn lemma_code_round_trip(self)
        requires
            self.wf(),
        ensures
            Self::spec_from_code(self.spec_code()) == self,
    {
    }
}

} // verus!
