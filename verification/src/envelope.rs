use crate::json::{wf_json, wf_text, view_json, JsonV, JsonValue};
use crate::opcode::GatewayOpCodes;
use vstd::prelude::*;

verus! {

// ------------------------------------------------------------------
// The envelope: one unit of wire communication
// ------------------------------------------------------------------

/// The static client-identification properties the identify envelope
/// carries. The server only checks their presence, not their content.
#[derive(Debug, PartialEq)]
pub struct IdentifyProperties {
    pub os: String,
    pub browser: String,
    pub browser_user_agent: String,
}

#[verifier::ext_equal]
pub ghost struct IdentifyPropertiesV {
    pub os: Seq<char>,
    pub browser: Seq<char>,
    pub browser_user_agent: Seq<char>,
}

impl View for IdentifyProperties {
    type V = IdentifyPropertiesV;

    open spec fn view(&self) -> IdentifyPropertiesV {
        IdentifyPropertiesV {
            os: self.os@,
            browser: self.browser@,
            browser_user_agent: self.browser_user_agent@,
        }
    }
}

/// An envelope's payload. The variant is keyed by the envelope's opcode
/// and, for dispatch envelopes, by its event name: only the payloads that
/// drive the protocol state machine are given shapes of their own; every
/// other payload is carried as the JSON value that stood on the wire.
#[derive(Debug, PartialEq)]
pub enum GatewayPayloadData {
    /// The payload of the first server-sent envelope: the heartbeat
    /// cadence the server dictates, in milliseconds.
    HelloData { heartbeat_interval: u64 },
    /// The client's authentication payload.
    IdentifyMessageData { token: String, capabilities: u64, properties: IdentifyProperties },
    /// The part of a presence-update event the router reads: whose
    /// presence changed and the names of their activities.
    PresenceUpdateData { user_name: String, activities: Vec<String> },
    /// The part of a message-created event the router reads.
    MessageCreateData { author_username: String, author_discriminator: String, content: String },
    /// Any other payload, preserved as it stood on the wire.
    RawData { value: JsonValue },
}

#[verifier::ext_equal]
pub ghost enum GatewayPayloadDataV {
    HelloData { heartbeat_interval: u64 },
    IdentifyMessageData { token: Seq<char>, capabilities: u64, properties: IdentifyPropertiesV },
    PresenceUpdateData { user_name: Seq<char>, activities: Seq<Seq<char>> },
    MessageCreateData {
        author_username: Seq<char>,
        author_discriminator: Seq<char>,
        content: Seq<char>,
    },
    RawData { value: JsonV },
}

pub open spec fn view_strings(s: Seq<String>) -> Seq<Seq<char>>
    decreases s,
{
    if s.len() == 0 {
        Seq::empty()
    } else {
        seq![s[0]@] + view_strings(s.drop_first())
    }
}

pub broadcast proof fn lemma_view_strings(s: Seq<String>)
    ensures
        (#[trigger] view_strings(s)).len() == s.len(),
        forall|i: int| 0 <= i < s.len() ==> view_strings(s)[i] == s[i]@,
    decreases s.len(),
{
    if s.len() > 0 {
        lemma_view_strings(s.drop_first());
    }
}

pub open spec fn view_payload(p: GatewayPayloadData) -> GatewayPayloadDataV {
    match p {
        GatewayPayloadData::HelloData { heartbeat_interval } => GatewayPayloadDataV::HelloData {
            heartbeat_interval,
        },
        GatewayPayloadData::IdentifyMessageData {
            token,
            capabilities,
            properties,
        } => GatewayPayloadDataV::IdentifyMessageData {
            token: token@,
            capabilities,
            properties: properties@,
        },
        GatewayPayloadData::PresenceUpdateData {
            user_name,
            activities,
        } => GatewayPayloadDataV::PresenceUpdateData {
            user_name: user_name@,
            activities: view_strings(activities@),
        },
        GatewayPayloadData::MessageCreateData {
            author_username,
            author_discriminator,
            content,
        } => GatewayPayloadDataV::MessageCreateData {
            author_username: author_username@,
            author_discriminator: author_discriminator@,
            content: content@,
        },
        GatewayPayloadData::RawData { value } => GatewayPayloadDataV::RawData {
            value: view_json(value),
        },
    }
}

impl View for GatewayPayloadData {
    type V = GatewayPayloadDataV;

    open spec fn view(&self) -> GatewayPayloadDataV {
        view_payload(*self)
    }
}

/// One envelope of the wire protocol: opcode, optional payload, optional
/// sequence number, optional event name.
#[derive(Debug, PartialEq)]
pub struct GatewayPayload {
    /// opcode for the payload
    pub op: GatewayOpCodes,
    /// event data
    pub d: Option<GatewayPayloadData>,
    /// sequence number, used for resuming sessions and heartbeats
    pub s: Option<u64>,
    /// the event name for this payload
    pub t: Option<String>,
}

#[verifier::ext_equal]
pub ghost struct GatewayPayloadV {
    pub op: GatewayOpCodes,
    pub d: Option<GatewayPayloadDataV>,
    pub s: Option<u64>,
    pub t: Option<Seq<char>>,
}

impl View for GatewayPayload {
    type V = GatewayPayloadV;

    open spec fn view(&self) -> GatewayPayloadV {
        GatewayPayloadV {
            op: self.op,
            d: match self.d {
                Some(p) => Some(view_payload(p)),
                None => None,
            },
            s: self.s,
            t: match self.t {
                Some(ts) => Some(ts@),
                None => None,
            },
        }
    }
}

// ------------------------------------------------------------------
// Validity
// ------------------------------------------------------------------

/// The event name that selects the presence-update payload shape.
pub open spec fn spec_presence_tag() -> Seq<char> {
    "PRESENCE_UPDATE"@
}

/// The event name that selects the message-created payload shape.
pub open spec fn spec_message_tag() -> Seq<char> {
    "MESSAGE_CREATE"@
}

pub open spec fn wf_payload_data(p: GatewayPayloadDataV) -> bool {
    match p {
        GatewayPayloadDataV::HelloData { .. } => true,
        GatewayPayloadDataV::IdentifyMessageData { token, properties, .. } => wf_text(token)
            && wf_text(properties.os) && wf_text(properties.browser) && wf_text(
            properties.browser_user_agent,
        ),
        GatewayPayloadDataV::PresenceUpdateData { user_name, activities } => wf_text(user_name)
            && forall|i: int| 0 <= i < activities.len() ==> wf_text(#[trigger] activities[i]),
        GatewayPayloadDataV::MessageCreateData {
            author_username,
            author_discriminator,
            content,
        } => wf_text(author_username) && wf_text(author_discriminator) && wf_text(content),
        GatewayPayloadDataV::RawData { value } => wf_json(value) && !(value is Null),
    }
}

/// A constructible envelope: its opcode is in canonical form, its strings
/// can be laid out on the wire, and its payload variant agrees with its
/// opcode and event name, the way the codec selects variants.
pub open spec fn wf_envelope(e: GatewayPayloadV) -> bool {
    &&& e.op.wf()
    &&& match e.t {
        Some(ts) => wf_text(ts),
        None => true,
    }
    &&& (e.op == GatewayOpCodes::Hello ==> match e.d {
        Some(p) => p is HelloData,
        None => false,
    })
    &&& match e.d {
        None => true,
        Some(p) => wf_payload_data(p) && match p {
            GatewayPayloadDataV::HelloData { .. } => e.op == GatewayOpCodes::Hello,
            GatewayPayloadDataV::IdentifyMessageData { .. } => e.op == GatewayOpCodes::Identify,
            GatewayPayloadDataV::PresenceUpdateData { .. } => e.op == GatewayOpCodes::Dispatch
                && e.t == Some(spec_presence_tag()),
            GatewayPayloadDataV::MessageCreateData { .. } => e.op == GatewayOpCodes::Dispatch
                && e.t == Some(spec_message_tag()),
            GatewayPayloadDataV::RawData { .. } => match e.op {
                GatewayOpCodes::Hello => false,
                GatewayOpCodes::Identify => false,
                GatewayOpCodes::Dispatch => match e.t {
                    Some(tag) => tag != spec_presence_tag() && tag != spec_message_tag(),
                    None => false,
                },
                _ => true,
            },
        },
    }
}

} // verus!
