use crate::envelope::{
    wf_envelope, GatewayPayload, GatewayPayloadData, GatewayPayloadDataV, GatewayPayloadV,
    IdentifyProperties, IdentifyPropertiesV,
};
use crate::json::wf_text;
use crate::opcode::GatewayOpCodes;
use vstd::prelude::*;

verus! {

/// The fixed capability bitmask the identify envelope announces.
pub const IDENTIFY_CAPABILITIES: u64 = 61;

/// The envelope the client sends to authenticate: the bearer token
/// verbatim, the fixed capability bitmask, and the static
/// client-identification properties.
pub open spec fn spec_identify_envelope(token: Seq<char>) -> GatewayPayloadV {
    GatewayPayloadV {
        op: GatewayOpCodes::Identify,
        d: Some(
            GatewayPayloadDataV::IdentifyMessageData {
                token,
                capabilities: IDENTIFY_CAPABILITIES as u64,
                properties: IdentifyPropertiesV {
                    os: "Rusty system"@,
                    browser: "Super real browser"@,
                    browser_user_agent: "Agent 007"@,
                },
            },
        ),
        s: None,
        t: None,
    }
}

/// The periodic liveness envelope: the heartbeat opcode and nothing else.
pub open spec fn spec_heartbeat_envelope() -> GatewayPayloadV {
    GatewayPayloadV { op: GatewayOpCodes::Heartbeat, d: None, s: None, t: None }
}

/// Build the identify envelope for `token`. The token is carried
/// verbatim; the envelope is constructible (ready for the codec) whenever
/// the token holds no stray control characters.
pub fn create_identify_message(token: &String) -> (r: GatewayPayload)
    ensures
        r@ == spec_identify_envelope(token@),
        wf_text(token@) ==> wf_envelope(r@),
{
    let r = GatewayPayload {
        op: GatewayOpCodes::Identify,
        s: None,
        t: None,
        d: Some(
            GatewayPayloadData::IdentifyMessageData {
                token: token.clone(),
                capabilities: IDENTIFY_CAPABILITIES,
                properties: IdentifyProperties {
                    browser: String::from_str("Super real browser"),
                    os: String::from_str("Rusty system"),
                    browser_user_agent: String::from_str("Agent 007"),
                },
            },
        ),
    };
    proof {
        assert(r@ =~~= spec_identify_envelope(token@));
        reveal_strlit("Rusty system");
        reveal_strlit("Super real browser");
        reveal_strlit("Agent 007");
        assert(wf_text("Rusty system"@));
        assert(wf_text("Super real browser"@));
        assert(wf_text("Agent 007"@));
    }
    r
}

/// Build one heartbeat envelope: heartbeat opcode, no payload, no
/// sequence number, no event name.
pub fn create_heartbeat_message() -> (r: GatewayPayload)
    ensures
        r@ == spec_heartbeat_envelope(),
        wf_envelope(r@),
{
    let r = GatewayPayload { op: GatewayOpCodes::Heartbeat, s: None, t: None, d: None };
    proof {
        assert(r@ =~~= spec_heartbeat_envelope());
    }
    r
}

/// The JSON body for publishing a message over the REST endpoint: an
/// object carrying the text under `content`, laid out canonically.
pub fn create_message_body(content: &String) -> (s: String)
    ensures
        s@ == crate::json::spec_print(
            crate::json::JsonV::Obj(seq![("content"@, crate::json::JsonV::Str(content@))]),
        ),
{
    let mut fs: Vec<(String, crate::json::JsonValue)> = Vec::new();
    fs.push((String::from_str("content"), crate::json::JsonValue::Str(content.clone())));
    let ghost fv = fs@;
    let j = crate::json::JsonValue::Obj(fs);
    proof {
        broadcast use crate::json::lemma_view_json_fields;

        assert(crate::json::view_json_fields(fv) =~~= seq![
            ("content"@, crate::json::JsonV::Str(content@)),
        ]);
        assert(crate::json::view_json(j) =~~= crate::json::JsonV::Obj(
            seq![("content"@, crate::json::JsonV::Str(content@))],
        ));
    }
    crate::json::print_json(&j)
}

/// The one-shot identify task: it waits out a fixed delay to let the
/// handshake settle, hands over exactly one identify envelope, and is
/// spent. A failure to enqueue is not retried; the task simply ends.
pub struct IdentifyTask {
    token: String,
    delay_ms: u64,
    fired: bool,
}

impl IdentifyTask {
    pub closed spec fn spec_token(&self) -> Seq<char> {
        self.token@
    }

    pub closed spec fn spec_delay(&self) -> u64 {
        self.delay_ms
    }

    pub closed spec fn spec_fired(&self) -> bool {
        self.fired
    }

    pub fn new(token: String, delay_ms: u64) -> (t: IdentifyTask)
        ensures
            t.spec_token() == token@,
            t.spec_delay() == delay_ms,
            !t.spec_fired(),
    {
        IdentifyTask { token, delay_ms, fired: false }
    }

    pub fn delay_ms(&self) -> (d: u64)
        ensures
            d == self.spec_delay(),
    {
        self.delay_ms
    }

    /// Whether the configured delay has passed `elapsed_ms` after the
    /// connection was opened.
    pub fn due(&self, elapsed_ms: u64) -> (b: bool)
        ensures
            b == (elapsed_ms >= self.spec_delay()),
    {
        elapsed_ms >= self.delay_ms
    }

    /// Hand over the identify envelope — exactly once: the first call
    /// yields it, every later call yields nothing.
    pub fn fire(&mut self) -> (r: Option<GatewayPayload>)
        ensures
            final(self).spec_fired(),
            final(self).spec_token() == old(self).spec_token(),
            final(self).spec_delay() == old(self).spec_delay(),
            match r {
                Some(e) => !old(self).spec_fired() && e@ == spec_identify_envelope(
                    old(self).spec_token(),
                ),
                None => old(self).spec_fired(),
            },
    {
        if self.fired {
            None
        } else {
            self.fired = true;
            Some(create_identify_message(&self.token))
        }
    }
}

/// Identify comes before any heartbeat when the hello envelope arrives
/// promptly: a delay of at most one heartbeat interval falls due no later
/// than the first scheduled heartbeat.
pub proof fn lemma_identify_before_heartbeat(t: IdentifyTask, s: crate::heartbeat::HeartbeatScheduler)
    requires
        s.wf(),
        s.spec_state() == crate::heartbeat::HeartbeatState::Running,
        t.spec_delay() <= s.spec_interval(),
    ensures
        t.spec_delay() <= s.spec_due(0),
{
    crate::heartbeat::lemma_heartbeat_cadence(s, 0);
}

} // verus!
