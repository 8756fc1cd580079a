use crate::envelope::{GatewayPayload, GatewayPayloadData, GatewayPayloadDataV, GatewayPayloadV};
use crate::opcode::GatewayOpCodes;
use vstd::prelude::*;

verus! {

/// What the dispatch router decides to do with one decoded envelope. The
/// router itself performs no outside work: it hands the action to the
/// loop that drives it, so a slow collaborator can be run as its own
/// concurrent unit without stalling the router.
#[derive(Debug, PartialEq)]
pub enum RouterAction {
    /// A hello envelope arrived: start the heartbeat scheduler on this
    /// interval.
    StartHeartbeat { interval_ms: u64 },
    /// A presence update arrived: publish this text to the configured
    /// destination channel.
    Publish { content: String, channel_id: String },
    /// A message-created event arrived: hand this display-ready line to
    /// the message sink.
    Display { line: String },
    /// Nothing to do: an opcode this design leaves alone, an unknown
    /// event subtype (forward compatibility), or a malformed payload that
    /// is skipped rather than allowed to kill the router.
    Ignore,
}

#[verifier::ext_equal]
pub ghost enum RouterActionV {
    StartHeartbeat { interval_ms: u64 },
    Publish { content: Seq<char>, channel_id: Seq<char> },
    Display { line: Seq<char> },
    Ignore,
}

impl View for RouterAction {
    type V = RouterActionV;

    open spec fn view(&self) -> RouterActionV {
        match self {
            RouterAction::StartHeartbeat { interval_ms } => RouterActionV::StartHeartbeat {
                interval_ms: *interval_ms,
            },
            RouterAction::Publish { content, channel_id } => RouterActionV::Publish {
                content: content@,
                channel_id: channel_id@,
            },
            RouterAction::Display { line } => RouterActionV::Display { line: line@ },
            RouterAction::Ignore => RouterActionV::Ignore,
        }
    }
}

/// What the router needs to know besides the envelope: where presence
/// texts are published.
pub struct RouterConfig {
    pub publish_channel_id: String,
}

/// The display line for a created message: the author tag in angle
/// brackets, then the content.
pub open spec fn spec_message_line(
    author_username: Seq<char>,
    author_discriminator: Seq<char>,
    content: Seq<char>,
) -> Seq<char> {
    seq!['<'] + author_username + seq!['#'] + author_discriminator + seq!['>', ':', ' '] + content
}

/// The published text for a presence update: a greeting naming the user
/// and their first activity, or `none` where they have none.
pub open spec fn spec_presence_line(user_name: Seq<char>, activities: Seq<Seq<char>>) -> Seq<
    char,
> {
    let prefix = "Hi "@ + user_name + ", your rpc is: "@;
    if activities.len() > 0 {
        prefix + activities[0]
    } else {
        prefix + "none"@
    }
}

/// The router's whole decision table, keyed by opcode and payload shape:
/// hello starts the heartbeat; a presence update is published; a created
/// message is displayed; everything else — unknown opcodes, unhandled
/// opcodes, unknown event subtypes, malformed or absent payloads — is
/// left alone.
pub open spec fn spec_route(e: GatewayPayloadV, channel_id: Seq<char>) -> RouterActionV {
    match e.op {
        GatewayOpCodes::Hello => match e.d {
            Some(GatewayPayloadDataV::HelloData { heartbeat_interval }) => {
                RouterActionV::StartHeartbeat { interval_ms: heartbeat_interval }
            },
            _ => RouterActionV::Ignore,
        },
        GatewayOpCodes::Dispatch => match e.d {
            Some(GatewayPayloadDataV::PresenceUpdateData { user_name, activities }) => {
                RouterActionV::Publish {
                    content: spec_presence_line(user_name, activities),
                    channel_id,
                }
            },
            Some(
                GatewayPayloadDataV::MessageCreateData {
                    author_username,
                    author_discriminator,
                    content,
                },
            ) => RouterActionV::Display {
                line: spec_message_line(author_username, author_discriminator, content),
            },
            _ => RouterActionV::Ignore,
        },
        _ => RouterActionV::Ignore,
    }
}

/// Decide what to do with one decoded envelope.
pub fn route(e: &GatewayPayload, config: &RouterConfig) -> (a: RouterAction)
    ensures
        a@ == spec_route(e@, config.publish_channel_id@),
{
    match &e.op {
        GatewayOpCodes::Hello => match &e.d {
            Some(GatewayPayloadData::HelloData { heartbeat_interval }) => {
                RouterAction::StartHeartbeat { interval_ms: *heartbeat_interval }
            },
            _ => RouterAction::Ignore,
        },
        GatewayOpCodes::Dispatch => match &e.d {
            Some(GatewayPayloadData::PresenceUpdateData { user_name, activities }) => {
                let mut content = String::from_str("Hi ");
                content.append(user_name.as_str());
                content.append(", your rpc is: ");
                if activities.len() > 0 {
                    content.append(activities[0].as_str());
                } else {
                    content.append("none");
                }
                proof {
                    crate::envelope::lemma_view_strings(activities@);
                    assert(content@ == spec_presence_line(
                        user_name@,
                        crate::envelope::view_strings(activities@),
                    ));
                }
                RouterAction::Publish {
                    content,
                    channel_id: config.publish_channel_id.clone(),
                }
            },
            Some(
                GatewayPayloadData::MessageCreateData {
                    author_username,
                    author_discriminator,
                    content,
                },
            ) => {
                let mut line = String::from_str("<");
                line.append(author_username.as_str());
                line.append("#");
                line.append(author_discriminator.as_str());
                line.append(">: ");
                line.append(content.as_str());
                proof {
                    reveal_strlit("<");
                    reveal_strlit("#");
                    reveal_strlit(">: ");
                    assert(("<"@) =~= seq!['<']);
                    assert(("#"@) =~= seq!['#']);
                    assert((">: "@) =~= seq!['>', ':', ' ']);
                    assert(line@ =~= spec_message_line(
                        author_username@,
                        author_discriminator@,
                        content@,
                    ));
                }
                RouterAction::Display { line }
            },
            _ => RouterAction::Ignore,
        },
        _ => RouterAction::Ignore,
    }
}

/// Unknown-opcode tolerance, on the routing side: an envelope whose
/// opcode lies outside the known set produces no action at all.
pub proof fn lemma_unknown_opcode_no_action(e: GatewayPayloadV, channel_id: Seq<char>)
    requires
        e.op is Unknown,
    ensures
        spec_route(e, channel_id) == RouterActionV::Ignore,
{
}

} // verus!
