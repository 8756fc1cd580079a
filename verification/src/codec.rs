use crate::digits::{parse_u64, spec_parse_u64, spec_u64_string, u64_to_string};
use crate::envelope::{
    spec_message_tag, spec_presence_tag, view_payload, view_strings, GatewayPayload,
    GatewayPayloadData, GatewayPayloadDataV, GatewayPayloadV, IdentifyProperties,
    IdentifyPropertiesV,
};
use crate::json::{
    print_json, parse_json_text, spec_parse_text, spec_print, view_json, view_json_fields,
    view_json_seq, wf_json, wf_text, JsonV, JsonValue,
};
use crate::opcode::GatewayOpCodes;
use crate::text::string_to_chars;
use vstd::prelude::*;

verus! {

// ------------------------------------------------------------------
// Decode errors
// ------------------------------------------------------------------

/// Why a frame was rejected. The offending text is preserved whole for
/// diagnostics; a schema mismatch also names the opcode whose payload
/// shape the frame failed to match.
#[derive(Debug, PartialEq)]
pub enum DecodeError {
    /// The text is not a JSON object carrying a numeric opcode.
    InvalidJson { raw: String },
    /// The payload's shape does not match the declared opcode and event
    /// name.
    SchemaMismatch { op: u64, raw: String },
}

#[verifier::ext_equal]
pub ghost enum DecodeErrorV {
    InvalidJson,
    SchemaMismatch { op: u64 },
}

impl View for DecodeError {
    type V = DecodeErrorV;

    open spec fn view(&self) -> DecodeErrorV {
        match self {
            DecodeError::InvalidJson { .. } => DecodeErrorV::InvalidJson,
            DecodeError::SchemaMismatch { op, .. } => DecodeErrorV::SchemaMismatch { op: *op },
        }
    }
}

impl DecodeError {
    /// The rejected frame's text, kept whole for diagnostics.
    pub fn raw_text(&self) -> (r: &String)
        ensures
            r@ == self.spec_raw_text(),
    {
        match self {
            DecodeError::InvalidJson { raw } => raw,
            DecodeError::SchemaMismatch { raw, .. } => raw,
        }
    }

    pub open spec fn spec_raw_text(&self) -> Seq<char> {
        match self {
            DecodeError::InvalidJson { raw } => raw@,
            DecodeError::SchemaMismatch { raw, .. } => raw@,
        }
    }
}

// ------------------------------------------------------------------
// Laying an envelope out as JSON
// ------------------------------------------------------------------

/// The JSON elements standing for the activity names of a presence
/// update: one object per activity, carrying its name.
pub open spec fn spec_activities_json(names: Seq<Seq<char>>) -> Seq<JsonV>
    decreases names.len(),
{
    if names.len() == 0 {
        Seq::empty()
    } else {
        seq![JsonV::Obj(seq![("name"@, JsonV::Str(names[0]))])] + spec_activities_json(
            names.drop_first(),
        )
    }
}

pub open spec fn spec_json_of_payload(p: GatewayPayloadDataV) -> JsonV {
    match p {
        GatewayPayloadDataV::HelloData { heartbeat_interval } => JsonV::Obj(
            seq![("heartbeat_interval"@, JsonV::Num(spec_u64_string(heartbeat_interval)))],
        ),
        GatewayPayloadDataV::IdentifyMessageData { token, capabilities, properties } => JsonV::Obj(
            seq![
                ("token"@, JsonV::Str(token)),
                ("capabilities"@, JsonV::Num(spec_u64_string(capabilities))),
                (
                    "properties"@,
                    JsonV::Obj(
                        seq![
                            ("os"@, JsonV::Str(properties.os)),
                            ("browser"@, JsonV::Str(properties.browser)),
                            ("browser_user_agent"@, JsonV::Str(properties.browser_user_agent)),
                        ],
                    ),
                ),
            ],
        ),
        GatewayPayloadDataV::PresenceUpdateData { user_name, activities } => JsonV::Obj(
            seq![
                ("user"@, JsonV::Obj(seq![("username"@, JsonV::Str(user_name))])),
                ("activities"@, JsonV::Arr(spec_activities_json(activities))),
            ],
        ),
        GatewayPayloadDataV::MessageCreateData {
            author_username,
            author_discriminator,
            content,
        } => JsonV::Obj(
            seq![
                (
                    "author"@,
                    JsonV::Obj(
                        seq![
                            ("username"@, JsonV::Str(author_username)),
                            ("discriminator"@, JsonV::Str(author_discriminator)),
                        ],
                    ),
                ),
                ("content"@, JsonV::Str(content)),
            ],
        ),
        GatewayPayloadDataV::RawData { value } => value,
    }
}

/// The JSON object standing for an envelope: exactly the four fields of
/// the wire shape, absent values written as null.
pub open spec fn spec_json_of_env(e: GatewayPayloadV) -> JsonV {
    JsonV::Obj(
        seq![
            ("op"@, JsonV::Num(spec_u64_string(e.op.spec_code()))),
            (
                "d"@,
                match e.d {
                    Some(p) => spec_json_of_payload(p),
                    None => JsonV::Null,
                },
            ),
            (
                "s"@,
                match e.s {
                    Some(n) => JsonV::Num(spec_u64_string(n)),
                    None => JsonV::Null,
                },
            ),
            (
                "t"@,
                match e.t {
                    Some(ts) => JsonV::Str(ts),
                    None => JsonV::Null,
                },
            ),
        ],
    )
}

/// The canonical text of an envelope.
pub open spec fn spec_encode(e: GatewayPayloadV) -> Seq<char> {
    spec_print(spec_json_of_env(e))
}

// ------------------------------------------------------------------
// Reading an envelope off a JSON value
// ------------------------------------------------------------------

/// The value under the first occurrence of `key`.
pub open spec fn spec_lookup(fs: Seq<(Seq<char>, JsonV)>, key: Seq<char>) -> Option<JsonV>
    decreases fs.len(),
{
    if fs.len() == 0 {
        None
    } else if fs[0].0 == key {
        Some(fs[0].1)
    } else {
        spec_lookup(fs.drop_first(), key)
    }
}

/// The payload field: a missing `d` and a null `d` both mean an absent
/// payload.
pub open spec fn spec_d_field(fs: Seq<(Seq<char>, JsonV)>) -> Option<JsonV> {
    match spec_lookup(fs, "d"@) {
        None => None,
        Some(v) => if v is Null {
            None
        } else {
            Some(v)
        },
    }
}

/// The event-name field: absent or null means none; anything but a string
/// is out of shape.
pub open spec fn spec_t_field(fs: Seq<(Seq<char>, JsonV)>) -> Result<Option<Seq<char>>, ()> {
    match spec_lookup(fs, "t"@) {
        None => Ok(None),
        Some(v) => match v {
            JsonV::Null => Ok(None),
            JsonV::Str(ts) => Ok(Some(ts)),
            _ => Err(()),
        },
    }
}

/// The sequence-number field: absent or null means none; anything but an
/// unsigned integer is out of shape.
pub open spec fn spec_s_field(fs: Seq<(Seq<char>, JsonV)>) -> Result<Option<u64>, ()> {
    match spec_lookup(fs, "s"@) {
        None => Ok(None),
        Some(v) => match v {
            JsonV::Null => Ok(None),
            JsonV::Num(tok) => match spec_parse_u64(tok) {
                Some(n) => Ok(Some(n)),
                None => Err(()),
            },
            _ => Err(()),
        },
    }
}

pub open spec fn spec_hello_of_json(d: JsonV) -> Option<GatewayPayloadDataV> {
    match d {
        JsonV::Obj(dfs) => match spec_lookup(dfs, "heartbeat_interval"@) {
            Some(JsonV::Num(tok)) => match spec_parse_u64(tok) {
                Some(n) => Some(GatewayPayloadDataV::HelloData { heartbeat_interval: n }),
                None => None,
            },
            _ => None,
        },
        _ => None,
    }
}

pub open spec fn spec_identify_of_json(d: JsonV) -> Option<GatewayPayloadDataV> {
    match d {
        JsonV::Obj(dfs) => match (
            spec_lookup(dfs, "token"@),
            spec_lookup(dfs, "capabilities"@),
            spec_lookup(dfs, "properties"@),
        ) {
            (Some(JsonV::Str(token)), Some(JsonV::Num(cap)), Some(JsonV::Obj(pfs))) => match (
                spec_parse_u64(cap),
                spec_lookup(pfs, "os"@),
                spec_lookup(pfs, "browser"@),
                spec_lookup(pfs, "browser_user_agent"@),
            ) {
                (
                    Some(capabilities),
                    Some(JsonV::Str(os)),
                    Some(JsonV::Str(browser)),
                    Some(JsonV::Str(bua)),
                ) => Some(
                    GatewayPayloadDataV::IdentifyMessageData {
                        token,
                        capabilities,
                        properties: IdentifyPropertiesV {
                            os,
                            browser,
                            browser_user_agent: bua,
                        },
                    },
                ),
                _ => None,
            },
            _ => None,
        },
        _ => None,
    }
}

/// The activity names of a presence update: every element must be an
/// object carrying a string under `name`.
pub open spec fn spec_activity_names(es: Seq<JsonV>) -> Option<Seq<Seq<char>>>
    decreases es.len(),
{
    if es.len() == 0 {
        Some(Seq::empty())
    } else {
        match es[0] {
            JsonV::Obj(f) => match spec_lookup(f, "name"@) {
                Some(JsonV::Str(nm)) => match spec_activity_names(es.drop_first()) {
                    Some(rest) => Some(seq![nm] + rest),
                    None => None,
                },
                _ => None,
            },
            _ => None,
        }
    }
}

pub open spec fn spec_presence_of_json(d: JsonV) -> Option<GatewayPayloadDataV> {
    match d {
        JsonV::Obj(dfs) => match (spec_lookup(dfs, "user"@), spec_lookup(dfs, "activities"@)) {
            (Some(JsonV::Obj(ufs)), Some(JsonV::Arr(es))) => match (
                spec_lookup(ufs, "username"@),
                spec_activity_names(es),
            ) {
                (Some(JsonV::Str(user_name)), Some(activities)) => Some(
                    GatewayPayloadDataV::PresenceUpdateData { user_name, activities },
                ),
                _ => None,
            },
            _ => None,
        },
        _ => None,
    }
}

pub open spec fn spec_message_of_json(d: JsonV) -> Option<GatewayPayloadDataV> {
    match d {
        JsonV::Obj(dfs) => match (spec_lookup(dfs, "author"@), spec_lookup(dfs, "content"@)) {
            (Some(JsonV::Obj(afs)), Some(JsonV::Str(content))) => match (
                spec_lookup(afs, "username"@),
                spec_lookup(afs, "discriminator"@),
            ) {
                (Some(JsonV::Str(author_username)), Some(JsonV::Str(author_discriminator))) => Some(
                    GatewayPayloadDataV::MessageCreateData {
                        author_username,
                        author_discriminator,
                        content,
                    },
                ),
                _ => None,
            },
            _ => None,
        },
        _ => None,
    }
}

/// Which payload shape a present `d` must match, given the opcode and
/// event name; no shape means the frame is out of shape.
pub open spec fn spec_payload_of_json(
    op: GatewayOpCodes,
    t: Option<Seq<char>>,
    d: JsonV,
) -> Option<GatewayPayloadDataV> {
    match op {
        GatewayOpCodes::Hello => spec_hello_of_json(d),
        GatewayOpCodes::Identify => spec_identify_of_json(d),
        GatewayOpCodes::Dispatch => match t {
            None => None,
            Some(tag) => if tag == spec_presence_tag() {
                spec_presence_of_json(d)
            } else if tag == spec_message_tag() {
                spec_message_of_json(d)
            } else {
                Some(GatewayPayloadDataV::RawData { value: d })
            },
        },
        _ => Some(GatewayPayloadDataV::RawData { value: d }),
    }
}

/// The envelope a JSON value stands for, or why it stands for none.
pub open spec fn spec_env_of_json(j: JsonV) -> Result<GatewayPayloadV, DecodeErrorV> {
    match j {
        JsonV::Obj(fs) => match spec_lookup(fs, "op"@) {
            Some(JsonV::Num(tok)) => match spec_parse_u64(tok) {
                Some(code) => {
                    let op = GatewayOpCodes::spec_from_code(code);
                    match (spec_t_field(fs), spec_s_field(fs)) {
                        (Ok(t), Ok(sq)) => match spec_d_field(fs) {
                            None => if op == GatewayOpCodes::Hello {
                                Err(DecodeErrorV::SchemaMismatch { op: code })
                            } else {
                                Ok(GatewayPayloadV { op, d: None, s: sq, t })
                            },
                            Some(dv) => match spec_payload_of_json(op, t, dv) {
                                Some(p) => Ok(GatewayPayloadV { op, d: Some(p), s: sq, t }),
                                None => Err(DecodeErrorV::SchemaMismatch { op: code }),
                            },
                        },
                        _ => Err(DecodeErrorV::SchemaMismatch { op: code }),
                    }
                },
                None => Err(DecodeErrorV::InvalidJson),
            },
            _ => Err(DecodeErrorV::InvalidJson),
        },
        _ => Err(DecodeErrorV::InvalidJson),
    }
}

/// What decoding a frame yields: the envelope its text stands for, or the
/// reason it stands for none.
pub open spec fn spec_decode(s: Seq<char>) -> Result<GatewayPayloadV, DecodeErrorV> {
    match spec_parse_text(s) {
        None => Err(DecodeErrorV::InvalidJson),
        Some(j) => spec_env_of_json(j),
    }
}

// ------------------------------------------------------------------
// The encoder, executable
// ------------------------------------------------------------------

/// A value equal, as a tree, to the given one.
pub fn clone_json(j: &JsonValue) -> (r: JsonValue)
    ensures
        view_json(r) == view_json(*j),
    decreases *j, 0int,
{
    match j {
        JsonValue::Null => JsonValue::Null,
        JsonValue::Bool(b) => JsonValue::Bool(*b),
        JsonValue::Num(s) => JsonValue::Num(s.clone()),
        JsonValue::Str(s) => JsonValue::Str(s.clone()),
        JsonValue::Arr(es) => {
            let r = clone_json_list(es, 0);
            proof {
                assert(es@.skip(0) =~= es@);
            }
            JsonValue::Arr(r)
        },
        JsonValue::Obj(fs) => {
            let r = clone_json_fields(fs, 0);
            proof {
                assert(fs@.skip(0) =~= fs@);
            }
            JsonValue::Obj(r)
        },
    }
}

fn clone_json_list(es: &Vec<JsonValue>, k: usize) -> (r: Vec<JsonValue>)
    requires
        k <= es.len(),
    ensures
        view_json_seq(r@) == view_json_seq(es@.skip(k as int)),
    decreases *es, es.len() - k,
{
    if k == es.len() {
        let r: Vec<JsonValue> = Vec::new();
        proof {
            assert(es@.skip(k as int) =~= Seq::<JsonValue>::empty());
        }
        r
    } else {
        let mut r = clone_json_list(es, k + 1);
        let c = clone_json(&es[k]);
        let ghost r0 = r@;
        r.insert(0, c);
        proof {
            assert(es@.skip(k as int).drop_first() =~= es@.skip(k + 1));
            assert(es@.skip(k as int)[0] == es@[k as int]);
            assert(r@.drop_first() =~= r0);
            assert(r@[0] == c);
            assert(view_json_seq(r@) =~= seq![view_json(c)] + view_json_seq(r@.drop_first()));
            assert(view_json_seq(es@.skip(k as int)) =~= seq![view_json(es@[k as int])]
                + view_json_seq(es@.skip(k + 1)));
        }
        r
    }
}

fn clone_json_fields(fs: &Vec<(String, JsonValue)>, k: usize) -> (r: Vec<(String, JsonValue)>)
    requires
        k <= fs.len(),
    ensures
        view_json_fields(r@) == view_json_fields(fs@.skip(k as int)),
    decreases *fs, fs.len() - k,
{
    if k == fs.len() {
        let r: Vec<(String, JsonValue)> = Vec::new();
        proof {
            assert(fs@.skip(k as int) =~= Seq::<(String, JsonValue)>::empty());
        }
        r
    } else {
        let mut r = clone_json_fields(fs, k + 1);
        let ck = fs[k].0.clone();
        let cv = clone_json(&fs[k].1);
        let ghost r0 = r@;
        r.insert(0, (ck, cv));
        proof {
            assert(fs@.skip(k as int).drop_first() =~= fs@.skip(k + 1));
            assert(fs@.skip(k as int)[0] == fs@[k as int]);
            assert(r@.drop_first() =~= r0);
            assert(view_json_fields(r@) =~= seq![(ck@, view_json(cv))] + view_json_fields(
                r@.drop_first(),
            ));
            assert(view_json_fields(fs@.skip(k as int)) =~= seq![
                (fs@[k as int].0@, view_json(fs@[k as int].1)),
            ] + view_json_fields(fs@.skip(k + 1)));
        }
        r
    }
}

/// The JSON elements for the activity names from index `k` on.
fn activities_to_json(names: &Vec<String>, k: usize) -> (r: Vec<JsonValue>)
    requires
        k <= names.len(),
    ensures
        view_json_seq(r@) == spec_activities_json(view_strings(names@).skip(k as int)),
    decreases names.len() - k,
{
    broadcast use crate::envelope::lemma_view_strings, crate::json::lemma_view_json_fields;

    if k == names.len() {
        let r: Vec<JsonValue> = Vec::new();
        proof {
            assert(view_strings(names@).skip(k as int) =~= Seq::<Seq<char>>::empty());
        }
        r
    } else {
        let mut r = activities_to_json(names, k + 1);
        let mut f: Vec<(String, JsonValue)> = Vec::new();
        f.push((String::from_str("name"), JsonValue::Str(names[k].clone())));
        let ghost f0 = f@;
        let obj = JsonValue::Obj(f);
        let ghost r0 = r@;
        r.insert(0, obj);
        proof {
            let ns = view_strings(names@);
            assert(ns.skip(k as int).drop_first() =~= ns.skip(k + 1));
            assert(ns.skip(k as int)[0] == names@[k as int]@);
            assert(view_json_fields(f0) =~= seq![("name"@, JsonV::Str(names@[k as int]@))]);
            assert(r@.drop_first() =~= r0);
            assert(view_json_seq(r@) =~= seq![view_json(obj)] + view_json_seq(r@.drop_first()));
            assert(spec_activities_json(ns.skip(k as int)) =~= seq![
                JsonV::Obj(seq![("name"@, JsonV::Str(ns.skip(k as int)[0]))]),
            ] + spec_activities_json(ns.skip(k as int).drop_first()));
        }
        r
    }
}

/// The JSON value standing for a payload.
fn json_of_payload(p: &GatewayPayloadData) -> (r: JsonValue)
    ensures
        view_json(r) == spec_json_of_payload(view_payload(*p)),
{
    match p {
        GatewayPayloadData::HelloData { heartbeat_interval } => {
            let mut dfs: Vec<(String, JsonValue)> = Vec::new();
            dfs.push(
                (
                    String::from_str("heartbeat_interval"),
                    JsonValue::Num(u64_to_string(*heartbeat_interval)),
                ),
            );
            let ghost dv = dfs@;
            let r = JsonValue::Obj(dfs);
            proof {
                broadcast use crate::json::lemma_view_json_fields;

                assert(view_json_fields(dv) =~~= seq![
                    ("heartbeat_interval"@, JsonV::Num(spec_u64_string(*heartbeat_interval))),
                ]);
                assert(view_json(r) =~~= spec_json_of_payload(view_payload(*p)));
            }
            r
        },
        GatewayPayloadData::IdentifyMessageData { token, capabilities, properties } => {
            let mut pfs: Vec<(String, JsonValue)> = Vec::new();
            pfs.push((String::from_str("os"), JsonValue::Str(properties.os.clone())));
            pfs.push((String::from_str("browser"), JsonValue::Str(properties.browser.clone())));
            pfs.push(
                (
                    String::from_str("browser_user_agent"),
                    JsonValue::Str(properties.browser_user_agent.clone()),
                ),
            );
            let ghost pv = pfs@;
            let props = JsonValue::Obj(pfs);
            let mut dfs: Vec<(String, JsonValue)> = Vec::new();
            dfs.push((String::from_str("token"), JsonValue::Str(token.clone())));
            dfs.push(
                (String::from_str("capabilities"), JsonValue::Num(u64_to_string(*capabilities))),
            );
            dfs.push((String::from_str("properties"), props));
            let ghost dv = dfs@;
            let r = JsonValue::Obj(dfs);
            proof {
                broadcast use crate::json::lemma_view_json_fields;

                assert(view_json_fields(pv) =~~= seq![
                    ("os"@, JsonV::Str(properties.os@)),
                    ("browser"@, JsonV::Str(properties.browser@)),
                    ("browser_user_agent"@, JsonV::Str(properties.browser_user_agent@)),
                ]);
                assert(view_json_fields(dv) =~~= seq![
                    ("token"@, JsonV::Str(token@)),
                    ("capabilities"@, JsonV::Num(spec_u64_string(*capabilities))),
                    ("properties"@, view_json(props)),
                ]);
                assert(view_json(r) =~~= spec_json_of_payload(view_payload(*p)));
            }
            r
        },
        GatewayPayloadData::PresenceUpdateData { user_name, activities } => {
            let mut ufs: Vec<(String, JsonValue)> = Vec::new();
            ufs.push((String::from_str("username"), JsonValue::Str(user_name.clone())));
            let ghost uv = ufs@;
            let user = JsonValue::Obj(ufs);
            let acts = activities_to_json(activities, 0);
            let mut dfs: Vec<(String, JsonValue)> = Vec::new();
            dfs.push((String::from_str("user"), user));
            let ghost av = acts@;
            dfs.push((String::from_str("activities"), JsonValue::Arr(acts)));
            let ghost dv = dfs@;
            let r = JsonValue::Obj(dfs);
            proof {
                broadcast use crate::json::lemma_view_json_fields;

                assert(view_strings(activities@).skip(0) =~= view_strings(activities@));
                assert(view_json_fields(uv) =~~= seq![("username"@, JsonV::Str(user_name@))]);
                assert(view_json_fields(dv) =~~= seq![
                    ("user"@, view_json(user)),
                    ("activities"@, JsonV::Arr(view_json_seq(av))),
                ]);
                assert(view_json(r) =~~= spec_json_of_payload(view_payload(*p)));
            }
            r
        },
        GatewayPayloadData::MessageCreateData {
            author_username,
            author_discriminator,
            content,
        } => {
            let mut afs: Vec<(String, JsonValue)> = Vec::new();
            afs.push((String::from_str("username"), JsonValue::Str(author_username.clone())));
            afs.push(
                (String::from_str("discriminator"), JsonValue::Str(author_discriminator.clone())),
            );
            let ghost av2 = afs@;
            let author = JsonValue::Obj(afs);
            let mut dfs: Vec<(String, JsonValue)> = Vec::new();
            dfs.push((String::from_str("author"), author));
            dfs.push((String::from_str("content"), JsonValue::Str(content.clone())));
            let ghost dv = dfs@;
            let r = JsonValue::Obj(dfs);
            proof {
                broadcast use crate::json::lemma_view_json_fields;

                assert(view_json_fields(av2) =~~= seq![
                    ("username"@, JsonV::Str(author_username@)),
                    ("discriminator"@, JsonV::Str(author_discriminator@)),
                ]);
                assert(view_json_fields(dv) =~~= seq![
                    ("author"@, view_json(author)),
                    ("content"@, JsonV::Str(content@)),
                ]);
                assert(view_json(r) =~~= spec_json_of_payload(view_payload(*p)));
            }
            r
        },
        GatewayPayloadData::RawData { value } => clone_json(value),
    }
}

/// The JSON object standing for an envelope.
fn json_of_env(e: &GatewayPayload) -> (r: JsonValue)
    ensures
        view_json(r) == spec_json_of_env(e@),
{
    let op_json = JsonValue::Num(u64_to_string(e.op.code()));
    let d_json = match &e.d {
        Some(p) => json_of_payload(p),
        None => JsonValue::Null,
    };
    let s_json = match e.s {
        Some(n) => JsonValue::Num(u64_to_string(n)),
        None => JsonValue::Null,
    };
    let t_json = match &e.t {
        Some(ts) => JsonValue::Str(ts.clone()),
        None => JsonValue::Null,
    };
    let ghost dj = view_json(d_json);
    let ghost sj = view_json(s_json);
    let ghost tj = view_json(t_json);
    let ghost oj = view_json(op_json);
    let mut fs: Vec<(String, JsonValue)> = Vec::new();
    fs.push((String::from_str("op"), op_json));
    fs.push((String::from_str("d"), d_json));
    fs.push((String::from_str("s"), s_json));
    fs.push((String::from_str("t"), t_json));
    let ghost fv = fs@;
    let r = JsonValue::Obj(fs);
    proof {
        broadcast use crate::json::lemma_view_json_fields;

        broadcast use crate::json::lemma_view_json_fields;

        let se = spec_json_of_env(e@);
        let sf = se->Obj_0;
        let tf = view_json_fields(fv);
        assert(oj == JsonV::Num(spec_u64_string(e@.op.spec_code())));
        assert(dj == (match e@.d {
            Some(p) => spec_json_of_payload(p),
            None => JsonV::Null,
        }));
        assert(sj == (match e@.s {
            Some(n) => JsonV::Num(spec_u64_string(n)),
            None => JsonV::Null,
        }));
        assert(tj == (match e@.t {
            Some(ts) => JsonV::Str(ts),
            None => JsonV::Null,
        }));
        assert(se is Obj && sf.len() == 4 && tf.len() == 4);
        assert(sf[0] == ("op"@, oj) && sf[1] == ("d"@, dj) && sf[2] == ("s"@, sj) && sf[3] == (
            "t"@,
            tj,
        ));
        assert(tf[0] == (fv[0].0@, view_json(fv[0].1)) && tf[1] == (fv[1].0@, view_json(fv[1].1))
            && tf[2] == (fv[2].0@, view_json(fv[2].1)) && tf[3] == (fv[3].0@, view_json(fv[3].1)));
        assert(tf[0] == ("op"@, oj) && tf[1] == ("d"@, dj) && tf[2] == ("s"@, sj) && tf[3] == (
            "t"@,
            tj,
        ));
        assert forall|i: int| 0 <= i < 4 implies sf[i] == tf[i] by {
            if i == 0 {
            } else if i == 1 {
            } else if i == 2 {
            } else {
            }
        }
        assert(sf =~= tf);
        assert(view_json(r) == JsonV::Obj(tf));
        assert(view_json(r) == spec_json_of_env(e@));
    }
    r
}

/// The canonical text of an envelope: deterministic, symmetric with
/// `decode` on every constructible envelope.
pub fn encode(e: &GatewayPayload) -> (s: String)
    ensures
        s@ == spec_encode(e@),
{
    let j = json_of_env(e);
    print_json(&j)
}

// ------------------------------------------------------------------
// The decoder, executable
// ------------------------------------------------------------------

/// The index of the first member named `key`.
fn find_key(fs: &Vec<(String, JsonValue)>, key: &String) -> (r: Option<usize>)
    ensures
        match r {
            Some(idx) => idx < fs.len() && spec_lookup(view_json_fields(fs@), key@) == Some(
                view_json(fs@[idx as int].1),
            ),
            None => spec_lookup(view_json_fields(fs@), key@) is None,
        },
{
    broadcast use crate::json::lemma_view_json_fields;

    let ghost vf = view_json_fields(fs@);
    proof {
        assert(vf.skip(0) =~= vf);
    }
    let mut k: usize = 0;
    while k < fs.len()
        invariant
            0 <= k <= fs.len(),
            vf == view_json_fields(fs@),
            spec_lookup(vf, key@) == spec_lookup(vf.skip(k as int), key@),
        decreases fs.len() - k,
    {
        proof {
            crate::json::lemma_view_json_fields(fs@);
            assert(vf.skip(k as int)[0] == vf[k as int]);
            assert(vf[k as int] == (fs@[k as int].0@, view_json(fs@[k as int].1)));
            assert(vf.skip(k as int).drop_first() =~= vf.skip(k + 1));
        }
        if fs[k].0 == *key {
            return Some(k);
        }
        k = k + 1;
    }
    proof {
        assert(vf.skip(k as int) =~= Seq::<(Seq<char>, JsonV)>::empty());
    }
    None
}

/// The hello payload read off a JSON value, where it has the hello shape.
fn hello_of_json(d: &JsonValue) -> (r: Option<GatewayPayloadData>)
    ensures
        match r {
            Some(p) => spec_hello_of_json(view_json(*d)) == Some(view_payload(p)),
            None => spec_hello_of_json(view_json(*d)) is None,
        },
{
    match d {
        JsonValue::Obj(dfs) => {
            let hk = String::from_str("heartbeat_interval");
            match find_key(dfs, &hk) {
                Some(i) => match &dfs[i].1 {
                    JsonValue::Num(tok) => match parse_u64(tok) {
                        Some(n) => Some(GatewayPayloadData::HelloData { heartbeat_interval: n }),
                        None => None,
                    },
                    _ => None,
                },
                None => None,
            }
        },
        _ => None,
    }
}

/// The identify payload read off a JSON value, where it has the identify
/// shape.
fn identify_of_json(d: &JsonValue) -> (r: Option<GatewayPayloadData>)
    ensures
        match r {
            Some(p) => spec_identify_of_json(view_json(*d)) == Some(view_payload(p)),
            None => spec_identify_of_json(view_json(*d)) is None,
        },
{
    match d {
        JsonValue::Obj(dfs) => {
            let tok_key = String::from_str("token");
            let cap_key = String::from_str("capabilities");
            let props_key = String::from_str("properties");
            let tok_i = find_key(dfs, &tok_key);
            let cap_i = find_key(dfs, &cap_key);
            let props_i = find_key(dfs, &props_key);
            match (tok_i, cap_i, props_i) {
                (Some(ti), Some(ci), Some(pi)) => match (&dfs[ti].1, &dfs[ci].1, &dfs[pi].1) {
                    (JsonValue::Str(token), JsonValue::Num(cap), JsonValue::Obj(pfs)) => {
                        let cap_val = parse_u64(cap);
                        let os_key = String::from_str("os");
                        let br_key = String::from_str("browser");
                        let bua_key = String::from_str("browser_user_agent");
                        let os_i = find_key(pfs, &os_key);
                        let br_i = find_key(pfs, &br_key);
                        let bua_i = find_key(pfs, &bua_key);
                        match (cap_val, os_i, br_i, bua_i) {
                            (Some(capabilities), Some(oi), Some(bi), Some(ui)) => match (
                                &pfs[oi].1,
                                &pfs[bi].1,
                                &pfs[ui].1,
                            ) {
                                (
                                    JsonValue::Str(os),
                                    JsonValue::Str(browser),
                                    JsonValue::Str(bua),
                                ) => Some(
                                    GatewayPayloadData::IdentifyMessageData {
                                        token: token.clone(),
                                        capabilities,
                                        properties: IdentifyProperties {
                                            os: os.clone(),
                                            browser: browser.clone(),
                                            browser_user_agent: bua.clone(),
                                        },
                                    },
                                ),
                                _ => None,
                            },
                            _ => None,
                        }
                    },
                    _ => None,
                },
                _ => None,
            }
        },
        _ => None,
    }
}

/// The activity names from index `k` on: every element must be an object
/// carrying a string under `name`.
fn activity_names(es: &Vec<JsonValue>, k: usize) -> (r: Option<Vec<String>>)
    requires
        k <= es.len(),
    ensures
        match r {
            Some(v) => spec_activity_names(view_json_seq(es@).skip(k as int)) == Some(
                view_strings(v@),
            ),
            None => spec_activity_names(view_json_seq(es@).skip(k as int)) is None,
        },
    decreases es.len() - k,
{
    broadcast use crate::json::lemma_view_json_seq, crate::envelope::lemma_view_strings;

    let ghost vs = view_json_seq(es@);
    if k == es.len() {
        proof {
            assert(vs.skip(k as int) =~= Seq::<JsonV>::empty());
            assert(view_strings(Seq::<String>::empty()) =~= Seq::<Seq<char>>::empty());
        }
        return Some(Vec::new());
    }
    proof {
        assert(vs.skip(k as int)[0] == view_json(es@[k as int]));
        assert(vs.skip(k as int).drop_first() =~= vs.skip(k + 1));
    }
    match &es[k] {
        JsonValue::Obj(f) => {
            let name_key = String::from_str("name");
            match find_key(f, &name_key) {
                Some(i) => match &f[i].1 {
                    JsonValue::Str(nm) => match activity_names(es, k + 1) {
                        Some(mut rest) => {
                            let ghost rest0 = rest@;
                            rest.insert(0, nm.clone());
                            proof {
                                assert(rest@.drop_first() =~= rest0);
                                assert(view_strings(rest@) =~= seq![rest@[0]@] + view_strings(
                                    rest0,
                                ));
                            }
                            Some(rest)
                        },
                        None => None,
                    },
                    _ => None,
                },
                None => None,
            }
        },
        _ => None,
    }
}

/// The presence-update payload read off a JSON value, where it has the
/// presence shape.
fn presence_of_json(d: &JsonValue) -> (r: Option<GatewayPayloadData>)
    ensures
        match r {
            Some(p) => spec_presence_of_json(view_json(*d)) == Some(view_payload(p)),
            None => spec_presence_of_json(view_json(*d)) is None,
        },
{
    match d {
        JsonValue::Obj(dfs) => {
            let user_key = String::from_str("user");
            let acts_key = String::from_str("activities");
            let user_i = find_key(dfs, &user_key);
            let acts_i = find_key(dfs, &acts_key);
            match (user_i, acts_i) {
                (Some(ui), Some(ai)) => match (&dfs[ui].1, &dfs[ai].1) {
                    (JsonValue::Obj(ufs), JsonValue::Arr(es)) => {
                        let uname_key = String::from_str("username");
                        match find_key(ufs, &uname_key) {
                            Some(ni) => match &ufs[ni].1 {
                                JsonValue::Str(user_name) => {
                                    proof {
                                        assert(view_json_seq(es@).skip(0) =~= view_json_seq(es@));
                                    }
                                    match activity_names(es, 0) {
                                        Some(acts) => Some(
                                            GatewayPayloadData::PresenceUpdateData {
                                                user_name: user_name.clone(),
                                                activities: acts,
                                            },
                                        ),
                                        None => None,
                                    }
                                },
                                _ => None,
                            },
                            None => None,
                        }
                    },
                    _ => None,
                },
                _ => None,
            }
        },
        _ => None,
    }
}

/// The message-created payload read off a JSON value, where it has the
/// message shape.
fn message_of_json(d: &JsonValue) -> (r: Option<GatewayPayloadData>)
    ensures
        match r {
            Some(p) => spec_message_of_json(view_json(*d)) == Some(view_payload(p)),
            None => spec_message_of_json(view_json(*d)) is None,
        },
{
    match d {
        JsonValue::Obj(dfs) => {
            let author_key = String::from_str("author");
            let content_key = String::from_str("content");
            let author_i = find_key(dfs, &author_key);
            let content_i = find_key(dfs, &content_key);
            match (author_i, content_i) {
                (Some(ai), Some(ci)) => match (&dfs[ai].1, &dfs[ci].1) {
                    (JsonValue::Obj(afs), JsonValue::Str(content)) => {
                        let uname_key = String::from_str("username");
                        let disc_key = String::from_str("discriminator");
                        let uname_i = find_key(afs, &uname_key);
                        let disc_i = find_key(afs, &disc_key);
                        match (uname_i, disc_i) {
                            (Some(ni), Some(di)) => match (&afs[ni].1, &afs[di].1) {
                                (JsonValue::Str(author_username), JsonValue::Str(disc)) => Some(
                                    GatewayPayloadData::MessageCreateData {
                                        author_username: author_username.clone(),
                                        author_discriminator: disc.clone(),
                                        content: content.clone(),
                                    },
                                ),
                                _ => None,
                            },
                            _ => None,
                        }
                    },
                    _ => None,
                },
                _ => None,
            }
        },
        _ => None,
    }
}

/// The spec view of an optional event name.
pub open spec fn view_opt_string(t: Option<String>) -> Option<Seq<char>> {
    match t {
        Some(ts) => Some(ts@),
        None => None,
    }
}

/// The payload a present `d` stands for, selected by opcode and event
/// name; nothing where the shape does not match.
fn payload_of_json(op: GatewayOpCodes, t: &Option<String>, d: JsonValue) -> (r: Option<
    GatewayPayloadData,
>)
    ensures
        match r {
            Some(p) => spec_payload_of_json(op, view_opt_string(*t), view_json(d)) == Some(
                view_payload(p),
            ),
            None => spec_payload_of_json(op, view_opt_string(*t), view_json(d)) is None,
        },
{
    match op {
        GatewayOpCodes::Hello => hello_of_json(&d),
        GatewayOpCodes::Identify => identify_of_json(&d),
        GatewayOpCodes::Dispatch => match t {
            None => None,
            Some(tag) => {
                let presence_tag = String::from_str("PRESENCE_UPDATE");
                let message_tag = String::from_str("MESSAGE_CREATE");
                if *tag == presence_tag {
                    presence_of_json(&d)
                } else if *tag == message_tag {
                    message_of_json(&d)
                } else {
                    Some(GatewayPayloadData::RawData { value: d })
                }
            },
        },
        _ => Some(GatewayPayloadData::RawData { value: d }),
    }
}

/// The envelope a parsed frame stands for, with the frame's text kept for
/// diagnostics on failure.
fn env_of_json(j: JsonValue, raw: &str) -> (r: Result<GatewayPayload, DecodeError>)
    ensures
        match r {
            Ok(env) => spec_env_of_json(view_json(j)) == Ok::<GatewayPayloadV, DecodeErrorV>(env@),
            Err(e) => spec_env_of_json(view_json(j)) == Err::<GatewayPayloadV, DecodeErrorV>(e@)
                && e.spec_raw_text() == raw@,
        },
{
    match j {
        JsonValue::Obj(mut fs) => {
            let op_key = String::from_str("op");
            let code_opt = match find_key(&fs, &op_key) {
                Some(i) => match &fs[i].1 {
                    JsonValue::Num(tok) => parse_u64(tok),
                    _ => None,
                },
                None => None,
            };
            let code = match code_opt {
                Some(c) => c,
                None => {
                    return Err(DecodeError::InvalidJson { raw: raw.to_owned() });
                },
            };
            let op = GatewayOpCodes::from_code(code);

            // the event name
            let t_key = String::from_str("t");
            let t: Option<String> = match find_key(&fs, &t_key) {
                None => None,
                Some(i) => match &fs[i].1 {
                    JsonValue::Null => None,
                    JsonValue::Str(ts) => Some(ts.clone()),
                    _ => {
                        return Err(
                            DecodeError::SchemaMismatch { op: code, raw: raw.to_owned() },
                        );
                    },
                },
            };

            // the sequence number
            let s_key = String::from_str("s");
            let sq: Option<u64> = match find_key(&fs, &s_key) {
                None => None,
                Some(i) => match &fs[i].1 {
                    JsonValue::Null => None,
                    JsonValue::Num(tok) => match parse_u64(tok) {
                        Some(n) => Some(n),
                        None => {
                            return Err(
                                DecodeError::SchemaMismatch { op: code, raw: raw.to_owned() },
                            );
                        },
                    },
                    _ => {
                        return Err(
                            DecodeError::SchemaMismatch { op: code, raw: raw.to_owned() },
                        );
                    },
                },
            };

            // the payload, taken out of the object by value
            let d_key = String::from_str("d");
            let dv: Option<JsonValue> = match find_key(&fs, &d_key) {
                None => None,
                Some(i) => {
                    let is_null = match &fs[i].1 {
                        JsonValue::Null => true,
                        _ => false,
                    };
                    if is_null {
                        None
                    } else {
                        let pair = fs.remove(i);
                        Some(pair.1)
                    }
                },
            };

            match dv {
                None => {
                    if matches!(op, GatewayOpCodes::Hello) {
                        Err(DecodeError::SchemaMismatch { op: code, raw: raw.to_owned() })
                    } else {
                        Ok(GatewayPayload { op, d: None, s: sq, t })
                    }
                },
                Some(d_val) => match payload_of_json(op, &t, d_val) {
                    Some(p) => Ok(GatewayPayload { op, d: Some(p), s: sq, t }),
                    None => Err(DecodeError::SchemaMismatch { op: code, raw: raw.to_owned() }),
                },
            }
        },
        _ => Err(DecodeError::InvalidJson { raw: raw.to_owned() }),
    }
}

/// Read one complete text frame as an envelope. The error says exactly
/// why the frame was rejected: text that is no JSON envelope at all, or a
/// payload whose shape does not match the declared opcode and event name;
/// either way the offending text is preserved.
pub fn decode(raw: &str) -> (r: Result<GatewayPayload, DecodeError>)
    ensures
        match r {
            Ok(env) => spec_decode(raw@) == Ok::<GatewayPayloadV, DecodeErrorV>(env@),
            Err(e) => spec_decode(raw@) == Err::<GatewayPayloadV, DecodeErrorV>(e@)
                && e.spec_raw_text() == raw@,
        },
{
    let cs = string_to_chars(raw);
    match parse_json_text(&cs) {
        Some(j) => env_of_json(j, raw),
        None => Err(DecodeError::InvalidJson { raw: raw.to_owned() }),
    }
}

// ------------------------------------------------------------------
// The codec laws
// ------------------------------------------------------------------

proof fn lemma_envelope_keys()
    ensures
        wf_text("op"@),
        wf_text("d"@),
        wf_text("s"@),
        wf_text("t"@),
        "op"@ != "d"@,
        "op"@ != "s"@,
        "op"@ != "t"@,
        "d"@ != "s"@,
        "d"@ != "t"@,
        "s"@ != "t"@,
{
    reveal_strlit("op");
    reveal_strlit("d");
    reveal_strlit("s");
    reveal_strlit("t");
    assert(("op"@).len() == 2 && ("d"@).len() == 1 && ("s"@).len() == 1 && ("t"@).len() == 1);
    assert(("d"@)[0] == 'd' && ("s"@)[0] == 's' && ("t"@)[0] == 't');
}

proof fn lemma_activities_json_wf(names: Seq<Seq<char>>)
    requires
        forall|i: int| 0 <= i < names.len() ==> wf_text(#[trigger] names[i]),
    ensures
        spec_activities_json(names).len() == names.len(),
        forall|i: int|
            0 <= i < names.len() ==> wf_json(#[trigger] spec_activities_json(names)[i]),
    decreases names.len(),
{
    reveal_strlit("name");
    if names.len() > 0 {
        let tail = names.drop_first();
        assert(forall|i: int|
            0 <= i < tail.len() ==> #[trigger] tail[i] == names[i + 1] && wf_text(names[i + 1]));
        lemma_activities_json_wf(tail);
        let s = spec_activities_json(names);
        let head = JsonV::Obj(seq![("name"@, JsonV::Str(names[0]))]);
        assert(s[0] == head);
        assert(wf_text("name"@));
        assert(wf_json(head)) by {
            assert(forall|i: int|
                0 <= i < 1 ==> wf_text((#[trigger] head->Obj_0[i]).0) && wf_json(
                    head->Obj_0[i].1,
                ));
        }
        assert(forall|i: int|
            1 <= i < s.len() ==> #[trigger] s[i] == spec_activities_json(tail)[i - 1]);
    }
}

proof fn lemma_json_of_payload_wf(p: GatewayPayloadDataV)
    requires
        crate::envelope::wf_payload_data(p),
    ensures
        wf_json(spec_json_of_payload(p)),
{
    let j = spec_json_of_payload(p);
    match p {
        GatewayPayloadDataV::HelloData { heartbeat_interval } => {
            reveal_strlit("heartbeat_interval");
            crate::digits::lemma_u64_string_wf(heartbeat_interval);
            assert(wf_text("heartbeat_interval"@));
            assert(forall|i: int|
                0 <= i < 1 ==> wf_text((#[trigger] j->Obj_0[i]).0) && wf_json(j->Obj_0[i].1));
        },
        GatewayPayloadDataV::IdentifyMessageData { token, capabilities, properties } => {
            reveal_strlit("token");
            reveal_strlit("capabilities");
            reveal_strlit("properties");
            reveal_strlit("os");
            reveal_strlit("browser");
            reveal_strlit("browser_user_agent");
            crate::digits::lemma_u64_string_wf(capabilities);
            assert(wf_text("token"@) && wf_text("capabilities"@) && wf_text("properties"@)
                && wf_text("os"@) && wf_text("browser"@) && wf_text("browser_user_agent"@));
            let props = j->Obj_0[2].1;
            assert(wf_json(props)) by {
                assert(forall|i: int|
                    0 <= i < 3 ==> wf_text((#[trigger] props->Obj_0[i]).0) && wf_json(
                        props->Obj_0[i].1,
                    ));
            }
            assert(forall|i: int|
                0 <= i < 3 ==> wf_text((#[trigger] j->Obj_0[i]).0) && wf_json(j->Obj_0[i].1));
        },
        GatewayPayloadDataV::PresenceUpdateData { user_name, activities } => {
            reveal_strlit("user");
            reveal_strlit("username");
            reveal_strlit("activities");
            assert(wf_text("user"@) && wf_text("username"@) && wf_text("activities"@));
            lemma_activities_json_wf(activities);
            let user = j->Obj_0[0].1;
            assert(wf_json(user)) by {
                assert(forall|i: int|
                    0 <= i < 1 ==> wf_text((#[trigger] user->Obj_0[i]).0) && wf_json(
                        user->Obj_0[i].1,
                    ));
            }
            let arr = j->Obj_0[1].1;
            assert(wf_json(arr)) by {
                assert(forall|i: int|
                    0 <= i < arr->Arr_0.len() ==> wf_json(#[trigger] arr->Arr_0[i]));
            }
            assert(forall|i: int|
                0 <= i < 2 ==> wf_text((#[trigger] j->Obj_0[i]).0) && wf_json(j->Obj_0[i].1));
        },
        GatewayPayloadDataV::MessageCreateData {
            author_username,
            author_discriminator,
            content,
        } => {
            reveal_strlit("author");
            reveal_strlit("username");
            reveal_strlit("discriminator");
            reveal_strlit("content");
            assert(wf_text("author"@) && wf_text("username"@) && wf_text("discriminator"@)
                && wf_text("content"@));
            let author = j->Obj_0[0].1;
            assert(wf_json(author)) by {
                assert(forall|i: int|
                    0 <= i < 2 ==> wf_text((#[trigger] author->Obj_0[i]).0) && wf_json(
                        author->Obj_0[i].1,
                    ));
            }
            assert(forall|i: int|
                0 <= i < 2 ==> wf_text((#[trigger] j->Obj_0[i]).0) && wf_json(j->Obj_0[i].1));
        },
        GatewayPayloadDataV::RawData { .. } => {},
    }
}

/// The canonical JSON of a constructible envelope is printable: its
/// number tokens look like numbers and its strings carry no stray control
/// characters.
pub proof fn lemma_json_of_env_wf(e: GatewayPayloadV)
    requires
        crate::envelope::wf_envelope(e),
    ensures
        wf_json(spec_json_of_env(e)),
{
    let j = spec_json_of_env(e);
    lemma_envelope_keys();
    crate::digits::lemma_u64_string_wf(e.op.spec_code());
    if e.s is Some {
        crate::digits::lemma_u64_string_wf(e.s->0);
    }
    if e.d is Some {
        lemma_json_of_payload_wf(e.d->0);
    }
    assert(forall|i: int|
        0 <= i < 4 ==> wf_text((#[trigger] j->Obj_0[i]).0) && wf_json(j->Obj_0[i].1));
}

proof fn lemma_activity_names_rt(names: Seq<Seq<char>>)
    ensures
        spec_activity_names(spec_activities_json(names)) == Some(names),
    decreases names.len(),
{
    let s = spec_activities_json(names);
    if names.len() == 0 {
        assert(names =~= Seq::<Seq<char>>::empty());
    } else {
        let head = JsonV::Obj(seq![("name"@, JsonV::Str(names[0]))]);
        assert(s[0] == head);
        assert(s.drop_first() =~= spec_activities_json(names.drop_first()));
        assert(spec_lookup(head->Obj_0, "name"@) == Some(JsonV::Str(names[0])));
        lemma_activity_names_rt(names.drop_first());
        assert(seq![names[0]] + names.drop_first() =~= names);
    }
}

proof fn lemma_payload_of_json_rt(e: GatewayPayloadV)
    requires
        crate::envelope::wf_envelope(e),
        e.d is Some,
    ensures
        spec_payload_of_json(e.op, e.t, spec_json_of_payload(e.d->0)) == Some(e.d->0),
{
    let p = e.d->0;
    let j = spec_json_of_payload(p);
    match p {
        GatewayPayloadDataV::HelloData { heartbeat_interval } => {
            assert(spec_lookup(j->Obj_0, "heartbeat_interval"@) == Some(
                JsonV::Num(spec_u64_string(heartbeat_interval)),
            ));
            crate::digits::lemma_u64_round_trip(heartbeat_interval);
        },
        GatewayPayloadDataV::IdentifyMessageData { token, capabilities, properties } => {
            reveal_strlit("token");
            reveal_strlit("capabilities");
            reveal_strlit("properties");
            reveal_strlit("os");
            reveal_strlit("browser");
            reveal_strlit("browser_user_agent");
            let fs = j->Obj_0;
            assert(("token"@).len() == 5 && ("capabilities"@).len() == 12 && ("properties"@).len()
                == 10);
            assert(spec_lookup(fs, "token"@) == Some(JsonV::Str(token)));
            assert(spec_lookup(fs, "capabilities"@) == spec_lookup(fs.drop_first(), "capabilities"@));
            assert(fs.drop_first()[0] == fs[1]);
            assert(spec_lookup(fs, "capabilities"@) == Some(
                JsonV::Num(spec_u64_string(capabilities)),
            ));
            assert(spec_lookup(fs, "properties"@) == spec_lookup(fs.drop_first(), "properties"@));
            assert(fs.drop_first().drop_first()[0] == fs[2]);
            assert(spec_lookup(fs.drop_first(), "properties"@) == spec_lookup(
                fs.drop_first().drop_first(),
                "properties"@,
            ));
            assert(spec_lookup(fs, "properties"@) == Some(fs[2].1));
            let pfs = fs[2].1->Obj_0;
            assert(("os"@).len() == 2 && ("browser"@).len() == 7 && ("browser_user_agent"@).len()
                == 18);
            assert(spec_lookup(pfs, "os"@) == Some(JsonV::Str(properties.os)));
            assert(spec_lookup(pfs, "browser"@) == spec_lookup(pfs.drop_first(), "browser"@));
            assert(pfs.drop_first()[0] == pfs[1]);
            assert(spec_lookup(pfs, "browser"@) == Some(JsonV::Str(properties.browser)));
            assert(spec_lookup(pfs, "browser_user_agent"@) == spec_lookup(
                pfs.drop_first(),
                "browser_user_agent"@,
            ));
            assert(spec_lookup(pfs.drop_first(), "browser_user_agent"@) == spec_lookup(
                pfs.drop_first().drop_first(),
                "browser_user_agent"@,
            ));
            assert(pfs.drop_first().drop_first()[0] == pfs[2]);
            assert(spec_lookup(pfs, "browser_user_agent"@) == Some(
                JsonV::Str(properties.browser_user_agent),
            ));
            crate::digits::lemma_u64_round_trip(capabilities);
            assert(spec_identify_of_json(j) == Some(p)) by {
                assert(IdentifyPropertiesV {
                    os: properties.os,
                    browser: properties.browser,
                    browser_user_agent: properties.browser_user_agent,
                } =~= properties);
            }
        },
        GatewayPayloadDataV::PresenceUpdateData { user_name, activities } => {
            reveal_strlit("user");
            reveal_strlit("activities");
            let fs = j->Obj_0;
            assert(("user"@).len() == 4 && ("activities"@).len() == 10);
            assert(spec_lookup(fs, "user"@) == Some(fs[0].1));
            assert(spec_lookup(fs, "activities"@) == spec_lookup(fs.drop_first(), "activities"@));
            assert(fs.drop_first()[0] == fs[1]);
            assert(spec_lookup(fs, "activities"@) == Some(fs[1].1));
            let ufs = fs[0].1->Obj_0;
            assert(spec_lookup(ufs, "username"@) == Some(JsonV::Str(user_name)));
            lemma_activity_names_rt(activities);
            assert(e.t == Some(spec_presence_tag()));
        },
        GatewayPayloadDataV::MessageCreateData {
            author_username,
            author_discriminator,
            content,
        } => {
            reveal_strlit("author");
            reveal_strlit("content");
            reveal_strlit("username");
            reveal_strlit("discriminator");
            reveal_strlit("PRESENCE_UPDATE");
            reveal_strlit("MESSAGE_CREATE");
            assert(("PRESENCE_UPDATE"@).len() == 15 && ("MESSAGE_CREATE"@).len() == 14);
            let fs = j->Obj_0;
            assert(("author"@).len() == 6 && ("content"@).len() == 7);
            assert(spec_lookup(fs, "author"@) == Some(fs[0].1));
            assert(spec_lookup(fs, "content"@) == spec_lookup(fs.drop_first(), "content"@));
            assert(fs.drop_first()[0] == fs[1]);
            assert(spec_lookup(fs, "content"@) == Some(JsonV::Str(content)));
            let afs = fs[0].1->Obj_0;
            assert(("username"@).len() == 8 && ("discriminator"@).len() == 13);
            assert(spec_lookup(afs, "username"@) == Some(JsonV::Str(author_username)));
            assert(spec_lookup(afs, "discriminator"@) == spec_lookup(
                afs.drop_first(),
                "discriminator"@,
            ));
            assert(afs.drop_first()[0] == afs[1]);
            assert(spec_lookup(afs, "discriminator"@) == Some(JsonV::Str(author_discriminator)));
            assert(e.t == Some(spec_message_tag()));
        },
        GatewayPayloadDataV::RawData { value } => {
            match e.op {
                GatewayOpCodes::Dispatch => {
                    assert(e.t matches Some(tag) && tag != spec_presence_tag() && tag
                        != spec_message_tag());
                },
                _ => {},
            }
        },
    }
}

proof fn lemma_env_fields(e: GatewayPayloadV)
    ensures
        spec_lookup(spec_json_of_env(e)->Obj_0, "op"@) == Some(
            JsonV::Num(spec_u64_string(e.op.spec_code())),
        ),
        spec_lookup(spec_json_of_env(e)->Obj_0, "d"@) == Some(
            match e.d {
                Some(p) => spec_json_of_payload(p),
                None => JsonV::Null,
            },
        ),
        spec_lookup(spec_json_of_env(e)->Obj_0, "s"@) == Some(
            match e.s {
                Some(n) => JsonV::Num(spec_u64_string(n)),
                None => JsonV::Null,
            },
        ),
        spec_lookup(spec_json_of_env(e)->Obj_0, "t"@) == Some(
            match e.t {
                Some(ts) => JsonV::Str(ts),
                None => JsonV::Null,
            },
        ),
{
    lemma_envelope_keys();
    let fs = spec_json_of_env(e)->Obj_0;
    assert(spec_lookup(fs, "d"@) == spec_lookup(fs.drop_first(), "d"@));
    assert(fs.drop_first()[0] == fs[1]);
    assert(fs.drop_first().drop_first()[0] == fs[2]);
    assert(fs.drop_first().drop_first().drop_first()[0] == fs[3]);
    assert(spec_lookup(fs, "s"@) == spec_lookup(fs.drop_first(), "s"@));
    assert(spec_lookup(fs.drop_first(), "s"@) == spec_lookup(fs.drop_first().drop_first(), "s"@));
    assert(spec_lookup(fs, "t"@) == spec_lookup(fs.drop_first(), "t"@));
    assert(spec_lookup(fs.drop_first(), "t"@) == spec_lookup(fs.drop_first().drop_first(), "t"@));
    assert(spec_lookup(fs.drop_first().drop_first(), "t"@) == spec_lookup(
        fs.drop_first().drop_first().drop_first(),
        "t"@,
    ));
}

proof fn lemma_env_of_json_of_env(e: GatewayPayloadV)
    requires
        crate::envelope::wf_envelope(e),
    ensures
        spec_env_of_json(spec_json_of_env(e)) == Ok::<GatewayPayloadV, DecodeErrorV>(e),
{
    let j = spec_json_of_env(e);
    let fs = j->Obj_0;
    lemma_env_fields(e);
    crate::digits::lemma_u64_round_trip(e.op.spec_code());
    e.op.lemma_code_round_trip();
    if e.s is Some {
        crate::digits::lemma_u64_round_trip(e.s->0);
    }
    assert(spec_t_field(fs) == Ok::<Option<Seq<char>>, ()>(e.t));
    assert(spec_s_field(fs) == Ok::<Option<u64>, ()>(e.s));
    match e.d {
        None => {
            assert(spec_d_field(fs) is None);
            assert(e.op != GatewayOpCodes::Hello);
            assert(spec_env_of_json(j) == Ok::<GatewayPayloadV, DecodeErrorV>(
                GatewayPayloadV { op: e.op, d: None, s: e.s, t: e.t },
            ));
            assert(GatewayPayloadV { op: e.op, d: None, s: e.s, t: e.t } =~= e);
        },
        Some(p) => {
            assert(!(spec_json_of_payload(p) is Null)) by {
                match p {
                    GatewayPayloadDataV::RawData { value } => {
                        assert(!(value is Null));
                    },
                    _ => {},
                }
            }
            assert(spec_d_field(fs) == Some(spec_json_of_payload(p)));
            lemma_payload_of_json_rt(e);
            assert(spec_env_of_json(j) == Ok::<GatewayPayloadV, DecodeErrorV>(
                GatewayPayloadV { op: e.op, d: Some(p), s: e.s, t: e.t },
            ));
            assert(GatewayPayloadV { op: e.op, d: Some(p), s: e.s, t: e.t } =~= e);
        },
    }
}

/// The round-trip law: for every constructible envelope, decoding its
/// encoding gives exactly the envelope back.
pub proof fn lemma_round_trip(e: GatewayPayloadV)
    requires
        crate::envelope::wf_envelope(e),
    ensures
        spec_decode(spec_encode(e)) == Ok::<GatewayPayloadV, DecodeErrorV>(e),
{
    lemma_json_of_env_wf(e);
    crate::json::lemma_parse_print_text(spec_json_of_env(e));
    lemma_env_of_json_of_env(e);
}

/// Schema-mismatch detection: a frame that declares the hello opcode but
/// whose body carries no readable heartbeat interval is rejected — never
/// decoded to a default value.
pub proof fn lemma_hello_schema_mismatch(fs: Seq<(Seq<char>, JsonV)>)
    requires
        spec_lookup(fs, "op"@) matches Some(JsonV::Num(tok)) && spec_parse_u64(tok) == Some(
            10u64,
        ),
        match spec_d_field(fs) {
            None => true,
            Some(dv) => match dv {
                JsonV::Obj(dfs) => !(spec_lookup(dfs, "heartbeat_interval"@) matches Some(
                    JsonV::Num(t2),
                ) && spec_parse_u64(t2) is Some),
                _ => true,
            },
        },
    ensures
        spec_env_of_json(JsonV::Obj(fs)) is Err,
{
    assert(GatewayOpCodes::spec_from_code(10) == GatewayOpCodes::Hello);
    match (spec_t_field(fs), spec_s_field(fs)) {
        (Ok(t), Ok(sq)) => {
            match spec_d_field(fs) {
                None => {},
                Some(dv) => {
                    assert(spec_hello_of_json(dv) is None);
                },
            }
        },
        _ => {},
    }
}

proof fn lemma_lookup_wf(fs: Seq<(Seq<char>, JsonV)>, key: Seq<char>)
    requires
        forall|i: int| 0 <= i < fs.len() ==> wf_text((#[trigger] fs[i]).0) && wf_json(fs[i].1),
    ensures
        match spec_lookup(fs, key) {
            Some(v) => wf_json(v),
            None => true,
        },
    decreases fs.len(),
{
    if fs.len() > 0 && fs[0].0 != key {
        let tail = fs.drop_first();
        assert(forall|i: int|
            0 <= i < tail.len() ==> #[trigger] tail[i] == fs[i + 1] && wf_text(fs[i + 1].0)
                && wf_json(fs[i + 1].1));
        lemma_lookup_wf(tail, key);
    }
}

proof fn lemma_activity_names_wf(es: Seq<JsonV>)
    requires
        forall|i: int| 0 <= i < es.len() ==> wf_json(#[trigger] es[i]),
    ensures
        match spec_activity_names(es) {
            Some(names) => forall|i: int| 0 <= i < names.len() ==> wf_text(#[trigger] names[i]),
            None => true,
        },
    decreases es.len(),
{
    if es.len() > 0 {
        match es[0] {
            JsonV::Obj(f) => {
                lemma_lookup_wf(f, "name"@);
                let tail = es.drop_first();
                assert(forall|i: int|
                    0 <= i < tail.len() ==> #[trigger] tail[i] == es[i + 1] && wf_json(
                        es[i + 1],
                    ));
                lemma_activity_names_wf(tail);
                match spec_lookup(f, "name"@) {
                    Some(JsonV::Str(nm)) => {
                        match spec_activity_names(tail) {
                            Some(rest) => {
                                let whole = seq![nm] + rest;
                                assert(forall|i: int|
                                    0 <= i < whole.len() ==> wf_text(#[trigger] whole[i]));
                            },
                            None => {},
                        }
                    },
                    _ => {},
                }
            },
            _ => {},
        }
    }
}

proof fn lemma_decoded_payload_wf(op: GatewayOpCodes, t: Option<Seq<char>>, d: JsonV)
    requires
        wf_json(d),
        !(d is Null),
    ensures
        match spec_payload_of_json(op, t, d) {
            Some(p) => crate::envelope::wf_payload_data(p),
            None => true,
        },
{
    match d {
        JsonV::Obj(dfs) => {
            lemma_lookup_wf(dfs, "heartbeat_interval"@);
            lemma_lookup_wf(dfs, "token"@);
            lemma_lookup_wf(dfs, "capabilities"@);
            lemma_lookup_wf(dfs, "properties"@);
            lemma_lookup_wf(dfs, "user"@);
            lemma_lookup_wf(dfs, "activities"@);
            lemma_lookup_wf(dfs, "author"@);
            lemma_lookup_wf(dfs, "content"@);
            match spec_lookup(dfs, "properties"@) {
                Some(JsonV::Obj(pfs)) => {
                    lemma_lookup_wf(pfs, "os"@);
                    lemma_lookup_wf(pfs, "browser"@);
                    lemma_lookup_wf(pfs, "browser_user_agent"@);
                },
                _ => {},
            }
            match spec_lookup(dfs, "user"@) {
                Some(JsonV::Obj(ufs)) => {
                    lemma_lookup_wf(ufs, "username"@);
                },
                _ => {},
            }
            match spec_lookup(dfs, "activities"@) {
                Some(JsonV::Arr(es)) => {
                    lemma_activity_names_wf(es);
                },
                _ => {},
            }
            match spec_lookup(dfs, "author"@) {
                Some(JsonV::Obj(afs)) => {
                    lemma_lookup_wf(afs, "username"@);
                    lemma_lookup_wf(afs, "discriminator"@);
                },
                _ => {},
            }
        },
        _ => {},
    }
}

/// Decoding is closed: every envelope a frame decodes to is itself
/// constructible, so it can be encoded again — and, by the round-trip
/// law, decoded back to the same envelope.
pub proof fn lemma_decode_constructible(s: Seq<char>)
    ensures
        match spec_decode(s) {
            Ok(e) => crate::envelope::wf_envelope(e),
            Err(_) => true,
        },
{
    crate::json::lemma_parse_text_wf(s);
    match spec_parse_text(s) {
        Some(j) => {
            lemma_env_of_json_wf_result(j);
        },
        None => {},
    }
}

proof fn lemma_env_of_json_wf_result(j: JsonV)
    requires
        wf_json(j),
    ensures
        match spec_env_of_json(j) {
            Ok(e) => crate::envelope::wf_envelope(e),
            Err(_) => true,
        },
{
    match j {
        JsonV::Obj(fs) => {
            lemma_lookup_wf(fs, "op"@);
            lemma_lookup_wf(fs, "t"@);
            lemma_lookup_wf(fs, "s"@);
            lemma_lookup_wf(fs, "d"@);
            match spec_lookup(fs, "op"@) {
                Some(JsonV::Num(tok)) => {
                    match spec_parse_u64(tok) {
                        Some(code) => {
                            let op = GatewayOpCodes::spec_from_code(code);
                            assert(op.wf());
                            match (spec_t_field(fs), spec_s_field(fs)) {
                                (Ok(t), Ok(_)) => {
                                    match spec_d_field(fs) {
                                        None => {},
                                        Some(dv) => {
                                            lemma_decoded_payload_wf(op, t, dv);
                                        },
                                    }
                                },
                                _ => {},
                            }
                        },
                        None => {},
                    }
                },
                _ => {},
            }
        },
        _ => {},
    }
}

/// Unknown-opcode tolerance: a frame whose opcode lies outside the known
/// set still decodes, the opcode preserved and the payload kept raw.
pub proof fn lemma_unknown_opcode_decoded(fs: Seq<(Seq<char>, JsonV)>, code: u64)
    requires
        spec_lookup(fs, "op"@) matches Some(JsonV::Num(tok)) && spec_parse_u64(tok) == Some(code),
        !GatewayOpCodes::spec_is_known_code(code),
        spec_t_field(fs) is Ok,
        spec_s_field(fs) is Ok,
    ensures
        spec_env_of_json(JsonV::Obj(fs)) matches Ok(e) && e.op == GatewayOpCodes::Unknown(code)
            && (match spec_d_field(fs) {
            None => e.d is None,
            Some(dv) => e.d == Some(GatewayPayloadDataV::RawData { value: dv }),
        }),
{
    assert(GatewayOpCodes::spec_from_code(code) == GatewayOpCodes::Unknown(code));
}

} // verus!
