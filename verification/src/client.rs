//! The Feishu open API as the client uses it: which endpoint and receiver a
//! call needs, how replies are judged, and how the status announcement is
//! written into a chat's announcement blocks.
use vstd::prelude::*;
use vstd::string::*;

use crate::model::FeishuBotTarget;
use crate::types::DiscoveredFeishuTarget;
use crate::text::str_eq;

verus! {

/// The block type of a text paragraph in a chat announcement.
pub const FEISHU_ANNOUNCEMENT_ROOT_BLOCK_TYPE: i32 = 2;

/// The styling of a text run (always empty: plain text).
#[derive(Debug, Clone, Copy, PartialEq, Eq, Structural)]
pub struct AnnouncementTextElementStyle {}

/// A run of plain text.
#[derive(Debug, Clone)]
pub struct AnnouncementTextRun {
    pub content: String,
    pub text_element_style: AnnouncementTextElementStyle,
}

/// One element of an announcement paragraph.
#[derive(Debug, Clone)]
pub struct AnnouncementTextElement {
    pub text_run: AnnouncementTextRun,
}

/// The text of an announcement paragraph.
#[derive(Debug, Clone)]
pub struct AnnouncementTextPayload {
    pub elements: Vec<AnnouncementTextElement>,
}

/// The paragraph payload that holds exactly `content`, unstyled.
pub fn announcement_text_payload(content: &str) -> (r: AnnouncementTextPayload)
    ensures
        r.elements@.len() == 1,
        r.elements@[0].text_run.content@ == content@,
{
    let mut elements = Vec::new();
    elements.push(AnnouncementTextElement {
        text_run: AnnouncementTextRun {
            content: content.to_string(),
            text_element_style: AnnouncementTextElementStyle {},
        },
    });
    AnnouncementTextPayload { elements }
}

/// A new announcement paragraph.
#[derive(Debug, Clone)]
pub struct AnnouncementBlock {
    pub block_type: i32,
    pub text: AnnouncementTextPayload,
}

/// The request that inserts paragraphs at the top of an announcement.
#[derive(Debug, Clone)]
pub struct CreateAnnouncementChildrenRequest {
    pub index: i32,
    pub children: Vec<AnnouncementBlock>,
}

/// Inserts one paragraph holding `content` at the top of the announcement.
pub fn create_announcement_request(content: &str) -> (r: CreateAnnouncementChildrenRequest)
    ensures
        r.index == 0,
        r.children@.len() == 1,
        r.children@[0].block_type == FEISHU_ANNOUNCEMENT_ROOT_BLOCK_TYPE,
        r.children@[0].text.elements@.len() == 1,
        r.children@[0].text.elements@[0].text_run.content@ == content@,
{
    let mut children = Vec::new();
    children.push(AnnouncementBlock {
        block_type: FEISHU_ANNOUNCEMENT_ROOT_BLOCK_TYPE,
        text: announcement_text_payload(content),
    });
    CreateAnnouncementChildrenRequest { index: 0, children }
}

/// The rewrite of one existing paragraph.
#[derive(Debug, Clone)]
pub struct UpdateAnnouncementBlockRequest {
    pub block_id: String,
    pub update_text_elements: AnnouncementTextPayload,
}

/// A block of an existing announcement, as far as the client reads it.
#[derive(Debug, Clone)]
pub struct AnnouncementBlockInfo {
    /// The block's id, when it has a string one.
    pub block_id: Option<String>,
    /// Whether the block carries a `text` field (a paragraph).
    pub has_text: bool,
}

/// The ids of the text blocks, in order.
pub open spec fn spec_text_block_ids(blocks: Seq<AnnouncementBlockInfo>) -> Seq<Seq<char>>
    decreases blocks.len(),
{
    if blocks.len() == 0 {
        Seq::empty()
    } else {
        let last = blocks.last();
        let rest = spec_text_block_ids(blocks.drop_last());
        match last.block_id {
            Some(id) => if last.has_text {
                rest.push(id@)
            } else {
                rest
            },
            None => rest,
        }
    }
}

/// The ids of the paragraph blocks of an announcement, in order.
pub fn find_text_announcement_block_ids(blocks: &Vec<AnnouncementBlockInfo>) -> (r: Vec<String>)
    ensures
        r@.map_values(|s: String| s@) == spec_text_block_ids(blocks@),
{
    let mut r: Vec<String> = Vec::new();
    let mut i: usize = 0;
    while i < blocks.len()
        invariant
            i <= blocks@.len(),
            r@.map_values(|s: String| s@) == spec_text_block_ids(blocks@.take(i as int)),
        decreases blocks@.len() - i,
    {
        assert(blocks@.take(i + 1).drop_last() =~= blocks@.take(i as int));
        let ghost before = r@;
        match &blocks[i].block_id {
            Some(id) => {
                if blocks[i].has_text {
                    r.push(id.clone());
                    assert(r@.map_values(|s: String| s@) =~= before.map_values(|s: String| s@).push(id@));
                }
            },
            None => {},
        }
        i = i + 1;
    }
    assert(blocks@.take(i as int) =~= blocks@);
    r
}

/// How the status announcement is written.
pub enum AnnouncementUpsert {
    /// Rewrite these (block id, text) pairs: the first paragraph gets the
    /// status, every later paragraph is blanked.
    Update(Vec<(String, String)>),
    /// The announcement has no paragraph: insert one with the status.
    Create(String),
}

/// Writes the status into the first paragraph and blanks the others, or
/// creates the paragraph when there is none; so exactly one paragraph ends
/// up holding the status.
pub fn announcement_upsert_plan(text_block_ids: &Vec<String>, content: &str) -> (r: AnnouncementUpsert)
    ensures
        text_block_ids@.len() == 0 ==> (r matches AnnouncementUpsert::Create(c) && c@ == content@),
        text_block_ids@.len() > 0 ==> (r matches AnnouncementUpsert::Update(updates) && {
            &&& updates@.len() == text_block_ids@.len()
            &&& forall|k: int| 0 <= k < updates@.len() ==> (#[trigger] updates@[k]).0@ == text_block_ids@[k]@
            &&& updates@[0].1@ == content@
            &&& forall|k: int| 1 <= k < updates@.len() ==> (#[trigger] updates@[k]).1@ == Seq::<char>::empty()
        }),
{
    if text_block_ids.len() == 0 {
        return AnnouncementUpsert::Create(content.to_string());
    }
    let mut updates: Vec<(String, String)> = Vec::new();
    updates.push((text_block_ids[0].clone(), content.to_string()));
    let mut i: usize = 1;
    while i < text_block_ids.len()
        invariant
            1 <= i <= text_block_ids@.len(),
            updates@.len() == i,
            forall|k: int| 0 <= k < i ==> (#[trigger] updates@[k]).0@ == text_block_ids@[k]@,
            updates@[0].1@ == content@,
            forall|k: int| 1 <= k < i ==> (#[trigger] updates@[k]).1@ == Seq::<char>::empty(),
        decreases text_block_ids@.len() - i,
    {
        updates.push((text_block_ids[i].clone(), String::new()));
        i = i + 1;
    }
    AnnouncementUpsert::Update(updates)
}

/// The block rewrites of an update, each holding its new text.
pub fn update_announcement_requests(updates: &Vec<(String, String)>) -> (r: Vec<UpdateAnnouncementBlockRequest>)
    ensures
        r@.len() == updates@.len(),
        forall|k: int| 0 <= k < r@.len() ==> (#[trigger] r@[k]).block_id@ == updates@[k].0@
            && r@[k].update_text_elements.elements@.len() == 1
            && r@[k].update_text_elements.elements@[0].text_run.content@ == updates@[k].1@,
{
    let mut r: Vec<UpdateAnnouncementBlockRequest> = Vec::new();
    let mut i: usize = 0;
    while i < updates.len()
        invariant
            i <= updates@.len(),
            r@.len() == i,
            forall|k: int| 0 <= k < i ==> (#[trigger] r@[k]).block_id@ == updates@[k].0@
                && r@[k].update_text_elements.elements@.len() == 1
                && r@[k].update_text_elements.elements@[0].text_run.content@ == updates@[k].1@,
        decreases updates@.len() - i,
    {
        r.push(UpdateAnnouncementBlockRequest {
            block_id: updates[i].0.clone(),
            update_text_elements: announcement_text_payload(updates[i].1.as_str()),
        });
        i = i + 1;
    }
    r
}

/// Who a message is addressed to: the target's open chat id when it has
/// one, its chat id otherwise.
pub fn message_receiver(target: &FeishuBotTarget) -> (r: Result<(&'static str, String), &'static str>)
    ensures
        match (target.open_chat_id, target.chat_id) {
            (Some(o), _) => r matches Ok((kind, id)) && kind@ == "open_chat_id"@ && id@ == o@,
            (None, Some(c)) => r matches Ok((kind, id)) && kind@ == "chat_id"@ && id@ == c@,
            (None, None) => r matches Err(m) && m@ == "Feishu target is missing both open_chat_id and chat_id"@,
        },
{
    match &target.open_chat_id {
        Some(o) => Ok(("open_chat_id", o.clone())),
        None => match &target.chat_id {
            Some(c) => Ok(("chat_id", c.clone())),
            None => Err("Feishu target is missing both open_chat_id and chat_id"),
        },
    }
}

/// The token endpoint for a tenant mode: self-built and internal apps use
/// the internal endpoint; other modes are refused.
pub fn tenant_token_endpoint(tenant_mode: &str) -> (r: Result<&'static str, String>)
    ensures
        (tenant_mode@ == "self_built"@ || tenant_mode@ == "internal"@) ==> (r matches Ok(e)
            && e@ == "auth/v3/tenant_access_token/internal"@),
        !(tenant_mode@ == "self_built"@ || tenant_mode@ == "internal"@) ==> (r matches Err(m)
            && m@ == "Unsupported Feishu tenant mode: "@ + tenant_mode@),
{
    if str_eq(tenant_mode, "self_built") || str_eq(tenant_mode, "internal") {
        Ok("auth/v3/tenant_access_token/internal")
    } else {
        let mut m = String::new();
        m.append("Unsupported Feishu tenant mode: ");
        m.append(tenant_mode);
        Err(m)
    }
}

/// The open API calls the bot makes.
#[derive(Debug, Clone, Copy, PartialEq, Eq, Structural)]
pub enum FeishuCall {
    TenantToken,
    ListChats,
    ListAnnouncementBlocks,
    CreateAnnouncementBlock,
    UpdateAnnouncementBlocks,
    SendMessage,
    AddMessageReaction,
    LongConnectionConfig,
}

pub open spec fn spec_status_label(call: FeishuCall) -> Seq<char> {
    match call {
        FeishuCall::TenantToken => "Feishu token request"@,
        FeishuCall::ListChats => "Feishu chat list request"@,
        FeishuCall::ListAnnouncementBlocks => "Feishu announcement block list request"@,
        FeishuCall::CreateAnnouncementBlock => "Feishu announcement block create request"@,
        FeishuCall::UpdateAnnouncementBlocks => "Feishu announcement block update request"@,
        FeishuCall::SendMessage => "Feishu send message"@,
        FeishuCall::AddMessageReaction => "Feishu add message reaction"@,
        FeishuCall::LongConnectionConfig => "Feishu long connection config request"@,
    }
}

pub open spec fn spec_code_label(call: FeishuCall) -> Seq<char> {
    match call {
        FeishuCall::TenantToken => "Feishu token request"@,
        FeishuCall::ListChats => "Feishu chat list"@,
        FeishuCall::ListAnnouncementBlocks => "Feishu announcement block list"@,
        FeishuCall::CreateAnnouncementBlock => "Feishu announcement block create"@,
        FeishuCall::UpdateAnnouncementBlocks => "Feishu announcement block update"@,
        FeishuCall::SendMessage => "Feishu send message"@,
        FeishuCall::AddMessageReaction => "Feishu add message reaction"@,
        FeishuCall::LongConnectionConfig => "Feishu long connection config"@,
    }
}

fn status_label(call: FeishuCall) -> (r: &'static str)
    ensures
        r@ == spec_status_label(call),
{
    match call {
        FeishuCall::TenantToken => "Feishu token request",
        FeishuCall::ListChats => "Feishu chat list request",
        FeishuCall::ListAnnouncementBlocks => "Feishu announcement block list request",
        FeishuCall::CreateAnnouncementBlock => "Feishu announcement block create request",
        FeishuCall::UpdateAnnouncementBlocks => "Feishu announcement block update request",
        FeishuCall::SendMessage => "Feishu send message",
        FeishuCall::AddMessageReaction => "Feishu add message reaction",
        FeishuCall::LongConnectionConfig => "Feishu long connection config request",
    }
}

fn code_label(call: FeishuCall) -> (r: &'static str)
    ensures
        r@ == spec_code_label(call),
{
    match call {
        FeishuCall::TenantToken => "Feishu token request",
        FeishuCall::ListChats => "Feishu chat list",
        FeishuCall::ListAnnouncementBlocks => "Feishu announcement block list",
        FeishuCall::CreateAnnouncementBlock => "Feishu announcement block create",
        FeishuCall::UpdateAnnouncementBlocks => "Feishu announcement block update",
        FeishuCall::SendMessage => "Feishu send message",
        FeishuCall::AddMessageReaction => "Feishu add message reaction",
        FeishuCall::LongConnectionConfig => "Feishu long connection config",
    }
}

/// A reply with a non-success HTTP status is refused with its status and body.
pub fn check_http_status(call: FeishuCall, success: bool, status: &str, body: &str) -> (r: Result<(), String>)
    ensures
        success ==> r is Ok,
        !success ==> (r matches Err(m) && m@ == spec_status_label(call) + " failed with status "@ + status@ + ": "@ + body@),
{
    if success {
        Ok(())
    } else {
        let mut m = String::new();
        m.append(status_label(call));
        m.append(" failed with status ");
        m.append(status);
        m.append(": ");
        m.append(body);
        Err(m)
    }
}

/// A reply whose `code` is not 0 is refused with its `msg`.
pub fn check_api_code(call: FeishuCall, code: i32, msg: &str) -> (r: Result<(), String>)
    ensures
        code == 0 ==> r is Ok,
        code != 0 ==> (r matches Err(m) && m@ == spec_code_label(call) + " failed: "@ + msg@),
{
    if code == 0 {
        Ok(())
    } else {
        let mut m = String::new();
        m.append(code_label(call));
        m.append(" failed: ");
        m.append(msg);
        Err(m)
    }
}

/// The tenant access token from a token reply.
pub fn token_from_reply(code: i32, msg: &str, token: Option<String>) -> (r: Result<String, String>)
    ensures
        code != 0 ==> (r matches Err(m) && m@ == spec_code_label(FeishuCall::TenantToken) + " failed: "@ + msg@),
        code == 0 ==> match token {
            Some(t) => r matches Ok(v) && v@ == t@,
            None => r matches Err(m) && m@ == "Feishu token response missing tenant_access_token"@,
        },
{
    match check_api_code(FeishuCall::TenantToken, code, msg) {
        Err(m) => Err(m),
        Ok(()) => match token {
            Some(t) => Ok(t),
            None => Err("Feishu token response missing tenant_access_token".to_string()),
        },
    }
}

/// A chat listed by the open API, as a discovered target.
pub fn discovered_target_from_chat(chat_id: Option<String>, open_chat_id: Option<String>, name: Option<String>) -> (r: DiscoveredFeishuTarget)
    ensures
        r.target_type@ == "chat"@,
        r.open_chat_id == open_chat_id,
        r.chat_id == chat_id,
        r.name@ == (match name {
            Some(n) => n@,
            None => "Unnamed chat"@,
        }),
        r.source@ == "discovery"@,
{
    DiscoveredFeishuTarget {
        target_type: "chat".to_string(),
        open_chat_id,
        chat_id,
        name: match name {
            Some(n) => n,
            None => "Unnamed chat".to_string(),
        },
        source: "discovery".to_string(),
    }
}

/// Where the open API is served.
pub const FEISHU_API_BASE: &'static str = "https://open.feishu.cn";

/// The open API resources the client calls.
#[derive(Debug, Clone)]
pub enum FeishuEndpoint {
    /// The tenant access token, under the path of the tenant mode.
    TenantToken { path: String },
    /// The chats the bot is in.
    ListChats,
    /// The paragraphs of a chat's announcement (listed, or inserted into).
    AnnouncementChildren { chat_id: String },
    /// Several paragraphs of a chat's announcement rewritten at once.
    AnnouncementBatchUpdate { chat_id: String },
    /// A message sent to a receiver named by the given id type.
    SendMessage { receive_id_type: String },
    /// The reactions of a message.
    MessageReactions { message_id: String },
}

/// The path of an endpoint below `/open-apis/`.
pub open spec fn spec_endpoint_path(e: FeishuEndpoint) -> Seq<char> {
    match e {
        FeishuEndpoint::TenantToken { path } => path@,
        FeishuEndpoint::ListChats => "im/v1/chats"@,
        FeishuEndpoint::AnnouncementChildren { chat_id } => "docx/v1/chats/"@ + chat_id@ + "/announcement/blocks/"@ + chat_id@ + "/children"@,
        FeishuEndpoint::AnnouncementBatchUpdate { chat_id } => "docx/v1/chats/"@ + chat_id@ + "/announcement/blocks/batch_update"@,
        FeishuEndpoint::SendMessage { receive_id_type } => "im/v1/messages?receive_id_type="@ + receive_id_type@,
        FeishuEndpoint::MessageReactions { message_id } => "im/v1/messages/"@ + message_id@ + "/reactions"@,
    }
}

/// The URL of an endpoint on the API served at `api_base`.
pub fn endpoint_url(api_base: &str, endpoint: &FeishuEndpoint) -> (r: String)
    ensures
        r@ == api_base@ + "/open-apis/"@ + spec_endpoint_path(*endpoint),
{
    let mut u = String::new();
    u.append(api_base);
    u.append("/open-apis/");
    match endpoint {
        FeishuEndpoint::TenantToken { path } => u.append(path.as_str()),
        FeishuEndpoint::ListChats => u.append("im/v1/chats"),
        FeishuEndpoint::AnnouncementChildren { chat_id } => {
            u.append("docx/v1/chats/");
            u.append(chat_id.as_str());
            u.append("/announcement/blocks/");
            u.append(chat_id.as_str());
            u.append("/children");
        },
        FeishuEndpoint::AnnouncementBatchUpdate { chat_id } => {
            u.append("docx/v1/chats/");
            u.append(chat_id.as_str());
            u.append("/announcement/blocks/batch_update");
        },
        FeishuEndpoint::SendMessage { receive_id_type } => {
            u.append("im/v1/messages?receive_id_type=");
            u.append(receive_id_type.as_str());
        },
        FeishuEndpoint::MessageReactions { message_id } => {
            u.append("im/v1/messages/");
            u.append(message_id.as_str());
            u.append("/reactions");
        },
    }
    u
}

/// A chat as the chat list reports it.
#[derive(Debug, Clone)]
pub struct FeishuChat {
    pub chat_id: Option<String>,
    pub open_chat_id: Option<String>,
    pub name: Option<String>,
}

/// The targets a chat list reply describes: one per listed chat, in order;
/// none when the reply carries no data.
pub fn discovered_targets_from_chats(data: Option<Vec<FeishuChat>>) -> (r: Vec<DiscoveredFeishuTarget>)
    ensures
        match data {
            None => r@.len() == 0,
            Some(chats) => r@.len() == chats@.len() && forall|k: int| 0 <= k < r@.len() ==> {
                let t = #[trigger] r@[k];
                let c = chats@[k];
                &&& t.target_type@ == "chat"@
                &&& t.open_chat_id == c.open_chat_id
                &&& t.chat_id == c.chat_id
                &&& t.name@ == (match c.name { Some(n) => n@, None => "Unnamed chat"@ })
                &&& t.source@ == "discovery"@
            },
        },
{
    let mut r: Vec<DiscoveredFeishuTarget> = Vec::new();
    let chats = match data {
        Some(c) => c,
        None => return r,
    };
    let ghost all = chats@;
    let mut rest = chats;
    let mut i: usize = 0;
    let n = rest.len();
    assert(all.skip(0) =~= all);
    while i < n
        invariant
            n == all.len(),
            i <= n,
            r@.len() == i,
            rest@ == all.skip(i as int),
            forall|k: int| 0 <= k < i ==> {
                let t = #[trigger] r@[k];
                let c = all[k];
                &&& t.target_type@ == "chat"@
                &&& t.open_chat_id == c.open_chat_id
                &&& t.chat_id == c.chat_id
                &&& t.name@ == (match c.name { Some(n) => n@, None => "Unnamed chat"@ })
                &&& t.source@ == "discovery"@
            },
        decreases n - i,
    {
        assert(rest@.len() > 0);
        let chat = rest.remove(0);
        assert(chat == all[i as int]);
        assert(rest@ =~= all.skip(i + 1));
        r.push(discovered_target_from_chat(chat.chat_id, chat.open_chat_id, chat.name));
        i = i + 1;
    }
    r
}

/// The body of a message send: the receiver, the message type `text`, and
/// the content, a JSON object whose `text` member is the message.
#[derive(Debug, Clone)]
pub struct SendMessageRequest {
    pub receive_id: String,
    pub msg_type: String,
    pub content: String,
}

/// Why a message could not be prepared for sending.
#[derive(Debug)]
pub enum SendMessageRequestError {
    /// The target names no chat.
    MissingReceiver,
    /// The message could not be encoded as JSON.
    Encoding(serde_json::Error),
}

/// A lowercase hexadecimal digit.
pub open spec fn spec_lower_hex(d: int) -> char {
    if d < 10 {
        (('0' as int) + d) as char
    } else {
        (('a' as int) + d - 10) as char
    }
}

/// How a JSON string writes one character: `"` and `\` behind a backslash,
/// backspace, tab, line feed, form feed and carriage return as `\b`, `\t`,
/// `\n`, `\f`, `\r`, any other character below U+0020 as `\u00` and two
/// lowercase hex digits, and every other character as it is.
pub open spec fn spec_json_char(c: char) -> Seq<char> {
    let v = c as int;
    if c == '\u{22}' {
        seq!['\u{5c}', '\u{22}']
    } else if c == '\u{5c}' {
        seq!['\u{5c}', '\u{5c}']
    } else if v == 0x08 {
        seq!['\u{5c}', 'b']
    } else if v == 0x09 {
        seq!['\u{5c}', 't']
    } else if v == 0x0a {
        seq!['\u{5c}', 'n']
    } else if v == 0x0c {
        seq!['\u{5c}', 'f']
    } else if v == 0x0d {
        seq!['\u{5c}', 'r']
    } else if v < 0x20 {
        seq!['\u{5c}', 'u', '0', '0', spec_lower_hex(v / 16), spec_lower_hex(v % 16)]
    } else {
        seq![c]
    }
}

/// The characters of a text, each written as a JSON string writes it.
pub open spec fn spec_json_escaped(s: Seq<char>) -> Seq<char>
    decreases s.len(),
{
    if s.len() == 0 {
        Seq::empty()
    } else {
        spec_json_escaped(s.drop_last()) + spec_json_char(s.last())
    }
}

/// The JSON string literal that holds a text.
pub open spec fn spec_json_string(s: Seq<char>) -> Seq<char> {
    seq!['\u{22}'] + spec_json_escaped(s) + seq!['\u{22}']
}

/// `serde_json::to_string` on a string slice: the text between double
/// quotes, escaped as `format_escaped_str` does. Writing a string into a
/// `Vec` cannot fail.
#[verifier::external_body]
fn json_string(s: &str) -> (r: Result<String, serde_json::Error>)
    ensures
        match r {
            Ok(j) => j@ == spec_json_string(s@),
            Err(_) => false,
        },
{
    serde_json::to_string(s)
}

/// The content of a text message: `{"text":` and the message as a JSON
/// string, then `}`.
pub open spec fn spec_text_content(encoded_message: Seq<char>) -> Seq<char> {
    "{\"text\":"@ + encoded_message + "}"@
}

/// The send request for a message from its JSON-encoded text (`None` when
/// encoding failed).
pub fn text_message_request(target: &FeishuBotTarget, encoded_message: Option<&str>) -> (r: Result<SendMessageRequest, Option<&'static str>>)
    ensures
        match (target.open_chat_id, target.chat_id) {
            (None, None) => r matches Err(Some(m)) && m@ == "Feishu target is missing both open_chat_id and chat_id"@,
            (o, c) => match encoded_message {
                None => r matches Err(None),
                Some(j) => r matches Ok(req) && req.msg_type@ == "text"@ && req.content@ == spec_text_content(j@)
                    && req.receive_id@ == (match o { Some(x) => x@, None => c.unwrap()@ }),
            },
        },
{
    let (_kind, receive_id) = match message_receiver(target) {
        Ok(receiver) => receiver,
        Err(m) => return Err(Some(m)),
    };
    let j = match encoded_message {
        Some(j) => j,
        None => return Err(None),
    };
    let mut content = String::new();
    content.append("{\"text\":");
    content.append(j);
    content.append("}");
    Ok(SendMessageRequest { receive_id, msg_type: "text".to_string(), content })
}

/// The send request for a message to a target, with the receive id type
/// that goes into the endpoint.
pub fn send_message_request(target: &FeishuBotTarget, message: &str) -> (r: Result<(&'static str, SendMessageRequest), SendMessageRequestError>)
    ensures
        target.open_chat_id is None && target.chat_id is None ==> r matches Err(SendMessageRequestError::MissingReceiver),
        target.open_chat_id is Some || target.chat_id is Some ==> (r matches Ok((kind, req))
            && req.msg_type@ == "text"@ && req.content@ == spec_text_content(spec_json_string(message@))
            && match (target.open_chat_id, target.chat_id) {
                (Some(o), _) => kind@ == "open_chat_id"@ && req.receive_id@ == o@,
                (None, Some(c)) => kind@ == "chat_id"@ && req.receive_id@ == c@,
                (None, None) => false,
            }),
{
    let kind = match message_receiver(target) {
        Ok((kind, _)) => kind,
        Err(_) => return Err(SendMessageRequestError::MissingReceiver),
    };
    let encoded = match json_string(message) {
        Ok(j) => j,
        Err(e) => return Err(SendMessageRequestError::Encoding(e)),
    };
    match text_message_request(target, Some(encoded.as_str())) {
        Ok(req) => Ok((kind, req)),
        Err(_) => Err(SendMessageRequestError::MissingReceiver),
    }
}

} // verus!
