//! Direct messages: senders, requests and parameters of the chat API, inbox filters and
//! statistics, message events, and message requests.
use vstd::prelude::*;
use crate::json::json_error_message;
use crate::link_preview::truncated_spec;
use crate::time::{date_format, date_text, no_later, Timestamp};
use crate::sorting::{
    char_codes, char_codes_exec, drop_keys, key_views, keyed_by, lemma_sorted_by, lex_le, sort_by_key, sort_by_keys,
    values_of,
};
use crate::text::{
    chars_before_byte, chars_of, concat2, contains, decimal, decimal_string, is_boundary, lowercase,
    occurs, owned, str_eq, string_of, take_exec, to_lowercase, utf8_len,
};

verus! {

/// Maximum length of a message, in bytes.
pub const MAX_MESSAGE_LENGTH: usize = 10_000;

/// Message errors.
#[derive(Debug)]
pub enum MessageError {
    /// XRPC error
    Xrpc(String),
    /// Conversation not found
    ConversationNotFound(String),
    /// Message not found
    MessageNotFound(String),
    /// Invalid recipient
    InvalidRecipient(String),
    /// Message too long
    MessageTooLong { length: usize, max: usize },
    /// Serialization error
    Serialization(serde_json::Error),
    /// No active session
    NoSession,
}

impl MessageError {
    /// The error message (that of a serialization error is serde_json's).
    pub fn to_string(&self) -> (r: String)
        ensures
            match self {
                MessageError::Xrpc(m) => r@ == "XRPC error: "@ + m@,
                MessageError::ConversationNotFound(m) => r@ == "Conversation not found: "@ + m@,
                MessageError::MessageNotFound(m) => r@ == "Message not found: "@ + m@,
                MessageError::InvalidRecipient(m) => r@ == "Invalid recipient: "@ + m@,
                MessageError::MessageTooLong { length, max } => r@ == "Message too long: "@ + decimal(
                    *length as nat,
                ) + " exceeds maximum "@ + decimal(*max as nat),
                MessageError::Serialization(_) => true,
                MessageError::NoSession => r@ == "No active session"@,
            },
    {
        match self {
            MessageError::Xrpc(m) => concat2("XRPC error: ", m.as_str()),
            MessageError::ConversationNotFound(m) => concat2("Conversation not found: ", m.as_str()),
            MessageError::MessageNotFound(m) => concat2("Message not found: ", m.as_str()),
            MessageError::InvalidRecipient(m) => concat2("Invalid recipient: ", m.as_str()),
            MessageError::MessageTooLong { length, max } => {
                let a = decimal_string(*length as u64);
                let b = decimal_string(*max as u64);
                let mut r = concat2("Message too long: ", a.as_str());
                r.append(" exceeds maximum ");
                r.append(b.as_str());
                r
            },
            MessageError::Serialization(e) => {
                let m = json_error_message(e);
                concat2("Serialization error: ", m.as_str())
            },
            MessageError::NoSession => owned("No active session"),
        }
    }
}

/// Refuses a message text longer than `MAX_MESSAGE_LENGTH` bytes.
pub fn check_message_length(text: &str) -> (r: Result<(), MessageError>)
    ensures
        crate::text::utf8_len(text@) <= MAX_MESSAGE_LENGTH ==> r is Ok,
        crate::text::utf8_len(text@) > MAX_MESSAGE_LENGTH ==> (r matches Err(
            MessageError::MessageTooLong { length, max },
        ) && length == crate::text::utf8_len(text@) && max == MAX_MESSAGE_LENGTH),
{
    let n = crate::text::byte_len(text);
    if n > MAX_MESSAGE_LENGTH {
        Err(MessageError::MessageTooLong { length: n, max: MAX_MESSAGE_LENGTH })
    } else {
        Ok(())
    }
}

/// A participant of a conversation.
#[derive(Debug, Clone, PartialEq, Eq)]
pub struct MessageSender {
    /// DID
    pub did: String,
    /// Handle
    pub handle: String,
    /// Display name
    pub display_name: Option<String>,
    /// Avatar URL
    pub avatar: Option<String>,
}

/// Request to send a message.
#[derive(Debug, Clone)]
pub struct SendMessageRequest {
    /// Conversation ID
    pub conversation_id: String,
    /// Message text
    pub message: String,
}

/// Request to create a conversation.
#[derive(Debug, Clone)]
pub struct CreateConversationRequest {
    /// DIDs of the members
    pub members: Vec<String>,
}

/// Parameters of a conversation listing.
#[derive(Debug, Clone)]
pub struct ListConversationsParams {
    /// Page size
    pub limit: Option<u32>,
    /// Pagination cursor
    pub cursor: Option<String>,
}

impl Default for ListConversationsParams {
    fn default() -> (r: Self)
        ensures
            r.limit is None && r.cursor is None,
    {
        ListConversationsParams { limit: None, cursor: None }
    }
}

/// Parameters of a message listing.
#[derive(Debug, Clone)]
pub struct ListMessagesParams {
    /// Conversation ID
    pub conversation_id: String,
    /// Page size
    pub limit: Option<u32>,
    /// Pagination cursor
    pub cursor: Option<String>,
}

impl Default for ListMessagesParams {
    fn default() -> (r: Self)
        ensures
            r.conversation_id@ == Seq::<char>::empty() && r.limit is None && r.cursor is None,
    {
        ListMessagesParams { conversation_id: String::new(), limit: None, cursor: None }
    }
}

/// Orders of the inbox.
#[derive(Debug, Clone, Copy, PartialEq, Eq)]
pub enum ConversationSortBy {
    /// Most recently updated first
    Recent,
    /// Unread first
    Unread,
    /// By participant name
    Name,
}

/// Which conversations the inbox shows.
#[derive(Debug, Clone)]
pub struct InboxFilter {
    /// Only conversations with unread messages
    pub only_unread: bool,
    /// Leave out muted conversations
    pub exclude_muted: bool,
    /// Text to search for
    pub search_query: Option<String>,
}

impl Default for InboxFilter {
    fn default() -> (r: Self)
        ensures
            !r.only_unread && !r.exclude_muted && r.search_query is None,
    {
        InboxFilter { only_unread: false, exclude_muted: false, search_query: None }
    }
}

/// Statistics of the inbox.
#[derive(Debug, Clone, PartialEq, Eq)]
pub struct InboxStats {
    /// Number of conversations
    pub total_conversations: usize,
    /// Number of conversations with unread messages
    pub unread_conversations: usize,
    /// Number of unread messages
    pub total_unread: u32,
}

impl Default for InboxStats {
    fn default() -> (r: Self)
        ensures
            r == (InboxStats { total_conversations: 0, unread_conversations: 0, total_unread: 0 }),
    {
        InboxStats { total_conversations: 0, unread_conversations: 0, total_unread: 0 }
    }
}

/// A conversation as the inbox lists it.
#[derive(Debug, Clone, PartialEq, Eq)]
pub struct ConversationPreview {
    /// Conversation ID
    pub conversation_id: String,
    /// Title (participants' names)
    pub title: String,
    /// Text of the last message
    pub preview_text: String,
    /// How long ago it was updated
    pub relative_time: String,
    /// Whether it has unread messages
    pub has_unread: bool,
    /// Number of unread messages
    pub unread_count: u32,
    /// Whether it is muted
    pub is_muted: bool,
}

/// Kinds of real-time message event.
#[derive(Debug, Clone, PartialEq, Eq)]
pub enum MessageEventType {
    /// A message arrived
    NewMessage,
    /// A message was deleted
    MessageDeleted,
    /// A conversation changed
    ConversationUpdated,
    /// A conversation was opened
    ConversationCreated,
    /// A conversation was read
    ConversationRead,
    /// Someone is typing
    TypingIndicator,
}

/// Someone typing in a conversation.
#[derive(Debug, Clone, PartialEq, Eq)]
pub struct TypingIndicator {
    /// DID of the user
    pub user_did: String,
    /// Whether they are typing
    pub is_typing: bool,
}

/// How events are received.
#[derive(Debug, Clone, Copy, PartialEq, Eq)]
pub enum ConnectionMode {
    /// By polling
    Polling,
    /// Over a WebSocket
    WebSocket,
}

/// `Duration::from_secs`: a duration of `secs` whole seconds, so of `secs` times a billion
/// nanoseconds (see `nanos_of`).
#[verifier::external_body]
fn duration_from_secs(secs: u64) -> (r: std::time::Duration)
    ensures
        crate::link_preview::nanos_of(r) == secs * 1_000_000_000,
{
    std::time::Duration::from_secs(secs)
}

/// `Duration::clone`; nothing is stated of the copy.
pub assume_specification[<std::time::Duration as core::clone::Clone>::clone](d: &std::time::Duration) -> std::time::Duration;

/// Configuration of the event listener.
#[derive(Debug, Clone)]
pub struct EventListenerConfig {
    /// Connection mode
    pub mode: ConnectionMode,
    /// Interval between polls
    pub poll_interval: std::time::Duration,
    /// Whether typing indicators are delivered
    pub enable_typing: bool,
    /// Size of the event buffer
    pub buffer_size: usize,
}

impl Default for EventListenerConfig {
    /// Polling every 5 seconds, without typing indicators, with a buffer of 100 events.
    fn default() -> (r: Self)
        ensures
            r.mode == ConnectionMode::Polling,
            crate::link_preview::nanos_of(r.poll_interval) == 5_000_000_000,
            !r.enable_typing,
            r.buffer_size == 100,
    {
        EventListenerConfig {
            mode: ConnectionMode::Polling,
            poll_interval: duration_from_secs(5),
            enable_typing: false,
            buffer_size: 100,
        }
    }
}

/// The state of a message request.
#[derive(Debug, Clone, Copy, PartialEq, Eq, Structural)]
pub enum MessageRequestStatus {
    /// Awaiting an answer
    Pending,
    /// Accepted
    Accepted,
    /// Declined
    Declined,
}

impl Default for MessageRequestStatus {
    fn default() -> (r: Self)
        ensures
            r == MessageRequestStatus::Pending,
    {
        MessageRequestStatus::Pending
    }
}

/// Which message requests to show.
#[derive(Debug, Clone)]
pub struct MessageRequestFilter {
    /// Only requests in this state
    pub status: Option<MessageRequestStatus>,
    /// Text to search for
    pub search_query: Option<String>,
    /// Maximum number of requests
    pub limit: Option<u32>,
}

impl Default for MessageRequestFilter {
    fn default() -> (r: Self)
        ensures
            r.status is None && r.search_query is None && r.limit is None,
    {
        MessageRequestFilter { status: None, search_query: None, limit: None }
    }
}

/// Parameters of a message request listing.
#[derive(Debug, Clone)]
pub struct ListMessageRequestsParams {
    /// Page size
    pub limit: Option<u32>,
    /// Pagination cursor
    pub cursor: Option<String>,
}

impl Default for ListMessageRequestsParams {
    fn default() -> (r: Self)
        ensures
            r.limit is None && r.cursor is None,
    {
        ListMessageRequestsParams { limit: None, cursor: None }
    }
}

/// Parameters for accepting a message request.
#[derive(Debug, Clone)]
pub struct AcceptMessageRequestParams {
    /// ID of the request
    pub request_id: String,
}

/// Response to accepting a message request.
#[derive(Debug, Clone)]
pub struct AcceptMessageRequestResponse {
    /// ID of the conversation it opened
    pub conversation_id: String,
}

/// Parameters for declining a message request.
#[derive(Debug, Clone)]
pub struct DeclineMessageRequestParams {
    /// ID of the request
    pub request_id: String,
}

/// A direct message.
#[derive(Debug, Clone, PartialEq, Eq)]
pub struct Message {
    /// Message ID
    pub id: String,
    /// Text
    pub text: String,
    /// Sender
    pub sender: MessageSender,
    /// When it was sent
    pub sent_at: Timestamp,
    /// Whether the viewer sent it
    pub is_from_self: Option<bool>,
}

impl Message {
    /// A message.
    pub fn new(id: &str, text: &str, sender: MessageSender, sent_at: Timestamp) -> (r: Self)
        ensures
            r.id@ == id@,
            r.text@ == text@,
            r.sender == sender,
            r.sent_at == sent_at,
            r.is_from_self is None,
    {
        Message { id: owned(id), text: owned(text), sender, sent_at, is_from_self: None }
    }

    /// Refuses a text longer than `MAX_MESSAGE_LENGTH` bytes.
    pub fn validate_length(&self) -> (r: Result<(), MessageError>)
        ensures
            utf8_len(self.text@) <= MAX_MESSAGE_LENGTH ==> r is Ok,
            utf8_len(self.text@) > MAX_MESSAGE_LENGTH ==> (r matches Err(
                MessageError::MessageTooLong { length, max },
            ) && length == utf8_len(self.text@) && max == MAX_MESSAGE_LENGTH),
    {
        check_message_length(self.text.as_str())
    }
}

/// The name shown for a participant: the display name, else the handle.
pub open spec fn sender_name(m: MessageSender) -> Seq<char> {
    match m.display_name {
        Some(n) => n@,
        None => m.handle@,
    }
}

/// The name of the conversation's first participant.
pub open spec fn participant_name(c: Conversation) -> Option<Seq<char>> {
    if c.members@.len() == 0 {
        None
    } else {
        Some(sender_name(c.members@[0]))
    }
}

/// A conversation.
#[derive(Debug, Clone, PartialEq, Eq)]
pub struct Conversation {
    /// Conversation ID
    pub id: String,
    /// Participants
    pub members: Vec<MessageSender>,
    /// Last message
    pub last_message: Option<Message>,
    /// Number of unread messages
    pub unread_count: u32,
    /// Last update
    pub updated_at: Timestamp,
    /// Whether it is muted
    pub muted: bool,
}

impl Conversation {
    /// A conversation updated now, with nothing unread.
    pub fn new(id: &str, members: Vec<MessageSender>) -> (r: Self)
        ensures
            r.id@ == id@,
            r.members == members,
            r.last_message is None,
            r.unread_count == 0,
            !r.muted,
    {
        Conversation { id: owned(id), members, last_message: None, unread_count: 0, updated_at: Timestamp::now(), muted: false }
    }

    /// The name of the first participant (display name, else handle).
    pub fn other_participant_name(&self) -> (r: Option<String>)
        ensures
            match participant_name(*self) {
                Some(n) => r matches Some(x) && x@ == n,
                None => r is None,
            },
    {
        if self.members.len() == 0 {
            None
        } else {
            let m = &self.members[0];
            match &m.display_name {
                Some(n) => Some(owned(n.as_str())),
                None => Some(owned(m.handle.as_str())),
            }
        }
    }

    /// Whether there are unread messages.
    pub fn has_unread(&self) -> (r: bool)
        ensures
            r == (self.unread_count > 0),
    {
        self.unread_count > 0
    }

    /// Marks every message as read.
    pub fn mark_read(&mut self)
        ensures
            *final(self) == (Conversation { unread_count: 0, ..*old(self) }),
    {
        self.unread_count = 0;
    }
}

/// Response to sending a message.
#[derive(Debug, Clone)]
pub struct SendMessageResponse {
    /// ID of the message
    pub message_id: String,
    /// When it was sent
    pub sent_at: Timestamp,
}

/// Response to creating a conversation.
#[derive(Debug, Clone)]
pub struct CreateConversationResponse {
    /// ID of the conversation
    pub conversation_id: String,
    /// The conversation
    pub conversation: Conversation,
}

/// A page of conversations.
#[derive(Debug, Clone)]
pub struct ListConversationsResponse {
    /// The conversations
    pub conversations: Vec<Conversation>,
    /// Cursor of the next page
    pub cursor: Option<String>,
}

/// A page of messages.
#[derive(Debug, Clone)]
pub struct ListMessagesResponse {
    /// The messages
    pub messages: Vec<Message>,
    /// Cursor of the next page
    pub cursor: Option<String>,
}

/// `q` occurs in the lower-cased `s`.
pub open spec fn lower_contains(s: Seq<char>, q: Seq<char>) -> bool {
    occurs(lowercase(s), q)
}

/// Some participant's display name or handle, lower-cased, holds `q`.
pub open spec fn any_member_matches(ms: Seq<MessageSender>, q: Seq<char>) -> bool {
    exists|i: int| 0 <= i < ms.len() && ((#[trigger] ms[i]).display_name matches Some(n) && lower_contains(
        n@,
        q,
    ) || lower_contains(ms[i].handle@, q))
}

/// A conversation passes the inbox filter: unread if asked, not muted if asked, and, for a search,
/// some participant's name or handle, or the last message, holds the lower-cased query.
pub open spec fn conversation_passes(c: Conversation, f: InboxFilter) -> bool {
    &&& !(f.only_unread && c.unread_count == 0)
    &&& !(f.exclude_muted && c.muted)
    &&& match f.search_query {
        Some(q) => any_member_matches(c.members@, lowercase(q@)) || (c.last_message matches Some(m)
            && lower_contains(m.text@, lowercase(q@))),
        None => true,
    }
}

/// The conversations that pass the filter, in order.
pub open spec fn filter_conversations(s: Seq<Conversation>, f: InboxFilter) -> Seq<Conversation>
    decreases s.len(),
{
    if s.len() == 0 {
        s
    } else {
        let rest = filter_conversations(s.drop_last(), f);
        if conversation_passes(s.last(), f) {
            rest.push(s.last())
        } else {
            rest
        }
    }
}

/// The conversations with (`unread`) or without unread messages, in order.
pub open spec fn by_unread(s: Seq<Conversation>, unread: bool) -> Seq<Conversation>
    decreases s.len(),
{
    if s.len() == 0 {
        s
    } else {
        let rest = by_unread(s.drop_last(), unread);
        if (s.last().unread_count > 0) == unread {
            rest.push(s.last())
        } else {
            rest
        }
    }
}

/// The number of conversations with unread messages.
pub open spec fn unread_conversation_count(s: Seq<Conversation>) -> int {
    by_unread(s, true).len() as int
}

/// The total number of unread messages.
pub open spec fn total_unread_of(s: Seq<Conversation>) -> int
    decreases s.len(),
{
    if s.len() == 0 {
        0
    } else {
        total_unread_of(s.drop_last()) + s.last().unread_count
    }
}

/// The references seen as the values they point to.
pub open spec fn conversation_derefs(s: Seq<&Conversation>) -> Seq<Conversation> {
    s.map_values(|x: &Conversation| *x)
}

/// The lower-cased name of a conversation's first participant (empty when there is none).
pub open spec fn lowered_name(c: Conversation) -> Seq<char> {
    lowercase(
        match participant_name(c) {
            Some(n) => n,
            None => Seq::empty(),
        },
    )
}

/// The key by which `sort_by` orders a conversation, compared lexicographically: the negated
/// update time (most recent first); the negated unread count, then the negated update time
/// (unread first, more unread first, then most recent); or the character codes of the
/// lower-cased name of the first participant.
pub open spec fn sort_key(c: Conversation, by: ConversationSortBy) -> Seq<i128> {
    let t = seq![(-(c.updated_at.secs as int)) as i128, (-(c.updated_at.nanos as int)) as i128];
    match by {
        ConversationSortBy::Recent => t,
        ConversationSortBy::Unread => seq![(-(c.unread_count as int)) as i128] + t,
        ConversationSortBy::Name => char_codes(lowered_name(c)),
    }
}

/// Conversations paired with their sorting keys.
pub open spec fn keyed_for(s: Seq<Conversation>, by: ConversationSortBy) -> Seq<(Seq<i128>, Conversation)> {
    keyed_by(s, |c: Conversation| sort_key(c, by))
}

/// The conversations as `sort_by` leaves them.
pub open spec fn sorted_conversations(s: Seq<Conversation>, by: ConversationSortBy) -> Seq<Conversation> {
    values_of(sort_by_key(keyed_for(s, by)))
}

/// `a` may come before `b` in the inbox's order: by `Recent`, `b` was updated no later; by
/// `Unread`, `b` has fewer unread messages, or as many and was updated no later; by `Name`, the
/// lower-cased name of `a` comes first or equal.
pub open spec fn conversation_order(a: Conversation, b: Conversation, by: ConversationSortBy) -> bool {
    match by {
        ConversationSortBy::Recent => no_later(b.updated_at, a.updated_at),
        ConversationSortBy::Unread => b.unread_count < a.unread_count || (b.unread_count == a.unread_count
            && no_later(b.updated_at, a.updated_at)),
        ConversationSortBy::Name => lex_le(char_codes(lowered_name(a)), char_codes(lowered_name(b))),
    }
}

proof fn lemma_sort_key_order(a: Conversation, b: Conversation, by: ConversationSortBy)
    requires
        lex_le(sort_key(a, by), sort_key(b, by)),
    ensures
        conversation_order(a, b, by),
{
    reveal_with_fuel(lex_le, 4);
    let ka = sort_key(a, by);
    let kb = sort_key(b, by);
    match by {
        ConversationSortBy::Recent => {
            assert(ka.drop_first() =~= seq![(-(a.updated_at.nanos as int)) as i128]);
            assert(kb.drop_first() =~= seq![(-(b.updated_at.nanos as int)) as i128]);
            assert(ka.drop_first().drop_first() =~= Seq::<i128>::empty());
        },
        ConversationSortBy::Unread => {
            let ta = seq![(-(a.updated_at.secs as int)) as i128, (-(a.updated_at.nanos as int)) as i128];
            let tb = seq![(-(b.updated_at.secs as int)) as i128, (-(b.updated_at.nanos as int)) as i128];
            assert(ka.drop_first() =~= ta);
            assert(kb.drop_first() =~= tb);
            assert(ta.drop_first() =~= seq![(-(a.updated_at.nanos as int)) as i128]);
            assert(tb.drop_first() =~= seq![(-(b.updated_at.nanos as int)) as i128]);
            assert(ta.drop_first().drop_first() =~= Seq::<i128>::empty());
        },
        ConversationSortBy::Name => {},
    }
}

/// Sorting an inbox keeps every conversation, as often as it occurred, and puts them in order:
/// each conversation may come before every later one (see `conversation_order`).
pub proof fn law_inbox_sort_orders(s: Seq<Conversation>, by: ConversationSortBy)
    ensures
        sorted_conversations(s, by).to_multiset() == s.to_multiset(),
        sorted_conversations(s, by).len() == s.len(),
        forall|i: int, j: int|
            0 <= i < j < s.len() ==> conversation_order(
                #[trigger] sorted_conversations(s, by)[i],
                #[trigger] sorted_conversations(s, by)[j],
                by,
            ),
{
    let key = |c: Conversation| sort_key(c, by);
    lemma_sorted_by(s, key);
    let r = sorted_conversations(s, by);
    assert forall|i: int, j: int| 0 <= i < j < s.len() implies conversation_order(#[trigger] r[i], #[trigger] r[j], by) by {
        assert(lex_le(key(r[i]), key(r[j])));
        lemma_sort_key_order(r[i], r[j], by);
    }
}

/// The sorting key of a conversation (see `sort_key`).
fn sort_key_exec(c: &Conversation, by: ConversationSortBy) -> (r: Vec<i128>)
    ensures
        r@ == sort_key(*c, by),
{
    let mut v: Vec<i128> = Vec::new();
    match by {
        ConversationSortBy::Recent => {
            v.push(-(c.updated_at.secs as i128));
            v.push(-(c.updated_at.nanos as i128));
            assert(v@ =~= sort_key(*c, by));
            v
        },
        ConversationSortBy::Unread => {
            v.push(-(c.unread_count as i128));
            v.push(-(c.updated_at.secs as i128));
            v.push(-(c.updated_at.nanos as i128));
            assert(v@ =~= sort_key(*c, by));
            v
        },
        ConversationSortBy::Name => {
            let name = match c.other_participant_name() {
                Some(x) => x,
                None => String::new(),
            };
            proof {
                if participant_name(*c) is None {
                    assert(name@ =~= Seq::<char>::empty());
                }
            }
            let lower = to_lowercase(name.as_str());
            char_codes_exec(lower.as_str())
        },
    }
}

/// Whether `m` is a member that holds `q`.
fn member_matches(m: &MessageSender, q: &str) -> (r: bool)
    ensures
        r == (m.display_name matches Some(n) && lower_contains(n@, q@) || lower_contains(m.handle@, q@)),
{
    let qc = chars_of(q);
    let by_name = match &m.display_name {
        Some(n) => {
            let l = to_lowercase(n.as_str());
            let lc = chars_of(l.as_str());
            contains(lc.as_slice(), qc.as_slice())
        },
        None => false,
    };
    if by_name {
        return true;
    }
    let h = to_lowercase(m.handle.as_str());
    let hc = chars_of(h.as_str());
    contains(hc.as_slice(), qc.as_slice())
}

/// Whether the conversation passes the filter (see `conversation_passes`).
fn passes(c: &Conversation, f: &InboxFilter) -> (r: bool)
    ensures
        r == conversation_passes(*c, *f),
{
    if f.only_unread && c.unread_count == 0 {
        return false;
    }
    if f.exclude_muted && c.muted {
        return false;
    }
    match &f.search_query {
        None => true,
        Some(q) => {
            let ql = to_lowercase(q.as_str());
            let mut i: usize = 0;
            let mut found = false;
            while i < c.members.len()
                invariant
                    i <= c.members@.len(),
                    found == exists|k: int| 0 <= k < i && ((#[trigger] c.members@[k]).display_name matches Some(n)
                        && lower_contains(n@, ql@) || lower_contains(c.members@[k].handle@, ql@)),
                decreases c.members@.len() - i,
            {
                if member_matches(&c.members[i], ql.as_str()) {
                    found = true;
                }
                i += 1;
            }
            if found {
                return true;
            }
            match &c.last_message {
                Some(m) => {
                    let t = to_lowercase(m.text.as_str());
                    let tc = chars_of(t.as_str());
                    let qc = chars_of(ql.as_str());
                    contains(tc.as_slice(), qc.as_slice())
                },
                None => false,
            }
        },
    }
}

/// The conversations of the inbox.
pub struct InboxView {
    conversations: Vec<Conversation>,
}

impl InboxView {
    /// The conversations, in the inbox's order.
    pub closed spec fn view(&self) -> Seq<Conversation> {
        self.conversations@
    }

    /// An inbox of these conversations.
    pub fn new(conversations: Vec<Conversation>) -> (r: Self)
        ensures
            r@ == conversations@,
    {
        InboxView { conversations }
    }

    /// The conversations.
    pub fn conversations(&self) -> (r: &[Conversation])
        ensures
            r@ == self@,
    {
        self.conversations.as_slice()
    }

    /// The conversations, to change.
    pub fn conversations_mut(&mut self) -> (r: &mut Vec<Conversation>)
        ensures
            r@ == old(self)@,
            final(self)@ == final(r)@,
    {
        &mut self.conversations
    }

    /// Sorts the conversations, stably: most recently updated first; unread first, by more
    /// unread messages, then most recent; or by the lower-cased name of the first participant
    /// (see `sort_key`). Every conversation is kept.
    pub fn sort_by(&mut self, sort_by: ConversationSortBy)
        ensures
            final(self)@ == sorted_conversations(old(self)@, sort_by),
            final(self)@.to_multiset() == old(self)@.to_multiset(),
    {
        let mut convs: Vec<Conversation> = Vec::new();
        core::mem::swap(&mut convs, &mut self.conversations);
        let ghost orig = convs@;
        let mut keyed: Vec<(Vec<i128>, Conversation)> = Vec::new();
        let mut k: usize = 0;
        let n = convs.len();
        assert(convs@ =~= orig.skip(0));
        while convs.len() > 0
            invariant
                k + convs@.len() == orig.len(),
                orig.len() == n,
                convs@ == orig.skip(k as int),
                key_views(keyed@) == keyed_for(orig.take(k as int), sort_by),
            decreases convs.len(),
        {
            let c = convs.remove(0);
            assert(c == orig[k as int]);
            assert(convs@ =~= orig.skip(k + 1));
            let key = sort_key_exec(&c, sort_by);
            let ghost kv = key_views(keyed@);
            keyed.push((key, c));
            assert(key_views(keyed@) =~= kv.push((key@, c)));
            assert(key_views(keyed@) =~= keyed_for(orig.take(k + 1), sort_by));
            k += 1;
        }
        assert(orig.take(orig.len() as int) =~= orig);
        let ghost kv = key_views(keyed@);
        let sorted = sort_by_keys(keyed);
        proof {
            crate::sorting::lemma_sort_by_key_perm(kv);
            assert(values_of(kv) =~= orig);
        }
        self.conversations = drop_keys(sorted);
    }

    /// The conversations that pass the filter (see `conversation_passes`), in order.
    pub fn filter(&self, filter: &InboxFilter) -> (r: Vec<&Conversation>)
        ensures
            conversation_derefs(r@) == filter_conversations(self@, *filter),
    {
        let mut out: Vec<&Conversation> = Vec::new();
        let mut i: usize = 0;
        assert(conversation_derefs(out@) =~= filter_conversations(self@.take(0), *filter));
        while i < self.conversations.len()
            invariant
                i <= self@.len(),
                conversation_derefs(out@) == filter_conversations(self@.take(i as int), *filter),
            decreases self@.len() - i,
        {
            assert(self@.take(i + 1).drop_last() =~= self@.take(i as int));
            assert(self@.take(i + 1).last() == self@[i as int]);
            let c = &self.conversations[i];
            if passes(c, filter) {
                let ghost o = out@;
                out.push(c);
                assert(conversation_derefs(out@) =~= conversation_derefs(o).push(*c));
            }
            i += 1;
        }
        assert(self@.take(self@.len() as int) =~= self@);
        out
    }

    /// The number of conversations, of those with unread messages, and of unread messages.
    pub fn stats(&self) -> (r: InboxStats)
        requires
            total_unread_of(self@) <= u32::MAX,
        ensures
            r.total_conversations == self@.len(),
            r.unread_conversations == unread_conversation_count(self@),
            r.total_unread == total_unread_of(self@),
    {
        let unread = self.unread_conversations();
        let mut total: u32 = 0;
        let mut i: usize = 0;
        while i < self.conversations.len()
            invariant
                i <= self@.len(),
                total == total_unread_of(self@.take(i as int)),
                total_unread_of(self@) <= u32::MAX,
            decreases self@.len() - i,
        {
            assert(self@.take(i + 1).drop_last() =~= self@.take(i as int));
            proof {
                lemma_total_unread_prefix(self@, i + 1);
            }
            total = total + self.conversations[i].unread_count;
            i += 1;
        }
        assert(self@.take(self@.len() as int) =~= self@);
        InboxStats { total_conversations: self.conversations.len(), unread_conversations: unread.len(), total_unread: total }
    }

    /// The preview of a conversation.
    pub fn conversation_preview(&self, conversation: &Conversation) -> (r: ConversationPreview)
        requires
            preview_ok(*conversation),
        ensures
            preview_of(*conversation, r),
    {
        ConversationPreview::from_conversation(conversation)
    }

    /// The conversations with unread messages, in order.
    pub fn unread_conversations(&self) -> (r: Vec<&Conversation>)
        ensures
            conversation_derefs(r@) == by_unread(self@, true),
    {
        self.select_unread(true)
    }

    /// The conversations without unread messages, in order.
    pub fn read_conversations(&self) -> (r: Vec<&Conversation>)
        ensures
            conversation_derefs(r@) == by_unread(self@, false),
    {
        self.select_unread(false)
    }

    fn select_unread(&self, unread: bool) -> (r: Vec<&Conversation>)
        ensures
            conversation_derefs(r@) == by_unread(self@, unread),
    {
        let mut out: Vec<&Conversation> = Vec::new();
        let mut i: usize = 0;
        assert(conversation_derefs(out@) =~= by_unread(self@.take(0), unread));
        while i < self.conversations.len()
            invariant
                i <= self@.len(),
                conversation_derefs(out@) == by_unread(self@.take(i as int), unread),
            decreases self@.len() - i,
        {
            assert(self@.take(i + 1).drop_last() =~= self@.take(i as int));
            assert(self@.take(i + 1).last() == self@[i as int]);
            let c = &self.conversations[i];
            if (c.unread_count > 0) == unread {
                let ghost o = out@;
                out.push(c);
                assert(conversation_derefs(out@) =~= conversation_derefs(o).push(*c));
            }
            i += 1;
        }
        assert(self@.take(self@.len() as int) =~= self@);
        out
    }
}

proof fn lemma_total_unread_prefix(s: Seq<Conversation>, k: int)
    requires
        0 <= k <= s.len(),
    ensures
        total_unread_of(s.take(k)) <= total_unread_of(s),
    decreases s.len() - k,
{
    if k < s.len() {
        lemma_total_unread_prefix(s, k + 1);
        assert(s.take(k + 1).drop_last() =~= s.take(k));
    } else {
        assert(s.take(k) =~= s);
    }
}

/// The title of a conversation: the first participant's name in a one-to-one conversation
/// (`Unknown` when there is none), else the names of the first three participants joined by `, `.
pub open spec fn title_of(c: Conversation) -> Seq<char> {
    if c.members@.len() == 1 {
        sender_name(c.members@[0])
    } else {
        crate::text::join(
            c.members@.take(if c.members@.len() < 3 { c.members@.len() as int } else { 3 }).map_values(
                |m: MessageSender| sender_name(m),
            ),
            ", "@,
        )
    }
}

/// The preview text can be cut: a last message longer than 100 bytes has a character boundary
/// at its 100th byte.
pub open spec fn preview_ok(c: Conversation) -> bool {
    c.last_message matches Some(m) ==> (utf8_len(m.text@) > 100 ==> is_boundary(m.text@, 100))
}

/// What a preview holds; its relative time is the age of the last update at the time read
/// from the clock (see `age_text`).
pub open spec fn preview_of(c: Conversation, p: ConversationPreview) -> bool {
    &&& p.conversation_id@ == c.id@
    &&& exists|now: Timestamp| p.relative_time@ == #[trigger] age_text(now, c.updated_at)
    &&& p.title@ == title_of(c)
    &&& match c.last_message {
        Some(m) => truncated_spec(m.text@, 100, p.preview_text@),
        None => p.preview_text@ == "No messages yet"@,
    }
    &&& p.has_unread == (c.unread_count > 0)
    &&& p.unread_count == c.unread_count
    &&& p.is_muted == c.muted
}

impl ConversationPreview {
    /// The preview of a conversation: its title, the start of its last message (cut at 100
    /// bytes, followed by `...`), how long ago it was updated, and its unread state.
    pub fn from_conversation(conversation: &Conversation) -> (r: Self)
        requires
            preview_ok(*conversation),
        ensures
            preview_of(*conversation, r),
    {
        let title = if conversation.members.len() == 1 {
            match conversation.other_participant_name() {
                Some(n) => n,
                None => owned("Unknown"),
            }
        } else {
            let mut names: Vec<String> = Vec::new();
            let lim: usize = if conversation.members.len() < 3 {
                conversation.members.len()
            } else {
                3
            };
            let mut i: usize = 0;
            while i < lim
                invariant
                    i <= lim <= conversation.members@.len(),
                    crate::text::string_views(names@) == conversation.members@.take(i as int).map_values(
                        |m: MessageSender| sender_name(m),
                    ),
                decreases lim - i,
            {
                let m = &conversation.members[i];
                let n = match &m.display_name {
                    Some(d) => owned(d.as_str()),
                    None => owned(m.handle.as_str()),
                };
                assert(n@ == sender_name(conversation.members@[i as int]));
                assert(conversation.members@.take(i + 1) =~= conversation.members@.take(i as int).push(
                    conversation.members@[i as int],
                ));
                let ghost before = names@;
                names.push(n);
                assert(crate::text::string_views(names@) =~= crate::text::string_views(before).push(n@));
                assert(conversation.members@.take(i + 1).map_values(|m: MessageSender| sender_name(m))
                    =~= conversation.members@.take(i as int).map_values(|m: MessageSender| sender_name(m)).push(
                    sender_name(conversation.members@[i as int]),
                ));
                assert(crate::text::string_views(names@) =~= conversation.members@.take(i + 1).map_values(
                    |m: MessageSender| sender_name(m),
                ));
                i += 1;
            }
            crate::text::join_strings(names.as_slice(), ", ")
        };
        let preview_text = match &conversation.last_message {
            Some(m) => crate::link_preview::truncate_text(m.text.as_str(), 100),
            None => owned("No messages yet"),
        };
        let relative_time = format_relative_time(&conversation.updated_at);
        ConversationPreview {
            conversation_id: owned(conversation.id.as_str()),
            title,
            preview_text,
            relative_time,
            has_unread: conversation.unread_count > 0,
            unread_count: conversation.unread_count,
            is_muted: conversation.muted,
        }
    }
}

/// How long ago something happened, for an age of `secs` whole seconds; `None` past four
/// weeks, when the date is shown instead.
pub open spec fn relative_time_spec(secs: int) -> Option<Seq<char>> {
    if secs < 60 {
        Some("Just now"@)
    } else if secs / 60 < 60 {
        if secs / 60 == 1 {
            Some("1 minute ago"@)
        } else {
            Some(decimal((secs / 60) as nat) + " minutes ago"@)
        }
    } else if secs / 3600 < 24 {
        if secs / 3600 == 1 {
            Some("1 hour ago"@)
        } else {
            Some(decimal((secs / 3600) as nat) + " hours ago"@)
        }
    } else if secs / 86400 == 1 {
        Some("Yesterday"@)
    } else if secs / 86400 < 7 {
        Some(decimal((secs / 86400) as nat) + " days ago"@)
    } else if secs / 86400 / 7 == 1 {
        Some("1 week ago"@)
    } else if secs / 86400 / 7 < 4 {
        Some(decimal((secs / 86400 / 7) as nat) + " weeks ago"@)
    } else {
        None
    }
}

/// How long ago something happened, given its age in whole seconds (see `relative_time_spec`).
pub fn relative_time_text(secs: i128) -> (r: Option<String>)
    ensures
        match relative_time_spec(secs as int) {
            Some(t) => r matches Some(x) && x@ == t,
            None => r is None,
        },
{
    if secs < 60 {
        Some(owned("Just now"))
    } else if secs / 60 < 60 {
        let m = secs / 60;
        if m == 1 {
            Some(owned("1 minute ago"))
        } else {
            let d = decimal_string(m as u64);
            Some(concat2(d.as_str(), " minutes ago"))
        }
    } else if secs / 3600 < 24 {
        let h = secs / 3600;
        if h == 1 {
            Some(owned("1 hour ago"))
        } else {
            let d = decimal_string(h as u64);
            Some(concat2(d.as_str(), " hours ago"))
        }
    } else if secs / 86400 == 1 {
        Some(owned("Yesterday"))
    } else if secs / 86400 < 7 {
        let d = decimal_string((secs / 86400) as u64);
        Some(concat2(d.as_str(), " days ago"))
    } else if secs / 86400 / 7 == 1 {
        Some(owned("1 week ago"))
    } else if secs / 86400 / 7 < 4 {
        let d = decimal_string((secs / 86400 / 7) as u64);
        Some(concat2(d.as_str(), " weeks ago"))
    } else {
        None
    }
}

/// The whole seconds elapsed from `(s0, n0)` to `(s1, n1)` (seconds and nanoseconds), rounded
/// towards zero as chrono's `TimeDelta::num_seconds` does.
pub open spec fn elapsed_secs(s0: int, n0: int, s1: int, n1: int) -> int {
    let total = (s1 - s0) * 1_000_000_000 + (n1 - n0);
    if total >= 0 {
        total / 1_000_000_000
    } else {
        -((-total) / 1_000_000_000)
    }
}

/// The whole seconds from `then` to `now`.
pub open spec fn elapsed_between(then: Timestamp, now: Timestamp) -> int {
    elapsed_secs(then.secs as int, then.nanos as int, now.secs as int, now.nanos as int)
}

/// What is shown at `now` for the time `then`: how long ago it was (see `relative_time_spec`),
/// else its date (see `date_format`), else nothing when chrono holds no such date.
pub open spec fn age_text(now: Timestamp, then: Timestamp) -> Seq<char> {
    match relative_time_spec(elapsed_between(then, now)) {
        Some(t) => t,
        None => match date_format(then.secs, then.nanos) {
            Some(d) => d,
            None => Seq::empty(),
        },
    }
}

/// How long before `now` the time `timestamp` was (see `age_text`).
pub fn relative_time_at(now: Timestamp, timestamp: Timestamp) -> (r: String)
    ensures
        r@ == age_text(now, timestamp),
{
    let s1 = now.secs as i128;
    let n1 = now.nanos as i128;
    let s0 = timestamp.secs as i128;
    let n0 = timestamp.nanos as i128;
    let total: i128 = (s1 - s0) * 1_000_000_000 + (n1 - n0);
    let secs: i128 = if total >= 0 {
        total / 1_000_000_000
    } else {
        -((-total) / 1_000_000_000)
    };
    match relative_time_text(secs) {
        Some(t) => t,
        None => match date_text(timestamp.secs, timestamp.nanos) {
            Some(d) => d,
            None => String::new(),
        },
    }
}

/// How long ago `timestamp` was, by the clock: `Just now`, minutes, hours, `Yesterday`, days or
/// weeks ago, or the date for older times (see `age_text`, at the time read from the clock).
pub fn format_relative_time(timestamp: &Timestamp) -> (r: String)
    ensures
        exists|now: Timestamp| r@ == age_text(now, *timestamp),
{
    let now = Timestamp::now();
    relative_time_at(now, *timestamp)
}

/// A real-time message event.
#[derive(Debug, Clone)]
pub struct MessageEvent {
    /// Kind of event
    pub event_type: MessageEventType,
    /// Conversation concerned
    pub conversation_id: String,
    /// The message, for new messages
    pub message: Option<Message>,
    /// Typing state, for typing events
    pub typing: Option<TypingIndicator>,
    /// When it happened
    pub timestamp: Timestamp,
}

impl MessageEvent {
    /// An event happening now, with no message or typing state.
    pub fn new(event_type: MessageEventType, conversation_id: &str) -> (r: Self)
        ensures
            r.event_type == event_type,
            r.conversation_id@ == conversation_id@,
            r.message is None,
            r.typing is None,
    {
        MessageEvent { event_type, conversation_id: owned(conversation_id), message: None, typing: None, timestamp: Timestamp::now() }
    }

    /// The same event carrying a message.
    pub fn with_message(self, message: Message) -> (r: Self)
        ensures
            r == (MessageEvent { message: Some(message), ..self }),
    {
        MessageEvent { message: Some(message), ..self }
    }

    /// The same event carrying a typing state.
    pub fn with_typing(self, typing: TypingIndicator) -> (r: Self)
        ensures
            r == (MessageEvent { typing: Some(typing), ..self }),
    {
        MessageEvent { typing: Some(typing), ..self }
    }
}


/// A copy of an optional string.
fn copy_opt_string(o: &Option<String>) -> (r: Option<String>)
    ensures
        r == *o,
{
    match o {
        Some(x) => Some(x.clone()),
        None => None,
    }
}

/// A copy of a participant.
fn copy_sender(m: &MessageSender) -> (r: MessageSender)
    ensures
        r == *m,
{
    MessageSender {
        did: m.did.clone(),
        handle: m.handle.clone(),
        display_name: copy_opt_string(&m.display_name),
        avatar: copy_opt_string(&m.avatar),
    }
}

/// A copy of a message.
fn copy_message(m: &Message) -> (r: Message)
    ensures
        r == *m,
{
    Message {
        id: m.id.clone(),
        text: m.text.clone(),
        sender: copy_sender(&m.sender),
        sent_at: m.sent_at,
        is_from_self: m.is_from_self,
    }
}

/// The conversations that have a last message, in order.
pub open spec fn with_last_message(s: Seq<Conversation>) -> Seq<Conversation>
    decreases s.len(),
{
    if s.len() == 0 {
        s
    } else {
        let rest = with_last_message(s.drop_last());
        if s.last().last_message is Some {
            rest.push(s.last())
        } else {
            rest
        }
    }
}

/// The event announcing the last message of a conversation: a new message in it, the message
/// carried with no mark of who sent it.
pub open spec fn announces(e: MessageEvent, c: Conversation) -> bool {
    &&& e.event_type == MessageEventType::NewMessage
    &&& e.conversation_id@ == c.id@
    &&& c.last_message matches Some(m) && e.message == Some(Message { is_from_self: None, ..m })
    &&& e.typing is None
}

/// The events a polled list of conversations gives: one new-message event, in order, for each
/// conversation that has a last message.
pub fn events_from_conversations(conversations: Vec<Conversation>) -> (r: Vec<MessageEvent>)
    ensures
        r@.len() == with_last_message(conversations@).len(),
        forall|k: int| 0 <= k < r@.len() ==> announces(#[trigger] r@[k], with_last_message(conversations@)[k]),
{
    let ghost orig = conversations@;
    let mut src = conversations;
    let mut out: Vec<MessageEvent> = Vec::new();
    let mut k: usize = 0;
    let n = src.len();
    assert(src@ =~= orig.skip(0));
    while src.len() > 0
        invariant
            k + src@.len() == orig.len(),
            orig.len() == n,
            src@ == orig.skip(k as int),
            out@.len() == with_last_message(orig.take(k as int)).len(),
            forall|j: int| 0 <= j < out@.len() ==> announces(#[trigger] out@[j], with_last_message(orig.take(k as int))[j]),
        decreases src.len(),
    {
        let c = src.remove(0);
        assert(c == orig[k as int]);
        assert(src@ =~= orig.skip(k + 1));
        assert(orig.take(k + 1).drop_last() =~= orig.take(k as int));
        match c.last_message {
            Some(lm) => {
                let msg = Message { is_from_self: None, ..lm };
                let e = MessageEvent::new(MessageEventType::NewMessage, c.id.as_str()).with_message(msg);
                out.push(e);
            },
            None => {},
        }
        k += 1;
    }
    assert(orig.take(orig.len() as int) =~= orig);
    out
}

/// The answer to starting the event listener in a connection mode: polling starts; a WebSocket
/// is refused as not implemented.
pub fn check_connection_mode(mode: ConnectionMode) -> (r: Result<(), MessageError>)
    ensures
        mode == ConnectionMode::Polling ==> r is Ok,
        mode == ConnectionMode::WebSocket ==> (r matches Err(MessageError::Xrpc(m)) && m@
            == "WebSocket mode not yet implemented"@),
{
    match mode {
        ConnectionMode::Polling => Ok(()),
        ConnectionMode::WebSocket => Err(MessageError::Xrpc(owned("WebSocket mode not yet implemented"))),
    }
}

/// A request to talk from an account the viewer does not follow.
#[derive(Debug, Clone, PartialEq, Eq)]
pub struct MessageRequest {
    /// Request ID
    pub id: String,
    /// Sender
    pub sender: MessageSender,
    /// Start of the message
    pub message_preview: Option<String>,
    /// When it arrived
    pub received_at: Timestamp,
    /// Its state
    pub status: MessageRequestStatus,
    /// The conversation, once accepted
    pub conversation_id: Option<String>,
}

impl MessageRequest {
    /// A pending request with no preview.
    pub fn new(id: &str, sender: MessageSender, received_at: Timestamp) -> (r: Self)
        ensures
            r.id@ == id@,
            r.sender == sender,
            r.message_preview is None,
            r.received_at == received_at,
            r.status == MessageRequestStatus::Pending,
            r.conversation_id is None,
    {
        MessageRequest {
            id: owned(id),
            sender,
            message_preview: None,
            received_at,
            status: MessageRequestStatus::Pending,
            conversation_id: None,
        }
    }

    /// Whether it awaits an answer.
    pub fn is_pending(&self) -> (r: bool)
        ensures
            r == (self.status == MessageRequestStatus::Pending),
    {
        matches!(self.status, MessageRequestStatus::Pending)
    }

    /// Whether it was accepted.
    pub fn is_accepted(&self) -> (r: bool)
        ensures
            r == (self.status == MessageRequestStatus::Accepted),
    {
        matches!(self.status, MessageRequestStatus::Accepted)
    }

    /// Whether it was declined.
    pub fn is_declined(&self) -> (r: bool)
        ensures
            r == (self.status == MessageRequestStatus::Declined),
    {
        matches!(self.status, MessageRequestStatus::Declined)
    }
}

/// A page of message requests.
#[derive(Debug, Clone)]
pub struct ListMessageRequestsResponse {
    /// The requests
    pub requests: Vec<MessageRequest>,
    /// Cursor of the next page
    pub cursor: Option<String>,
}

/// A request passes the filter: in the asked state, and, for a search, the sender's display name
/// or handle, or the preview, lower-cased, holds the lower-cased query.
pub open spec fn request_passes(r: MessageRequest, f: MessageRequestFilter) -> bool {
    &&& match f.status {
        Some(st) => r.status == st,
        None => true,
    }
    &&& match f.search_query {
        Some(q) => (r.sender.display_name matches Some(n) && lower_contains(n@, lowercase(q@)))
            || lower_contains(r.sender.handle@, lowercase(q@)) || (r.message_preview matches Some(p)
            && lower_contains(p@, lowercase(q@))),
        None => true,
    }
}

/// The requests that pass the filter, in order.
pub open spec fn passing_requests(s: Seq<MessageRequest>, f: MessageRequestFilter) -> Seq<MessageRequest>
    decreases s.len(),
{
    if s.len() == 0 {
        s
    } else {
        let rest = passing_requests(s.drop_last(), f);
        if request_passes(s.last(), f) {
            rest.push(s.last())
        } else {
            rest
        }
    }
}

/// What the filter shows: the passing requests, at most `limit` of them.
pub open spec fn filter_requests(s: Seq<MessageRequest>, f: MessageRequestFilter) -> Seq<MessageRequest> {
    let all = passing_requests(s, f);
    match f.limit {
        Some(l) => if all.len() > l {
            all.take(l as int)
        } else {
            all
        },
        None => all,
    }
}

/// The requests in a state, in order.
pub open spec fn in_state(s: Seq<MessageRequest>, st: MessageRequestStatus) -> Seq<MessageRequest>
    decreases s.len(),
{
    if s.len() == 0 {
        s
    } else {
        let rest = in_state(s.drop_last(), st);
        if s.last().status == st {
            rest.push(s.last())
        } else {
            rest
        }
    }
}

/// The references seen as the values they point to.
pub open spec fn request_derefs(s: Seq<&MessageRequest>) -> Seq<MessageRequest> {
    s.map_values(|x: &MessageRequest| *x)
}

/// `i` is the first request with this ID.
pub open spec fn first_with_id(s: Seq<MessageRequest>, id: Seq<char>, i: int) -> bool {
    &&& 0 <= i < s.len()
    &&& s[i].id@ == id
    &&& forall|j: int| 0 <= j < i ==> s[j].id@ != id
}

/// `i` is the first request from this sender.
pub open spec fn first_from(s: Seq<MessageRequest>, did: Seq<char>, i: int) -> bool {
    &&& 0 <= i < s.len()
    &&& s[i].sender.did@ == did
    &&& forall|j: int| 0 <= j < i ==> s[j].sender.did@ != did
}

/// A state set on the first request with an ID is what a later lookup of that ID reads back:
/// after the update, that request is still the first with its ID, the only one, and holds the
/// new state.
pub proof fn law_update_then_find(s: Seq<MessageRequest>, id: Seq<char>, st: MessageRequestStatus, i: int)
    requires
        first_with_id(s, id, i),
    ensures
        ({
            let t = s.update(i, MessageRequest { status: st, ..s[i] });
            &&& first_with_id(t, id, i)
            &&& forall|j: int| #[trigger] first_with_id(t, id, j) ==> j == i
            &&& t[i].status == st
        }),
{
    let t = s.update(i, MessageRequest { status: st, ..s[i] });
    assert forall|j: int| #[trigger] first_with_id(t, id, j) implies j == i by {
        if j < i {
            assert(t[j] == s[j]);
        } else if j > i {
            assert(t[i].id@ == id);
        }
    }
}

/// The key by which requests are sorted newest first.
pub open spec fn recent_key(r: MessageRequest) -> Seq<i128> {
    seq![(-(r.received_at.secs as int)) as i128, (-(r.received_at.nanos as int)) as i128]
}

/// The key by which requests are sorted by sender: the lower-cased display name, else handle.
pub open spec fn sender_key(r: MessageRequest) -> Seq<i128> {
    char_codes(lowercase(sender_name(r.sender)))
}

/// Requests paired with their newest-first keys.
pub open spec fn keyed_recent(s: Seq<MessageRequest>) -> Seq<(Seq<i128>, MessageRequest)> {
    keyed_by(s, |r: MessageRequest| recent_key(r))
}

/// Requests paired with their sender keys.
pub open spec fn keyed_sender(s: Seq<MessageRequest>) -> Seq<(Seq<i128>, MessageRequest)> {
    keyed_by(s, |r: MessageRequest| sender_key(r))
}

/// Sorting requests keeps every request, as often as it occurred, and puts them in order:
/// newest first, each received no earlier than every later one; or by sender, the lower-cased
/// names in order.
pub proof fn law_requests_sort_orders(s: Seq<MessageRequest>)
    ensures
        values_of(sort_by_key(keyed_recent(s))).to_multiset() == s.to_multiset(),
        forall|i: int, j: int|
            0 <= i < j < s.len() ==> no_later(
                (#[trigger] values_of(sort_by_key(keyed_recent(s)))[j]).received_at,
                (#[trigger] values_of(sort_by_key(keyed_recent(s)))[i]).received_at,
            ),
        values_of(sort_by_key(keyed_sender(s))).to_multiset() == s.to_multiset(),
        forall|i: int, j: int|
            0 <= i < j < s.len() ==> lex_le(
                sender_key(#[trigger] values_of(sort_by_key(keyed_sender(s)))[i]),
                sender_key(#[trigger] values_of(sort_by_key(keyed_sender(s)))[j]),
            ),
{
    let kr = |r: MessageRequest| recent_key(r);
    let ks = |r: MessageRequest| sender_key(r);
    lemma_sorted_by(s, kr);
    lemma_sorted_by(s, ks);
    let r = values_of(sort_by_key(keyed_recent(s)));
    assert forall|i: int, j: int| 0 <= i < j < s.len() implies no_later(
        (#[trigger] r[j]).received_at,
        (#[trigger] r[i]).received_at,
    ) by {
        assert(lex_le(kr(r[i]), kr(r[j])));
        reveal_with_fuel(lex_le, 3);
        assert(recent_key(r[i]).drop_first() =~= seq![(-(r[i].received_at.nanos as int)) as i128]);
        assert(recent_key(r[j]).drop_first() =~= seq![(-(r[j].received_at.nanos as int)) as i128]);
        assert(recent_key(r[i]).drop_first().drop_first() =~= Seq::<i128>::empty());
    }
    let q = values_of(sort_by_key(keyed_sender(s)));
    assert forall|i: int, j: int| 0 <= i < j < s.len() implies lex_le(
        sender_key(#[trigger] q[i]),
        sender_key(#[trigger] q[j]),
    ) by {
        assert(lex_le(ks(q[i]), ks(q[j])));
    }
}

/// Whether the request passes the filter (see `request_passes`).
fn request_matches(r: &MessageRequest, f: &MessageRequestFilter) -> (b: bool)
    ensures
        b == request_passes(*r, *f),
{
    match f.status {
        Some(st) => {
            if r.status != st {
                return false;
            }
        },
        None => {},
    }
    match &f.search_query {
        None => true,
        Some(q) => {
            let ql = to_lowercase(q.as_str());
            if member_matches(&r.sender, ql.as_str()) {
                return true;
            }
            match &r.message_preview {
                Some(p) => {
                    let t = to_lowercase(p.as_str());
                    let tc = chars_of(t.as_str());
                    let qc = chars_of(ql.as_str());
                    contains(tc.as_slice(), qc.as_slice())
                },
                None => false,
            }
        },
    }
}

/// The incoming message requests.
pub struct MessageRequestQueue {
    requests: Vec<MessageRequest>,
}

impl MessageRequestQueue {
    /// The requests, in the queue's order.
    pub closed spec fn view(&self) -> Seq<MessageRequest> {
        self.requests@
    }

    /// A queue of these requests.
    pub fn new(requests: Vec<MessageRequest>) -> (r: Self)
        ensures
            r@ == requests@,
    {
        MessageRequestQueue { requests }
    }

    /// The requests.
    pub fn requests(&self) -> (r: &[MessageRequest])
        ensures
            r@ == self@,
    {
        self.requests.as_slice()
    }

    /// The requests, to change.
    pub fn requests_mut(&mut self) -> (r: &mut Vec<MessageRequest>)
        ensures
            r@ == old(self)@,
            final(self)@ == final(r)@,
    {
        &mut self.requests
    }

    /// The requests that pass the filter, in order, at most `limit` of them.
    pub fn filter(&self, filter: &MessageRequestFilter) -> (r: Vec<&MessageRequest>)
        ensures
            request_derefs(r@) == filter_requests(self@, *filter),
    {
        let mut out: Vec<&MessageRequest> = Vec::new();
        let mut i: usize = 0;
        assert(request_derefs(out@) =~= passing_requests(self@.take(0), *filter));
        while i < self.requests.len()
            invariant
                i <= self@.len(),
                request_derefs(out@) == passing_requests(self@.take(i as int), *filter),
            decreases self@.len() - i,
        {
            assert(self@.take(i + 1).drop_last() =~= self@.take(i as int));
            assert(self@.take(i + 1).last() == self@[i as int]);
            let c = &self.requests[i];
            if request_matches(c, filter) {
                let ghost o = out@;
                out.push(c);
                assert(request_derefs(out@) =~= request_derefs(o).push(*c));
            }
            i += 1;
        }
        assert(self@.take(self@.len() as int) =~= self@);
        match filter.limit {
            Some(l) => {
                if out.len() > l as usize {
                    let ghost o = out@;
                    out.truncate(l as usize);
                    assert(request_derefs(out@) =~= request_derefs(o).take(l as int));
                }
            },
            None => {},
        }
        out
    }

    /// The requests in a state, in order.
    fn select_state(&self, st: MessageRequestStatus) -> (r: Vec<&MessageRequest>)
        ensures
            request_derefs(r@) == in_state(self@, st),
    {
        let mut out: Vec<&MessageRequest> = Vec::new();
        let mut i: usize = 0;
        assert(request_derefs(out@) =~= in_state(self@.take(0), st));
        while i < self.requests.len()
            invariant
                i <= self@.len(),
                request_derefs(out@) == in_state(self@.take(i as int), st),
            decreases self@.len() - i,
        {
            assert(self@.take(i + 1).drop_last() =~= self@.take(i as int));
            assert(self@.take(i + 1).last() == self@[i as int]);
            let c = &self.requests[i];
            if c.status == st {
                let ghost o = out@;
                out.push(c);
                assert(request_derefs(out@) =~= request_derefs(o).push(*c));
            }
            i += 1;
        }
        assert(self@.take(self@.len() as int) =~= self@);
        out
    }

    /// The pending requests, in order.
    pub fn pending_requests(&self) -> (r: Vec<&MessageRequest>)
        ensures
            request_derefs(r@) == in_state(self@, MessageRequestStatus::Pending),
    {
        self.select_state(MessageRequestStatus::Pending)
    }

    /// The accepted requests, in order.
    pub fn accepted_requests(&self) -> (r: Vec<&MessageRequest>)
        ensures
            request_derefs(r@) == in_state(self@, MessageRequestStatus::Accepted),
    {
        self.select_state(MessageRequestStatus::Accepted)
    }

    /// The declined requests, in order.
    pub fn declined_requests(&self) -> (r: Vec<&MessageRequest>)
        ensures
            request_derefs(r@) == in_state(self@, MessageRequestStatus::Declined),
    {
        self.select_state(MessageRequestStatus::Declined)
    }

    /// The numbers of pending, accepted and declined requests.
    pub fn count_by_status(&self) -> (r: (usize, usize, usize))
        ensures
            r.0 == in_state(self@, MessageRequestStatus::Pending).len(),
            r.1 == in_state(self@, MessageRequestStatus::Accepted).len(),
            r.2 == in_state(self@, MessageRequestStatus::Declined).len(),
    {
        let p = self.select_state(MessageRequestStatus::Pending);
        let a = self.select_state(MessageRequestStatus::Accepted);
        let d = self.select_state(MessageRequestStatus::Declined);
        (p.len(), a.len(), d.len())
    }

    /// The position of the first request with this ID.
    fn position_of(&self, id: &str) -> (r: Option<usize>)
        ensures
            match r {
                Some(i) => first_with_id(self@, id@, i as int),
                None => forall|j: int| 0 <= j < self@.len() ==> self@[j].id@ != id@,
            },
    {
        let mut i: usize = 0;
        while i < self.requests.len()
            invariant
                i <= self@.len(),
                forall|j: int| 0 <= j < i ==> self@[j].id@ != id@,
            decreases self@.len() - i,
        {
            if str_eq(self.requests[i].id.as_str(), id) {
                return Some(i);
            }
            i += 1;
        }
        None
    }

    /// The first request with this ID.
    pub fn find_by_id(&self, id: &str) -> (r: Option<&MessageRequest>)
        ensures
            match r {
                Some(x) => exists|i: int| first_with_id(self@, id@, i) && *x == self@[i],
                None => forall|j: int| 0 <= j < self@.len() ==> self@[j].id@ != id@,
            },
    {
        match self.position_of(id) {
            Some(i) => Some(&self.requests[i]),
            None => None,
        }
    }

    /// The first request from the account with this DID.
    pub fn find_by_sender(&self, did: &str) -> (r: Option<&MessageRequest>)
        ensures
            match r {
                Some(x) => exists|i: int| first_from(self@, did@, i) && *x == self@[i],
                None => forall|j: int| 0 <= j < self@.len() ==> self@[j].sender.did@ != did@,
            },
    {
        let mut i: usize = 0;
        while i < self.requests.len()
            invariant
                i <= self@.len(),
                forall|j: int| 0 <= j < i ==> self@[j].sender.did@ != did@,
            decreases self@.len() - i,
        {
            if str_eq(self.requests[i].sender.did.as_str(), did) {
                return Some(&self.requests[i]);
            }
            i += 1;
        }
        None
    }

    /// Sets the state of the first request with this ID; `false` when there is none.
    pub fn update_status(&mut self, request_id: &str, status: MessageRequestStatus) -> (r: bool)
        ensures
            r == exists|i: int| first_with_id(old(self)@, request_id@, i),
            forall|i: int| first_with_id(old(self)@, request_id@, i) ==> final(self)@ == old(self)@.update(
                i,
                MessageRequest { status, ..old(self)@[i] },
            ),
            !r ==> final(self)@ == old(self)@,
    {
        match self.position_of(request_id) {
            Some(i) => {
                let ghost o = self@;
                let mut req = self.requests.remove(i);
                req.status = status;
                self.requests.insert(i, req);
                assert(self@ =~= o.update(i as int, MessageRequest { status, ..o[i as int] }));
                proof {
                    assert forall|k: int| first_with_id(o, request_id@, k) implies k == i by {
                        if k < i {
                        } else if k > i {
                            assert(o[i as int].id@ == request_id@);
                        }
                    }
                }
                true
            },
            None => false,
        }
    }

    /// Takes out the first request with this ID; `None` when there is none.
    pub fn remove(&mut self, request_id: &str) -> (r: Option<MessageRequest>)
        ensures
            match r {
                Some(x) => exists|i: int| first_with_id(old(self)@, request_id@, i) && x == old(self)@[i]
                    && final(self)@ == old(self)@.remove(i),
                None => final(self)@ == old(self)@ && forall|j: int| 0 <= j < old(self)@.len()
                    ==> old(self)@[j].id@ != request_id@,
            },
    {
        match self.position_of(request_id) {
            Some(i) => Some(self.requests.remove(i)),
            None => None,
        }
    }

    /// Sorts the requests, stably, newest first.
    pub fn sort_by_recent(&mut self)
        ensures
            final(self)@ == values_of(sort_by_key(keyed_recent(old(self)@))),
            final(self)@.to_multiset() == old(self)@.to_multiset(),
    {
        self.sort_with(true);
    }

    /// Sorts the requests, stably, by the lower-cased display name (else handle) of the sender.
    pub fn sort_by_sender(&mut self)
        ensures
            final(self)@ == values_of(sort_by_key(keyed_sender(old(self)@))),
            final(self)@.to_multiset() == old(self)@.to_multiset(),
    {
        self.sort_with(false);
    }

    fn sort_with(&mut self, recent: bool)
        ensures
            recent ==> final(self)@ == values_of(sort_by_key(keyed_recent(old(self)@))),
            !recent ==> final(self)@ == values_of(sort_by_key(keyed_sender(old(self)@))),
            final(self)@.to_multiset() == old(self)@.to_multiset(),
    {
        let mut reqs: Vec<MessageRequest> = Vec::new();
        core::mem::swap(&mut reqs, &mut self.requests);
        let ghost orig = reqs@;
        let ghost target = if recent {
            keyed_recent(orig)
        } else {
            keyed_sender(orig)
        };
        let mut keyed: Vec<(Vec<i128>, MessageRequest)> = Vec::new();
        let mut k: usize = 0;
        let n = reqs.len();
        assert(reqs@ =~= orig.skip(0));
        while reqs.len() > 0
            invariant
                k + reqs@.len() == orig.len(),
                orig.len() == n,
                reqs@ == orig.skip(k as int),
                target == (if recent { keyed_recent(orig) } else { keyed_sender(orig) }),
                key_views(keyed@) == target.take(k as int),
            decreases reqs.len(),
        {
            let c = reqs.remove(0);
            assert(c == orig[k as int]);
            assert(reqs@ =~= orig.skip(k + 1));
            let key: Vec<i128> = if recent {
                let mut v: Vec<i128> = Vec::new();
                v.push(-(c.received_at.secs as i128));
                v.push(-(c.received_at.nanos as i128));
                assert(v@ =~= recent_key(c));
                v
            } else {
                let name: &str = match &c.sender.display_name {
                    Some(d) => d.as_str(),
                    None => c.sender.handle.as_str(),
                };
                let lower = to_lowercase(name);
                char_codes_exec(lower.as_str())
            };
            let ghost kv = key_views(keyed@);
            keyed.push((key, c));
            assert(key_views(keyed@) =~= kv.push((key@, c)));
            assert(key_views(keyed@) =~= target.take(k + 1));
            k += 1;
        }
        assert(target.take(orig.len() as int) =~= target);
        let ghost kv = key_views(keyed@);
        let sorted = sort_by_keys(keyed);
        proof {
            crate::sorting::lemma_sort_by_key_perm(kv);
            assert(values_of(kv) =~= orig);
        }
        self.requests = drop_keys(sorted);
    }
}

/// `i` is the first conversation with this ID.
pub open spec fn first_conversation(s: Seq<Conversation>, id: Seq<char>, i: int) -> bool {
    &&& 0 <= i < s.len()
    &&& s[i].id@ == id
    &&& forall|j: int| 0 <= j < i ==> s[j].id@ != id
}

/// A conversation after an event about it: a new message becomes its last message, its time
/// and one more unread message; a read marks it read; other events leave it as it is.
pub open spec fn after_event(c: Conversation, e: MessageEvent) -> Conversation {
    match e.event_type {
        MessageEventType::NewMessage => match e.message {
            Some(m) => Conversation {
                last_message: Some(m),
                updated_at: m.sent_at,
                unread_count: (c.unread_count + 1) as u32,
                ..c
            },
            None => c,
        },
        MessageEventType::ConversationRead => Conversation { unread_count: 0, ..c },
        _ => c,
    }
}

/// The event can be applied: a new message does not take an unread count past `u32::MAX`.
pub open spec fn event_fits(s: Seq<Conversation>, e: MessageEvent) -> bool {
    forall|i: int| #[trigger] first_conversation(s, e.conversation_id@, i) && e.event_type
        == MessageEventType::NewMessage && e.message is Some ==> s[i].unread_count < u32::MAX
}

/// Keeping an inbox up to date from message events.
pub trait InboxViewExt {
    /// The event can be applied to this inbox.
    spec fn accepts_event(&self, event: &MessageEvent) -> bool;

    /// Applies the event to the first conversation it concerns.
    fn apply_event(&mut self, event: &MessageEvent) -> (r: Result<(), MessageError>)
        requires
            old(self).accepts_event(event),
    ;
}

impl InboxViewExt for InboxView {
    open spec fn accepts_event(&self, event: &MessageEvent) -> bool {
        event_fits(self@, *event)
    }

    /// Applies the event to the first conversation with its conversation ID (see
    /// `after_event`); the others, and an inbox without that conversation, are left as they are.
    fn apply_event(&mut self, event: &MessageEvent) -> (r: Result<(), MessageError>)
        ensures
            r is Ok,
            forall|i: int| first_conversation(old(self)@, event.conversation_id@, i) ==> final(self)@
                == old(self)@.update(i, after_event(old(self)@[i], *event)),
            (forall|j: int| 0 <= j < old(self)@.len() ==> old(self)@[j].id@ != event.conversation_id@)
                ==> final(self)@ == old(self)@,
    {
        let ghost o = self@;
        let mut i: usize = 0;
        while i < self.conversations.len()
            invariant
                i <= self@.len(),
                self@ == o,
                o == old(self)@,
                event_fits(o, *event),
                forall|j: int| 0 <= j < i ==> o[j].id@ != event.conversation_id@,
            decreases self@.len() - i,
        {
            if str_eq(self.conversations[i].id.as_str(), event.conversation_id.as_str()) {
                proof {
                    assert forall|k: int| first_conversation(o, event.conversation_id@, k) implies k == i by {
                        if k > i {
                            assert(o[i as int].id@ == event.conversation_id@);
                        }
                    }
                    assert(first_conversation(o, event.conversation_id@, i as int));
                }
                let mut c = self.conversations.remove(i);
                match event.event_type {
                    MessageEventType::NewMessage => {
                        match &event.message {
                            Some(m) => {
                                c.last_message = Some(copy_message(m));
                                c.updated_at = m.sent_at;
                                c.unread_count = c.unread_count + 1;
                            },
                            None => {},
                        }
                    },
                    MessageEventType::ConversationRead => {
                        c.unread_count = 0;
                    },
                    _ => {},
                }
                self.conversations.insert(i, c);
                assert(self@ =~= o.update(i as int, after_event(o[i as int], *event)));
                assert(o[i as int].id@ == event.conversation_id@);
                return Ok(());
            }
            i += 1;
        }
        Ok(())
    }
}

} // verus!
