//! Conversations, their messages and the tool calls recorded with them.
use vstd::prelude::*;
use vstd::string::StrSliceExecFns;
use crate::hash::is_lower_hex;
use crate::json::Json;
use crate::text::push_char;
use crate::time::{now, Timestamp};

verus! {

/// Who wrote a chat message.
#[derive(Clone, Copy, Debug, PartialEq, Eq, Structural)]
pub enum MessageRole {
    User,
    Assistant,
    System,
}

/// A record of a single MCP tool invocation stored with the message.
#[derive(Clone, Debug, PartialEq, Eq)]
pub struct ToolCallRecord {
    pub name: String,
    pub args: Json,
    pub result: String,
    /// Key of the blob holding `result` when it was moved out of the message.
    pub blob_key: Option<String>,
}

/// A single chat message.
#[derive(Clone, Debug, PartialEq, Eq)]
pub struct Message {
    pub id: String,
    pub role: MessageRole,
    pub content: String,
    /// Tool calls that this message triggered.
    pub tool_calls: Vec<ToolCallRecord>,
    pub created_at: Timestamp,
}

/// A conversation (chat session).
#[derive(Clone, Debug, PartialEq, Eq)]
pub struct Conversation {
    pub id: String,
    pub user_id: String,
    /// Derived from the first user message.
    pub title: String,
    pub messages: Vec<Message>,
    pub created_at: Timestamp,
    pub updated_at: Timestamp,
    /// MCP endpoint used for this conversation.
    pub mcp_url: String,
}

/// Lightweight index entry, one per conversation of a user.
#[derive(Clone, Debug, PartialEq, Eq)]
pub struct ConversationMeta {
    pub id: String,
    pub title: String,
    pub updated_at: Timestamp,
}

impl ConversationMeta {
    /// A copy equal to `self`.
    pub fn duplicate(&self) -> (r: ConversationMeta)
        ensures
            r == *self,
    {
        ConversationMeta { id: self.id.clone(), title: self.title.clone(), updated_at: self.updated_at }
    }
}

/// A user profile: the bcrypt hash of the user's API token is what authenticates them.
#[derive(Clone, Debug, PartialEq, Eq)]
pub struct UserProfile {
    pub id: String,
    pub name: String,
    /// bcrypt hash of the user's API token.
    pub token_hash: String,
    pub created_at: Timestamp,
}

/// `s` is a version-4 UUID in its hyphenated lowercase form: 36 characters, hyphens at
/// positions 8, 13, 18 and 23, lowercase hex digits elsewhere, the version digit `4`
/// at 14 and one of `8`, `9`, `a`, `b` at 19.
pub open spec fn is_uuid_v4_text(s: Seq<char>) -> bool {
    &&& s.len() == 36
    &&& forall|i: int|
        0 <= i < 36 ==> if i == 8 || i == 13 || i == 18 || i == 23 {
            s[i] == '-'
        } else {
            is_lower_hex(#[trigger] s[i])
        }
    &&& s[14] == '4'
    &&& (s[19] == '8' || s[19] == '9' || s[19] == 'a' || s[19] == 'b')
}

/// A fresh random message identifier.
/// Trusted: calls `uuid::Uuid::new_v4()` and renders it with `to_string()`. `new_v4`
/// masks random bits so that the version nibble is 4 and the variant bits are `10`;
/// `Display` writes the hyphenated lowercase form. The value is otherwise random.
#[verifier::external_body]
pub(crate) fn new_message_id() -> (id: String)
    ensures
        is_uuid_v4_text(id@),
{
    uuid::Uuid::new_v4().to_string()
}

impl Message {
    /// A message with a fresh identifier, stamped with the instant `at`.
    pub fn new_at(role: MessageRole, content: String, tool_calls: Vec<ToolCallRecord>, at: Timestamp) -> (m:
        Message)
        ensures
            is_uuid_v4_text(m.id@),
            m.role == role,
            m.content == content,
            m.tool_calls == tool_calls,
            m.created_at == at,
    {
        let id = new_message_id();
        Message { id, role, content, tool_calls, created_at: at }
    }

    /// A message with a fresh identifier, stamped with the current time.
    pub fn new(role: MessageRole, content: String, tool_calls: Vec<ToolCallRecord>) -> (m: Message)
        ensures
            is_uuid_v4_text(m.id@),
            m.role == role,
            m.content == content,
            m.tool_calls == tool_calls,
            m.created_at.nanos < 1_000_000_000,
    {
        let created_at = now();
        Message::new_at(role, content, tool_calls, created_at)
    }
}

/// Number of characters a title keeps of the first user message.
pub const TITLE_CHARS: usize = 60;

/// Index of the first message written by the user, if any.
pub open spec fn first_user_index(msgs: Seq<Message>) -> Option<int>
    decreases msgs.len(),
{
    if msgs.len() == 0 {
        None
    } else if msgs[0].role == MessageRole::User {
        Some(0)
    } else {
        match first_user_index(msgs.subrange(1, msgs.len() as int)) {
            Some(i) => Some(i + 1),
            None => None,
        }
    }
}

/// The title derived from a message text: its first 60 characters, followed by an
/// ellipsis when the text has more than 60 characters.
pub open spec fn title_from(content: Seq<char>) -> Seq<char> {
    let n = if content.len() < 60 { content.len() as int } else { 60 };
    let t = content.subrange(0, n);
    if content.len() > 60 {
        t.push('\u{2026}')
    } else {
        t
    }
}

proof fn lemma_first_user_found(msgs: Seq<Message>, i: int)
    requires
        0 <= i < msgs.len(),
        msgs[i].role == MessageRole::User,
        forall|j: int| 0 <= j < i ==> msgs[j].role != MessageRole::User,
    ensures
        first_user_index(msgs) == Some(i),
    decreases i,
{
    if i > 0 {
        let rest = msgs.subrange(1, msgs.len() as int);
        assert(msgs[0].role != MessageRole::User);
        assert forall|j: int| 0 <= j < i - 1 implies rest[j].role != MessageRole::User by {
            assert(rest[j] == msgs[j + 1]);
        }
        assert(rest[i - 1] == msgs[i]);
        lemma_first_user_found(rest, i - 1);
    }
}

proof fn lemma_first_user_absent(msgs: Seq<Message>)
    requires
        forall|j: int| 0 <= j < msgs.len() ==> msgs[j].role != MessageRole::User,
    ensures
        first_user_index(msgs) is None,
    decreases msgs.len(),
{
    if msgs.len() > 0 {
        let rest = msgs.subrange(1, msgs.len() as int);
        assert(msgs[0].role != MessageRole::User);
        assert forall|j: int| 0 <= j < rest.len() implies rest[j].role != MessageRole::User by {
            assert(rest[j] == msgs[j + 1]);
        }
        lemma_first_user_absent(rest);
    }
}

/// The title for a message text (see `title_from`).
pub fn title_for(content: &str) -> (t: String)
    ensures
        t@ == title_from(content@),
{
    let len = content.unicode_len();
    let n: usize = if len < TITLE_CHARS { len } else { TITLE_CHARS };
    let mut t = content.substring_char(0, n).to_owned();
    if len > TITLE_CHARS {
        push_char(&mut t, '\u{2026}');
    }
    t
}

impl Conversation {
    /// A new, empty conversation created at `at`.
    pub fn new_at(id: String, user_id: String, mcp_url: String, at: Timestamp) -> (c: Conversation)
        ensures
            c.id == id,
            c.user_id == user_id,
            c.mcp_url == mcp_url,
            c.title@ == "New conversation"@,
            c.messages@.len() == 0,
            c.created_at == at,
            c.updated_at == at,
    {
        Conversation {
            id,
            user_id,
            title: "New conversation".to_owned(),
            messages: Vec::new(),
            created_at: at,
            updated_at: at,
            mcp_url,
        }
    }

    /// A new, empty conversation created now.
    pub fn new(id: String, user_id: String, mcp_url: String) -> (c: Conversation)
        ensures
            c.id == id,
            c.user_id == user_id,
            c.mcp_url == mcp_url,
            c.title@ == "New conversation"@,
            c.messages@.len() == 0,
            c.created_at == c.updated_at,
            c.created_at.nanos < 1_000_000_000,
    {
        let at = now();
        Conversation::new_at(id, user_id, mcp_url, at)
    }

    /// Derives the title from the first user message (first 60 characters, with an
    /// ellipsis when the message has more than 60 characters); without a user message the
    /// title is left as it is.
    pub fn derive_title(&mut self)
        ensures
            *final(self) == (Conversation { title: final(self).title, ..*old(self) }),
            match first_user_index(old(self).messages@) {
                Some(i) => final(self).title@ == title_from(old(self).messages@[i].content@),
                None => final(self).title == old(self).title,
            },
    {
        let mut i: usize = 0;
        while i < self.messages.len()
            invariant
                0 <= i <= self.messages.len(),
                *self == *old(self),
                forall|j: int| 0 <= j < i ==> self.messages@[j].role != MessageRole::User,
            decreases self.messages.len() - i,
        {
            if self.messages[i].role == MessageRole::User {
                proof {
                    lemma_first_user_found(self.messages@, i as int);
                }
                let t = title_for(self.messages[i].content.as_str());
                self.title = t;
                return;
            }
            i = i + 1;
        }
        proof {
            lemma_first_user_absent(self.messages@);
        }
    }
}


/// Law: a title is the message itself when it has at most 60 characters, and its first
/// 60 characters followed by an ellipsis otherwise.
pub proof fn lemma_title_shape(content: Seq<char>)
    ensures
        title_from(content).len() <= 61,
        ({
            let n = if content.len() < 60 { content.len() as int } else { 60 };
            title_from(content).subrange(0, n) == content.subrange(0, n)
        }),
        content.len() <= 60 ==> title_from(content) == content,
        content.len() > 60 ==> title_from(content) == content.subrange(0, 60).push('\u{2026}'),
{
    let n = if content.len() < 60 { content.len() as int } else { 60 };
    assert(title_from(content).subrange(0, n) =~= content.subrange(0, n));
    if content.len() <= 60 {
        assert(content.subrange(0, content.len() as int) =~= content);
    }
}


/// Law: the title comes from the first message the user wrote, whatever comes before
/// or after it: when message `i` is the user's and none before it is, deriving the title
/// gives the title of message `i`'s text. Without any user message there is none to
/// derive from.
pub proof fn lemma_title_from_first_user_message(msgs: Seq<Message>, i: int)
    ensures
        0 <= i < msgs.len() && msgs[i].role == MessageRole::User && (forall|j: int|
            0 <= j < i ==> msgs[j].role != MessageRole::User) ==> first_user_index(msgs) == Some(
            i,
        ),
        (forall|j: int| 0 <= j < msgs.len() ==> msgs[j].role != MessageRole::User)
            ==> first_user_index(msgs) is None,
        first_user_index(msgs) matches Some(k) ==> 0 <= k < msgs.len() && msgs[k].role
            == MessageRole::User && forall|j: int| 0 <= j < k ==> msgs[j].role != MessageRole::User,
    decreases msgs.len(),
{
    if 0 <= i < msgs.len() && msgs[i].role == MessageRole::User && (forall|j: int|
        0 <= j < i ==> msgs[j].role != MessageRole::User) {
        lemma_first_user_found(msgs, i);
    }
    if forall|j: int| 0 <= j < msgs.len() ==> msgs[j].role != MessageRole::User {
        lemma_first_user_absent(msgs);
    }
    if msgs.len() > 0 {
        let rest = msgs.subrange(1, msgs.len() as int);
        lemma_title_from_first_user_message(rest, i - 1);
        if msgs[0].role != MessageRole::User {
            match first_user_index(rest) {
                Some(k) => {
                    assert(msgs[k + 1] == rest[k]);
                    assert forall|j: int| 0 <= j < k + 1 implies msgs[j].role != MessageRole::User by {
                        if j > 0 {
                            assert(msgs[j] == rest[j - 1]);
                        }
                    }
                },
                None => {},
            }
        }
    }
}

} // verus!
