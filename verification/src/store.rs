//! Storage layout of conversations and users, and the changes a save makes.
//!
//! Key layout:
//!   users/{user_id}/profile.json
//!   users/{user_id}/conversations.json      (index)
//!   conversations/{conv_id}.json            (full conversation)
//!   blobs/{blake3_hex}                      (large tool results)
use vstd::prelude::*;
use vstd::string::StrSliceExecFns;
use vstd::utf8::encode_utf8;
use crate::hash::{blake3_hex, blake3_hex_of};
use crate::model::{Conversation, ConversationMeta, Message, ToolCallRecord};
use crate::time::{now, Timestamp};

verus! {

/// Tool results longer than this many bytes are stored as content-addressed blobs
/// rather than inline in the message.
pub const BLOB_THRESHOLD_BYTES: usize = 4 * 1024;

/// Key of a stored conversation.
pub fn conversation_key(conv_id: &str) -> (k: String)
    ensures
        k@ == "conversations/"@ + conv_id@ + ".json"@,
{
    let mut k = "conversations/".to_owned();
    k.append(conv_id);
    k.append(".json");
    k
}

/// Key of a user's conversation index.
pub fn user_index_key(user_id: &str) -> (k: String)
    ensures
        k@ == "users/"@ + user_id@ + "/conversations.json"@,
{
    let mut k = "users/".to_owned();
    k.append(user_id);
    k.append("/conversations.json");
    k
}

/// Key of a user's profile.
pub fn profile_key(user_id: &str) -> (k: String)
    ensures
        k@ == "users/"@ + user_id@ + "/profile.json"@,
{
    let mut k = "users/".to_owned();
    k.append(user_id);
    k.append("/profile.json");
    k
}

/// Key of the blob whose digest is `hex`.
pub fn blob_key(hex: &str) -> (k: String)
    ensures
        k@ == "blobs/"@ + hex@,
{
    let mut k = "blobs/".to_owned();
    k.append(hex);
    k
}

/// The text left in a message in place of a result moved to the blob `hex`.
pub fn blob_reference(hex: &str) -> (r: String)
    ensures
        r@ == "[blob:"@ + hex@ + "]"@,
{
    let mut r = "[blob:".to_owned();
    r.append(hex);
    r.append("]");
    r
}

/// A blob to be stored: its key and its bytes.
#[derive(Clone, Debug, PartialEq, Eq)]
pub struct BlobWrite {
    pub key: String,
    pub content: Vec<u8>,
}

/// The blob to write, given what is already stored under its key: the blob when
/// nothing is, nothing otherwise. Blobs are content-addressed, so a stored one already
/// holds the same bytes and is never written again.
pub fn blob_to_write(write: BlobWrite, stored: &Option<Vec<u8>>) -> (r: Option<BlobWrite>)
    ensures
        stored is None ==> r == Some(write),
        stored is Some ==> r is None,
{
    match stored {
        None => Some(write),
        Some(_) => None,
    }
}

/// The UTF-8 bytes of a tool call's result.
pub open spec fn result_bytes(tc: ToolCallRecord) -> Seq<u8> {
    encode_utf8(tc.result@)
}

/// A tool call whose result is not yet a blob and is longer than the threshold.
pub open spec fn needs_blob(tc: ToolCallRecord) -> bool {
    tc.blob_key is None && result_bytes(tc).len() > BLOB_THRESHOLD_BYTES
}

/// Digest of a tool call's result.
pub open spec fn result_digest(tc: ToolCallRecord) -> Seq<char> {
    blake3_hex_of(result_bytes(tc))
}

/// What externalization makes of one tool call: a call that needs a blob keeps its name
/// and arguments, its result becomes the blob reference and its blob key is set; any
/// other call is left as it is.
pub open spec fn externalized_call(old_tc: ToolCallRecord, new_tc: ToolCallRecord) -> bool {
    if needs_blob(old_tc) {
        &&& new_tc.name == old_tc.name
        &&& new_tc.args == old_tc.args
        &&& new_tc.result@ == "[blob:"@ + result_digest(old_tc) + "]"@
        &&& new_tc.blob_key matches Some(k) && k@ == "blobs/"@ + result_digest(old_tc)
    } else {
        new_tc == old_tc
    }
}

/// The blob that externalizing one tool call writes, if any.
pub open spec fn call_blob_writes(tc: ToolCallRecord) -> Seq<(Seq<char>, Seq<u8>)> {
    if needs_blob(tc) {
        seq![("blobs/"@ + result_digest(tc), result_bytes(tc))]
    } else {
        Seq::empty()
    }
}

/// The blobs written for a sequence of tool calls, in order.
pub open spec fn calls_blob_writes(calls: Seq<ToolCallRecord>) -> Seq<(Seq<char>, Seq<u8>)>
    decreases calls.len(),
{
    if calls.len() == 0 {
        Seq::empty()
    } else {
        calls_blob_writes(calls.drop_last()) + call_blob_writes(calls.last())
    }
}

/// The blobs written for a sequence of messages, in order.
pub open spec fn messages_blob_writes(msgs: Seq<Message>) -> Seq<(Seq<char>, Seq<u8>)>
    decreases msgs.len(),
{
    if msgs.len() == 0 {
        Seq::empty()
    } else {
        messages_blob_writes(msgs.drop_last()) + calls_blob_writes(msgs.last().tool_calls@)
    }
}

/// What externalization makes of one message: everything but the tool calls stays,
/// and each tool call is externalized.
pub open spec fn externalized_message(old_m: Message, new_m: Message) -> bool {
    &&& new_m.id == old_m.id
    &&& new_m.role == old_m.role
    &&& new_m.content == old_m.content
    &&& new_m.created_at == old_m.created_at
    &&& new_m.tool_calls@.len() == old_m.tool_calls@.len()
    &&& forall|k: int|
        0 <= k < old_m.tool_calls@.len() ==> externalized_call(
            #[trigger] old_m.tool_calls@[k],
            new_m.tool_calls@[k],
        )
}

/// What externalization makes of a conversation.
pub open spec fn externalized_conversation(old_c: Conversation, new_c: Conversation) -> bool {
    &&& new_c.id == old_c.id
    &&& new_c.user_id == old_c.user_id
    &&& new_c.title == old_c.title
    &&& new_c.created_at == old_c.created_at
    &&& new_c.updated_at == old_c.updated_at
    &&& new_c.mcp_url == old_c.mcp_url
    &&& new_c.messages@.len() == old_c.messages@.len()
    &&& forall|m: int|
        0 <= m < old_c.messages@.len() ==> externalized_message(
            #[trigger] old_c.messages@[m],
            new_c.messages@[m],
        )
}

/// The view of a list of blob writes.
pub open spec fn writes_view(ws: Seq<BlobWrite>) -> Seq<(Seq<char>, Seq<u8>)> {
    ws.map_values(|w: BlobWrite| (w.key@, w.content@))
}

/// Moves the result of a tool call into a blob when it needs one.
fn externalize_call(tc: &mut ToolCallRecord) -> (w: Option<BlobWrite>)
    ensures
        externalized_call(*old(tc), *final(tc)),
        w matches Some(b) ==> seq![(b.key@, b.content@)] == call_blob_writes(*old(tc)),
        w is None ==> call_blob_writes(*old(tc)) == Seq::<(Seq<char>, Seq<u8>)>::empty(),
{
    if tc.blob_key.is_none() && tc.result.as_str().as_bytes().len() > BLOB_THRESHOLD_BYTES {
        let bytes = tc.result.as_str().as_bytes_vec();
        let hex = blake3_hex(bytes.as_slice());
        let key = blob_key(hex.as_str());
        tc.result = blob_reference(hex.as_str());
        tc.blob_key = Some(key.clone());
        Some(BlobWrite { key, content: bytes })
    } else {
        None
    }
}


/// Externalizes every tool call of a message, appending the blobs to write.
fn externalize_message(msg: &mut Message, writes: &mut Vec<BlobWrite>)
    ensures
        externalized_message(*old(msg), *final(msg)),
        writes_view(final(writes)@) == writes_view(old(writes)@) + calls_blob_writes(
            old(msg).tool_calls@,
        ),
{
    let ghost calls0 = msg.tool_calls@;
    let mut k: usize = 0;
    while k < msg.tool_calls.len()
        invariant
            0 <= k <= msg.tool_calls@.len(),
            calls0 == old(msg).tool_calls@,
            msg.id == old(msg).id,
            msg.role == old(msg).role,
            msg.content == old(msg).content,
            msg.created_at == old(msg).created_at,
            msg.tool_calls@.len() == calls0.len(),
            forall|j: int| 0 <= j < k ==> externalized_call(#[trigger] calls0[j], msg.tool_calls@[j]),
            forall|j: int| k <= j < calls0.len() ==> #[trigger] msg.tool_calls@[j] == calls0[j],
            writes_view(writes@) == writes_view(old(writes)@) + calls_blob_writes(
                calls0.take(k as int),
            ),
        decreases calls0.len() - k,
    {
        let ghost before = writes@;
        let w = externalize_call(&mut msg.tool_calls[k]);
        match w {
            Some(b) => {
                writes.push(b);
                proof {
                    assert(writes_view(writes@) =~= writes_view(before) + seq![(b.key@, b.content@)]);
                }
            },
            None => {},
        }
        proof {
            assert(calls0.take(k + 1).drop_last() =~= calls0.take(k as int));
            assert(calls0.take(k + 1).last() == calls0[k as int]);
        }
        k = k + 1;
    }
    proof {
        assert(calls0.take(k as int) =~= calls0);
    }
}

/// Moves every tool result longer than the threshold, and not yet a blob, into a
/// content-addressed blob: the result becomes `[blob:<hex>]`, the blob key
/// `blobs/<hex>`, where `<hex>` is the BLAKE3 digest of the result's bytes. Returns the
/// blobs to write, in message and call order.
pub fn externalize_blobs(conv: &mut Conversation) -> (writes: Vec<BlobWrite>)
    ensures
        externalized_conversation(*old(conv), *final(conv)),
        writes_view(writes@) == messages_blob_writes(old(conv).messages@),
{
    let ghost msgs0 = conv.messages@;
    let mut writes: Vec<BlobWrite> = Vec::new();
    let mut m: usize = 0;
    while m < conv.messages.len()
        invariant
            0 <= m <= conv.messages@.len(),
            msgs0 == old(conv).messages@,
            conv.id == old(conv).id,
            conv.user_id == old(conv).user_id,
            conv.title == old(conv).title,
            conv.created_at == old(conv).created_at,
            conv.updated_at == old(conv).updated_at,
            conv.mcp_url == old(conv).mcp_url,
            conv.messages@.len() == msgs0.len(),
            forall|j: int| 0 <= j < m ==> externalized_message(#[trigger] msgs0[j], conv.messages@[j]),
            forall|j: int| m <= j < msgs0.len() ==> #[trigger] conv.messages@[j] == msgs0[j],
            writes_view(writes@) == messages_blob_writes(msgs0.take(m as int)),
        decreases msgs0.len() - m,
    {
        externalize_message(&mut conv.messages[m], &mut writes);
        proof {
            assert(msgs0.take(m + 1).drop_last() =~= msgs0.take(m as int));
            assert(msgs0.take(m + 1).last() == msgs0[m as int]);
        }
        m = m + 1;
    }
    proof {
        assert(msgs0.take(m as int) =~= msgs0);
        assert(writes_view(Seq::<BlobWrite>::empty()) =~= Seq::empty());
    }
    writes
}


/// The index entry describing a conversation: its id, title and last update.
pub fn meta_of(conv: &Conversation) -> (m: ConversationMeta)
    ensures
        m.id@ == conv.id@,
        m.title@ == conv.title@,
        m.updated_at == conv.updated_at,
{
    ConversationMeta { id: conv.id.clone(), title: conv.title.clone(), updated_at: conv.updated_at }
}

/// Position of the first entry of `index` with the given id.
pub open spec fn position_of_id(index: Seq<ConversationMeta>, id: Seq<char>) -> Option<int>
    decreases index.len(),
{
    if index.len() == 0 {
        None
    } else if index[0].id@ == id {
        Some(0)
    } else {
        match position_of_id(index.subrange(1, index.len() as int), id) {
            Some(i) => Some(i + 1),
            None => None,
        }
    }
}

proof fn lemma_position_found(index: Seq<ConversationMeta>, id: Seq<char>, i: int)
    requires
        0 <= i < index.len(),
        index[i].id@ == id,
        forall|j: int| 0 <= j < i ==> index[j].id@ != id,
    ensures
        position_of_id(index, id) == Some(i),
    decreases i,
{
    if i > 0 {
        let rest = index.subrange(1, index.len() as int);
        assert(index[0].id@ != id);
        assert forall|j: int| 0 <= j < i - 1 implies rest[j].id@ != id by {
            assert(rest[j] == index[j + 1]);
        }
        assert(rest[i - 1] == index[i]);
        lemma_position_found(rest, id, i - 1);
    }
}

proof fn lemma_position_absent(index: Seq<ConversationMeta>, id: Seq<char>)
    requires
        forall|j: int| 0 <= j < index.len() ==> index[j].id@ != id,
    ensures
        position_of_id(index, id) is None,
    decreases index.len(),
{
    if index.len() > 0 {
        let rest = index.subrange(1, index.len() as int);
        assert(index[0].id@ != id);
        assert forall|j: int| 0 <= j < rest.len() implies rest[j].id@ != id by {
            assert(rest[j] == index[j + 1]);
        }
        lemma_position_absent(rest, id);
    }
}

/// Facts about `position_of_id`: a found position holds the id and no earlier entry
/// does; absence means no entry holds it.
pub proof fn lemma_position_of_id(index: Seq<ConversationMeta>, id: Seq<char>)
    ensures
        position_of_id(index, id) matches Some(i) ==> 0 <= i < index.len() && index[i].id@ == id
            && forall|j: int| 0 <= j < i ==> index[j].id@ != id,
        position_of_id(index, id) is None ==> forall|j: int|
            0 <= j < index.len() ==> index[j].id@ != id,
    decreases index.len(),
{
    if index.len() > 0 {
        let rest = index.subrange(1, index.len() as int);
        lemma_position_of_id(rest, id);
        if index[0].id@ != id {
            match position_of_id(rest, id) {
                Some(i) => {
                    assert forall|j: int| 0 <= j < i + 1 implies index[j].id@ != id by {
                        if j > 0 {
                            assert(index[j] == rest[j - 1]);
                        }
                    }
                    assert(index[i + 1] == rest[i]);
                },
                None => {
                    assert forall|j: int| 0 <= j < index.len() implies index[j].id@ != id by {
                        if j > 0 {
                            assert(index[j] == rest[j - 1]);
                        }
                    }
                },
            }
        }
    }
}

/// The index with `meta` in place of the first entry with its id, or appended when
/// there is none.
pub open spec fn upserted(index: Seq<ConversationMeta>, meta: ConversationMeta) -> Seq<
    ConversationMeta,
> {
    match position_of_id(index, meta.id@) {
        Some(i) => index.update(i, meta),
        None => index.push(meta),
    }
}

/// Inserts `meta` into the index, or replaces the first entry with the same id.
pub fn upsert_meta(index: &mut Vec<ConversationMeta>, meta: ConversationMeta)
    ensures
        final(index)@ == upserted(old(index)@, meta),
{
    let mut i: usize = 0;
    while i < index.len()
        invariant
            0 <= i <= index@.len(),
            *index == *old(index),
            forall|j: int| 0 <= j < i ==> index@[j].id@ != meta.id@,
        decreases index@.len() - i,
    {
        if index[i].id == meta.id {
            proof {
                lemma_position_found(index@, meta.id@, i as int);
            }
            index.set(i, meta);
            return;
        }
        i = i + 1;
    }
    proof {
        lemma_position_absent(index@, meta.id@);
    }
    index.push(meta);
}

/// Whether an index entry does not belong to the conversation `id`.
pub open spec fn keeps_entry(id: Seq<char>) -> spec_fn(ConversationMeta) -> bool {
    |m: ConversationMeta| m.id@ != id
}

/// Removes every entry of the conversation `id` from the index, keeping the others in
/// order.
pub fn remove_meta(index: &mut Vec<ConversationMeta>, id: &str)
    ensures
        final(index)@ == old(index)@.filter(keeps_entry(id@)),
{
    let ghost s0 = index@;
    let key = id.to_owned();
    let mut kept: Vec<ConversationMeta> = Vec::new();
    let mut i: usize = 0;
    while i < index.len()
        invariant
            0 <= i <= s0.len(),
            index@ == s0,
            key@ == id@,
            kept@ == s0.take(i as int).filter(keeps_entry(id@)),
        decreases s0.len() - i,
    {
        proof {
            reveal_with_fuel(Seq::<ConversationMeta>::filter, 1);
            assert(s0.take(i + 1).drop_last() =~= s0.take(i as int));
        }
        if index[i].id != key {
            kept.push(index[i].duplicate());
        }
        i = i + 1;
    }
    proof {
        assert(s0.take(i as int) =~= s0);
    }
    *index = kept;
}


/// Inserts `m` into a newest-first list, after every entry that is not older than `m`.
pub open spec fn insert_newest_first(sorted: Seq<ConversationMeta>, m: ConversationMeta) -> Seq<
    ConversationMeta,
>
    decreases sorted.len(),
{
    if sorted.len() == 0 {
        seq![m]
    } else if sorted[0].updated_at.before(m.updated_at) {
        seq![m] + sorted
    } else {
        seq![sorted[0]] + insert_newest_first(sorted.subrange(1, sorted.len() as int), m)
    }
}

/// The index sorted newest first, entries with equal update times keeping their order
/// (a stable sort by descending `updated_at`).
pub open spec fn sorted_newest_first(index: Seq<ConversationMeta>) -> Seq<ConversationMeta>
    decreases index.len(),
{
    if index.len() == 0 {
        Seq::empty()
    } else {
        insert_newest_first(sorted_newest_first(index.drop_last()), index.last())
    }
}

/// Where `insert_newest_first` puts `m`.
pub open spec fn insertion_point(sorted: Seq<ConversationMeta>, m: ConversationMeta) -> int
    decreases sorted.len(),
{
    if sorted.len() == 0 {
        0
    } else if sorted[0].updated_at.before(m.updated_at) {
        0
    } else {
        1 + insertion_point(sorted.subrange(1, sorted.len() as int), m)
    }
}

/// No entry is older than an entry after it.
pub open spec fn is_newest_first(s: Seq<ConversationMeta>) -> bool {
    forall|i: int, j: int|
        0 <= i < j < s.len() ==> !(#[trigger] s[i]).updated_at.before((#[trigger] s[j]).updated_at)
}

proof fn lemma_insertion_point(sorted: Seq<ConversationMeta>, m: ConversationMeta)
    ensures
        0 <= insertion_point(sorted, m) <= sorted.len(),
        insert_newest_first(sorted, m) == sorted.insert(insertion_point(sorted, m), m),
        forall|j: int|
            0 <= j < insertion_point(sorted, m) ==> !(#[trigger] sorted[j]).updated_at.before(
                m.updated_at,
            ),
        insertion_point(sorted, m) < sorted.len() ==> sorted[insertion_point(
            sorted,
            m,
        )].updated_at.before(m.updated_at),
    decreases sorted.len(),
{
    if sorted.len() == 0 {
        assert(insert_newest_first(sorted, m) =~= sorted.insert(0, m));
    } else if sorted[0].updated_at.before(m.updated_at) {
        assert(insert_newest_first(sorted, m) =~= sorted.insert(0, m));
    } else {
        let rest = sorted.subrange(1, sorted.len() as int);
        lemma_insertion_point(rest, m);
        let p = insertion_point(rest, m);
        assert(insert_newest_first(sorted, m) =~= sorted.insert(p + 1, m));
        assert forall|j: int|
            0 <= j < p + 1 implies !(#[trigger] sorted[j]).updated_at.before(m.updated_at) by {
            if j > 0 {
                assert(sorted[j] == rest[j - 1]);
            }
        }
        if p < rest.len() {
            assert(sorted[p + 1] == rest[p]);
        }
    }
}

proof fn lemma_insertion_point_unique(sorted: Seq<ConversationMeta>, m: ConversationMeta, p: int)
    requires
        0 <= p <= sorted.len(),
        forall|j: int| 0 <= j < p ==> !(#[trigger] sorted[j]).updated_at.before(m.updated_at),
        p < sorted.len() ==> sorted[p].updated_at.before(m.updated_at),
    ensures
        insertion_point(sorted, m) == p,
{
    lemma_insertion_point(sorted, m);
    let q = insertion_point(sorted, m);
    if q < p {
        assert(!sorted[q].updated_at.before(m.updated_at));
    } else if p < q {
        assert(!sorted[p].updated_at.before(m.updated_at));
    }
}

/// Sorts a conversation index newest first; entries updated at the same instant keep
/// their relative order.
pub fn sort_newest_first(index: &mut Vec<ConversationMeta>)
    ensures
        final(index)@ == sorted_newest_first(old(index)@),
{
    let ghost s0 = index@;
    let mut out: Vec<ConversationMeta> = Vec::new();
    let mut i: usize = 0;
    while i < index.len()
        invariant
            0 <= i <= s0.len(),
            index@ == s0,
            out@ == sorted_newest_first(s0.take(i as int)),
        decreases s0.len() - i,
    {
        let m = index[i].duplicate();
        let mut p: usize = 0;
        while p < out.len() && !out[p].updated_at.is_before(&m.updated_at)
            invariant
                0 <= p <= out@.len(),
                forall|j: int| 0 <= j < p ==> !(#[trigger] out@[j]).updated_at.before(m.updated_at),
            decreases out@.len() - p,
        {
            p = p + 1;
        }
        proof {
            lemma_insertion_point_unique(out@, m, p as int);
            lemma_insertion_point(out@, m);
            assert(s0.take(i + 1).drop_last() =~= s0.take(i as int));
            assert(s0.take(i + 1).last() == s0[i as int]);
        }
        out.insert(p, m);
        i = i + 1;
    }
    proof {
        assert(s0.take(i as int) =~= s0);
    }
    *index = out;
}

/// Law: the listing order is newest first and loses or adds no entry.
pub proof fn lemma_sorted_newest_first(index: Seq<ConversationMeta>)
    ensures
        is_newest_first(sorted_newest_first(index)),
        sorted_newest_first(index).to_multiset() == index.to_multiset(),
    decreases index.len(),
{
    broadcast use vstd::seq_lib::group_to_multiset_ensures;

    if index.len() > 0 {
        let rest = index.drop_last();
        let m = index.last();
        lemma_sorted_newest_first(rest);
        let s = sorted_newest_first(rest);
        lemma_insertion_point(s, m);
        let p = insertion_point(s, m);
        let r = s.insert(p, m);
        assert forall|i: int, j: int| 0 <= i < j < r.len() implies !(#[trigger] r[i]).updated_at.before(
            (#[trigger] r[j]).updated_at,
        ) by {
            if j < p {
                assert(r[i] == s[i] && r[j] == s[j]);
            } else if j == p {
                assert(r[i] == s[i]);
            } else if i < p {
                assert(r[i] == s[i] && r[j] == s[j - 1]);
                assert(!s[i].updated_at.before(s[j - 1].updated_at));
            } else if i == p {
                assert(r[j] == s[j - 1]);
                assert(!s[p].updated_at.before(s[j - 1].updated_at));
            } else {
                assert(r[i] == s[i - 1] && r[j] == s[j - 1]);
            }
        }
        assert(r =~= s.take(p) + seq![m] + s.skip(p));
        assert(s =~= s.take(p) + s.skip(p));
        vstd::seq_lib::lemma_multiset_commutative(s.take(p) + seq![m], s.skip(p));
        vstd::seq_lib::lemma_multiset_commutative(s.take(p), seq![m]);
        vstd::seq_lib::lemma_multiset_commutative(s.take(p), s.skip(p));
        assert(index =~= rest.push(m));
    }
}


/// No two entries of the index belong to the same conversation.
pub open spec fn ids_unique(index: Seq<ConversationMeta>) -> bool {
    forall|i: int, j: int|
        0 <= i < j < index.len() ==> (#[trigger] index[i]).id@ != (#[trigger] index[j]).id@
}

/// Law: after an upsert the index holds exactly one entry for the conversation, the new
/// one, and every other entry is kept; an index without duplicate ids keeps none.
pub proof fn lemma_upsert_index(index: Seq<ConversationMeta>, meta: ConversationMeta)
    requires
        ids_unique(index),
    ensures
        ids_unique(upserted(index, meta)),
        upserted(index, meta).contains(meta),
        forall|j: int|
            0 <= j < upserted(index, meta).len() && (#[trigger] upserted(index, meta)[j]).id@
                == meta.id@ ==> upserted(index, meta)[j] == meta,
        forall|m: ConversationMeta|
            index.contains(m) && m.id@ != meta.id@ ==> #[trigger] upserted(index, meta).contains(m),
        upserted(index, meta).len() <= index.len() + 1,
{
    lemma_position_of_id(index, meta.id@);
    let r = upserted(index, meta);
    match position_of_id(index, meta.id@) {
        Some(p) => {
            assert(r[p] == meta);
            assert forall|m: ConversationMeta|
                index.contains(m) && m.id@ != meta.id@ implies #[trigger] r.contains(m) by {
                let k = choose|k: int| 0 <= k < index.len() && index[k] == m;
                assert(r[k] == m);
            }
        },
        None => {
            assert(r[index.len() as int] == meta);
            assert forall|m: ConversationMeta|
                index.contains(m) && m.id@ != meta.id@ implies #[trigger] r.contains(m) by {
                let k = choose|k: int| 0 <= k < index.len() && index[k] == m;
                assert(r[k] == m);
            }
        },
    }
}

/// Law: after a removal no entry of the conversation is left, and every other entry is
/// kept, in order.
pub proof fn lemma_remove_index(index: Seq<ConversationMeta>, id: Seq<char>)
    ensures
        forall|j: int|
            0 <= j < index.filter(keeps_entry(id)).len() ==> (#[trigger] index.filter(
                keeps_entry(id),
            )[j]).id@ != id,
        forall|m: ConversationMeta|
            index.contains(m) && m.id@ != id ==> #[trigger] index.filter(keeps_entry(id)).contains(
                m,
            ),
{
    broadcast use vstd::seq_lib::group_filter_ensures;

    let f = keeps_entry(id);
    assert forall|j: int|
        0 <= j < index.filter(f).len() implies (#[trigger] index.filter(f)[j]).id@ != id by {
        assert(f(index.filter(f)[j]));
    }
    assert forall|m: ConversationMeta| index.contains(m) && m.id@ != id implies #[trigger] index.filter(
        f,
    ).contains(m) by {
        assert(f(m));
    }
}

/// The title a save gives a conversation: derived from its first user message, or kept
/// when there is none.
pub open spec fn saved_title(conv: Conversation) -> Seq<char> {
    match crate::model::first_user_index(conv.messages@) {
        Some(i) => crate::model::title_from(conv.messages@[i].content@),
        None => conv.title@,
    }
}

/// The changes a save at instant `at` makes to a conversation before it is written: the
/// update time becomes `at`, the title is derived, and large tool results move to
/// blobs. Returns the blobs to write.
pub fn prepare_save_at(conv: &mut Conversation, at: Timestamp) -> (writes: Vec<BlobWrite>)
    ensures
        final(conv).updated_at == at,
        final(conv).title@ == saved_title(*old(conv)),
        externalized_conversation(
            (Conversation { updated_at: at, title: final(conv).title, ..*old(conv) }),
            *final(conv),
        ),
        writes_view(writes@) == messages_blob_writes(old(conv).messages@),
{
    conv.updated_at = at;
    conv.derive_title();
    externalize_blobs(conv)
}

/// The changes a save makes now (see `prepare_save_at`).
pub fn prepare_save(conv: &mut Conversation) -> (writes: Vec<BlobWrite>)
    ensures
        final(conv).title@ == saved_title(*old(conv)),
        externalized_conversation(
            (Conversation { updated_at: final(conv).updated_at, title: final(conv).title, ..*old(conv) }),
            *final(conv),
        ),
        writes_view(writes@) == messages_blob_writes(old(conv).messages@),
{
    let at = now();
    prepare_save_at(conv, at)
}

/// Law: externalization is idempotent. Once a conversation is externalized, doing it
/// again writes no blob and changes no tool call.
pub proof fn lemma_externalize_idempotent(c1: Conversation, c2: Conversation, c3: Conversation)
    requires
        externalized_conversation(c1, c2),
        externalized_conversation(c2, c3),
    ensures
        messages_blob_writes(c2.messages@) == Seq::<(Seq<char>, Seq<u8>)>::empty(),
        c3.messages@.len() == c2.messages@.len(),
        forall|m: int, k: int|
            0 <= m < c2.messages@.len() && 0 <= k < c2.messages@[m].tool_calls@.len()
                ==> #[trigger] c3.messages@[m].tool_calls@[k] == c2.messages@[m].tool_calls@[k],
{
    assert forall|m: int, k: int|
        0 <= m < c2.messages@.len() && 0 <= k < c2.messages@[m].tool_calls@.len() implies !needs_blob(
        #[trigger] c2.messages@[m].tool_calls@[k],
    ) by {
        assert(externalized_message(c1.messages@[m], c2.messages@[m]));
        assert(externalized_call(c1.messages@[m].tool_calls@[k], c2.messages@[m].tool_calls@[k]));
    }
    lemma_no_writes_messages(c2.messages@);
    assert forall|m: int, k: int|
        0 <= m < c2.messages@.len() && 0 <= k < c2.messages@[m].tool_calls@.len()
            implies #[trigger] c3.messages@[m].tool_calls@[k] == c2.messages@[m].tool_calls@[k] by {
        assert(externalized_message(c2.messages@[m], c3.messages@[m]));
        assert(externalized_call(c2.messages@[m].tool_calls@[k], c3.messages@[m].tool_calls@[k]));
    }
}

proof fn lemma_no_writes_calls(calls: Seq<ToolCallRecord>)
    requires
        forall|k: int| 0 <= k < calls.len() ==> !needs_blob(#[trigger] calls[k]),
    ensures
        calls_blob_writes(calls) == Seq::<(Seq<char>, Seq<u8>)>::empty(),
    decreases calls.len(),
{
    if calls.len() > 0 {
        lemma_no_writes_calls(calls.drop_last());
        assert(!needs_blob(calls[calls.len() - 1]));
        assert(calls_blob_writes(calls) =~= Seq::<(Seq<char>, Seq<u8>)>::empty());
    }
}

proof fn lemma_no_writes_messages(msgs: Seq<Message>)
    requires
        forall|m: int, k: int|
            0 <= m < msgs.len() && 0 <= k < msgs[m].tool_calls@.len() ==> !needs_blob(
                #[trigger] msgs[m].tool_calls@[k],
            ),
    ensures
        messages_blob_writes(msgs) == Seq::<(Seq<char>, Seq<u8>)>::empty(),
    decreases msgs.len(),
{
    if msgs.len() > 0 {
        lemma_no_writes_messages(msgs.drop_last());
        let last = msgs[msgs.len() - 1];
        assert forall|k: int| 0 <= k < last.tool_calls@.len() implies !needs_blob(
            #[trigger] last.tool_calls@[k],
        ) by {
            assert(!needs_blob(msgs[msgs.len() - 1].tool_calls@[k]));
        }
        lemma_no_writes_calls(last.tool_calls@);
        assert(messages_blob_writes(msgs) =~= Seq::<(Seq<char>, Seq<u8>)>::empty());
    }
}


/// Law: a tool call at or under the threshold, or already in a blob, is left as it is
/// and writes nothing.
pub proof fn lemma_small_results_kept(old_tc: ToolCallRecord, new_tc: ToolCallRecord)
    requires
        !needs_blob(old_tc),
        externalized_call(old_tc, new_tc),
    ensures
        new_tc == old_tc,
        call_blob_writes(old_tc) == Seq::<(Seq<char>, Seq<u8>)>::empty(),
{
}

/// Law: blobs are content-addressed: two results with the same bytes are written under
/// the same key, and referenced by the same text.
pub proof fn lemma_blobs_content_addressed(a: ToolCallRecord, b: ToolCallRecord)
    requires
        needs_blob(a),
        needs_blob(b),
        result_bytes(a) == result_bytes(b),
    ensures
        call_blob_writes(a) == call_blob_writes(b),
        result_digest(a) == result_digest(b),
{
}

/// Law: saving twice derives the same title: once a save has set it, the next save
/// keeps it.
pub proof fn lemma_saved_title_stable(c1: Conversation, c2: Conversation)
    requires
        c2.messages@ == c1.messages@,
        c2.title@ == saved_title(c1),
    ensures
        saved_title(c2) == c2.title@,
{
}


/// Every blob in `ws` is stored under `blobs/<digest>`, the digest being that of the
/// very bytes stored, and holds more than the threshold.
pub open spec fn blobs_content_addressed(ws: Seq<(Seq<char>, Seq<u8>)>) -> bool {
    forall|i: int|
        0 <= i < ws.len() ==> (#[trigger] ws[i]).0 == "blobs/"@ + blake3_hex_of(ws[i].1)
            && ws[i].1.len() > BLOB_THRESHOLD_BYTES
}

proof fn lemma_calls_blobs_addressed(calls: Seq<ToolCallRecord>)
    ensures
        blobs_content_addressed(calls_blob_writes(calls)),
    decreases calls.len(),
{
    if calls.len() > 0 {
        lemma_calls_blobs_addressed(calls.drop_last());
        let a = calls_blob_writes(calls.drop_last());
        let b = call_blob_writes(calls.last());
        assert forall|i: int| 0 <= i < (a + b).len() implies (#[trigger] (a + b)[i]).0 == "blobs/"@
            + blake3_hex_of((a + b)[i].1) && (a + b)[i].1.len() > BLOB_THRESHOLD_BYTES by {
            if i >= a.len() {
                assert((a + b)[i] == b[i - a.len()]);
            } else {
                assert((a + b)[i] == a[i]);
            }
        }
    }
}

/// Law: the blobs a save writes are content-addressed: each is stored under
/// `blobs/<d>` where `d` is the BLAKE3 digest of exactly the bytes it holds, and each
/// holds more than the threshold.
pub proof fn lemma_blob_keys_address_content(msgs: Seq<Message>)
    ensures
        blobs_content_addressed(messages_blob_writes(msgs)),
    decreases msgs.len(),
{
    if msgs.len() > 0 {
        lemma_blob_keys_address_content(msgs.drop_last());
        lemma_calls_blobs_addressed(msgs.last().tool_calls@);
        let a = messages_blob_writes(msgs.drop_last());
        let b = calls_blob_writes(msgs.last().tool_calls@);
        assert forall|i: int| 0 <= i < (a + b).len() implies (#[trigger] (a + b)[i]).0 == "blobs/"@
            + blake3_hex_of((a + b)[i].1) && (a + b)[i].1.len() > BLOB_THRESHOLD_BYTES by {
            if i >= a.len() {
                assert((a + b)[i] == b[i - a.len()]);
            } else {
                assert((a + b)[i] == a[i]);
            }
        }
    }
}

/// Law: a tool call moved to a blob keeps its name and arguments, and its text now
/// refers to the digest of its former result's bytes, under which that result is
/// stored.
pub proof fn lemma_externalized_call_refers_to_blob(old_tc: ToolCallRecord, new_tc: ToolCallRecord)
    requires
        needs_blob(old_tc),
        externalized_call(old_tc, new_tc),
    ensures
        new_tc.name == old_tc.name,
        new_tc.args == old_tc.args,
        new_tc.result@ == "[blob:"@ + blake3_hex_of(encode_utf8(old_tc.result@)) + "]"@,
        new_tc.blob_key matches Some(k) && k@ == "blobs/"@ + blake3_hex_of(encode_utf8(old_tc.result@)),
        call_blob_writes(old_tc) == seq![
            ("blobs/"@ + blake3_hex_of(encode_utf8(old_tc.result@)), encode_utf8(old_tc.result@)),
        ],
{
}

} // verus!
