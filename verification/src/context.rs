//! Context-window budgeting for agent conversations.
//!
//! Token counts are estimated from the UTF-8 byte length of a message's
//! content (four bytes per token, plus one). When a conversation exceeds its
//! budget, messages are retained by priority (system > recent user > recent
//! assistant > tool results > older) and each run of dropped messages is
//! replaced by one summary produced by a model provider.

use vstd::prelude::*;
use crate::primitives::{concat, json_from_str, json_string, Error, StringMap};

verus! {

/// Role of system messages.
pub const ROLE_SYSTEM: &'static str = "system";

/// Role of user messages.
pub const ROLE_USER: &'static str = "user";

/// Role of assistant messages.
pub const ROLE_ASSISTANT: &'static str = "assistant";

/// Role of tool-result messages.
pub const ROLE_TOOL: &'static str = "tool";

/// Estimated bytes per token.
pub const CHARS_PER_TOKEN: usize = 4;

/// Maximum tokens requested for a compaction summary.
pub const DEFAULT_COMPACTION_MAX_TOKENS: i32 = 512;

/// Default token budget when none is configured on the agent.
pub const DEFAULT_TOKEN_BUDGET: u32 = 16_000;

/// A tool call requested by the model.
#[derive(Debug, Clone, PartialEq, Eq)]
pub struct ToolCall {
    /// Tool name.
    pub name: String,
    /// Call ID.
    pub id: String,
    /// Arguments JSON.
    pub arguments: String,
}

impl ToolCall {
    /// A copy of this call.
    pub fn duplicate(&self) -> (result: ToolCall)
        ensures
            result == *self,
    {
        ToolCall { name: self.name.clone(), id: self.id.clone(), arguments: self.arguments.clone() }
    }
}

/// A message in an agent conversation.
#[derive(Debug, Clone, PartialEq, Eq)]
pub struct Message {
    /// Role: system, user, assistant, tool.
    pub role: String,
    /// Content.
    pub content: String,
    /// Tool calls carried by the message.
    pub tool_calls: Vec<ToolCall>,
    /// Tool call ID this message responds to.
    pub tool_call_id: Option<String>,
}

/// Mathematical model of a [`Message`].
pub struct MessageView {
    /// Role.
    pub role: Seq<char>,
    /// Content.
    pub content: Seq<char>,
    /// Tool calls.
    pub tool_calls: Seq<ToolCall>,
    /// Responded-to tool call ID.
    pub tool_call_id: Option<Seq<char>>,
}

impl View for Message {
    type V = MessageView;

    open spec fn view(&self) -> MessageView {
        MessageView {
            role: self.role@,
            content: self.content@,
            tool_calls: self.tool_calls@,
            tool_call_id: match self.tool_call_id {
                Some(id) => Some(id@),
                None => None,
            },
        }
    }
}

/// Retention priority; lower ranks are kept longer.
#[derive(Debug, Clone, Copy, PartialEq, Eq, Structural)]
pub enum Priority {
    /// System messages.
    System,
    /// Recent user messages.
    RecentUser,
    /// Recent assistant messages.
    RecentAssistant,
    /// Tool results.
    ToolResult,
    /// Everything else.
    Older,
}

/// Rank of a priority: the order in which messages are considered for retention.
pub open spec fn rank(p: Priority) -> nat {
    match p {
        Priority::System => 0,
        Priority::RecentUser => 1,
        Priority::RecentAssistant => 2,
        Priority::ToolResult => 3,
        Priority::Older => 4,
    }
}

/// Priority of the message with `role` at position `idx` of `total`
/// messages, where the last `recent_window` positions count as recent.
pub open spec fn priority_of(role: Seq<char>, idx: int, total: int, recent_window: int) -> Priority {
    let recent = idx + recent_window >= total;
    if role == ROLE_SYSTEM@ {
        Priority::System
    } else if role == ROLE_USER@ && recent {
        Priority::RecentUser
    } else if role == ROLE_ASSISTANT@ && recent {
        Priority::RecentAssistant
    } else if role == ROLE_TOOL@ {
        Priority::ToolResult
    } else {
        Priority::Older
    }
}

/// A user or assistant message counts as recent exactly when it stands
/// among the last `recent_window` positions of the conversation, that is,
/// when fewer than `recent_window` messages follow it; otherwise it is an
/// older message. Recency therefore only grows toward the end: a later
/// message of the same role is recent whenever an earlier one is, and the
/// last message is recent under any positive window.
pub proof fn lemma_recent_is_last_window(i: int, j: int, total: int, recent_window: int)
    requires
        0 <= i <= j < total,
        0 <= recent_window,
    ensures
        priority_of(ROLE_USER@, i, total, recent_window) == Priority::RecentUser <==> total - (i + 1) < recent_window,
        priority_of(ROLE_ASSISTANT@, i, total, recent_window) == Priority::RecentAssistant <==> total - (i + 1)
            < recent_window,
        total - (i + 1) >= recent_window ==> priority_of(ROLE_USER@, i, total, recent_window) == Priority::Older
            && priority_of(ROLE_ASSISTANT@, i, total, recent_window) == Priority::Older,
        priority_of(ROLE_USER@, i, total, recent_window) == Priority::RecentUser ==> priority_of(
            ROLE_USER@,
            j,
            total,
            recent_window,
        ) == Priority::RecentUser,
        priority_of(ROLE_ASSISTANT@, i, total, recent_window) == Priority::RecentAssistant ==> priority_of(
            ROLE_ASSISTANT@,
            j,
            total,
            recent_window,
        ) == Priority::RecentAssistant,
        recent_window > 0 ==> priority_of(ROLE_USER@, total - 1, total, recent_window) == Priority::RecentUser
            && priority_of(ROLE_ASSISTANT@, total - 1, total, recent_window) == Priority::RecentAssistant,
{
    reveal_strlit("system");
    reveal_strlit("user");
    reveal_strlit("assistant");
    reveal_strlit("tool");
    assert(ROLE_USER@ != ROLE_SYSTEM@) by {
        assert(ROLE_USER@[0] != ROLE_SYSTEM@[0]);
    }
    assert(ROLE_ASSISTANT@ != ROLE_SYSTEM@) by {
        assert(ROLE_ASSISTANT@[0] != ROLE_SYSTEM@[0]);
    }
    assert(ROLE_ASSISTANT@ != ROLE_USER@) by {
        assert(ROLE_ASSISTANT@[0] != ROLE_USER@[0]);
    }
    assert(ROLE_USER@ != ROLE_TOOL@) by {
        assert(ROLE_USER@[0] != ROLE_TOOL@[0]);
    }
    assert(ROLE_ASSISTANT@ != ROLE_TOOL@) by {
        assert(ROLE_ASSISTANT@[0] != ROLE_TOOL@[0]);
    }
}

/// Retention priority follows the order system > recent user > recent
/// assistant > tool results > older. A system message is a system message
/// and a tool message a tool result wherever it stands, and a message of
/// any other role is older.
pub proof fn lemma_priority_roles(role: Seq<char>, idx: int, total: int, recent_window: int)
    ensures
        rank(Priority::System) < rank(Priority::RecentUser),
        rank(Priority::RecentUser) < rank(Priority::RecentAssistant),
        rank(Priority::RecentAssistant) < rank(Priority::ToolResult),
        rank(Priority::ToolResult) < rank(Priority::Older),
        priority_of(ROLE_SYSTEM@, idx, total, recent_window) == Priority::System,
        priority_of(ROLE_TOOL@, idx, total, recent_window) == Priority::ToolResult,
        role != ROLE_SYSTEM@ && role != ROLE_USER@ && role != ROLE_ASSISTANT@ && role != ROLE_TOOL@ ==> priority_of(
            role,
            idx,
            total,
            recent_window,
        ) == Priority::Older,
{
    reveal_strlit("system");
    reveal_strlit("user");
    reveal_strlit("assistant");
    reveal_strlit("tool");
    assert(ROLE_TOOL@ != ROLE_SYSTEM@) by {
        assert(ROLE_TOOL@[0] != ROLE_SYSTEM@[0]);
    }
    assert(ROLE_TOOL@ != ROLE_USER@) by {
        assert(ROLE_TOOL@[0] != ROLE_USER@[0]);
    }
    assert(ROLE_TOOL@ != ROLE_ASSISTANT@) by {
        assert(ROLE_TOOL@[0] != ROLE_ASSISTANT@[0]);
    }
}

/// UTF-8 byte length of text, as `str::len` reports it.
pub open spec fn byte_len(text: Seq<char>) -> usize {
    vstd::utf8::encode_utf8(text).len() as usize
}

/// Estimated tokens of one message.
pub open spec fn message_tokens(m: MessageView) -> nat {
    (byte_len(m.content) / 4 + 1) as nat
}

/// Estimated tokens of a conversation.
pub open spec fn total_tokens(ms: Seq<MessageView>) -> nat
    decreases ms.len(),
{
    if ms.len() == 0 {
        0
    } else {
        total_tokens(ms.drop_last()) + message_tokens(ms.last())
    }
}

/// Token estimates add up: the tokens of two conversations put together
/// are the sum of their tokens; no messages have none, and one message has
/// its own estimate.
pub proof fn lemma_total_tokens_concat(a: Seq<MessageView>, b: Seq<MessageView>, m: MessageView)
    ensures
        total_tokens(a + b) == total_tokens(a) + total_tokens(b),
        total_tokens(Seq::<MessageView>::empty()) == 0,
        total_tokens(seq![m]) == message_tokens(m),
    decreases b.len(),
{
    assert(seq![m].drop_last() =~= Seq::<MessageView>::empty());
    assert(total_tokens(seq![m].drop_last()) == 0);
    assert(seq![m].last() == m);
    if b.len() == 0 {
        assert(a + b =~= a);
    } else {
        lemma_total_tokens_concat(a, b.drop_last(), m);
        assert((a + b).drop_last() =~= a + b.drop_last());
    }
}

/// Views of a slice of messages.
pub open spec fn views(ms: Seq<Message>) -> Seq<MessageView> {
    ms.map_values(|m: Message| m@)
}

impl Message {
    /// A copy of this message.
    pub fn duplicate(&self) -> (result: Message)
        ensures
            result@ == self@,
    {
        let mut calls: Vec<ToolCall> = Vec::new();
        let mut i: usize = 0;
        while i < self.tool_calls.len()
            invariant
                i <= self.tool_calls@.len(),
                calls@ == self.tool_calls@.take(i as int),
            decreases self.tool_calls@.len() - i,
        {
            calls.push(self.tool_calls[i].duplicate());
            assert(self.tool_calls@.take(i + 1) =~= self.tool_calls@.take(i as int).push(self.tool_calls@[i as int]));
            i = i + 1;
        }
        assert(self.tool_calls@.take(self.tool_calls@.len() as int) =~= self.tool_calls@);
        let tool_call_id = match &self.tool_call_id {
            Some(id) => Some(id.clone()),
            None => None,
        };
        Message { role: self.role.clone(), content: self.content.clone(), tool_calls: calls, tool_call_id }
    }

    /// Retention priority of this message at position `idx` of `total`.
    pub fn priority(&self, idx: usize, total: usize, recent_window: usize) -> (result: Priority)
        ensures
            result == priority_of(self.role@, idx as int, total as int, recent_window as int),
    {
        let recent = total <= recent_window || idx >= total - recent_window;
        if crate::primitives::str_eq(self.role.as_str(), ROLE_SYSTEM) {
            Priority::System
        } else if crate::primitives::str_eq(self.role.as_str(), ROLE_USER) && recent {
            Priority::RecentUser
        } else if crate::primitives::str_eq(self.role.as_str(), ROLE_ASSISTANT) && recent {
            Priority::RecentAssistant
        } else if crate::primitives::str_eq(self.role.as_str(), ROLE_TOOL) {
            Priority::ToolResult
        } else {
            Priority::Older
        }
    }

    /// Estimated tokens of this message.
    pub fn estimate_tokens(&self) -> (result: usize)
        ensures
            result == message_tokens(self@),
    {
        let bytes = self.content.as_str().len();
        bytes / CHARS_PER_TOKEN + 1
    }
}

/// Priorities of all messages of a conversation.
pub open spec fn priorities(ms: Seq<MessageView>, recent_window: int) -> Seq<Priority> {
    Seq::new(ms.len(), |i: int| priority_of(ms[i].role, i, ms.len() as int, recent_window))
}

/// Estimated tokens of each message of a conversation.
pub open spec fn token_counts(ms: Seq<MessageView>) -> Seq<nat> {
    Seq::new(ms.len(), |i: int| message_tokens(ms[i]))
}

/// Positions among the first `k` whose priority has rank `r`, ascending.
pub open spec fn class_upto(ps: Seq<Priority>, r: nat, k: int) -> Seq<int>
    decreases k,
{
    if k <= 0 {
        Seq::empty()
    } else if rank(ps[k - 1]) == r {
        class_upto(ps, r, k - 1).push(k - 1)
    } else {
        class_upto(ps, r, k - 1)
    }
}

/// Positions whose priority ranks below `r`: by rank, then by position.
pub open spec fn order_upto(ps: Seq<Priority>, r: nat) -> Seq<int>
    decreases r,
{
    if r == 0 {
        Seq::empty()
    } else {
        order_upto(ps, (r - 1) as nat) + class_upto(ps, (r - 1) as nat, ps.len() as int)
    }
}

/// The order in which messages are considered for retention: by priority
/// rank, ties broken by position.
pub open spec fn retention_order(ps: Seq<Priority>) -> Seq<int> {
    order_upto(ps, 5)
}

/// Greedy retention along `order`: a system message is always kept, any
/// other message when its tokens still fit in what is left of the budget.
/// Yields the kept flags of `n` positions and the tokens they use.
pub open spec fn greedy(order: Seq<int>, ps: Seq<Priority>, tokens: Seq<nat>, budget: nat, n: nat) -> (Seq<bool>, nat)
    decreases order.len(),
{
    if order.len() == 0 {
        (Seq::new(n, |i: int| false), 0)
    } else {
        let (keep, used) = greedy(order.drop_last(), ps, tokens, budget, n);
        let i = order.last();
        if ps[i] == Priority::System || used + tokens[i] <= budget {
            (keep.update(i, true), used + tokens[i])
        } else {
            (keep, used)
        }
    }
}

/// Which messages a budget of `budget` tokens retains.
pub open spec fn retained(ms: Seq<MessageView>, budget: nat, recent_window: int) -> Seq<bool> {
    let ps = priorities(ms, recent_window);
    greedy(retention_order(ps), ps, token_counts(ms), budget, ms.len()).0
}

/// `x`, or the largest `usize` where `x` exceeds it.
pub open spec fn capped_usize(x: nat) -> nat {
    if x > usize::MAX {
        usize::MAX as nat
    } else {
        x
    }
}

/// One piece of a compacted conversation.
#[derive(Debug, Clone, Copy, PartialEq, Eq, Structural)]
pub enum Segment {
    /// Keep the message at this position.
    Keep(usize),
    /// Replace the messages in `start..end` by one summary.
    Summarise(usize, usize),
}

/// Segments for the first `k` positions, and the start of the run of
/// dropped positions still open at `k`.
pub open spec fn segments_upto(keep: Seq<bool>, k: int) -> (Seq<Segment>, Option<int>)
    decreases k,
{
    if k <= 0 {
        (Seq::empty(), None)
    } else {
        let (segs, open) = segments_upto(keep, k - 1);
        let i = k - 1;
        if keep[i] {
            let closed = match open {
                Some(s) => segs.push(Segment::Summarise(s as usize, i as usize)),
                None => segs,
            };
            (closed.push(Segment::Keep(i as usize)), None)
        } else {
            (segs, match open {
                Some(s) => Some(s),
                None => Some(i),
            })
        }
    }
}

/// The compacted shape of a conversation: kept messages in order, each
/// maximal run of dropped messages replaced by one summary in its place.
pub open spec fn segments_of(keep: Seq<bool>) -> Seq<Segment> {
    let (segs, open) = segments_upto(keep, keep.len() as int);
    match open {
        Some(s) => segs.push(Segment::Summarise(s as usize, keep.len() as usize)),
        None => segs,
    }
}

/// Every kept position has its `Keep` segment.
proof fn lemma_kept_upto(keep: Seq<bool>, k: int, i: int)
    requires
        0 <= i < k <= keep.len(),
        keep[i],
    ensures
        segments_upto(keep, k).0.contains(Segment::Keep(i as usize)),
    decreases k,
{
    let (segs, open) = segments_upto(keep, k - 1);
    if i == k - 1 {
        let closed = match open {
            Some(s) => segs.push(Segment::Summarise(s as usize, i as usize)),
            None => segs,
        };
        assert(closed.push(Segment::Keep(i as usize)).last() == Segment::Keep(i as usize));
    } else {
        lemma_kept_upto(keep, k - 1, i);
        let w = choose|w: int| 0 <= w < segs.len() && segs[w] == Segment::Keep(i as usize);
        if keep[k - 1] {
            let closed = match open {
                Some(s) => segs.push(Segment::Summarise(s as usize, (k - 1) as usize)),
                None => segs,
            };
            assert(closed[w] == Segment::Keep(i as usize));
            assert(closed.push(Segment::Keep((k - 1) as usize))[w] == Segment::Keep(i as usize));
        }
    }
}

/// The segments of a compaction keep every kept position in place.
pub proof fn lemma_kept_in_segments(keep: Seq<bool>, i: int)
    requires
        0 <= i < keep.len(),
        keep[i],
    ensures
        segments_of(keep).contains(Segment::Keep(i as usize)),
{
    lemma_kept_upto(keep, keep.len() as int, i);
    let (segs, open) = segments_upto(keep, keep.len() as int);
    let w = choose|w: int| 0 <= w < segs.len() && segs[w] == Segment::Keep(i as usize);
    if open is Some {
        assert(segs.push(Segment::Summarise(open->0 as usize, keep.len() as usize))[w] == Segment::Keep(i as usize));
    }
}

/// Rank of a priority, computed.
fn rank_of(p: Priority) -> (result: u8)
    ensures
        result as nat == rank(p),
{
    match p {
        Priority::System => 0,
        Priority::RecentUser => 1,
        Priority::RecentAssistant => 2,
        Priority::ToolResult => 3,
        Priority::Older => 4,
    }
}

/// Kept flags for `messages` under `budget`.
#[verifier::spinoff_prover]
pub fn retention_plan(messages: &[Message], budget: u32, recent_window: usize) -> (result: Vec<bool>)
    ensures
        result@ == retained(views(messages@), budget as nat, recent_window as int),
        result@.len() == messages@.len(),
{
    let n = messages.len();
    let ghost ms = views(messages@);
    let ghost ps = priorities(ms, recent_window as int);
    let ghost toks = token_counts(ms);
    let mut prios: Vec<Priority> = Vec::new();
    let mut tokens: Vec<usize> = Vec::new();
    let mut keep: Vec<bool> = Vec::new();
    let mut i: usize = 0;
    while i < n
        invariant
            n == messages@.len(),
            ms == views(messages@),
            ps == priorities(ms, recent_window as int),
            toks == token_counts(ms),
            i <= n,
            prios@ == ps.take(i as int),
            tokens@.len() == i,
            forall|j: int| 0 <= j < i ==> #[trigger] tokens@[j] as nat == toks[j],
            forall|j: int| 0 <= j < i ==> #[trigger] tokens@[j] >= 1,
            keep@ == Seq::new(i as nat, |j: int| false),
        decreases n - i,
    {
        prios.push(messages[i].priority(i, n, recent_window));
        let t = messages[i].estimate_tokens();
        assert(ms[i as int] == messages@[i as int]@);
        assert(t as nat == toks[i as int]);
        tokens.push(t);
        assert(tokens@[i as int] == t);
        keep.push(false);
        assert(prios@ =~= ps.take(i + 1));
        assert(keep@ =~= Seq::new((i + 1) as nat, |j: int| false));
        i = i + 1;
    }
    assert(prios@ =~= ps);
    let ghost order = Seq::<int>::empty();
    let mut used: usize = 0;
    let budget_size = budget as usize;
    let mut r: u8 = 0;
    assert(order_upto(ps, 0) + class_upto(ps, 0, 0) =~= Seq::<int>::empty());
    while r < 5
        invariant
            n == messages@.len(),
            ps.len() == n,
            toks.len() == n,
            prios@ == ps,
            tokens@.len() == n,
            forall|j: int| 0 <= j < n ==> #[trigger] tokens@[j] as nat == toks[j],
            forall|j: int| 0 <= j < n ==> #[trigger] tokens@[j] >= 1,
            budget_size == budget,
            r <= 5,
            keep@.len() == n,
            keep@ == greedy(order_upto(ps, r as nat), ps, toks, budget as nat, n as nat).0,
            used as nat == capped_usize(greedy(order_upto(ps, r as nat), ps, toks, budget as nat, n as nat).1),
        decreases 5 - r,
    {
        let mut k: usize = 0;
        assert(order_upto(ps, r as nat) + class_upto(ps, r as nat, 0) =~= order_upto(ps, r as nat));
        while k < n
            invariant
                n == messages@.len(),
                ps.len() == n,
                toks.len() == n,
                prios@ == ps,
                tokens@.len() == n,
                forall|j: int| 0 <= j < n ==> #[trigger] tokens@[j] as nat == toks[j],
            forall|j: int| 0 <= j < n ==> #[trigger] tokens@[j] >= 1,
                budget_size == budget,
                r < 5,
                k <= n,
                keep@.len() == n,
                keep@ == greedy(
                    order_upto(ps, r as nat) + class_upto(ps, r as nat, k as int),
                    ps,
                    toks,
                    budget as nat,
                    n as nat,
                ).0,
                used as nat == capped_usize(greedy(
                    order_upto(ps, r as nat) + class_upto(ps, r as nat, k as int),
                    ps,
                    toks,
                    budget as nat,
                    n as nat,
                ).1),
            decreases n - k,
        {
            let ghost before = order_upto(ps, r as nat) + class_upto(ps, r as nat, k as int);
            if rank_of(prios[k]) == r {
                let ghost after = before.push(k as int);
                assert(order_upto(ps, r as nat) + class_upto(ps, r as nat, k + 1) =~= after);
                assert(after.drop_last() =~= before);
                if r == 0 {
                    keep.set(k, true);
                    used = used.saturating_add(tokens[k]);
                } else if used <= budget_size && tokens[k] <= budget_size - used {
                    keep.set(k, true);
                    used = used + tokens[k];
                }
            } else {
                assert(order_upto(ps, r as nat) + class_upto(ps, r as nat, k + 1) =~= before);
            }
            k = k + 1;
        }
        r = r + 1;
    }
    keep
}

/// The segments of a compaction with kept flags `keep`.
pub fn compaction_segments(keep: &Vec<bool>) -> (result: Vec<Segment>)
    ensures
        result@ == segments_of(keep@),
{
    let mut segs: Vec<Segment> = Vec::new();
    let mut open: Option<usize> = None;
    let mut i: usize = 0;
    while i < keep.len()
        invariant
            i <= keep@.len(),
            (segs@, match open { Some(s) => Some(s as int), None => None::<int> }) == segments_upto(keep@, i as int),
            match open { Some(s) => s < i, None => true },
        decreases keep@.len() - i,
    {
        if keep[i] {
            match open {
                Some(s) => segs.push(Segment::Summarise(s, i)),
                None => {},
            }
            segs.push(Segment::Keep(i));
            open = None;
        } else {
            match open {
                Some(_) => {},
                None => {
                    open = Some(i);
                },
            }
        }
        i = i + 1;
    }
    match open {
        Some(s) => segs.push(Segment::Summarise(s, keep.len())),
        None => {},
    }
    segs
}

/// System prompt used to summarise conversation excerpts.
pub const COMPACTION_SYSTEM_PROMPT: &'static str = "Summarise the following conversation excerpt concisely.";

/// Prefix of the content of summary messages.
pub const SUMMARY_PREFIX: &'static str = "[context summary] ";

/// Instructs the model how to select a tool.
#[derive(Debug, Clone, PartialEq, Eq)]
pub enum ToolChoice {
    /// Model decides whether to call a tool.
    Auto,
    /// Model must not call any tool.
    NoTool,
    /// Model must call at least one tool.
    Required,
    /// Model must call exactly this named tool.
    Specific(String),
}

/// Instructs the model how to format its response.
#[derive(Debug)]
pub enum ResponseFormat {
    /// Plain text.
    Text,
    /// Any valid JSON object.
    JsonObject,
    /// JSON that matches the given JSON Schema.
    JsonSchema {
        /// JSON Schema the output must conform to.
        schema: serde_json::Value,
    },
}

/// Definition of a tool available to an agent.
#[derive(Debug)]
pub struct ToolDef {
    /// Tool name.
    pub name: String,
    /// Description.
    pub description: String,
    /// JSON schema for parameters.
    pub parameters: serde_json::Value,
}

/// A tool definition as plain values.
pub struct ToolDefView {
    /// Tool name.
    pub name: Seq<char>,
    /// Description.
    pub description: Seq<char>,
    /// JSON schema for parameters.
    pub parameters: serde_json::Value,
}

impl View for ToolDef {
    type V = ToolDefView;

    open spec fn view(&self) -> ToolDefView {
        ToolDefView { name: self.name@, description: self.description@, parameters: self.parameters }
    }
}

/// Model provider request.
#[derive(Debug)]
pub struct ModelRequest {
    /// System prompt.
    pub system: String,
    /// Conversation messages.
    pub messages: Vec<StringMap<serde_json::Value>>,
    /// Tools available.
    pub tools: Vec<ToolDef>,
    /// Maximum tokens.
    pub max_tokens: Option<i32>,
    /// How the model selects tools.
    pub tool_choice: Option<ToolChoice>,
    /// Response format constraint.
    pub response_format: Option<ResponseFormat>,
    /// Allow the model to call multiple tools in a single turn.
    pub parallel_tool_calls: Option<bool>,
}

/// Model provider response.
#[derive(Debug)]
pub struct ModelResponse {
    /// Response content.
    pub content: String,
    /// Tool calls requested by the model.
    pub tool_calls: Vec<ToolCall>,
    /// Tokens consumed.
    pub tokens_used: Option<i32>,
    /// Structured JSON output.
    pub structured_output: Option<serde_json::Value>,
}

/// A language model that answers requests.
pub trait ModelProvider {
    /// Whether `response` is an answer of this model to `request`. A model
    /// may narrow this down; by default any response may answer.
    closed spec fn answers(&self, request: ModelRequest, response: ModelResponse) -> bool {
        true
    }

    /// Whether this model may fail `request` with `error`. A model may
    /// narrow this down; by default any error may come.
    closed spec fn refuses(&self, request: ModelRequest, error: Error) -> bool {
        true
    }

    /// Send one request to the model; a response is its answer to
    /// `request`, an error its refusal of it.
    fn call(&self, request: ModelRequest) -> (result: Result<ModelResponse, Error>)
        ensures
            result matches Ok(response) ==> self.answers(request, response),
            result matches Err(error) ==> self.refuses(request, error),
    ;
}

/// `provider` failed with `error` when asked for the summary of the
/// excerpt `ms`.
pub open spec fn refused_summary<P: ModelProvider>(provider: P, error: Error, ms: Seq<MessageView>) -> bool {
    exists|request: ModelRequest|
        #![trigger provider.refuses(request, error)]
        is_summary_request(request, excerpt_text(ms)) && provider.refuses(request, error)
}

/// `m` is the summary that `provider` gave of the excerpt `ms`: the
/// provider answered the summary request for `ms` with a response whose
/// content `m` carries.
pub open spec fn summarised_by<P: ModelProvider>(provider: P, m: MessageView, ms: Seq<MessageView>) -> bool {
    exists|request: ModelRequest, response: ModelResponse|
        #![trigger provider.answers(request, response)]
        is_summary_request(request, excerpt_text(ms)) && provider.answers(request, response)
            && is_summary_of(m, response.content@)
}

/// One line of a summarised excerpt.
pub open spec fn excerpt_line(m: MessageView) -> Seq<char> {
    "["@ + m.role + "]: "@ + m.content
}

/// Lines of an excerpt joined by newlines.
pub open spec fn excerpt_text(ms: Seq<MessageView>) -> Seq<char>
    decreases ms.len(),
{
    if ms.len() == 0 {
        Seq::empty()
    } else if ms.len() == 1 {
        excerpt_line(ms[0])
    } else {
        excerpt_text(ms.drop_last()) + "\n"@ + excerpt_line(ms.last())
    }
}

/// The request that asks for a summary of `text`.
pub open spec fn is_summary_request(request: ModelRequest, text: Seq<char>) -> bool {
    &&& request.system@ == COMPACTION_SYSTEM_PROMPT@
    &&& request.messages@.len() == 1
    &&& request.messages@[0].wf()
    &&& request.messages@[0].as_map() == Map::<Seq<char>, serde_json::Value>::empty().insert(
        "role"@,
        json_string(ROLE_USER@),
    ).insert("content"@, json_string(text))
    &&& request.tools@.len() == 0
    &&& request.max_tokens == Some(DEFAULT_COMPACTION_MAX_TOKENS)
    &&& request.tool_choice is None
    &&& request.response_format is None
    &&& request.parallel_tool_calls is None
}

/// The request for a summary of `messages[start..end]`.
pub fn summary_request(messages: &[Message], start: usize, end: usize) -> (result: ModelRequest)
    requires
        start < end <= messages@.len(),
    ensures
        is_summary_request(result, excerpt_text(views(messages@).subrange(start as int, end as int))),
{
    let ghost ms = views(messages@);
    let mut text = String::new();
    let mut i: usize = start;
    while i < end
        invariant
            start <= i <= end,
            end <= messages@.len(),
            ms == views(messages@),
            text@ == excerpt_text(ms.subrange(start as int, i as int)),
        decreases end - i,
    {
        if i > start {
            text.append("\n");
        }
        text.append("[");
        text.append(messages[i].role.as_str());
        text.append("]: ");
        text.append(messages[i].content.as_str());
        proof {
            let next = ms.subrange(start as int, i + 1);
            assert(next.drop_last() =~= ms.subrange(start as int, i as int));
            assert(next.last() == messages@[i as int]@);
            if i == start {
                assert(excerpt_text(ms.subrange(start as int, i as int)) =~= Seq::<char>::empty());
            }
        }
        i = i + 1;
    }
    let mut entry: StringMap<serde_json::Value> = StringMap::new();
    entry.insert("role".to_owned(), json_from_str(ROLE_USER));
    entry.insert("content".to_owned(), json_from_str(text.as_str()));
    let mut entries: Vec<StringMap<serde_json::Value>> = Vec::new();
    entries.push(entry);
    ModelRequest {
        system: COMPACTION_SYSTEM_PROMPT.to_owned(),
        messages: entries,
        tools: Vec::new(),
        max_tokens: Some(DEFAULT_COMPACTION_MAX_TOKENS),
        tool_choice: None,
        response_format: None,
        parallel_tool_calls: None,
    }
}

/// The summary message carrying `content`.
pub open spec fn is_summary_of(m: MessageView, content: Seq<char>) -> bool {
    &&& m.role == ROLE_SYSTEM@
    &&& m.content == SUMMARY_PREFIX@ + content
    &&& m.tool_calls.len() == 0
    &&& m.tool_call_id is None
}

/// The message that stands in for a summarised excerpt.
pub fn summary_message(response: ModelResponse) -> (result: Message)
    ensures
        is_summary_of(result@, response.content@),
{
    Message {
        role: ROLE_SYSTEM.to_owned(),
        content: concat(SUMMARY_PREFIX, response.content.as_str()),
        tool_calls: Vec::new(),
        tool_call_id: None,
    }
}

/// Bounds of the segments built for the first `k` positions.
pub proof fn lemma_segments_upto(keep: Seq<bool>, k: int)
    requires
        0 <= k <= keep.len(),
        keep.len() <= usize::MAX,
    ensures
        forall|j: int| 0 <= j < segments_upto(keep, k).0.len() ==> match #[trigger] segments_upto(keep, k).0[j] {
            Segment::Keep(i) => i < k,
            Segment::Summarise(s, e) => s < e <= k,
        },
        match segments_upto(keep, k).1 {
            Some(s) => 0 <= s < k,
            None => true,
        },
    decreases k,
{
    if k > 0 {
        lemma_segments_upto(keep, k - 1);
    }
}

/// Every segment of a compaction lies within the conversation.
pub proof fn lemma_segments_in_bounds(keep: Seq<bool>)
    requires
        keep.len() <= usize::MAX,
    ensures
        forall|j: int| 0 <= j < segments_of(keep).len() ==> match #[trigger] segments_of(keep)[j] {
            Segment::Keep(i) => i < keep.len(),
            Segment::Summarise(s, e) => s < e <= keep.len(),
        },
{
    lemma_segments_upto(keep, keep.len() as int);
}

/// Tracks a token budget and compacts message history when it is exceeded.
pub struct ContextEngineer<P> {
    budget: u32,
    summarizer: P,
    recent_window: usize,
}

impl<P: ModelProvider> ContextEngineer<P> {
    /// The token budget.
    pub closed spec fn spec_budget(&self) -> u32 {
        self.budget
    }

    /// How many trailing messages count as recent.
    pub closed spec fn spec_recent_window(&self) -> usize {
        self.recent_window
    }

    /// The model that writes summaries.
    pub closed spec fn spec_summarizer(&self) -> P {
        self.summarizer
    }

    /// Create a new engineer with the given token budget; the last six
    /// messages count as recent.
    pub fn new(budget: u32, summarizer: P) -> (result: ContextEngineer<P>)
        ensures
            result.spec_budget() == budget,
            result.spec_recent_window() == 6,
    {
        ContextEngineer { budget, summarizer, recent_window: 6 }
    }

    /// Estimate total tokens for a message slice.
    pub fn estimate_tokens(messages: &[Message]) -> (result: usize)
        requires
            total_tokens(views(messages@)) <= usize::MAX,
        ensures
            result == total_tokens(views(messages@)),
    {
        let ghost ms = views(messages@);
        let mut sum: usize = 0;
        let mut i: usize = 0;
        while i < messages.len()
            invariant
                i <= messages@.len(),
                ms == views(messages@),
                total_tokens(ms) <= usize::MAX,
                sum == total_tokens(ms.take(i as int)),
            decreases messages@.len() - i,
        {
            proof {
                assert(ms.take(i + 1).drop_last() =~= ms.take(i as int));
                lemma_total_tokens_prefix(ms, i + 1);
            }
            sum = sum + messages[i].estimate_tokens();
            i = i + 1;
        }
        assert(ms.take(ms.len() as int) =~= ms);
        sum
    }

    /// Whether the messages exceed the budget.
    pub fn is_over_budget(&self, messages: &[Message]) -> (result: bool)
        ensures
            result == (total_tokens(views(messages@)) > self.spec_budget()),
    {
        over_budget(messages, self.budget as usize)
    }

    /// Summarise `messages[start..end]` into one summary message through
    /// the summarizer; its error, if the request fails.
    fn summarise(&self, messages: &[Message], start: usize, end: usize) -> (result: Result<Message, Error>)
        requires
            start < end <= messages@.len(),
        ensures
            result matches Ok(m) ==> summarised_by(
                self.summarizer,
                m@,
                views(messages@).subrange(start as int, end as int),
            ),
            result matches Err(e) ==> refused_summary(
                self.summarizer,
                e,
                views(messages@).subrange(start as int, end as int),
            ),
    {
        let request = summary_request(messages, start, end);
        let ghost sent = request;
        match self.summarizer.call(request) {
            Ok(response) => {
                let ghost answer = response;
                let summary = summary_message(response);
                assert(self.summarizer.answers(sent, answer));
                assert(is_summary_of(summary@, answer.content@));
                Ok(summary)
            },
            Err(error) => {
                assert(self.summarizer.refuses(sent, error));
                Err(error)
            },
        }
    }

    /// Compact `messages` to fit the budget.
    ///
    /// Messages are retained greedily in priority order while they fit; each
    /// maximal run of dropped messages is replaced, in its place, by one
    /// summary obtained from the summarizer. Fails with the summarizer's
    /// error if a summary request fails.
    pub fn compact(&self, messages: &[Message]) -> (result: Result<Vec<Message>, Error>)
        ensures
            ({
                let segs = segments_of(retained(views(messages@), self.spec_budget() as nat, self.spec_recent_window() as int));
                &&& match result {
                    Ok(out) => {
                        &&& out@.len() == segs.len()
                        &&& forall|k: int| 0 <= k < segs.len() ==> match #[trigger] segs[k] {
                            Segment::Keep(i) => out@[k]@ == messages@[i as int]@,
                            Segment::Summarise(s, e) => summarised_by(
                                self.spec_summarizer(),
                                out@[k]@,
                                views(messages@).subrange(s as int, e as int),
                            ),
                        }
                    },
                    Err(e) => exists|k: int| 0 <= k < segs.len() && match #[trigger] segs[k] {
                        Segment::Summarise(s, t) => refused_summary(
                            self.spec_summarizer(),
                            e,
                            views(messages@).subrange(s as int, t as int),
                        ),
                        Segment::Keep(_) => false,
                    },
                }
                &&& (forall|k: int| 0 <= k < segs.len() ==> #[trigger] segs[k] is Keep) ==> result is Ok
                &&& forall|i: int| 0 <= i < messages@.len() && #[trigger] messages@[i].role@ == ROLE_SYSTEM@
                    ==> segs.contains(Segment::Keep(i as usize))
            }),
    {
        let keep = retention_plan(messages, self.budget, self.recent_window);
        let segs = compaction_segments(&keep);
        let keep_len = keep.len();
        let ghost spec_segs = segments_of(retained(views(messages@), self.spec_budget() as nat, self.spec_recent_window() as int));
        proof {
            lemma_segments_in_bounds(keep@);
            assert(spec_segs == segs@);
            let ms = views(messages@);
            assert forall|i: int| 0 <= i < messages@.len() && #[trigger] messages@[i].role@ == ROLE_SYSTEM@
                implies spec_segs.contains(Segment::Keep(i as usize)) by {
                assert(ms[i].role == messages@[i].role@);
                lemma_system_messages_retained(ms, self.spec_budget() as nat, self.spec_recent_window() as int, i);
                lemma_kept_in_segments(keep@, i);
            }
        }
        let mut out: Vec<Message> = Vec::new();
        let mut k: usize = 0;
        while k < segs.len()
            invariant
                k <= segs@.len(),
                keep@.len() == messages@.len(),
                segs@ == segments_of(keep@),
                spec_segs == segs@,
                spec_segs == segments_of(retained(views(messages@), self.spec_budget() as nat, self.spec_recent_window() as int)),
                forall|i: int| 0 <= i < messages@.len() && #[trigger] messages@[i].role@ == ROLE_SYSTEM@
                    ==> spec_segs.contains(Segment::Keep(i as usize)),
                forall|j: int| 0 <= j < segs@.len() ==> match #[trigger] segs@[j] {
                    Segment::Keep(i) => i < keep@.len(),
                    Segment::Summarise(s, e) => s < e <= keep@.len(),
                },
                out@.len() == k,
                forall|j: int| 0 <= j < k ==> match #[trigger] segs@[j] {
                    Segment::Keep(i) => out@[j]@ == messages@[i as int]@,
                    Segment::Summarise(s, e) => summarised_by(
                        self.spec_summarizer(),
                        out@[j]@,
                        views(messages@).subrange(s as int, e as int),
                    ),
                },
            decreases segs@.len() - k,
        {
            let ghost before = out@;
            match segs[k] {
                Segment::Keep(i) => {
                    out.push(messages[i].duplicate());
                    assert(out@[k as int]@ == messages@[i as int]@);
                },
                Segment::Summarise(s, e) => {
                    match self.summarise(messages, s, e) {
                        Ok(summary) => {
                            out.push(summary);
                            assert(out@[k as int] == summary);
                        },
                        Err(error) => {
                            assert(spec_segs[k as int] is Summarise);
                            assert(match spec_segs[k as int] {
                                Segment::Summarise(s0, t0) => refused_summary(
                                    self.spec_summarizer(),
                                    error,
                                    views(messages@).subrange(s0 as int, t0 as int),
                                ),
                                Segment::Keep(_) => false,
                            });
                            assert(!(forall|j: int| 0 <= j < spec_segs.len() ==> #[trigger] spec_segs[j] is Keep));
                            return Err(error);
                        },
                    }
                },
            }
            assert forall|j: int| 0 <= j < k + 1 implies match #[trigger] segs@[j] {
                Segment::Keep(i) => out@[j]@ == messages@[i as int]@,
                Segment::Summarise(s, e) => summarised_by(
                    self.spec_summarizer(),
                    out@[j]@,
                    views(messages@).subrange(s as int, e as int),
                ),
            } by {
                if j < k {
                    assert(out@[j] == before[j]);
                }
            }
            k = k + 1;
        }
        Ok(out)
    }
}

/// Whether the estimated tokens of `messages` exceed `limit`.
pub fn over_budget(messages: &[Message], limit: usize) -> (result: bool)
    ensures
        result == (total_tokens(views(messages@)) > limit),
{
    let ghost ms = views(messages@);
    let mut sum: usize = 0;
    let mut i: usize = 0;
    while i < messages.len()
        invariant
            i <= messages@.len(),
            ms == views(messages@),
            sum == total_tokens(ms.take(i as int)),
            sum <= limit,
        decreases messages@.len() - i,
    {
        proof {
            assert(ms.take(i + 1).drop_last() =~= ms.take(i as int));
        }
        let t = messages[i].estimate_tokens();
        if t > limit - sum {
            proof {
                lemma_total_tokens_prefix(ms, i + 1);
            }
            return true;
        }
        sum = sum + t;
        i = i + 1;
    }
    assert(ms.take(ms.len() as int) =~= ms);
    false
}

/// Token totals only grow as a conversation extends.
pub proof fn lemma_total_tokens_prefix(ms: Seq<MessageView>, k: int)
    requires
        0 <= k <= ms.len(),
    ensures
        total_tokens(ms.take(k)) <= total_tokens(ms),
    decreases ms.len() - k,
{
    if k < ms.len() {
        lemma_total_tokens_prefix(ms, k + 1);
        assert(ms.take(k + 1).drop_last() =~= ms.take(k));
    } else {
        assert(ms.take(k) =~= ms);
    }
}

/// Position of the first message that is not a system message.
pub open spec fn first_non_system(ms: Seq<MessageView>) -> Option<int>
    decreases ms.len(),
{
    if ms.len() == 0 {
        None
    } else {
        match first_non_system(ms.drop_last()) {
            Some(i) => Some(i),
            None => if ms.last().role != ROLE_SYSTEM@ {
                Some(ms.len() - 1)
            } else {
                None
            },
        }
    }
}

/// The excerpt a rolling compaction summarises next: up to ten messages
/// from the first non-system message (or from position one when every
/// message is a system message). None once the conversation fits in
/// `max_tokens` or no excerpt is left.
pub open spec fn rolling_window(ms: Seq<MessageView>, max_tokens: nat) -> Option<(int, int)> {
    if total_tokens(ms) <= max_tokens {
        None
    } else {
        let start = match first_non_system(ms) {
            Some(i) => i,
            None => 1,
        };
        let end = if start + 10 < ms.len() { start + 10 } else { ms.len() as int };
        if start >= end {
            None
        } else {
            Some((start, end))
        }
    }
}

/// What `first_non_system` finds.
pub proof fn lemma_first_non_system(ms: Seq<MessageView>)
    ensures
        match first_non_system(ms) {
            Some(i) => 0 <= i < ms.len() && ms[i].role != ROLE_SYSTEM@ && forall|j: int|
                0 <= j < i ==> #[trigger] ms[j].role == ROLE_SYSTEM@,
            None => forall|j: int| 0 <= j < ms.len() ==> #[trigger] ms[j].role == ROLE_SYSTEM@,
        },
    decreases ms.len(),
{
    if ms.len() > 0 {
        lemma_first_non_system(ms.drop_last());
        assert forall|j: int| 0 <= j < ms.len() - 1 implies #[trigger] ms[j] == ms.drop_last()[j] by {}
    }
}

/// A rolling excerpt is a non-empty range of the conversation.
pub proof fn lemma_rolling_window_bounds(ms: Seq<MessageView>, max_tokens: nat)
    ensures
        match rolling_window(ms, max_tokens) {
            Some((s, e)) => 0 <= s < e <= ms.len(),
            None => true,
        },
{
    lemma_first_non_system(ms);
}

/// Compacts a message history by repeatedly summarising the oldest
/// non-system excerpt while the estimated tokens exceed a budget.
pub struct RollingCompactor<P> {
    max_tokens: u32,
    summarizer: P,
}

impl<P: ModelProvider> RollingCompactor<P> {
    /// The token budget.
    pub closed spec fn spec_max_tokens(&self) -> u32 {
        self.max_tokens
    }

    /// The model that writes summaries.
    pub closed spec fn spec_summarizer(&self) -> P {
        self.summarizer
    }

    /// Create a new compactor.
    pub fn new(max_tokens: u32, summarizer: P) -> (result: RollingCompactor<P>)
        ensures
            result.spec_max_tokens() == max_tokens,
    {
        RollingCompactor { max_tokens, summarizer }
    }

    /// Estimated tokens of a conversation.
    pub fn estimate_tokens(messages: &[Message]) -> (result: usize)
        requires
            total_tokens(views(messages@)) <= usize::MAX,
        ensures
            result == total_tokens(views(messages@)),
    {
        let ghost ms = views(messages@);
        let mut sum: usize = 0;
        let mut i: usize = 0;
        while i < messages.len()
            invariant
                i <= messages@.len(),
                ms == views(messages@),
                total_tokens(ms) <= usize::MAX,
                sum == total_tokens(ms.take(i as int)),
            decreases messages@.len() - i,
        {
            proof {
                assert(ms.take(i + 1).drop_last() =~= ms.take(i as int));
                lemma_total_tokens_prefix(ms, i + 1);
            }
            sum = sum + messages[i].estimate_tokens();
            i = i + 1;
        }
        assert(ms.take(ms.len() as int) =~= ms);
        sum
    }

    /// Summarise `messages[start..end]` into one summary message through
    /// the summarizer; its error, if the request fails.
    fn summarise(&self, messages: &[Message], start: usize, end: usize) -> (result: Result<Message, Error>)
        requires
            start < end <= messages@.len(),
        ensures
            result matches Ok(m) ==> summarised_by(
                self.summarizer,
                m@,
                views(messages@).subrange(start as int, end as int),
            ),
            result matches Err(e) ==> refused_summary(
                self.summarizer,
                e,
                views(messages@).subrange(start as int, end as int),
            ),
    {
        let request = summary_request(messages, start, end);
        let ghost sent = request;
        match self.summarizer.call(request) {
            Ok(response) => {
                let ghost answer = response;
                let summary = summary_message(response);
                assert(self.summarizer.answers(sent, answer));
                assert(is_summary_of(summary@, answer.content@));
                Ok(summary)
            },
            Err(error) => {
                assert(self.summarizer.refuses(sent, error));
                Err(error)
            },
        }
    }

    /// The excerpt to summarise next, if any.
    pub fn next_window(&self, messages: &[Message]) -> (result: Option<(usize, usize)>)
        ensures
            match rolling_window(views(messages@), self.spec_max_tokens() as nat) {
                Some((s, e)) => result == Some((s as usize, e as usize)),
                None => result is None,
            },
            result matches Some((s, e)) ==> s < e <= messages@.len(),
    {
        if !over_budget(messages, self.max_tokens as usize) {
            return None;
        }
        let start = match first_non_system_index(messages) {
            Some(i) => i,
            None => 1,
        };
        proof {
            lemma_first_non_system(views(messages@));
            assert(views(messages@).len() == messages@.len());
        }
        let end = if start < messages.len() && messages.len() - start > 10 {
            start + 10
        } else {
            messages.len()
        };
        if start >= end {
            None
        } else {
            Some((start, end))
        }
    }

    /// One round of rolling compaction: summarise the next excerpt and put
    /// the summary in its place. `Ok(None)` once nothing is left to do.
    pub fn step(&self, messages: &[Message]) -> (result: Result<Option<Vec<Message>>, Error>)
        ensures
            match rolling_window(views(messages@), self.spec_max_tokens() as nat) {
                None => result matches Ok(None),
                Some((s, e)) => match result {
                    Ok(Some(out)) => exists|summary: MessageView| {
                        &&& views(out@) == views(messages@).subrange(0, s) + seq![summary]
                            + views(messages@).subrange(e, messages@.len() as int)
                        &&& summarised_by(self.spec_summarizer(), summary, views(messages@).subrange(s, e))
                    },
                    Ok(None) => false,
                    Err(err) => refused_summary(self.spec_summarizer(), err, views(messages@).subrange(s, e)),
                },
            },
    {
        let total = messages.len();
        match self.next_window(messages) {
            None => Ok(None),
            Some((start, end)) => {
                match self.summarise(messages, start, end) {
                    Ok(summary) => {
                        let ghost sv = summary@;
                        let out = splice_summary(messages, start, end, summary);
                        proof {
                            let w = rolling_window(views(messages@), self.spec_max_tokens() as nat);
                            lemma_rolling_window_bounds(views(messages@), self.spec_max_tokens() as nat);
                            assert(w is Some);
                            let (s, e) = w.unwrap();
                            assert(0 <= s < e <= messages@.len());
                            assert(s == start as int && e == end as int);
                            assert(views(out@) == views(messages@).subrange(0, s) + seq![sv]
                                + views(messages@).subrange(e, messages@.len() as int));
                            assert(summarised_by(self.spec_summarizer(), sv, views(messages@).subrange(s, e)));
                        }
                        Ok(Some(out))
                    },
                    Err(error) => {
                        proof {
                            let w = rolling_window(views(messages@), self.spec_max_tokens() as nat);
                            lemma_rolling_window_bounds(views(messages@), self.spec_max_tokens() as nat);
                            let (s, e) = w.unwrap();
                            assert(s == start as int && e == end as int);
                            assert(refused_summary(self.spec_summarizer(), error, views(messages@).subrange(s, e)));
                        }
                        Err(error)
                    },
                }
            },
        }
    }
}

/// Position of the first message that is not a system message.
pub fn first_non_system_index(messages: &[Message]) -> (result: Option<usize>)
    ensures
        match first_non_system(views(messages@)) {
            Some(i) => result == Some(i as usize),
            None => result is None,
        },
{
    let ghost ms = views(messages@);
    proof {
        lemma_first_non_system(ms);
    }
    let mut i: usize = 0;
    while i < messages.len()
        invariant
            i <= messages@.len(),
            ms == views(messages@),
            forall|j: int| 0 <= j < i ==> #[trigger] ms[j].role == ROLE_SYSTEM@,
        decreases messages@.len() - i,
    {
        assert(ms[i as int] == messages@[i as int]@);
        if !crate::primitives::str_eq(messages[i].role.as_str(), ROLE_SYSTEM) {
            proof {
                lemma_first_non_system(ms);
                match first_non_system(ms) {
                    None => {
                        assert(ms[i as int].role == ROLE_SYSTEM@);
                    },
                    Some(k) => {
                        if k < i {
                            assert(ms[k].role == ROLE_SYSTEM@);
                        } else if k > i {
                            assert(ms[i as int].role == ROLE_SYSTEM@);
                        }
                    },
                }
            }
            return Some(i);
        }
        i = i + 1;
    }
    proof {
        lemma_first_non_system(ms);
        if first_non_system(ms) is Some {
            let k = first_non_system(ms).unwrap();
            assert(ms[k].role == ROLE_SYSTEM@);
        }
    }
    None
}

/// `messages` with `messages[start..end]` replaced by `summary`.
pub fn splice_summary(messages: &[Message], start: usize, end: usize, summary: Message) -> (result: Vec<Message>)
    requires
        start <= end <= messages@.len(),
    ensures
        views(result@) == views(messages@).subrange(0, start as int) + seq![summary@] + views(
            messages@,
        ).subrange(end as int, messages@.len() as int),
{
    let ghost ms = views(messages@);
    let ghost sv = summary@;
    let mut out: Vec<Message> = Vec::new();
    let mut i: usize = 0;
    while i < start
        invariant
            i <= start <= end <= messages@.len(),
            ms == views(messages@),
            views(out@) == ms.subrange(0, i as int),
        decreases start - i,
    {
        let ghost prev = out@;
        assert(ms[i as int] == messages@[i as int]@);
        out.push(messages[i].duplicate());
        assert(views(out@) =~= views(prev).push(ms[i as int]));
        assert(views(out@) =~= ms.subrange(0, i + 1));
        i = i + 1;
    }
    let ghost prev = out@;
    out.push(summary);
    assert(views(out@) =~= views(prev).push(sv));
    assert(views(out@) =~= ms.subrange(0, start as int) + seq![sv]);
    let mut j: usize = end;
    while j < messages.len()
        invariant
            start <= end <= j <= messages@.len(),
            ms == views(messages@),
            views(out@) == ms.subrange(0, start as int) + seq![sv] + ms.subrange(end as int, j as int),
        decreases messages@.len() - j,
    {
        let ghost prev = out@;
        assert(ms[j as int] == messages@[j as int]@);
        out.push(messages[j].duplicate());
        assert(views(out@) =~= views(prev).push(ms[j as int]));
        assert(views(out@) =~= ms.subrange(0, start as int) + seq![sv] + ms.subrange(end as int, j + 1));
        j = j + 1;
    }
    out
}

/// Tokens of the messages at the positions listed in `order`.
pub open spec fn listed_tokens(order: Seq<int>, tokens: Seq<nat>) -> nat
    decreases order.len(),
{
    if order.len() == 0 {
        0
    } else {
        listed_tokens(order.drop_last(), tokens) + tokens[order.last()]
    }
}

/// Tokens of the messages among the first `k` whose priority ranks `r`.
pub open spec fn rank_tokens(ps: Seq<Priority>, tokens: Seq<nat>, r: nat, k: int) -> nat
    decreases k,
{
    if k <= 0 {
        0
    } else {
        rank_tokens(ps, tokens, r, k - 1) + if rank(ps[k - 1]) == r { tokens[k - 1] } else { 0 }
    }
}

/// Tokens of the messages among the first `k` whose priority ranks below `r`.
pub open spec fn below_tokens(ps: Seq<Priority>, tokens: Seq<nat>, r: nat, k: int) -> nat
    decreases k,
{
    if k <= 0 {
        0
    } else {
        below_tokens(ps, tokens, r, k - 1) + if rank(ps[k - 1]) < r { tokens[k - 1] } else { 0 }
    }
}

proof fn lemma_listed_tokens_concat(a: Seq<int>, b: Seq<int>, tokens: Seq<nat>)
    ensures
        listed_tokens(a + b, tokens) == listed_tokens(a, tokens) + listed_tokens(b, tokens),
    decreases b.len(),
{
    if b.len() == 0 {
        assert(a + b =~= a);
    } else {
        lemma_listed_tokens_concat(a, b.drop_last(), tokens);
        assert((a + b).drop_last() =~= a + b.drop_last());
    }
}

proof fn lemma_class_tokens(ps: Seq<Priority>, tokens: Seq<nat>, r: nat, k: int)
    requires
        0 <= k <= ps.len(),
    ensures
        listed_tokens(class_upto(ps, r, k), tokens) == rank_tokens(ps, tokens, r, k),
    decreases k,
{
    if k > 0 {
        lemma_class_tokens(ps, tokens, r, k - 1);
        if rank(ps[k - 1]) == r {
            assert(class_upto(ps, r, k).drop_last() =~= class_upto(ps, r, k - 1));
        }
    }
}

proof fn lemma_below_split(ps: Seq<Priority>, tokens: Seq<nat>, r: nat, k: int)
    requires
        0 <= k <= ps.len(),
    ensures
        below_tokens(ps, tokens, r + 1, k) == below_tokens(ps, tokens, r, k) + rank_tokens(ps, tokens, r, k),
    decreases k,
{
    if k > 0 {
        lemma_below_split(ps, tokens, r, k - 1);
    }
}

proof fn lemma_order_tokens(ps: Seq<Priority>, tokens: Seq<nat>, r: nat)
    ensures
        listed_tokens(order_upto(ps, r), tokens) == below_tokens(ps, tokens, r, ps.len() as int),
    decreases r,
{
    if r == 0 {
        lemma_below_none(ps, tokens, ps.len() as int);
    } else {
        lemma_order_tokens(ps, tokens, (r - 1) as nat);
        lemma_listed_tokens_concat(order_upto(ps, (r - 1) as nat), class_upto(ps, (r - 1) as nat, ps.len() as int), tokens);
        lemma_class_tokens(ps, tokens, (r - 1) as nat, ps.len() as int);
        lemma_below_split(ps, tokens, (r - 1) as nat, ps.len() as int);
    }
}

proof fn lemma_below_none(ps: Seq<Priority>, tokens: Seq<nat>, k: int)
    ensures
        below_tokens(ps, tokens, 0, k) == 0,
    decreases k,
{
    if k > 0 {
        lemma_below_none(ps, tokens, k - 1);
    }
}

proof fn lemma_below_all(ms: Seq<MessageView>, recent_window: int, k: int)
    requires
        0 <= k <= ms.len(),
    ensures
        below_tokens(priorities(ms, recent_window), token_counts(ms), 5, k) == total_tokens(ms.take(k)),
    decreases k,
{
    if k > 0 {
        lemma_below_all(ms, recent_window, k - 1);
        assert(ms.take(k).drop_last() =~= ms.take(k - 1));
        let p = priorities(ms, recent_window)[k - 1];
        assert(rank(p) < 5);
    }
}

/// Greedy retention keeps every position of an order whose listed tokens
/// fit in the budget, and uses exactly those tokens.
proof fn lemma_greedy_fits(order: Seq<int>, ps: Seq<Priority>, tokens: Seq<nat>, budget: nat, n: nat)
    requires
        listed_tokens(order, tokens) <= budget,
        forall|k: int| 0 <= k < order.len() ==> 0 <= #[trigger] order[k] < n,
    ensures
        greedy(order, ps, tokens, budget, n).1 == listed_tokens(order, tokens),
        greedy(order, ps, tokens, budget, n).0.len() == n,
        forall|k: int| 0 <= k < order.len() ==> greedy(order, ps, tokens, budget, n).0[#[trigger] order[k]],
    decreases order.len(),
{
    if order.len() > 0 {
        let prev = order.drop_last();
        assert forall|k: int| 0 <= k < prev.len() implies 0 <= #[trigger] prev[k] < n by {
            assert(prev[k] == order[k]);
        }
        lemma_greedy_fits(prev, ps, tokens, budget, n);
        assert forall|k: int| 0 <= k < order.len() implies greedy(order, ps, tokens, budget, n).0[#[trigger] order[k]] by {
            if k < order.len() - 1 {
                assert(order[k] == prev[k]);
            }
        }
    }
}

/// Greedy retention keeps every system message of its order.
proof fn lemma_greedy_keeps_system(order: Seq<int>, ps: Seq<Priority>, tokens: Seq<nat>, budget: nat, n: nat)
    requires
        forall|k: int| 0 <= k < order.len() ==> 0 <= #[trigger] order[k] < n,
    ensures
        greedy(order, ps, tokens, budget, n).0.len() == n,
        forall|k: int| 0 <= k < order.len() && ps[order[k]] == Priority::System ==> greedy(order, ps, tokens, budget, n).0[#[trigger] order[k]],
    decreases order.len(),
{
    if order.len() > 0 {
        let prev = order.drop_last();
        assert forall|k: int| 0 <= k < prev.len() implies 0 <= #[trigger] prev[k] < n by {
            assert(prev[k] == order[k]);
        }
        lemma_greedy_keeps_system(prev, ps, tokens, budget, n);
        assert forall|k: int| 0 <= k < order.len() && ps[order[k]] == Priority::System implies greedy(order, ps, tokens, budget, n).0[#[trigger] order[k]] by {
            if k < order.len() - 1 {
                assert(order[k] == prev[k]);
            }
        }
    }
}

proof fn lemma_order_in_range(ps: Seq<Priority>, r: nat)
    ensures
        forall|j: int| 0 <= j < order_upto(ps, r).len() ==> 0 <= #[trigger] order_upto(ps, r)[j] < ps.len(),
    decreases r,
{
    if r > 0 {
        lemma_order_in_range(ps, (r - 1) as nat);
        lemma_class_in_range(ps, (r - 1) as nat, ps.len() as int);
        let a = order_upto(ps, (r - 1) as nat);
        let b = class_upto(ps, (r - 1) as nat, ps.len() as int);
        assert forall|j: int| 0 <= j < (a + b).len() implies 0 <= #[trigger] (a + b)[j] < ps.len() by {
            if j < a.len() {
                assert((a + b)[j] == a[j]);
            } else {
                assert((a + b)[j] == b[j - a.len()]);
            }
        }
    }
}

proof fn lemma_class_in_range(ps: Seq<Priority>, r: nat, k: int)
    requires
        k <= ps.len(),
    ensures
        forall|j: int| 0 <= j < class_upto(ps, r, k).len() ==> 0 <= #[trigger] class_upto(ps, r, k)[j] < k,
    decreases k,
{
    if k > 0 {
        lemma_class_in_range(ps, r, k - 1);
        let c = class_upto(ps, r, k);
        let prev = class_upto(ps, r, k - 1);
        assert forall|j: int| 0 <= j < c.len() implies 0 <= #[trigger] c[j] < k by {
            if j < prev.len() {
                assert(c[j] == prev[j]);
            }
        }
    }
}

proof fn lemma_class_contains(ps: Seq<Priority>, r: nat, k: int, i: int)
    requires
        0 <= i < k <= ps.len(),
        rank(ps[i]) == r,
    ensures
        class_upto(ps, r, k).contains(i),
    decreases k,
{
    if i < k - 1 {
        lemma_class_contains(ps, r, k - 1, i);
        let c = class_upto(ps, r, k - 1);
        let w = choose|w: int| 0 <= w < c.len() && c[w] == i;
        if rank(ps[k - 1]) == r {
            assert(class_upto(ps, r, k)[w] == i);
        }
    } else {
        assert(class_upto(ps, r, k).last() == i);
    }
}

/// A conversation that fits in the budget is retained whole.
pub proof fn lemma_fitting_conversation_retained(ms: Seq<MessageView>, budget: nat, recent_window: int)
    requires
        total_tokens(ms) <= budget,
    ensures
        retained(ms, budget, recent_window) == Seq::new(ms.len(), |i: int| true),
{
    let ps = priorities(ms, recent_window);
    let toks = token_counts(ms);
    let order = retention_order(ps);
    lemma_order_tokens(ps, toks, 5);
    lemma_below_all(ms, recent_window, ms.len() as int);
    assert(ms.take(ms.len() as int) =~= ms);
    lemma_order_in_range(ps, 5);
    lemma_greedy_fits(order, ps, toks, budget, ms.len());
    let keep = retained(ms, budget, recent_window);
    assert forall|i: int| 0 <= i < ms.len() implies keep[i] by {
        let p = ps[i];
        let r = rank(p);
        lemma_class_contains(ps, r, ps.len() as int, i);
        lemma_class_in_order(ps, r, 5, i);
    }
    assert(keep =~= Seq::new(ms.len(), |i: int| true));
}

proof fn lemma_class_in_order(ps: Seq<Priority>, r: nat, upto: nat, i: int)
    requires
        r < upto,
        class_upto(ps, r, ps.len() as int).contains(i),
    ensures
        order_upto(ps, upto).contains(i),
    decreases upto,
{
    let a = order_upto(ps, (upto - 1) as nat);
    let b = class_upto(ps, (upto - 1) as nat, ps.len() as int);
    if r == upto - 1 {
        let w = choose|w: int| 0 <= w < b.len() && b[w] == i;
        assert((a + b)[a.len() + w] == i);
    } else {
        lemma_class_in_order(ps, r, (upto - 1) as nat, i);
        let w = choose|w: int| 0 <= w < a.len() && a[w] == i;
        assert((a + b)[w] == i);
    }
}

/// The positions of a class ascend, and each has the class's rank.
proof fn lemma_class_sorted(ps: Seq<Priority>, r: nat, k: int)
    requires
        k <= ps.len(),
    ensures
        forall|a: int, b: int|
            0 <= a < b < class_upto(ps, r, k).len() ==> #[trigger] class_upto(ps, r, k)[a] < #[trigger] class_upto(
                ps,
                r,
                k,
            )[b],
        forall|a: int| 0 <= a < class_upto(ps, r, k).len() ==> rank(ps[#[trigger] class_upto(ps, r, k)[a]]) == r,
    decreases k,
{
    if k > 0 {
        lemma_class_sorted(ps, r, k - 1);
        lemma_class_in_range(ps, r, k - 1);
        let prev = class_upto(ps, r, k - 1);
        let c = class_upto(ps, r, k);
        assert forall|a: int| 0 <= a < c.len() implies rank(ps[#[trigger] c[a]]) == r by {
            if a < prev.len() {
                assert(c[a] == prev[a]);
            }
        }
        assert forall|a: int, b: int| 0 <= a < b < c.len() implies #[trigger] c[a] < #[trigger] c[b] by {
            assert(c[a] == prev[a]);
            if b < prev.len() {
                assert(c[b] == prev[b]);
            }
        }
    }
}

/// The order of the ranks below `r` lists each position once, each of rank
/// below `r`.
proof fn lemma_order_distinct(ps: Seq<Priority>, r: nat)
    ensures
        order_upto(ps, r).no_duplicates(),
        forall|a: int| 0 <= a < order_upto(ps, r).len() ==> rank(ps[#[trigger] order_upto(ps, r)[a]]) < r,
    decreases r,
{
    if r > 0 {
        lemma_order_distinct(ps, (r - 1) as nat);
        lemma_class_sorted(ps, (r - 1) as nat, ps.len() as int);
        let a = order_upto(ps, (r - 1) as nat);
        let b = class_upto(ps, (r - 1) as nat, ps.len() as int);
        let o = a + b;
        assert forall|x: int| 0 <= x < o.len() implies rank(ps[#[trigger] o[x]]) < r by {
            if x < a.len() {
                assert(o[x] == a[x]);
            } else {
                assert(o[x] == b[x - a.len()]);
            }
        }
        assert forall|x: int, y: int| 0 <= x < o.len() && 0 <= y < o.len() && x != y implies o[x] != o[y] by {
            if x < a.len() && y < a.len() {
                assert(o[x] == a[x] && o[y] == a[y]);
            } else if x >= a.len() && y >= a.len() {
                assert(o[x] == b[x - a.len()] && o[y] == b[y - a.len()]);
                if x < y {
                    assert(b[x - a.len()] < b[y - a.len()]);
                } else {
                    assert(b[y - a.len()] < b[x - a.len()]);
                }
            } else if x < a.len() {
                assert(o[x] == a[x] && o[y] == b[y - a.len()]);
                assert(rank(ps[a[x]]) < r - 1);
                assert(rank(ps[b[y - a.len()]]) == r - 1);
            } else {
                assert(o[y] == a[y] && o[x] == b[x - a.len()]);
                assert(rank(ps[a[y]]) < r - 1);
                assert(rank(ps[b[x - a.len()]]) == r - 1);
            }
        }
    }
}

/// The order of lower ranks begins the order of higher ones.
proof fn lemma_order_prefix(ps: Seq<Priority>, r1: nat, r2: nat)
    requires
        r1 <= r2,
    ensures
        order_upto(ps, r1).len() <= order_upto(ps, r2).len(),
        forall|a: int| 0 <= a < order_upto(ps, r1).len() ==> #[trigger] order_upto(ps, r2)[a] == order_upto(ps, r1)[a],
    decreases r2,
{
    if r1 < r2 {
        lemma_order_prefix(ps, r1, (r2 - 1) as nat);
        let a = order_upto(ps, (r2 - 1) as nat);
        let b = class_upto(ps, (r2 - 1) as nat, ps.len() as int);
        assert forall|x: int| 0 <= x < order_upto(ps, r1).len() implies #[trigger] order_upto(ps, r2)[x] == order_upto(
            ps,
            r1,
        )[x] by {
            assert((a + b)[x] == a[x]);
        }
    }
}

/// Greedy retention keeps no position that its order does not reach.
proof fn lemma_greedy_untouched(order: Seq<int>, ps: Seq<Priority>, tokens: Seq<nat>, budget: nat, n: nat, x: int)
    requires
        0 <= x < n,
        !order.contains(x),
        forall|k: int| 0 <= k < order.len() ==> 0 <= #[trigger] order[k] < n,
    ensures
        !greedy(order, ps, tokens, budget, n).0[x],
    decreases order.len(),
{
    if order.len() > 0 {
        let prev = order.drop_last();
        assert forall|k: int| 0 <= k < prev.len() implies 0 <= #[trigger] prev[k] < n by {
            assert(prev[k] == order[k]);
        }
        if prev.contains(x) {
            let w = choose|w: int| 0 <= w < prev.len() && prev[w] == x;
            assert(order[w] == x);
        }
        lemma_greedy_untouched(prev, ps, tokens, budget, n, x);
        lemma_greedy_keeps_system(prev, ps, tokens, budget, n);
        assert(order[order.len() - 1] != x);
    }
}

/// Greedy retention decides each position when it reaches it: the position
/// at index `a` of `order` is kept exactly when it is a system message or
/// its tokens fit beside what was kept before it, and no later step
/// changes that.
proof fn lemma_greedy_decides(order: Seq<int>, ps: Seq<Priority>, tokens: Seq<nat>, budget: nat, n: nat, a: int)
    requires
        order.no_duplicates(),
        0 <= a < order.len(),
        forall|k: int| 0 <= k < order.len() ==> 0 <= #[trigger] order[k] < n,
    ensures
        greedy(order, ps, tokens, budget, n).0[order[a]] == (ps[order[a]] == Priority::System || greedy(
            order.take(a),
            ps,
            tokens,
            budget,
            n,
        ).1 + tokens[order[a]] <= budget),
    decreases order.len(),
{
    let prev = order.drop_last();
    assert forall|k: int| 0 <= k < prev.len() implies 0 <= #[trigger] prev[k] < n by {
        assert(prev[k] == order[k]);
    }
    lemma_greedy_keeps_system(prev, ps, tokens, budget, n);
    if a == order.len() - 1 {
        assert(prev =~= order.take(a));
        if prev.contains(order[a]) {
            let w = choose|w: int| 0 <= w < prev.len() && prev[w] == order[a];
            assert(order[w] == order[a]);
        }
        lemma_greedy_untouched(prev, ps, tokens, budget, n, order[a]);
    } else {
        assert forall|x: int, y: int| 0 <= x < prev.len() && 0 <= y < prev.len() && x != y implies prev[x] != prev[y] by {
            assert(prev[x] == order[x] && prev[y] == order[y]);
        }
        lemma_greedy_decides(prev, ps, tokens, budget, n, a);
        assert(prev.take(a) =~= order.take(a));
        assert(prev[a] == order[a]);
        assert(order[order.len() - 1] != order[a]);
    }
}

/// What greedy retention has used only grows along its order.
proof fn lemma_greedy_used_grows(order: Seq<int>, ps: Seq<Priority>, tokens: Seq<nat>, budget: nat, n: nat, a: int, b: int)
    requires
        0 <= a <= b <= order.len(),
    ensures
        greedy(order.take(a), ps, tokens, budget, n).1 <= greedy(order.take(b), ps, tokens, budget, n).1,
    decreases b - a,
{
    if a < b {
        lemma_greedy_used_grows(order, ps, tokens, budget, n, a, b - 1);
        assert(order.take(b).drop_last() =~= order.take(b - 1));
    }
}

/// Retention follows priority: while a message is dropped, a message
/// considered after it (one of lower priority, that is of a greater rank,
/// or of the same priority at a later position) is kept only when it needs
/// fewer tokens than the dropped one. So among messages of equal size, none
/// of lower priority is kept while one of higher priority is dropped.
pub proof fn lemma_dropped_not_outranked(ms: Seq<MessageView>, budget: nat, recent_window: int, i: int, j: int)
    requires
        0 <= i < ms.len(),
        0 <= j < ms.len(),
        !retained(ms, budget, recent_window)[i],
        retained(ms, budget, recent_window)[j],
        rank(priorities(ms, recent_window)[i]) < rank(priorities(ms, recent_window)[j]) || (rank(
            priorities(ms, recent_window)[i],
        ) == rank(priorities(ms, recent_window)[j]) && i < j),
    ensures
        message_tokens(ms[j]) < message_tokens(ms[i]),
{
    let ps = priorities(ms, recent_window);
    let toks = token_counts(ms);
    let order = retention_order(ps);
    let n = ms.len();
    lemma_order_in_range(ps, 5);
    lemma_order_distinct(ps, 5);
    let rj = rank(ps[j]);
    let ri = rank(ps[i]);
    lemma_class_contains(ps, rj, ps.len() as int, j);
    lemma_class_in_order(ps, rj, 5, j);
    lemma_class_contains(ps, ri, ps.len() as int, i);
    lemma_class_in_order(ps, ri, 5, i);
    let a = choose|a: int| 0 <= a < order.len() && order[a] == i;
    let b = choose|b: int| 0 <= b < order.len() && order[b] == j;
    if ri < rj {
        let below = order_upto(ps, rj);
        lemma_order_distinct(ps, rj);
        lemma_order_prefix(ps, rj, 5);
        lemma_class_in_order(ps, ri, rj, i);
        let a2 = choose|a2: int| 0 <= a2 < below.len() && below[a2] == i;
        assert(order[a2] == i);
        assert(a == a2);
        if b < below.len() {
            assert(below[b] == j);
            assert(rank(ps[below[b]]) < rj);
        }
    } else {
        let before = order_upto(ps, ri);
        let class = class_upto(ps, ri, ps.len() as int);
        lemma_order_prefix(ps, (ri + 1) as nat, 5);
        lemma_class_sorted(ps, ri, ps.len() as int);
        let ci = choose|ci: int| 0 <= ci < class.len() && class[ci] == i;
        let cj = choose|cj: int| 0 <= cj < class.len() && class[cj] == j;
        assert(order_upto(ps, (ri + 1) as nat) == before + class);
        assert((before + class)[before.len() + ci] == i);
        assert((before + class)[before.len() + cj] == j);
        assert(order[before.len() + ci] == i);
        assert(order[before.len() + cj] == j);
        if cj < ci {
            assert(class[cj] < class[ci]);
        }
        assert(ci != cj);
    }
    assert(a < b);
    lemma_greedy_decides(order, ps, toks, budget, n, a);
    lemma_greedy_decides(order, ps, toks, budget, n, b);
    lemma_greedy_used_grows(order, ps, toks, budget, n, a, b);
}

/// System messages are never dropped, whatever the budget.
pub proof fn lemma_system_messages_retained(ms: Seq<MessageView>, budget: nat, recent_window: int, i: int)
    requires
        0 <= i < ms.len(),
        ms[i].role == ROLE_SYSTEM@,
    ensures
        retained(ms, budget, recent_window)[i],
{
    let ps = priorities(ms, recent_window);
    let toks = token_counts(ms);
    let order = retention_order(ps);
    lemma_order_in_range(ps, 5);
    lemma_greedy_keeps_system(order, ps, toks, budget, ms.len());
    lemma_class_contains(ps, 0, ps.len() as int, i);
    lemma_class_in_order(ps, 0, 5, i);
    let w = choose|w: int| 0 <= w < order.len() && order[w] == i;
    assert(ps[order[w]] == Priority::System);
}


/// Segments of a conversation in which every message is kept.
proof fn lemma_segments_all_kept(keep: Seq<bool>, k: int)
    requires
        0 <= k <= keep.len(),
        keep.len() <= usize::MAX,
        forall|i: int| 0 <= i < keep.len() ==> keep[i],
    ensures
        segments_upto(keep, k).0 == Seq::new(k as nat, |i: int| Segment::Keep(i as usize)),
        segments_upto(keep, k).1 is None,
    decreases k,
{
    if k > 0 {
        lemma_segments_all_kept(keep, k - 1);
        assert(segments_upto(keep, k).0 =~= Seq::new(k as nat, |i: int| Segment::Keep(i as usize)));
    }
}

/// A conversation that fits in the budget compacts to itself: every
/// message is kept, in order, and nothing is summarised.
pub proof fn lemma_fitting_conversation_unchanged(ms: Seq<MessageView>, budget: nat, recent_window: int)
    requires
        total_tokens(ms) <= budget,
        ms.len() <= usize::MAX,
    ensures
        segments_of(retained(ms, budget, recent_window)) == Seq::new(ms.len(), |i: int| Segment::Keep(i as usize)),
{
    lemma_fitting_conversation_retained(ms, budget, recent_window);
    let keep = retained(ms, budget, recent_window);
    lemma_segments_all_kept(keep, keep.len() as int);
}

/// A rolling compaction leaves a conversation that fits alone.
pub proof fn lemma_rolling_within_budget(ms: Seq<MessageView>, max_tokens: nat)
    requires
        total_tokens(ms) <= max_tokens,
    ensures
        rolling_window(ms, max_tokens) is None,
{
}

} // verus!
