//! The default context window strategy: when the conversation nears the window, the
//! non-system messages between the leading system messages and the most recent ones are
//! replaced by one summary message; every system message and the most recent messages stay.

use vstd::prelude::*;
use crate::message::{Message, MessageView, Role, lemma_views_add, lemma_views_push, views};
use crate::text::{concat2, concat3, join, spec_decimal, spec_join, texts, u64_to_string};
use crate::openai::{role_name, spec_role_name};

verus! {

/// Settings of the default context manager.
#[derive(Debug, Clone, Copy)]
pub struct ContextConfig {
    /// Recent messages that are never summarised.
    pub recent_to_keep: usize,
}

impl Default for ContextConfig {
    fn default() -> (c: ContextConfig)
        ensures
            c.recent_to_keep == 10,
    {
        ContextConfig { recent_to_keep: 10 }
    }
}

/// The role's name in summaries.
pub fn role_str(role: Role) -> (s: &'static str)
    ensures
        s@ == spec_role_name(role),
{
    role_name(role)
}

/// The sum of the token counts.
pub open spec fn spec_sum(counts: Seq<u32>) -> int
    decreases counts.len(),
{
    if counts.len() == 0 {
        0
    } else {
        spec_sum(counts.drop_last()) + counts.last()
    }
}

/// The token count above which the context is compressed: 80% of the window, rounded down.
pub open spec fn spec_threshold(max_tokens: u32) -> int {
    max_tokens * 4 / 5
}

/// Does some message have a role other than system?
pub open spec fn exists_non_system(msgs: Seq<MessageView>) -> bool {
    exists|i: int| 0 <= i < msgs.len() && msgs[i].role != Role::System
}

/// One summarised message: `[role]: content`.
pub open spec fn spec_summary_line(m: MessageView) -> Seq<char> {
    "["@ + spec_role_name(m.role) + "]: "@ + m.content
}

/// The summary that replaces `msgs`.
pub open spec fn spec_summary(msgs: Seq<MessageView>) -> Seq<char> {
    "[Context summary of "@ + spec_decimal(msgs.len()) + " earlier messages]\n"@
        + spec_join(msgs.map_values(|m: MessageView| spec_summary_line(m)), "\n"@)
}

/// The system messages of `msgs`, in order.
pub open spec fn spec_system_only(msgs: Seq<MessageView>) -> Seq<MessageView>
    decreases msgs.len(),
{
    if msgs.len() == 0 {
        msgs
    } else if msgs.last().role == Role::System {
        spec_system_only(msgs.drop_last()).push(msgs.last())
    } else {
        spec_system_only(msgs.drop_last())
    }
}

/// The messages of `msgs` that are not system messages, in order.
pub open spec fn spec_non_system(msgs: Seq<MessageView>) -> Seq<MessageView>
    decreases msgs.len(),
{
    if msgs.len() == 0 {
        msgs
    } else if msgs.last().role != Role::System {
        spec_non_system(msgs.drop_last()).push(msgs.last())
    } else {
        spec_non_system(msgs.drop_last())
    }
}

/// The messages after management: unchanged while their tokens stay within 80% of the
/// window, while there are at most `keep + 1` of them, while the recent messages reach
/// back to the first non-system message, or when every message is a system message.
/// Otherwise the non-system messages from the first non-system one up to the `keep` most
/// recent are replaced by one system message summarising them; the system messages among
/// them stay, in order, right after the summary.
pub open spec fn spec_managed(msgs: Seq<MessageView>, counts: Seq<u32>, max_tokens: u32, keep: int) -> Seq<MessageView> {
    let first = spec_first_index_non_system(msgs);
    let split = msgs.len() - keep;
    if spec_sum(counts) <= spec_threshold(max_tokens) || msgs.len() <= keep + 1 || split <= first
        || !exists_non_system(msgs) {
        msgs
    } else {
        let middle = msgs.subrange(first, split);
        msgs.subrange(0, first) + seq![MessageView::plain(Role::System, spec_summary(spec_non_system(middle)))]
            + spec_system_only(middle) + msgs.subrange(split, msgs.len() as int)
    }
}

/// Position of the first message that is not a system message, 0 when all are.
pub open spec fn spec_first_index_non_system(msgs: Seq<MessageView>) -> int {
    if exists_non_system(msgs) {
        choose|i: int| 0 <= i < msgs.len() && msgs[i].role != Role::System && forall|j: int|
            0 <= j < i ==> msgs[j].role == Role::System
    } else {
        0
    }
}

/// The default context manager.
#[derive(Debug, Clone, Copy)]
pub struct DefaultContext {
    recent_to_keep: usize,
}

impl DefaultContext {
    /// How many recent messages are kept.
    pub closed spec fn keep(&self) -> usize {
        self.recent_to_keep
    }

    pub fn new(config: ContextConfig) -> (c: DefaultContext)
        ensures
            c.keep() == config.recent_to_keep,
    {
        DefaultContext { recent_to_keep: config.recent_to_keep }
    }

    /// Compresses `messages` if needed; `token_counts` holds the estimated tokens of each
    /// message, in order.
    pub fn manage(&self, messages: &mut Vec<Message>, token_counts: &Vec<u32>, max_tokens: u32)
        requires
            token_counts@.len() == old(messages)@.len(),
            spec_sum(token_counts@) <= u32::MAX,
            self.keep() < usize::MAX,
        ensures
            views(final(messages)@) == spec_managed(views(old(messages)@), token_counts@, max_tokens, self.keep() as int),
    {
        let ghost mv = views(messages@);
        let mut total: u64 = 0;
        let mut i: usize = 0;
        while i < token_counts.len()
            invariant
                i <= token_counts@.len(),
                total == spec_sum(token_counts@.subrange(0, i as int)),
                spec_sum(token_counts@) <= u32::MAX,
            decreases token_counts.len() - i,
        {
            proof {
                lemma_sum_prefix(token_counts@, i as int + 1);
                assert(token_counts@.subrange(0, i + 1).drop_last() =~= token_counts@.subrange(0, i as int));
            }
            total = total + token_counts[i] as u64;
            i += 1;
        }
        assert(token_counts@.subrange(0, i as int) =~= token_counts@);
        let threshold: u64 = (max_tokens as u64) * 4 / 5;
        if total <= threshold {
            return;
        }
        let keep = self.recent_to_keep;
        if messages.len() <= keep + 1 {
            return;
        }
        let mut first: usize = 0;
        let mut found = false;
        while first < messages.len()
            invariant
                first <= messages@.len(),
                mv == views(messages@),
                messages@ == old(messages)@,
                forall|j: int| 0 <= j < first ==> mv[j].role == Role::System,
                found ==> first < messages@.len() && mv[first as int].role != Role::System,
            ensures
                forall|j: int| 0 <= j < first ==> mv[j].role == Role::System,
                found ==> first < messages@.len() && mv[first as int].role != Role::System,
                !found ==> first == messages@.len(),
            decreases messages.len() - first,
        {
            if messages[first].role != Role::System {
                found = true;
                break;
            }
            first += 1;
        }
        proof {
            if found {
                assert(exists_non_system(mv));
                let c = spec_first_index_non_system(mv);
                if c < first {
                    assert(mv[c].role == Role::System);
                } else if c > first {
                    assert(mv[first as int].role == Role::System);
                }
            } else {
                assert(!exists_non_system(mv));
            }
        }
        if !found {
            return;
        }
        assert(first as int == spec_first_index_non_system(mv));
        let split = messages.len() - keep;
        if split <= first {
            return;
        }
        let mut lines: Vec<String> = Vec::new();
        let mut kept: Vec<Message> = Vec::new();
        let mut k: usize = first;
        let ghost part = mv.subrange(first as int, split as int);
        while k < split
            invariant
                first <= k <= split <= messages@.len(),
                mv == views(messages@),
                part == mv.subrange(first as int, split as int),
                texts(lines@) == spec_non_system(part.subrange(0, k - first)).map_values(
                    |m: MessageView| spec_summary_line(m),
                ),
                views(kept@) == spec_system_only(part.subrange(0, k - first)),
            decreases split - k,
        {
            let ghost pre = part.subrange(0, k - first);
            let ghost cur = part.subrange(0, k + 1 - first);
            assert(cur.drop_last() =~= pre);
            assert(cur.last() == mv[k as int]);
            assert(mv[k as int] == messages@[k as int]@);
            if messages[k].role != Role::System {
                let a = concat3("[", role_str(messages[k].role), "]: ");
                let line = concat2(a.as_str(), messages[k].content.as_str());
                let ghost before = lines@;
                lines.push(line);
                assert(texts(lines@) =~= texts(before).push(line@));
                assert(spec_non_system(cur) == spec_non_system(pre).push(cur.last()));
                assert(spec_non_system(cur).map_values(|m: MessageView| spec_summary_line(m)) =~= spec_non_system(
                    pre,
                ).map_values(|m: MessageView| spec_summary_line(m)).push(spec_summary_line(cur.last())));
                assert(spec_system_only(cur) == spec_system_only(pre));
            } else {
                let m = messages[k].duplicate();
                let ghost before = kept@;
                kept.push(m);
                proof {
                    lemma_views_push(before, m);
                }
                assert(spec_system_only(cur) == spec_system_only(pre).push(cur.last()));
                assert(spec_non_system(cur) == spec_non_system(pre));
            }
            k += 1;
        }
        assert(part.subrange(0, split - first) =~= part);
        proof {
            lemma_non_system_len(part);
        }
        let n = u64_to_string(lines.len() as u64);
        let head = concat3("[Context summary of ", n.as_str(), " earlier messages]\n");
        let body = join(&lines, "\n");
        let summary = concat2(head.as_str(), body.as_str());
        let summary_msg = Message::system(summary.as_str());
        let mut tail = messages.split_off(split);
        let _ = messages.split_off(first);
        let ghost front = messages@;
        let ghost back = tail@;
        let ghost sys = kept@;
        messages.push(summary_msg);
        let ghost with_summary = messages@;
        messages.append(&mut kept);
        let ghost with_kept = messages@;
        messages.append(&mut tail);
        proof {
            assert(front =~= old(messages)@.subrange(0, first as int));
            assert(back =~= old(messages)@.subrange(split as int, old(messages)@.len() as int));
            assert(views(front) =~= mv.subrange(0, first as int));
            assert(views(back) =~= mv.subrange(split as int, mv.len() as int));
            lemma_views_push(front, summary_msg);
            lemma_views_add(with_summary, sys);
            lemma_views_add(with_kept, back);
            assert(views(messages@) =~= mv.subrange(0, first as int) + seq![
                MessageView::plain(Role::System, spec_summary(spec_non_system(part))),
            ] + spec_system_only(part) + mv.subrange(split as int, mv.len() as int));
        }
    }
}

/// A sequence splits into its system and non-system messages.
proof fn lemma_non_system_len(msgs: Seq<MessageView>)
    ensures
        spec_non_system(msgs).len() + spec_system_only(msgs).len() == msgs.len(),
        spec_non_system(msgs).map_values(|m: MessageView| spec_summary_line(m)).len() == spec_non_system(msgs).len(),
    decreases msgs.len(),
{
    if msgs.len() > 0 {
        lemma_non_system_len(msgs.drop_last());
    }
}

/// A prefix of the counts sums to no more than all of them.
proof fn lemma_sum_prefix(counts: Seq<u32>, k: int)
    requires
        0 <= k <= counts.len(),
    ensures
        spec_sum(counts.subrange(0, k)) <= spec_sum(counts),
        0 <= spec_sum(counts.subrange(0, k)),
    decreases counts.len() - k,
{
    if k < counts.len() {
        lemma_sum_prefix(counts, k + 1);
        assert(counts.subrange(0, k + 1).drop_last() =~= counts.subrange(0, k));
    } else {
        assert(counts.subrange(0, k) =~= counts);
    }
    lemma_sum_nonneg(counts.subrange(0, k));
}

proof fn lemma_sum_nonneg(counts: Seq<u32>)
    ensures
        0 <= spec_sum(counts),
    decreases counts.len(),
{
    if counts.len() > 0 {
        lemma_sum_nonneg(counts.drop_last());
    }
}

/// Law: management keeps every system message, in order, the messages before the first
/// non-system one and the `keep` most recent messages; when it changes anything, the one
/// thing it adds is a system message (the summary) right after the leading ones, and it
/// never makes the conversation longer.
pub proof fn lemma_managed_keeps(msgs: Seq<MessageView>, counts: Seq<u32>, max_tokens: u32, keep: int)
    requires
        0 <= keep,
    ensures
        ({
            let r = spec_managed(msgs, counts, max_tokens, keep);
            let first = spec_first_index_non_system(msgs);
            &&& r.len() <= msgs.len()
            &&& r.subrange(0, first) == msgs.subrange(0, first)
            &&& msgs.len() >= keep ==> r.subrange(r.len() - keep, r.len() as int) == msgs.subrange(
                msgs.len() - keep,
                msgs.len() as int,
            )
            &&& r == msgs || (first < r.len() && r[first].role == Role::System && spec_system_only(r)
                == spec_system_only(msgs).insert(first, r[first]))
        }),
{
    let r = spec_managed(msgs, counts, max_tokens, keep);
    let first = spec_first_index_non_system(msgs);
    lemma_first_non_system(msgs);
    let split = msgs.len() - keep;
    if !(spec_sum(counts) <= spec_threshold(max_tokens) || msgs.len() <= keep + 1 || split <= first
        || !exists_non_system(msgs)) {
        let middle = msgs.subrange(first, split);
        let prefix = msgs.subrange(0, first);
        let recent = msgs.subrange(split, msgs.len() as int);
        let s = MessageView::plain(Role::System, spec_summary(spec_non_system(middle)));
        let sm = spec_system_only(middle);
        assert(r == prefix + seq![s] + sm + recent);
        assert(r.subrange(0, first) =~= prefix);
        assert(r.subrange(r.len() - keep, r.len() as int) =~= recent);
        // length
        lemma_non_system_len(middle);
        assert(middle[0] == msgs[first]);
        lemma_non_system_nonempty(middle, 0);
        // system messages
        assert forall|j: int| 0 <= j < prefix.len() implies prefix[j].role == Role::System by {
            assert(prefix[j] == msgs[j]);
        }
        lemma_system_only_all(prefix);
        lemma_system_only_is_system(middle);
        lemma_system_only_all(sm);
        assert(msgs =~= prefix + middle + recent);
        lemma_system_only_add(prefix, middle);
        lemma_system_only_add(prefix + middle, recent);
        lemma_system_only_add(prefix, seq![s]);
        lemma_system_only_add(prefix + seq![s], sm);
        lemma_system_only_add(prefix + seq![s] + sm, recent);
        lemma_system_only_all(seq![s]);
        assert(r[first] == s);
        assert(spec_system_only(r) =~= spec_system_only(msgs).insert(first, r[first]));
    } else {
        assert(r == msgs);
    }
}

/// The system messages of a concatenation are those of its parts.
proof fn lemma_system_only_add(a: Seq<MessageView>, b: Seq<MessageView>)
    ensures
        spec_system_only(a + b) == spec_system_only(a) + spec_system_only(b),
    decreases b.len(),
{
    if b.len() == 0 {
        assert(a + b =~= a);
        assert(spec_system_only(a) + spec_system_only(b) =~= spec_system_only(a));
    } else {
        lemma_system_only_add(a, b.drop_last());
        assert((a + b).drop_last() =~= a + b.drop_last());
        assert((a + b).last() == b.last());
        if b.last().role == Role::System {
            assert(spec_system_only(a) + spec_system_only(b) =~= (spec_system_only(a) + spec_system_only(
                b.drop_last(),
            )).push(b.last()));
        }
    }
}

/// A sequence of system messages is its own system part.
proof fn lemma_system_only_all(msgs: Seq<MessageView>)
    requires
        forall|j: int| 0 <= j < msgs.len() ==> msgs[j].role == Role::System,
    ensures
        spec_system_only(msgs) == msgs,
    decreases msgs.len(),
{
    if msgs.len() > 0 {
        let p = msgs.drop_last();
        assert forall|j: int| 0 <= j < p.len() implies p[j].role == Role::System by {
            assert(p[j] == msgs[j]);
        }
        lemma_system_only_all(p);
        assert(p.push(msgs.last()) =~= msgs);
    }
}

/// The system part holds system messages only.
proof fn lemma_system_only_is_system(msgs: Seq<MessageView>)
    ensures
        forall|j: int| 0 <= j < spec_system_only(msgs).len() ==> (#[trigger] spec_system_only(msgs)[j]).role
            == Role::System,
    decreases msgs.len(),
{
    if msgs.len() > 0 {
        lemma_system_only_is_system(msgs.drop_last());
    }
}

/// A non-system message at `i` makes the non-system part non-empty.
proof fn lemma_non_system_nonempty(msgs: Seq<MessageView>, i: int)
    requires
        0 <= i < msgs.len(),
        msgs[i].role != Role::System,
    ensures
        spec_non_system(msgs).len() >= 1,
    decreases msgs.len(),
{
    if i < msgs.len() - 1 {
        assert(msgs.drop_last()[i] == msgs[i]);
        lemma_non_system_nonempty(msgs.drop_last(), i);
    }
}

/// The first non-system message exists when some message is not a system message.
pub proof fn lemma_first_non_system(msgs: Seq<MessageView>)
    ensures
        0 <= spec_first_index_non_system(msgs) <= msgs.len(),
        exists_non_system(msgs) ==> {
            let f = spec_first_index_non_system(msgs);
            &&& f < msgs.len()
            &&& msgs[f].role != Role::System
            &&& forall|j: int| 0 <= j < f ==> msgs[j].role == Role::System
        },
{
    if exists_non_system(msgs) {
        lemma_least_non_system(msgs);
    }
}

proof fn lemma_least_non_system(msgs: Seq<MessageView>)
    requires
        exists_non_system(msgs),
    ensures
        exists|i: int| 0 <= i < msgs.len() && msgs[i].role != Role::System && forall|j: int|
            0 <= j < i ==> msgs[j].role == Role::System,
    decreases msgs.len(),
{
    let p = msgs.drop_last();
    if exists_non_system(p) {
        lemma_least_non_system(p);
        let i = choose|i: int| 0 <= i < p.len() && p[i].role != Role::System && forall|j: int|
            0 <= j < i ==> p[j].role == Role::System;
        assert(msgs[i].role != Role::System);
        assert forall|j: int| 0 <= j < i implies msgs[j].role == Role::System by {
            assert(p[j] == msgs[j]);
        }
    } else {
        let w = choose|i: int| 0 <= i < msgs.len() && msgs[i].role != Role::System;
        if w < msgs.len() - 1 {
            assert(p[w] == msgs[w]);
        }
        let i = msgs.len() - 1;
        assert forall|j: int| 0 <= j < i implies msgs[j].role == Role::System by {
            assert(p[j] == msgs[j]);
        }
    }
}

} // verus!
