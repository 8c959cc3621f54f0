//! Cache alignment: the prompt message layout that keeps the blackboard
//! snapshot a stable prefix across agents, and the running tally of cached
//! versus fresh prompt tokens.

use vstd::prelude::*;
use vstd::string::StringExecFns;
use crate::snapshot::CacheThumbprint;

verus! {

/// One block of message content. The cache boundary marks the block
/// through which a provider should cache the prompt prefix.
#[derive(Debug)]
pub struct PromptBlock {
    /// The block's text.
    pub text: String,
    /// Cache everything up to and including this block.
    pub cache_boundary: bool,
}

/// The mathematical image of a prompt block.
pub ghost struct PromptBlockView {
    pub text: Seq<char>,
    pub cache_boundary: bool,
}

impl View for PromptBlock {
    type V = PromptBlockView;

    open spec fn view(&self) -> PromptBlockView {
        PromptBlockView { text: self.text@, cache_boundary: self.cache_boundary }
    }
}

impl DeepView for PromptBlock {
    type V = PromptBlockView;

    open spec fn deep_view(&self) -> PromptBlockView {
        self.view()
    }
}

impl Clone for PromptBlock {
    fn clone(&self) -> (r: Self)
        ensures
            r@ == self@,
    {
        PromptBlock { text: self.text.clone(), cache_boundary: self.cache_boundary }
    }
}

/// One message of a provider request.
#[derive(Debug)]
pub struct PromptMessage {
    /// The message role, such as `system` or `user`.
    pub role: String,
    /// The message's content blocks, in order.
    pub content: Vec<PromptBlock>,
}

/// The mathematical image of a prompt message.
pub ghost struct PromptMessageView {
    pub role: Seq<char>,
    pub content: Seq<PromptBlockView>,
}

impl View for PromptMessage {
    type V = PromptMessageView;

    open spec fn view(&self) -> PromptMessageView {
        PromptMessageView { role: self.role@, content: self.content.deep_view() }
    }
}

impl DeepView for PromptMessage {
    type V = PromptMessageView;

    open spec fn deep_view(&self) -> PromptMessageView {
        self.view()
    }
}

impl Clone for PromptMessage {
    fn clone(&self) -> (r: Self)
        ensures
            r@ == self@,
    {
        let mut blocks: Vec<PromptBlock> = Vec::new();
        let n = self.content.len();
        for i in 0..n
            invariant
                n == self.content@.len(),
                blocks@.len() == i,
                forall|j: int| 0 <= j < i ==> #[trigger] blocks@[j].deep_view()
                    == self.content@[j].deep_view(),
        {
            blocks.push(self.content[i].clone());
        }
        let r = PromptMessage { role: self.role.clone(), content: blocks };
        proof {
            assert(r@.content =~= self@.content);
        }
        r
    }
}

/// A content block carrying the snapshot text, marked as the cache
/// boundary: providers cache everything through this inclusive position.
pub fn anthropic_cache_marker(content: String) -> (r: PromptBlock)
    ensures
        r@.text == content@,
        r@.cache_boundary,
{
    PromptBlock { text: content, cache_boundary: true }
}

/// The message array a request is built from, with the snapshot placed for
/// prefix caching.
///
/// The first message carries the system text and, when the rendered
/// snapshot is non-empty, the snapshot as a second block marked as the
/// cache boundary. The second message carries the task context. The
/// conversation history follows verbatim. Agents that share a snapshot
/// therefore share the leading messages byte for byte.
pub open spec fn cached_message_array_spec(system_prompt: Seq<char>,
    snapshot_text: Seq<char>, task_context: Seq<char>,
    history: Seq<PromptMessageView>) -> Seq<PromptMessageView>
{
    let system_content = if snapshot_text.len() == 0 {
        seq![PromptBlockView { text: system_prompt, cache_boundary: false }]
    } else {
        seq![
            PromptBlockView { text: system_prompt, cache_boundary: false },
            PromptBlockView { text: snapshot_text, cache_boundary: true },
        ]
    };
    seq![
        PromptMessageView { role: "system"@, content: system_content },
        PromptMessageView {
            role: "user"@,
            content: seq![PromptBlockView { text: task_context,
                cache_boundary: false }],
        },
    ] + history
}

/// Build the message array with the blackboard snapshot positioned for
/// cache alignment.
pub fn build_cached_message_array(system_prompt: String, blackboard_snapshot: String,
    task_context: String, history: Vec<PromptMessage>) -> (r: Vec<PromptMessage>)
    ensures
        r.deep_view() == cached_message_array_spec(system_prompt@,
            blackboard_snapshot@, task_context@, history.deep_view()),
{
    let ghost sp = system_prompt@;
    let ghost bs = blackboard_snapshot@;
    let ghost tc = task_context@;
    let ghost hist = history.deep_view();
    let ghost spec_full = cached_message_array_spec(sp, bs, tc, hist);
    let mut messages: Vec<PromptMessage> = Vec::new();
    let mut system_content: Vec<PromptBlock> = Vec::new();
    let empty_snapshot = blackboard_snapshot.as_str().is_empty();
    system_content.push(PromptBlock { text: system_prompt, cache_boundary: false });
    if !empty_snapshot {
        system_content.push(PromptBlock {
            text: blackboard_snapshot,
            cache_boundary: true,
        });
    }
    proof {
        if bs.len() == 0 {
            assert(system_content.deep_view() =~= seq![PromptBlockView {
                text: sp, cache_boundary: false }]);
        } else {
            assert(system_content.deep_view() =~= seq![
                PromptBlockView { text: sp, cache_boundary: false },
                PromptBlockView { text: bs, cache_boundary: true },
            ]);
        }
    }
    messages.push(PromptMessage {
        role: String::from_str("system"),
        content: system_content,
    });
    let mut task_content: Vec<PromptBlock> = Vec::new();
    task_content.push(PromptBlock { text: task_context, cache_boundary: false });
    proof {
        assert(task_content.deep_view() =~= seq![PromptBlockView { text: tc,
            cache_boundary: false }]);
    }
    messages.push(PromptMessage {
        role: String::from_str("user"),
        content: task_content,
    });
    proof {
        assert(messages.deep_view() =~= spec_full.take(2));
    }
    let nh = history.len();
    let rest = history;
    let mut i: usize = 0;
    while i < nh
        invariant
            i <= nh,
            nh == hist.len(),
            rest.deep_view() == hist,
            spec_full == cached_message_array_spec(sp, bs, tc, hist),
            spec_full.len() == 2 + hist.len(),
            messages.deep_view() =~= spec_full.take(2 + i as int),
        decreases nh - i,
    {
        let ghost len0 = messages.deep_view().len();
        let m = rest[i].clone();
        proof {
            assert(m@ == hist[i as int]);
            assert(spec_full[2 + i as int] == hist[i as int]);
        }
        messages.push(m);
        proof {
            assert forall|x: int| 0 <= x < len0 + 1
                implies #[trigger] messages.deep_view()[x]
                == spec_full.take(2 + i as int + 1)[x] by {
                if x < len0 {
                    assert(messages@[x]@ == spec_full.take(2 + i as int)[x]);
                } else {
                    assert(messages@[x]@ == hist[i as int]);
                }
            }
            assert(messages.deep_view() =~= spec_full.take(2 + i as int + 1));
        }
        i = i + 1;
    }
    proof {
        assert(spec_full.take(2 + nh as int) =~= spec_full);
    }
    messages
}

/// Running tally of cached versus freshly computed prompt tokens across a
/// run. Counters saturate at the top of their range instead of wrapping.
#[derive(Clone, Copy, PartialEq, Eq, Structural, Debug)]
pub struct CacheEfficiency {
    /// Total prompt tokens sent.
    pub total_prompt_tokens: u64,
    /// Tokens served from the provider cache.
    pub cached_tokens: u64,
    /// Tokens that missed the cache.
    pub fresh_tokens: u64,
    /// Calls that got a cache hit.
    pub cache_hits: u64,
    /// Calls with no cache hit.
    pub cache_misses: u64,
    /// The thumbprint active during this tracking period.
    pub active_thumbprint: Option<CacheThumbprint>,
}

/// Addition on a saturating counter.
pub open spec fn sat_add(a: u64, b: u64) -> u64 {
    if a + b > u64::MAX {
        u64::MAX
    } else {
        (a + b) as u64
    }
}

impl Default for CacheEfficiency {
    fn default() -> (r: Self)
        ensures
            r == (CacheEfficiency {
                total_prompt_tokens: 0u64,
                cached_tokens: 0u64,
                fresh_tokens: 0u64,
                cache_hits: 0u64,
                cache_misses: 0u64,
                active_thumbprint: Option::None,
            }),
    {
        CacheEfficiency {
            total_prompt_tokens: 0,
            cached_tokens: 0,
            fresh_tokens: 0,
            cache_hits: 0,
            cache_misses: 0,
            active_thumbprint: Option::None,
        }
    }
}

impl CacheEfficiency {
    /// Record one call's cache performance: `total_prompt` tokens were
    /// sent, of which `cached` came from the provider cache. The fresh
    /// count grows by the excess of total over cached and never
    /// underflows: a call with `cached > total_prompt` leaves it unchanged.
    pub fn record_call(&mut self, total_prompt: u64, cached: u64)
        ensures
            final(self).total_prompt_tokens
                == sat_add(old(self).total_prompt_tokens, total_prompt),
            final(self).cached_tokens == sat_add(old(self).cached_tokens, cached),
            final(self).fresh_tokens == sat_add(old(self).fresh_tokens,
                if total_prompt > cached { (total_prompt - cached) as u64 } else {
                    0u64
                }),
            cached > total_prompt ==> final(self).fresh_tokens
                == old(self).fresh_tokens,
            cached > 0 ==> final(self).cache_hits == sat_add(old(self).cache_hits, 1)
                && final(self).cache_misses == old(self).cache_misses,
            cached == 0 ==> final(self).cache_misses
                == sat_add(old(self).cache_misses, 1)
                && final(self).cache_hits == old(self).cache_hits,
            final(self).active_thumbprint == old(self).active_thumbprint,
    {
        self.total_prompt_tokens = self.total_prompt_tokens.saturating_add(
            total_prompt);
        self.cached_tokens = self.cached_tokens.saturating_add(cached);
        self.fresh_tokens = self.fresh_tokens.saturating_add(
            total_prompt.saturating_sub(cached));
        if cached > 0 {
            self.cache_hits = self.cache_hits.saturating_add(1);
        } else {
            self.cache_misses = self.cache_misses.saturating_add(1);
        }
    }

    /// Cache hit ratio in basis points (ten-thousandths); zero when no
    /// call has been recorded.
    pub fn hit_ratio(&self) -> (r: u64)
        ensures
            r as int == if self.cache_hits as int + self.cache_misses as int == 0 {
                0int
            } else {
                (self.cache_hits as int) * 10000 / (self.cache_hits as int + self.cache_misses as int)
            },
    {
        if self.cache_hits == 0 && self.cache_misses == 0 {
            return 0;
        }
        let total: u128 = self.cache_hits as u128 + self.cache_misses as u128;
        let ratio: u128 = (self.cache_hits as u128) * 10000 / total;
        proof {
            assert(ratio <= 10000) by (nonlinear_arith)
                requires
                    total > 0,
                    self.cache_hits as int <= total as int,
                    ratio as int == (self.cache_hits as int) * 10000 / (total as int),
            ;
        }
        ratio as u64
    }

    /// Estimated cost-savings ratio in basis points, counting cached
    /// tokens at nine tenths of their price; zero when nothing was sent.
    pub fn estimated_savings_ratio(&self) -> (r: u64)
        ensures
            r as int == if self.total_prompt_tokens == 0 {
                0int
            } else if (self.cached_tokens as int) * 9000
                / (self.total_prompt_tokens as int) <= u64::MAX as int {
                (self.cached_tokens as int) * 9000 / (self.total_prompt_tokens as int)
            } else {
                u64::MAX as int
            },
    {
        if self.total_prompt_tokens == 0 {
            return 0;
        }
        let ratio: u128 = (self.cached_tokens as u128) * 9000
            / (self.total_prompt_tokens as u128);
        if ratio > u64::MAX as u128 {
            u64::MAX
        } else {
            ratio as u64
        }
    }
}

} // verus!
