//! Token usage: how it is read from responses and added up.

use vstd::prelude::*;
use crate::json::{Json, JsonTree};
use crate::name_map::NameMap;

verus! {

/// The token usage of one binding. Not every service reports its caching.
#[derive(Debug, Clone, Copy, PartialEq, Eq, Structural)]
pub struct UsageStats {
    pub requests: u64,
    pub input_tokens: u64,
    pub output_tokens: u64,
    pub cache_creation_tokens: u64,
    pub cache_read_tokens: u64,
}

/// No usage at all.
pub open spec fn no_usage() -> UsageStats {
    UsageStats {
        requests: 0,
        input_tokens: 0,
        output_tokens: 0,
        cache_creation_tokens: 0,
        cache_read_tokens: 0,
    }
}

impl Default for UsageStats {
    fn default() -> (r: UsageStats)
        ensures
            r == no_usage(),
    {
        UsageStats {
            requests: 0,
            input_tokens: 0,
            output_tokens: 0,
            cache_creation_tokens: 0,
            cache_read_tokens: 0,
        }
    }
}

/// Tells whether two amounts of usage can be added up.
pub open spec fn adds_up(a: UsageStats, b: UsageStats) -> bool {
    &&& a.requests + b.requests <= u64::MAX
    &&& a.input_tokens + b.input_tokens <= u64::MAX
    &&& a.output_tokens + b.output_tokens <= u64::MAX
    &&& a.cache_creation_tokens + b.cache_creation_tokens <= u64::MAX
    &&& a.cache_read_tokens + b.cache_read_tokens <= u64::MAX
}

/// The sum of two amounts of usage.
pub open spec fn sum(a: UsageStats, b: UsageStats) -> UsageStats {
    UsageStats {
        requests: (a.requests + b.requests) as u64,
        input_tokens: (a.input_tokens + b.input_tokens) as u64,
        output_tokens: (a.output_tokens + b.output_tokens) as u64,
        cache_creation_tokens: (a.cache_creation_tokens + b.cache_creation_tokens) as u64,
        cache_read_tokens: (a.cache_read_tokens + b.cache_read_tokens) as u64,
    }
}

/// The larger of two counts.
pub open spec fn larger(a: u64, b: u64) -> u64 {
    if a >= b {
        a
    } else {
        b
    }
}

/// The larger of each token count. The requests are those of the first.
pub open spec fn merged(a: UsageStats, b: UsageStats) -> UsageStats {
    UsageStats {
        requests: a.requests,
        input_tokens: larger(a.input_tokens, b.input_tokens),
        output_tokens: larger(a.output_tokens, b.output_tokens),
        cache_creation_tokens: larger(a.cache_creation_tokens, b.cache_creation_tokens),
        cache_read_tokens: larger(a.cache_read_tokens, b.cache_read_tokens),
    }
}

/// The larger of two counts.
fn max_count(a: u64, b: u64) -> (r: u64)
    ensures
        r == larger(a, b),
{
    if a >= b {
        a
    } else {
        b
    }
}

impl UsageStats {
    /// Adds another amount of usage.
    pub fn add(&mut self, other: &UsageStats)
        requires
            adds_up(*old(self), *other),
        ensures
            *final(self) == sum(*old(self), *other),
    {
        self.requests += other.requests;
        self.input_tokens += other.input_tokens;
        self.output_tokens += other.output_tokens;
        self.cache_creation_tokens += other.cache_creation_tokens;
        self.cache_read_tokens += other.cache_read_tokens;
    }

    /// Takes the larger of each token count. The events of a streamed response
    /// carry running totals, which must not be summed.
    pub fn merge_max(&mut self, other: &UsageStats)
        ensures
            *final(self) == merged(*old(self), *other),
    {
        self.input_tokens = max_count(self.input_tokens, other.input_tokens);
        self.output_tokens = max_count(self.output_tokens, other.output_tokens);
        self.cache_creation_tokens =
        max_count(self.cache_creation_tokens, other.cache_creation_tokens);
        self.cache_read_tokens = max_count(self.cache_read_tokens, other.cache_read_tokens);
    }
}

/// What is recorded for one response: its tokens, and one request.
pub open spec fn one_request(delta: UsageStats) -> UsageStats {
    UsageStats { requests: 1, ..delta }
}

/// The usage of a launch session under the label of each binding.
#[derive(Debug)]
pub struct UsageTracker {
    pub stats: NameMap<UsageStats>,
}

impl UsageTracker {
    /// The total under a label; nothing where nothing was recorded.
    pub open spec fn total(self, label: Seq<char>) -> UsageStats {
        if self.stats@.contains_key(label) {
            self.stats@[label]
        } else {
            no_usage()
        }
    }

    /// A tracker with nothing recorded.
    pub fn new() -> (r: UsageTracker)
        ensures
            r.stats@ == Map::<Seq<char>, UsageStats>::empty(),
    {
        UsageTracker { stats: NameMap::new() }
    }

    /// The total under a label; nothing where nothing was recorded.
    pub fn recorded(&self, label: &str) -> (r: UsageStats)
        ensures
            r == self.total(label@),
    {
        match self.stats.get(label) {
            Some(stats) => *stats,
            None => UsageStats::default(),
        }
    }

    /// Tells whether the usage of one more response can be recorded.
    pub fn can_record(&self, label: &str, delta: UsageStats) -> (r: bool)
        ensures
            r == adds_up(self.total(label@), one_request(delta)),
    {
        let total = self.recorded(label);
        total.requests < u64::MAX && total.input_tokens <= u64::MAX - delta.input_tokens
            && total.output_tokens <= u64::MAX - delta.output_tokens && total.cache_creation_tokens
            <= u64::MAX - delta.cache_creation_tokens && total.cache_read_tokens <= u64::MAX
            - delta.cache_read_tokens
    }

    /// Adds the usage of one response to the total under a label, and one request.
    pub fn record(&mut self, label: &str, delta: UsageStats)
        requires
            adds_up(old(self).total(label@), one_request(delta)),
        ensures
            final(self).stats@ == old(self).stats@.insert(
                label@,
                sum(old(self).total(label@), one_request(delta)),
            ),
    {
        let mut total = self.recorded(label);
        total.add(&UsageStats { requests: 1, ..delta });
        self.stats.insert(label.to_owned(), total);
    }

    /// Replaces the total under a label.
    pub fn set(&mut self, label: &str, stats: UsageStats)
        ensures
            final(self).stats@ == old(self).stats@.insert(label@, stats),
    {
        self.stats.insert(label.to_owned(), stats);
    }

    /// A copy of all totals.
    pub fn snapshot(&self) -> (r: NameMap<UsageStats>)
        ensures
            r@ == self.stats@,
            r.names() == self.stats.names(),
    {
        copy_usage(&self.stats)
    }
}

/// A copy of totals.
pub fn copy_usage(stats: &NameMap<UsageStats>) -> (r: NameMap<UsageStats>)
    ensures
        r@ == stats@,
        r.names() == stats.names(),
{
    let mut out: NameMap<UsageStats> = NameMap::new();
    let n: usize = stats.len();
    let mut i: usize = 0;
    proof {
        assert(stats.names().take(0) =~= Seq::<Seq<char>>::empty());
    }
    while i < n
        invariant
            i <= n,
            n == stats.names().len(),
            stats.names().no_duplicates(),
            out.names() == stats.names().take(i as int),
            forall|name: Seq<char>| #[trigger]
                out@.contains_key(name) ==> stats@.contains_key(name) && out@[name] == stats@[name],
        decreases n - i,
    {
        let (name, value) = stats.at(i);
        proof {
            assert(!stats.names().take(i as int).contains(name@)) by {
                if stats.names().take(i as int).contains(name@) {
                    let j = stats.names().take(i as int).index_of(name@);
                    assert(stats.names()[j] == stats.names()[i as int]);
                }
            }
            assert(stats.names().take(i + 1) =~= stats.names().take(i as int).push(name@));
        }
        out.insert(name.clone(), *value);
        i += 1;
    }
    proof {
        assert(stats.names().take(i as int) =~= stats.names());
        assert(out@ =~= stats@);
    }
    out
}

/// The usage object of a response: in the message where there is one, else at the
/// top.
pub open spec fn usage_object(value: JsonTree) -> Option<JsonTree> {
    let nested = match value.field("message"@) {
        Some(message) => message.field("usage"@),
        None => None,
    };
    match nested {
        Some(usage) => Some(usage),
        None => value.field("usage"@),
    }
}

/// Usage as Anthropic reports it.
pub open spec fn anthropic_usage(usage: JsonTree) -> Option<UsageStats> {
    if usage.field("input_tokens"@) is None && usage.field("output_tokens"@) is None {
        None
    } else {
        Some(
            UsageStats {
                requests: 0,
                input_tokens: usage.unsigned_field("input_tokens"@),
                output_tokens: usage.unsigned_field("output_tokens"@),
                cache_creation_tokens: usage.unsigned_field("cache_creation_input_tokens"@),
                cache_read_tokens: usage.unsigned_field("cache_read_input_tokens"@),
            },
        )
    }
}

/// Usage as OpenAI reports it.
pub open spec fn openai_usage(usage: JsonTree) -> Option<UsageStats> {
    if usage.field("prompt_tokens"@) is None && usage.field("completion_tokens"@) is None {
        None
    } else {
        Some(
            UsageStats {
                requests: 0,
                input_tokens: usage.unsigned_field("prompt_tokens"@),
                output_tokens: usage.unsigned_field("completion_tokens"@),
                cache_creation_tokens: 0,
                cache_read_tokens: match usage.field("prompt_tokens_details"@) {
                    Some(details) => details.unsigned_field("cached_tokens"@),
                    None => 0,
                },
            },
        )
    }
}

/// Usage as Ollama reports it.
pub open spec fn ollama_usage(body: JsonTree) -> Option<UsageStats> {
    if unsigned_at(body, "prompt_eval_count"@) is None && unsigned_at(body, "eval_count"@) is None {
        None
    } else {
        Some(
            UsageStats {
                requests: 0,
                input_tokens: body.unsigned_field("prompt_eval_count"@),
                output_tokens: body.unsigned_field("eval_count"@),
                cache_creation_tokens: 0,
                cache_read_tokens: 0,
            },
        )
    }
}

/// The integer of the field under a name.
pub open spec fn unsigned_at(value: JsonTree, name: Seq<char>) -> Option<u64> {
    match value.field(name) {
        Some(v) => v.unsigned(),
        None => None,
    }
}

/// The usage that a response reports, whichever service sent it.
pub open spec fn usage_of(value: JsonTree) -> Option<UsageStats> {
    let reported = match usage_object(value) {
        Some(usage) => match anthropic_usage(usage) {
            Some(stats) => Some(stats),
            None => openai_usage(usage),
        },
        None => None,
    };
    match reported {
        Some(stats) => Some(stats),
        None => ollama_usage(value),
    }
}

/// Reads usage as Anthropic reports it.
fn parse_anthropic_usage(usage: &Json) -> (r: Option<UsageStats>)
    ensures
        r == anthropic_usage(usage.tree()),
{
    if usage.get("input_tokens").is_none() && usage.get("output_tokens").is_none() {
        return None;
    }
    Some(
        UsageStats {
            requests: 0,
            input_tokens: usage.unsigned_field("input_tokens"),
            output_tokens: usage.unsigned_field("output_tokens"),
            cache_creation_tokens: usage.unsigned_field("cache_creation_input_tokens"),
            cache_read_tokens: usage.unsigned_field("cache_read_input_tokens"),
        },
    )
}

/// Reads usage as OpenAI reports it.
fn parse_openai_usage(usage: &Json) -> (r: Option<UsageStats>)
    ensures
        r == openai_usage(usage.tree()),
{
    if usage.get("prompt_tokens").is_none() && usage.get("completion_tokens").is_none() {
        return None;
    }
    let cache_read_tokens: u64 = match usage.get("prompt_tokens_details") {
        Some(details) => details.unsigned_field("cached_tokens"),
        None => 0,
    };
    Some(
        UsageStats {
            requests: 0,
            input_tokens: usage.unsigned_field("prompt_tokens"),
            output_tokens: usage.unsigned_field("completion_tokens"),
            cache_creation_tokens: 0,
            cache_read_tokens,
        },
    )
}

/// The integer of the field under a name.
fn unsigned_under(value: &Json, name: &str) -> (r: Option<u64>)
    ensures
        r == unsigned_at(value.tree(), name@),
{
    match value.get(name) {
        Some(v) => v.as_u64(),
        None => None,
    }
}

/// Reads usage as Ollama reports it.
fn parse_ollama_usage(body: &Json) -> (r: Option<UsageStats>)
    ensures
        r == ollama_usage(body.tree()),
{
    if unsigned_under(body, "prompt_eval_count").is_none() && unsigned_under(
        body,
        "eval_count",
    ).is_none() {
        return None;
    }
    Some(
        UsageStats {
            requests: 0,
            input_tokens: body.unsigned_field("prompt_eval_count"),
            output_tokens: body.unsigned_field("eval_count"),
            cache_creation_tokens: 0,
            cache_read_tokens: 0,
        },
    )
}

/// Reads the token usage of a response, an event or a line of one, whichever
/// service sent it.
pub fn parse_usage(value: &Json) -> (r: Option<UsageStats>)
    ensures
        r == usage_of(value.tree()),
{
    let nested = match value.get("message") {
        Some(message) => message.get("usage"),
        None => None,
    };
    let usage_obj = match nested {
        Some(usage) => Some(usage),
        None => value.get("usage"),
    };
    if let Some(usage) = usage_obj {
        if let Some(stats) = parse_anthropic_usage(usage) {
            return Some(stats);
        }
        if let Some(stats) = parse_openai_usage(usage) {
            return Some(stats);
        }
    }
    parse_ollama_usage(value)
}

/// Merging running totals never loses a count, does not depend on their order
/// but for the requests, and changes nothing the second time.
pub proof fn law_merging_keeps_the_largest(a: UsageStats, b: UsageStats, c: UsageStats)
    ensures
        merged(a, b).input_tokens >= a.input_tokens && merged(a, b).input_tokens >= b.input_tokens,
        merged(a, b).output_tokens >= a.output_tokens && merged(a, b).output_tokens
            >= b.output_tokens,
        merged(a, b).cache_creation_tokens >= a.cache_creation_tokens && merged(
            a,
            b,
        ).cache_creation_tokens >= b.cache_creation_tokens,
        merged(a, b).cache_read_tokens >= a.cache_read_tokens && merged(a, b).cache_read_tokens
            >= b.cache_read_tokens,
        merged(merged(a, b), b) == merged(a, b),
        merged(merged(a, b), c) == merged(merged(a, c), b),
{
}

/// Usage that is read from a response counts no request: the request is counted
/// when the usage is recorded.
pub proof fn law_read_usage_counts_no_request(value: JsonTree)
    ensures
        usage_of(value) matches Some(stats) ==> stats.requests == 0,
{
}

/// Recording adds one request to a total, and recording twice adds up to the same
/// in either order.
pub proof fn law_recording_adds_up(total: UsageStats, first: UsageStats, second: UsageStats)
    requires
        adds_up(total, one_request(first)),
        adds_up(sum(total, one_request(first)), one_request(second)),
    ensures
        sum(total, one_request(first)).requests == total.requests + 1,
        adds_up(sum(total, one_request(second)), one_request(first)),
        sum(sum(total, one_request(first)), one_request(second)) == sum(
            sum(total, one_request(second)),
            one_request(first),
        ),
{
}

/// Tells whether a name is one that Anthropic uses in its usage objects.
pub open spec fn is_anthropic_name(name: Seq<char>) -> bool {
    name == "input_tokens"@ || name == "output_tokens"@ || name == "cache_creation_input_tokens"@
        || name == "cache_read_input_tokens"@
}

/// Tells whether a name is one that OpenAI uses in its usage objects.
pub open spec fn is_openai_name(name: Seq<char>) -> bool {
    name == "prompt_tokens"@ || name == "completion_tokens"@ || name == "total_tokens"@ || name
        == "prompt_tokens_details"@
}

/// A usage object in one service's names is not taken for one of the other service, so
/// that trying both in turn is unambiguous.
pub proof fn law_services_are_told_apart(fields: Map<Seq<char>, JsonTree>)
    ensures
        (forall|name: Seq<char>| #[trigger] fields.contains_key(name) ==> is_openai_name(name))
            ==> anthropic_usage(JsonTree::Object(fields)) is None,
        (forall|name: Seq<char>| #[trigger] fields.contains_key(name) ==> is_anthropic_name(name))
            ==> openai_usage(JsonTree::Object(fields)) is None,
{
    reveal_strlit("input_tokens");
    reveal_strlit("output_tokens");
    reveal_strlit("cache_creation_input_tokens");
    reveal_strlit("cache_read_input_tokens");
    reveal_strlit("prompt_tokens");
    reveal_strlit("completion_tokens");
    reveal_strlit("total_tokens");
    reveal_strlit("prompt_tokens_details");
    assert("input_tokens"@[0] == 'i');
    assert("output_tokens"@[0] == 'o');
    assert("cache_creation_input_tokens"@[1] == 'a');
    assert("cache_read_input_tokens"@[1] == 'a');
    assert("prompt_tokens"@[0] == 'p');
    assert("prompt_tokens_details"@[0] == 'p');
    assert("total_tokens"@[0] == 't');
    assert("completion_tokens"@[0] == 'c' && "completion_tokens"@[1] == 'o');
    assert(!is_openai_name("input_tokens"@));
    assert(!is_openai_name("output_tokens"@));
    assert(!is_anthropic_name("prompt_tokens"@));
    assert(!is_anthropic_name("completion_tokens"@));
}

} // verus!
