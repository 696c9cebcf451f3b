//! What the session proxy promises as a whole: the usage that it reads and adds up, and
//! the providers that it stands in front of.

use vstd::prelude::*;
use crate::json::{Json, JsonTree, NumberTree};
use crate::models::ModelFunction;
use crate::name_map::NameMap;
use crate::providers::{ApiType, ProviderInstance, Secret};
use crate::proxy::model_wrapper::ProxiedProvider;
use crate::proxy::usage::{adds_up, copy_usage, parse_usage, UsageStats, UsageTracker};

verus! {

/// The count under a name: the integer there, where it is one from 0 to `u64::MAX`.
pub open spec fn count_under(fields: Map<Seq<char>, JsonTree>, name: Seq<char>) -> u64 {
    if fields.contains_key(name) {
        match fields[name] {
            JsonTree::Number(NumberTree::Integer(k)) => if 0 <= k <= u64::MAX {
                k as u64
            } else {
                0
            },
            _ => 0,
        }
    } else {
        0
    }
}

/// Tells whether there is a count under a name.
pub open spec fn has_count(fields: Map<Seq<char>, JsonTree>, name: Seq<char>) -> bool {
    fields.contains_key(name) && (fields[name] matches JsonTree::Number(NumberTree::Integer(k))
        && 0 <= k <= u64::MAX)
}

/// Tells whether a response carries a value as its usage: in its message where that
/// carries one, else at the top.
pub open spec fn carries(response: Map<Seq<char>, JsonTree>, usage: JsonTree) -> bool {
    if response.contains_key("message"@) && (response["message"@] matches JsonTree::Object(message)
        && message.contains_key("usage"@)) {
        response["message"@]->Object_0["usage"@] == usage
    } else {
        response.contains_key("usage"@) && response["usage"@] == usage
    }
}

/// Tells whether a response carries any value as its usage.
pub open spec fn carries_some(response: Map<Seq<char>, JsonTree>) -> bool {
    response.contains_key("usage"@) || (response.contains_key("message"@) && (
    response["message"@] matches JsonTree::Object(message) && message.contains_key("usage"@)))
}

/// Usage in Anthropic's names is read from exactly those names, each for its own count.
/// Whatever else the usage object or the response holds does not change it.
pub proof fn law_anthropic_usage_is_read(
    response: &Json,
    top: Map<Seq<char>, JsonTree>,
    fields: Map<Seq<char>, JsonTree>,
    r: Option<UsageStats>,
)
    requires
        call_ensures(parse_usage, (response,), r),
        response.tree() == JsonTree::Object(top),
        carries(top, JsonTree::Object(fields)),
        fields.contains_key("input_tokens"@) || fields.contains_key("output_tokens"@),
    ensures
        r matches Some(stats) && stats.requests == 0 && stats.input_tokens == count_under(
            fields,
            "input_tokens"@,
        ) && stats.output_tokens == count_under(fields, "output_tokens"@)
            && stats.cache_creation_tokens == count_under(fields, "cache_creation_input_tokens"@)
            && stats.cache_read_tokens == count_under(fields, "cache_read_input_tokens"@),
{
}

/// Usage in OpenAI's names and none of Anthropic's is read from exactly those names: the
/// input under `prompt_tokens`, the output under `completion_tokens`, and what came from
/// the cache under `cached_tokens` in the details. Whatever else the usage object or the
/// response holds, a total among it, does not change it.
pub proof fn law_openai_usage_is_read(
    response: &Json,
    top: Map<Seq<char>, JsonTree>,
    fields: Map<Seq<char>, JsonTree>,
    r: Option<UsageStats>,
)
    requires
        call_ensures(parse_usage, (response,), r),
        response.tree() == JsonTree::Object(top),
        carries(top, JsonTree::Object(fields)),
        !fields.contains_key("input_tokens"@) && !fields.contains_key("output_tokens"@),
        fields.contains_key("prompt_tokens"@) || fields.contains_key("completion_tokens"@),
    ensures
        r matches Some(stats) && stats.requests == 0 && stats.input_tokens == count_under(
            fields,
            "prompt_tokens"@,
        ) && stats.output_tokens == count_under(fields, "completion_tokens"@)
            && stats.cache_creation_tokens == 0 && stats.cache_read_tokens == (if fields.contains_key(
            "prompt_tokens_details"@,
        ) && fields["prompt_tokens_details"@] is Object {
            count_under(fields["prompt_tokens_details"@]->Object_0, "cached_tokens"@)
        } else {
            0
        }),
{
}

/// Two responses whose usage objects agree on the names that one service uses report the
/// same usage, however they differ otherwise.
pub proof fn law_other_fields_do_not_count(
    a: &Json,
    b: &Json,
    a_top: Map<Seq<char>, JsonTree>,
    b_top: Map<Seq<char>, JsonTree>,
    a_fields: Map<Seq<char>, JsonTree>,
    b_fields: Map<Seq<char>, JsonTree>,
    ra: Option<UsageStats>,
    rb: Option<UsageStats>,
)
    requires
        call_ensures(parse_usage, (a,), ra),
        call_ensures(parse_usage, (b,), rb),
        a.tree() == JsonTree::Object(a_top),
        b.tree() == JsonTree::Object(b_top),
        carries(a_top, JsonTree::Object(a_fields)),
        carries(b_top, JsonTree::Object(b_fields)),
        forall|name: Seq<char>|
            name == "input_tokens"@ || name == "output_tokens"@ || name
                == "cache_creation_input_tokens"@ || name == "cache_read_input_tokens"@ || name
                == "prompt_tokens"@ || name == "completion_tokens"@ || name
                == "prompt_tokens_details"@ ==> (a_fields.contains_key(name)
                <==> #[trigger] b_fields.contains_key(name)) && (a_fields.contains_key(name)
                ==> a_fields[name] == b_fields[name]),
        a_fields.contains_key("input_tokens"@) || a_fields.contains_key("output_tokens"@)
            || a_fields.contains_key("prompt_tokens"@) || a_fields.contains_key(
            "completion_tokens"@,
        ),
    ensures
        ra == rb,
        ra is Some,
{
    assert(b_fields.contains_key("input_tokens"@) == a_fields.contains_key("input_tokens"@));
    assert(b_fields.contains_key("output_tokens"@) == a_fields.contains_key("output_tokens"@));
    assert(b_fields.contains_key("prompt_tokens"@) == a_fields.contains_key("prompt_tokens"@));
    assert(b_fields.contains_key("completion_tokens"@) == a_fields.contains_key(
        "completion_tokens"@,
    ));
    assert(b_fields.contains_key("cache_creation_input_tokens"@) == a_fields.contains_key(
        "cache_creation_input_tokens"@,
    ));
    assert(b_fields.contains_key("cache_read_input_tokens"@) == a_fields.contains_key(
        "cache_read_input_tokens"@,
    ));
    assert(b_fields.contains_key("prompt_tokens_details"@) == a_fields.contains_key(
        "prompt_tokens_details"@,
    ));
}

/// Usage as Ollama reports it stands at the top of a response that carries no usage
/// object of the other services. A response with neither reports none.
pub proof fn law_ollama_usage_is_read(
    response: &Json,
    top: Map<Seq<char>, JsonTree>,
    r: Option<UsageStats>,
)
    requires
        call_ensures(parse_usage, (response,), r),
        response.tree() == JsonTree::Object(top),
        forall|fields: Map<Seq<char>, JsonTree>| #[trigger]
            carries(top, JsonTree::Object(fields)) ==> !fields.contains_key("input_tokens"@)
                && !fields.contains_key("output_tokens"@) && !fields.contains_key("prompt_tokens"@)
                && !fields.contains_key("completion_tokens"@),
    ensures
        match r {
            Some(stats) => {
                &&& has_count(top, "prompt_eval_count"@) || has_count(top, "eval_count"@)
                &&& stats.requests == 0
                &&& stats.input_tokens == count_under(top, "prompt_eval_count"@)
                &&& stats.output_tokens == count_under(top, "eval_count"@)
                &&& stats.cache_creation_tokens == 0
                &&& stats.cache_read_tokens == 0
            },
            None => !has_count(top, "prompt_eval_count"@) && !has_count(top, "eval_count"@),
        },
{
    if carries_some(top) {
        let usage = if response.tree().field("message"@) is Some && response.tree().field(
            "message"@,
        )->0.field("usage"@) is Some {
            response.tree().field("message"@)->0.field("usage"@)->0
        } else {
            top["usage"@]
        };
        assert(carries(top, usage));
        if usage is Object {
            assert(carries(top, JsonTree::Object(usage->Object_0)));
        }
    }
}

/// A response that is no object reports no usage.
pub proof fn law_only_objects_report_usage(response: &Json, r: Option<UsageStats>)
    requires
        call_ensures(parse_usage, (response,), r),
        !(response.tree() is Object),
    ensures
        r is None,
{
}

/// Adding adds each count to its own, and can be done exactly when every sum fits.
pub proof fn law_each_count_adds_to_its_own(other: &UsageStats)
    ensures
        forall|t: &mut UsageStats|
            adds_up(*t, *other) && #[trigger] call_ensures(UsageStats::add, (t, other), ())
                ==> final(t).requests == t.requests + other.requests && final(t).input_tokens
                == t.input_tokens + other.input_tokens && final(t).output_tokens == t.output_tokens
                + other.output_tokens && final(t).cache_creation_tokens == t.cache_creation_tokens
                + other.cache_creation_tokens && final(t).cache_read_tokens == t.cache_read_tokens
                + other.cache_read_tokens,
        forall|a: UsageStats| #[trigger]
            adds_up(a, *other) <==> a.requests + other.requests <= u64::MAX && a.input_tokens
                + other.input_tokens <= u64::MAX && a.output_tokens + other.output_tokens
                <= u64::MAX && a.cache_creation_tokens + other.cache_creation_tokens <= u64::MAX
                && a.cache_read_tokens + other.cache_read_tokens <= u64::MAX,
{
}

/// Tells whether one count is the larger of two others.
pub open spec fn is_larger_of(count: u64, a: u64, b: u64) -> bool {
    count >= a && count >= b && (count == a || count == b)
}

/// Merging takes the larger of each count with its own, and keeps the requests.
pub proof fn law_each_count_merges_with_its_own(other: &UsageStats)
    ensures
        forall|t: &mut UsageStats| #[trigger]
            call_ensures(UsageStats::merge_max, (t, other), ()) ==> final(t).requests == t.requests
                && is_larger_of(final(t).input_tokens, t.input_tokens, other.input_tokens)
                && is_larger_of(final(t).output_tokens, t.output_tokens, other.output_tokens)
                && is_larger_of(
                final(t).cache_creation_tokens,
                t.cache_creation_tokens,
                other.cache_creation_tokens,
            ) && is_larger_of(
                final(t).cache_read_tokens,
                t.cache_read_tokens,
                other.cache_read_tokens,
            ),
{
}

/// Tells whether one total is another with the tokens of a response, and `requests` more
/// requests.
pub open spec fn grew_by(
    after: UsageStats,
    before: UsageStats,
    delta: UsageStats,
    requests: int,
) -> bool {
    &&& after.requests == before.requests + requests
    &&& after.input_tokens == before.input_tokens + delta.input_tokens
    &&& after.output_tokens == before.output_tokens + delta.output_tokens
    &&& after.cache_creation_tokens == before.cache_creation_tokens + delta.cache_creation_tokens
    &&& after.cache_read_tokens == before.cache_read_tokens + delta.cache_read_tokens
}

/// Tells whether one more response fits into a total.
pub open spec fn has_room(before: UsageStats, delta: UsageStats) -> bool {
    &&& before.requests + 1 <= u64::MAX
    &&& before.input_tokens + delta.input_tokens <= u64::MAX
    &&& before.output_tokens + delta.output_tokens <= u64::MAX
    &&& before.cache_creation_tokens + delta.cache_creation_tokens <= u64::MAX
    &&& before.cache_read_tokens + delta.cache_read_tokens <= u64::MAX
}

/// What is recorded under a label, `zero` where nothing is.
pub open spec fn under(t: UsageTracker, label: Seq<char>, zero: UsageStats) -> UsageStats {
    if t.stats@.contains_key(label) {
        t.stats@[label]
    } else {
        zero
    }
}

/// Recording a response under a label adds its tokens and one request to what was
/// recorded there, however many requests the response claims, and touches no other
/// label. It can be done exactly when every sum fits.
pub proof fn law_recording_counts_one_request(
    label: &str,
    delta: UsageStats,
    zero: UsageStats,
)
    requires
        zero.requests == 0 && zero.input_tokens == 0 && zero.output_tokens == 0
            && zero.cache_creation_tokens == 0 && zero.cache_read_tokens == 0,
    ensures
        forall|t: &mut UsageTracker|
            has_room(under(*t, label@, zero), delta) && #[trigger] call_ensures(
                UsageTracker::record,
                (t, label, delta),
                (),
            ) ==> {
                &&& final(t).stats@.contains_key(label@)
                &&& grew_by(final(t).stats@[label@], under(*t, label@, zero), delta, 1)
                &&& final(t).stats@.remove(label@) == t.stats@.remove(label@)
            },
        forall|t: &UsageTracker, r: bool| #[trigger]
            call_ensures(UsageTracker::can_record, (t, label, delta), r) ==> r == has_room(
                under(*t, label@, zero),
                delta,
            ),
        forall|t: &UsageTracker, r: UsageStats| #[trigger]
            call_ensures(UsageTracker::recorded, (t, label), r) ==> r == under(*t, label@, zero),
        forall|r: UsageTracker| #[trigger]
            call_ensures(UsageTracker::new, (), r) ==> r.stats@.dom() == Set::<Seq<char>>::empty(),
{
    assert forall|t: &mut UsageTracker|
        has_room(under(*t, label@, zero), delta) && #[trigger] call_ensures(
            UsageTracker::record,
            (t, label, delta),
            (),
        ) implies final(t).stats@.remove(label@) == t.stats@.remove(label@) by {
        assert(final(t).stats@.remove(label@) =~= t.stats@.remove(label@));
    }
    assert forall|r: UsageTracker| #[trigger]
        call_ensures(UsageTracker::new, (), r) implies r.stats@.dom() == Set::<
        Seq<char>,
    >::empty() by {
        assert(r.stats@.dom() =~= Set::<Seq<char>>::empty());
    }
}

/// Setting a label replaces what was recorded there and touches no other. A snapshot is
/// a copy of everything that was recorded.
pub proof fn law_setting_replaces_one_label(label: &str, stats: UsageStats)
    ensures
        forall|t: &mut UsageTracker| #[trigger]
            call_ensures(UsageTracker::set, (t, label, stats), ()) ==> final(t).stats@.contains_key(label@) && final(t).stats@[label@] == stats && final(t).stats@.remove(label@) == t.stats@.remove(label@),
        forall|t: &UsageTracker, r: NameMap<UsageStats>| #[trigger]
            call_ensures(UsageTracker::snapshot, (t,), r) ==> r@ == t.stats@ && r.names()
                == t.stats.names(),
        forall|s: &NameMap<UsageStats>, r: NameMap<UsageStats>| #[trigger]
            call_ensures(copy_usage, (s,), r) ==> r@ == s@ && r.names() == s.names(),
{
    assert forall|t: &mut UsageTracker| #[trigger]
        call_ensures(UsageTracker::set, (t, label, stats), ()) implies final(t).stats@.remove(
        label@,
    ) == t.stats@.remove(label@) by {
        assert(final(t).stats@.remove(label@) =~= t.stats@.remove(label@));
    }
}

/// A provider behind the proxy shows the address of the proxy, no credential, and a
/// connection that is checked. Everything else it shows as it is.
pub proof fn law_proxied_provider_hides_only_its_connection<'a>(
    inner: &'a ProviderInstance,
    url: String,
    wrapped: ProxiedProvider<'a>,
)
    requires
        call_ensures(ProxiedProvider::wrap, (inner, url), wrapped),
    ensures
        forall|r: &str| #[trigger]
            call_ensures(ProxiedProvider::base_url, (&wrapped,), r) ==> r@ == url@,
        forall|r: Option<&Secret>| #[trigger]
            call_ensures(ProxiedProvider::api_key, (&wrapped,), r) ==> r is None,
        forall|r: bool| #[trigger]
            call_ensures(ProxiedProvider::verify_ssl, (&wrapped,), r) ==> r,
        forall|r: &str| #[trigger]
            call_ensures(ProxiedProvider::name, (&wrapped,), r) ==> r@ == inner.name@,
        forall|r: &Vec<ApiType>| #[trigger]
            call_ensures(ProxiedProvider::supported_api_types, (&wrapped,), r) ==> *r
                == inner.api_types,
        forall|r: &Vec<String>| #[trigger]
            call_ensures(ProxiedProvider::supported_formats, (&wrapped,), r) ==> *r
                == inner.formats,
        forall|r: &Vec<(ModelFunction, Vec<String>)>| #[trigger]
            call_ensures(ProxiedProvider::function_endpoints, (&wrapped,), r) ==> *r
                == inner.endpoints,
        forall|r: Option<&NameMap<Secret>>| #[trigger]
            call_ensures(ProxiedProvider::custom_headers, (&wrapped,), r) ==> (match r {
                Some(headers) => inner.custom_headers == Some(*headers),
                None => inner.custom_headers is None,
            }),
        forall|id: &str, variant: Option<&str>, r: Option<&str>, own: Option<&str>|
            #[trigger] call_ensures(ProxiedProvider::model_alias, (&wrapped, id, variant), r)
                && #[trigger] call_ensures(
                ProviderInstance::model_alias,
                (inner, id, variant),
                own,
            ) ==> (r is Some <==> own is Some) && (r is Some ==> r->0@ == own->0@),
        forall|format: &str, precision: &str, r: bool, own: bool|
            #[trigger] call_ensures(
                ProxiedProvider::can_run_model,
                (&wrapped, format, precision),
                r,
            ) && #[trigger] call_ensures(
                ProviderInstance::can_run_model,
                (inner, format, precision),
                own,
            ) ==> r == own,
{
}

} // verus!
