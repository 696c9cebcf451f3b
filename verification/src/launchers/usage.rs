//! Token usage as Bob keeps it: a costs record for every task.

use vstd::prelude::*;
use crate::json::{parsed_tree, Json, JsonTree};
use crate::proxy::usage::{no_usage, UsageStats};

verus! {

/// The query for the costs of a task and everything below it, in the database that Bob
/// keeps its tasks in. Its parameter is the id of the task. Each task is followed once,
/// so that tasks which are each other's parents do not keep it going.
pub const TASK_TREE_QUERY: &'static str =
    "WITH RECURSIVE task_tree(id) AS (SELECT ?1 UNION SELECT tasks.id FROM tasks JOIN task_tree ON tasks.parent_id = task_tree.id) SELECT costs FROM tasks WHERE id IN (SELECT id FROM task_tree);";

/// The usage that a costs record reports. Anything but an object reports none,
/// and so does a field that is missing or no integer.
pub open spec fn costs_usage(costs: JsonTree) -> UsageStats {
    UsageStats {
        requests: 0,
        input_tokens: costs.unsigned_field("input"@),
        output_tokens: costs.unsigned_field("output"@),
        cache_creation_tokens: costs.unsigned_field("cacheWrite"@),
        cache_read_tokens: costs.unsigned_field("cacheRead"@),
    }
}

/// The usage that the text of a costs record reports. Text that is not JSON
/// reports none.
pub open spec fn costs_text_usage(text: Seq<char>) -> UsageStats {
    match parsed_tree(text) {
        Some(costs) => costs_usage(costs),
        None => no_usage(),
    }
}

/// The usage that a row reports. A row without costs reports none.
pub open spec fn row_usage(row: Option<String>) -> UsageStats {
    match row {
        Some(text) => costs_text_usage(text@),
        None => no_usage(),
    }
}

/// The usage that a costs record reports.
pub fn usage_from_costs(costs: &Json) -> (r: UsageStats)
    ensures
        r == costs_usage(costs.tree()),
{
    UsageStats {
        requests: 0,
        input_tokens: costs.unsigned_field("input"),
        output_tokens: costs.unsigned_field("output"),
        cache_creation_tokens: costs.unsigned_field("cacheWrite"),
        cache_read_tokens: costs.unsigned_field("cacheRead"),
    }
}

/// Reads the usage that the text of a costs record reports.
pub fn parse_costs_json(json_str: &str) -> (r: UsageStats)
    ensures
        r == costs_text_usage(json_str@),
{
    match Json::parse(json_str) {
        Some(costs) => usage_from_costs(&costs),
        None => UsageStats::default(),
    }
}

/// The sum of one count over all rows.
pub open spec fn count_sum(rows: Seq<UsageStats>, count: spec_fn(UsageStats) -> u64) -> nat
    decreases rows.len(),
{
    if rows.len() == 0 {
        0
    } else {
        count_sum(rows.drop_last(), count) + count(rows.last()) as nat
    }
}

/// A sum, held at the largest count where it does not fit.
pub open spec fn held(n: nat) -> u64 {
    if n <= u64::MAX {
        n as u64
    } else {
        u64::MAX
    }
}

/// The usage of a task tree: each token count summed over its rows, and one
/// request for each row.
pub open spec fn tree_usage(rows: Seq<UsageStats>) -> UsageStats {
    UsageStats {
        requests: held(rows.len()),
        input_tokens: held(count_sum(rows, |u: UsageStats| u.input_tokens)),
        output_tokens: held(count_sum(rows, |u: UsageStats| u.output_tokens)),
        cache_creation_tokens: held(count_sum(rows, |u: UsageStats| u.cache_creation_tokens)),
        cache_read_tokens: held(count_sum(rows, |u: UsageStats| u.cache_read_tokens)),
    }
}

/// Adds up what the rows of a task tree report.
pub fn sum_usage(rows: &Vec<UsageStats>) -> (r: UsageStats)
    ensures
        r == tree_usage(rows@),
{
    let mut total = UsageStats::default();
    let mut i: usize = 0;
    proof {
        assert(rows@.take(0) =~= Seq::<UsageStats>::empty());
        assert(total == tree_usage(rows@.take(0)));
    }
    while i < rows.len()
        invariant
            i <= rows@.len(),
            total == tree_usage(rows@.take(i as int)),
        decreases rows@.len() - i,
    {
        let row = rows[i];
        proof {
            let here = rows@.take(i + 1);
            assert(here.drop_last() =~= rows@.take(i as int));
            assert(here.last() == row);
        }
        total.requests = total.requests.saturating_add(1);
        total.input_tokens = total.input_tokens.saturating_add(row.input_tokens);
        total.output_tokens = total.output_tokens.saturating_add(row.output_tokens);
        total.cache_creation_tokens =
        total.cache_creation_tokens.saturating_add(row.cache_creation_tokens);
        total.cache_read_tokens = total.cache_read_tokens.saturating_add(row.cache_read_tokens);
        i += 1;
    }
    proof {
        assert(rows@.take(i as int) =~= rows@);
    }
    total
}

/// What the rows of a task tree report.
pub open spec fn rows_usage(rows: Seq<Option<String>>) -> Seq<UsageStats> {
    rows.map_values(|row: Option<String>| row_usage(row))
}

/// The usage of a task tree, given the costs column of its rows: nothing where a
/// row has no costs or they could not be read. It never fails: a row that makes
/// no sense counts as a request without tokens, and no rows are no usage.
pub fn collect_bob_usage(rows: &Vec<Option<String>>) -> (r: UsageStats)
    ensures
        r == tree_usage(rows_usage(rows@)),
{
    let mut read: Vec<UsageStats> = Vec::new();
    let mut i: usize = 0;
    while i < rows.len()
        invariant
            i <= rows@.len(),
            read@ == rows_usage(rows@.take(i as int)),
        decreases rows@.len() - i,
    {
        let usage = match &rows[i] {
            Some(text) => parse_costs_json(text.as_str()),
            None => UsageStats::default(),
        };
        let ghost before = read@;
        read.push(usage);
        proof {
            assert(rows_usage(rows@.take(i + 1)) =~= before.push(usage));
        }
        i += 1;
    }
    proof {
        assert(rows@.take(i as int) =~= rows@);
    }
    sum_usage(&read)
}

/// A row that reports nothing adds a request and no tokens.
pub proof fn law_empty_row_counts_as_request(rows: Seq<UsageStats>)
    requires
        rows.len() < u64::MAX,
    ensures
        tree_usage(rows.push(no_usage())) == (UsageStats {
            requests: (rows.len() + 1) as u64,
            ..tree_usage(rows)
        }),
        tree_usage(Seq::empty()) == no_usage(),
{
    let more = rows.push(no_usage());
    assert(more.drop_last() =~= rows);
    assert(tree_usage(Seq::empty()) == no_usage());
}

} // verus!
