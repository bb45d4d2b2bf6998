//! The text in which the service tells its counts to a collector of metrics.
use crate::number;
use crate::worker::Counters;
use vstd::prelude::*;
use vstd::string::StringExecFns;

verus! {

/// One count: a line that explains it, a line that says that it only grows, and its value.
pub open spec fn counter_text(name: Seq<char>, help: Seq<char>, value: u64) -> Seq<char> {
    "# HELP "@ + name + " "@ + help + "\n# TYPE "@ + name + " counter\n"@ + name + " "@
        + number::decimal(value as nat) + "\n"@
}

/// All that is told: how the service is configured, that it is up, and its counts.
pub open spec fn metrics_text(
    storage: Seq<char>,
    ingestion: Seq<char>,
    counters: Counters,
) -> Seq<char> {
    "# HELP observability_api_info Runtime configuration of the API.\n# TYPE observability_api_info gauge\nobservability_api_info{storage=\""@
        + storage + "\",ingestion=\""@ + ingestion
        + "\"} 1\n# HELP observability_api_up Whether the API process is serving requests.\n# TYPE observability_api_up gauge\nobservability_api_up 1\n"@
        + counter_text(
        "observability_observations_ingested_total"@,
        "Observations accepted by the API."@,
        counters.observations_ingested,
    )
        + counter_text(
        "observability_model_calls_total"@,
        "Model completion requests accepted by the API."@,
        counters.model_calls,
    )
        + counter_text(
        "observability_agent_executions_total"@,
        "Agent tool executions accepted by the API."@,
        counters.agent_executions,
    )
        + counter_text(
        "observability_queue_processed_total"@,
        "Durable queue items persisted to observation storage."@,
        counters.queue_processed,
    )
        + counter_text(
        "observability_queue_retries_total"@,
        "Durable queue items scheduled for retry."@,
        counters.queue_retries,
    )
        + counter_text(
        "observability_queue_dead_letters_total"@,
        "Durable queue items moved to dead letter."@,
        counters.queue_dead_letters,
    )
}

/// Appends one count.
fn append_counter(body: &mut String, name: &str, help: &str, value: u64)
    ensures
        final(body)@ == old(body)@ + counter_text(name@, help@, value),
{
    body.append("# HELP ");
    body.append(name);
    body.append(" ");
    body.append(help);
    body.append("\n# TYPE ");
    body.append(name);
    body.append(" counter\n");
    body.append(name);
    body.append(" ");
    body.append(number::decimal_text(value).as_str());
    body.append("\n");
    assert(body@ =~= old(body)@ + counter_text(name@, help@, value));
}

/// How the service is configured, that it is up, and its counts, in the text format of Prometheus.
pub fn metrics(storage: &str, ingestion: &str, counters: &Counters) -> (r: String)
    ensures
        r@ == metrics_text(storage@, ingestion@, *counters),
{
    let mut body: String = String::new();
    body.append("# HELP observability_api_info Runtime configuration of the API.\n# TYPE observability_api_info gauge\nobservability_api_info{storage=\"");
    body.append(storage);
    body.append("\",ingestion=\"");
    body.append(ingestion);
    body.append("\"} 1\n# HELP observability_api_up Whether the API process is serving requests.\n# TYPE observability_api_up gauge\nobservability_api_up 1\n");
    append_counter(
        &mut body,
        "observability_observations_ingested_total",
        "Observations accepted by the API.",
        counters.observations_ingested,
    );
    append_counter(
        &mut body,
        "observability_model_calls_total",
        "Model completion requests accepted by the API.",
        counters.model_calls,
    );
    append_counter(
        &mut body,
        "observability_agent_executions_total",
        "Agent tool executions accepted by the API.",
        counters.agent_executions,
    );
    append_counter(
        &mut body,
        "observability_queue_processed_total",
        "Durable queue items persisted to observation storage.",
        counters.queue_processed,
    );
    append_counter(
        &mut body,
        "observability_queue_retries_total",
        "Durable queue items scheduled for retry.",
        counters.queue_retries,
    );
    append_counter(
        &mut body,
        "observability_queue_dead_letters_total",
        "Durable queue items moved to dead letter.",
        counters.queue_dead_letters,
    );
    assert(body@ =~= metrics_text(storage@, ingestion@, *counters));
    body
}

/// The text tells how the service is configured, that it is up, and its six counts in a fixed order:
/// each with a line that explains it, a line that says that it is a counter, and its value.
pub proof fn the_text_tells_everything(
    storage: &str,
    ingestion: &str,
    counters: &Counters,
    r: String,
)
    requires
        call_ensures(metrics, (storage, ingestion, counters), r),
    ensures
        r@ == "# HELP observability_api_info Runtime configuration of the API.\n# TYPE observability_api_info gauge\nobservability_api_info{storage=\""@
            + storage@ + "\",ingestion=\""@ + ingestion@
            + "\"} 1\n# HELP observability_api_up Whether the API process is serving requests.\n# TYPE observability_api_up gauge\nobservability_api_up 1\n"@
            + ("# HELP "@ + "observability_observations_ingested_total"@ + " "@
            + "Observations accepted by the API."@ + "\n# TYPE "@
            + "observability_observations_ingested_total"@ + " counter\n"@
            + "observability_observations_ingested_total"@ + " "@ + number::decimal(
            counters.observations_ingested as nat,
        ) + "\n"@)
            + ("# HELP "@ + "observability_model_calls_total"@ + " "@
            + "Model completion requests accepted by the API."@ + "\n# TYPE "@
            + "observability_model_calls_total"@ + " counter\n"@
            + "observability_model_calls_total"@ + " "@ + number::decimal(
            counters.model_calls as nat,
        ) + "\n"@)
            + ("# HELP "@ + "observability_agent_executions_total"@ + " "@
            + "Agent tool executions accepted by the API."@ + "\n# TYPE "@
            + "observability_agent_executions_total"@ + " counter\n"@
            + "observability_agent_executions_total"@ + " "@ + number::decimal(
            counters.agent_executions as nat,
        ) + "\n"@)
            + ("# HELP "@ + "observability_queue_processed_total"@ + " "@
            + "Durable queue items persisted to observation storage."@ + "\n# TYPE "@
            + "observability_queue_processed_total"@ + " counter\n"@
            + "observability_queue_processed_total"@ + " "@ + number::decimal(
            counters.queue_processed as nat,
        ) + "\n"@)
            + ("# HELP "@ + "observability_queue_retries_total"@ + " "@
            + "Durable queue items scheduled for retry."@ + "\n# TYPE "@
            + "observability_queue_retries_total"@ + " counter\n"@
            + "observability_queue_retries_total"@ + " "@ + number::decimal(
            counters.queue_retries as nat,
        ) + "\n"@)
            + ("# HELP "@ + "observability_queue_dead_letters_total"@ + " "@
            + "Durable queue items moved to dead letter."@ + "\n# TYPE "@
            + "observability_queue_dead_letters_total"@ + " counter\n"@
            + "observability_queue_dead_letters_total"@ + " "@ + number::decimal(
            counters.queue_dead_letters as nat,
        ) + "\n"@),
{
}

/// The text tells each count under its own name, on a line of its own behind the line that says what
/// it is.
pub proof fn every_count_is_told(storage: &str, ingestion: &str, counters: &Counters, r: String)
    requires
        call_ensures(metrics, (storage, ingestion, counters), r),
    ensures
        tells(r@, "observability_observations_ingested_total"@, counters.observations_ingested),
        tells(r@, "observability_model_calls_total"@, counters.model_calls),
        tells(r@, "observability_agent_executions_total"@, counters.agent_executions),
        tells(r@, "observability_queue_processed_total"@, counters.queue_processed),
        tells(r@, "observability_queue_retries_total"@, counters.queue_retries),
        tells(r@, "observability_queue_dead_letters_total"@, counters.queue_dead_letters),
{
    let head = "# HELP observability_api_info Runtime configuration of the API.\n# TYPE observability_api_info gauge\nobservability_api_info{storage=\""@
        + storage@ + "\",ingestion=\""@ + ingestion@
        + "\"} 1\n# HELP observability_api_up Whether the API process is serving requests.\n# TYPE observability_api_up gauge\nobservability_api_up 1\n"@;
    let a = counter_text(
        "observability_observations_ingested_total"@,
        "Observations accepted by the API."@,
        counters.observations_ingested,
    );
    let b = counter_text(
        "observability_model_calls_total"@,
        "Model completion requests accepted by the API."@,
        counters.model_calls,
    );
    let c = counter_text(
        "observability_agent_executions_total"@,
        "Agent tool executions accepted by the API."@,
        counters.agent_executions,
    );
    let d = counter_text(
        "observability_queue_processed_total"@,
        "Durable queue items persisted to observation storage."@,
        counters.queue_processed,
    );
    let e = counter_text(
        "observability_queue_retries_total"@,
        "Durable queue items scheduled for retry."@,
        counters.queue_retries,
    );
    let f = counter_text(
        "observability_queue_dead_letters_total"@,
        "Durable queue items moved to dead letter."@,
        counters.queue_dead_letters,
    );
    assert(r@ == head + a + b + c + d + e + f);
    assert(r@ =~= head + a + (b + c + d + e + f));
    assert(r@ =~= head + a + b + (c + d + e + f));
    assert(r@ =~= head + a + b + c + (d + e + f));
    assert(r@ =~= head + a + b + c + d + (e + f));
    assert(r@ =~= head + a + b + c + d + e + f + Seq::empty());
    lemma_counter_tells(
        head,
        "observability_observations_ingested_total"@,
        "Observations accepted by the API."@,
        counters.observations_ingested,
        b + c + d + e + f,
    );
    lemma_counter_tells(
        head + a,
        "observability_model_calls_total"@,
        "Model completion requests accepted by the API."@,
        counters.model_calls,
        c + d + e + f,
    );
    lemma_counter_tells(
        head + a + b,
        "observability_agent_executions_total"@,
        "Agent tool executions accepted by the API."@,
        counters.agent_executions,
        d + e + f,
    );
    lemma_counter_tells(
        head + a + b + c,
        "observability_queue_processed_total"@,
        "Durable queue items persisted to observation storage."@,
        counters.queue_processed,
        e + f,
    );
    lemma_counter_tells(
        head + a + b + c + d,
        "observability_queue_retries_total"@,
        "Durable queue items scheduled for retry."@,
        counters.queue_retries,
        f,
    );
    lemma_counter_tells(
        head + a + b + c + d + e,
        "observability_queue_dead_letters_total"@,
        "Durable queue items moved to dead letter."@,
        counters.queue_dead_letters,
        Seq::empty(),
    );
}

/// Somewhere in the text stands that the name is a counter, and on the next line the name and the
/// value.
pub open spec fn tells(text: Seq<char>, name: Seq<char>, value: u64) -> bool {
    exists|front: Seq<char>, behind: Seq<char>|
        text == #[trigger] (front + ("# TYPE "@ + name + " counter\n"@ + name + " "@
            + number::decimal(value as nat) + "\n"@) + behind)
}

/// The text of one count tells it.
proof fn lemma_counter_tells(
    front: Seq<char>,
    name: Seq<char>,
    help: Seq<char>,
    value: u64,
    behind: Seq<char>,
)
    ensures
        tells(front + counter_text(name, help, value) + behind, name, value),
{
    let line = "# TYPE "@ + name + " counter\n"@ + name + " "@ + number::decimal(value as nat)
        + "\n"@;
    let first = front + ("# HELP "@ + name + " "@ + help + "\n"@);
    reveal_strlit("\n");
    reveal_strlit("# TYPE ");
    reveal_strlit("\n# TYPE ");
    assert("\n# TYPE "@ =~= "\n"@ + "# TYPE "@);
    assert(front + counter_text(name, help, value) + behind =~= first + line + behind);
}

} // verus!
