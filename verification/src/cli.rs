//! The arguments of the command-line agent.
use crate::text;
use vstd::prelude::*;

verus! {

/// What follows the first occurrence of a flag that something follows.
pub open spec fn following(args: Seq<Seq<char>>, flag: Seq<char>) -> Option<Seq<char>>
    decreases args.len(),
{
    if args.len() < 2 {
        None
    } else if args[0] == flag {
        Some(args[1])
    } else {
        following(args.drop_first(), flag)
    }
}

/// What follows the first occurrence of a flag.
pub fn value_after(flag: &str, args: &[String]) -> (r: Option<String>)
    ensures
        match r {
            Some(value) => following(text::views(args@), flag@) == Some(value@),
            None => following(text::views(args@), flag@) is None,
        },
{
    let ghost all = text::views(args@);
    let mut i: usize = 0;
    assert(all.skip(0) =~= all);
    while args.len() >= 2 && i < args.len() - 1
        invariant
            i <= args.len(),
            all == text::views(args@),
            following(all, flag@) == following(all.skip(i as int), flag@),
        decreases args.len() - i,
    {
        assert(all.skip(i as int)[0] == args@[i as int]@);
        assert(all.skip(i as int)[1] == args@[i + 1]@);
        if text::same(args[i].as_str(), flag) {
            return Some(args[i + 1].clone());
        }
        assert(all.skip(i as int).drop_first() =~= all.skip(i + 1));
        i += 1;
    }
    None
}

/// What the agent is asked to do.
#[derive(Debug, Clone, PartialEq, Eq)]
pub struct AgentArguments {
    pub prompt: String,
    pub model: String,
    pub evidence_path: Option<String>,
    pub endpoint: Option<String>,
    pub key_variable: String,
}

/// The value of an optional string.
pub open spec fn optional(value: Option<String>) -> Option<Seq<char>> {
    match value {
        Some(s) => Some(s@),
        None => None,
    }
}

/// The value of a flag, or a default.
pub open spec fn following_or(
    args: Seq<Seq<char>>,
    flag: Seq<char>,
    default: Seq<char>,
) -> Seq<char> {
    match following(args, flag) {
        Some(value) => value,
        None => default,
    }
}

/// What the agent is asked to do; nothing where there is no prompt.
pub fn read_arguments(args: &[String]) -> (r: Option<AgentArguments>)
    ensures
        ({
            let all = text::views(args@);
            match r {
                Some(given) => {
                    &&& following(all, "--prompt"@) == Some(given.prompt@)
                    &&& given.model@ == following_or(all, "--model"@, "local-deterministic"@)
                    &&& optional(given.evidence_path) == following(all, "--evidence"@)
                    &&& optional(given.endpoint) == following(all, "--endpoint"@)
                    &&& given.key_variable@ == following_or(
                        all,
                        "--api-key-env"@,
                        "MODEL_API_KEY"@,
                    )
                },
                None => following(all, "--prompt"@) is None,
            }
        }),
{
    match value_after("--prompt", args) {
        Some(prompt) => Some(
            AgentArguments {
                prompt,
                model: match value_after("--model", args) {
                    Some(model) => model,
                    None => "local-deterministic".to_owned(),
                },
                evidence_path: value_after("--evidence", args),
                endpoint: value_after("--endpoint", args),
                key_variable: match value_after("--api-key-env", args) {
                    Some(name) => name,
                    None => "MODEL_API_KEY".to_owned(),
                },
            },
        ),
        None => None,
    }
}

/// The value of a flag is what follows its first occurrence; a flag that does not occur, or that
/// only the last argument is, has none.
pub proof fn a_value_follows_its_flag(flag: &str, args: &[String], r: Option<String>, i: int)
    requires
        call_ensures(value_after, (flag, args), r),
        0 <= i <= args@.len(),
        forall|k: int| 0 <= k < i ==> (#[trigger] args@[k])@ != flag@,
    ensures
        i + 1 < args@.len() && args@[i]@ == flag@ ==> r is Some && r->0@ == args@[i + 1]@,
        i + 1 >= args@.len() ==> r is None,
{
    let all = text::views(args@);
    assert forall|k: int| 0 <= k < i implies (#[trigger] all[k]) != flag@ by {
        assert(args@[k]@ != flag@);
    }
    lemma_following_first(all, flag@, i);
    if i < args@.len() {
        assert(all[i] == args@[i]@);
    }
}

/// The first occurrence of a flag decides.
proof fn lemma_following_first(args: Seq<Seq<char>>, flag: Seq<char>, i: int)
    requires
        0 <= i <= args.len(),
        forall|k: int| 0 <= k < i ==> (#[trigger] args[k]) != flag,
    ensures
        i + 1 < args.len() && args[i] == flag ==> following(args, flag) == Some(args[i + 1]),
        i + 1 >= args.len() ==> following(args, flag) is None,
    decreases i,
{
    if i > 0 && args.len() >= 2 {
        let rest = args.drop_first();
        assert(args[0] != flag);
        assert forall|k: int| 0 <= k < i - 1 implies (#[trigger] rest[k]) != flag by {
            assert(rest[k] == args[k + 1]);
        }
        lemma_following_first(rest, flag, i - 1);
        if i < args.len() {
            assert(rest[i - 1] == args[i]);
        }
    }
}

/// An agent is asked where there is a prompt. Each part of what it is asked is the value of its own
/// flag; without that the model is `local-deterministic` and the key is in `MODEL_API_KEY`.
pub proof fn arguments_are_the_values_of_their_flags(
    args: &[String],
    r: Option<AgentArguments>,
    prompt: &str,
    model: &str,
    evidence: &str,
    endpoint: &str,
    variable: &str,
    a: Option<String>,
    b: Option<String>,
    c: Option<String>,
    d: Option<String>,
    e: Option<String>,
)
    requires
        call_ensures(read_arguments, (args,), r),
        prompt@ == "--prompt"@,
        model@ == "--model"@,
        evidence@ == "--evidence"@,
        endpoint@ == "--endpoint"@,
        variable@ == "--api-key-env"@,
        call_ensures(value_after, (prompt, args), a),
        call_ensures(value_after, (model, args), b),
        call_ensures(value_after, (evidence, args), c),
        call_ensures(value_after, (endpoint, args), d),
        call_ensures(value_after, (variable, args), e),
    ensures
        r is Some <==> a is Some,
        r is Some ==> {
            &&& r->0.prompt@ == a->0@
            &&& b is Some ==> r->0.model@ == b->0@
            &&& b is None ==> r->0.model@ == "local-deterministic"@
            &&& c is Some ==> r->0.evidence_path is Some && r->0.evidence_path->0@ == c->0@
            &&& c is None ==> r->0.evidence_path is None
            &&& d is Some ==> r->0.endpoint is Some && r->0.endpoint->0@ == d->0@
            &&& d is None ==> r->0.endpoint is None
            &&& e is Some ==> r->0.key_variable@ == e->0@
            &&& e is None ==> r->0.key_variable@ == "MODEL_API_KEY"@
        },
{
}

} // verus!
