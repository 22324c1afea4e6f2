//! What the commands are for: each verb reaches its operation, each operation
//! takes its arguments and the documents, and what it comes to is stored and
//! told.
use vstd::prelude::*;
use crate::args::{AcceptV, AskV, RegisterV, ReportV, StatusV, Words};
use crate::args;
use crate::attention::ClockV;
use crate::attention;
use crate::commands::{FreshV, ReplyV, Step};
use crate::commands;
use crate::fault::{FaultKind, FaultV};
use crate::fault;
use crate::json::{JsonV, Members};
use crate::ledger::{AcceptanceV, CheckV, ClaimV, ExecutionV, QuestionV};
use crate::ledger;
use crate::listing::Lines;
use crate::listing;
use crate::outside;
use crate::records;
use crate::state::Env;
use crate::state;
use crate::text;
use crate::textmap::Texts;
use crate::textmap;
use crate::upkeep;

verus! {

/// The words differ: in length, or in a letter.
proof fn lemma_words()
    ensures
        "-h"@.len() == 2,
        "ask"@.len() == 3,
        "help"@.len() == 4 && "help"@[0] == 'h',
        "init"@.len() == 4 && "init"@[0] == 'i',
        "list"@.len() == 4 && "list"@[0] == 'l',
        "open"@.len() == 4 && "open"@[0] == 'o',
        "sync"@.len() == 4 && "sync"@[0] == 's',
        "inbox"@.len() == 5 && "inbox"@[0] == 'i',
        "route"@.len() == 5 && "route"@[0] == 'r',
        "tower"@.len() == 5 && "tower"@[0] == 't',
        "watch"@.len() == 5 && "watch"@[0] == 'w',
        "--help"@.len() == 6 && "--help"@[0] == '-',
        "accept"@.len() == 6 && "accept"@[0] == 'a',
        "claims"@.len() == 6 && "claims"@[0] == 'c',
        "report"@.len() == 6 && "report"@[0] == 'r',
        "verify"@.len() == 6 && "verify"@[0] == 'v',
        "resolve"@.len() == 7,
        "register"@.len() == 8,
        "attention"@.len() == 9 && "attention"@[0] == 'a',
        "decisions"@.len() == 9 && "decisions"@[0] == 'd',
        "set-status"@.len() == 10 && "set-status"@[0] == 's',
        "unregister"@.len() == 10 && "unregister"@[0] == 'u',
        "watch-stop"@.len() == 10 && "watch-stop"@[0] == 'w',
        "watch-start"@.len() == 11,
        "plugin-event"@.len() == 12 && "plugin-event"@[0] == 'p',
        "watch-status"@.len() == 12 && "watch-status"@[0] == 'w',
        "plugin-reconcile"@.len() == 16,
{
    reveal_strlit("-h");
    reveal_strlit("ask");
    reveal_strlit("help");
    reveal_strlit("init");
    reveal_strlit("list");
    reveal_strlit("open");
    reveal_strlit("sync");
    reveal_strlit("inbox");
    reveal_strlit("route");
    reveal_strlit("tower");
    reveal_strlit("watch");
    reveal_strlit("--help");
    reveal_strlit("accept");
    reveal_strlit("claims");
    reveal_strlit("report");
    reveal_strlit("verify");
    reveal_strlit("resolve");
    reveal_strlit("register");
    reveal_strlit("attention");
    reveal_strlit("decisions");
    reveal_strlit("set-status");
    reveal_strlit("unregister");
    reveal_strlit("watch-stop");
    reveal_strlit("watch-start");
    reveal_strlit("plugin-event");
    reveal_strlit("watch-status");
    reveal_strlit("plugin-reconcile");
}


/// The words differ: in length, or in a letter.
proof fn lemma_names()
    ensures
        "claims.json"@.len() == 11 && "claims.json"@[0] == 'c',
        "fleets.json"@.len() == 11 && "fleets.json"@[0] == 'f',
        "inbox.jsonl"@.len() == 11 && "inbox.jsonl"@[0] == 'i',
        "inbox.cursor"@.len() == 12 && "inbox.cursor"@[0] == 'i',
        "runtime.json"@.len() == 12 && "runtime.json"@[0] == 'r',
        "attention.json"@.len() == 14 && "attention.json"@[0] == 'a',
        "decisions.json"@.len() == 14 && "decisions.json"@[0] == 'd',
{
    reveal_strlit("claims.json");
    reveal_strlit("fleets.json");
    reveal_strlit("inbox.jsonl");
    reveal_strlit("inbox.cursor");
    reveal_strlit("runtime.json");
    reveal_strlit("attention.json");
    reveal_strlit("decisions.json");
}


/// The help is shown where it is asked for; a command without words is refused.
pub proof fn law_help_is_shown(
    files: Texts,
    dir: Seq<char>,
    args: Words,
    env: Env,
    watching: bool,
    fresh: FreshV,
    legacy: Words,
)
    ensures
        ({
            let step = commands::run_step(files, dir, args, env, watching, fresh, legacy);
            let asked = args.len() > 0 && (args[0] == "help"@ || args[0] == "--help"@ || args[0]
                == "-h"@);
            &&& args.len() == 0 ==> step == (
                files,
                Err::<ReplyV, FaultV>(fault::plain(FaultKind::Usage)),
            )
            &&& asked ==> step == (files, Ok::<ReplyV, FaultV>(ReplyV::Help))
        }),
{
}

/// Every other command works on the documents once they are migrated, and each
/// verb reaches its own operation; a verb that is not known is refused.
pub proof fn law_verb_reaches_its_operation(
    files: Texts,
    dir: Seq<char>,
    args: Words,
    env: Env,
    watching: bool,
    fresh: FreshV,
    legacy: Words,
)
    requires
        args.len() > 0,
    ensures
        ({
            let step = commands::run_step(files, dir, args, env, watching, fresh, legacy);
            let verb = args[0];
            let rest = args.skip(1);
            let clock = fresh.clock;
            let ready = upkeep::migrated(files, legacy, clock.text);
            &&& verb == "init"@ ==> step == commands::init_step(ready, dir, rest)
            &&& verb == "register"@ ==> step == commands::register_step(ready, rest, env, clock)
            &&& verb == "unregister"@ ==> step == commands::unregister_step(ready, rest, clock)
            &&& verb == "set-status"@ ==> step == commands::status_step(ready, rest, fresh)
            &&& verb == "report"@ ==> step == commands::report_step(ready, rest, fresh)
            &&& verb == "ask"@ ==> step == commands::ask_step(
                ready,
                args::ask_words(rest),
                fresh,
            )
            &&& verb == "verify"@ ==> step == commands::verify_step(ready, rest)
            &&& verb == "accept"@ ==> step == commands::accept_step(ready, rest, env, clock)
            &&& verb == "resolve"@ ==> step == commands::resolve_step(ready, rest, clock)
            &&& verb == "claims"@ ==> step == commands::claims_step(ready, rest)
            &&& verb == "decisions"@ ==> step == commands::decisions_step(ready, rest)
            &&& verb == "attention"@ ==> step == commands::attention_step(ready, rest, clock)
            &&& verb == "inbox"@ ==> step == commands::inbox_step(ready, rest)
            &&& verb == "list"@ ==> step == commands::list_step(
                ready,
                dir,
                rest,
                env,
                watching,
                clock,
            )
            &&& verb == "route"@ ==> step == commands::route_step(ready, rest)
            &&& verb == "sync"@ ==> is_handed_on(ready, rest, ReplyV::Sync, step)
            &&& verb == "open"@ ==> is_handed_on(ready, rest, ReplyV::Open, step)
            &&& verb == "plugin-reconcile"@ ==> is_handed_on(
                ready,
                rest,
                ReplyV::Reconcile,
                step,
            )
            &&& verb == "plugin-event"@ ==> is_handed_on(ready, rest, ReplyV::Event, step)
            &&& verb == "tower"@ ==> step == (ready, Ok::<ReplyV, FaultV>(ReplyV::Tower))
            &&& verb == "watch"@ || verb == "watch-start"@ || verb == "watch-status"@ || verb
                == "watch-stop"@ ==> step == (
                ready,
                Ok::<ReplyV, FaultV>(ReplyV::Watch { verb, rest }),
            )
            &&& !is_verb(verb) ==> step == (
                ready,
                Err::<ReplyV, FaultV>(fault::plain(FaultKind::Usage)),
            )
        }),
{
    lemma_words();
}

/// A command that is handed on as it stands takes no further words.
pub open spec fn is_handed_on(files: Texts, rest: Words, reply: ReplyV, step: Step) -> bool {
    &&& rest.len() == 0 ==> step == (files, Ok::<ReplyV, FaultV>(reply))
    &&& rest.len() > 0 ==> step == (files, Err::<ReplyV, FaultV>(fault::plain(FaultKind::Usage)))
}

/// The verbs that are known.
pub open spec fn is_verb(verb: Seq<char>) -> bool {
    ||| verb == "init"@ || verb == "register"@ || verb == "unregister"@ || verb == "set-status"@
    ||| verb == "report"@ || verb == "ask"@ || verb == "verify"@ || verb == "accept"@
    ||| verb == "resolve"@ || verb == "claims"@ || verb == "decisions"@ || verb == "attention"@
    ||| verb == "inbox"@ || verb == "list"@ || verb == "route"@ || verb == "sync"@
    ||| verb == "open"@ || verb == "plugin-reconcile"@ || verb == "plugin-event"@
    ||| verb == "tower"@ || verb == "watch"@ || verb == "watch-start"@
    ||| verb == "watch-status"@ || verb == "watch-stop"@
    ||| verb == "help"@ || verb == "--help"@ || verb == "-h"@
}

/// A document as it is stored.
pub open spec fn stored(value: JsonV) -> Seq<char> {
    outside::pretty_json(value) + "\n"@
}

/// The queue that the documents ask for.
pub open spec fn queue_asked(files: Texts, clock: ClockV) -> Seq<JsonV> {
    attention::queue_at(
        state::registry_of(files),
        state::list_of(files, "decisions.json"@),
        state::list_of(files, "claims.json"@),
        state::document(files, "runtime.json"@, JsonV::Object(Map::empty())),
        clock,
    )
}

/// What the inbox holds.
pub open spec fn inbox_body(files: Texts) -> Seq<char> {
    if files.contains_key("inbox.jsonl"@) {
        files["inbox.jsonl"@]
    } else {
        Seq::empty()
    }
}

/// A registry is stored, the attention queue is that of the documents as they
/// now are, and nothing else changes.
pub open spec fn keeps_registry(
    files: Texts,
    after: Texts,
    registry: Members,
    clock: ClockV,
) -> bool {
    after == files.insert("fleets.json"@, stored(JsonV::Object(registry))).insert(
        "attention.json"@,
        stored(JsonV::Array(queue_asked(after, clock))),
    )
}

/// A change is stored: the registry, the list and one more entry of the inbox;
/// the attention queue is that of the documents as they now are, and nothing
/// else changes.
pub open spec fn keeps_change(
    files: Texts,
    after: Texts,
    name: Seq<char>,
    change: ledger::Change,
    clock: ClockV,
) -> bool {
    after == files.insert("fleets.json"@, stored(JsonV::Object(change.registry))).insert(
        name,
        stored(JsonV::Array(change.list)),
    ).insert(
        "inbox.jsonl"@,
        inbox_body(files) + outside::compact_json(change.notice) + "\n"@,
    ).insert("attention.json"@, stored(JsonV::Array(queue_asked(after, clock))))
}

/// The queue is not one of the documents that it is made of.
proof fn lemma_queue_stands_apart(files: Texts, body: Seq<char>, clock: ClockV)
    ensures
        queue_asked(files.insert("attention.json"@, body), clock) == upkeep::queue_of(
            files,
            clock,
        ),
        queue_asked(files, clock) == upkeep::queue_of(files, clock),
{
    lemma_names();
    let after = files.insert("attention.json"@, body);
    assert(textmap::text_under(after, "fleets.json"@) == textmap::text_under(
        files,
        "fleets.json"@,
    ));
    assert(textmap::text_under(after, "decisions.json"@) == textmap::text_under(
        files,
        "decisions.json"@,
    ));
    assert(textmap::text_under(after, "claims.json"@) == textmap::text_under(
        files,
        "claims.json"@,
    ));
    assert(textmap::text_under(after, "runtime.json"@) == textmap::text_under(
        files,
        "runtime.json"@,
    ));
}

proof fn lemma_kept(files: Texts, registry: Members, clock: ClockV)
    ensures
        keeps_registry(files, commands::with_registry(files, registry, clock), registry, clock),
{
    let first = files.insert("fleets.json"@, stored(JsonV::Object(registry)));
    lemma_queue_stands_apart(
        first,
        stored(JsonV::Array(upkeep::queue_of(first, clock))),
        clock,
    );
}

proof fn lemma_changed(files: Texts, name: Seq<char>, change: ledger::Change, clock: ClockV)
    requires
        name == "claims.json"@ || name == "decisions.json"@,
    ensures
        keeps_change(
            files,
            commands::with_change(files, name, change, clock),
            name,
            change,
            clock,
        ),
{
    lemma_names();
    let between = commands::changed(files, name, change);
    lemma_queue_stands_apart(
        between,
        stored(JsonV::Array(upkeep::queue_of(between, clock))),
        clock,
    );
    assert(between == files.insert("fleets.json"@, stored(JsonV::Object(change.registry))).insert(
        name,
        stored(JsonV::Array(change.list)),
    ).insert(
        "inbox.jsonl"@,
        inbox_body(files) + outside::compact_json(change.notice) + "\n"@,
    ));
}

/// A step that is refused: for the reason given, and nothing changes.
pub open spec fn is_refused(files: Texts, step: Step, reason: FaultV) -> bool {
    step == (files, Err::<ReplyV, FaultV>(reason))
}

/// A step says some lines, and whether the watcher is to look again.
pub open spec fn says(step: Step, lines: Lines, reload: bool) -> bool {
    step.1 == Ok::<ReplyV, FaultV>(ReplyV::Printed { lines, reload })
}

/// A registration stores the registry that the project was entered in, with
/// the directory made absolute.
pub proof fn law_register_stores(
    files: Texts,
    words: Words,
    env: Env,
    clock: ClockV,
    given: RegisterV,
)
    requires
        args::register_words(words) == Some(given),
    ensures
        ({
            let step = commands::register_step(files, words, env, clock);
            let cwd = args::absolute(given.cwd, env);
            match ledger::register_outcome(
                state::registry_of(files),
                given.project,
                given.tab,
                given.commander,
                cwd,
                clock.text,
            ) {
                Ok(registry) => {
                    &&& keeps_registry(files, step.0, registry, clock)
                    &&& says(
                        step,
                        seq!["registered: "@ + given.project + "（机长 "@ + given.commander + "）"@],
                        true,
                    )
                },
                Err(reason) => is_refused(files, step, reason),
            }
        }),
{
    match commands::registering(files, given, env, clock) {
        Ok(registry) => {
            lemma_kept(files, registry, clock);
        },
        Err(_) => {},
    }
}

/// Taking a project out stores the registry without it.
pub proof fn law_unregister_stores(files: Texts, words: Words, clock: ClockV)
    ensures
        ({
            let step = commands::unregister_step(files, words, clock);
            let registry = state::registry_of(files);
            &&& words.len() != 1 ==> is_refused(files, step, fault::plain(FaultKind::Usage))
            &&& words.len() == 1 && !registry.contains_key(words[0]) ==> is_refused(
                files,
                step,
                fault::about(FaultKind::Unregistered, words[0]),
            )
            &&& words.len() == 1 && registry.contains_key(words[0]) ==> {
                &&& keeps_registry(files, step.0, registry.remove(words[0]), clock)
                &&& says(step, seq!["removed: "@ + words[0]], true)
            }
        }),
{
    if words.len() == 1 {
        match ledger::unregister_outcome(state::registry_of(files), words[0]) {
            Ok(registry) => {
                lemma_kept(files, registry, clock);
            },
            Err(_) => {},
        }
    }
}

/// A status that is set stores the registry, and tells what it now is; a
/// status that needs a decision asks for one.
pub proof fn law_set_status_stores(files: Texts, words: Words, fresh: FreshV)
    ensures
        ({
            let step = commands::status_step(files, words, fresh);
            match args::status_words(words) {
                Err(reason) => is_refused(files, step, reason),
                Ok(StatusV::Ask(asked)) => step == commands::ask_step(files, Ok(asked), fresh),
                Ok(StatusV::Report { project, status, note }) => match ledger::set_status_outcome(
                    state::registry_of(files),
                    state::list_of(files, "decisions.json"@),
                    project,
                    status,
                    note,
                    fresh.clock.text,
                ) {
                    Err(reason) => is_refused(files, step, reason),
                    Ok(registry) => {
                        &&& keeps_registry(files, step.0, registry, fresh.clock)
                        &&& says(step, seq!["ok: "@ + project + " -> "@ + status], false)
                    },
                },
            }
        }),
{
    match args::status_words(words) {
        Ok(StatusV::Report { project, status, note }) => {
            match commands::setting(files, project, status, note, fresh) {
                Ok(registry) => {
                    lemma_kept(files, registry, fresh.clock);
                },
                Err(_) => {},
            }
        },
        _ => {},
    }
}

/// A question gets an identifier of its project, the time and chance; what
/// asking it comes to is stored, and the identifier is told.
pub proof fn law_ask_stores(files: Texts, given: AskV, fresh: FreshV)
    ensures
        ({
            let step = commands::ask_step(files, Ok(given), fresh);
            let id = given.project + "-"@ + fresh.stamp + "-"@ + fresh.token;
            let question = QuestionV {
                id,
                project: given.project,
                question: given.question,
                options: given.options,
                created: fresh.clock.text,
            };
            match ledger::ask_outcome(
                state::registry_of(files),
                state::list_of(files, "decisions.json"@),
                question,
            ) {
                Err(reason) => is_refused(files, step, reason),
                Ok(change) => {
                    &&& keeps_change(files, step.0, "decisions.json"@, change, fresh.clock)
                    &&& says(step, seq!["待拍板: "@ + id], false)
                },
            }
        }),
{
    match commands::asking(files, given, fresh) {
        Ok(change) => {
            lemma_changed(files, "decisions.json"@, change, fresh.clock);
        },
        Err(_) => {},
    }
}

/// A report gets an identifier of its project, the time and chance; what it
/// comes to is stored, the identifier is told, and who reports a completion is
/// told how to verify it. A report that needs a decision asks for one.
pub proof fn law_report_stores(files: Texts, words: Words, fresh: FreshV)
    ensures
        ({
            let step = commands::report_step(files, words, fresh);
            match args::report_words(words, fresh.tokens, fresh.clock.text) {
                Err(reason) => is_refused(files, step, reason),
                Ok(given) => {
                    &&& given.status == "need_decision"@ ==> step == commands::ask_step(
                        files,
                        args::ask_words(seq![given.project, given.summary]),
                        fresh,
                    )
                    &&& given.status != "need_decision"@ ==> reports(files, given, fresh, step)
                },
            }
        }),
{
    match args::report_words(words, fresh.tokens, fresh.clock.text) {
        Ok(given) => {
            if given.status != "need_decision"@ {
                match commands::claiming(files, given, fresh) {
                    Ok(change) => {
                        lemma_changed(files, "claims.json"@, change, fresh.clock);
                        if given.status == "done"@ {
                            let id = claim_id_of(given, fresh);
                            assert(commands::report_lines(given.project, given.status, id)
                                =~= seq!["claimed: "@ + id, next_step(given, id)]);
                        }
                    },
                    Err(_) => {},
                }
            }
        },
        Err(_) => {},
    }
}

/// The identifier of a claim.
pub open spec fn claim_id_of(given: ReportV, fresh: FreshV) -> Seq<char> {
    given.project + "-claim-"@ + fresh.stamp + "-"@ + fresh.token
}

/// How a completion is verified.
pub open spec fn next_step(given: ReportV, id: Seq<char>) -> Seq<char> {
    "next: fleet verify "@ + given.project + " --claim "@ + id
        + " --label <标签> -- <验证命令>"@
}

/// What a report comes to.
pub open spec fn reports(files: Texts, given: ReportV, fresh: FreshV, step: Step) -> bool {
    let id = claim_id_of(given, fresh);
    match ledger::report_outcome(
        state::registry_of(files),
        state::list_of(files, "decisions.json"@),
        state::list_of(files, "claims.json"@),
        ClaimV {
            id,
            project: given.project,
            status: given.status,
            summary: given.summary,
            confidence: given.confidence,
            evidence: given.evidence,
            created: fresh.clock.text,
        },
    ) {
        Err(reason) => is_refused(files, step, reason),
        Ok(change) => {
            &&& keeps_change(files, step.0, "claims.json"@, change, fresh.clock)
            &&& given.status == "done"@ ==> says(
                step,
                seq!["claimed: "@ + id, next_step(given, id)],
                false,
            )
            &&& given.status != "done"@ ==> says(step, seq!["claimed: "@ + id], false)
        },
    }
}

/// A verification runs its command in the directory of its project, for the
/// claim that is meant; the command is run before anything changes.
pub proof fn law_verify_asks_for_a_run(files: Texts, words: Words)
    ensures
        ({
            let step = commands::verify_step(files, words);
            let registry = state::registry_of(files);
            match args::verify_words(words) {
                None => is_refused(files, step, fault::plain(FaultKind::Usage)),
                Some(given) => {
                    let meant = records::claim_meant(
                        state::list_of(files, "claims.json"@),
                        given.project,
                        given.claim_id,
                    );
                    &&& !registry.contains_key(given.project) ==> is_refused(
                        files,
                        step,
                        fault::about(FaultKind::Unregistered, given.project),
                    )
                    &&& registry.contains_key(given.project) && meant is None ==> is_refused(
                        files,
                        step,
                        fault::about(FaultKind::NothingToVerify, given.project),
                    )
                    &&& registry.contains_key(given.project) && meant is Some ==> step == (
                        files,
                        Ok::<ReplyV, FaultV>(
                            ReplyV::Verify(
                                CheckV {
                                    project: given.project,
                                    claim_id: meant->0.string("id"@),
                                    label: given.label,
                                    argv: given.argv,
                                    cwd: match registry[given.project].get("cwd"@) {
                                        Some(JsonV::Text(path)) => path,
                                        _ => "."@,
                                    },
                                },
                            ),
                        ),
                    )
                },
            }
        }),
{
}

/// A run is stored at its claim, is told with its exit code, and its exit code
/// is that of the command.
pub proof fn law_run_is_stored(
    files: Texts,
    check: CheckV,
    run: ExecutionV,
    token: Seq<char>,
    clock: ClockV,
)
    ensures
        ({
            let step = commands::verified_step(files, check, run, token, clock);
            let code = text::signed_digits(run.exit_code);
            let told = ": "@ + check.claim_id + " ("@ + check.label + ", exit="@ + code + ")"@;
            match ledger::verify_outcome(
                state::registry_of(files),
                state::list_of(files, "claims.json"@),
                check,
                run,
                token,
            ) {
                Err(reason) => is_refused(files, step, reason),
                Ok(change) => {
                    &&& keeps_change(files, step.0, "claims.json"@, change, clock)
                    &&& step.1 is Ok
                    &&& step.1->Ok_0 is Verified
                    &&& step.1->Ok_0->Verified_code == run.exit_code
                    &&& step.1->Ok_0->Verified_lines.len() == 1
                    &&& run.exit_code == 0 ==> step.1->Ok_0->Verified_lines[0] == "verified"@
                        + told
                    &&& run.exit_code != 0 ==> step.1->Ok_0->Verified_lines[0]
                        == "verification failed"@ + told
                },
            }
        }),
{
    match ledger::verify_outcome(
        state::registry_of(files),
        state::claims_of(files),
        check,
        run,
        token,
    ) {
        Ok(change) => {
            lemma_changed(files, "claims.json"@, change, clock);
            let code = text::signed_digits(run.exit_code);
            let told = ": "@ + check.claim_id + " ("@ + check.label + ", exit="@ + code + ")"@;
            let step = commands::verified_step(files, check, run, token, clock);
            if run.exit_code == 0 {
                assert(step.1->Ok_0->Verified_lines[0] =~= "verified"@ + told);
            } else {
                assert(step.1->Ok_0->Verified_lines[0] =~= "verification failed"@ + told);
            }
        },
        Err(_) => {},
    }
}

/// An acceptance is that of the user who gave it; what it comes to is stored,
/// and the claim is told.
pub proof fn law_accept_stores(files: Texts, words: Words, env: Env, clock: ClockV)
    ensures
        ({
            let step = commands::accept_step(files, words, env, clock);
            match args::accept_words(words) {
                Err(reason) => is_refused(files, step, reason),
                Ok(given) => match ledger::accept_outcome(
                    state::registry_of(files),
                    state::list_of(files, "claims.json"@),
                    acceptance_of(given, env, clock),
                ) {
                    Err(reason) => is_refused(files, step, reason),
                    Ok((change, id)) => {
                        &&& keeps_change(files, step.0, "claims.json"@, change, clock)
                        &&& says(step, seq!["accepted: "@ + id], false)
                    },
                },
            }
        }),
{
    match args::accept_words(words) {
        Ok(given) => {
            match commands::accepting(files, given, env, clock) {
                Ok((change, _)) => {
                    lemma_changed(files, "claims.json"@, change, clock);
                },
                Err(_) => {},
            }
        },
        Err(_) => {},
    }
}

/// An acceptance by the user who runs the command.
pub open spec fn acceptance_of(given: AcceptV, env: Env, clock: ClockV) -> AcceptanceV {
    AcceptanceV {
        project: given.project,
        claim_id: given.claim_id,
        note: given.note,
        force: given.force,
        operator: if env.user is Some {
            env.user->0@
        } else {
            "operator"@
        },
        now: clock.text,
    }
}

/// An answer is stored at its decision, and both are told.
pub proof fn law_resolve_stores(files: Texts, words: Words, clock: ClockV)
    ensures
        ({
            let step = commands::resolve_step(files, words, clock);
            match args::say_words(words, FaultKind::EmptyAnswer) {
                Err(reason) => is_refused(files, step, reason),
                Ok((id, answer)) => match ledger::resolve_outcome(
                    state::registry_of(files),
                    state::list_of(files, "decisions.json"@),
                    id,
                    answer,
                    clock.text,
                ) {
                    Err(reason) => is_refused(files, step, reason),
                    Ok(change) => {
                        &&& keeps_change(files, step.0, "decisions.json"@, change, clock)
                        &&& says(step, seq!["已拍板: "@ + id + " -> "@ + answer], false)
                    },
                },
            }
        }),
{
    match args::say_words(words, FaultKind::EmptyAnswer) {
        Ok((id, answer)) => {
            match commands::resolving(files, id, answer, clock) {
                Ok(change) => {
                    lemma_changed(files, "decisions.json"@, change, clock);
                },
                Err(_) => {},
            }
        },
        Err(_) => {},
    }
}

/// Listing claims, decisions and what is in the inbox reads the documents and
/// changes none of them, but for how far the inbox has been read.
pub proof fn law_listings_only_read(files: Texts, words: Words)
    ensures
        ({
            let claims = commands::claims_step(files, words);
            let decisions = commands::decisions_step(files, words);
            let inbox = commands::inbox_step(files, words);
            let entries = state::inbox_of(files);
            let usage = fault::plain(FaultKind::Usage);
            &&& match args::claims_words(words) {
                None => is_refused(files, claims, usage),
                Some(given) => {
                    &&& claims.0 == files
                    &&& says(
                        claims,
                        listing::claims_lines(
                            state::list_of(files, "claims.json"@),
                            given.project,
                            given.all,
                            given.json,
                        ),
                        false,
                    )
                },
            }
            &&& match args::sole_flag(words, "--all"@) {
                None => is_refused(files, decisions, usage) && is_refused(files, inbox, usage),
                Some(all) => {
                    &&& decisions.0 == files
                    &&& says(
                        decisions,
                        listing::decisions_lines(state::list_of(files, "decisions.json"@), all),
                        false,
                    )
                    &&& all ==> inbox.0 == files
                    &&& !all ==> inbox.0 == files.insert(
                        "inbox.cursor"@,
                        text::digits(entries.len()),
                    )
                    &&& says(
                        inbox,
                        listing::inbox_lines(entries, all, read_so_far(files)),
                        false,
                    )
                },
            }
        }),
{
}

/// How many entries of the inbox have been read: the number that the cursor
/// holds, none where it holds no number.
pub open spec fn read_so_far(files: Texts) -> nat {
    let held = text::natural(text::trimmed(files["inbox.cursor"@]));
    if files.contains_key("inbox.cursor"@) && held is Some {
        held->0
    } else {
        0
    }
}

/// Listing the attention queue or the projects brings the queue up to the
/// documents, and shows it.
pub proof fn law_queue_is_brought_up_to_date(
    files: Texts,
    dir: Seq<char>,
    words: Words,
    env: Env,
    watching: bool,
    clock: ClockV,
)
    ensures
        ({
            let queue = queue_asked(files, clock);
            let after = files.insert("attention.json"@, stored(JsonV::Array(queue)));
            let shown = commands::attention_step(files, words, clock);
            let listed = commands::list_step(files, dir, words, env, watching, clock);
            let registry = state::registry_of(files);
            &&& match args::sole_flag(words, "--json"@) {
                None => is_refused(files, shown, fault::plain(FaultKind::Usage)),
                Some(as_json) => shown.0 == after && says(
                    shown,
                    listing::attention_lines(queue, as_json),
                    false,
                ),
            }
            &&& words.len() > 0 ==> is_refused(files, listed, fault::plain(FaultKind::Usage))
            &&& words.len() == 0 && registry.dom() == Set::<Seq<char>>::empty() ==> listed.0
                == files && says(listed, seq!["(注册表为空)"@], false)
            &&& words.len() == 0 && registry.dom() != Set::<Seq<char>>::empty() ==> {
                &&& listed.0 == after
                &&& says(
                    listed,
                    listing::list_lines(
                        registry,
                        state::list_of(files, "decisions.json"@),
                        state::document(files, "runtime.json"@, JsonV::Object(Map::empty())),
                        state::is_plugin(dir, env),
                        watching,
                        queue,
                    ),
                    false,
                )
            }
        }),
{
    lemma_queue_stands_apart(files, Seq::empty(), clock);
    let registry = state::registry_of(files);
    if registry.dom() == Set::<Seq<char>>::empty() {
        assert(registry =~= Map::<Seq<char>, JsonV>::empty());
    } else if registry == Map::<Seq<char>, JsonV>::empty() {
        assert(registry.dom() =~= Set::<Seq<char>>::empty());
    }
}

/// A new directory is made ready, and its name is told.
pub proof fn law_init_makes_ready(files: Texts, dir: Seq<char>, words: Words)
    ensures
        ({
            let step = commands::init_step(files, dir, words);
            &&& words.len() > 0 ==> is_refused(files, step, fault::plain(FaultKind::Usage))
            &&& words.len() == 0 ==> step.0 == upkeep::initialised(files) && says(
                step,
                seq!["ok: "@ + dir],
                false,
            )
        }),
{
}

} // verus!
