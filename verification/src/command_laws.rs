//! What holds of the commands as a whole.
use vstd::prelude::*;
use crate::args::Words;
use crate::args;
use crate::attention::ClockV;
use crate::commands::{FreshV, ReplyV};
use crate::commands;
use crate::fault::FaultKind;
use crate::fault;
use crate::json::{JsonV, Members};
use crate::json;
use crate::ledger;
use crate::records;
use crate::state::Env;
use crate::state;
use crate::text;
use crate::textmap::Texts;

verus! {

/// A command that is refused changes nothing: not the registry, not a
/// decision, not a claim, not the inbox.
pub proof fn law_refusal_changes_nothing(
    files: Texts,
    dir: Seq<char>,
    args: Words,
    env: Env,
    watching: bool,
    fresh: FreshV,
)
    requires
        commands::command_step(files, dir, args, env, watching, fresh).1 is Err,
    ensures
        commands::command_step(files, dir, args, env, watching, fresh).0 == files,
{
}

/// The names of the documents differ.
proof fn lemma_names()
    ensures
        "fleets.json"@ != "decisions.json"@,
        "fleets.json"@ != "claims.json"@,
        "fleets.json"@ != "inbox.jsonl"@,
        "fleets.json"@ != "attention.json"@,
        "decisions.json"@ != "claims.json"@,
        "decisions.json"@ != "inbox.jsonl"@,
        "decisions.json"@ != "attention.json"@,
        "claims.json"@ != "inbox.jsonl"@,
        "claims.json"@ != "attention.json"@,
        "inbox.jsonl"@ != "attention.json"@,
        "inbox.jsonl"@ != "inbox.cursor"@,
{
    reveal_strlit("fleets.json");
    reveal_strlit("decisions.json");
    reveal_strlit("claims.json");
    reveal_strlit("inbox.jsonl");
    reveal_strlit("inbox.cursor");
    reveal_strlit("attention.json");
    assert("fleets.json"@[0] == 'f' && "decisions.json"@[0] == 'd' && "claims.json"@[0] == 'c');
    assert("inbox.jsonl"@[0] == 'i' && "attention.json"@[0] == 'a');
    assert("inbox.jsonl"@.len() == 11 && "inbox.cursor"@.len() == 12);
}

/// What is written behind the registry stays readable as it was.
proof fn lemma_registry_only(files: Texts, registry: Members, clock: ClockV)
    ensures
        state::decisions_of(commands::with_registry(files, registry, clock))
            == state::decisions_of(files),
        state::claims_of(commands::with_registry(files, registry, clock)) == state::claims_of(
            files,
        ),
        state::inbox_text(commands::with_registry(files, registry, clock)) == state::inbox_text(
            files,
        ),
{
    lemma_names();
}

proof fn lemma_change_only(
    files: Texts,
    name: Seq<char>,
    change: ledger::Change,
    clock: ClockV,
)
    ensures
        name == "claims.json"@ ==> state::decisions_of(
            commands::with_change(files, name, change, clock),
        ) == state::decisions_of(files),
        name == "decisions.json"@ ==> state::claims_of(
            commands::with_change(files, name, change, clock),
        ) == state::claims_of(files),
{
    lemma_names();
}

/// Setting a status to anything but `need_decision`, `blocked` among them,
/// makes no decision and no claim.
pub proof fn law_set_status_makes_no_decision(files: Texts, args: Words, fresh: FreshV)
    requires
        args.len() >= 2,
        args[1] != "need_decision"@,
    ensures
        state::decisions_of(commands::status_step(files, args, fresh).0) == state::decisions_of(
            files,
        ),
        state::claims_of(commands::status_step(files, args, fresh).0) == state::claims_of(files),
{
    match args::status_words(args) {
        Ok(args::StatusV::Report { project, status, note }) => {
            match commands::setting(files, project, status, note, fresh) {
                Ok(registry) => lemma_registry_only(files, registry, fresh.clock),
                Err(_) => {},
            }
        },
        _ => {},
    }
}

/// A report of anything but `need_decision` makes no decision.
pub proof fn law_report_makes_no_decision(files: Texts, args: Words, fresh: FreshV)
    requires
        args.len() >= 2,
        args[1] != "need_decision"@,
    ensures
        state::decisions_of(commands::report_step(files, args, fresh).0) == state::decisions_of(
            files,
        ),
{
    match args::report_words(args, fresh.tokens, fresh.clock.text) {
        Ok(given) => {
            match commands::claiming(files, given, fresh) {
                Ok(change) => lemma_change_only(files, "claims.json"@, change, fresh.clock),
                Err(_) => {},
            }
        },
        Err(_) => {},
    }
}

/// Asking and resolving touch no claim.
pub proof fn law_decisions_touch_no_claim(
    files: Texts,
    asked: Result<args::AskV, fault::FaultV>,
    args: Words,
    fresh: FreshV,
)
    ensures
        state::claims_of(commands::ask_step(files, asked, fresh).0) == state::claims_of(files),
        state::claims_of(commands::resolve_step(files, args, fresh.clock).0) == state::claims_of(
            files,
        ),
{
    match asked {
        Ok(given) => {
            match commands::asking(files, given, fresh) {
                Ok(change) => lemma_change_only(files, "decisions.json"@, change, fresh.clock),
                Err(_) => {},
            }
        },
        Err(_) => {},
    }
    match args::say_words(args, FaultKind::EmptyAnswer) {
        Ok((id, answer)) => {
            match commands::resolving(files, id, answer, fresh.clock) {
                Ok(change) => lemma_change_only(files, "decisions.json"@, change, fresh.clock),
                Err(_) => {},
            }
        },
        Err(_) => {},
    }
}

/// An instruction goes to the registered commander of its project and to
/// nobody else, and routing it changes nothing.
pub proof fn law_route_goes_to_the_commander(files: Texts, args: Words)
    ensures
        commands::route_step(files, args).0 == files,
        match commands::route_step(files, args).1 {
            Ok(ReplyV::Route { project, commander, words }) => {
                let registry = state::registry_of(files);
                &&& project == args[0]
                &&& registry.contains_key(project)
                &&& commander == registry[project].string("commander"@)
                &&& commander.len() > 0
                &&& words.len() > 0
            },
            Ok(_) => false,
            Err(_) => true,
        },
{
}

/// The cursor that was written is the cursor that is read.
proof fn lemma_cursor_reads_back(files: Texts)
    requires
        state::inbox_of(files).len() <= u64::MAX,
    ensures
        commands::inbox_cursor(commands::with_cursor(files)) == state::inbox_of(files).len(),
        state::inbox_of(commands::with_cursor(files)) == state::inbox_of(files),
{
    lemma_names();
    let n = state::inbox_of(files).len();
    let body = text::digits(n);
    text::lemma_digits_spell(n);
    text::lemma_untrimmed(body);
    assert(text::unsigned_part(body) == body) by {
        assert(text::is_digit(body[0]));
    }
}

/// What the inbox has shown it does not show again: a second look at once
/// finds nothing new, and moves nothing.
pub proof fn law_inbox_shows_news_once(files: Texts)
    requires
        state::inbox_of(files).len() <= u64::MAX,
    ensures
        ({
            let once = commands::inbox_step(files, Seq::empty()).0;
            commands::inbox_step(once, Seq::empty()) == commands::printed(
                once,
                seq!["(没有新消息)"@],
                false,
            )
        }),
{
    lemma_cursor_reads_back(files);
    let once = commands::with_cursor(files);
    assert(commands::inbox_step(files, Seq::empty()).0 == once);
    let total = state::inbox_of(files).len();
    assert(state::inbox_of(once).skip(total as int) =~= Seq::<JsonV>::empty());
    assert(commands::with_cursor(once) =~= once);
}

/// The names of the members that an answer changes differ from that of the
/// identifier.
proof fn lemma_answer_members()
    ensures
        "id"@ != "state"@,
        "id"@ != "resolution"@,
        "id"@ != "resolved_at"@,
        "state"@ != "resolution"@,
        "state"@ != "resolved_at"@,
        "open"@ != "resolved"@,
{
    reveal_strlit("id");
    reveal_strlit("state");
    reveal_strlit("resolution");
    reveal_strlit("resolved_at");
    reveal_strlit("open");
    reveal_strlit("resolved");
    assert("id"@.len() == 2 && "state"@.len() == 5 && "resolution"@.len() == 10);
    assert("resolved_at"@.len() == 11 && "open"@.len() == 4 && "resolved"@.len() == 8);
}

/// A decision is answered once: whoever answers it again, in whatever words,
/// is refused, and nothing changes. What is asked of the files is what
/// `resolve` ensures of them.
pub proof fn law_second_answer_is_refused(
    files: Texts,
    args: Words,
    clock: ClockV,
    again: Words,
    later: ClockV,
)
    requires
        commands::resolve_step(files, args, clock).1 is Ok,
        again.len() >= 2,
        again[0] == args[0],
        args::phrase(again, 1).len() > 0,
        commands::reads_resolve(
            files,
            args,
            clock,
            commands::resolve_step(files, args, clock).0,
        ),
    ensures
        ({
            let after = commands::resolve_step(files, args, clock).0;
            commands::resolve_step(after, again, later) == commands::refused(
                after,
                fault::about(FaultKind::AlreadyResolved, args[0]),
            )
        }),
{
    lemma_answer_members();
    let id = args[0];
    let before = state::decisions_of(files);
    let wanted = ledger::decision_named(id);
    let list = commands::resolving(files, id, args::phrase(args, 1), clock)->Ok_0.list;
    let after = commands::resolve_step(files, args, clock).0;
    let read = state::decisions_of(after);
    records::lemma_first_where(before, wanted);
    let i = records::first_where(before, wanted)->0;
    reveal_strlit("open");
    assert(before[i].string("state"@).len() > 0);
    assert(list[i].string("id"@) == id);
    assert(list[i].string("state"@) == "resolved"@);
    assert forall|k: int| 0 <= k < i implies !wanted(#[trigger] list[k]) by {
        assert(list[k] == before[k]);
    }
    records::lemma_first_where_is(list, wanted, i);
    assert forall|k: int| 0 <= k < list.len() implies wanted(#[trigger] list[k]) == wanted(
        read[k],
    ) by {
        json::lemma_alike_members(list[k], read[k], "id"@);
    }
    records::lemma_first_where_same(list, read, wanted);
    json::lemma_alike_members(list[i], read[i], "state"@);
}

/// A list that reads back but for the digits of reals gives the same texts as
/// were written, under every name: a claim with a confidence is read in the
/// state, with the status and of the project that were written.
pub proof fn law_texts_are_read_as_written(list: Seq<JsonV>, read: Seq<JsonV>, name: Seq<char>)
    requires
        json::alike(JsonV::Array(list), JsonV::Array(read)),
    ensures
        read.len() == list.len(),
        forall|i: int|
            0 <= i < list.len() ==> (#[trigger] read[i]).string(name) == list[i].string(name)
                && read[i].optional_string(name) == list[i].optional_string(name),
{
    assert forall|i: int| 0 <= i < list.len() implies (#[trigger] read[i]).string(name)
        == list[i].string(name) && read[i].optional_string(name) == list[i].optional_string(
        name,
    ) by {
        assert(json::alike(list[i], read[i]));
        json::lemma_alike_members(list[i], read[i], name);
    }
}

} // verus!
