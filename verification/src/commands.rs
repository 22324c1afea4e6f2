//! The commands: each reads its arguments, changes the state and says what it
//! has done. What needs the world outside (running a command, asking Herdr,
//! prompting an agent) is handed back as a reply, and what came of it is
//! handed in again.
use vstd::prelude::*;
use vstd::slice::slice_subrange;
use crate::args::{
    absolute_path,
    accept_args,
    ask_args,
    ask_directly,
    claims_args,
    flag_args,
    no_args,
    register_args,
    report_args,
    say_args,
    status_args,
    verify_args,
    AskArgs,
    AskV,
    StatusArgs,
    StatusV,
    Words,
};
use crate::args;
use crate::attention::{Clock, ClockV};
use crate::command_laws;
use crate::depth;
use crate::fault::{Fault, FaultKind, FaultV};
use crate::fault;
use crate::json::{optional_string, string, Json, JsonV, Members, Object};
use crate::json;
use crate::ledger::{
    accept,
    ask,
    register,
    report,
    resolve,
    set_status,
    settle_verification,
    unregister,
    unregistered,
    Acceptance,
    AcceptanceV,
    Check,
    CheckV,
    Claim,
    ClaimV,
    Execution,
    ExecutionV,
    Question,
    QuestionV,
};
use crate::ledger;
use crate::listing::{
    list_attention,
    list_claims,
    list_decisions,
    list_inbox,
    list_registry,
    one_line,
    Lines,
};
use crate::listing;
use crate::outside::{id_stamp, push_token, short_uuid};
use crate::outside;
use crate::records::latest_claim;
use crate::records;
use crate::shallow;
use crate::state::{registry_as_value, Env, State};
use crate::state;
use crate::text;
use crate::text::{cat3, cat4, cat5, decimal, parse_natural, same, trim};
use crate::textmap::Texts;
use crate::textmap;
use crate::upkeep;

verus! {

/// What a command takes from chance and time: a reading of the clock, the time
/// as identifiers hold it, and random parts of identifiers.
pub struct Fresh {
    pub clock: Clock,
    pub stamp: String,
    pub token: String,
    pub tokens: Vec<String>,
}

/// What a command takes from chance and time.
pub struct FreshV {
    pub clock: ClockV,
    pub stamp: Seq<char>,
    pub token: Seq<char>,
    pub tokens: Words,
}

impl Fresh {
    pub open spec fn view(&self) -> FreshV {
        FreshV {
            clock: self.clock@,
            stamp: self.stamp@,
            token: self.token@,
            tokens: text::texts(self.tokens@),
        }
    }

    /// Reads the clock, and draws identifiers for as many arguments.
    pub fn read(count: usize) -> (r: Fresh)
        ensures
            is_drawn(r@, count as nat),
    {
        let mut tokens: Vec<String> = Vec::new();
        let mut i: usize = 0;
        while i < count
            invariant
                i <= count,
                tokens@.len() == i,
                outside::are_tokens(text::texts(tokens@), 10),
            decreases count - i,
        {
            push_token(&mut tokens, 10);
            i = i + 1;
        }
        Fresh { clock: Clock::read(), stamp: id_stamp(), token: short_uuid(6), tokens }
    }
}

/// The clock was read, and identifiers were drawn for so many arguments.
pub open spec fn is_drawn(fresh: FreshV, count: nat) -> bool {
    &&& outside::plain_time(fresh.clock.text) is Some
    &&& outside::is_stamp(fresh.stamp)
    &&& outside::is_token(fresh.token, 6)
    &&& fresh.tokens.len() == count
    &&& outside::are_tokens(fresh.tokens, 10)
}

/// What is left to do after a command was read and its part of the state was
/// changed.
pub enum Reply {
    /// Print how the command line is used.
    Help,
    /// Print lines; the watcher is to take notice where `reload` holds.
    Printed { lines: Vec<String>, reload: bool },
    /// Run a verification, then settle it with [`finish_verify`].
    Verify(Check),
    /// Print lines, then exit with the code of the command that verified.
    Verified { lines: Vec<String>, code: i32 },
    /// Prompt a commander, then see [`finish_route`].
    Route { project: String, commander: String, words: String },
    /// Take a snapshot, then hand it to [`crate::herdr::finish_sync`].
    Sync,
    /// Import an older state, initialise, take a snapshot, then hand it to
    /// [`crate::herdr::finish_reconcile`].
    Reconcile,
    /// Import an older state, initialise, take a snapshot, then hand it to
    /// [`crate::herdr::finish_event`].
    Event,
    /// See what [`crate::watch::run`] makes of it.
    Watch { verb: String, rest: Vec<String> },
    /// Show the control tower.
    Tower,
    /// List the panes, then do what [`crate::herdr::open_action`] says.
    Open,
}

/// The model of a reply.
pub enum ReplyV {
    Help,
    Printed { lines: Lines, reload: bool },
    Verify(CheckV),
    Verified { lines: Lines, code: int },
    Route { project: Seq<char>, commander: Seq<char>, words: Seq<char> },
    Sync,
    Reconcile,
    Event,
    Watch { verb: Seq<char>, rest: Words },
    Tower,
    Open,
}

impl Reply {
    pub open spec fn view(&self) -> ReplyV {
        match self {
            Reply::Help => ReplyV::Help,
            Reply::Printed { lines, reload } => ReplyV::Printed {
                lines: text::texts(lines@),
                reload: *reload,
            },
            Reply::Verify(check) => ReplyV::Verify(check@),
            Reply::Verified { lines, code } => ReplyV::Verified {
                lines: text::texts(lines@),
                code: *code as int,
            },
            Reply::Route { project, commander, words } => ReplyV::Route {
                project: project@,
                commander: commander@,
                words: words@,
            },
            Reply::Sync => ReplyV::Sync,
            Reply::Reconcile => ReplyV::Reconcile,
            Reply::Event => ReplyV::Event,
            Reply::Watch { verb, rest } => ReplyV::Watch {
                verb: verb@,
                rest: text::texts(rest@),
            },
            Reply::Tower => ReplyV::Tower,
            Reply::Open => ReplyV::Open,
        }
    }
}

/// What a command comes to: the files after it, and its reply or refusal.
pub type Step = (Texts, Result<ReplyV, FaultV>);

/// A result is the one that a step comes to.
pub open spec fn agrees(result: Result<Reply, Fault>, outcome: Result<ReplyV, FaultV>) -> bool {
    match result {
        Ok(reply) => outcome is Ok && reply@ == outcome->Ok_0,
        Err(refusal) => outcome is Err && refusal@ == outcome->Err_0,
    }
}

/// A command that was refused, and changed nothing.
pub open spec fn refused(files: Texts, reason: FaultV) -> Step {
    (files, Err(reason))
}

/// A command that printed lines.
pub open spec fn printed(files: Texts, lines: Lines, reload: bool) -> Step {
    (files, Ok(ReplyV::Printed { lines, reload }))
}

/// What `init` comes to.
pub open spec fn init_step(files: Texts, dir: Seq<char>, args: Words) -> Step {
    if args.len() > 0 {
        refused(files, args::misused())
    } else {
        printed(upkeep::initialised(files), seq!["ok: "@ + dir], false)
    }
}

/// Sets up the state directory.
pub fn cmd_init(state: &mut State, args: &[String]) -> (r: Result<Reply, Fault>)
    ensures
        final(state).dir == old(state).dir,
        ({
            let step = init_step(old(state).files@, old(state).dir@, text::texts(args@));
            final(state).files@ == step.0 && agrees(r, step.1)
        }),
        r is Ok ==> upkeep::reads_initialised(old(state).files@, final(state).files@),
{
    match no_args(args) {
        Ok(()) => {},
        Err(refusal) => {
            return Err(refusal);
        },
    }
    state.init();
    let line = text::cat2("ok: ", state.dir.as_str());
    Ok(Reply::Printed { lines: one_line(line), reload: false })
}

/// The files after the registry was written and the attention queue rebuilt.
pub open spec fn with_registry(files: Texts, registry: Members, clock: ClockV) -> Texts {
    upkeep::refreshed(state::written(files, "fleets.json"@, JsonV::Object(registry)), clock)
}

/// The files after registry and another list were written and the inbox was
/// told.
pub open spec fn changed(files: Texts, name: Seq<char>, change: ledger::Change) -> Texts {
    state::with_inbox_entry(
        state::written(
            state::written(files, "fleets.json"@, JsonV::Object(change.registry)),
            name,
            JsonV::Array(change.list),
        ),
        change.notice,
    )
}

/// The files after registry and another list were written, the inbox was told,
/// and the attention queue was rebuilt.
pub open spec fn with_change(
    files: Texts,
    name: Seq<char>,
    change: ledger::Change,
    clock: ClockV,
) -> Texts {
    upkeep::refreshed(changed(files, name, change), clock)
}

/// The registry that was written is what is read, and so is the attention
/// queue.
pub open spec fn reads_registry(
    before: Texts,
    after: Texts,
    registry: Members,
    clock: ClockV,
) -> bool {
    &&& state::reads_registry(after, registry)
    &&& state::reads_list(
        after,
        "attention.json"@,
        upkeep::queue_of(
            state::written(before, "fleets.json"@, JsonV::Object(registry)),
            clock,
        ),
    )
}

/// What a change wrote is what is read: the registry, the list, the inbox and
/// the attention queue.
pub open spec fn reads_change(
    before: Texts,
    after: Texts,
    name: Seq<char>,
    change: ledger::Change,
    clock: ClockV,
) -> bool {
    &&& state::reads_registry(after, change.registry)
    &&& state::reads_list(after, name, change.list)
    &&& state::reads_entry(before, after, change.notice)
    &&& state::reads_list(
        after,
        "attention.json"@,
        upkeep::queue_of(changed(before, name, change), clock),
    )
}

impl State {
    fn keep_registry(&mut self, registry: Object, clock: &Clock)
        requires
            shallow::is_registry(registry@),
        ensures
            final(self).dir == old(self).dir,
            final(self).files@ == with_registry(old(self).files@, registry@, clock@),
            reads_registry(old(self).files@, final(self).files@, registry@, clock@),
    {
        let ghost members = registry@;
        let value = registry_as_value(registry);
        self.write_json("fleets.json", &value);
        let ghost written = self.files@;
        self.refresh_attention_at(clock);
        proof {
            lemma_kept_names();
            let none = JsonV::Object(Map::empty());
            assert(state::document(written, "fleets.json"@, none) == state::document(
                self.files@,
                "fleets.json"@,
                none,
            ));
            state::lemma_kept_registry(self.files@, members);
        }
    }

    fn keep_change(
        &mut self,
        registry: Object,
        name: &str,
        list: Vec<Json>,
        notice: Json,
        clock: &Clock,
    )
        requires
            name@ == "claims.json"@ || name@ == "decisions.json"@,
            shallow::is_registry(registry@),
            shallow::is_list(json::views(list@)),
            depth::is_shallow(notice@),
        ensures
            final(self).dir == old(self).dir,
            final(self).files@ == with_change(
                old(self).files@,
                name@,
                (ledger::Change {
                    registry: registry@,
                    list: json::views(list@),
                    notice: notice@,
                }),
                clock@,
            ),
            reads_change(
                old(self).files@,
                final(self).files@,
                name@,
                (ledger::Change {
                    registry: registry@,
                    list: json::views(list@),
                    notice: notice@,
                }),
                clock@,
            ),
    {
        let ghost start = self.files@;
        let ghost members = registry@;
        let ghost items = json::views(list@);
        self.write_json("fleets.json", &registry_as_value(registry));
        let ghost first = self.files@;
        self.write_json(name, &Json::Array(list));
        let ghost second = self.files@;
        self.append_inbox(&notice);
        let ghost third = self.files@;
        self.refresh_attention_at(clock);
        proof {
            lemma_kept_names();
            let none = JsonV::Object(Map::empty());
            assert(state::document(first, "fleets.json"@, none) == state::document(
                self.files@,
                "fleets.json"@,
                none,
            ));
            let empty = JsonV::Array(Seq::empty());
            assert(state::document(second, name@, empty) == state::document(
                self.files@,
                name@,
                empty,
            ));
            state::lemma_kept_registry(self.files@, members);
            state::lemma_kept_list(self.files@, name@, items);
            assert(state::inbox_text(second) == state::inbox_text(start));
            assert(state::inbox_text(third) == state::inbox_text(self.files@));
        }
    }
}

/// The names of the documents that commands write differ.
proof fn lemma_kept_names()
    ensures
        "fleets.json"@ != "claims.json"@,
        "fleets.json"@ != "decisions.json"@,
        "fleets.json"@ != "inbox.jsonl"@,
        "fleets.json"@ != "attention.json"@,
        "claims.json"@ != "inbox.jsonl"@,
        "claims.json"@ != "attention.json"@,
        "decisions.json"@ != "inbox.jsonl"@,
        "decisions.json"@ != "attention.json"@,
        "inbox.jsonl"@ != "attention.json"@,
{
    reveal_strlit("fleets.json");
    reveal_strlit("decisions.json");
    reveal_strlit("claims.json");
    reveal_strlit("inbox.jsonl");
    reveal_strlit("attention.json");
    assert("fleets.json"@[0] == 'f' && "decisions.json"@[0] == 'd' && "claims.json"@[0] == 'c');
    assert("inbox.jsonl"@[0] == 'i' && "attention.json"@[0] == 'a');
}

/// The registry after a project was registered.
pub open spec fn registering(
    files: Texts,
    given: args::RegisterV,
    env: Env,
    clock: ClockV,
) -> Result<Members, FaultV> {
    ledger::register_outcome(
        state::registry_of(files),
        given.project,
        given.tab,
        given.commander,
        args::absolute(given.cwd, env),
        clock.text,
    )
}

/// What `register` comes to.
pub open spec fn register_step(files: Texts, args: Words, env: Env, clock: ClockV) -> Step {
    match args::register_words(args) {
        None => refused(files, args::misused()),
        Some(given) => match registering(files, given, env, clock) {
            Err(reason) => refused(files, reason),
            Ok(registry) => printed(
                with_registry(files, registry, clock),
                seq!["registered: "@ + given.project + "（机长 "@ + given.commander + "）"@],
                true,
            ),
        },
    }
}

/// What `register` wrote is what is read.
pub open spec fn reads_register(
    files: Texts,
    args: Words,
    env: Env,
    clock: ClockV,
    after: Texts,
) -> bool {
    reads_registry(
        files,
        after,
        registering(files, args::register_words(args)->0, env, clock)->Ok_0,
        clock,
    )
}

/// Registers a project.
pub fn cmd_register(state: &mut State, args: &[String], env: &Env, clock: &Clock) -> (r: Result<
    Reply,
    Fault,
>)
    ensures
        final(state).dir == old(state).dir,
        ({
            let step = register_step(old(state).files@, text::texts(args@), *env, clock@);
            final(state).files@ == step.0 && agrees(r, step.1)
        }),
        r is Ok ==> reads_register(
            old(state).files@,
            text::texts(args@),
            *env,
            clock@,
            final(state).files@,
        ),
{
    let given = match register_args(args) {
        Ok(given) => given,
        Err(refusal) => {
            return Err(refusal);
        },
    };
    let mut registry = state.registry();
    match register(
        &mut registry,
        given.project.as_str(),
        given.tab.as_str(),
        given.commander.as_str(),
        absolute_path(given.cwd.as_str(), env),
        clock.text.as_str(),
    ) {
        Ok(()) => {},
        Err(refusal) => {
            return Err(refusal);
        },
    }
    proof {
        shallow::lemma_register(
            state::registry_of(state.files@),
            given.project@,
            given.tab@,
            given.commander@,
            args::absolute(given.cwd@, *env),
            clock.text@,
        );
    }
    state.keep_registry(registry, clock);
    let line = cat5(
        "registered: ",
        given.project.as_str(),
        "（机长 ",
        given.commander.as_str(),
        "）",
    );
    Ok(Reply::Printed { lines: one_line(line), reload: true })
}

/// What `unregister` comes to.
pub open spec fn unregister_step(files: Texts, args: Words, clock: ClockV) -> Step {
    if args.len() != 1 {
        refused(files, args::misused())
    } else {
        match ledger::unregister_outcome(state::registry_of(files), args[0]) {
            Err(reason) => refused(files, reason),
            Ok(registry) => printed(
                with_registry(files, registry, clock),
                seq!["removed: "@ + args[0]],
                true,
            ),
        }
    }
}

/// What `unregister` wrote is what is read.
pub open spec fn reads_unregister(
    files: Texts,
    args: Words,
    clock: ClockV,
    after: Texts,
) -> bool {
    reads_registry(
        files,
        after,
        ledger::unregister_outcome(state::registry_of(files), args[0])->Ok_0,
        clock,
    )
}

/// Takes a project out of the registry.
pub fn cmd_unregister(state: &mut State, args: &[String], clock: &Clock) -> (r: Result<Reply, Fault>)
    ensures
        final(state).dir == old(state).dir,
        ({
            let step = unregister_step(old(state).files@, text::texts(args@), clock@);
            final(state).files@ == step.0 && agrees(r, step.1)
        }),
        r is Ok ==> reads_unregister(
            old(state).files@,
            text::texts(args@),
            clock@,
            final(state).files@,
        ),
{
    if args.len() != 1 {
        return Err(Fault::plain(FaultKind::Usage));
    }
    let mut registry = state.registry();
    match unregister(&mut registry, args[0].as_str()) {
        Ok(()) => {},
        Err(refusal) => {
            return Err(refusal);
        },
    }
    proof {
        shallow::lemma_unregister(state::registry_of(state.files@), args@[0]@);
    }
    state.keep_registry(registry, clock);
    let line = text::cat2("removed: ", args[0].as_str());
    Ok(Reply::Printed { lines: one_line(line), reload: true })
}

/// A question with what it takes from chance and time.
pub open spec fn question_of(given: AskV, fresh: FreshV) -> QuestionV {
    QuestionV {
        id: given.project + "-"@ + fresh.stamp + "-"@ + fresh.token,
        project: given.project,
        question: given.question,
        options: given.options,
        created: fresh.clock.text,
    }
}

/// What a question changes.
pub open spec fn asking(files: Texts, given: AskV, fresh: FreshV) -> Result<
    ledger::Change,
    FaultV,
> {
    ledger::ask_outcome(
        state::registry_of(files),
        state::decisions_of(files),
        question_of(given, fresh),
    )
}

/// What asking a question comes to.
pub open spec fn ask_step(files: Texts, asked: Result<AskV, FaultV>, fresh: FreshV) -> Step {
    match asked {
        Err(reason) => refused(files, reason),
        Ok(given) => match asking(files, given, fresh) {
            Err(reason) => refused(files, reason),
            Ok(change) => printed(
                with_change(files, "decisions.json"@, change, fresh.clock),
                seq!["待拍板: "@ + question_of(given, fresh).id],
                false,
            ),
        },
    }
}

/// What a question wrote is what is read.
pub open spec fn reads_ask(files: Texts, given: AskV, fresh: FreshV, after: Texts) -> bool {
    reads_change(
        files,
        after,
        "decisions.json"@,
        asking(files, given, fresh)->Ok_0,
        fresh.clock,
    )
}

/// The model of a question that was read, or of its refusal.
pub open spec fn asked_view(asked: Result<AskArgs, Fault>) -> Result<AskV, FaultV> {
    match asked {
        Ok(given) => Ok(given@),
        Err(refusal) => Err(refusal@),
    }
}

fn put_question(state: &mut State, asked: Result<AskArgs, Fault>, fresh: &Fresh) -> (r: Result<
    Reply,
    Fault,
>)
    ensures
        final(state).dir == old(state).dir,
        ({
            let step = ask_step(old(state).files@, asked_view(asked), fresh@);
            final(state).files@ == step.0 && agrees(r, step.1)
        }),
        r is Ok ==> reads_ask(
            old(state).files@,
            asked_view(asked)->Ok_0,
            fresh@,
            final(state).files@,
        ),
{
    let given = match asked {
        Ok(given) => given,
        Err(refusal) => {
            return Err(refusal);
        },
    };
    let id = cat5(
        given.project.as_str(),
        "-",
        fresh.stamp.as_str(),
        "-",
        fresh.token.as_str(),
    );
    let line = text::cat2("待拍板: ", id.as_str());
    let question = Question {
        id,
        project: given.project,
        question: given.question,
        options: given.options,
        created: fresh.clock.text.as_str().to_owned(),
    };
    let mut registry = state.registry();
    let mut decisions = state.decisions();
    proof {
        shallow::lemma_ask(registry@, json::views(decisions@), question@);
    }
    match ask(&mut registry, &mut decisions, &question) {
        Ok(notice) => {
            state.keep_change(registry, "decisions.json", decisions, notice, &fresh.clock);
            Ok(Reply::Printed { lines: one_line(line), reload: false })
        },
        Err(refusal) => Err(refusal),
    }
}

/// Asks the user for a decision.
pub fn cmd_ask(state: &mut State, args: &[String], fresh: &Fresh) -> (r: Result<Reply, Fault>)
    ensures
        final(state).dir == old(state).dir,
        ({
            let step = ask_step(
                old(state).files@,
                args::ask_words(text::texts(args@)),
                fresh@,
            );
            final(state).files@ == step.0 && agrees(r, step.1)
        }),
        r is Ok ==> reads_ask(
            old(state).files@,
            args::ask_words(text::texts(args@))->Ok_0,
            fresh@,
            final(state).files@,
        ),
{
    put_question(state, ask_args(args), fresh)
}

/// The registry after a status was set.
pub open spec fn setting(
    files: Texts,
    project: Seq<char>,
    status: Seq<char>,
    note: Seq<char>,
    fresh: FreshV,
) -> Result<Members, FaultV> {
    ledger::set_status_outcome(
        state::registry_of(files),
        state::decisions_of(files),
        project,
        status,
        note,
        fresh.clock.text,
    )
}

/// What `set-status` comes to.
pub open spec fn status_step(files: Texts, args: Words, fresh: FreshV) -> Step {
    match args::status_words(args) {
        Err(reason) => refused(files, reason),
        Ok(StatusV::Ask(asked)) => ask_step(files, Ok(asked), fresh),
        Ok(StatusV::Report { project, status, note }) => match setting(
            files,
            project,
            status,
            note,
            fresh,
        ) {
            Err(reason) => refused(files, reason),
            Ok(registry) => printed(
                with_registry(files, registry, fresh.clock),
                seq!["ok: "@ + project + " -> "@ + status],
                false,
            ),
        },
    }
}

/// What `set-status` wrote is what is read.
pub open spec fn reads_status(files: Texts, args: Words, fresh: FreshV, after: Texts) -> bool {
    match args::status_words(args)->Ok_0 {
        StatusV::Report { project, status, note } => reads_registry(
            files,
            after,
            setting(files, project, status, note, fresh)->Ok_0,
            fresh.clock,
        ),
        StatusV::Ask(asked) => reads_ask(files, asked, fresh, after),
    }
}

/// Sets the status of a project.
pub fn cmd_set_status(state: &mut State, args: &[String], fresh: &Fresh) -> (r: Result<Reply, Fault>)
    ensures
        final(state).dir == old(state).dir,
        ({
            let step = status_step(old(state).files@, text::texts(args@), fresh@);
            final(state).files@ == step.0 && agrees(r, step.1)
        }),
        r is Ok ==> reads_status(
            old(state).files@,
            text::texts(args@),
            fresh@,
            final(state).files@,
        ),
{
    match status_args(args) {
        Err(refusal) => Err(refusal),
        Ok(StatusArgs::Ask(asked)) => put_question(state, Ok(asked), fresh),
        Ok(StatusArgs::Report { project, status, note }) => {
            let mut registry = state.registry();
            match set_status(
                &mut registry,
                state.decisions().as_slice(),
                project.as_str(),
                status.as_str(),
                note.as_str(),
                fresh.clock.text.as_str(),
            ) {
                Ok(()) => {},
                Err(refusal) => {
                    return Err(refusal);
                },
            }
            proof {
                shallow::lemma_set_status(
                    state::registry_of(state.files@),
                    state::decisions_of(state.files@),
                    project@,
                    status@,
                    note@,
                    fresh.clock.text@,
                );
            }
            state.keep_registry(registry, &fresh.clock);
            let line = cat4("ok: ", project.as_str(), " -> ", status.as_str());
            Ok(Reply::Printed { lines: one_line(line), reload: false })
        },
    }
}

/// What `report` prints.
pub open spec fn report_lines(project: Seq<char>, status: Seq<char>, id: Seq<char>) -> Lines {
    let first = seq!["claimed: "@ + id];
    if status == "done"@ {
        first.push(
            "next: fleet verify "@ + project + " --claim "@ + id + " --label <标签> -- <验证命令>"@,
        )
    } else {
        first
    }
}

/// A claim with what it takes from chance and time.
pub open spec fn claim_of(given: args::ReportV, fresh: FreshV) -> ClaimV {
    ClaimV {
        id: given.project + "-claim-"@ + fresh.stamp + "-"@ + fresh.token,
        project: given.project,
        status: given.status,
        summary: given.summary,
        confidence: given.confidence,
        evidence: given.evidence,
        created: fresh.clock.text,
    }
}

/// What a claim changes.
pub open spec fn claiming(files: Texts, given: args::ReportV, fresh: FreshV) -> Result<
    ledger::Change,
    FaultV,
> {
    ledger::report_outcome(
        state::registry_of(files),
        state::decisions_of(files),
        state::claims_of(files),
        claim_of(given, fresh),
    )
}

/// What `report` comes to.
pub open spec fn report_step(files: Texts, args: Words, fresh: FreshV) -> Step {
    match args::report_words(args, fresh.tokens, fresh.clock.text) {
        Err(reason) => refused(files, reason),
        Ok(given) => if given.status == "need_decision"@ {
            ask_step(files, args::ask_words(seq![given.project, given.summary]), fresh)
        } else {
            match claiming(files, given, fresh) {
                Err(reason) => refused(files, reason),
                Ok(change) => printed(
                    with_change(files, "claims.json"@, change, fresh.clock),
                    report_lines(given.project, given.status, claim_of(given, fresh).id),
                    false,
                ),
            }
        },
    }
}

/// What `report` wrote is what is read.
pub open spec fn reads_report(files: Texts, args: Words, fresh: FreshV, after: Texts) -> bool {
    let given = args::report_words(args, fresh.tokens, fresh.clock.text)->Ok_0;
    if given.status == "need_decision"@ {
        reads_ask(
            files,
            args::ask_words(seq![given.project, given.summary])->Ok_0,
            fresh,
            after,
        )
    } else {
        reads_change(
            files,
            after,
            "claims.json"@,
            claiming(files, given, fresh)->Ok_0,
            fresh.clock,
        )
    }
}

/// Records what a commander claims of a project.
pub fn cmd_report(state: &mut State, args: &[String], fresh: &Fresh) -> (r: Result<Reply, Fault>)
    requires
        fresh.tokens@.len() >= args@.len(),
    ensures
        final(state).dir == old(state).dir,
        ({
            let step = report_step(old(state).files@, text::texts(args@), fresh@);
            final(state).files@ == step.0 && agrees(r, step.1)
        }),
        r is Ok ==> reads_report(
            old(state).files@,
            text::texts(args@),
            fresh@,
            final(state).files@,
        ),
{
    let given = match report_args(args, fresh.tokens.as_slice(), fresh.clock.text.as_str()) {
        Ok(given) => given,
        Err(refusal) => {
            return Err(refusal);
        },
    };
    if same(given.status.as_str(), "need_decision") {
        return put_question(
            state,
            ask_directly(given.project.as_str(), given.summary.as_str()),
            fresh,
        );
    }
    let id = cat5(
        given.project.as_str(),
        "-claim-",
        fresh.stamp.as_str(),
        "-",
        fresh.token.as_str(),
    );
    let mut lines = one_line(text::cat2("claimed: ", id.as_str()));
    if same(given.status.as_str(), "done") {
        let ghost before = lines@;
        let next = cat5(
            "next: fleet verify ",
            given.project.as_str(),
            " --claim ",
            id.as_str(),
            " --label <标签> -- <验证命令>",
        );
        lines.push(next);
        proof {
            assert(text::texts(lines@) =~= text::texts(before).push(next@));
        }
    }
    let claim = Claim {
        id,
        project: given.project,
        status: given.status,
        summary: given.summary,
        confidence: given.confidence,
        evidence: given.evidence,
        created: fresh.clock.text.as_str().to_owned(),
    };
    let mut registry = state.registry();
    let mut claims = state.claims();
    proof {
        shallow::lemma_report_words(text::texts(args@), fresh@.tokens, fresh.clock.text@);
        shallow::lemma_report(
            registry@,
            state::decisions_of(state.files@),
            json::views(claims@),
            claim@,
        );
    }
    match report(&mut registry, state.decisions().as_slice(), &mut claims, &claim) {
        Ok(notice) => {
            state.keep_change(registry, "claims.json", claims, notice, &fresh.clock);
            Ok(Reply::Printed { lines, reload: false })
        },
        Err(refusal) => Err(refusal),
    }
}

/// What `claims` comes to.
pub open spec fn claims_step(files: Texts, args: Words) -> Step {
    match args::claims_words(args) {
        None => refused(files, args::misused()),
        Some(given) => printed(
            files,
            listing::claims_lines(state::claims_of(files), given.project, given.all, given.json),
            false,
        ),
    }
}

/// Lists claims.
pub fn cmd_claims(state: &State, args: &[String]) -> (r: Result<Reply, Fault>)
    ensures
        agrees(r, claims_step(state.files@, text::texts(args@)).1),
{
    match claims_args(args) {
        Ok(given) => {
            let lines = list_claims(&state.claims(), &given.project, given.all, given.json);
            Ok(Reply::Printed { lines, reload: false })
        },
        Err(refusal) => Err(refusal),
    }
}

/// What `verify` comes to: the command that is to be run, and for which claim.
pub open spec fn verify_step(files: Texts, args: Words) -> Step {
    match args::verify_words(args) {
        None => refused(files, args::misused()),
        Some(given) => {
            let registry = state::registry_of(files);
            if !registry.contains_key(given.project) {
                refused(files, fault::about(FaultKind::Unregistered, given.project))
            } else {
                match records::claim_meant(
                    state::claims_of(files),
                    given.project,
                    given.claim_id,
                ) {
                    None => refused(
                        files,
                        fault::about(FaultKind::NothingToVerify, given.project),
                    ),
                    Some(claim) => (
                        files,
                        Ok(
                            ReplyV::Verify(
                                CheckV {
                                    project: given.project,
                                    claim_id: claim.string("id"@),
                                    label: given.label,
                                    argv: given.argv,
                                    cwd: match registry[given.project].optional_string("cwd"@) {
                                        Some(path) => path,
                                        None => "."@,
                                    },
                                },
                            ),
                        ),
                    ),
                }
            }
        },
    }
}

/// Says which command verifies which claim.
pub fn cmd_verify(state: &State, args: &[String]) -> (r: Result<Reply, Fault>)
    ensures
        agrees(r, verify_step(state.files@, text::texts(args@)).1),
{
    let given = match verify_args(args) {
        Ok(given) => given,
        Err(refusal) => {
            return Err(refusal);
        },
    };
    let registry = state.registry();
    let claims = state.claims();
    let cwd: String = match registry.get(given.project.as_str()) {
        Some(entry) => match optional_string(entry, "cwd") {
            Some(path) => path,
            None => ".".to_owned(),
        },
        None => {
            return Err(unregistered(given.project.as_str()));
        },
    };
    let wanted: Option<&str> = match &given.claim_id {
        Some(id) => Some(id.as_str()),
        None => None,
    };
    match latest_claim(claims.as_slice(), given.project.as_str(), wanted) {
        Some(claim) => Ok(
            Reply::Verify(
                Check {
                    claim_id: string(claim, "id"),
                    project: given.project,
                    label: given.label,
                    argv: given.argv,
                    cwd,
                },
            ),
        ),
        None => Err(Fault::about(FaultKind::NothingToVerify, given.project.as_str())),
    }
}

/// How long a verification may take, in seconds, where nothing else is said.
pub const VERIFY_SECONDS: u64 = 900;

/// How long a verification may take, in seconds, by `HERDR_VERIFY_TIMEOUT`.
pub fn verify_timeout(value: Option<&str>) -> (r: Result<u64, Fault>)
    ensures
        match r {
            Ok(seconds) => match text::opt_text(value) {
                Some(body) => text::natural(body) == Some(seconds as nat),
                None => seconds == VERIFY_SECONDS,
            },
            Err(refusal) => match text::opt_text(value) {
                Some(body) => text::natural(body) is None && refusal@ == fault::about(
                    FaultKind::BadTimeout,
                    text::natural_complaint(body),
                ),
                None => false,
            },
        },
{
    match value {
        Some(body) => match parse_natural(body) {
            Some(seconds) => Ok(seconds),
            None => Err(Fault::about(FaultKind::BadTimeout, text::natural_words(body))),
        },
        None => Ok(VERIFY_SECONDS),
    }
}

/// What a verification that was run comes to: the command line exits with the
/// code of the command that was run, whether it passed or failed.
pub open spec fn verified_step(
    files: Texts,
    check: CheckV,
    run: ExecutionV,
    token: Seq<char>,
    clock: ClockV,
) -> Step {
    match ledger::verify_outcome(
        state::registry_of(files),
        state::claims_of(files),
        check,
        run,
        token,
    ) {
        Err(reason) => refused(files, reason),
        Ok(change) => (
            with_change(files, "claims.json"@, change, clock),
            Ok(
                ReplyV::Verified {
                    lines: seq![
                        (if run.exit_code == 0 {
                            "verified"@
                        } else {
                            "verification failed"@
                        }) + ": "@ + check.claim_id + " ("@ + check.label + ", exit="@
                            + text::signed_digits(run.exit_code) + ")"@,
                    ],
                    code: run.exit_code,
                },
            ),
        ),
    }
}

/// What a verification wrote is what is read.
pub open spec fn reads_verified(
    files: Texts,
    check: CheckV,
    run: ExecutionV,
    token: Seq<char>,
    clock: ClockV,
    after: Texts,
) -> bool {
    reads_change(
        files,
        after,
        "claims.json"@,
        ledger::verify_outcome(
            state::registry_of(files),
            state::claims_of(files),
            check,
            run,
            token,
        )->Ok_0,
        clock,
    )
}

/// Records a verification that was run, at a reading of the clock. The reply
/// carries the code that the command exited with.
pub fn finish_verify_at(
    state: &mut State,
    check: &Check,
    run: &Execution,
    token: &str,
    clock: &Clock,
) -> (r: Result<Reply, Fault>)
    ensures
        final(state).dir == old(state).dir,
        ({
            let step = verified_step(old(state).files@, check@, run@, token@, clock@);
            final(state).files@ == step.0 && agrees(r, step.1)
        }),
        r is Ok ==> reads_verified(
            old(state).files@,
            check@,
            run@,
            token@,
            clock@,
            final(state).files@,
        ),
        r is Ok ==> (r matches Ok(Reply::Verified { code, .. }) && code == run.exit_code),
{
    let mut registry = state.registry();
    let mut claims = state.claims();
    proof {
        shallow::lemma_verify(registry@, json::views(claims@), check@, run@, token@);
    }
    match settle_verification(&mut registry, &mut claims, check, run, token) {
        Ok(notice) => {
            state.keep_change(registry, "claims.json", claims, notice, clock);
            let code = text::decimal_signed(run.exit_code as i64);
            let head = cat5(
                if run.exit_code == 0 { "verified" } else { "verification failed" },
                ": ",
                check.claim_id.as_str(),
                " (",
                check.label.as_str(),
            );
            let line = cat4(head.as_str(), ", exit=", code.as_str(), ")");
            Ok(Reply::Verified { lines: one_line(line), code: run.exit_code })
        },
        Err(refusal) => Err(refusal),
    }
}

/// Records a verification that was run. The reply carries the code that the
/// command exited with.
pub fn finish_verify(state: &mut State, check: &Check, run: &Execution) -> (r: Result<Reply, Fault>)
    ensures
        final(state).dir == old(state).dir,
        exists|token: Seq<char>, clock: ClockV|
            {
                let step = #[trigger] verified_step(old(state).files@, check@, run@, token, clock);
                &&& outside::is_token(token, 10)
                &&& outside::plain_time(clock.text) is Some
                &&& final(state).files@ == step.0
                &&& agrees(r, step.1)
                &&& r is Ok ==> reads_verified(
                    old(state).files@,
                    check@,
                    run@,
                    token,
                    clock,
                    final(state).files@,
                )
            },
        r is Ok ==> (r matches Ok(Reply::Verified { code, .. }) && code == run.exit_code),
{
    let token = short_uuid(10);
    let clock = Clock::read();
    finish_verify_at(state, check, run, token.as_str(), &clock)
}

/// What an acceptance changes, and which claim it is of.
pub open spec fn accepting(
    files: Texts,
    given: args::AcceptV,
    env: Env,
    clock: ClockV,
) -> Result<(ledger::Change, Seq<char>), FaultV> {
    ledger::accept_outcome(
        state::registry_of(files),
        state::claims_of(files),
        AcceptanceV {
            project: given.project,
            claim_id: given.claim_id,
            note: given.note,
            force: given.force,
            operator: match env.user {
                Some(name) => name@,
                None => "operator"@,
            },
            now: clock.text,
        },
    )
}

/// What `accept` comes to.
pub open spec fn accept_step(files: Texts, args: Words, env: Env, clock: ClockV) -> Step {
    match args::accept_words(args) {
        Err(reason) => refused(files, reason),
        Ok(given) => match accepting(files, given, env, clock) {
            Err(reason) => refused(files, reason),
            Ok((change, id)) => printed(
                with_change(files, "claims.json"@, change, clock),
                seq!["accepted: "@ + id],
                false,
            ),
        },
    }
}

/// What `accept` wrote is what is read.
pub open spec fn reads_accept(
    files: Texts,
    args: Words,
    env: Env,
    clock: ClockV,
    after: Texts,
) -> bool {
    reads_change(
        files,
        after,
        "claims.json"@,
        accepting(files, args::accept_words(args)->Ok_0, env, clock)->Ok_0.0,
        clock,
    )
}

/// Accepts a claim.
pub fn cmd_accept(state: &mut State, args: &[String], env: &Env, clock: &Clock) -> (r: Result<
    Reply,
    Fault,
>)
    ensures
        final(state).dir == old(state).dir,
        ({
            let step = accept_step(old(state).files@, text::texts(args@), *env, clock@);
            final(state).files@ == step.0 && agrees(r, step.1)
        }),
        r is Ok ==> reads_accept(
            old(state).files@,
            text::texts(args@),
            *env,
            clock@,
            final(state).files@,
        ),
{
    let given = match accept_args(args) {
        Ok(given) => given,
        Err(refusal) => {
            return Err(refusal);
        },
    };
    let acceptance = Acceptance {
        project: given.project,
        claim_id: given.claim_id,
        note: given.note,
        force: given.force,
        operator: match &env.user {
            Some(name) => name.as_str().to_owned(),
            None => "operator".to_owned(),
        },
        now: clock.text.as_str().to_owned(),
    };
    let mut registry = state.registry();
    let mut claims = state.claims();
    proof {
        shallow::lemma_accept(registry@, json::views(claims@), acceptance@);
    }
    match accept(&mut registry, &mut claims, &acceptance) {
        Ok((notice, id)) => {
            state.keep_change(registry, "claims.json", claims, notice, clock);
            let line = text::cat2("accepted: ", id.as_str());
            Ok(Reply::Printed { lines: one_line(line), reload: false })
        },
        Err(refusal) => Err(refusal),
    }
}

/// What `decisions` comes to.
pub open spec fn decisions_step(files: Texts, args: Words) -> Step {
    match args::sole_flag(args, "--all"@) {
        None => refused(files, args::misused()),
        Some(all) => printed(
            files,
            listing::decisions_lines(state::decisions_of(files), all),
            false,
        ),
    }
}

/// Lists decisions.
pub fn cmd_decisions(state: &State, args: &[String]) -> (r: Result<Reply, Fault>)
    ensures
        agrees(r, decisions_step(state.files@, text::texts(args@)).1),
{
    match flag_args(args, "--all") {
        Ok(all) => {
            let lines = list_decisions(state.decisions().as_slice(), all);
            Ok(Reply::Printed { lines, reload: false })
        },
        Err(refusal) => Err(refusal),
    }
}

/// What an answer changes.
pub open spec fn resolving(files: Texts, id: Seq<char>, answer: Seq<char>, clock: ClockV) -> Result<
    ledger::Change,
    FaultV,
> {
    ledger::resolve_outcome(
        state::registry_of(files),
        state::decisions_of(files),
        id,
        answer,
        clock.text,
    )
}

/// What `resolve` comes to.
pub open spec fn resolve_step(files: Texts, args: Words, clock: ClockV) -> Step {
    match args::say_words(args, FaultKind::EmptyAnswer) {
        Err(reason) => refused(files, reason),
        Ok((id, answer)) => match resolving(files, id, answer, clock) {
            Err(reason) => refused(files, reason),
            Ok(change) => printed(
                with_change(files, "decisions.json"@, change, clock),
                seq!["已拍板: "@ + id + " -> "@ + answer],
                false,
            ),
        },
    }
}

/// What `resolve` wrote is what is read.
pub open spec fn reads_resolve(files: Texts, args: Words, clock: ClockV, after: Texts) -> bool {
    let given = args::say_words(args, FaultKind::EmptyAnswer)->Ok_0;
    reads_change(
        files,
        after,
        "decisions.json"@,
        resolving(files, given.0, given.1, clock)->Ok_0,
        clock,
    )
}

/// A decision stays resolved: whoever answers it again, in whatever words, is
/// refused, and nothing changes.
pub open spec fn stays_resolved(files: Texts, id: Seq<char>) -> bool {
    forall|again: Words, later: ClockV|
        again.len() >= 2 && again[0] == id && args::phrase(again, 1).len() > 0
            ==> #[trigger] resolve_step(files, again, later) == refused(
            files,
            fault::about(FaultKind::AlreadyResolved, id),
        )
}

/// Resolves a decision.
pub fn cmd_resolve(state: &mut State, args: &[String], clock: &Clock) -> (r: Result<Reply, Fault>)
    ensures
        final(state).dir == old(state).dir,
        ({
            let step = resolve_step(old(state).files@, text::texts(args@), clock@);
            final(state).files@ == step.0 && agrees(r, step.1)
        }),
        r is Ok ==> reads_resolve(
            old(state).files@,
            text::texts(args@),
            clock@,
            final(state).files@,
        ),
        r is Ok ==> stays_resolved(final(state).files@, text::texts(args@)[0]),
{
    let ghost files = state.files@;
    let given = match say_args(args, FaultKind::EmptyAnswer) {
        Ok(given) => given,
        Err(refusal) => {
            return Err(refusal);
        },
    };
    let mut registry = state.registry();
    let mut decisions = state.decisions();
    proof {
        shallow::lemma_resolve(
            registry@,
            json::views(decisions@),
            given.subject@,
            given.words@,
            clock.text@,
        );
    }
    match resolve(
        &mut registry,
        &mut decisions,
        given.subject.as_str(),
        given.words.as_str(),
        clock.text.as_str(),
    ) {
        Ok(notice) => {
            state.keep_change(registry, "decisions.json", decisions, notice, clock);
            proof {
                let words = text::texts(args@);
                let id = words[0];
                assert forall|again: Words, later: ClockV|
                    again.len() >= 2 && again[0] == id && args::phrase(again, 1).len()
                        > 0 implies #[trigger] resolve_step(state.files@, again, later)
                    == refused(
                    state.files@,
                    fault::about(FaultKind::AlreadyResolved, id),
                ) by {
                    command_laws::law_second_answer_is_refused(
                        files,
                        words,
                        clock@,
                        again,
                        later,
                    );
                }
            }
            let line = cat4("已拍板: ", given.subject.as_str(), " -> ", given.words.as_str());
            Ok(Reply::Printed { lines: one_line(line), reload: false })
        },
        Err(refusal) => Err(refusal),
    }
}

/// What `attention` comes to.
pub open spec fn attention_step(files: Texts, args: Words, clock: ClockV) -> Step {
    match args::sole_flag(args, "--json"@) {
        None => refused(files, args::misused()),
        Some(as_json) => printed(
            upkeep::refreshed(files, clock),
            listing::attention_lines(upkeep::queue_of(files, clock), as_json),
            false,
        ),
    }
}

/// Rebuilds and lists the attention queue.
pub fn cmd_attention(state: &mut State, args: &[String], clock: &Clock) -> (r: Result<Reply, Fault>)
    ensures
        final(state).dir == old(state).dir,
        ({
            let step = attention_step(old(state).files@, text::texts(args@), clock@);
            final(state).files@ == step.0 && agrees(r, step.1)
        }),
        r is Ok ==> state::reads_list(
            final(state).files@,
            "attention.json"@,
            upkeep::queue_of(old(state).files@, clock@),
        ),
{
    match flag_args(args, "--json") {
        Ok(as_json) => {
            let values = state.refresh_attention_at(clock);
            Ok(Reply::Printed { lines: list_attention(&values, as_json), reload: false })
        },
        Err(refusal) => Err(refusal),
    }
}

/// What `list` comes to.
pub open spec fn list_step(
    files: Texts,
    dir: Seq<char>,
    args: Words,
    env: Env,
    watching: bool,
    clock: ClockV,
) -> Step {
    let registry = state::registry_of(files);
    if args.len() > 0 {
        refused(files, args::misused())
    } else if registry == Map::<Seq<char>, JsonV>::empty() {
        printed(files, seq!["(注册表为空)"@], false)
    } else {
        printed(
            upkeep::refreshed(files, clock),
            listing::list_lines(
                registry,
                state::decisions_of(files),
                state::runtime_doc(files),
                state::is_plugin(dir, env),
                watching,
                upkeep::queue_of(files, clock),
            ),
            false,
        )
    }
}

/// The attention queue that `list` rebuilt, where there are projects, is what
/// is read.
pub open spec fn reads_listed(files: Texts, clock: ClockV, after: Texts) -> bool {
    state::registry_of(files) != Map::<Seq<char>, JsonV>::empty() ==> state::reads_list(
        after,
        "attention.json"@,
        upkeep::queue_of(files, clock),
    )
}

/// Lists the projects; `watching` says whether a watcher runs.
pub fn cmd_list(
    state: &mut State,
    args: &[String],
    env: &Env,
    watching: bool,
    clock: &Clock,
) -> (r: Result<Reply, Fault>)
    ensures
        final(state).dir == old(state).dir,
        ({
            let step = list_step(
                old(state).files@,
                old(state).dir@,
                text::texts(args@),
                *env,
                watching,
                clock@,
            );
            final(state).files@ == step.0 && agrees(r, step.1)
        }),
        r is Ok ==> reads_listed(old(state).files@, clock@, final(state).files@),
{
    match no_args(args) {
        Ok(()) => {},
        Err(refusal) => {
            return Err(refusal);
        },
    }
    let registry = state.registry();
    if registry.is_empty() {
        return Ok(
            Reply::Printed { lines: one_line("(注册表为空)".to_owned()), reload: false },
        );
    }
    let decisions = state.decisions();
    let runtime = state.runtime();
    let plugin = state.plugin_mode(env);
    let queue = state.refresh_attention_at(clock);
    let lines = list_registry(
        &registry,
        decisions.as_slice(),
        &runtime,
        plugin,
        watching,
        &queue,
    );
    Ok(Reply::Printed { lines, reload: false })
}

/// What `route` comes to: who is to be prompted with what.
pub open spec fn route_step(files: Texts, args: Words) -> Step {
    match args::say_words(args, FaultKind::EmptyInstruction) {
        Err(reason) => refused(files, reason),
        Ok((project, words)) => {
            let registry = state::registry_of(files);
            let commander = registry[project].string("commander"@);
            if !registry.contains_key(project) {
                refused(files, fault::about(FaultKind::Unregistered, project))
            } else if commander.len() == 0 {
                refused(files, fault::about(FaultKind::NoCommander, project))
            } else {
                (files, Ok(ReplyV::Route { project, commander, words }))
            }
        },
    }
}

/// Says which commander is to be prompted: only the registered one of the
/// project.
pub fn cmd_route(state: &State, args: &[String]) -> (r: Result<Reply, Fault>)
    ensures
        agrees(r, route_step(state.files@, text::texts(args@)).1),
{
    let given = match say_args(args, FaultKind::EmptyInstruction) {
        Ok(given) => given,
        Err(refusal) => {
            return Err(refusal);
        },
    };
    let registry = state.registry();
    match registry.get(given.subject.as_str()) {
        None => Err(unregistered(given.subject.as_str())),
        Some(entry) => {
            let commander = string(entry, "commander");
            if commander.as_str().is_empty() {
                return Err(Fault::about(FaultKind::NoCommander, given.subject.as_str()));
            }
            Ok(Reply::Route { project: given.subject, commander, words: given.words })
        },
    }
}

/// What came of prompting a commander: the line to print, or what Herdr
/// complained of.
pub fn finish_route(project: &str, success: bool, complaint: &str) -> (r: Result<String, Fault>)
    ensures
        match r {
            Ok(line) => success && line@ == "已转发给 "@ + project@ + " 的机长"@,
            Err(refusal) => !success && refusal@ == fault::about(
                FaultKind::Foreign,
                text::trimmed(complaint@),
            ),
        },
{
    if success {
        Ok(cat3("已转发给 ", project, " 的机长"))
    } else {
        Err(Fault::about(FaultKind::Foreign, trim(complaint).as_str()))
    }
}

/// How many entries of the inbox were shown before; none where the cursor is
/// missing or no number.
pub open spec fn inbox_cursor(files: Texts) -> nat {
    match textmap::text_under(files, "inbox.cursor"@) {
        Some(body) => match text::natural(text::trimmed(body)) {
            Some(n) => n,
            None => 0,
        },
        None => 0,
    }
}

fn read_cursor(state: &State) -> (r: u64)
    ensures
        r as nat == inbox_cursor(state.files@),
{
    match state.files.get("inbox.cursor") {
        Some(body) => match parse_natural(trim(body).as_str()) {
            Some(n) => n,
            None => 0,
        },
        None => 0,
    }
}

/// The files after the inbox was shown up to its end.
pub open spec fn with_cursor(files: Texts) -> Texts {
    files.insert("inbox.cursor"@, text::digits(state::inbox_of(files).len()))
}

/// What `inbox` comes to.
pub open spec fn inbox_step(files: Texts, args: Words) -> Step {
    match args::sole_flag(args, "--all"@) {
        None => refused(files, args::misused()),
        Some(all) => printed(
            if all {
                files
            } else {
                with_cursor(files)
            },
            listing::inbox_lines(state::inbox_of(files), all, inbox_cursor(files)),
            false,
        ),
    }
}

/// Lists what is new in the inbox, or all of it.
pub fn cmd_inbox(state: &mut State, args: &[String]) -> (r: Result<Reply, Fault>)
    ensures
        final(state).dir == old(state).dir,
        ({
            let step = inbox_step(old(state).files@, text::texts(args@));
            final(state).files@ == step.0 && agrees(r, step.1)
        }),
{
    let all = match flag_args(args, "--all") {
        Ok(all) => all,
        Err(refusal) => {
            return Err(refusal);
        },
    };
    let entries = state.inbox_entries();
    let cursor: u64 = read_cursor(state);
    let lines = list_inbox(&entries, all, cursor);
    if !all {
        proof {
            assert(json::views(entries@).len() == entries@.len());
        }
        state.files.put("inbox.cursor", decimal(entries.len() as u64).as_str());
    }
    Ok(Reply::Printed { lines, reload: false })
}

/// What a command that takes no argument and is carried out elsewhere comes to.
pub open spec fn bare_step(files: Texts, args: Words, reply: ReplyV) -> Step {
    if args.len() > 0 {
        refused(files, args::misused())
    } else {
        (files, Ok(reply))
    }
}

/// The rest of the arguments behind the first.
pub open spec fn rest_words(args: Words) -> Words {
    args.skip(1)
}

/// What a command comes to, after older states were migrated.
pub open spec fn command_step(
    files: Texts,
    dir: Seq<char>,
    args: Words,
    env: Env,
    watching: bool,
    fresh: FreshV,
) -> Step {
    let verb = args[0];
    let rest = rest_words(args);
    if verb == "init"@ {
        init_step(files, dir, rest)
    } else if verb == "register"@ {
        register_step(files, rest, env, fresh.clock)
    } else if verb == "set-status"@ {
        status_step(files, rest, fresh)
    } else if verb == "unregister"@ {
        unregister_step(files, rest, fresh.clock)
    } else if verb == "list"@ {
        list_step(files, dir, rest, env, watching, fresh.clock)
    } else if verb == "route"@ {
        route_step(files, rest)
    } else if verb == "sync"@ {
        bare_step(files, rest, ReplyV::Sync)
    } else if verb == "report"@ {
        report_step(files, rest, fresh)
    } else if verb == "claims"@ {
        claims_step(files, rest)
    } else if verb == "verify"@ {
        verify_step(files, rest)
    } else if verb == "accept"@ {
        accept_step(files, rest, env, fresh.clock)
    } else if verb == "ask"@ {
        ask_step(files, args::ask_words(rest), fresh)
    } else if verb == "decisions"@ {
        decisions_step(files, rest)
    } else if verb == "resolve"@ {
        resolve_step(files, rest, fresh.clock)
    } else if verb == "attention"@ {
        attention_step(files, rest, fresh.clock)
    } else if verb == "inbox"@ {
        inbox_step(files, rest)
    } else if verb == "plugin-reconcile"@ {
        bare_step(files, rest, ReplyV::Reconcile)
    } else if verb == "plugin-event"@ {
        bare_step(files, rest, ReplyV::Event)
    } else if verb == "watch"@ || verb == "watch-start"@ || verb == "watch-status"@ || verb
        == "watch-stop"@ {
        (files, Ok(ReplyV::Watch { verb, rest }))
    } else if verb == "tower"@ {
        (files, Ok(ReplyV::Tower))
    } else if verb == "open"@ {
        bare_step(files, rest, ReplyV::Open)
    } else {
        refused(files, args::misused())
    }
}

/// The command line asks for help.
pub open spec fn asks_help(args: Words) -> bool {
    args.len() > 0 && (args[0] == "--help"@ || args[0] == "-h"@ || args[0] == "help"@)
}

/// What a command line comes to.
pub open spec fn run_step(
    files: Texts,
    dir: Seq<char>,
    args: Words,
    env: Env,
    watching: bool,
    fresh: FreshV,
    legacy: Words,
) -> Step {
    if args.len() == 0 {
        refused(files, args::misused())
    } else if asks_help(args) {
        (files, Ok(ReplyV::Help))
    } else {
        command_step(
            upkeep::migrated(files, legacy, fresh.clock.text),
            dir,
            args,
            env,
            watching,
            fresh,
        )
    }
}

fn bare(args: &[String], reply: Reply) -> (r: Result<Reply, Fault>)
    ensures
        forall|files: Texts| #[trigger]
            bare_step(files, text::texts(args@), reply@).0 == files && agrees(
                r,
                bare_step(files, text::texts(args@), reply@).1,
            ),
{
    match no_args(args) {
        Ok(()) => Ok(reply),
        Err(refusal) => Err(refusal),
    }
}

/// What a command wrote, where it was carried out, is what is read.
pub open spec fn reads_command(
    files: Texts,
    args: Words,
    env: Env,
    fresh: FreshV,
    after: Texts,
) -> bool {
    let verb = args[0];
    let rest = rest_words(args);
    if verb == "init"@ {
        upkeep::reads_initialised(files, after)
    } else if verb == "register"@ {
        reads_register(files, rest, env, fresh.clock, after)
    } else if verb == "set-status"@ {
        reads_status(files, rest, fresh, after)
    } else if verb == "unregister"@ {
        reads_unregister(files, rest, fresh.clock, after)
    } else if verb == "list"@ {
        reads_listed(files, fresh.clock, after)
    } else if verb == "route"@ || verb == "sync"@ {
        true
    } else if verb == "report"@ {
        reads_report(files, rest, fresh, after)
    } else if verb == "claims"@ || verb == "verify"@ {
        true
    } else if verb == "accept"@ {
        reads_accept(files, rest, env, fresh.clock, after)
    } else if verb == "ask"@ {
        reads_ask(files, args::ask_words(rest)->Ok_0, fresh, after)
    } else if verb == "decisions"@ {
        true
    } else if verb == "resolve"@ {
        reads_resolve(files, rest, fresh.clock, after) && stays_resolved(after, rest[0])
    } else if verb == "attention"@ {
        state::reads_list(after, "attention.json"@, upkeep::queue_of(files, fresh.clock))
    } else {
        true
    }
}

/// What a command line wrote is what is read: first what a migration wrote,
/// then, where the command was carried out, what it wrote on top of that.
pub open spec fn reads_run(
    files: Texts,
    args: Words,
    env: Env,
    fresh: FreshV,
    legacy: Words,
    done: bool,
    after: Texts,
) -> bool {
    let between = upkeep::migrated(files, legacy, fresh.clock.text);
    args.len() > 0 && !asks_help(args) ==> {
        &&& upkeep::reads_migrated(files, between, legacy, fresh.clock.text)
        &&& done ==> reads_command(between, args, env, fresh, after)
    }
}

/// Carries a command out on a state that is migrated.
pub fn command_at(
    state: &mut State,
    args: &[String],
    env: &Env,
    watching: bool,
    fresh: &Fresh,
) -> (r: Result<Reply, Fault>)
    requires
        args@.len() > 0,
        fresh.tokens@.len() >= args@.len(),
    ensures
        final(state).dir == old(state).dir,
        ({
            let step = command_step(
                old(state).files@,
                old(state).dir@,
                text::texts(args@),
                *env,
                watching,
                fresh@,
            );
            final(state).files@ == step.0 && agrees(r, step.1)
        }),
        r is Ok ==> reads_command(
            old(state).files@,
            text::texts(args@),
            *env,
            fresh@,
            final(state).files@,
        ),
{
    let verb = args[0].as_str();
    let rest = slice_subrange(args, 1, args.len());
    proof {
        assert(text::texts(rest@) =~= text::texts(args@).skip(1));
        assert(text::texts(args@)[0] == verb@);
    }
    if same(verb, "init") {
        cmd_init(state, rest)
    } else if same(verb, "register") {
        cmd_register(state, rest, env, &fresh.clock)
    } else if same(verb, "set-status") {
        cmd_set_status(state, rest, fresh)
    } else if same(verb, "unregister") {
        cmd_unregister(state, rest, &fresh.clock)
    } else if same(verb, "list") {
        cmd_list(state, rest, env, watching, &fresh.clock)
    } else if same(verb, "route") {
        cmd_route(state, rest)
    } else if same(verb, "sync") {
        let r = bare(rest, Reply::Sync);
        proof {
            assert(bare_step(state.files@, text::texts(rest@), ReplyV::Sync).0 == state.files@);
        }
        r
    } else if same(verb, "report") {
        cmd_report(state, rest, fresh)
    } else if same(verb, "claims") {
        cmd_claims(state, rest)
    } else if same(verb, "verify") {
        cmd_verify(state, rest)
    } else if same(verb, "accept") {
        cmd_accept(state, rest, env, &fresh.clock)
    } else if same(verb, "ask") {
        cmd_ask(state, rest, fresh)
    } else if same(verb, "decisions") {
        cmd_decisions(state, rest)
    } else if same(verb, "resolve") {
        cmd_resolve(state, rest, &fresh.clock)
    } else if same(verb, "attention") {
        cmd_attention(state, rest, &fresh.clock)
    } else if same(verb, "inbox") {
        cmd_inbox(state, rest)
    } else if same(verb, "plugin-reconcile") {
        let r = bare(rest, Reply::Reconcile);
        proof {
            assert(bare_step(state.files@, text::texts(rest@), ReplyV::Reconcile).0
                == state.files@);
        }
        r
    } else if same(verb, "plugin-event") {
        let r = bare(rest, Reply::Event);
        proof {
            assert(bare_step(state.files@, text::texts(rest@), ReplyV::Event).0 == state.files@);
        }
        r
    } else if same(verb, "watch") || same(verb, "watch-start") || same(verb, "watch-status")
        || same(verb, "watch-stop") {
        Ok(Reply::Watch { verb: verb.to_owned(), rest: args::copies(rest) })
    } else if same(verb, "tower") {
        Ok(Reply::Tower)
    } else if same(verb, "open") {
        let r = bare(rest, Reply::Open);
        proof {
            assert(bare_step(state.files@, text::texts(rest@), ReplyV::Open).0 == state.files@);
        }
        r
    } else {
        Err(Fault::plain(FaultKind::Usage))
    }
}

/// Carries a command line out, with what it takes from chance and time given;
/// `legacy` holds a random part of an identifier for every project.
pub fn run_at(
    state: &mut State,
    args: &[String],
    env: &Env,
    watching: bool,
    fresh: &Fresh,
    legacy: &[String],
) -> (r: Result<Reply, Fault>)
    requires
        fresh.tokens@.len() >= args@.len(),
        legacy@.len() >= json::name_order(state::registry_of(old(state).files@)).len(),
    ensures
        final(state).dir == old(state).dir,
        ({
            let step = run_step(
                old(state).files@,
                old(state).dir@,
                text::texts(args@),
                *env,
                watching,
                fresh@,
                text::texts(legacy@),
            );
            final(state).files@ == step.0 && agrees(r, step.1)
        }),
        reads_run(
            old(state).files@,
            text::texts(args@),
            *env,
            fresh@,
            text::texts(legacy@),
            r is Ok,
            final(state).files@,
        ),
{
    if args.len() == 0 {
        return Err(Fault::plain(FaultKind::Usage));
    }
    let verb = args[0].as_str();
    proof {
        assert(text::texts(args@)[0] == verb@);
    }
    if same(verb, "--help") || same(verb, "-h") || same(verb, "help") {
        return Ok(Reply::Help);
    }
    state.migrate_legacy_at(legacy, fresh.clock.text.as_str());
    command_at(state, args, env, watching, fresh)
}

/// Carries a command line out; `watching` says whether a watcher runs.
pub fn run(state: &mut State, args: &[String], env: &Env, watching: bool) -> (r: Result<
    Reply,
    Fault,
>)
    ensures
        final(state).dir == old(state).dir,
        exists|fresh: FreshV, legacy: Words|
            {
                let step = #[trigger] run_step(
                    old(state).files@,
                    old(state).dir@,
                    text::texts(args@),
                    *env,
                    watching,
                    fresh,
                    legacy,
                );
                &&& is_drawn(fresh, args@.len())
                &&& outside::are_tokens(legacy, 8)
                &&& legacy.len() == json::name_order(
                    state::registry_of(old(state).files@),
                ).len()
                &&& final(state).files@ == step.0
                &&& agrees(r, step.1)
                &&& reads_run(
                    old(state).files@,
                    text::texts(args@),
                    *env,
                    fresh,
                    legacy,
                    r is Ok,
                    final(state).files@,
                )
            },
{
    let fresh = Fresh::read(args.len());
    let names = state.registry().names();
    let mut legacy: Vec<String> = Vec::new();
    let mut i: usize = 0;
    while i < names.len()
        invariant
            i <= names.len(),
            legacy@.len() == i,
            outside::are_tokens(text::texts(legacy@), 8),
        decreases names.len() - i,
    {
        push_token(&mut legacy, 8);
        i = i + 1;
    }
    proof {
        assert(text::texts(names@).len() == names@.len());
    }
    run_at(state, args, env, watching, &fresh, legacy.as_slice())
}

} // verus!
