//! The arguments of the commands.
use vstd::prelude::*;
use vstd::slice::slice_subrange;
use crate::fault::{Fault, FaultKind, FaultV};
use crate::fault;
use crate::json::{Json, JsonV, Number};
use crate::json;
use crate::ledger::parse_evidence;
use crate::ledger;
use crate::outside::{read_number, Reading};
use crate::outside;
use crate::records::known_status;
use crate::records;
use crate::state::{home_dir, join_path, Env};
use crate::state;
use crate::text;
use crate::text::{contains, join, same, starts_with, strip_prefix, trim};
use crate::textmap::{TextMap, Texts};

verus! {

/// The arguments of a command, as texts.
pub type Words = Seq<Seq<char>>;

/// The refusal of arguments that are not as the usage says.
pub open spec fn misused() -> FaultV {
    fault::plain(FaultKind::Usage)
}

fn misuse() -> (r: Fault)
    ensures
        r@ == misused(),
{
    Fault::plain(FaultKind::Usage)
}

/// Refuses any argument.
pub fn no_args(args: &[String]) -> (r: Result<(), Fault>)
    ensures
        match r {
            Ok(()) => args@.len() == 0,
            Err(refusal) => args@.len() > 0 && refusal@ == misused(),
        },
{
    if args.len() > 0 {
        Err(misuse())
    } else {
        Ok(())
    }
}

/// The options of a command that come as a name and a value each; of one that
/// comes twice the last counts.
pub open spec fn pairs_of(args: Words) -> Texts
    decreases args.len(),
{
    if args.len() < 2 {
        Map::empty()
    } else {
        pairs_of(args.take(args.len() - 2)).insert(args[args.len() - 2], args[args.len() - 1])
    }
}

/// The options of a command that come as a name and a value each; of one that
/// comes twice the last counts.
pub fn option_pairs(args: &[String]) -> (r: Result<TextMap, Fault>)
    ensures
        match r {
            Ok(options) => args@.len() % 2 == 0 && options@ == pairs_of(text::texts(args@)),
            Err(refusal) => args@.len() % 2 != 0 && refusal@ == misused(),
        },
{
    if args.len() % 2 != 0 {
        return Err(misuse());
    }
    let ghost words = text::texts(args@);
    let mut out = TextMap::new();
    let mut i: usize = 0;
    proof {
        assert(words.take(0).len() == 0);
    }
    while i + 1 < args.len()
        invariant
            i <= args.len(),
            i % 2 == 0,
            args.len() % 2 == 0,
            words == text::texts(args@),
            out@ == pairs_of(words.take(i as int)),
        decreases args.len() - i,
    {
        out.put(args[i].as_str(), args[i + 1].as_str());
        proof {
            let taken = words.take(i + 2);
            assert(taken.take(taken.len() - 2) =~= words.take(i as int));
            assert(taken[i as int] == args@[i as int]@ && taken[i + 1] == args@[i + 1]@);
        }
        i = i + 2;
    }
    proof {
        assert(words.take(i as int) =~= words);
    }
    Ok(out)
}

/// A path with the home directory written out, and made absolute.
pub open spec fn absolute(value: Seq<char>, env: Env) -> Result<Seq<char>, FaultV> {
    let home = state::home_of(env.home);
    let expanded = if value == "~"@ {
        home
    } else {
        match text::after_prefix(value, "~/"@) {
            Some(rest) => state::joined_path(home, rest),
            None => value,
        }
    };
    if text::has_prefix(expanded, "/"@) {
        Ok(expanded)
    } else {
        match env.current_dir {
            Ok(dir) => Ok(state::joined_path(dir@, expanded)),
            Err(words) => Err(fault::about(FaultKind::Foreign, words@)),
        }
    }
}

/// A path with the home directory written out, and made absolute.
pub fn absolute_path(value: &str, env: &Env) -> (r: Result<String, Fault>)
    ensures
        ledger::path_view(r) == absolute(value@, *env),
{
    let home = home_dir(&env.home);
    let expanded: String = if same(value, "~") {
        home
    } else {
        match strip_prefix(value, "~/") {
            Some(rest) => join_path(home.as_str(), rest.as_str()),
            None => value.to_owned(),
        }
    };
    if starts_with(expanded.as_str(), "/") {
        Ok(expanded)
    } else {
        match &env.current_dir {
            Ok(dir) => Ok(join_path(dir.as_str(), expanded.as_str())),
            Err(words) => Err(Fault::about(FaultKind::Foreign, words.as_str())),
        }
    }
}

/// What is registered.
pub struct RegisterArgs {
    pub project: String,
    pub tab: String,
    pub commander: String,
    pub cwd: String,
}

/// What is registered.
pub struct RegisterV {
    pub project: Seq<char>,
    pub tab: Seq<char>,
    pub commander: Seq<char>,
    pub cwd: Seq<char>,
}

impl RegisterArgs {
    pub open spec fn view(&self) -> RegisterV {
        RegisterV {
            project: self.project@,
            tab: self.tab@,
            commander: self.commander@,
            cwd: self.cwd@,
        }
    }
}

/// An option is given and not empty.
pub open spec fn is_given(options: Texts, name: Seq<char>) -> bool {
    options.contains_key(name) && options[name].len() > 0
}

/// The arguments of `register`: a project, then options, among them a tab, a
/// commander and a directory.
pub open spec fn register_words(args: Words) -> Option<RegisterV> {
    let options = pairs_of(args.skip(1));
    if args.len() < 7 || args.len() % 2 == 0 || !is_given(options, "--tab"@) || !is_given(
        options,
        "--commander"@,
    ) || !is_given(options, "--cwd"@) {
        None
    } else {
        Some(
            RegisterV {
                project: args[0],
                tab: options["--tab"@],
                commander: options["--commander"@],
                cwd: options["--cwd"@],
            },
        )
    }
}

fn option_of(options: &TextMap, name: &str) -> (r: Option<String>)
    ensures
        match r {
            Some(value) => is_given(options@, name@) && value@ == options@[name@],
            None => !is_given(options@, name@),
        },
{
    match options.get(name) {
        Some(value) => if value.is_empty() {
            None
        } else {
            Some(value.to_owned())
        },
        None => None,
    }
}

/// The arguments behind the first `n`.
fn rest_of(args: &[String], n: usize) -> (r: &[String])
    requires
        n <= args@.len(),
    ensures
        r@ == args@.skip(n as int),
        text::texts(r@) == text::texts(args@).skip(n as int),
{
    let out = slice_subrange(args, n, args.len());
    proof {
        assert(out@ =~= args@.skip(n as int));
        assert(text::texts(out@) =~= text::texts(args@).skip(n as int));
    }
    out
}

/// Reads the arguments of `register`.
pub fn register_args(args: &[String]) -> (r: Result<RegisterArgs, Fault>)
    ensures
        match r {
            Ok(given) => register_words(text::texts(args@)) == Some(given@),
            Err(refusal) => register_words(text::texts(args@)) is None && refusal@ == misused(),
        },
{
    if args.len() < 7 {
        return Err(misuse());
    }
    let options = match option_pairs(rest_of(args, 1)) {
        Ok(options) => options,
        Err(refusal) => {
            return Err(refusal);
        },
    };
    match (
        option_of(&options, "--tab"),
        option_of(&options, "--commander"),
        option_of(&options, "--cwd"),
    ) {
        (Some(tab), Some(commander), Some(cwd)) => Ok(
            RegisterArgs { project: args[0].as_str().to_owned(), tab, commander, cwd },
        ),
        _ => Err(misuse()),
    }
}

/// The words of the arguments behind the first `n`, as one text.
pub open spec fn phrase(args: Words, n: int) -> Seq<char> {
    text::trimmed(text::joined(args.skip(n), " "@))
}

fn phrase_of(args: &[String], n: usize) -> (r: String)
    requires
        n <= args@.len(),
    ensures
        r@ == phrase(text::texts(args@), n as int),
{
    trim(join(rest_of(args, n), " ").as_str())
}

/// What is asked.
pub struct AskArgs {
    pub project: String,
    pub question: String,
    pub options: Vec<String>,
}

/// What is asked.
pub struct AskV {
    pub project: Seq<char>,
    pub question: Seq<char>,
    pub options: Words,
}

impl AskArgs {
    pub open spec fn view(&self) -> AskV {
        AskV {
            project: self.project@,
            question: self.question@,
            options: text::texts(self.options@),
        }
    }
}

/// The words and the options of a question, from the argument `i` on, behind
/// those that were found before; nothing where an option has no value.
pub open spec fn ask_scan(args: Words, i: int, words: Words, options: Words) -> Option<(Words, Words)>
    decreases args.len() - i,
{
    if i >= args.len() {
        Some((words, options))
    } else if args[i] == "--option"@ {
        if i + 1 >= args.len() {
            None
        } else {
            ask_scan(args, i + 2, words, options.push(args[i + 1]))
        }
    } else {
        ask_scan(args, i + 1, words.push(args[i]), options)
    }
}

/// The arguments of `ask`: a project, then the words of the question and its
/// options in any order.
pub open spec fn ask_words(args: Words) -> Result<AskV, FaultV> {
    if args.len() < 2 {
        Err(misused())
    } else {
        match ask_scan(args, 1, Seq::empty(), Seq::empty()) {
            None => Err(fault::plain(FaultKind::MissingOption)),
            Some((words, options)) => {
                let question = text::trimmed(text::joined(words, " "@));
                if question.len() == 0 {
                    Err(fault::plain(FaultKind::EmptyQuestion))
                } else {
                    Ok(AskV { project: args[0], question, options })
                }
            },
        }
    }
}

/// Reads the arguments of `ask`.
pub fn ask_args(args: &[String]) -> (r: Result<AskArgs, Fault>)
    ensures
        match r {
            Ok(given) => ask_words(text::texts(args@)) == Ok::<AskV, FaultV>(given@),
            Err(refusal) => ask_words(text::texts(args@)) == Err::<AskV, FaultV>(refusal@),
        },
{
    if args.len() < 2 {
        return Err(misuse());
    }
    let ghost all = text::texts(args@);
    let mut words: Vec<String> = Vec::new();
    let mut options: Vec<String> = Vec::new();
    let mut i: usize = 1;
    proof {
        assert(text::texts(words@) =~= Seq::empty());
        assert(text::texts(options@) =~= Seq::empty());
    }
    while i < args.len()
        invariant
            1 <= i <= args.len(),
            all == text::texts(args@),
            ask_scan(all, 1, Seq::empty(), Seq::empty()) == ask_scan(
                all,
                i as int,
                text::texts(words@),
                text::texts(options@),
            ),
        decreases args.len() - i,
    {
        proof {
            assert(all[i as int] == args@[i as int]@);
        }
        if same(args[i].as_str(), "--option") {
            if i + 1 >= args.len() {
                return Err(Fault::plain(FaultKind::MissingOption));
            }
            let option = args[i + 1].as_str().to_owned();
            let ghost before = options@;
            options.push(option);
            proof {
                assert(all[i + 1] == args@[i + 1]@);
                assert(text::texts(options@) =~= text::texts(before).push(option@));
            }
            i = i + 2;
        } else {
            let word = args[i].as_str().to_owned();
            let ghost before = words@;
            words.push(word);
            proof {
                assert(text::texts(words@) =~= text::texts(before).push(word@));
            }
            i = i + 1;
        }
    }
    let question = trim(join(words.as_slice(), " ").as_str());
    if question.as_str().is_empty() {
        return Err(Fault::plain(FaultKind::EmptyQuestion));
    }
    Ok(AskArgs { project: args[0].as_str().to_owned(), question, options })
}

/// The text that a number from zero to one prints as: one, a fraction behind
/// a zero, or a positive number with a negative exponent.
pub open spec fn is_unit_text(spelling: Seq<char>) -> bool {
    spelling == "1.0"@ || spelling == "-0.0"@ || text::has_prefix(spelling, "0."@) || (
    text::occurs(spelling, "e-"@) && !text::has_prefix(spelling, "-"@))
}

/// The confidence that a text gives.
pub open spec fn confidence_of(value: Seq<char>) -> Result<JsonV, FaultV> {
    match outside::real_reading(value) {
        Err(words) => Err(fault::about(FaultKind::ConfidenceNoNumber, words)),
        Ok(None) => Err(fault::plain(FaultKind::ConfidenceRange)),
        Ok(Some(spelling)) => if is_unit_text(spelling) {
            Ok(JsonV::Real(spelling))
        } else {
            Err(fault::plain(FaultKind::ConfidenceRange))
        },
    }
}

/// Whether a number that prints as this text lies from zero to one.
pub fn within_unit(spelling: &str) -> (r: bool)
    ensures
        r == is_unit_text(spelling@),
{
    same(spelling, "1.0") || same(spelling, "-0.0") || starts_with(spelling, "0.") || (contains(
        spelling,
        "e-",
    ) && !starts_with(spelling, "-"))
}

/// The confidence that a text gives: a number from zero to one.
pub fn parse_confidence(value: &str) -> (r: Result<Json, Fault>)
    ensures
        match r {
            Ok(number) => confidence_of(value@) == Ok::<JsonV, FaultV>(number@),
            Err(refusal) => confidence_of(value@) == Err::<JsonV, FaultV>(refusal@),
        },
{
    match read_number(value) {
        Reading::Unreadable(words) => Err(
            Fault::about(FaultKind::ConfidenceNoNumber, words.as_str()),
        ),
        Reading::Unbounded => Err(Fault::plain(FaultKind::ConfidenceRange)),
        Reading::Finite(number) => if within_unit(number.spelling()) {
            Ok(Json::Number(Number::Real(number)))
        } else {
            Err(Fault::plain(FaultKind::ConfidenceRange))
        },
    }
}

/// What is reported.
pub struct ReportArgs {
    pub project: String,
    pub status: String,
    pub summary: String,
    pub confidence: Json,
    pub evidence: Vec<Json>,
}

/// What is reported.
pub struct ReportV {
    pub project: Seq<char>,
    pub status: Seq<char>,
    pub summary: Seq<char>,
    pub confidence: JsonV,
    pub evidence: Seq<JsonV>,
}

impl ReportArgs {
    pub open spec fn view(&self) -> ReportV {
        ReportV {
            project: self.project@,
            status: self.status@,
            summary: self.summary@,
            confidence: self.confidence@,
            evidence: json::views(self.evidence@),
        }
    }
}

/// The summary, the confidence and the evidence of a report.
pub struct ReportParts {
    pub words: Words,
    pub confidence: JsonV,
    pub evidence: Seq<JsonV>,
}

/// The parts of a report from the argument `i` on, behind those that were
/// found before. The evidence in an argument is named by the token of that
/// argument.
pub open spec fn report_scan(
    args: Words,
    i: int,
    parts: ReportParts,
    tokens: Words,
    now: Seq<char>,
) -> Result<ReportParts, FaultV>
    decreases args.len() - i,
{
    if i >= args.len() {
        Ok(parts)
    } else if args[i] == "--confidence"@ && i + 1 < args.len() {
        match confidence_of(args[i + 1]) {
            Ok(confidence) => report_scan(
                args,
                i + 2,
                ReportParts { confidence, ..parts },
                tokens,
                now,
            ),
            Err(reason) => Err(reason),
        }
    } else if args[i] == "--evidence"@ && i + 1 < args.len() {
        match ledger::evidence_outcome(args[i + 1], tokens[i + 1], now) {
            Ok(evidence) => report_scan(
                args,
                i + 2,
                ReportParts { evidence: parts.evidence.push(evidence), ..parts },
                tokens,
                now,
            ),
            Err(reason) => Err(reason),
        }
    } else if args[i] == "--confidence"@ || args[i] == "--evidence"@ {
        Err(fault::about(FaultKind::MissingValue, args[i]))
    } else {
        report_scan(
            args,
            i + 1,
            ReportParts { words: parts.words.push(args[i]), ..parts },
            tokens,
            now,
        )
    }
}

/// The arguments of `report`: a project, a status, then the words of the
/// summary and the options in any order.
pub open spec fn report_words(args: Words, tokens: Words, now: Seq<char>) -> Result<
    ReportV,
    FaultV,
> {
    if args.len() < 3 {
        Err(misused())
    } else if !records::is_status(args[1]) {
        Err(fault::plain(FaultKind::UnknownStatus))
    } else {
        match report_scan(
            args,
            2,
            ReportParts { words: Seq::empty(), confidence: JsonV::Null, evidence: Seq::empty() },
            tokens,
            now,
        ) {
            Err(reason) => Err(reason),
            Ok(parts) => {
                let summary = text::trimmed(text::joined(parts.words, " "@));
                if summary.len() == 0 {
                    Err(fault::plain(FaultKind::EmptySummary))
                } else {
                    Ok(
                        ReportV {
                            project: args[0],
                            status: args[1],
                            summary,
                            confidence: parts.confidence,
                            evidence: parts.evidence,
                        },
                    )
                }
            },
        }
    }
}

/// Reads the arguments of `report`; `tokens` holds a random part of an
/// identifier for every argument.
pub fn report_args(args: &[String], tokens: &[String], now: &str) -> (r: Result<ReportArgs, Fault>)
    requires
        tokens@.len() >= args@.len(),
    ensures
        match r {
            Ok(given) => report_words(text::texts(args@), text::texts(tokens@), now@) == Ok::<
                ReportV,
                FaultV,
            >(given@),
            Err(refusal) => report_words(text::texts(args@), text::texts(tokens@), now@) == Err::<
                ReportV,
                FaultV,
            >(refusal@),
        },
{
    if args.len() < 3 {
        return Err(misuse());
    }
    if !known_status(args[1].as_str()) {
        return Err(Fault::plain(FaultKind::UnknownStatus));
    }
    let ghost all = text::texts(args@);
    let ghost marks = text::texts(tokens@);
    let ghost start = report_scan(
        all,
        2,
        ReportParts { words: Seq::empty(), confidence: JsonV::Null, evidence: Seq::empty() },
        marks,
        now@,
    );
    let mut words: Vec<String> = Vec::new();
    let mut confidence = Json::Null;
    let mut evidence: Vec<Json> = Vec::new();
    let mut i: usize = 2;
    proof {
        assert(text::texts(words@) =~= Seq::empty());
        assert(json::views(evidence@) =~= Seq::empty());
    }
    while i < args.len()
        invariant
            2 <= i <= args.len(),
            3 <= args.len() <= tokens.len(),
            all == text::texts(args@),
            marks == text::texts(tokens@),
            records::is_status(all[1]),
            start == report_scan(
                all,
                2,
                (ReportParts {
                    words: Seq::empty(),
                    confidence: JsonV::Null,
                    evidence: Seq::empty(),
                }),
                marks,
                now@,
            ),
            start == report_scan(
                all,
                i as int,
                (ReportParts {
                    words: text::texts(words@),
                    confidence: confidence@,
                    evidence: json::views(evidence@),
                }),
                marks,
                now@,
            ),
        decreases args.len() - i,
    {
        proof {
            assert(all[i as int] == args@[i as int]@);
        }
        let is_confidence = same(args[i].as_str(), "--confidence");
        let is_evidence = same(args[i].as_str(), "--evidence");
        if is_confidence && i + 1 < args.len() {
            proof {
                assert(all[i + 1] == args@[i + 1]@);
            }
            match parse_confidence(args[i + 1].as_str()) {
                Ok(number) => {
                    confidence = number;
                },
                Err(refusal) => {
                    proof {
                        assert(start == Err::<ReportParts, FaultV>(refusal@));
                    }
                    return Err(refusal);
                },
            }
            i = i + 2;
        } else if is_evidence && i + 1 < args.len() {
            proof {
                assert(all[i + 1] == args@[i + 1]@);
                assert(marks[i + 1] == tokens@[i + 1]@);
            }
            match parse_evidence(args[i + 1].as_str(), tokens[i + 1].as_str(), now) {
                Ok(piece) => {
                    proof {
                        json::lemma_views_push(evidence@, piece);
                    }
                    evidence.push(piece);
                },
                Err(refusal) => {
                    proof {
                        assert(start == Err::<ReportParts, FaultV>(refusal@));
                    }
                    return Err(refusal);
                },
            }
            i = i + 2;
        } else if is_confidence || is_evidence {
            return Err(Fault::about(FaultKind::MissingValue, args[i].as_str()));
        } else {
            let word = args[i].as_str().to_owned();
            let ghost before = words@;
            words.push(word);
            proof {
                assert(text::texts(words@) =~= text::texts(before).push(word@));
            }
            i = i + 1;
        }
    }
    let summary = trim(join(words.as_slice(), " ").as_str());
    if summary.as_str().is_empty() {
        return Err(Fault::plain(FaultKind::EmptySummary));
    }
    Ok(
        ReportArgs {
            project: args[0].as_str().to_owned(),
            status: args[1].as_str().to_owned(),
            summary,
            confidence,
            evidence,
        },
    )
}

/// Which claims are listed, and how.
pub struct ClaimsArgs {
    pub project: Option<String>,
    pub all: bool,
    pub json: bool,
}

/// Which claims are listed, and how.
pub struct ClaimsV {
    pub project: Option<Seq<char>>,
    pub all: bool,
    pub json: bool,
}

impl ClaimsArgs {
    pub open spec fn view(&self) -> ClaimsV {
        ClaimsV { project: text::opt_string(self.project), all: self.all, json: self.json }
    }
}

/// The arguments of `claims`: at most one project, and flags.
pub open spec fn claims_words(args: Words) -> Option<ClaimsV>
    decreases args.len(),
{
    if args.len() == 0 {
        Some(ClaimsV { project: None, all: false, json: false })
    } else {
        match claims_words(args.drop_last()) {
            None => None,
            Some(found) => if args.last() == "--all"@ {
                Some(ClaimsV { all: true, ..found })
            } else if args.last() == "--json"@ {
                Some(ClaimsV { json: true, ..found })
            } else if !text::has_prefix(args.last(), "--"@) && found.project is None {
                Some(ClaimsV { project: Some(args.last()), ..found })
            } else {
                None
            },
        }
    }
}

proof fn lemma_claims_refused(args: Words, n: int)
    requires
        0 <= n <= args.len(),
        claims_words(args.take(n)) is None,
    ensures
        claims_words(args) is None,
    decreases args.len() - n,
{
    if n < args.len() {
        assert(args.take(n + 1).drop_last() =~= args.take(n));
        lemma_claims_refused(args, n + 1);
    } else {
        assert(args.take(n) =~= args);
    }
}

/// Reads the arguments of `claims`.
pub fn claims_args(args: &[String]) -> (r: Result<ClaimsArgs, Fault>)
    ensures
        match r {
            Ok(given) => claims_words(text::texts(args@)) == Some(given@),
            Err(refusal) => claims_words(text::texts(args@)) is None && refusal@ == misused(),
        },
{
    let ghost words = text::texts(args@);
    let mut given = ClaimsArgs { project: None, all: false, json: false };
    let mut i: usize = 0;
    proof {
        assert(words.take(0).len() == 0);
    }
    while i < args.len()
        invariant
            i <= args.len(),
            words == text::texts(args@),
            claims_words(words.take(i as int)) == Some(given@),
        decreases args.len() - i,
    {
        let word = args[i].as_str();
        proof {
            assert(words.take(i + 1).drop_last() =~= words.take(i as int));
            assert(words.take(i + 1).last() == word@);
        }
        if same(word, "--all") {
            given.all = true;
        } else if same(word, "--json") {
            given.json = true;
        } else if !starts_with(word, "--") && given.project.is_none() {
            given.project = Some(word.to_owned());
        } else {
            proof {
                lemma_claims_refused(words, i + 1);
            }
            return Err(misuse());
        }
        i = i + 1;
    }
    proof {
        assert(words.take(i as int) =~= words);
    }
    Ok(given)
}

/// What is verified, and with which command.
pub struct VerifyArgs {
    pub project: String,
    pub claim_id: Option<String>,
    pub label: String,
    pub argv: Vec<String>,
}

/// What is verified, and with which command.
pub struct VerifyV {
    pub project: Seq<char>,
    pub claim_id: Option<Seq<char>>,
    pub label: Seq<char>,
    pub argv: Words,
}

impl VerifyArgs {
    pub open spec fn view(&self) -> VerifyV {
        VerifyV {
            project: self.project@,
            claim_id: text::opt_string(self.claim_id),
            label: self.label@,
            argv: text::texts(self.argv@),
        }
    }
}

/// The position of the first argument that equals `wanted`, or the number of
/// arguments.
pub open spec fn first_word(args: Words, wanted: Seq<char>) -> int
    decreases args.len(),
{
    if args.len() == 0 || args[0] == wanted {
        0
    } else {
        1 + first_word(args.drop_first(), wanted)
    }
}

proof fn lemma_first_word(args: Words, wanted: Seq<char>, at: int)
    requires
        0 <= at <= args.len(),
        at < args.len() ==> args[at] == wanted,
        forall|k: int| 0 <= k < at ==> #[trigger] args[k] != wanted,
    ensures
        first_word(args, wanted) == at,
    decreases args.len(),
{
    if at > 0 {
        assert(args[0] != wanted);
        let rest = args.drop_first();
        assert forall|k: int| 0 <= k < at - 1 implies #[trigger] rest[k] != wanted by {
            assert(rest[k] == args[k + 1]);
        }
        lemma_first_word(rest, wanted, at - 1);
    }
}

fn find_word(args: &[String], wanted: &str) -> (r: usize)
    ensures
        r == first_word(text::texts(args@), wanted@),
        r <= args@.len(),
{
    let ghost words = text::texts(args@);
    let mut i: usize = 0;
    while i < args.len()
        invariant
            i <= args.len(),
            words == text::texts(args@),
            forall|k: int| 0 <= k < i ==> #[trigger] words[k] != wanted@,
        decreases args.len() - i,
    {
        proof {
            assert(words[i as int] == args@[i as int]@);
        }
        if same(args[i].as_str(), wanted) {
            proof {
                lemma_first_word(words, wanted@, i as int);
            }
            return i;
        }
        i = i + 1;
    }
    proof {
        lemma_first_word(words, wanted@, i as int);
    }
    i
}

/// The claim and the label that options name, from the argument `i` on, behind
/// those that were found before; nothing where an argument is neither.
pub open spec fn verify_scan(
    args: Words,
    i: int,
    claim_id: Option<Seq<char>>,
    label: Seq<char>,
) -> Option<(Option<Seq<char>>, Seq<char>)>
    decreases args.len() - i,
{
    if i >= args.len() {
        Some((claim_id, label))
    } else if args[i] == "--claim"@ && i + 1 < args.len() {
        verify_scan(args, i + 2, Some(args[i + 1]), label)
    } else if args[i] == "--label"@ && i + 1 < args.len() {
        verify_scan(args, i + 2, claim_id, args[i + 1])
    } else {
        None
    }
}

/// The arguments of `verify`: a project and options, then a double hyphen, and
/// behind it the command.
pub open spec fn verify_words(args: Words) -> Option<VerifyV> {
    let at = first_word(args, "--"@);
    if at >= args.len() || at == 0 || at + 1 >= args.len() {
        None
    } else {
        match verify_scan(args.take(at), 1, None, "verification"@) {
            None => None,
            Some((claim_id, label)) => Some(
                VerifyV { project: args[0], claim_id, label, argv: args.skip(at + 1) },
            ),
        }
    }
}

pub(crate) fn copies(values: &[String]) -> (r: Vec<String>)
    ensures
        text::texts(r@) == text::texts(values@),
{
    let mut out: Vec<String> = Vec::new();
    let mut i: usize = 0;
    while i < values.len()
        invariant
            i <= values.len(),
            out@.len() == i,
            forall|k: int| 0 <= k < i ==> (#[trigger] out@[k])@ == values@[k]@,
        decreases values.len() - i,
    {
        out.push(values[i].as_str().to_owned());
        i = i + 1;
    }
    proof {
        assert(text::texts(out@) =~= text::texts(values@));
    }
    out
}

/// Reads the arguments of `verify`.
pub fn verify_args(args: &[String]) -> (r: Result<VerifyArgs, Fault>)
    ensures
        match r {
            Ok(given) => verify_words(text::texts(args@)) == Some(given@),
            Err(refusal) => verify_words(text::texts(args@)) is None && refusal@ == misused(),
        },
{
    let at: usize = find_word(args, "--");
    if at >= args.len() || at == 0 || at + 1 >= args.len() {
        return Err(misuse());
    }
    let ghost words = text::texts(args@);
    let ghost before = words.take(at as int);
    let mut claim_id: Option<String> = None;
    let mut label: String = "verification".to_owned();
    let mut i: usize = 1;
    while i < at
        invariant
            1 <= i <= at,
            at + 1 < args.len(),
            words == text::texts(args@),
            before == words.take(at as int),
            at == first_word(words, "--"@),
            verify_scan(before, 1, None, "verification"@) == verify_scan(
                before,
                i as int,
                text::opt_string(claim_id),
                label@,
            ),
        decreases at - i,
    {
        proof {
            assert(before[i as int] == args@[i as int]@);
        }
        if same(args[i].as_str(), "--claim") && i + 1 < at {
            proof {
                assert(before[i + 1] == args@[i + 1]@);
            }
            claim_id = Some(args[i + 1].as_str().to_owned());
            i = i + 2;
        } else if same(args[i].as_str(), "--label") && i + 1 < at {
            proof {
                assert(before[i + 1] == args@[i + 1]@);
            }
            label = args[i + 1].as_str().to_owned();
            i = i + 2;
        } else {
            return Err(misuse());
        }
    }
    let argv = copies(rest_of(args, at + 1));
    Ok(VerifyArgs { project: args[0].as_str().to_owned(), claim_id, label, argv })
}

/// What is accepted.
pub struct AcceptArgs {
    pub project: String,
    pub claim_id: Option<String>,
    pub note: String,
    pub force: bool,
}

/// What is accepted.
pub struct AcceptV {
    pub project: Seq<char>,
    pub claim_id: Option<Seq<char>>,
    pub note: Seq<char>,
    pub force: bool,
}

impl AcceptArgs {
    pub open spec fn view(&self) -> AcceptV {
        AcceptV {
            project: self.project@,
            claim_id: text::opt_string(self.claim_id),
            note: self.note@,
            force: self.force,
        }
    }
}

/// The options of an acceptance, from the argument `i` on, behind those that
/// were found before; nothing where an argument is none.
pub open spec fn accept_scan(args: Words, i: int, found: AcceptV) -> Option<AcceptV>
    decreases args.len() - i,
{
    if i >= args.len() {
        Some(found)
    } else if args[i] == "--claim"@ && i + 1 < args.len() {
        accept_scan(args, i + 2, AcceptV { claim_id: Some(args[i + 1]), ..found })
    } else if args[i] == "--note"@ && i + 1 < args.len() {
        accept_scan(args, i + 2, AcceptV { note: args[i + 1], ..found })
    } else if args[i] == "--force"@ {
        accept_scan(args, i + 1, AcceptV { force: true, ..found })
    } else {
        None
    }
}

/// The arguments of `accept`: a project and options; to force it takes a note.
pub open spec fn accept_words(args: Words) -> Result<AcceptV, FaultV> {
    if args.len() == 0 {
        Err(misused())
    } else {
        match accept_scan(
            args,
            1,
            AcceptV { project: args[0], claim_id: None, note: Seq::empty(), force: false },
        ) {
            None => Err(misused()),
            Some(found) => if found.force && found.note.len() == 0 {
                Err(fault::plain(FaultKind::ForceNeedsNote))
            } else {
                Ok(found)
            },
        }
    }
}

/// Reads the arguments of `accept`.
pub fn accept_args(args: &[String]) -> (r: Result<AcceptArgs, Fault>)
    ensures
        match r {
            Ok(given) => accept_words(text::texts(args@)) == Ok::<AcceptV, FaultV>(given@),
            Err(refusal) => accept_words(text::texts(args@)) == Err::<AcceptV, FaultV>(refusal@),
        },
{
    if args.len() == 0 {
        return Err(misuse());
    }
    let ghost words = text::texts(args@);
    let ghost start = accept_scan(
        words,
        1,
        AcceptV { project: words[0], claim_id: None, note: Seq::empty(), force: false },
    );
    let mut given = AcceptArgs {
        project: args[0].as_str().to_owned(),
        claim_id: None,
        note: String::new(),
        force: false,
    };
    let mut i: usize = 1;
    while i < args.len()
        invariant
            1 <= i <= args.len(),
            words == text::texts(args@),
            start == accept_scan(
                words,
                1,
                (AcceptV { project: words[0], claim_id: None, note: Seq::empty(), force: false }),
            ),
            start == accept_scan(words, i as int, given@),
        decreases args.len() - i,
    {
        proof {
            assert(words[i as int] == args@[i as int]@);
        }
        if same(args[i].as_str(), "--claim") && i + 1 < args.len() {
            proof {
                assert(words[i + 1] == args@[i + 1]@);
            }
            given.claim_id = Some(args[i + 1].as_str().to_owned());
            i = i + 2;
        } else if same(args[i].as_str(), "--note") && i + 1 < args.len() {
            proof {
                assert(words[i + 1] == args@[i + 1]@);
            }
            given.note = args[i + 1].as_str().to_owned();
            i = i + 2;
        } else if same(args[i].as_str(), "--force") {
            given.force = true;
            i = i + 1;
        } else {
            return Err(misuse());
        }
    }
    if given.force && given.note.as_str().is_empty() {
        return Err(Fault::plain(FaultKind::ForceNeedsNote));
    }
    Ok(given)
}

/// A flag that may stand alone among the arguments, and nothing else.
pub open spec fn sole_flag(args: Words, flag: Seq<char>) -> Option<bool> {
    if args.len() == 0 {
        Some(false)
    } else if args.len() == 1 && args[0] == flag {
        Some(true)
    } else {
        None
    }
}

/// Reads arguments that are at most one flag.
pub fn flag_args(args: &[String], flag: &str) -> (r: Result<bool, Fault>)
    ensures
        match r {
            Ok(set) => sole_flag(text::texts(args@), flag@) == Some(set),
            Err(refusal) => sole_flag(text::texts(args@), flag@) is None && refusal@ == misused(),
        },
{
    if args.len() == 0 {
        Ok(false)
    } else if args.len() == 1 && same(args[0].as_str(), flag) {
        Ok(true)
    } else {
        Err(misuse())
    }
}

/// A subject and the words behind it.
pub struct SayArgs {
    pub subject: String,
    pub words: String,
}

/// The arguments of a command that takes a subject and words, which must not
/// be empty.
pub open spec fn say_words(args: Words, empty: FaultKind) -> Result<(Seq<char>, Seq<char>), FaultV> {
    if args.len() < 2 {
        Err(misused())
    } else if phrase(args, 1).len() == 0 {
        Err(fault::plain(empty))
    } else {
        Ok((args[0], phrase(args, 1)))
    }
}

/// Reads the arguments of a command that takes a subject and words, which must
/// not be empty.
pub fn say_args(args: &[String], empty: FaultKind) -> (r: Result<SayArgs, Fault>)
    ensures
        match r {
            Ok(given) => say_words(text::texts(args@), empty) == Ok::<
                (Seq<char>, Seq<char>),
                FaultV,
            >((given.subject@, given.words@)),
            Err(refusal) => say_words(text::texts(args@), empty) == Err::<
                (Seq<char>, Seq<char>),
                FaultV,
            >(refusal@),
        },
{
    if args.len() < 2 {
        return Err(misuse());
    }
    let words = phrase_of(args, 1);
    if words.as_str().is_empty() {
        return Err(Fault::plain(empty));
    }
    Ok(SayArgs { subject: args[0].as_str().to_owned(), words })
}

/// The status that a project is set to, or the question that it asks instead.
pub enum StatusArgs {
    Report { project: String, status: String, note: String },
    Ask(AskArgs),
}

/// The status that a project is set to, or the question that it asks instead.
pub enum StatusV {
    Report { project: Seq<char>, status: Seq<char>, note: Seq<char> },
    Ask(AskV),
}

impl StatusArgs {
    pub open spec fn view(&self) -> StatusV {
        match self {
            StatusArgs::Report { project, status, note } => StatusV::Report {
                project: project@,
                status: status@,
                note: note@,
            },
            StatusArgs::Ask(asked) => StatusV::Ask(asked@),
        }
    }
}

/// The arguments of `set-status`: a project, a status and a note; to need a
/// decision is to ask the note.
pub open spec fn status_words(args: Words) -> Result<StatusV, FaultV> {
    if args.len() < 2 {
        Err(misused())
    } else if !records::is_status(args[1]) {
        Err(fault::plain(FaultKind::UnknownStatus))
    } else if args[1] == "need_decision"@ {
        if phrase(args, 2).len() == 0 {
            Err(fault::plain(FaultKind::StatusNeedsQuestion))
        } else {
            match ask_words(seq![args[0], phrase(args, 2)]) {
                Ok(asked) => Ok(StatusV::Ask(asked)),
                Err(reason) => Err(reason),
            }
        }
    } else {
        Ok(StatusV::Report { project: args[0], status: args[1], note: phrase(args, 2) })
    }
}

/// The question of a project, where its words are one text.
pub fn ask_directly(project: &str, question: &str) -> (r: Result<AskArgs, Fault>)
    ensures
        match r {
            Ok(given) => ask_words(seq![project@, question@]) == Ok::<AskV, FaultV>(given@),
            Err(refusal) => ask_words(seq![project@, question@]) == Err::<AskV, FaultV>(refusal@),
        },
{
    let mut both: Vec<String> = Vec::new();
    both.push(project.to_owned());
    both.push(question.to_owned());
    proof {
        assert(text::texts(both@) =~= seq![project@, question@]);
    }
    ask_args(both.as_slice())
}

/// Reads the arguments of `set-status`.
pub fn status_args(args: &[String]) -> (r: Result<StatusArgs, Fault>)
    ensures
        match r {
            Ok(given) => status_words(text::texts(args@)) == Ok::<StatusV, FaultV>(given@),
            Err(refusal) => status_words(text::texts(args@)) == Err::<StatusV, FaultV>(refusal@),
        },
{
    if args.len() < 2 {
        return Err(misuse());
    }
    let note = phrase_of(args, 2);
    let status = args[1].as_str();
    if !known_status(status) {
        return Err(Fault::plain(FaultKind::UnknownStatus));
    }
    if same(status, "need_decision") {
        if note.as_str().is_empty() {
            return Err(Fault::plain(FaultKind::StatusNeedsQuestion));
        }
        return match ask_directly(args[0].as_str(), note.as_str()) {
            Ok(asked) => Ok(StatusArgs::Ask(asked)),
            Err(refusal) => Err(refusal),
        };
    }
    Ok(
        StatusArgs::Report {
            project: args[0].as_str().to_owned(),
            status: status.to_owned(),
            note,
        },
    )
}

} // verus!
