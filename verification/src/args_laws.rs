//! What the arguments of the commands are for: every word and every option
//! with its value counts, in the order given, wherever it stands.
use vstd::prelude::*;
use crate::args::{AcceptV, AskV, RegisterV, ReportParts, ReportV, StatusV, VerifyV, Words};
use crate::args;
use crate::fault::{FaultKind, FaultV};
use crate::fault;
use crate::json::JsonV;
use crate::ledger;
use crate::outside;
use crate::state::Env;
use crate::state;
use crate::text;
use crate::text_laws;

verus! {

/// The words differ: in length, or in a letter.
proof fn lemma_options()
    ensures
        "--"@.len() == 2,
        "--all"@.len() == 5 && "--all"@[2] == 'a',
        "--cwd"@.len() == 5 && "--cwd"@[2] == 'c',
        "--tab"@.len() == 5 && "--tab"@[2] == 't',
        "--json"@.len() == 6 && "--json"@[2] == 'j',
        "--note"@.len() == 6 && "--note"@[2] == 'n',
        "--claim"@.len() == 7 && "--claim"@[2] == 'c',
        "--force"@.len() == 7 && "--force"@[2] == 'f',
        "--label"@.len() == 7 && "--label"@[2] == 'l',
        "--option"@.len() == 8,
        "--evidence"@.len() == 10,
        "--commander"@.len() == 11,
        "--confidence"@.len() == 12,
{
    reveal_strlit("--");
    reveal_strlit("--all");
    reveal_strlit("--cwd");
    reveal_strlit("--tab");
    reveal_strlit("--json");
    reveal_strlit("--note");
    reveal_strlit("--claim");
    reveal_strlit("--force");
    reveal_strlit("--label");
    reveal_strlit("--option");
    reveal_strlit("--evidence");
    reveal_strlit("--commander");
    reveal_strlit("--confidence");
}

/// The words differ: in length, or in a letter.
proof fn lemma_statuses()
    ensures
        "done"@.len() == 4 && "done"@[0] == 'd',
        "idle"@.len() == 4 && "idle"@[0] == 'i',
        "blocked"@.len() == 7 && "blocked"@[0] == 'b',
        "working"@.len() == 7 && "working"@[0] == 'w',
        "verification"@.len() == 12,
        "need_decision"@.len() == 13,
{
    reveal_strlit("done");
    reveal_strlit("idle");
    reveal_strlit("blocked");
    reveal_strlit("working");
    reveal_strlit("verification");
    reveal_strlit("need_decision");
}


/// A part of a command line: a word, or an option with its value.
pub enum Part {
    Word(Seq<char>),
    Pair(Seq<char>, Seq<char>),
}

/// The arguments that a part is written as.
pub open spec fn spelled(part: Part) -> Words {
    match part {
        Part::Word(word) => seq![word],
        Part::Pair(name, value) => seq![name, value],
    }
}

/// The arguments that parts are written as, one behind the other.
pub open spec fn line_of(parts: Seq<Part>) -> Words
    decreases parts.len(),
{
    if parts.len() == 0 {
        Seq::empty()
    } else {
        spelled(parts[0]) + line_of(parts.drop_first())
    }
}

/// The words among parts, in their order.
pub open spec fn words_of(parts: Seq<Part>) -> Words
    decreases parts.len(),
{
    if parts.len() == 0 {
        Seq::empty()
    } else {
        (match parts[0] {
            Part::Word(word) => seq![word],
            _ => Seq::empty(),
        }) + words_of(parts.drop_first())
    }
}

/// The values of an option among parts, in their order.
pub open spec fn values_of(parts: Seq<Part>, name: Seq<char>) -> Words
    decreases parts.len(),
{
    if parts.len() == 0 {
        Seq::empty()
    } else {
        (match parts[0] {
            Part::Pair(option, value) => if option == name {
                seq![value]
            } else {
                Seq::empty()
            },
            _ => Seq::empty(),
        }) + values_of(parts.drop_first(), name)
    }
}

/// The last value of an option, where it is given.
pub open spec fn last_of(parts: Seq<Part>, name: Seq<char>) -> Option<Seq<char>> {
    let values = values_of(parts, name);
    if values.len() > 0 {
        Some(values.last())
    } else {
        None
    }
}

/// Options of these names only, and words that are none of them.
pub open spec fn has_options(parts: Seq<Part>, names: Words) -> bool {
    forall|k: int|
        0 <= k < parts.len() ==> match #[trigger] parts[k] {
            Part::Word(word) => !names.contains(word),
            Part::Pair(name, _) => names.contains(name),
        }
}

proof fn lemma_rest(parts: Seq<Part>, names: Words)
    requires
        has_options(parts, names),
        parts.len() > 0,
    ensures
        has_options(parts.drop_first(), names),
{
    let rest = parts.drop_first();
    assert forall|k: int| 0 <= k < rest.len() implies match #[trigger] rest[k] {
        Part::Word(word) => !names.contains(word),
        Part::Pair(name, _) => names.contains(name),
    } by {
        assert(rest[k] == parts[k + 1]);
    }
}

/// The arguments of a part stand where the line is read.
proof fn lemma_next(args: Words, i: int, parts: Seq<Part>, tail: Words)
    requires
        0 <= i <= args.len(),
        args.skip(i) == line_of(parts) + tail,
        parts.len() > 0,
    ensures
        match parts[0] {
            Part::Word(word) => i < args.len() && args[i] == word && args.skip(i + 1) == line_of(
                parts.drop_first(),
            ) + tail,
            Part::Pair(name, value) => i + 1 < args.len() && args[i] == name && args[i + 1]
                == value && args.skip(i + 2) == line_of(parts.drop_first()) + tail,
        },
{
    let rest = line_of(parts.drop_first());
    let whole = args.skip(i);
    match parts[0] {
        Part::Word(word) => {
            assert(whole[0] == word);
            assert(whole.skip(1) =~= rest + tail);
            assert(args.skip(i + 1) =~= whole.skip(1));
        },
        Part::Pair(name, value) => {
            assert(whole[0] == name && whole[1] == value);
            assert(whole.skip(2) =~= rest + tail);
            assert(args.skip(i + 2) =~= whole.skip(2));
        },
    }
}

/// A list of names holds its names.
proof fn lemma_two(names: Words, first: Seq<char>, second: Seq<char>)
    requires
        names == seq![first, second],
    ensures
        names.contains(first),
        names.contains(second),
        forall|name: Seq<char>| #[trigger]
            names.contains(name) ==> name == first || name == second,
{
    assert(names[0] == first && names[1] == second);
}

/// The options of a report.
pub open spec fn report_options() -> Words {
    seq!["--confidence"@, "--evidence"@]
}

/// Every option of a report can be taken: each confidence is one, and each
/// piece of evidence has a value.
pub open spec fn is_taken(parts: Seq<Part>) -> bool {
    forall|k: int|
        0 <= k < parts.len() ==> match #[trigger] parts[k] {
            Part::Pair(name, value) => {
                &&& name == "--confidence"@ ==> args::confidence_of(value) is Ok
                &&& name == "--evidence"@ ==> ledger::evidence_outcome(
                    value,
                    Seq::empty(),
                    Seq::empty(),
                ) is Ok
            },
            _ => true,
        }
}

/// A piece of evidence was made of an argument of the line.
pub open spec fn is_piece(
    piece: JsonV,
    value: Seq<char>,
    args: Words,
    tokens: Words,
    now: Seq<char>,
) -> bool {
    exists|j: int|
        0 <= j < args.len() && #[trigger] args[j] == value && ledger::evidence_outcome(
            value,
            tokens[j],
            now,
        ) == Ok::<JsonV, FaultV>(piece)
}

/// What the parts of a report come to.
pub open spec fn is_read(
    before: ReportParts,
    after: ReportParts,
    parts: Seq<Part>,
    args: Words,
    tokens: Words,
    now: Seq<char>,
) -> bool {
    let values = values_of(parts, "--evidence"@);
    &&& after.words == before.words + words_of(parts)
    &&& after.confidence == (match last_of(parts, "--confidence"@) {
        Some(value) => args::confidence_of(value)->Ok_0,
        None => before.confidence,
    })
    &&& after.evidence.len() == before.evidence.len() + values.len()
    &&& before.evidence.is_prefix_of(after.evidence)
    &&& forall|k: int|
        0 <= k < values.len() ==> is_piece(
            #[trigger] after.evidence[before.evidence.len() + k],
            values[k],
            args,
            tokens,
            now,
        )
}

proof fn lemma_report_scan(
    args: Words,
    i: int,
    parts: Seq<Part>,
    tail: Words,
    acc: ReportParts,
    tokens: Words,
    now: Seq<char>,
) -> (after: ReportParts)
    requires
        0 <= i <= args.len(),
        args.skip(i) == line_of(parts) + tail,
        has_options(parts, report_options()),
        is_taken(parts),
    ensures
        is_read(acc, after, parts, args, tokens, now),
        args::report_scan(args, i, acc, tokens, now) == args::report_scan(
            args,
            args.len() - tail.len(),
            after,
            tokens,
            now,
        ),
    decreases parts.len(),
{
    lemma_options();
    lemma_two(report_options(), "--confidence"@, "--evidence"@);
    if parts.len() == 0 {
        assert(args.skip(i) =~= tail);
        assert(acc.words + words_of(parts) =~= acc.words);
        acc
    } else {
        let rest = parts.drop_first();
        lemma_next(args, i, parts, tail);
        lemma_rest(parts, report_options());
        assert(is_taken(rest)) by {
            assert forall|k: int| 0 <= k < rest.len() implies match #[trigger] rest[k] {
                Part::Pair(name, value) => {
                    &&& name == "--confidence"@ ==> args::confidence_of(value) is Ok
                    &&& name == "--evidence"@ ==> ledger::evidence_outcome(
                        value,
                        Seq::empty(),
                        Seq::empty(),
                    ) is Ok
                },
                _ => true,
            } by {
                assert(rest[k] == parts[k + 1]);
            }
        }
        let first = parts[0];
        let values = values_of(parts, "--evidence"@);
        let others = values_of(rest, "--evidence"@);
        let given = values_of(parts, "--confidence"@);
        let more = values_of(rest, "--confidence"@);
        match first {
            Part::Word(word) => {
                let next = ReportParts { words: acc.words.push(word), ..acc };
                let after = lemma_report_scan(args, i + 1, rest, tail, next, tokens, now);
                assert(values =~= others);
                assert(given =~= more);
                assert(acc.words + words_of(parts) =~= next.words + words_of(rest));
                assert forall|k: int| 0 <= k < values.len() implies is_piece(
                    #[trigger] after.evidence[acc.evidence.len() + k],
                    values[k],
                    args,
                    tokens,
                    now,
                ) by {}
                after
            },
            Part::Pair(name, value) => {
                if name == "--confidence"@ {
                    let next = ReportParts {
                        confidence: args::confidence_of(value)->Ok_0,
                        ..acc
                    };
                    let after = lemma_report_scan(args, i + 2, rest, tail, next, tokens, now);
                    assert(values =~= others);
                    assert(given =~= seq![value] + more);
                    assert(acc.words + words_of(parts) =~= next.words + words_of(rest));
                    if more.len() > 0 {
                        assert(given.last() == more.last());
                    } else {
                        assert(given.last() == value);
                    }
                    after
                } else {
                    let piece = ledger::evidence_outcome(value, tokens[i + 1], now)->Ok_0;
                    let next = ReportParts { evidence: acc.evidence.push(piece), ..acc };
                    let after = lemma_report_scan(args, i + 2, rest, tail, next, tokens, now);
                    assert(values =~= seq![value] + others);
                    assert(given =~= more);
                    assert(acc.words + words_of(parts) =~= next.words + words_of(rest));
                    let at = acc.evidence.len() as int;
                    assert(next.evidence[at] == piece);
                    assert(after.evidence[at] == piece);
                    assert(args[i + 1] == value);
                    assert(is_piece(piece, value, args, tokens, now));
                    assert forall|k: int| 0 <= k < values.len() implies is_piece(
                        #[trigger] after.evidence[acc.evidence.len() + k],
                        values[k],
                        args,
                        tokens,
                        now,
                    ) by {
                        if k > 0 {
                            assert(values[k] == others[k - 1]);
                            assert(is_piece(
                                after.evidence[next.evidence.len() + (k - 1)],
                                others[k - 1],
                                args,
                                tokens,
                                now,
                            ));
                        } else {
                            assert(values[0] == value);
                        }
                    }
                    assert(acc.evidence.is_prefix_of(after.evidence)) by {
                        assert forall|k: int| 0 <= k < acc.evidence.len() implies
                            acc.evidence[k] == after.evidence[k] by {
                            assert(next.evidence[k] == acc.evidence[k]);
                        }
                        assert(acc.evidence =~= after.evidence.subrange(
                            0,
                            acc.evidence.len() as int,
                        ));
                    }
                    after
                }
            },
        }
    }
}

/// A status that can be reported or asked for.
pub open spec fn is_known(status: Seq<char>) -> bool {
    status == "working"@ || status == "idle"@ || status == "done"@ || status == "blocked"@
        || status == "need_decision"@
}

/// A report carries what its arguments say, in whatever order words and options
/// stand: the words are its summary, each `--evidence` with a value is one
/// piece of evidence in the order given, and the last `--confidence` is its
/// confidence.
pub proof fn law_report_carries_its_arguments(
    project: Seq<char>,
    status: Seq<char>,
    parts: Seq<Part>,
    tokens: Words,
    now: Seq<char>,
)
    requires
        parts.len() > 0,
        has_options(parts, report_options()),
        is_taken(parts),
    ensures
        ({
            let args = seq![project, status] + line_of(parts);
            let given = args::report_words(args, tokens, now);
            let summary = text::trimmed(text::joined(words_of(parts), " "@));
            let values = values_of(parts, "--evidence"@);
            &&& !is_known(status) ==> given == Err::<ReportV, FaultV>(
                fault::plain(FaultKind::UnknownStatus),
            )
            &&& is_known(status) && summary.len() == 0 ==> given == Err::<ReportV, FaultV>(
                fault::plain(FaultKind::EmptySummary),
            )
            &&& is_known(status) && summary.len() > 0 ==> {
                let report = given->Ok_0;
                &&& given is Ok
                &&& report.project == project
                &&& report.status == status
                &&& report.summary == summary
                &&& report.confidence == (match last_of(parts, "--confidence"@) {
                    Some(value) => args::confidence_of(value)->Ok_0,
                    None => JsonV::Null,
                })
                &&& report.evidence.len() == values.len()
                &&& forall|k: int|
                    0 <= k < values.len() ==> is_piece(
                        #[trigger] report.evidence[k],
                        values[k],
                        args,
                        tokens,
                        now,
                    )
            }
        }),
{
    lemma_statuses();
    let args = seq![project, status] + line_of(parts);
    let none = ReportParts {
        words: Seq::empty(),
        confidence: JsonV::Null,
        evidence: Seq::empty(),
    };
    lemma_line_length(parts);
    assert(args[0] == project && args[1] == status);
    assert(args.skip(2) =~= line_of(parts) + Seq::<Seq<char>>::empty());
    let after = lemma_report_scan(args, 2, parts, Seq::empty(), none, tokens, now);
    assert(none.words + words_of(parts) =~= words_of(parts));
    let values = values_of(parts, "--evidence"@);
    assert forall|k: int| 0 <= k < values.len() implies is_piece(
        #[trigger] after.evidence[k],
        values[k],
        args,
        tokens,
        now,
    ) by {
        assert(after.evidence[none.evidence.len() + k] == after.evidence[k]);
    }
}

proof fn lemma_line_length(parts: Seq<Part>)
    ensures
        line_of(parts).len() >= parts.len(),
    decreases parts.len(),
{
    if parts.len() > 0 {
        lemma_line_length(parts.drop_first());
    }
}

/// A report is refused where an option lacks its value, a piece of evidence has
/// none to show, or a confidence is none: with the first such option, whatever
/// comes behind it.
pub proof fn law_report_is_refused_at_its_first_fault(
    project: Seq<char>,
    status: Seq<char>,
    parts: Seq<Part>,
    value: Seq<char>,
    tail: Words,
    tokens: Words,
    now: Seq<char>,
)
    requires
        is_known(status),
        has_options(parts, report_options()),
        is_taken(parts),
    ensures
        ({
            let start = seq![project, status] + line_of(parts);
            let read = |more: Words| args::report_words(start + more, tokens, now);
            let judged = ledger::evidence_outcome(value, Seq::empty(), Seq::empty());
            &&& read(seq!["--evidence"@]) == Err::<ReportV, FaultV>(
                fault::about(FaultKind::MissingValue, "--evidence"@),
            )
            &&& read(seq!["--confidence"@]) == Err::<ReportV, FaultV>(
                fault::about(FaultKind::MissingValue, "--confidence"@),
            )
            &&& judged is Err ==> read(seq!["--evidence"@, value] + tail) == Err::<
                ReportV,
                FaultV,
            >(judged->Err_0)
            &&& args::confidence_of(value) is Err ==> read(
                seq!["--confidence"@, value] + tail,
            ) == Err::<ReportV, FaultV>(args::confidence_of(value)->Err_0)
        }),
{
    lemma_options();
    lemma_statuses();
    let start = seq![project, status] + line_of(parts);
    let none = ReportParts {
        words: Seq::empty(),
        confidence: JsonV::Null,
        evidence: Seq::empty(),
    };
    let ends = seq![
        seq!["--evidence"@],
        seq!["--confidence"@],
        seq!["--evidence"@, value] + tail,
        seq!["--confidence"@, value] + tail,
    ];
    assert forall|n: int| 0 <= n < 4 implies {
        let args = start + #[trigger] ends[n];
        &&& args.len() >= 3
        &&& args[0] == project
        &&& args[1] == status
        &&& args.len() - ends[n].len() == start.len()
        &&& args[start.len() as int] == ends[n][0]
        &&& (n >= 2 ==> args[(start.len() + 1) as int] == value)
        &&& exists|after: ReportParts|
            args::report_scan(args, 2, none, tokens, now) == #[trigger] args::report_scan(
                args,
                start.len() as int,
                after,
                tokens,
                now,
            )
    } by {
        let args = start + ends[n];
        assert(args.skip(2) =~= line_of(parts) + ends[n]);
        let after = lemma_report_scan(args, 2, parts, ends[n], none, tokens, now);
        assert(args.len() - ends[n].len() == start.len());
    }
    assert(start + ends[0] == start + seq!["--evidence"@]);
    assert(start + ends[1] == start + seq!["--confidence"@]);
    assert(start + ends[2] == start + (seq!["--evidence"@, value] + tail));
    assert(start + ends[3] == start + (seq!["--confidence"@, value] + tail));
}

/// The options of a question.
pub open spec fn ask_options() -> Words {
    seq!["--option"@]
}

proof fn lemma_ask_scan(
    args: Words,
    i: int,
    parts: Seq<Part>,
    tail: Words,
    words: Words,
    options: Words,
)
    requires
        0 <= i <= args.len(),
        args.skip(i) == line_of(parts) + tail,
        has_options(parts, ask_options()),
    ensures
        args::ask_scan(args, i, words, options) == args::ask_scan(
            args,
            args.len() - tail.len(),
            words + words_of(parts),
            options + values_of(parts, "--option"@),
        ),
    decreases parts.len(),
{
    assert(ask_options()[0] == "--option"@);
    assert(ask_options().contains("--option"@));
    let values = values_of(parts, "--option"@);
    if parts.len() == 0 {
        assert(args.skip(i) =~= tail);
        assert(words + words_of(parts) =~= words);
        assert(options + values =~= options);
    } else {
        let rest = parts.drop_first();
        lemma_next(args, i, parts, tail);
        lemma_rest(parts, ask_options());
        match parts[0] {
            Part::Word(word) => {
                lemma_ask_scan(args, i + 1, rest, tail, words.push(word), options);
                assert(words + words_of(parts) =~= words.push(word) + words_of(rest));
                assert(values =~= values_of(rest, "--option"@));
            },
            Part::Pair(name, value) => {
                lemma_ask_scan(args, i + 2, rest, tail, words, options.push(value));
                assert(words_of(parts) =~= words_of(rest));
                assert(options + values =~= options.push(value) + values_of(
                    rest,
                    "--option"@,
                ));
            },
        }
    }
}

/// A question carries what its arguments say: the words are the question, and
/// each `--option` with a value is one option in the order given. One without a
/// value is refused, and so is a question without words.
pub proof fn law_question_carries_its_arguments(project: Seq<char>, parts: Seq<Part>)
    requires
        parts.len() > 0,
        has_options(parts, ask_options()),
    ensures
        ({
            let line = seq![project] + line_of(parts);
            let question = text::trimmed(text::joined(words_of(parts), " "@));
            &&& question.len() > 0 ==> args::ask_words(line) == Ok::<AskV, FaultV>(
                AskV { project, question, options: values_of(parts, "--option"@) },
            )
            &&& question.len() == 0 ==> args::ask_words(line) == Err::<AskV, FaultV>(
                fault::plain(FaultKind::EmptyQuestion),
            )
            &&& args::ask_words(line.push("--option"@)) == Err::<AskV, FaultV>(
                fault::plain(FaultKind::MissingOption),
            )
        }),
{
    let line = seq![project] + line_of(parts);
    let open = line.push("--option"@);
    let none = Seq::<Seq<char>>::empty();
    lemma_line_length(parts);
    assert(line.skip(1) =~= line_of(parts) + none);
    lemma_ask_scan(line, 1, parts, none, none, none);
    assert(none + words_of(parts) =~= words_of(parts));
    assert(none + values_of(parts, "--option"@) =~= values_of(parts, "--option"@));
    assert(open.skip(1) =~= line_of(parts) + seq!["--option"@]);
    lemma_ask_scan(open, 1, parts, seq!["--option"@], none, none);
    assert(open[open.len() - 1] == "--option"@);
}

/// The options of a verification, before its command.
pub open spec fn verify_options() -> Words {
    seq!["--claim"@, "--label"@]
}

/// Options only, and none of their values stands for the end of options.
pub open spec fn are_pairs(parts: Seq<Part>, names: Words) -> bool {
    forall|k: int|
        0 <= k < parts.len() ==> match #[trigger] parts[k] {
            Part::Word(_) => false,
            Part::Pair(name, value) => names.contains(name) && value != "--"@,
        }
}

proof fn lemma_pairs_rest(parts: Seq<Part>, names: Words)
    requires
        are_pairs(parts, names),
        parts.len() > 0,
    ensures
        are_pairs(parts.drop_first(), names),
        parts[0] is Pair,
{
    let rest = parts.drop_first();
    assert forall|k: int| 0 <= k < rest.len() implies match #[trigger] rest[k] {
        Part::Word(_) => false,
        Part::Pair(name, value) => names.contains(name) && value != "--"@,
    } by {
        assert(rest[k] == parts[k + 1]);
    }
    assert(match parts[0] {
        Part::Word(_) => false,
        Part::Pair(name, value) => names.contains(name) && value != "--"@,
    });
}

proof fn lemma_verify_scan(
    args: Words,
    i: int,
    parts: Seq<Part>,
    tail: Words,
    claim: Option<Seq<char>>,
    label: Seq<char>,
)
    requires
        0 <= i <= args.len(),
        args.skip(i) == line_of(parts) + tail,
        are_pairs(parts, verify_options()),
    ensures
        args::verify_scan(args, i, claim, label) == args::verify_scan(
            args,
            args.len() - tail.len(),
            match last_of(parts, "--claim"@) {
                Some(id) => Some(id),
                None => claim,
            },
            match last_of(parts, "--label"@) {
                Some(name) => name,
                None => label,
            },
        ),
    decreases parts.len(),
{
    lemma_options();
    lemma_two(verify_options(), "--claim"@, "--label"@);
    if parts.len() == 0 {
        assert(args.skip(i) =~= tail);
    } else {
        let rest = parts.drop_first();
        lemma_next(args, i, parts, tail);
        lemma_pairs_rest(parts, verify_options());
        let claims = values_of(parts, "--claim"@);
        let labels = values_of(parts, "--label"@);
        match parts[0] {
            Part::Pair(name, value) => {
                if name == "--claim"@ {
                    lemma_verify_scan(args, i + 2, rest, tail, Some(value), label);
                    assert(claims =~= seq![value] + values_of(rest, "--claim"@));
                    assert(labels =~= values_of(rest, "--label"@));
                } else {
                    lemma_verify_scan(args, i + 2, rest, tail, claim, value);
                    assert(claims =~= values_of(rest, "--claim"@));
                    assert(labels =~= seq![value] + values_of(rest, "--label"@));
                }
            },
            _ => {},
        }
    }
}

proof fn lemma_no_dashes(parts: Seq<Part>, names: Words)
    requires
        are_pairs(parts, names),
        !names.contains("--"@),
    ensures
        !line_of(parts).contains("--"@),
    decreases parts.len(),
{
    if parts.len() > 0 {
        lemma_pairs_rest(parts, names);
        lemma_no_dashes(parts.drop_first(), names);
        let line = line_of(parts);
        let rest = line_of(parts.drop_first());
        match parts[0] {
            Part::Pair(name, value) => {
                if line.contains("--"@) {
                    let k = choose|k: int| 0 <= k < line.len() && line[k] == "--"@;
                    if k >= 2 {
                        assert(rest[k - 2] == line[k]);
                    } else {
                        assert(line[0] == name && line[1] == value);
                    }
                }
            },
            _ => {},
        }
    }
}

proof fn lemma_first_word(args: Words, wanted: Seq<char>, at: int)
    requires
        0 <= at <= args.len(),
        forall|k: int| 0 <= k < at ==> #[trigger] args[k] != wanted,
        at < args.len() ==> args[at] == wanted,
    ensures
        args::first_word(args, wanted) == at,
    decreases args.len(),
{
    if at > 0 {
        let rest = args.drop_first();
        assert(args[0] != wanted);
        assert forall|k: int| 0 <= k < at - 1 implies #[trigger] rest[k] != wanted by {
            assert(rest[k] == args[k + 1]);
        }
        lemma_first_word(rest, wanted, at - 1);
    }
}

/// A verification carries what its arguments say: the claim and the label that
/// were given last before the dashes, and behind them the whole command as it
/// stands. Without dashes or without a command it is refused.
pub proof fn law_verification_carries_its_arguments(
    project: Seq<char>,
    parts: Seq<Part>,
    argv: Words,
)
    requires
        project != "--"@,
        are_pairs(parts, verify_options()),
    ensures
        ({
            let head = seq![project] + line_of(parts);
            &&& argv.len() > 0 ==> args::verify_words(head + seq!["--"@] + argv) == Some(
                VerifyV {
                    project,
                    claim_id: last_of(parts, "--claim"@),
                    label: match last_of(parts, "--label"@) {
                        Some(label) => label,
                        None => "verification"@,
                    },
                    argv,
                },
            )
            &&& args::verify_words(head + seq!["--"@]) is None
            &&& args::verify_words(head) is None
        }),
{
    lemma_options();
    lemma_two(verify_options(), "--claim"@, "--label"@);
    let head = seq![project] + line_of(parts);
    lemma_no_dashes(parts, verify_options());
    assert forall|k: int| 0 <= k < head.len() implies #[trigger] head[k] != "--"@ by {
        if k > 0 {
            assert(head[k] == line_of(parts)[k - 1]);
            assert(line_of(parts).contains(head[k]));
        }
    }
    let at = head.len() as int;
    let none = Seq::<Seq<char>>::empty();
    assert(head.skip(1) =~= line_of(parts) + none);
    lemma_verify_scan(head, 1, parts, none, None, "verification"@);
    let whole = head + seq!["--"@] + argv;
    assert(whole[at] == "--"@);
    assert forall|k: int| 0 <= k < at implies #[trigger] whole[k] != "--"@ by {
        assert(whole[k] == head[k]);
    }
    lemma_first_word(whole, "--"@, at);
    assert(whole.take(at) =~= head);
    assert(whole.skip(at + 1) =~= argv);
    let bare = head + seq!["--"@];
    assert forall|k: int| 0 <= k < at implies #[trigger] bare[k] != "--"@ by {
        assert(bare[k] == head[k]);
    }
    lemma_first_word(bare, "--"@, at);
    lemma_first_word(head, "--"@, at);
}

/// The options of an acceptance that have a value.
pub open spec fn accept_options() -> Words {
    seq!["--claim"@, "--note"@]
}

/// Options with values, and the word that forces.
pub open spec fn accepts(parts: Seq<Part>) -> bool {
    forall|k: int|
        0 <= k < parts.len() ==> match #[trigger] parts[k] {
            Part::Word(word) => word == "--force"@,
            Part::Pair(name, _) => accept_options().contains(name),
        }
}

proof fn lemma_accept_scan(args: Words, i: int, parts: Seq<Part>, found: AcceptV)
    requires
        0 <= i <= args.len(),
        args.skip(i) == line_of(parts),
        accepts(parts),
    ensures
        args::accept_scan(args, i, found) == Some(
            AcceptV {
                project: found.project,
                claim_id: match last_of(parts, "--claim"@) {
                    Some(id) => Some(id),
                    None => found.claim_id,
                },
                note: match last_of(parts, "--note"@) {
                    Some(note) => note,
                    None => found.note,
                },
                force: found.force || words_of(parts).len() > 0,
            },
        ),
    decreases parts.len(),
{
    lemma_options();
    lemma_two(accept_options(), "--claim"@, "--note"@);
    let none = Seq::<Seq<char>>::empty();
    assert(line_of(parts) + none =~= line_of(parts));
    if parts.len() > 0 {
        let rest = parts.drop_first();
        lemma_next(args, i, parts, none);
        assert(line_of(rest) + none =~= line_of(rest));
        assert(accepts(rest)) by {
            assert forall|k: int| 0 <= k < rest.len() implies match #[trigger] rest[k] {
                Part::Word(word) => word == "--force"@,
                Part::Pair(name, _) => accept_options().contains(name),
            } by {
                assert(rest[k] == parts[k + 1]);
            }
        }
        let claims = values_of(parts, "--claim"@);
        let notes = values_of(parts, "--note"@);
        match parts[0] {
            Part::Word(word) => {
                lemma_accept_scan(args, i + 1, rest, AcceptV { force: true, ..found });
                assert(claims =~= values_of(rest, "--claim"@));
                assert(notes =~= values_of(rest, "--note"@));
            },
            Part::Pair(name, value) => {
                if name == "--claim"@ {
                    lemma_accept_scan(
                        args,
                        i + 2,
                        rest,
                        AcceptV { claim_id: Some(value), ..found },
                    );
                    assert(claims =~= seq![value] + values_of(rest, "--claim"@));
                    assert(notes =~= values_of(rest, "--note"@));
                } else {
                    lemma_accept_scan(args, i + 2, rest, AcceptV { note: value, ..found });
                    assert(claims =~= values_of(rest, "--claim"@));
                    assert(notes =~= seq![value] + values_of(rest, "--note"@));
                }
                assert(words_of(parts) =~= words_of(rest));
            },
        }
    }
}

/// An acceptance carries what its arguments say: the claim and the note that
/// were given last, and whether it is forced; forced without a note it is
/// refused.
pub proof fn law_acceptance_carries_its_arguments(project: Seq<char>, parts: Seq<Part>)
    requires
        accepts(parts),
    ensures
        ({
            let given = args::accept_words(seq![project] + line_of(parts));
            let forced = words_of(parts).len() > 0;
            let note = match last_of(parts, "--note"@) {
                Some(note) => note,
                None => Seq::empty(),
            };
            &&& forced && note.len() == 0 ==> given == Err::<AcceptV, FaultV>(
                fault::plain(FaultKind::ForceNeedsNote),
            )
            &&& !forced || note.len() > 0 ==> given == Ok::<AcceptV, FaultV>(
                AcceptV {
                    project,
                    claim_id: last_of(parts, "--claim"@),
                    note,
                    force: forced,
                },
            )
        }),
{
    let args = seq![project] + line_of(parts);
    assert(args.skip(1) =~= line_of(parts));
    lemma_accept_scan(
        args,
        1,
        parts,
        AcceptV { project, claim_id: None, note: Seq::empty(), force: false },
    );
}

/// Pairs of option and value, whatever their names are.
pub open spec fn all_pairs(parts: Seq<Part>) -> bool {
    forall|k: int| 0 <= k < parts.len() ==> (#[trigger] parts[k]) is Pair
}

proof fn lemma_pairs_of(parts: Seq<Part>, name: Seq<char>)
    requires
        all_pairs(parts),
    ensures
        line_of(parts).len() == 2 * parts.len(),
        args::pairs_of(line_of(parts)).contains_key(name) <==> last_of(parts, name) is Some,
        last_of(parts, name) is Some ==> args::pairs_of(line_of(parts))[name] == last_of(
            parts,
            name,
        )->0,
    decreases parts.len(),
{
    if parts.len() > 0 {
        let fewer = parts.drop_last();
        let last = parts.last();
        assert forall|k: int| 0 <= k < fewer.len() implies (#[trigger] fewer[k]) is Pair by {
            assert(fewer[k] == parts[k]);
        }
        assert(parts[parts.len() - 1] is Pair);
        lemma_pairs_of(fewer, name);
        lemma_line_last(parts);
        lemma_values_last(parts, name);
        match last {
            Part::Pair(option, value) => {
                let line = line_of(parts);
                assert(line =~= line_of(fewer) + seq![option, value]);
                assert(line.take(line.len() - 2) =~= line_of(fewer));
                assert(line[line.len() - 2] == option && line[line.len() - 1] == value);
            },
            _ => {},
        }
    }
}

proof fn lemma_line_last(parts: Seq<Part>)
    requires
        parts.len() > 0,
    ensures
        line_of(parts) == line_of(parts.drop_last()) + spelled(parts.last()),
    decreases parts.len(),
{
    if parts.len() == 1 {
        assert(parts.drop_first() =~= Seq::<Part>::empty());
        assert(parts.drop_last() =~= Seq::<Part>::empty());
        assert(line_of(parts.drop_first()) =~= Seq::<Seq<char>>::empty());
        assert(line_of(parts) =~= spelled(parts[0]));
        assert(line_of(parts.drop_last()) + spelled(parts.last()) =~= spelled(parts[0]));
    } else {
        let rest = parts.drop_first();
        lemma_line_last(rest);
        assert(rest.drop_last() =~= parts.drop_last().drop_first());
        assert(line_of(parts) =~= line_of(parts.drop_last()) + spelled(parts.last()));
    }
}

proof fn lemma_values_last(parts: Seq<Part>, name: Seq<char>)
    requires
        parts.len() > 0,
        parts.last() is Pair,
    ensures
        values_of(parts, name) == values_of(parts.drop_last(), name) + (if parts.last()->Pair_0
            == name {
            seq![parts.last()->Pair_1]
        } else {
            Seq::empty()
        }),
    decreases parts.len(),
{
    if parts.len() == 1 {
        assert(parts.drop_first() =~= Seq::<Part>::empty());
        assert(parts.drop_last() =~= Seq::<Part>::empty());
        assert(values_of(parts.drop_first(), name) =~= Seq::<Seq<char>>::empty());
        assert(values_of(parts, name) =~= values_of(parts.drop_last(), name) + (
        if parts.last()->Pair_0 == name {
            seq![parts.last()->Pair_1]
        } else {
            Seq::empty()
        }));
    } else {
        let rest = parts.drop_first();
        lemma_values_last(rest, name);
        assert(rest.drop_last() =~= parts.drop_last().drop_first());
        assert(values_of(parts, name) =~= values_of(parts.drop_last(), name) + (
        if parts.last()->Pair_0 == name {
            seq![parts.last()->Pair_1]
        } else {
            Seq::empty()
        }));
    }
}

/// A registration carries what its arguments say: tab, commander and directory
/// as they were given last, in whatever order. Where one of them is missing or
/// empty it is refused.
pub proof fn law_registration_carries_its_arguments(project: Seq<char>, parts: Seq<Part>)
    requires
        all_pairs(parts),
    ensures
        ({
            let given = args::register_words(seq![project] + line_of(parts));
            let tab = last_of(parts, "--tab"@);
            let commander = last_of(parts, "--commander"@);
            let cwd = last_of(parts, "--cwd"@);
            let complete = parts.len() >= 3 && tab is Some && tab->0.len() > 0 && commander is Some
                && commander->0.len() > 0 && cwd is Some && cwd->0.len() > 0;
            &&& complete ==> given == Some(
                RegisterV { project, tab: tab->0, commander: commander->0, cwd: cwd->0 },
            )
            &&& !complete ==> given is None
        }),
{
    let args = seq![project] + line_of(parts);
    assert(args.skip(1) =~= line_of(parts));
    lemma_pairs_of(parts, "--tab"@);
    lemma_pairs_of(parts, "--commander"@);
    lemma_pairs_of(parts, "--cwd"@);
}

/// A status carries what its arguments say: the words behind it are its note;
/// `need_decision` asks a question in those words instead, and is refused
/// without them.
pub proof fn law_status_carries_its_arguments(
    project: Seq<char>,
    status: Seq<char>,
    words: Words,
)
    ensures
        ({
            let given = args::status_words(seq![project, status] + words);
            let note = text::trimmed(text::joined(words, " "@));
            &&& !is_known(status) ==> given == Err::<StatusV, FaultV>(
                fault::plain(FaultKind::UnknownStatus),
            )
            &&& is_known(status) && status != "need_decision"@ ==> given == Ok::<StatusV, FaultV>(
                StatusV::Report { project, status, note },
            )
            &&& status == "need_decision"@ && note.len() == 0 ==> given == Err::<StatusV, FaultV>(
                fault::plain(FaultKind::StatusNeedsQuestion),
            )
            &&& status == "need_decision"@ && note.len() > 0 && note != "--option"@ ==> given
                == Ok::<StatusV, FaultV>(
                StatusV::Ask(AskV { project, question: note, options: Seq::empty() }),
            )
        }),
{
    lemma_statuses();
    let args = seq![project, status] + words;
    let note = text::trimmed(text::joined(words, " "@));
    assert(args.skip(2) =~= words);
    text_laws::law_trimmed_is_bare(text::joined(words, " "@));
    let parts = seq![Part::Word(note)];
    if note != "--option"@ {
        assert(ask_options() =~= seq!["--option"@]);
        assert(has_options(parts, ask_options())) by {
            assert forall|k: int| 0 <= k < parts.len() implies match #[trigger] parts[k] {
                Part::Word(word) => !ask_options().contains(word),
                Part::Pair(name, _) => ask_options().contains(name),
            } by {
                assert(parts[k] == Part::Word(note));
            }
        }
        law_question_carries_its_arguments(project, parts);
        assert(parts.drop_first() =~= Seq::<Part>::empty());
        assert(words_of(parts.drop_first()) =~= Seq::<Seq<char>>::empty());
        assert(values_of(parts.drop_first(), "--option"@) =~= Seq::<Seq<char>>::empty());
        assert(line_of(parts.drop_first()) =~= Seq::<Seq<char>>::empty());
        assert(words_of(parts) =~= seq![note]);
        assert(values_of(parts, "--option"@) =~= Seq::<Seq<char>>::empty());
        assert(seq![project] + line_of(parts) =~= seq![project, note]);
        assert(text::joined(seq![note], " "@) == note);
    }
}

/// The words behind a subject are one phrase; without any there is none.
pub proof fn law_phrase_is_all_its_words(subject: Seq<char>, words: Words, empty: FaultKind)
    requires
        words.len() > 0,
    ensures
        ({
            let given = args::say_words(seq![subject] + words, empty);
            let phrase = text::trimmed(text::joined(words, " "@));
            &&& phrase.len() > 0 ==> given == Ok::<(Seq<char>, Seq<char>), FaultV>(
                (subject, phrase),
            )
            &&& phrase.len() == 0 ==> given == Err::<(Seq<char>, Seq<char>), FaultV>(
                fault::plain(empty),
            )
        }),
{
    let args = seq![subject] + words;
    assert(args.skip(1) =~= words);
}

/// The arguments of a listing of claims: flags in whatever order, and one
/// project at most.
pub proof fn law_listing_carries_its_arguments(args: Words)
    ensures
        ({
            let given = args::claims_words(args);
            let is_flag = |word: Seq<char>| word == "--all"@ || word == "--json"@;
            &&& given is Some ==> {
                &&& given->0.all == args.contains("--all"@)
                &&& given->0.json == args.contains("--json"@)
                &&& given->0.project is Some ==> args.contains(given->0.project->0)
                    && !is_flag(given->0.project->0) && !text::has_prefix(
                    given->0.project->0,
                    "--"@,
                )
                &&& forall|k: int|
                    0 <= k < args.len() ==> is_flag(#[trigger] args[k]) || given->0.project
                        == Some(args[k])
            }
            &&& (forall|k: int| 0 <= k < args.len() ==> is_flag(#[trigger] args[k])) ==> given
                is Some && given->0.project is None
        }),
    decreases args.len(),
{
    lemma_options();
    if args.len() > 0 {
        let rest = args.drop_last();
        law_listing_carries_its_arguments(rest);
        assert(args =~= rest.push(args.last()));
        assert forall|word: Seq<char>| #[trigger] args.contains(word) <==> rest.contains(word)
            || word == args.last() by {
            if rest.contains(word) {
                let k = choose|k: int| 0 <= k < rest.len() && rest[k] == word;
                assert(args[k] == word);
            }
            if word == args.last() {
                assert(args[args.len() - 1] == word);
            }
            if args.contains(word) {
                let k = choose|k: int| 0 <= k < args.len() && args[k] == word;
                if k < rest.len() {
                    assert(rest[k] == word);
                }
            }
        }
        assert forall|k: int| 0 <= k < rest.len() implies #[trigger] rest[k] == args[k] by {}
        lemma_dashed();
    }
}

/// The flags begin with dashes.
proof fn lemma_dashed()
    ensures
        text::has_prefix("--all"@, "--"@),
        text::has_prefix("--json"@, "--"@),
{
    reveal_strlit("--");
    reveal_strlit("--all");
    reveal_strlit("--json");
    assert("--all"@.subrange(0, 2) =~= "--"@);
    assert("--json"@.subrange(0, 2) =~= "--"@);
}

/// A directory is made absolute: one that begins with a slash is taken as it
/// is, a tilde stands for the home directory, and any other lies within the
/// working directory, or is refused where there is none.
pub proof fn law_directory_is_made_absolute(value: Seq<char>, env: Env)
    ensures
        ({
            let home = match env.home {
                Some(path) => path@,
                None => "."@,
            };
            let within = |base: Seq<char>, path: Seq<char>| state::joined_path(base, path);
            &&& value.len() > 0 && value[0] == '/' ==> args::absolute(value, env) == Ok::<
                Seq<char>,
                FaultV,
            >(value)
            &&& value == "~"@ && home.len() > 0 && home[0] == '/' ==> args::absolute(value, env)
                == Ok::<Seq<char>, FaultV>(home)
            &&& value.len() > 0 && value[0] != '/' && value[0] != '~' && env.current_dir is Ok
                ==> args::absolute(value, env) == Ok::<Seq<char>, FaultV>(
                within(env.current_dir->Ok_0@, value),
            )
            &&& value.len() > 0 && value[0] != '/' && value[0] != '~' && env.current_dir is Err
                ==> args::absolute(value, env) == Err::<Seq<char>, FaultV>(
                fault::about(FaultKind::Foreign, env.current_dir->Err_0@),
            )
        }),
{
    reveal_strlit("~");
    reveal_strlit("~/");
    reveal_strlit("/");
    if value.len() > 0 {
        assert(value.subrange(0, 1)[0] == value[0]);
        if value[0] == '/' {
            assert(value.subrange(0, 1) =~= "/"@);
        }
        if text::has_prefix(value, "/"@) {
            assert(value.subrange(0, 1)[0] == '/');
        }
        if text::has_prefix(value, "~/"@) {
            assert(value.subrange(0, 2)[0] == '~');
            assert(value.subrange(0, 2)[0] == value[0]);
        }
    }
    let home = state::home_of(env.home);
    if value == "~"@ && home.len() > 0 && home[0] == '/' {
        assert(home.subrange(0, 1) =~= "/"@);
    }
}

/// A path below the home directory is named with a tilde and a slash.
pub proof fn law_tilde_is_the_home_directory(rest: Seq<char>, env: Env)
    ensures
        ({
            let home = match env.home {
                Some(path) => path@,
                None => "."@,
            };
            let path = state::joined_path(home, rest);
            path.len() > 0 && path[0] == '/' ==> args::absolute("~/"@ + rest, env) == Ok::<
                Seq<char>,
                FaultV,
            >(path)
        }),
{
    reveal_strlit("~");
    reveal_strlit("~/");
    reveal_strlit("/");
    let value = "~/"@ + rest;
    assert(value.subrange(0, 2) =~= "~/"@);
    assert(value.skip(2) =~= rest);
    assert(value.len() >= 2 && "~"@.len() == 1);
    let path = state::joined_path(state::home_of(env.home), rest);
    if path.len() > 0 && path[0] == '/' {
        assert(path.subrange(0, 1) =~= "/"@);
    }
}

/// Paths are joined with one slash between them; an absolute one stands for
/// itself.
pub proof fn law_paths_are_joined(base: Seq<char>, name: Seq<char>)
    ensures
        name.len() > 0 && name[0] == '/' ==> state::joined_path(base, name) == name,
        (name.len() == 0 || name[0] != '/') && base.len() > 0 && base.last() != '/'
            ==> state::joined_path(base, name) == base + "/"@ + name,
        (name.len() == 0 || name[0] != '/') && (base.len() == 0 || base.last() == '/')
            ==> state::joined_path(base, name) == base + name,
{
    reveal_strlit("/");
    if name.len() > 0 {
        assert(name.subrange(0, 1)[0] == name[0]);
        if name[0] == '/' {
            assert(name.subrange(0, 1) =~= "/"@);
        }
    }
}

/// A flag that stands alone is set, no words leave it unset, and anything else
/// is refused.
pub proof fn law_flag_stands_alone(words: Words, flag: Seq<char>)
    ensures
        args::sole_flag(words, flag) == Some(false) <==> words.len() == 0,
        args::sole_flag(words, flag) == Some(true) <==> words == seq![flag],
{
    if words.len() == 1 && words[0] == flag {
        assert(words =~= seq![flag]);
    }
}

/// A confidence is a number from zero to one: one, minus zero, a fraction
/// behind a zero, or one so small that it is written with an exponent. A
/// negative number, a greater one, one without bounds and a text that is no
/// number are refused.
pub proof fn law_confidence_lies_between_zero_and_one(
    value: Seq<char>,
    spelling: Seq<char>,
    rest: Seq<char>,
    words: Seq<char>,
)
    ensures
        ({
            let given = args::confidence_of(value);
            let taken = Ok::<JsonV, FaultV>(JsonV::Real(spelling));
            let out = Err::<JsonV, FaultV>(fault::plain(FaultKind::ConfidenceRange));
            let reading = outside::real_reading(value);
            let read = reading == Ok::<Option<Seq<char>>, Seq<char>>(Some(spelling));
            let small = text::occurs(spelling, "e-"@);
            &&& read && (spelling == "1.0"@ || spelling == "-0.0"@ || spelling == "0."@ + rest)
                ==> given == taken
            &&& read && small && spelling[0] != '-' ==> given == taken
            &&& read && spelling.len() > 0 && spelling[0] == '-' && spelling != "-0.0"@
                ==> given == out
            &&& read && spelling.len() > 0 && spelling[0] != '0' && spelling != "1.0"@ && spelling
                != "-0.0"@ && !small ==> given == out
            &&& reading == Ok::<Option<Seq<char>>, Seq<char>>(None) ==> given == out
            &&& reading == Err::<Option<Seq<char>>, Seq<char>>(words) ==> given == Err::<
                JsonV,
                FaultV,
            >(fault::about(FaultKind::ConfidenceNoNumber, words))
        }),
{
    reveal_strlit("-");
    reveal_strlit("0.");
    reveal_strlit("1.0");
    assert("1.0"@[0] == '1');
    text_laws::law_parts_of_a_text(Seq::empty(), "0."@, rest);
    if text::has_prefix(spelling, "0."@) {
        assert(spelling.subrange(0, 2)[0] == "0."@[0]);
        assert(spelling[0] == '0');
    }
    if text::has_prefix(spelling, "-"@) {
        assert(spelling.subrange(0, 1)[0] == "-"@[0]);
        assert(spelling[0] == '-');
    }
    if spelling.len() > 0 && spelling[0] == '-' {
        assert(spelling.subrange(0, 1) =~= "-"@);
        assert(text::occurs_at(spelling, "-"@, 0));
    }
}

} // verus!
