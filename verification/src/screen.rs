//! What the control tower draws: lines of styled text, and the room they take.
use vstd::prelude::*;
use crate::attention::{Clock, ClockV};
use crate::text;
use crate::text::{byte_part, cat2, cat3, decimal, decimal_signed, join, listed, pad, same};
use crate::ui::{
    ago_at,
    clock_time,
    status_label,
    Agent,
    AgentV,
    App,
    Attention,
    AttentionV,
    Decision,
    DecisionV,
    Inbox,
    InboxV,
    Member,
    MemberV,
    Project,
    ProjectV,
};
use crate::ui;

verus! {

/// The colours of the tower.
#[derive(Debug, Clone, Copy, PartialEq, Eq, Structural)]
pub enum Tone {
    Background,
    Foreground,
    Gray,
    Dim,
    Border,
    Selected,
    Green,
    Amber,
    Red,
    Blue,
    Cyan,
}

/// The parts of red, green and blue in a colour.
pub fn rgb(tone: Tone) -> (r: (u8, u8, u8))
    ensures
        r == match tone {
            Tone::Background => (0u8, 0u8, 0u8),
            Tone::Foreground => (237u8, 237u8, 237u8),
            Tone::Gray => (150u8, 150u8, 150u8),
            Tone::Dim => (92u8, 92u8, 92u8),
            Tone::Border => (48u8, 48u8, 48u8),
            Tone::Selected => (25u8, 25u8, 25u8),
            Tone::Green => (80u8, 226u8, 92u8),
            Tone::Amber => (255u8, 179u8, 71u8),
            Tone::Red => (255u8, 86u8, 86u8),
            Tone::Blue => (82u8, 168u8, 255u8),
            Tone::Cyan => (89u8, 213u8, 224u8),
        },
{
    match tone {
        Tone::Background => (0, 0, 0),
        Tone::Foreground => (237, 237, 237),
        Tone::Gray => (150, 150, 150),
        Tone::Dim => (92, 92, 92),
        Tone::Border => (48, 48, 48),
        Tone::Selected => (25, 25, 25),
        Tone::Green => (80, 226, 92),
        Tone::Amber => (255, 179, 71),
        Tone::Red => (255, 86, 86),
        Tone::Blue => (82, 168, 255),
        Tone::Cyan => (89, 213, 224),
    }
}

/// The colour of a status.
pub open spec fn tone_of(status: Seq<char>) -> Tone {
    if status == "working"@ {
        Tone::Green
    } else if status == "done"@ || status == "verified"@ || status == "accepted"@ {
        Tone::Blue
    } else if status == "blocked"@ || status == "offline"@ {
        Tone::Red
    } else if status == "need_decision"@ || status == "reported"@ {
        Tone::Amber
    } else if status == "idle"@ {
        Tone::Gray
    } else {
        Tone::Dim
    }
}

/// The colour of a status.
pub fn status_color(status: &str) -> (r: Tone)
    ensures
        r == tone_of(status@),
{
    if same(status, "working") {
        Tone::Green
    } else if same(status, "done") || same(status, "verified") || same(status, "accepted") {
        Tone::Blue
    } else if same(status, "blocked") || same(status, "offline") {
        Tone::Red
    } else if same(status, "need_decision") || same(status, "reported") {
        Tone::Amber
    } else if same(status, "idle") {
        Tone::Gray
    } else {
        Tone::Dim
    }
}

/// A piece of a line: its text, its colour where it has one of its own, and
/// whether it is bold.
pub struct Piece {
    pub text: String,
    pub tone: Option<Tone>,
    pub bold: bool,
}

/// The model of a piece of a line.
pub struct PieceV {
    pub text: Seq<char>,
    pub tone: Option<Tone>,
    pub bold: bool,
}

impl Piece {
    pub open spec fn view(&self) -> PieceV {
        PieceV { text: self.text@, tone: self.tone, bold: self.bold }
    }
}

/// The model of a line.
pub type LineV = Seq<PieceV>;

pub open spec fn line_view(line: Seq<Piece>) -> LineV {
    Seq::new(line.len(), |i: int| line[i]@)
}

pub open spec fn lines_view(lines: Seq<Vec<Piece>>) -> Seq<LineV> {
    Seq::new(lines.len(), |i: int| line_view(lines[i]@))
}

pub open spec fn inked(text: Seq<char>, tone: Tone) -> PieceV {
    PieceV { text, tone: Some(tone), bold: false }
}

pub open spec fn bold(text: Seq<char>, tone: Tone) -> PieceV {
    PieceV { text, tone: Some(tone), bold: true }
}

pub open spec fn bare(text: Seq<char>) -> PieceV {
    PieceV { text, tone: None, bold: false }
}

/// The mark of a status.
pub open spec fn mark(status: Seq<char>) -> PieceV {
    inked("●"@, tone_of(status))
}

fn append_piece(line: &mut Vec<Piece>, text: String, tone: Option<Tone>, bold: bool)
    ensures
        line_view(final(line)@) == line_view(old(line)@).push(
            (PieceV { text: text@, tone, bold }),
        ),
{
    let ghost before = line@;
    let piece = Piece { text, tone, bold };
    line.push(piece);
    proof {
        assert(line_view(line@) =~= line_view(before).push(piece@));
    }
}

fn new_line() -> (r: Vec<Piece>)
    ensures
        line_view(r@) == Seq::<PieceV>::empty(),
{
    let out: Vec<Piece> = Vec::new();
    proof {
        assert(line_view(out@) =~= Seq::empty());
    }
    out
}

fn add_line(lines: &mut Vec<Vec<Piece>>, line: Vec<Piece>)
    ensures
        lines_view(final(lines)@) == lines_view(old(lines)@).push(line_view(line@)),
{
    let ghost before = lines@;
    lines.push(line);
    proof {
        assert(lines_view(lines@) =~= lines_view(before).push(line_view(line@)));
    }
}

fn add_mark(line: &mut Vec<Piece>, status: &str)
    ensures
        line_view(final(line)@) == line_view(old(line)@).push(mark(status@)),
{
    append_piece(line, "●".to_owned(), Some(status_color(status)), false);
}

/// The way of a claim to its acceptance: what is reached has its colour, and
/// where it stands is bold.
pub open spec fn path_of(current: Option<Seq<char>>) -> LineV {
    let at: int = if current == Some("reported"@) {
        0
    } else if current == Some("verified"@) {
        1
    } else if current == Some("accepted"@) {
        2
    } else {
        -1
    };
    let stage = |index: int, state: Seq<char>, label: Seq<char>|
        PieceV {
            text: label,
            tone: Some(
                if index <= at {
                    tone_of(state)
                } else {
                    Tone::Dim
                },
            ),
            bold: index == at,
        };
    seq![
        stage(0, "reported"@, "机长声明"@),
        inked("  →  "@, Tone::Dim),
        stage(1, "verified"@, "机器验证"@),
        inked("  →  "@, Tone::Dim),
        stage(2, "accepted"@, "用户验收"@),
    ]
}

fn add_stage(line: &mut Vec<Piece>, index: i8, at: i8, state: &str, label: &str)
    ensures
        line_view(final(line)@) == line_view(old(line)@).push(
            (PieceV {
                text: label@,
                tone: Some(
                    if index <= at {
                        tone_of(state@)
                    } else {
                        Tone::Dim
                    },
                ),
                bold: index == at,
            }),
        ),
{
    let tone = if index <= at {
        status_color(state)
    } else {
        Tone::Dim
    };
    append_piece(line, label.to_owned(), Some(tone), index == at);
}

/// The way of a claim to its acceptance.
pub fn claim_path(current: Option<&str>) -> (r: Vec<Piece>)
    ensures
        line_view(r@) == path_of(text::opt_text(current)),
{
    let at: i8 = match current {
        Some(state) => if same(state, "reported") {
            0
        } else if same(state, "verified") {
            1
        } else if same(state, "accepted") {
            2
        } else {
            -1
        },
        None => -1,
    };
    let mut line = new_line();
    add_stage(&mut line, 0, at, "reported", "机长声明");
    append_piece(&mut line, "  →  ".to_owned(), Some(Tone::Dim), false);
    add_stage(&mut line, 1, at, "verified", "机器验证");
    append_piece(&mut line, "  →  ".to_owned(), Some(Tone::Dim), false);
    add_stage(&mut line, 2, at, "accepted", "用户验收");
    proof {
        assert(line_view(line@) =~= path_of(text::opt_text(current)));
    }
    line
}

/// How many agents have a status.
pub open spec fn count_with(agents: Seq<AgentV>, status: Seq<char>) -> nat
    decreases agents.len(),
{
    if agents.len() == 0 {
        0
    } else {
        count_with(agents.drop_last(), status) + if agents.last().agent_status == status {
            1nat
        } else {
            0nat
        }
    }
}

fn count_agents(agents: &Vec<Agent>, status: &str) -> (r: u64)
    ensures
        r as nat == count_with(ui::agent_views(agents@), status@),
{
    let ghost all = ui::agent_views(agents@);
    let mut n: u64 = 0;
    let mut i: usize = 0;
    proof {
        assert(all.take(0).len() == 0);
    }
    while i < agents.len()
        invariant
            i <= agents.len(),
            all == ui::agent_views(agents@),
            n as nat == count_with(all.take(i as int), status@),
            n <= i,
        decreases agents.len() - i,
    {
        proof {
            assert(all.take(i + 1).drop_last() =~= all.take(i as int));
            assert(all.take(i + 1).last() == agents@[i as int]@);
        }
        if same(agents[i].agent_status.as_str(), status) {
            n = n + 1;
        }
        i = i + 1;
    }
    proof {
        assert(all.take(i as int) =~= all);
    }
    n
}

/// The headline of the tower.
pub open spec fn headline(app: App, clock: ClockV) -> LineV {
    let agents = ui::agent_views(app.agents@);
    seq![
        bold("HERDR COORDINATOR"@, Tone::Foreground),
        inked("  "@ + ui::time_of_day(Some(clock.text)), Tone::Dim),
        inked("   "@ + text::digits(app.projects@.len()) + " 个项目"@, Tone::Gray),
        inked("   ● "@ + text::digits(count_with(agents, "working"@)) + " 进行中"@, Tone::Green),
        inked("   ● "@ + text::digits(count_with(agents, "blocked"@)) + " 受阻"@, Tone::Red),
        inked(
            "   "@ + text::digits(app.attention@.len()) + " 项待介入"@,
            if app.attention@.len() == 0 {
                Tone::Green
            } else {
                Tone::Amber
            },
        ),
        if app.connected {
            inked("   已对账 "@ + app.synced_at@, Tone::Dim)
        } else {
            inked(
                "   ⚠ "@ + match app.error {
                    Some(words) => words@,
                    None => "尚未对账"@,
                },
                Tone::Red,
            )
        },
    ]
}

/// The headline of the tower.
pub fn draw_headline(app: &App, clock: &Clock) -> (r: Vec<Piece>)
    ensures
        line_view(r@) == headline(*app, clock@),
{
    let mut line = new_line();
    let working: u64 = count_agents(&app.agents, "working");
    let blocked: u64 = count_agents(&app.agents, "blocked");
    let time = clock_time(Some(clock.text.as_str()));
    append_piece(&mut line, "HERDR COORDINATOR".to_owned(), Some(Tone::Foreground), true);
    append_piece(&mut line, cat2("  ", time.as_str()), Some(Tone::Dim), false);
    append_piece(
        &mut line,
        cat3("   ", decimal(app.projects.len() as u64).as_str(), " 个项目"),
        Some(Tone::Gray),
        false,
    );
    append_piece(
        &mut line,
        cat3("   ● ", decimal(working).as_str(), " 进行中"),
        Some(Tone::Green),
        false,
    );
    append_piece(&mut line, cat3("   ● ", decimal(blocked).as_str(), " 受阻"), Some(Tone::Red), false);
    let calm = if app.attention.len() == 0 {
        Tone::Green
    } else {
        Tone::Amber
    };
    append_piece(
        &mut line,
        cat3("   ", decimal(app.attention.len() as u64).as_str(), " 项待介入"),
        Some(calm),
        false,
    );
    if app.connected {
        append_piece(&mut line, cat2("   已对账 ", app.synced_at.as_str()), Some(Tone::Dim), false);
    } else {
        let words: &str = match &app.error {
            Some(words) => words.as_str(),
            None => "尚未对账",
        };
        append_piece(&mut line, cat2("   ⚠ ", words), Some(Tone::Red), false);
    }
    proof {
        assert(line_view(line@) =~= headline(*app, clock@));
    }
    line
}

/// The two lines of a decision.
pub open spec fn decision_first(decision: DecisionV, clock: ClockV) -> LineV {
    seq![
        bold(decision.project + "  "@, Tone::Amber),
        inked(decision.question, Tone::Foreground),
        inked("  "@ + ui::ago_of(decision.created_at, clock.moment), Tone::Dim),
    ]
}

pub open spec fn decision_second(decision: DecisionV) -> LineV {
    let options = if decision.options.len() == 0 {
        "未提供预设选项"@
    } else {
        text::joined(decision.options, "  /  "@)
    };
    seq![
        inked("    "@ + options, Tone::Gray),
        inked("   ["@ + decision.id + "]"@, Tone::Dim),
    ]
}

/// The lines of the first `count` decisions.
pub open spec fn decision_lines(decisions: Seq<DecisionV>, count: int, clock: ClockV) -> Seq<LineV>
    decreases count,
{
    if count <= 0 {
        Seq::empty()
    } else {
        decision_lines(decisions, count - 1, clock).push(
            decision_first(decisions[count - 1], clock),
        ).push(decision_second(decisions[count - 1]))
    }
}

/// The smaller of two numbers.
pub open spec fn at_most(n: nat, limit: nat) -> nat {
    if n <= limit {
        n
    } else {
        limit
    }
}

/// The lines of the decisions that are shown: the first three.
pub fn draw_decisions(decisions: &Vec<Decision>, clock: &Clock) -> (r: Vec<Vec<Piece>>)
    ensures
        lines_view(r@) == decision_lines(
            ui::decision_views(decisions@),
            at_most(decisions@.len(), 3) as int,
            clock@,
        ),
{
    let ghost all = ui::decision_views(decisions@);
    let count: usize = if decisions.len() <= 3 {
        decisions.len()
    } else {
        3
    };
    let mut lines: Vec<Vec<Piece>> = Vec::new();
    let mut i: usize = 0;
    proof {
        assert(lines_view(lines@) =~= Seq::empty());
    }
    while i < count
        invariant
            i <= count <= decisions.len(),
            all == ui::decision_views(decisions@),
            lines_view(lines@) == decision_lines(all, i as int, clock@),
        decreases count - i,
    {
        let decision = &decisions[i];
        proof {
            assert(all[i as int] == decision@);
            assert(text::texts(decision.options@).len() == decision.options@.len());
        }
        let options: String = if decision.options.len() == 0 {
            "未提供预设选项".to_owned()
        } else {
            join(decision.options.as_slice(), "  /  ")
        };
        let mut first = new_line();
        append_piece(
            &mut first,
            cat2(decision.project.as_str(), "  "),
            Some(Tone::Amber),
            true,
        );
        append_piece(
            &mut first,
            decision.question.as_str().to_owned(),
            Some(Tone::Foreground),
            false,
        );
        append_piece(
            &mut first,
            cat2("  ", ago_at(decision.created_at.as_str(), clock).as_str()),
            Some(Tone::Dim),
            false,
        );
        let mut second = new_line();
        append_piece(&mut second, cat2("    ", options.as_str()), Some(Tone::Gray), false);
        append_piece(&mut second, cat3("   [", decision.id.as_str(), "]"), Some(Tone::Dim), false);
        proof {
            assert(line_view(first@) =~= decision_first(decision@, clock@));
            assert(line_view(second@) =~= decision_second(decision@));
        }
        add_line(&mut lines, first);
        add_line(&mut lines, second);
        i = i + 1;
    }
    lines
}

/// The two lines of an entry of the attention queue.
pub open spec fn attention_first(item: AttentionV) -> LineV {
    seq![
        bold(
            "P"@ + text::padded(text::signed_digits(item.priority), 3),
            if item.priority >= 90 {
                Tone::Red
            } else {
                Tone::Amber
            },
        ),
        bold(text::padded(item.project, 14), Tone::Foreground),
        inked(item.reason, Tone::Foreground),
        inked(
            "  → "@ + if item.required_actor == "user"@ {
                "你"@
            } else {
                "塔台"@
            },
            Tone::Cyan,
        ),
    ]
}

pub open spec fn attention_second(item: AttentionV) -> LineV {
    seq![inked("      "@ + item.action, Tone::Dim)]
}

pub open spec fn attention_pairs(items: Seq<AttentionV>, count: int) -> Seq<LineV>
    decreases count,
{
    if count <= 0 {
        Seq::empty()
    } else {
        attention_pairs(items, count - 1).push(attention_first(items[count - 1])).push(
            attention_second(items[count - 1]),
        )
    }
}

/// The lines of the attention queue: its first four entries, or that nothing
/// needs attention.
pub open spec fn attention_lines(items: Seq<AttentionV>) -> Seq<LineV> {
    if items.len() == 0 {
        seq![seq![mark("idle"@), inked(" 当前无需人工介入"@, Tone::Gray)]]
    } else {
        attention_pairs(items, at_most(items.len(), 4) as int)
    }
}

/// The lines of the attention queue.
pub fn draw_attention(items: &Vec<Attention>) -> (r: Vec<Vec<Piece>>)
    ensures
        lines_view(r@) == attention_lines(ui::attention_views(items@)),
{
    let ghost all = ui::attention_views(items@);
    let mut lines: Vec<Vec<Piece>> = Vec::new();
    proof {
        assert(lines_view(lines@) =~= Seq::empty());
    }
    if items.len() == 0 {
        let mut line = new_line();
        add_mark(&mut line, "idle");
        append_piece(&mut line, " 当前无需人工介入".to_owned(), Some(Tone::Gray), false);
        add_line(&mut lines, line);
        proof {
            assert(line_view(line@) =~= seq![
                mark("idle"@),
                inked(" 当前无需人工介入"@, Tone::Gray),
            ]);
            assert(lines_view(lines@) =~= attention_lines(all));
        }
        return lines;
    }
    let count: usize = if items.len() <= 4 {
        items.len()
    } else {
        4
    };
    let mut i: usize = 0;
    while i < count
        invariant
            i <= count <= items.len(),
            all == ui::attention_views(items@),
            lines_view(lines@) == attention_pairs(all, i as int),
        decreases count - i,
    {
        let item = &items[i];
        proof {
            assert(all[i as int] == item@);
        }
        let urgent = if item.priority >= 90 {
            Tone::Red
        } else {
            Tone::Amber
        };
        let actor: &str = if same(item.required_actor.as_str(), "user") {
            "你"
        } else {
            "塔台"
        };
        let mut first = new_line();
        append_piece(
            &mut first,
            cat2("P", pad(decimal_signed(item.priority).as_str(), 3).as_str()),
            Some(urgent),
            true,
        );
        append_piece(&mut first, pad(item.project.as_str(), 14), Some(Tone::Foreground), true);
        append_piece(&mut first, item.reason.as_str().to_owned(), Some(Tone::Foreground), false);
        append_piece(&mut first, cat2("  → ", actor), Some(Tone::Cyan), false);
        let mut second = new_line();
        append_piece(&mut second, cat2("      ", item.action.as_str()), Some(Tone::Dim), false);
        proof {
            assert(line_view(first@) =~= attention_first(item@));
            assert(line_view(second@) =~= attention_second(item@));
        }
        add_line(&mut lines, first);
        add_line(&mut lines, second);
        i = i + 1;
    }
    lines
}

/// The headline of a project.
pub open spec fn project_headline(project: ProjectV, clock: ClockV) -> LineV {
    let first = seq![
        bold(text::padded(project.name, 16), Tone::Foreground),
        mark(project.status),
        inked(" "@ + ui::label_of(project.status), tone_of(project.status)),
        inked("   机长 "@ + project.entry.commander, Tone::Gray),
        inked("   实时 "@ + ui::label_of(project.live_status), tone_of(project.live_status)),
        inked("   "@ + ui::ago_of(project.entry.updated_at, clock.moment), Tone::Dim),
    ];
    if project.entry.note.len() > 0 {
        first.push(inked("   — "@ + project.entry.note, Tone::Dim))
    } else {
        first
    }
}

/// The line of a member of a project whose members are shown.
pub open spec fn member_line(member: MemberV) -> LineV {
    seq![
        bare("    "@),
        mark(member.status),
        inked(" "@ + text::padded(member.role, 12), Tone::Foreground),
        inked(text::padded(ui::label_of(member.status), 8), tone_of(member.status)),
        inked(member.name, Tone::Dim),
    ]
}

/// The members of a project in one line.
pub open spec fn member_marks(members: Seq<MemberV>, count: int) -> LineV
    decreases count,
{
    if count <= 0 {
        seq![bare("    "@)]
    } else {
        member_marks(members, count - 1).push(
            inked(members[count - 1].role + " "@, Tone::Gray),
        ).push(mark(members[count - 1].status)).push(bare("    "@))
    }
}

/// The members of a project: each in its own line, or all in one.
pub open spec fn member_lines(members: Seq<MemberV>, expanded: bool) -> Seq<LineV> {
    if expanded {
        members.map_values(|member: MemberV| member_line(member))
    } else if members.len() == 0 {
        seq![member_marks(members, 0).push(inked("没有存活成员"@, Tone::Dim))]
    } else {
        seq![member_marks(members, members.len() as int)]
    }
}

/// The lines of a project.
pub open spec fn project_lines(project: ProjectV, expanded: bool, clock: ClockV) -> Seq<LineV> {
    let offline: Seq<LineV> = if project.commander_offline {
        seq![
            seq![inked("    ⚠ 机长 "@ + project.entry.commander + " 当前离线"@, Tone::Red)],
        ]
    } else {
        Seq::empty()
    };
    seq![
        project_headline(project, clock),
        seq![bare("    完成路径  "@)] + path_of(project.entry.claim_state),
    ] + offline + member_lines(project.members, expanded) + seq![Seq::<PieceV>::empty()]
}

fn draw_headline_of(project: &Project, clock: &Clock) -> (r: Vec<Piece>)
    ensures
        line_view(r@) == project_headline(project@, clock@),
{
    let status = project.status.as_str();
    let live = project.live_status.as_str();
    let mut line = new_line();
    append_piece(&mut line, pad(project.name.as_str(), 16), Some(Tone::Foreground), true);
    add_mark(&mut line, status);
    append_piece(&mut line, cat2(" ", status_label(status)), Some(status_color(status)), false);
    append_piece(
        &mut line,
        cat2("   机长 ", project.entry.commander.as_str()),
        Some(Tone::Gray),
        false,
    );
    append_piece(&mut line, cat2("   实时 ", status_label(live)), Some(status_color(live)), false);
    append_piece(
        &mut line,
        cat2("   ", ago_at(project.entry.updated_at.as_str(), clock).as_str()),
        Some(Tone::Dim),
        false,
    );
    if !project.entry.note.as_str().is_empty() {
        append_piece(&mut line, cat2("   — ", project.entry.note.as_str()), Some(Tone::Dim), false);
    }
    proof {
        assert(line_view(line@) =~= project_headline(project@, clock@));
    }
    line
}

fn draw_member(member: &Member) -> (r: Vec<Piece>)
    ensures
        line_view(r@) == member_line(member@),
{
    let status = member.status.as_str();
    let mut line = new_line();
    append_piece(&mut line, "    ".to_owned(), None, false);
    add_mark(&mut line, status);
    append_piece(
        &mut line,
        cat2(" ", pad(member.role.as_str(), 12).as_str()),
        Some(Tone::Foreground),
        false,
    );
    append_piece(&mut line, pad(status_label(status), 8), Some(status_color(status)), false);
    append_piece(&mut line, member.name.as_str().to_owned(), Some(Tone::Dim), false);
    proof {
        assert(line_view(line@) =~= member_line(member@));
    }
    line
}

fn draw_marks(members: &Vec<Member>) -> (r: Vec<Piece>)
    ensures
        line_view(r@) == member_marks(ui::member_views(members@), members@.len() as int),
{
    let ghost all = ui::member_views(members@);
    let mut line = new_line();
    append_piece(&mut line, "    ".to_owned(), None, false);
    let mut i: usize = 0;
    proof {
        assert(line_view(line@) =~= seq![bare("    "@)]);
    }
    while i < members.len()
        invariant
            i <= members.len(),
            all == ui::member_views(members@),
            line_view(line@) == member_marks(all, i as int),
        decreases members.len() - i,
    {
        proof {
            assert(all[i as int] == members@[i as int]@);
        }
        append_piece(&mut line, cat2(members[i].role.as_str(), " "), Some(Tone::Gray), false);
        add_mark(&mut line, members[i].status.as_str());
        append_piece(&mut line, "    ".to_owned(), None, false);
        i = i + 1;
    }
    line
}

fn draw_members(lines: &mut Vec<Vec<Piece>>, members: &Vec<Member>, expanded: bool)
    ensures
        lines_view(final(lines)@) == lines_view(old(lines)@) + member_lines(
            ui::member_views(members@),
            expanded,
        ),
{
    let ghost start = lines_view(lines@);
    let ghost all = ui::member_views(members@);
    let ghost goal = member_lines(all, expanded);
    if !expanded {
        let mut line = draw_marks(members);
        if members.len() == 0 {
            append_piece(&mut line, "没有存活成员".to_owned(), Some(Tone::Dim), false);
        }
        add_line(lines, line);
        proof {
            assert(lines_view(lines@) =~= start + goal);
        }
        return;
    }
    let mut i: usize = 0;
    proof {
        assert(lines_view(lines@) =~= start + goal.take(0));
    }
    while i < members.len()
        invariant
            i <= members.len(),
            expanded,
            all == ui::member_views(members@),
            goal == member_lines(all, true),
            lines_view(lines@) == start + goal.take(i as int),
        decreases members.len() - i,
    {
        proof {
            assert(all[i as int] == members@[i as int]@);
        }
        add_line(lines, draw_member(&members[i]));
        proof {
            assert((start + goal.take(i as int)).push(goal[i as int]) =~= start + goal.take(i + 1));
        }
        i = i + 1;
    }
    proof {
        assert(goal.take(i as int) =~= goal);
    }
}

/// The lines of a project.
pub fn draw_project(project: &Project, expanded: bool, clock: &Clock) -> (r: Vec<Vec<Piece>>)
    ensures
        lines_view(r@) == project_lines(project@, expanded, clock@),
{
    let mut lines: Vec<Vec<Piece>> = Vec::new();
    proof {
        assert(lines_view(lines@) =~= Seq::empty());
    }
    add_line(&mut lines, draw_headline_of(project, clock));
    let claim: Option<&str> = match &project.entry.claim_state {
        Some(state) => Some(state.as_str()),
        None => None,
    };
    let mut path = new_line();
    append_piece(&mut path, "    完成路径  ".to_owned(), None, false);
    let mut stages = claim_path(claim);
    let ghost stage_views = line_view(stages@);
    let ghost head = line_view(path@);
    path.append(&mut stages);
    proof {
        assert(line_view(path@) =~= head + stage_views);
        assert(line_view(path@) =~= seq![bare("    完成路径  "@)] + path_of(
            project@.entry.claim_state,
        ));
    }
    add_line(&mut lines, path);
    if project.commander_offline {
        let mut warning = new_line();
        append_piece(
            &mut warning,
            cat3("    ⚠ 机长 ", project.entry.commander.as_str(), " 当前离线"),
            Some(Tone::Red),
            false,
        );
        proof {
            assert(line_view(warning@) =~= seq![
                inked("    ⚠ 机长 "@ + project@.entry.commander + " 当前离线"@, Tone::Red),
            ]);
        }
        add_line(&mut lines, warning);
    }
    draw_members(&mut lines, &project.members, expanded);
    add_line(&mut lines, new_line());
    proof {
        assert(lines_view(lines@) =~= project_lines(project@, expanded, clock@));
    }
    lines
}

/// The items of the list of projects: the lines of each project, or a hint
/// where there is none.
pub open spec fn project_items(
    projects: Seq<ProjectV>,
    expanded: Seq<Seq<char>>,
    clock: ClockV,
) -> Seq<Seq<LineV>> {
    if projects.len() == 0 {
        seq![
            seq![
                seq![
                    inked(
                        "尚未登记项目。使用 fleet register 绑定现有项目和唯一机长。"@,
                        Tone::Dim,
                    ),
                ],
            ],
        ]
    } else {
        projects.map_values(
            |project: ProjectV| project_lines(project, expanded.contains(project.name), clock),
        )
    }
}

pub open spec fn items_view(items: Seq<Vec<Vec<Piece>>>) -> Seq<Seq<LineV>> {
    Seq::new(items.len(), |i: int| lines_view(items[i]@))
}

fn add_item(items: &mut Vec<Vec<Vec<Piece>>>, item: Vec<Vec<Piece>>)
    ensures
        items_view(final(items)@) == items_view(old(items)@).push(lines_view(item@)),
{
    let ghost before = items@;
    items.push(item);
    proof {
        assert(items_view(items@) =~= items_view(before).push(lines_view(item@)));
    }
}

/// The items of the list of projects.
pub fn draw_projects(projects: &Vec<Project>, expanded: &[String], clock: &Clock) -> (r: Vec<
    Vec<Vec<Piece>>,
>)
    ensures
        items_view(r@) == project_items(
            ui::project_views(projects@),
            text::texts(expanded@),
            clock@,
        ),
{
    let ghost all = ui::project_views(projects@);
    let ghost shown = text::texts(expanded@);
    let mut items: Vec<Vec<Vec<Piece>>> = Vec::new();
    if projects.len() == 0 {
        let mut line = new_line();
        append_piece(
            &mut line,
            "尚未登记项目。使用 fleet register 绑定现有项目和唯一机长。".to_owned(),
            Some(Tone::Dim),
            false,
        );
        let ghost piece = line_view(line@);
        let mut lines: Vec<Vec<Piece>> = Vec::new();
        add_line(&mut lines, line);
        let ghost hint = lines_view(lines@);
        add_item(&mut items, lines);
        proof {
            assert(piece =~= seq![
                inked("尚未登记项目。使用 fleet register 绑定现有项目和唯一机长。"@, Tone::Dim),
            ]);
            assert(hint =~= seq![piece]);
            assert(items_view(items@) =~= project_items(all, shown, clock@));
        }
        return items;
    }
    let ghost goal = project_items(all, shown, clock@);
    let mut i: usize = 0;
    proof {
        assert(items_view(items@) =~= goal.take(0));
    }
    while i < projects.len()
        invariant
            i <= projects.len(),
            projects.len() > 0,
            all == ui::project_views(projects@),
            shown == text::texts(expanded@),
            goal == project_items(all, shown, clock@),
            items_view(items@) == goal.take(i as int),
        decreases projects.len() - i,
    {
        proof {
            assert(all[i as int] == projects@[i as int]@);
        }
        let open = listed(expanded, projects[i].name.as_str());
        add_item(&mut items, draw_project(&projects[i], open, clock));
        proof {
            assert(goal.take(i as int).push(goal[i as int]) =~= goal.take(i + 1));
        }
        i = i + 1;
    }
    proof {
        assert(goal.take(i as int) =~= goal);
    }
    items
}

/// The line of an entry of the inbox; what is not read is marked.
pub open spec fn inbox_line(item: InboxV, unread: bool) -> LineV {
    seq![
        inked(
            if unread {
                "● "@
            } else {
                "  "@
            },
            Tone::Blue,
        ),
        inked(
            match text::between_bytes(item.ts, 11, 16) {
                Some(part) => part,
                None => "--:--"@,
            },
            Tone::Dim,
        ),
        bold("  "@ + text::padded(item.project, 14), Tone::Foreground),
        mark(item.status),
        inked(
            " "@ + item.summary,
            if unread {
                Tone::Foreground
            } else {
                Tone::Gray
            },
        ),
    ]
}

/// The lines of the inbox: its last four entries, the last first.
pub open spec fn inbox_lines(items: Seq<InboxV>, cursor: int) -> Seq<LineV> {
    if items.len() == 0 {
        seq![seq![inked("暂无汇报"@, Tone::Dim)]]
    } else {
        Seq::new(
            at_most(items.len(), 4),
            |k: int| inbox_line(items[items.len() - 1 - k], items.len() - 1 - k >= cursor),
        )
    }
}

/// The lines of the inbox.
pub fn draw_inbox(items: &Vec<Inbox>, cursor: u64) -> (r: Vec<Vec<Piece>>)
    ensures
        lines_view(r@) == inbox_lines(ui::inbox_views(items@), cursor as int),
{
    let ghost all = ui::inbox_views(items@);
    let ghost goal = inbox_lines(all, cursor as int);
    let mut lines: Vec<Vec<Piece>> = Vec::new();
    if items.len() == 0 {
        let mut line = new_line();
        append_piece(&mut line, "暂无汇报".to_owned(), Some(Tone::Dim), false);
        let ghost piece = line_view(line@);
        add_line(&mut lines, line);
        proof {
            assert(piece =~= seq![inked("暂无汇报"@, Tone::Dim)]);
            assert(lines_view(lines@) =~= goal);
        }
        return lines;
    }
    let total: usize = items.len();
    let count: usize = if total <= 4 {
        total
    } else {
        4
    };
    let mut k: usize = 0;
    proof {
        assert(lines_view(lines@) =~= goal.take(0));
    }
    while k < count
        invariant
            k <= count <= total,
            total == items.len(),
            total > 0,
            count == at_most(total as nat, 4),
            all == ui::inbox_views(items@),
            goal == inbox_lines(all, cursor as int),
            lines_view(lines@) == goal.take(k as int),
        decreases count - k,
    {
        let index: usize = total - 1 - k;
        let item = &items[index];
        let unread = index as u64 >= cursor;
        let time: String = match byte_part(item.ts.as_str(), 11, 16) {
            Some(part) => part,
            None => "--:--".to_owned(),
        };
        let mut line = new_line();
        append_piece(
            &mut line,
            (if unread {
                "● "
            } else {
                "  "
            }).to_owned(),
            Some(Tone::Blue),
            false,
        );
        append_piece(&mut line, time, Some(Tone::Dim), false);
        append_piece(
            &mut line,
            cat2("  ", pad(item.project.as_str(), 14).as_str()),
            Some(Tone::Foreground),
            true,
        );
        add_mark(&mut line, item.status.as_str());
        let tone = if unread {
            Tone::Foreground
        } else {
            Tone::Gray
        };
        append_piece(&mut line, cat2(" ", item.summary.as_str()), Some(tone), false);
        proof {
            assert(all[index as int] == item@);
            assert(line_view(line@) =~= inbox_line(item@, unread));
            assert(goal[k as int] == line_view(line@));
            assert(goal.take(k as int).push(goal[k as int]) =~= goal.take(k + 1));
        }
        add_line(&mut lines, line);
        k = k + 1;
    }
    proof {
        assert(goal.take(k as int) =~= goal);
    }
    lines
}

/// What the tower draws.
pub struct Screen {
    pub headline: Vec<Piece>,
    pub place: String,
    pub decision_height: u16,
    pub decision_title: String,
    pub decisions: Vec<Vec<Piece>>,
    pub attention_height: u16,
    pub attention_title: String,
    pub attention: Vec<Vec<Piece>>,
    pub project_title: String,
    pub projects: Vec<Vec<Vec<Piece>>>,
    pub project_heights: Vec<u16>,
    pub inbox_height: u16,
    pub inbox_title: String,
    pub inbox: Vec<Vec<Piece>>,
    pub footer: String,
}

/// The title of a section.
pub open spec fn title_of(title: Seq<char>) -> Seq<char> {
    " "@ + title + " "@
}

fn section(title: &str) -> (r: String)
    ensures
        r@ == title_of(title@),
{
    cat3(" ", title, " ")
}

/// The room that the decisions take: none without one, and two lines each for
/// at most three within a frame.
pub open spec fn decision_room(count: nat) -> nat {
    if count == 0 {
        0
    } else {
        at_most(count, 3) * 2 + 2
    }
}

/// The room that the attention queue takes.
pub open spec fn attention_room(count: nat) -> nat {
    if count == 0 {
        3
    } else {
        at_most(count, 4) * 2 + 2
    }
}

/// The room that the inbox takes.
pub open spec fn inbox_room(count: nat) -> nat {
    if count == 0 {
        3
    } else {
        at_most(count, 4) + 2
    }
}

/// How many entries of the inbox are not read.
pub open spec fn unread_count(total: nat, cursor: nat) -> nat {
    if cursor <= total {
        (total - cursor) as nat
    } else {
        0
    }
}

/// The last line of the tower: its keys, and what was last done.
pub open spec fn footer_of(message: Seq<char>) -> Seq<char> {
    "↑↓/jk 选择   Enter 展开   r 对账   a 重建注意力   m 全部已读   q 关闭"@ + if message.len()
        == 0 {
        Seq::empty()
    } else {
        "   │ "@ + message
    }
}

/// The heights of items, in lines.
pub open spec fn heights_of(items: Seq<Seq<LineV>>) -> Seq<int> {
    items.map_values(|lines: Seq<LineV>| lines.len() as int % 65536)
}

pub open spec fn ints_of(values: Seq<u16>) -> Seq<int> {
    values.map_values(|value: u16| value as int)
}

fn measure(items: &Vec<Vec<Vec<Piece>>>) -> (r: Vec<u16>)
    ensures
        ints_of(r@) == heights_of(items_view(items@)),
{
    let ghost goal = heights_of(items_view(items@));
    let mut out: Vec<u16> = Vec::new();
    let mut i: usize = 0;
    proof {
        assert(ints_of(out@) =~= goal.take(0));
    }
    while i < items.len()
        invariant
            i <= items.len(),
            goal == heights_of(items_view(items@)),
            ints_of(out@) == goal.take(i as int),
        decreases items.len() - i,
    {
        let height: u16 = (items[i].len() % 65536) as u16;
        let ghost before = out@;
        out.push(height);
        proof {
            assert(items_view(items@)[i as int] == lines_view(items@[i as int]@));
            assert(goal[i as int] == height as int);
            assert(ints_of(out@) =~= ints_of(before).push(height as int));
            assert(goal.take(i as int).push(height as int) =~= goal.take(i + 1));
        }
        i = i + 1;
    }
    proof {
        assert(goal.take(i as int) =~= goal);
    }
    out
}

/// Draws the tower at a reading of the clock.
pub fn draw(app: &App, clock: &Clock) -> (r: Screen)
    ensures
        line_view(r.headline@) == headline(*app, clock@),
        r.place@ == "状态目录  "@ + app.dir@,
        r.decision_height as nat == decision_room(app.decisions@.len()),
        r.decision_title@ == title_of("等你拍板"@),
        lines_view(r.decisions@) == decision_lines(
            ui::decision_views(app.decisions@),
            at_most(app.decisions@.len(), 3) as int,
            clock@,
        ),
        r.attention_height as nat == attention_room(app.attention@.len()),
        r.attention_title@ == title_of("需要介入 · "@ + text::digits(app.attention@.len())),
        lines_view(r.attention@) == attention_lines(ui::attention_views(app.attention@)),
        r.project_title@ == title_of("项目"@),
        items_view(r.projects@) == project_items(
            ui::project_views(app.projects@),
            text::texts(app.expanded@),
            clock@,
        ),
        ints_of(r.project_heights@) == heights_of(items_view(r.projects@)),
        r.inbox_height as nat == inbox_room(app.inbox@.len()),
        r.inbox_title@ == title_of(
            if unread_count(app.inbox@.len(), app.cursor as nat) > 0 {
                "最近事件 · "@ + text::digits(unread_count(app.inbox@.len(), app.cursor as nat))
                    + " 未读"@
            } else {
                "最近事件"@
            },
        ),
        lines_view(r.inbox@) == inbox_lines(ui::inbox_views(app.inbox@), app.cursor as int),
        r.footer@ == footer_of(app.message@),
{
    let projects = draw_projects(&app.projects, app.expanded.as_slice(), clock);
    let heights = measure(&projects);
    let shown: u16 = if app.decisions.len() <= 3 {
        app.decisions.len() as u16
    } else {
        3
    };
    let urgent: u16 = if app.attention.len() <= 4 {
        app.attention.len() as u16
    } else {
        4
    };
    let recent: u16 = if app.inbox.len() <= 4 {
        app.inbox.len() as u16
    } else {
        4
    };
    let total: u64 = app.inbox.len() as u64;
    let unread: u64 = if app.cursor <= total {
        total - app.cursor
    } else {
        0
    };
    let inbox_title: String = if unread > 0 {
        section(cat3("最近事件 · ", decimal(unread).as_str(), " 未读").as_str())
    } else {
        section("最近事件")
    };
    let keys = "↑↓/jk 选择   Enter 展开   r 对账   a 重建注意力   m 全部已读   q 关闭";
    let footer: String = if app.message.as_str().is_empty() {
        keys.to_owned()
    } else {
        cat3(keys, "   │ ", app.message.as_str())
    };
    proof {
        if app.message@.len() == 0 {
            assert(footer@ =~= footer_of(app.message@));
        } else {
            assert(footer@ =~= footer_of(app.message@));
        }
    }
    Screen {
        headline: draw_headline(app, clock),
        place: cat2("状态目录  ", app.dir.as_str()),
        decision_height: if shown == 0 { 0 } else { shown * 2 + 2 },
        decision_title: section("等你拍板"),
        decisions: draw_decisions(&app.decisions, clock),
        attention_height: if urgent == 0 { 3 } else { urgent * 2 + 2 },
        attention_title: section(
            cat2("需要介入 · ", decimal(app.attention.len() as u64).as_str()).as_str(),
        ),
        attention: draw_attention(&app.attention),
        project_title: section("项目"),
        projects,
        project_heights: heights,
        inbox_height: if recent == 0 { 3 } else { recent + 2 },
        inbox_title,
        inbox: draw_inbox(&app.inbox, app.cursor),
        footer,
    }
}

} // verus!
