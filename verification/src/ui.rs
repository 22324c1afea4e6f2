//! The control tower: what it shows, which agent belongs to which project, and
//! what its keys do.
use vstd::prelude::*;
use crate::args;
use crate::attention::{age_seconds_at, Clock};
use crate::attention;
use crate::json::{optional_string, Json, JsonV, Object};
use crate::json;
use crate::order;
use crate::records::effective_status;
use crate::records;
use crate::text;
use crate::text::{byte_part, cat2, contains, decimal, listed, parse_natural, precedes, same, starts_with, strip_prefix, trim};

verus! {

/// A registered project, as the tower reads it.
pub struct FleetEntry {
    pub commander: String,
    pub cwd: String,
    pub status: String,
    pub reported_status: String,
    pub note: String,
    pub updated_at: String,
    pub claim_state: Option<String>,
}

/// The model of a registered project.
pub struct FleetV {
    pub commander: Seq<char>,
    pub cwd: Seq<char>,
    pub status: Seq<char>,
    pub reported_status: Seq<char>,
    pub note: Seq<char>,
    pub updated_at: Seq<char>,
    pub claim_state: Option<Seq<char>>,
}

impl FleetEntry {
    pub open spec fn view(&self) -> FleetV {
        FleetV {
            commander: self.commander@,
            cwd: self.cwd@,
            status: self.status@,
            reported_status: self.reported_status@,
            note: self.note@,
            updated_at: self.updated_at@,
            claim_state: text::opt_string(self.claim_state),
        }
    }
}

/// A registered project with its name.
pub struct Fleet {
    pub name: String,
    pub entry: FleetEntry,
}

/// An agent that Herdr runs.
pub struct Agent {
    pub name: Option<String>,
    pub agent_status: String,
    pub cwd: Option<String>,
}

/// The model of an agent.
pub struct AgentV {
    pub name: Option<Seq<char>>,
    pub agent_status: Seq<char>,
    pub cwd: Option<Seq<char>>,
}

impl Agent {
    pub open spec fn view(&self) -> AgentV {
        AgentV {
            name: text::opt_string(self.name),
            agent_status: self.agent_status@,
            cwd: text::opt_string(self.cwd),
        }
    }
}

pub open spec fn agent_views(agents: Seq<Agent>) -> Seq<AgentV> {
    Seq::new(agents.len(), |i: int| agents[i]@)
}

/// A decision that the tower shows.
pub struct Decision {
    pub id: String,
    pub project: String,
    pub state: String,
    pub question: String,
    pub options: Vec<String>,
    pub created_at: String,
}

/// The model of a decision that the tower shows.
pub struct DecisionV {
    pub id: Seq<char>,
    pub project: Seq<char>,
    pub state: Seq<char>,
    pub question: Seq<char>,
    pub options: Seq<Seq<char>>,
    pub created_at: Seq<char>,
}

impl Decision {
    pub open spec fn view(&self) -> DecisionV {
        DecisionV {
            id: self.id@,
            project: self.project@,
            state: self.state@,
            question: self.question@,
            options: text::texts(self.options@),
            created_at: self.created_at@,
        }
    }
}

pub open spec fn decision_views(decisions: Seq<Decision>) -> Seq<DecisionV> {
    Seq::new(decisions.len(), |i: int| decisions[i]@)
}

/// An entry of the attention queue that the tower shows.
pub struct Attention {
    pub project: String,
    pub priority: i64,
    pub reason: String,
    pub required_actor: String,
    pub action: String,
}

/// The model of an entry of the attention queue that the tower shows.
pub struct AttentionV {
    pub project: Seq<char>,
    pub priority: int,
    pub reason: Seq<char>,
    pub required_actor: Seq<char>,
    pub action: Seq<char>,
}

impl Attention {
    pub open spec fn view(&self) -> AttentionV {
        AttentionV {
            project: self.project@,
            priority: self.priority as int,
            reason: self.reason@,
            required_actor: self.required_actor@,
            action: self.action@,
        }
    }
}

pub open spec fn attention_views(items: Seq<Attention>) -> Seq<AttentionV> {
    Seq::new(items.len(), |i: int| items[i]@)
}

/// An entry of the inbox that the tower shows.
pub struct Inbox {
    pub ts: String,
    pub project: String,
    pub status: String,
    pub summary: String,
}

/// The model of an entry of the inbox that the tower shows.
pub struct InboxV {
    pub ts: Seq<char>,
    pub project: Seq<char>,
    pub status: Seq<char>,
    pub summary: Seq<char>,
}

impl Inbox {
    pub open spec fn view(&self) -> InboxV {
        InboxV {
            ts: self.ts@,
            project: self.project@,
            status: self.status@,
            summary: self.summary@,
        }
    }
}

pub open spec fn inbox_views(items: Seq<Inbox>) -> Seq<InboxV> {
    Seq::new(items.len(), |i: int| items[i]@)
}

/// An agent as a member of a project.
pub struct Member {
    pub name: String,
    pub role: String,
    pub status: String,
}

/// The model of a member.
pub struct MemberV {
    pub name: Seq<char>,
    pub role: Seq<char>,
    pub status: Seq<char>,
}

impl Member {
    pub open spec fn view(&self) -> MemberV {
        MemberV { name: self.name@, role: self.role@, status: self.status@ }
    }
}

pub open spec fn member_views(members: Seq<Member>) -> Seq<MemberV> {
    Seq::new(members.len(), |i: int| members[i]@)
}

/// A project with its members.
pub struct Project {
    pub name: String,
    pub entry: FleetEntry,
    pub status: String,
    pub members: Vec<Member>,
    pub commander_offline: bool,
    pub live_status: String,
}

/// The model of a project with its members.
pub struct ProjectV {
    pub name: Seq<char>,
    pub entry: FleetV,
    pub status: Seq<char>,
    pub members: Seq<MemberV>,
    pub commander_offline: bool,
    pub live_status: Seq<char>,
}

impl Project {
    pub open spec fn view(&self) -> ProjectV {
        ProjectV {
            name: self.name@,
            entry: self.entry@,
            status: self.status@,
            members: member_views(self.members@),
            commander_offline: self.commander_offline,
            live_status: self.live_status@,
        }
    }
}

pub open spec fn project_views(projects: Seq<Project>) -> Seq<ProjectV> {
    Seq::new(projects.len(), |i: int| projects[i]@)
}

/// The entry of a project as a document.
pub open spec fn entry_document(entry: FleetV) -> JsonV {
    JsonV::Object(
        map![
            "commander"@ => JsonV::Text(entry.commander),
            "cwd"@ => JsonV::Text(entry.cwd),
            "status"@ => JsonV::Text(entry.status),
            "reported_status"@ => JsonV::Text(entry.reported_status),
            "note"@ => JsonV::Text(entry.note),
            "updated_at"@ => JsonV::Text(entry.updated_at),
            "claim_state"@ => json::text_or_null(entry.claim_state),
        ],
    )
}

fn entry_value(entry: &FleetEntry) -> (r: Json)
    ensures
        r@ == entry_document(entry@),
{
    let claim_state: Option<&str> = match &entry.claim_state {
        Some(state) => Some(state.as_str()),
        None => None,
    };
    let mut object = Object::new();
    object.put("commander", Json::text(entry.commander.as_str()));
    object.put("cwd", Json::text(entry.cwd.as_str()));
    object.put("status", Json::text(entry.status.as_str()));
    object.put("reported_status", Json::text(entry.reported_status.as_str()));
    object.put("note", Json::text(entry.note.as_str()));
    object.put("updated_at", Json::text(entry.updated_at.as_str()));
    object.put("claim_state", Json::optional(claim_state));
    Json::Object(object)
}

/// An agent belongs to a project: it is its commander, its name begins with
/// that of the project, or it works in its directory.
pub open spec fn belongs(project: Seq<char>, entry: FleetV, agent: AgentV) -> bool {
    agent.name is Some && (agent.name->0 == entry.commander || text::has_prefix(
        agent.name->0,
        project + "-"@,
    ) || (entry.cwd.len() > 0 && agent.cwd == Some(entry.cwd)))
}

/// The role of an agent in a project.
pub open spec fn role_of(project: Seq<char>, entry: FleetV, name: Seq<char>) -> Seq<char> {
    if name == entry.commander {
        "机长"@
    } else if text::occurs(name, "-rev"@) {
        "副机长"@
    } else {
        "乘务 "@ + match text::after_prefix(name, project + "-"@) {
            Some(rest) => rest,
            None => name,
        }
    }
}

/// An agent as a member of a project.
pub open spec fn member_of(project: Seq<char>, entry: FleetV, agent: AgentV) -> MemberV {
    MemberV {
        name: agent.name->0,
        role: role_of(project, entry, agent.name->0),
        status: if agent.agent_status.len() == 0 {
            "unknown"@
        } else {
            agent.agent_status
        },
    }
}

/// What was found of the members of a project among some agents: the members,
/// the names that are taken, and whether the commander is one of them.
pub struct Found {
    pub members: Seq<MemberV>,
    pub claimed: Seq<Seq<char>>,
    pub online: bool,
}

/// The members of a project among the first `count` agents: those that belong
/// to it and were not taken before.
pub open spec fn members_among(
    project: Seq<char>,
    entry: FleetV,
    agents: Seq<AgentV>,
    count: int,
    claimed: Seq<Seq<char>>,
) -> Found
    decreases count,
{
    if count <= 0 {
        Found { members: Seq::empty(), claimed, online: false }
    } else {
        let rest = members_among(project, entry, agents, count - 1, claimed);
        let agent = agents[count - 1];
        if belongs(project, entry, agent) && !rest.claimed.contains(agent.name->0) {
            Found {
                members: rest.members.push(member_of(project, entry, agent)),
                claimed: rest.claimed.push(agent.name->0),
                online: rest.online || agent.name->0 == entry.commander,
            }
        } else {
            rest
        }
    }
}

/// Where a role stands: the commander first, the first officer next.
pub open spec fn role_place(role: Seq<char>) -> int {
    if role == "机长"@ {
        0
    } else if role == "副机长"@ {
        1
    } else {
        2
    }
}

/// One member stands before another.
pub open spec fn stands_before() -> spec_fn(MemberV, MemberV) -> bool {
    |left: MemberV, right: MemberV| role_place(left.role) < role_place(right.role)
}

/// The live status of a project that the tower shows.
pub open spec fn live_label(runtime: JsonV, project: Seq<char>) -> Seq<char> {
    match attention::live_of(runtime, project) {
        Some(live) => match live.optional_string("live_status"@) {
            Some(status) => status,
            None => "unknown"@,
        },
        None => "unknown"@,
    }
}

/// A project with its members, and the names that are taken after it.
pub open spec fn project_with(
    name: Seq<char>,
    entry: FleetV,
    agents: Seq<AgentV>,
    decisions: Seq<JsonV>,
    runtime: JsonV,
    claimed: Seq<Seq<char>>,
) -> (ProjectV, Seq<Seq<char>>) {
    let found = members_among(name, entry, agents, agents.len() as int, claimed);
    (
        ProjectV {
            name,
            entry,
            status: records::effective(entry_document(entry), decisions, name),
            members: order::arranged(found.members, stands_before()),
            commander_offline: !found.online,
            live_status: live_label(runtime, name),
        },
        found.claimed,
    )
}

/// The first `count` projects with their members, and the names that are taken
/// after them: an agent goes to the first project that it belongs to.
pub open spec fn projects_with(
    fleets: Seq<Fleet>,
    count: int,
    agents: Seq<AgentV>,
    decisions: Seq<JsonV>,
    runtime: JsonV,
) -> (Seq<ProjectV>, Seq<Seq<char>>)
    decreases count,
{
    if count <= 0 {
        (Seq::empty(), Seq::empty())
    } else {
        let rest = projects_with(fleets, count - 1, agents, decisions, runtime);
        let next = project_with(
            fleets[count - 1].name@,
            fleets[count - 1].entry@,
            agents,
            decisions,
            runtime,
            rest.1,
        );
        (rest.0.push(next.0), next.1)
    }
}

fn copy_option(value: &Option<String>) -> (r: Option<String>)
    ensures
        text::opt_string(r) == text::opt_string(*value),
{
    match value {
        Some(found) => Some(found.as_str().to_owned()),
        None => None,
    }
}

fn copy_entry(entry: &FleetEntry) -> (r: FleetEntry)
    ensures
        r@ == entry@,
{
    FleetEntry {
        commander: entry.commander.as_str().to_owned(),
        cwd: entry.cwd.as_str().to_owned(),
        status: entry.status.as_str().to_owned(),
        reported_status: entry.reported_status.as_str().to_owned(),
        note: entry.note.as_str().to_owned(),
        updated_at: entry.updated_at.as_str().to_owned(),
        claim_state: copy_option(&entry.claim_state),
    }
}

fn agent_belongs(project: &str, entry: &FleetEntry, agent: &Agent, name: &str) -> (r: bool)
    requires
        agent@.name == Some(name@),
    ensures
        r == belongs(project@, entry@, agent@),
{
    let in_directory = match &agent.cwd {
        Some(cwd) => !entry.cwd.as_str().is_empty() && same(cwd.as_str(), entry.cwd.as_str()),
        None => false,
    };
    same(name, entry.commander.as_str()) || starts_with(name, cat2(project, "-").as_str())
        || in_directory
}

fn agent_role(project: &str, entry: &FleetEntry, name: &str) -> (r: String)
    ensures
        r@ == role_of(project@, entry@, name@),
{
    if same(name, entry.commander.as_str()) {
        "机长".to_owned()
    } else if contains(name, "-rev") {
        "副机长".to_owned()
    } else {
        match strip_prefix(name, cat2(project, "-").as_str()) {
            Some(rest) => cat2("乘务 ", rest.as_str()),
            None => cat2("乘务 ", name),
        }
    }
}

fn place_of(role: &str) -> (r: u8)
    ensures
        r as int == role_place(role@),
{
    if same(role, "机长") {
        0
    } else if same(role, "副机长") {
        1
    } else {
        2
    }
}

fn place_member(members: &mut Vec<Member>, member: Member)
    ensures
        member_views(final(members)@) == order::placed(
            member_views(old(members)@),
            member@,
            stands_before(),
        ),
{
    let place: u8 = place_of(member.role.as_str());
    let mut at: usize = members.len();
    while at > 0 && place < place_of(members[at - 1].role.as_str())
        invariant
            at <= members.len(),
            place as int == role_place(member@.role),
            forall|k: int|
                at <= k < members.len() ==> stands_before()(
                    member@,
                    #[trigger] member_views(members@)[k],
                ),
        decreases at,
    {
        at = at - 1;
    }
    let ghost before = members@;
    members.insert(at, member);
    proof {
        order::lemma_placed_at(member_views(before), member@, stands_before(), at as int);
        assert(member_views(members@) =~= member_views(before).insert(at as int, member@));
    }
}

fn arrange_members(found: Vec<Member>) -> (r: Vec<Member>)
    ensures
        member_views(r@) == order::arranged(member_views(found@), stands_before()),
{
    let ghost all = member_views(found@);
    let mut out: Vec<Member> = Vec::new();
    let mut i: usize = 0;
    proof {
        assert(member_views(out@) =~= order::arranged(all.take(0), stands_before()));
    }
    while i < found.len()
        invariant
            i <= found.len(),
            all == member_views(found@),
            member_views(out@) == order::arranged(all.take(i as int), stands_before()),
        decreases found.len() - i,
    {
        let member = Member {
            name: found[i].name.as_str().to_owned(),
            role: found[i].role.as_str().to_owned(),
            status: found[i].status.as_str().to_owned(),
        };
        proof {
            assert(all.take(i + 1).drop_last() =~= all.take(i as int));
            assert(all.take(i + 1).last() == member@);
        }
        place_member(&mut out, member);
        i = i + 1;
    }
    proof {
        assert(all.take(i as int) =~= all);
    }
    out
}

fn find_members(
    project: &str,
    entry: &FleetEntry,
    agents: &Vec<Agent>,
    claimed: &mut Vec<String>,
) -> (r: (Vec<Member>, bool))
    ensures
        ({
            let found = members_among(
                project@,
                entry@,
                agent_views(agents@),
                agents@.len() as int,
                text::texts(old(claimed)@),
            );
            &&& member_views(r.0@) == found.members
            &&& text::texts(final(claimed)@) == found.claimed
            &&& r.1 == found.online
        }),
{
    let ghost all = agent_views(agents@);
    let ghost start = text::texts(claimed@);
    let mut members: Vec<Member> = Vec::new();
    let mut online = false;
    let mut i: usize = 0;
    proof {
        assert(member_views(members@) =~= Seq::empty());
    }
    while i < agents.len()
        invariant
            i <= agents.len(),
            all == agent_views(agents@),
            ({
                let found = members_among(project@, entry@, all, i as int, start);
                &&& member_views(members@) == found.members
                &&& text::texts(claimed@) == found.claimed
                &&& online == found.online
            }),
        decreases agents.len() - i,
    {
        let agent = &agents[i];
        proof {
            assert(all[i as int] == agent@);
        }
        match &agent.name {
            Some(name) => {
                let own = name.as_str();
                if agent_belongs(project, entry, agent, own) && !listed(claimed.as_slice(), own) {
                    let taken = own.to_owned();
                    let member = Member {
                        name: own.to_owned(),
                        role: agent_role(project, entry, own),
                        status: if agent.agent_status.as_str().is_empty() {
                            "unknown".to_owned()
                        } else {
                            agent.agent_status.as_str().to_owned()
                        },
                    };
                    online = online || same(own, entry.commander.as_str());
                    let ghost before = claimed@;
                    let ghost listed_before = members@;
                    claimed.push(taken);
                    members.push(member);
                    proof {
                        assert(text::texts(claimed@) =~= text::texts(before).push(own@));
                        assert(member_views(members@) =~= member_views(listed_before).push(
                            member@,
                        ));
                    }
                }
            },
            None => {},
        }
        i = i + 1;
    }
    (members, online)
}

fn live_shown(runtime: &Json, project: &str) -> (r: String)
    ensures
        r@ == live_label(runtime@, project@),
{
    match runtime.at("projects").get(project) {
        Some(live) => match optional_string(live, "live_status") {
            Some(status) => status,
            None => "unknown".to_owned(),
        },
        None => "unknown".to_owned(),
    }
}

/// The projects with their members: an agent goes to the first project that it
/// belongs to, and within a project the commander stands first.
pub fn group_projects(
    fleets: &Vec<Fleet>,
    agents: &Vec<Agent>,
    decisions: &[Json],
    runtime: &Json,
) -> (r: Vec<Project>)
    ensures
        project_views(r@) == projects_with(
            fleets@,
            fleets@.len() as int,
            agent_views(agents@),
            json::views(decisions@),
            runtime@,
        ).0,
{
    let mut claimed: Vec<String> = Vec::new();
    let mut out: Vec<Project> = Vec::new();
    let mut i: usize = 0;
    proof {
        assert(text::texts(claimed@) =~= Seq::empty());
        assert(project_views(out@) =~= Seq::empty());
    }
    while i < fleets.len()
        invariant
            i <= fleets.len(),
            (project_views(out@), text::texts(claimed@)) == projects_with(
                fleets@,
                i as int,
                agent_views(agents@),
                json::views(decisions@),
                runtime@,
            ),
        decreases fleets.len() - i,
    {
        let name = fleets[i].name.as_str();
        let entry = &fleets[i].entry;
        let status = effective_status(&entry_value(entry), decisions, name);
        let (members, online) = find_members(name, entry, agents, &mut claimed);
        let project = Project {
            name: name.to_owned(),
            entry: copy_entry(entry),
            status,
            members: arrange_members(members),
            commander_offline: !online,
            live_status: live_shown(runtime, name),
        };
        let ghost before = out@;
        out.push(project);
        proof {
            assert(project_views(out@) =~= project_views(before).push(project@));
        }
        i = i + 1;
    }
    out
}

pub open spec fn waiting() -> spec_fn(DecisionV) -> bool {
    |decision: DecisionV| decision.state == "open"@
}

fn keep_open(decisions: &Vec<Decision>) -> (r: Vec<Decision>)
    ensures
        decision_views(r@) == decision_views(decisions@).filter(waiting()),
{
    let ghost all = decision_views(decisions@);
    let mut out: Vec<Decision> = Vec::new();
    let mut i: usize = 0;
    proof {
        reveal(Seq::filter);
        assert(decision_views(out@) =~= all.take(0).filter(waiting()));
    }
    while i < decisions.len()
        invariant
            i <= decisions.len(),
            all == decision_views(decisions@),
            decision_views(out@) == all.take(i as int).filter(waiting()),
        decreases decisions.len() - i,
    {
        let item = &decisions[i];
        proof {
            reveal(Seq::filter);
            assert(all.take(i + 1).drop_last() =~= all.take(i as int));
            assert(all.take(i + 1).last() == item@);
        }
        if same(item.state.as_str(), "open") {
            let copy = Decision {
                id: item.id.as_str().to_owned(),
                project: item.project.as_str().to_owned(),
                state: item.state.as_str().to_owned(),
                question: item.question.as_str().to_owned(),
                options: args::copies(item.options.as_slice()),
                created_at: item.created_at.as_str().to_owned(),
            };
            let ghost before = out@;
            out.push(copy);
            proof {
                assert(decision_views(out@) =~= decision_views(before).push(item@));
            }
        }
        i = i + 1;
    }
    proof {
        assert(all.take(i as int) =~= all);
    }
    out
}

/// What the tower reads: the documents, as far as they could be read.
pub struct Documents {
    pub fleets: Vec<Fleet>,
    pub decisions: Vec<Decision>,
    pub attention: Vec<Attention>,
    pub inbox: Vec<Inbox>,
    pub agents: Vec<Agent>,
    /// The decisions as they are stored.
    pub records: Vec<Json>,
    pub runtime: Json,
    /// The text of the cursor of the inbox.
    pub cursor: Option<String>,
}

/// The names of projects.
pub open spec fn fleet_names(fleets: Seq<Fleet>) -> Seq<Seq<char>> {
    Seq::new(fleets.len(), |i: int| fleets[i].name@)
}

/// The names of projects with their members.
pub open spec fn project_names(projects: Seq<ProjectV>) -> Seq<Seq<char>> {
    projects.map_values(|project: ProjectV| project.name)
}

impl Documents {
    /// The projects come in the order of their names, each once.
    pub open spec fn in_order(&self) -> bool {
        json::increasing(fleet_names(self.fleets@))
    }

    /// Whether the projects come in the order of their names, each once.
    pub fn is_ordered(&self) -> (r: bool)
        ensures
            r == self.in_order(),
    {
        let ghost names = fleet_names(self.fleets@);
        let mut i: usize = 1;
        while i < self.fleets.len()
            invariant
                1 <= i,
                i <= self.fleets.len() || self.fleets.len() == 0,
                names == fleet_names(self.fleets@),
                forall|a: int, b: int|
                    0 <= a < b < i && b < names.len() ==> text::before(
                        #[trigger] names[a],
                        #[trigger] names[b],
                    ),
            decreases self.fleets.len() - i,
        {
            if !precedes(self.fleets[i - 1].name.as_str(), self.fleets[i].name.as_str()) {
                proof {
                    assert(!text::before(names[i - 1], names[i as int]));
                }
                return false;
            }
            proof {
                assert forall|a: int, b: int| 0 <= a < b < i + 1 && b < names.len() implies text::before(
                    #[trigger] names[a],
                    #[trigger] names[b],
                ) by {
                    if b == i && a < i - 1 {
                        text::lemma_before_transitive(names[a], names[i - 1], names[b]);
                    }
                }
            }
            i = i + 1;
        }
        true
    }
}

/// The projects with their members have the names of the projects.
proof fn lemma_project_names(
    fleets: Seq<Fleet>,
    count: int,
    agents: Seq<AgentV>,
    decisions: Seq<JsonV>,
    runtime: JsonV,
)
    requires
        0 <= count <= fleets.len(),
    ensures
        project_names(projects_with(fleets, count, agents, decisions, runtime).0) == fleet_names(
            fleets,
        ).take(count),
    decreases count,
{
    let all = projects_with(fleets, count, agents, decisions, runtime).0;
    if count > 0 {
        lemma_project_names(fleets, count - 1, agents, decisions, runtime);
        let rest = projects_with(fleets, count - 1, agents, decisions, runtime).0;
        assert(project_names(all) =~= project_names(rest).push(fleets[count - 1].name@));
        assert(fleet_names(fleets).take(count) =~= fleet_names(fleets).take(count - 1).push(
            fleets[count - 1].name@,
        ));
    } else {
        assert(project_names(all) =~= fleet_names(fleets).take(count));
    }
}

/// The control tower.
pub struct App {
    pub dir: String,
    pub projects: Vec<Project>,
    pub decisions: Vec<Decision>,
    pub attention: Vec<Attention>,
    pub inbox: Vec<Inbox>,
    pub cursor: u64,
    pub agents: Vec<Agent>,
    pub connected: bool,
    pub error: Option<String>,
    pub synced_at: String,
    pub expanded: Vec<String>,
    pub message: String,
}

/// The time of day in a written time, or dashes.
pub open spec fn time_of_day(written: Option<Seq<char>>) -> Seq<char> {
    match written {
        Some(time) => match text::between_bytes(time, 11, 19) {
            Some(part) => part,
            None => "--:--:--"@,
        },
        None => "--:--:--"@,
    }
}

pub fn clock_time(written: Option<&str>) -> (r: String)
    ensures
        r@ == time_of_day(text::opt_text(written)),
{
    match written {
        Some(time) => match byte_part(time, 11, 19) {
            Some(part) => part,
            None => "--:--:--".to_owned(),
        },
        None => "--:--:--".to_owned(),
    }
}

/// How many entries of the inbox are read, by the text of the cursor.
pub open spec fn cursor_in(body: Option<Seq<char>>) -> nat {
    match body {
        Some(body) => match text::natural(text::trimmed(body)) {
            Some(n) => n,
            None => 0,
        },
        None => 0,
    }
}

/// The project that is selected after a load: none where there is none, and
/// the first where the one before is not there.
pub open spec fn selection(selected: Option<usize>, count: nat) -> Option<usize> {
    if count == 0 {
        None
    } else {
        match selected {
            Some(index) => if index < count {
                Some(index)
            } else {
                Some(0usize)
            },
            None => Some(0usize),
        }
    }
}

impl App {
    /// A tower that has read nothing yet.
    pub fn new(dir: &str) -> (r: App)
        ensures
            r.dir@ == dir@,
            r.projects@.len() == 0,
            r.decisions@.len() == 0,
            r.attention@.len() == 0,
            r.inbox@.len() == 0,
            r.cursor == 0,
            r.agents@.len() == 0,
            !r.connected,
            r.error is None,
            r.synced_at@.len() == 0,
            r.expanded@.len() == 0,
            r.message@.len() == 0,
    {
        App {
            dir: dir.to_owned(),
            projects: Vec::new(),
            decisions: Vec::new(),
            attention: Vec::new(),
            inbox: Vec::new(),
            cursor: 0,
            agents: Vec::new(),
            connected: false,
            error: None,
            synced_at: String::new(),
            expanded: Vec::new(),
            message: String::new(),
        }
    }

    /// Takes the documents in. Gives the project that is then selected.
    pub fn load(&mut self, documents: Documents, selected: Option<usize>) -> (r: Option<usize>)
        requires
            documents.in_order(),
        ensures
            project_names(project_views(final(self).projects@)) == fleet_names(documents.fleets@),
            json::increasing(project_names(project_views(final(self).projects@))),
            final(self).connected == documents.runtime@.flag("connected"@, false),
            agent_views(final(self).agents@) == if final(self).connected {
                agent_views(documents.agents@)
            } else {
                Seq::empty()
            },
            project_views(final(self).projects@) == projects_with(
                documents.fleets@,
                documents.fleets@.len() as int,
                agent_views(final(self).agents@),
                json::views(documents.records@),
                documents.runtime@,
            ).0,
            decision_views(final(self).decisions@) == decision_views(documents.decisions@).filter(
                waiting(),
            ),
            final(self).attention == documents.attention,
            final(self).inbox == documents.inbox,
            final(self).cursor as nat == cursor_in(text::opt_string(documents.cursor)),
            text::opt_string(final(self).error) == documents.runtime@.optional_string("error"@),
            final(self).synced_at@ == time_of_day(
                documents.runtime@.optional_string("updated_at"@),
            ),
            final(self).dir == old(self).dir,
            final(self).expanded == old(self).expanded,
            final(self).message == old(self).message,
            r == selection(selected, documents.fleets@.len()),
    {
        let updated = optional_string(&documents.runtime, "updated_at");
        let count: usize = documents.fleets.len();
        self.connected = documents.runtime.flag("connected", false);
        self.error = optional_string(&documents.runtime, "error");
        self.synced_at =
        match &updated {
            Some(time) => clock_time(Some(time.as_str())),
            None => clock_time(None),
        };
        self.cursor =
        match &documents.cursor {
            Some(body) => match parse_natural(trim(body.as_str()).as_str()) {
                Some(n) => n,
                None => 0,
            },
            None => 0,
        };
        self.agents =
        if self.connected {
            documents.agents
        } else {
            Vec::new()
        };
        proof {
            if !self.connected {
                assert(agent_views(self.agents@) =~= Seq::empty());
            }
        }
        self.decisions = keep_open(&documents.decisions);
        self.projects =
        group_projects(
            &documents.fleets,
            &self.agents,
            documents.records.as_slice(),
            &documents.runtime,
        );
        proof {
            lemma_project_names(
                documents.fleets@,
                count as int,
                agent_views(self.agents@),
                json::views(documents.records@),
                documents.runtime@,
            );
            assert(fleet_names(documents.fleets@).take(count as int) =~= fleet_names(
                documents.fleets@,
            ));
        }
        self.attention = documents.attention;
        self.inbox = documents.inbox;
        if count == 0 {
            None
        } else {
            match selected {
                Some(index) => if index < count {
                    Some(index)
                } else {
                    Some(0)
                },
                None => Some(0),
            }
        }
    }

    /// Shows the members of every project.
    pub fn expand_all(&mut self)
        ensures
            text::texts(final(self).expanded@) == project_views(old(self).projects@).map_values(
                |project: ProjectV| project.name,
            ),
            final(self).projects == old(self).projects,
            final(self).decisions == old(self).decisions,
            final(self).attention == old(self).attention,
            final(self).inbox == old(self).inbox,
            final(self).cursor == old(self).cursor,
            final(self).agents == old(self).agents,
            final(self).connected == old(self).connected,
            final(self).error == old(self).error,
            final(self).synced_at == old(self).synced_at,
            final(self).message == old(self).message,
            final(self).dir == old(self).dir,
    {
        let ghost goal = project_views(self.projects@).map_values(
            |project: ProjectV| project.name,
        );
        let mut names: Vec<String> = Vec::new();
        let mut i: usize = 0;
        proof {
            assert(text::texts(names@) =~= goal.take(0));
        }
        while i < self.projects.len()
            invariant
                i <= self.projects.len(),
                *self == *old(self),
                goal == project_views(self.projects@).map_values(|project: ProjectV| project.name),
                text::texts(names@) == goal.take(i as int),
            decreases self.projects.len() - i,
        {
            let name = self.projects[i].name.as_str().to_owned();
            let ghost before = names@;
            names.push(name);
            proof {
                assert(goal[i as int] == name@);
                assert(text::texts(names@) =~= text::texts(before).push(name@));
                assert(goal.take(i as int).push(name@) =~= goal.take(i + 1));
            }
            i = i + 1;
        }
        proof {
            assert(goal.take(i as int) =~= goal);
        }
        self.expanded = names;
    }

    /// Shows or hides the members of the selected project.
    pub fn toggle(&mut self, selected: Option<usize>)
        ensures
            text::texts(final(self).expanded@) == match selected {
                Some(index) => if index < old(self).projects@.len() {
                    toggled(
                        text::texts(old(self).expanded@),
                        old(self).projects@[index as int].name@,
                    )
                } else {
                    text::texts(old(self).expanded@)
                },
                None => text::texts(old(self).expanded@),
            },
            final(self).projects == old(self).projects,
            final(self).decisions == old(self).decisions,
            final(self).attention == old(self).attention,
            final(self).inbox == old(self).inbox,
            final(self).cursor == old(self).cursor,
            final(self).agents == old(self).agents,
            final(self).connected == old(self).connected,
            final(self).error == old(self).error,
            final(self).synced_at == old(self).synced_at,
            final(self).message == old(self).message,
            final(self).dir == old(self).dir,
    {
        let index: usize = match selected {
            Some(index) => index,
            None => {
                return;
            },
        };
        if index >= self.projects.len() {
            return;
        }
        let name = self.projects[index].name.as_str().to_owned();
        if listed(self.expanded.as_slice(), name.as_str()) {
            let rest = without(self.expanded.as_slice(), name.as_str());
            self.expanded = rest;
        } else {
            let mut more = args::copies(self.expanded.as_slice());
            let ghost before = more@;
            more.push(name);
            proof {
                assert(text::texts(more@) =~= text::texts(before).push(name@));
            }
            self.expanded = more;
        }
    }

    /// Notes that the inbox is read, where the cursor could be written.
    pub fn mark_read(&mut self, written: bool)
        ensures
            final(self).cursor as int == if written {
                old(self).inbox@.len() as int
            } else {
                old(self).cursor as int
            },
            final(self).message@ == if written {
                "收件箱已读"@
            } else {
                old(self).message@
            },
            final(self).inbox == old(self).inbox,
            final(self).projects == old(self).projects,
            final(self).decisions == old(self).decisions,
            final(self).attention == old(self).attention,
            final(self).agents == old(self).agents,
            final(self).connected == old(self).connected,
            final(self).error == old(self).error,
            final(self).synced_at == old(self).synced_at,
            final(self).expanded == old(self).expanded,
            final(self).dir == old(self).dir,
    {
        if written {
            self.cursor = self.inbox.len() as u64;
            self.message = "收件箱已读".to_owned();
        }
    }

    /// The text of the cursor once the inbox is read.
    pub fn read_cursor(&self) -> (r: String)
        ensures
            r@ == text::digits(self.inbox@.len()),
    {
        decimal(self.inbox.len() as u64)
    }
}

/// The names that are not a given one.
pub open spec fn others(name: Seq<char>) -> spec_fn(Seq<char>) -> bool {
    |other: Seq<char>| other != name
}

/// The names after one was taken out, or put in where it was not there.
pub open spec fn toggled(names: Seq<Seq<char>>, name: Seq<char>) -> Seq<Seq<char>> {
    if names.contains(name) {
        names.filter(others(name))
    } else {
        names.push(name)
    }
}

fn without(names: &[String], name: &str) -> (r: Vec<String>)
    ensures
        text::texts(r@) == text::texts(names@).filter(others(name@)),
{
    let ghost all = text::texts(names@);
    let ghost wanted = others(name@);
    let mut out: Vec<String> = Vec::new();
    let mut i: usize = 0;
    proof {
        reveal(Seq::filter);
        assert(text::texts(out@) =~= all.take(0).filter(wanted));
    }
    while i < names.len()
        invariant
            i <= names.len(),
            all == text::texts(names@),
            wanted == others(name@),
            text::texts(out@) == all.take(i as int).filter(wanted),
        decreases names.len() - i,
    {
        proof {
            reveal(Seq::filter);
            assert(all.take(i + 1).drop_last() =~= all.take(i as int));
            assert(all.take(i + 1).last() == names@[i as int]@);
        }
        if !same(names[i].as_str(), name) {
            let copy = names[i].as_str().to_owned();
            let ghost before = out@;
            out.push(copy);
            proof {
                assert(text::texts(out@) =~= text::texts(before).push(copy@));
            }
        }
        i = i + 1;
    }
    proof {
        assert(all.take(i as int) =~= all);
    }
    out
}

/// What is said when Herdr was asked for a snapshot by hand.
pub fn reconcile_message(error: Option<&str>) -> (r: String)
    ensures
        r@ == match text::opt_text(error) {
            None => "已重新对账"@,
            Some(words) => "对账失败："@ + words,
        },
{
    match error {
        None => "已重新对账".to_owned(),
        Some(words) => cat2("对账失败：", words),
    }
}

/// What is said when the attention queue was rebuilt by hand.
pub fn rebuild_message(error: Option<&str>) -> (r: String)
    ensures
        r@ == match text::opt_text(error) {
            None => "注意力队列已重建"@,
            Some(words) => "重建失败："@ + words,
        },
{
    match error {
        None => "注意力队列已重建".to_owned(),
        Some(words) => cat2("重建失败：", words),
    }
}

/// The sum of the heights from `from` up to `to`.
pub open spec fn height_between(heights: Seq<u16>, from: int, to: int) -> int
    decreases to - from,
{
    if from >= to {
        0
    } else {
        height_between(heights, from, to - 1) + heights[to - 1]
    }
}

/// The item of a framed list that covers a row: the first whose end lies
/// behind the row, counted from the first item that is shown. None where the
/// row lies outside the frame or behind the last item.
pub open spec fn covers(
    heights: Seq<u16>,
    offset: int,
    top: int,
    height: int,
    row: int,
    index: int,
) -> bool {
    &&& top + 1 <= row < top + (if height > 0 { height - 1 } else { 0 })
    &&& offset <= index < heights.len()
    &&& row < top + 1 + height_between(heights, offset, index + 1)
    &&& forall|k: int|
        offset <= k < index ==> row >= top + 1 + #[trigger] height_between(heights, offset, k + 1)
}

/// The item of a framed list that covers a row, where one does.
pub fn item_at(heights: &[u16], offset: usize, top: u16, height: u16, row: u16) -> (r: Option<usize>)
    ensures
        match r {
            Some(index) => covers(
                heights@,
                offset as int,
                top as int,
                height as int,
                row as int,
                index as int,
            ),
            None => forall|index: int|
                !covers(heights@, offset as int, top as int, height as int, row as int, index),
        },
{
    let start: u64 = top as u64 + 1;
    let inner: u64 = if height > 0 {
        (height - 1) as u64
    } else {
        0
    };
    if (row as u64) < start || row as u64 >= top as u64 + inner {
        return None;
    }
    let mut current: u64 = start;
    let mut i: usize = offset;
    while i < heights.len()
        invariant
            start == top as u64 + 1,
            offset <= i,
            i <= heights.len() || i == offset,
            current as int == top + 1 + height_between(heights@, offset as int, i as int),
            start <= row,
            (row as int) < top as int + (if height > 0 {
                height as int - 1
            } else {
                0
            }),
            current <= row,
            forall|k: int|
                offset <= k < i ==> row as int >= top as int + 1 + #[trigger] height_between(
                    heights@,
                    offset as int,
                    k + 1,
                ),
        decreases heights.len() - i,
    {
        let end: u64 = current + heights[i] as u64;
        if (row as u64) < end {
            return Some(i);
        }
        current = end;
        i = i + 1;
    }
    proof {
        assert forall|index: int|
            !covers(heights@, offset as int, top as int, height as int, row as int, index) by {
            if offset <= index < heights.len() {
                assert(row as int >= top as int + 1 + height_between(
                    heights@,
                    offset as int,
                    index + 1,
                ));
            }
        }
    }
    None
}

/// What a key or the mouse asks the tower to do.
#[derive(Debug, Clone, Copy, PartialEq, Eq, Structural)]
pub enum Gesture {
    Quit,
    Previous,
    Next,
    Toggle,
    Reconcile,
    Rebuild,
    MarkRead,
    Nothing,
}

/// What a key that types a character asks for.
pub fn on_char(key: char) -> (r: Gesture)
    ensures
        r == if key == 'q' {
            Gesture::Quit
        } else if key == 'k' {
            Gesture::Previous
        } else if key == 'j' {
            Gesture::Next
        } else if key == 'r' {
            Gesture::Reconcile
        } else if key == 'a' {
            Gesture::Rebuild
        } else if key == 'm' {
            Gesture::MarkRead
        } else {
            Gesture::Nothing
        },
{
    if key == 'q' {
        Gesture::Quit
    } else if key == 'k' {
        Gesture::Previous
    } else if key == 'j' {
        Gesture::Next
    } else if key == 'r' {
        Gesture::Reconcile
    } else if key == 'a' {
        Gesture::Rebuild
    } else if key == 'm' {
        Gesture::MarkRead
    } else {
        Gesture::Nothing
    }
}

/// How long ago, in words.
pub open spec fn ago_words(seconds: int) -> Seq<char> {
    if seconds < 60 {
        text::digits(seconds as nat) + "秒前"@
    } else if seconds < 3600 {
        text::digits((seconds / 60) as nat) + "分钟前"@
    } else if seconds < 86400 {
        text::digits((seconds / 3600) as nat) + "小时前"@
    } else {
        text::digits((seconds / 86400) as nat) + "天前"@
    }
}

/// How long ago a written time was, in words.
pub open spec fn ago_of(value: Seq<char>, moment: (int, int)) -> Seq<char> {
    ago_words(attention::age_at(Some(value), moment))
}

/// How long ago a written time was, in words, at a reading of the clock.
pub fn ago_at(value: &str, clock: &Clock) -> (r: String)
    ensures
        r@ == ago_of(value@, clock@.moment),
{
    let seconds: i64 = age_seconds_at(Some(value), clock.moment);
    if seconds < 60 {
        cat2(decimal(seconds as u64).as_str(), "秒前")
    } else if seconds < 3600 {
        cat2(decimal((seconds / 60) as u64).as_str(), "分钟前")
    } else if seconds < 86400 {
        cat2(decimal((seconds / 3600) as u64).as_str(), "小时前")
    } else {
        cat2(decimal((seconds / 86400) as u64).as_str(), "天前")
    }
}

/// How long ago a written time was, in words.
pub fn ago(value: &str) -> (r: String)
    ensures
        exists|moment: (int, int)| r@ == #[trigger] ago_of(value@, moment),
{
    let clock = Clock::read();
    ago_at(value, &clock)
}

/// A status in words.
pub open spec fn label_of(status: Seq<char>) -> Seq<char> {
    if status == "working"@ {
        "进行中"@
    } else if status == "idle"@ {
        "空闲"@
    } else if status == "done"@ {
        "已完成"@
    } else if status == "blocked"@ {
        "受阻"@
    } else if status == "need_decision"@ {
        "等你拍板"@
    } else if status == "offline"@ {
        "离线"@
    } else if status == "reported"@ {
        "机长声明"@
    } else if status == "verified"@ {
        "机器已验证"@
    } else if status == "accepted"@ {
        "用户已验收"@
    } else {
        "未知"@
    }
}

/// A status in words.
pub fn status_label(status: &str) -> (r: &'static str)
    ensures
        r@ == label_of(status@),
{
    if same(status, "working") {
        "进行中"
    } else if same(status, "idle") {
        "空闲"
    } else if same(status, "done") {
        "已完成"
    } else if same(status, "blocked") {
        "受阻"
    } else if same(status, "need_decision") {
        "等你拍板"
    } else if same(status, "offline") {
        "离线"
    } else if same(status, "reported") {
        "机长声明"
    } else if same(status, "verified") {
        "机器已验证"
    } else if same(status, "accepted") {
        "用户已验收"
    } else {
        "未知"
    }
}

} // verus!
