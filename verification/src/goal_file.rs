//! What a run leaves for clients to find: the file of shown goals, the controls
//! by which a shown goal can be stopped, and the set-up of its turns' tools.

use crate::extension;
use crate::extension::{Goal, GoalStatus};
use crate::json;
use crate::json::{Field, Json, JsonView};
use crate::outside;
use crate::table::Table;
use crate::text;
use vstd::prelude::*;
use vstd::string::*;

verus! {

/// The shown goals, as the file holds them.
#[derive(Debug)]
pub struct GoalFileStore {
    pub goals: Vec<Goal>,
}

/// A text, or null.
pub open spec fn text_or_null(s: Option<Seq<char>>) -> JsonView {
    match s {
        Some(t) => JsonView::Str(t),
        None => JsonView::Null,
    }
}

fn text_json(s: Option<&str>) -> (r: Json)
    ensures
        r@ == text_or_null(text::opt_str(s)),
{
    match s {
        Some(t) => json::string(t),
        None => Json::Null,
    }
}

/// What a shown goal says of its run.
pub open spec fn run_metadata(
    task_id: Seq<char>,
    model: Option<Seq<char>>,
    effort: Option<Seq<char>>,
) -> JsonView {
    JsonView::Obj(
        seq![
            extension::entry("source"@, JsonView::Str("acp_goal_runner"@)),
            extension::entry("taskId"@, JsonView::Str(task_id)),
            extension::entry("model"@, text_or_null(model)),
            extension::entry("effort"@, text_or_null(effort)),
        ],
    )
}

/// What a run wants to be shown.
#[derive(Debug)]
pub struct Shown<'a> {
    pub working_directory: &'a str,
    pub title: &'a str,
    pub description: &'a str,
    pub task_id: &'a str,
    pub session_id: Option<&'a str>,
    pub model: Option<&'a str>,
    pub effort: Option<&'a str>,
}

/// Whether `g` is the record of a goal `id` that a run shows at the time `now`.
pub open spec fn is_record(g: Goal, s: Shown, id: Seq<char>, now: Seq<char>) -> bool {
    &&& g.id@ == id
    &&& g.title@ == s.title@
    &&& g.description@ == s.description@
    &&& g.status == GoalStatus::Active
    &&& g.created_at@ == now
    &&& g.updated_at@ == now
    &&& match s.session_id {
        Some(sid) => g.session_ids@.len() == 1 && g.session_ids@[0]@ == sid@,
        None => g.session_ids@.len() == 0,
    }
    &&& g.progress is None
    &&& g.metadata is Some
    &&& g.metadata->Some_0@ == run_metadata(
        s.task_id@,
        text::opt_str(s.model),
        text::opt_str(s.effort),
    )
    &&& g.steps@.len() == 0
    &&& g.idempotency_key is None
    &&& g.working_directory is Some
    &&& g.working_directory->Some_0@ == s.working_directory@
}

/// Whether `after` is `before` with another status, set at the time `now`.
pub open spec fn restated(before: Goal, after: Goal, status: GoalStatus, now: Seq<char>) -> bool {
    after.updated_at@ == now && after == (Goal {
        status,
        updated_at: after.updated_at,
        ..before
    })
}

impl GoalFileStore {
    /// No goals.
    pub fn new() -> (r: GoalFileStore)
        ensures
            r.goals@ == Seq::<Goal>::empty(),
    {
        GoalFileStore { goals: Vec::new() }
    }

    /// Shows a goal under the identifier `id`.
    pub fn runtime_start(&mut self, shown: Shown, id: &str, now: &str)
        ensures
            final(self).goals@.len() == old(self).goals@.len() + 1,
            final(self).goals@.drop_last() == old(self).goals@,
            is_record(final(self).goals@.last(), shown, id@, now@),
    {
        let mut session_ids: Vec<String> = Vec::new();
        match shown.session_id {
            Some(sid) => session_ids.push(sid.to_owned()),
            None => {},
        }
        let mut f: Vec<Field> = json::no_fields();
        json::put(&mut f, "source", json::string("acp_goal_runner"));
        json::put(&mut f, "taskId", json::string(shown.task_id));
        json::put(&mut f, "model", text_json(shown.model));
        json::put(&mut f, "effort", text_json(shown.effort));
        assert(json::fields_view(f@) =~= run_metadata(
            shown.task_id@,
            text::opt_str(shown.model),
            text::opt_str(shown.effort),
        )->Obj_0);
        self.goals.push(
            Goal {
                id: id.to_owned(),
                title: shown.title.to_owned(),
                description: shown.description.to_owned(),
                status: GoalStatus::Active,
                created_at: now.to_owned(),
                updated_at: now.to_owned(),
                session_ids,
                progress: None,
                metadata: Some(json::object(f)),
                steps: Vec::new(),
                idempotency_key: None,
                working_directory: Some(shown.working_directory.to_owned()),
            },
        );
        assert(self.goals@.drop_last() =~= old(self).goals@);
    }

    /// Shows where the goal `id` stands: the first one under that identifier.
    pub fn runtime_set_status(&mut self, id: &str, status: GoalStatus, now: &str) -> (r: Result<
        (),
        String,
    >)
        ensures
            match r {
                Ok(()) => exists|i: int|
                    {
                        &&& 0 <= i < old(self).goals@.len()
                        &&& old(self).goals@[i].id@ == id@
                        &&& forall|j: int| 0 <= j < i ==> (#[trigger] old(self).goals@[j]).id@ != id@
                        &&& final(self).goals@ == old(self).goals@.update(
                            i,
                            #[trigger] final(self).goals@[i],
                        )
                        &&& restated(old(self).goals@[i], final(self).goals@[i], status, now@)
                    },
                Err(m) => {
                    &&& final(self).goals@ == old(self).goals@
                    &&& forall|j: int|
                        0 <= j < old(self).goals@.len() ==> (#[trigger] old(self).goals@[j]).id@
                            != id@
                    &&& m@ == "goal '"@ + id@ + "' not found"@
                },
            },
    {
        let mut i: usize = 0;
        while i < self.goals.len()
            invariant
                i <= self.goals@.len(),
                self.goals@ == old(self).goals@,
                forall|j: int| 0 <= j < i ==> (#[trigger] old(self).goals@[j]).id@ != id@,
            decreases self.goals.len() - i,
        {
            if text::same(self.goals[i].id.as_str(), id) {
                self.goals[i].status = status;
                self.goals[i].updated_at = now.to_owned();
                assert(restated(
                    old(self).goals@[i as int],
                    self.goals@[i as int],
                    status,
                    now@,
                ));
                assert(self.goals@ =~= old(self).goals@.update(
                    i as int,
                    self.goals@[i as int],
                ));
                return Ok(());
            }
            i += 1;
        }
        let mut m: String = "goal '".to_owned();
        m.append(id);
        m.append("' not found");
        Err(m)
    }
}

/// Whether `s` is an identifier as goals get it that are brought in or shown: a
/// random id behind `goal-`.
pub open spec fn is_generated_id(s: Seq<char>) -> bool {
    &&& s.len() == 41
    &&& s.take(5) == "goal-"@
    &&& outside::is_random_id(s.skip(5))
}

/// An identifier for a shown goal.
pub fn generate_goal_id() -> (r: String)
    ensures
        is_generated_id(r@),
{
    let mut r: String = "goal-".to_owned();
    let tail: String = outside::random_hyphenated();
    r.append(tail.as_str());
    proof {
        reveal_strlit("goal-");
        assert(r@.take(5) =~= "goal-"@);
        assert(r@.skip(5) =~= tail@);
    }
    r
}

/// The control of one run over one shown goal.
#[derive(Debug)]
pub struct RuntimeControl {
    /// Which run it is.
    pub instance_id: String,
    /// Whether the goal was stopped for good.
    pub terminal: bool,
}

impl RuntimeControl {
    /// Whether the goal was stopped for good.
    pub fn is_terminal(&self) -> (r: bool)
        ensures
            r == self.terminal,
    {
        self.terminal
    }
}

/// Which run controls each shown goal.
pub struct RuntimeControls {
    table: Table<String>,
}

impl View for RuntimeControls {
    type V = Map<Seq<char>, Seq<char>>;

    closed spec fn view(&self) -> Map<Seq<char>, Seq<char>> {
        crate::store::text_views(self.table@)
    }
}

/// The controls after the run `instance` lets go of the goal `id`: only its own
/// control goes.
pub open spec fn released(
    m: Map<Seq<char>, Seq<char>>,
    id: Seq<char>,
    instance: Seq<char>,
) -> Map<Seq<char>, Seq<char>> {
    if m.contains_key(id) && m[id] == instance {
        m.remove(id)
    } else {
        m
    }
}

impl RuntimeControls {
    /// Each goal has one control.
    pub closed spec fn wf(self) -> bool {
        self.table.wf()
    }

    /// No controls.
    pub fn new() -> (r: RuntimeControls)
        ensures
            r.wf(),
            r@ == Map::<Seq<char>, Seq<char>>::empty(),
    {
        let r: RuntimeControls = RuntimeControls { table: Table::new() };
        assert(r@ =~= Map::<Seq<char>, Seq<char>>::empty());
        r
    }

    /// Gives the goal `id` a new control, in place of the one that it had.
    pub fn register_runtime_goal(&mut self, id: &str) -> (r: RuntimeControl)
        requires
            old(self).wf(),
        ensures
            final(self).wf(),
            final(self)@ == old(self)@.insert(id@, r.instance_id@),
            outside::is_random_id(r.instance_id@),
            !r.terminal,
    {
        let control: RuntimeControl = RuntimeControl {
            instance_id: outside::random_hyphenated(),
            terminal: false,
        };
        self.table.insert(id, control.instance_id.clone());
        assert(self@ =~= old(self)@.insert(id@, control.instance_id@));
        control
    }

    /// Lets go of the goal `id`, unless another run has taken it over.
    pub fn unregister_runtime_goal(&mut self, id: &str, control: &RuntimeControl)
        requires
            old(self).wf(),
        ensures
            final(self).wf(),
            final(self)@ == released(old(self)@, id@, control.instance_id@),
    {
        let own: bool = match self.table.get(id) {
            Some(current) => text::same(current.as_str(), control.instance_id.as_str()),
            None => false,
        };
        if own {
            let gone: Option<String> = self.table.remove(id);
            assert(self@ =~= old(self)@.remove(id@));
        }
    }
}

/// A run that is over cannot take the control away from the run that came after
/// it.
pub proof fn law_later_run_keeps_control(
    m: Map<Seq<char>, Seq<char>>,
    id: Seq<char>,
    earlier: Seq<char>,
    later: Seq<char>,
)
    requires
        earlier != later,
    ensures
        released(m.insert(id, earlier).insert(id, later), id, earlier) == m.insert(
            id,
            earlier,
        ).insert(id, later),
        !released(m.insert(id, later), id, later).contains_key(id),
{
}

/// `s` with every backslash twice.
pub open spec fn doubled(s: Seq<char>) -> Seq<char>
    decreases s.len(),
{
    if s.len() == 0 {
        Seq::empty()
    } else if s.last() == '\\' {
        doubled(s.drop_last()).push('\\').push('\\')
    } else {
        doubled(s.drop_last()).push(s.last())
    }
}

fn double_backslashes(s: &str) -> (r: String)
    ensures
        r@ == doubled(s@),
{
    let mut r: String = String::new();
    for c in it: s.chars()
        invariant
            r@ == doubled(s@.take(it.index() as int)),
            it.seq() == s@,
    {
        assert(s@.take(it.index() as int + 1).drop_last() == s@.take(it.index() as int));
        r.push(c);
        if c == '\\' {
            r.push('\\');
        }
    }
    assert(s@.take(s@.len() as int) == s@);
    r
}

/// The set-up of a turn's tools, up to the database.
pub const MCP_CONFIG_HEAD: &'static str =
    "{\"mcpServers\":{\"task\":{\"command\":\"task-mcp-server\",\"args\":[\"--db-path\",\"";

/// The set-up of a turn's tools, after the database.
pub const MCP_CONFIG_TAIL: &'static str = "\"]}}}";

/// The set-up of a turn's tools: a server of tasks on the database at `db_path`.
pub fn mcp_config_text(db_path: &str) -> (r: String)
    ensures
        r@ == MCP_CONFIG_HEAD@ + doubled(db_path@) + MCP_CONFIG_TAIL@,
{
    let mut r: String = MCP_CONFIG_HEAD.to_owned();
    r.append(double_backslashes(db_path).as_str());
    r.append(MCP_CONFIG_TAIL);
    r
}

/// What a shown goal records of its run: it is active from its start, under the title,
/// the description and the session that it was given, and names its task.
pub proof fn law_record_is_of_the_run(g: Goal, s: Shown, id: Seq<char>, now: Seq<char>)
    requires
        is_record(g, s, id, now),
    ensures
        g.id@ == id && g.title@ == s.title@ && g.description@ == s.description@,
        g.status is Active,
        g.created_at@ == now && g.updated_at@ == now,
        s.session_id is None ==> g.session_ids@.len() == 0,
        s.session_id matches Some(sid) ==> g.session_ids@.len() == 1 && g.session_ids@[0]@ == sid@,
        g.metadata matches Some(m) && m@.field("taskId"@) == Some(JsonView::Str(s.task_id@))
            && m@.field("source"@) == Some(JsonView::Str("acp_goal_runner"@)),
        g.working_directory matches Some(d) && d@ == s.working_directory@,
{
    reveal_strlit("source");
    reveal_strlit("taskId");
    assert("source"@[0] == 's' && "taskId"@[0] == 't');
    let f = g.metadata->0@->Obj_0;
    assert(f[0].key == "source"@ && f[1].key == "taskId"@);
    extension::lemma_value_at(f, 0, "source"@);
    extension::lemma_value_at(f, 1, "taskId"@);
}

/// A new status changes the status and the time of the change, and nothing else.
pub proof fn law_restating_keeps_the_rest(
    before: Goal,
    after: Goal,
    status: GoalStatus,
    now: Seq<char>,
)
    requires
        restated(before, after, status, now),
    ensures
        after.status == status,
        after.updated_at@ == now,
        after.id == before.id && after.title == before.title && after.description
            == before.description && after.created_at == before.created_at && after.session_ids
            == before.session_ids && after.metadata == before.metadata,
{
}

/// Letting go takes the control of its own run, and no other goal's.
pub proof fn law_release_is_ones_own(
    m: Map<Seq<char>, Seq<char>>,
    id: Seq<char>,
    instance: Seq<char>,
    other: Seq<char>,
)
    ensures
        m.contains_key(id) && m[id] == instance ==> !released(m, id, instance).contains_key(id),
        m.contains_key(id) && m[id] != instance ==> released(m, id, instance) == m,
        other != id ==> released(m, id, instance).contains_key(other) == m.contains_key(other),
        other != id && m.contains_key(other) ==> released(m, id, instance)[other] == m[other],
{
}

/// Backslashes are doubled one by one, and nothing else is touched.
pub proof fn law_doubling(s: Seq<char>, c: char)
    ensures
        doubled(Seq::empty()).len() == 0,
        c == '\\' ==> doubled(s.push(c)) == doubled(s) + seq![c, c],
        c != '\\' ==> doubled(s.push(c)) == doubled(s).push(c),
{
    assert(s.push(c).drop_last() =~= s);
    assert(doubled(s).push(c).push(c) =~= doubled(s) + seq![c, c]);
}

} // verus!
