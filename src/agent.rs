//! The agent: conversation memory and the decisions of one user turn. Generation
//! and query execution are done by the caller, which reports back what came of them.
use vstd::prelude::*;
use crate::chat::{messages_view, Message, MessageView, Role};
use crate::text::has_prefix;
use crate::tool::{
    extract_sql, extracted_query, format_results, formatted, tool_error_text, QueryResult,
    ToolError,
};

verus! {

/// How an agent is set up.
#[derive(Clone, Debug, PartialEq, Eq)]
pub struct AgentConfig {
    /// The first message of every conversation.
    pub system_prompt: String,
    /// How many tool rounds a turn may take; `None` for no limit.
    pub max_iterations: Option<usize>,
}

/// Where the agent stands within a turn.
#[derive(Clone, Copy, Debug, PartialEq, Eq, Structural)]
pub enum Phase {
    /// Between turns.
    Idle,
    /// Waiting for the model's reply to the rendered memory.
    AwaitingReply,
    /// Waiting for the outcome of the query it asked to run.
    AwaitingResult,
}

/// What the caller is to do next.
#[derive(Clone, Debug, PartialEq, Eq)]
pub enum TurnAction {
    /// Render the memory, generate a reply and hand it to `on_reply`.
    Generate,
    /// Run the query and hand the outcome to `on_query_result`.
    Execute { query: String },
    /// The turn is over; `capped` when the iteration limit ended it.
    Finished { capped: bool },
}

/// The meaning of a `TurnAction`.
pub enum ActionView {
    Generate,
    Execute(Seq<char>),
    Finished(bool),
}

impl View for TurnAction {
    type V = ActionView;

    open spec fn view(&self) -> ActionView {
        match self {
            TurnAction::Generate => ActionView::Generate,
            TurnAction::Execute { query } => ActionView::Execute(query@),
            TurnAction::Finished { capped } => ActionView::Finished(*capped),
        }
    }
}

/// The state of an agent.
pub struct AgentView {
    pub memory: Seq<MessageView>,
    pub prompt: Seq<char>,
    pub max_iterations: Option<nat>,
    pub last_sql: Option<Seq<char>>,
    pub iterations: nat,
    pub phase: Phase,
}

/// A conversation with the model, with the SQL tool at its disposal.
pub struct Agent {
    memory: Vec<Message>,
    prompt: Ghost<Seq<char>>,
    max_iterations: Option<usize>,
    last_sql: Option<String>,
    iterations: usize,
    phase: Phase,
}

impl View for Agent {
    type V = AgentView;

    closed spec fn view(&self) -> AgentView {
        AgentView {
            memory: messages_view(self.memory@),
            prompt: self.prompt@,
            max_iterations: match self.max_iterations {
                Some(m) => Some(m as nat),
                None => None,
            },
            last_sql: match self.last_sql {
                Some(s) => Some(s@),
                None => None,
            },
            iterations: self.iterations as nat,
            phase: self.phase,
        }
    }
}

pub open spec fn system_note(text: Seq<char>) -> MessageView {
    MessageView { role: Role::System, text }
}

/// A System message that carries tool output for the current turn only.
pub open spec fn is_tool_note(m: MessageView) -> bool {
    m.role == Role::System && ("<sql_result>"@.is_prefix_of(m.text) || "<sql_error>"@.is_prefix_of(
        m.text,
    ))
}

/// The messages of `s` that are not tool notes, in order.
pub open spec fn without_tool_notes(s: Seq<MessageView>) -> Seq<MessageView>
    decreases s.len(),
{
    if s.len() == 0 {
        s
    } else {
        let rest = without_tool_notes(s.drop_last());
        if is_tool_note(s.last()) {
            rest
        } else {
            rest.push(s.last())
        }
    }
}

/// Memory after a turn: the first message, then every later one that is no tool note.
pub open spec fn pruned(mem: Seq<MessageView>) -> Seq<MessageView> {
    seq![mem[0]] + without_tool_notes(mem.subrange(1, mem.len() as int))
}

/// The System message that carries a query's outcome.
pub open spec fn outcome_note(outcome: Result<QueryResult, ToolError>) -> Seq<char> {
    match outcome {
        Ok(r) => "<sql_result>\n"@ + formatted(r.rows@) + "\n</sql_result>"@,
        Err(e) => "<sql_error>"@ + tool_error_text(e) + "</sql_error>"@,
    }
}

/// The System message that answers a query identical to the one run just before.
pub open spec fn repeat_hint(q: Seq<char>) -> Seq<char> {
    "<sql_result>\nYou already ran this query: "@ + q
        + "\nIts result was not the expected one. Try:\n1. A DIFFERENT query\n2. A simpler query\n3. Telling the user that there is a problem with the data\n</sql_result>"@
}

/// The state at the end of a turn: tool notes pruned, no query remembered.
pub open spec fn finish(a: AgentView) -> AgentView {
    AgentView { memory: pruned(a.memory), last_sql: None, phase: Phase::Idle, ..a }
}

/// One tool round is over: count it, and end the turn when the limit is reached.
pub open spec fn count_iteration(a: AgentView) -> (AgentView, ActionView) {
    match a.max_iterations {
        Some(m) => if a.iterations + 1 >= m {
            (finish(AgentView { iterations: a.iterations + 1, ..a }), ActionView::Finished(true))
        } else {
            (
                AgentView { iterations: a.iterations + 1, phase: Phase::AwaitingReply, ..a },
                ActionView::Generate,
            )
        },
        None => (AgentView { phase: Phase::AwaitingReply, ..a }, ActionView::Generate),
    }
}

/// A user's input opens a turn.
pub open spec fn begin_step(a: AgentView, input: Seq<char>) -> (AgentView, ActionView) {
    let b = AgentView {
        memory: a.memory.push(MessageView { role: Role::User, text: input }),
        iterations: 0,
        ..a
    };
    if a.max_iterations == Some(0nat) {
        (finish(b), ActionView::Finished(true))
    } else {
        (AgentView { phase: Phase::AwaitingReply, ..b }, ActionView::Generate)
    }
}

/// The model replied: remember the reply, then run its query, refuse a repeated
/// one, or end the turn when it asks for none.
pub open spec fn reply_step(a: AgentView, content: Seq<char>) -> (AgentView, ActionView) {
    let b = AgentView {
        memory: a.memory.push(MessageView { role: Role::Assistant, text: content }),
        ..a
    };
    match extracted_query(content) {
        None => (finish(b), ActionView::Finished(false)),
        Some(q) => if a.last_sql == Some(q) {
            count_iteration(AgentView { memory: b.memory.push(system_note(repeat_hint(q))), ..b })
        } else {
            (AgentView { last_sql: Some(q), phase: Phase::AwaitingResult, ..b }, ActionView::Execute(q))
        },
    }
}

/// The query ran, or failed: remember the outcome as a tool note.
pub open spec fn result_step(a: AgentView, outcome: Result<QueryResult, ToolError>) -> (
    AgentView,
    ActionView,
) {
    count_iteration(AgentView { memory: a.memory.push(system_note(outcome_note(outcome))), ..a })
}

impl AgentView {
    /// The invariant of an agent.
    pub open spec fn wf(self) -> bool {
        &&& self.memory.len() >= 1
        &&& self.memory[0] == system_note(self.prompt)
        &&& self.phase == Phase::Idle ==> {
            &&& self.last_sql is None
            &&& forall|i: int| 1 <= i < self.memory.len() ==> !is_tool_note(#[trigger] self.memory[i])
        }
        &&& self.phase != Phase::Idle ==> match self.max_iterations {
            Some(m) => self.iterations < m,
            None => true,
        }
    }
}

proof fn lemma_without_tool_notes(s: Seq<MessageView>)
    ensures
        forall|i: int|
            0 <= i < without_tool_notes(s).len() ==> !is_tool_note(#[trigger] without_tool_notes(s)[i]),
    decreases s.len(),
{
    if s.len() > 0 {
        lemma_without_tool_notes(s.drop_last());
        let rest = without_tool_notes(s.drop_last());
        let w = without_tool_notes(s);
        assert forall|i: int| 0 <= i < w.len() implies !is_tool_note(#[trigger] w[i]) by {
            if i < rest.len() {
                assert(w[i] == rest[i]);
            }
        }
    }
}

proof fn lemma_finish_wf(a: AgentView)
    requires
        a.memory.len() >= 1,
        a.memory[0] == system_note(a.prompt),
    ensures
        finish(a).wf(),
{
    lemma_without_tool_notes(a.memory.subrange(1, a.memory.len() as int));
    let p = pruned(a.memory);
    assert forall|i: int| 1 <= i < p.len() implies !is_tool_note(#[trigger] p[i]) by {
        assert(p[i] == without_tool_notes(a.memory.subrange(1, a.memory.len() as int))[i - 1]);
    }
}

/// A query is not run twice in a row: when the model asks for the query it asked for
/// just before, that reply does not run it; a hint is remembered instead and the turn
/// goes on, unless the iteration limit ends it.
pub proof fn lemma_repeated_query_not_rerun(
    a: AgentView,
    first: Seq<char>,
    outcome: Result<QueryResult, ToolError>,
    second: Seq<char>,
    q: Seq<char>,
)
    requires
        a.wf(),
        a.phase == Phase::AwaitingReply,
        a.last_sql != Some(q),
        extracted_query(first) == Some(q),
        extracted_query(second) == Some(q),
    ensures
        reply_step(a, first).1 == ActionView::Execute(q),
        reply_step(a, first).0.last_sql == Some(q),
        result_step(reply_step(a, first).0, outcome).1 == ActionView::Generate ==> {
            let c = result_step(reply_step(a, first).0, outcome).0;
            let d = reply_step(c, second);
            &&& !(d.1 is Execute)
            &&& a.max_iterations is None ==> d.1 == ActionView::Generate
            &&& d.1 == ActionView::Generate ==> d.0.memory == c.memory.push(
                MessageView { role: Role::Assistant, text: second },
            ).push(system_note(repeat_hint(q)))
        },
{
}

/// A reply asking again for the query run just before does not run it: the query
/// stays the one remembered, the reply and a hint that names the query are
/// remembered, the hint being a tool note, and the turn goes on while the iteration
/// limit is not reached.
pub proof fn lemma_repeat_gets_hint(a: AgentView, content: Seq<char>, q: Seq<char>)
    requires
        a.wf(),
        a.phase == Phase::AwaitingReply,
        a.last_sql == Some(q),
        extracted_query(content) == Some(q),
        match a.max_iterations {
            Some(m) => a.iterations + 1 < m,
            None => true,
        },
    ensures
        reply_step(a, content).1 == ActionView::Generate,
        reply_step(a, content).0.last_sql == a.last_sql,
        reply_step(a, content).0.phase == Phase::AwaitingReply,
        reply_step(a, content).0.memory == a.memory.push(
            MessageView { role: Role::Assistant, text: content },
        ).push(system_note(repeat_hint(q))),
        is_tool_note(system_note(repeat_hint(q))),
        repeat_hint(q).subrange(
            "<sql_result>\nYou already ran this query: "@.len() as int,
            ("<sql_result>\nYou already ran this query: "@.len() + q.len()) as int,
        ) == q,
{
    reveal_strlit("<sql_result>");
    reveal_strlit("<sql_result>\nYou already ran this query: ");
    let head = "<sql_result>\nYou already ran this query: "@;
    let h = repeat_hint(q);
    assert(h.subrange(0, 12) =~= "<sql_result>"@);
    assert(h.subrange(head.len() as int, (head.len() + q.len()) as int) =~= q);
}

/// A reply that asks for no query ends the turn: the reply is the last message
/// remembered, and no tool note is left in memory.
pub proof fn lemma_answer_closes_turn(a: AgentView, content: Seq<char>)
    requires
        a.wf(),
        a.phase == Phase::AwaitingReply,
        extracted_query(content) is None,
    ensures
        reply_step(a, content).1 == ActionView::Finished(false),
        reply_step(a, content).0.wf(),
        reply_step(a, content).0.phase == Phase::Idle,
        reply_step(a, content).0.memory.last() == (MessageView {
            role: Role::Assistant,
            text: content,
        }),
        forall|i: int|
            1 <= i < reply_step(a, content).0.memory.len() ==> !is_tool_note(
                #[trigger] reply_step(a, content).0.memory[i],
            ),
{
    let reply = MessageView { role: Role::Assistant, text: content };
    let m = a.memory.push(reply);
    let b = AgentView { memory: m, ..a };
    lemma_finish_wf(b);
    assert(m.subrange(1, m.len() as int).drop_last() =~= m.subrange(1, m.len() - 1));
    assert(m.subrange(1, m.len() as int).last() == reply);
}

fn is_tool_note_message(m: &Message) -> (r: bool)
    ensures
        r == is_tool_note(m@),
{
    match m {
        Message::System { content } => has_prefix(content.as_str(), "<sql_result>") || has_prefix(
            content.as_str(),
            "<sql_error>",
        ),
        _ => false,
    }
}

impl Agent {
    /// The agent's invariant.
    pub open spec fn wf(&self) -> bool {
        self@.wf()
    }

    /// An agent whose memory holds the system prompt alone.
    pub fn new(cfg: &AgentConfig) -> (r: Agent)
        ensures
            r.wf(),
            r@.memory == seq![system_note(cfg.system_prompt@)],
            r@.prompt == cfg.system_prompt@,
            r@.max_iterations == (match cfg.max_iterations {
                Some(m) => Some(m as nat),
                None => None::<nat>,
            }),
            r@.last_sql is None,
            r@.phase == Phase::Idle,
    {
        let mut memory: Vec<Message> = Vec::new();
        memory.push(Message::System { content: String::from_str(cfg.system_prompt.as_str()) });
        let r = Agent {
            memory,
            prompt: Ghost(cfg.system_prompt@),
            max_iterations: cfg.max_iterations,
            last_sql: None,
            iterations: 0,
            phase: Phase::Idle,
        };
        assert(r@.memory =~= seq![system_note(cfg.system_prompt@)]);
        r
    }

    /// The conversation so far.
    pub fn memory(&self) -> (r: &Vec<Message>)
        ensures
            messages_view(r@) == self@.memory,
    {
        &self.memory
    }

    /// Where the agent stands within a turn.
    pub fn phase(&self) -> (r: Phase)
        ensures
            r == self@.phase,
    {
        self.phase
    }

    fn push_message(&mut self, m: Message)
        ensures
            final(self)@ == (AgentView { memory: old(self)@.memory.push(m@), ..old(self)@ }),
    {
        self.memory.push(m);
        assert(self@.memory =~= old(self)@.memory.push(m@));
    }

    fn finish_turn(&mut self)
        requires
            old(self)@.memory.len() >= 1,
            old(self)@.memory[0] == system_note(old(self)@.prompt),
        ensures
            final(self)@ == finish(old(self)@),
            final(self).wf(),
    {
        let ghost mem = self@.memory;
        let n = self.memory.len();
        let mut kept: Vec<Message> = Vec::new();
        kept.push(self.memory[0].duplicate());
        let mut i: usize = 1;
        assert(messages_view(kept@) =~= seq![mem[0]] + without_tool_notes(mem.subrange(1, 1)));
        while i < n
            invariant
                n == self.memory@.len(),
                mem == messages_view(self.memory@),
                1 <= i <= n,
                messages_view(kept@) == seq![mem[0]] + without_tool_notes(mem.subrange(1, i as int)),
            decreases n - i,
        {
            let m = &self.memory[i];
            let ghost before = kept@;
            assert(mem.subrange(1, i + 1).drop_last() =~= mem.subrange(1, i as int));
            assert(mem[i as int] == m@);
            if !is_tool_note_message(m) {
                kept.push(m.duplicate());
                assert(messages_view(kept@) =~= messages_view(before).push(m@));
            }
            i = i + 1;
        }
        assert(mem.subrange(1, n as int) =~= mem.subrange(1, mem.len() as int));
        self.memory = kept;
        self.last_sql = None;
        self.phase = Phase::Idle;
        proof {
            lemma_finish_wf(old(self)@);
        }
    }

    fn count_iteration(&mut self) -> (r: TurnAction)
        requires
            old(self)@.memory.len() >= 1,
            old(self)@.memory[0] == system_note(old(self)@.prompt),
            match old(self)@.max_iterations {
                Some(m) => old(self)@.iterations < m,
                None => true,
            },
        ensures
            (final(self)@, r@) == count_iteration(old(self)@),
            final(self).wf(),
    {
        match self.max_iterations {
            Some(m) => {
                self.iterations = self.iterations + 1;
                if self.iterations >= m {
                    self.finish_turn();
                    TurnAction::Finished { capped: true }
                } else {
                    self.phase = Phase::AwaitingReply;
                    TurnAction::Generate
                }
            },
            None => {
                self.phase = Phase::AwaitingReply;
                TurnAction::Generate
            },
        }
    }

    /// Opens a turn with the user's input.
    pub fn begin_turn(&mut self, input: &str) -> (r: TurnAction)
        requires
            old(self).wf(),
            old(self)@.phase == Phase::Idle,
        ensures
            final(self).wf(),
            (final(self)@, r@) == begin_step(old(self)@, input@),
    {
        self.push_message(Message::User { content: String::from_str(input) });
        self.iterations = 0;
        if self.max_iterations == Some(0usize) {
            self.finish_turn();
            TurnAction::Finished { capped: true }
        } else {
            self.phase = Phase::AwaitingReply;
            TurnAction::Generate
        }
    }

    /// Takes the model's reply: it is remembered, and a query in it is run unless it
    /// repeats the query run just before, in which case a hint is remembered instead.
    pub fn on_reply(&mut self, content: &str) -> (r: TurnAction)
        requires
            old(self).wf(),
            old(self)@.phase == Phase::AwaitingReply,
        ensures
            final(self).wf(),
            (final(self)@, r@) == reply_step(old(self)@, content@),
    {
        self.push_message(Message::Assistant { content: String::from_str(content) });
        match extract_sql(content) {
            None => {
                self.finish_turn();
                TurnAction::Finished { capped: false }
            },
            Some(q) => {
                let repeated = match &self.last_sql {
                    Some(last) => last.eq(&q),
                    None => false,
                };
                if repeated {
                    let hint = Self::hint(q.as_str());
                    self.push_message(Message::System { content: hint });
                    self.count_iteration()
                } else {
                    self.last_sql = Some(String::from_str(q.as_str()));
                    self.phase = Phase::AwaitingResult;
                    TurnAction::Execute { query: q }
                }
            },
        }
    }

    fn hint(q: &str) -> (r: String)
        ensures
            r@ == repeat_hint(q@),
    {
        let mut s = String::from_str("<sql_result>\nYou already ran this query: ");
        s.append(q);
        s.append(
            "\nIts result was not the expected one. Try:\n1. A DIFFERENT query\n2. A simpler query\n3. Telling the user that there is a problem with the data\n</sql_result>",
        );
        s
    }

    /// Takes the outcome of the query asked for: it is remembered as a tool note.
    pub fn on_query_result(&mut self, outcome: &Result<QueryResult, ToolError>) -> (r: TurnAction)
        requires
            old(self).wf(),
            old(self)@.phase == Phase::AwaitingResult,
        ensures
            final(self).wf(),
            (final(self)@, r@) == result_step(old(self)@, *outcome),
    {
        let note = match outcome {
            Ok(result) => {
                let mut s = String::from_str("<sql_result>\n");
                let text = format_results(result);
                s.append(text.as_str());
                s.append("\n</sql_result>");
                s
            },
            Err(e) => {
                let mut s = String::from_str("<sql_error>");
                let text = e.message();
                s.append(text.as_str());
                s.append("</sql_error>");
                s
            },
        };
        self.push_message(Message::System { content: note });
        self.count_iteration()
    }
}

} // verus!
