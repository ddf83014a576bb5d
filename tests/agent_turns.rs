use sakila::agent::{Agent, AgentConfig, Phase, TurnAction};
use sakila::chat::{Message, Role};
use sakila::tool::{Field, QueryResult, Row, Scalar, ToolError};

fn config(max_iterations: Option<usize>) -> AgentConfig {
    AgentConfig { system_prompt: "You are Sakila".to_string(), max_iterations }
}

fn count_result(n: i64) -> QueryResult {
    QueryResult {
        rows: vec![Row { fields: vec![Field { name: "COUNT(*)".to_string(), value: Scalar::Integer(n) }] }],
    }
}

fn has_tool_note(agent: &Agent) -> bool {
    agent.memory().iter().any(|m| {
        m.role() == Role::System
            && (m.content().starts_with("<sql_result>") || m.content().starts_with("<sql_error>"))
    })
}

#[test]
fn new_agent_holds_the_system_prompt() {
    let agent = Agent::new(&config(Some(5)));
    assert_eq!(agent.memory().clone(), vec![Message::System { content: "You are Sakila".to_string() }]);
    assert_eq!(agent.phase(), Phase::Idle);
}

#[test]
fn tool_round_then_answer_prunes_notes() {
    let mut agent = Agent::new(&config(Some(5)));
    assert_eq!(agent.begin_turn("How many actors are there?"), TurnAction::Generate);
    let action = agent.on_reply("<sql>SELECT COUNT(*) FROM actor</sql>");
    assert_eq!(action, TurnAction::Execute { query: "SELECT COUNT(*) FROM actor".to_string() });
    assert_eq!(agent.on_query_result(&Ok(count_result(200))), TurnAction::Generate);
    let last = agent.memory().last().unwrap().clone();
    assert_eq!(last, Message::System { content: "<sql_result>\nResult: 200\n</sql_result>".to_string() });
    assert_eq!(agent.on_reply("There are 200 actors."), TurnAction::Finished { capped: false });
    assert!(!has_tool_note(&agent));
    assert_eq!(
        agent.memory().clone(),
        vec![
            Message::System { content: "You are Sakila".to_string() },
            Message::User { content: "How many actors are there?".to_string() },
            Message::Assistant { content: "<sql>SELECT COUNT(*) FROM actor</sql>".to_string() },
            Message::Assistant { content: "There are 200 actors.".to_string() },
        ]
    );
    assert_eq!(agent.memory().last().unwrap().content(), "There are 200 actors.");
    assert_eq!(agent.phase(), Phase::Idle);
}

#[test]
fn repeated_query_is_not_run_again() {
    let mut agent = Agent::new(&config(Some(5)));
    agent.begin_turn("How many actors are there?");
    let first = agent.on_reply("<sql>SELECT COUNT(*) FROM actor</sql>");
    assert_eq!(first, TurnAction::Execute { query: "SELECT COUNT(*) FROM actor".to_string() });
    agent.on_query_result(&Err(ToolError::Query { message: "database is locked".to_string() }));
    let before = agent.memory().len();
    let second = agent.on_reply("<sql> SELECT COUNT(*) FROM actor </sql>");
    assert_eq!(second, TurnAction::Generate);
    assert_eq!(agent.memory().len(), before + 2);
    let hint = agent.memory().last().unwrap();
    assert_eq!(hint.role(), Role::System);
    assert!(hint.content().starts_with("<sql_result>\nYou already ran this query: SELECT COUNT(*) FROM actor\n"));
    assert_eq!(agent.phase(), Phase::AwaitingReply);
}

#[test]
fn error_outcome_becomes_error_note() {
    let mut agent = Agent::new(&config(None));
    agent.begin_turn("Drop everything");
    agent.on_reply("<sql>DROP TABLE film</sql>");
    agent.on_query_result(&Err(ToolError::Disallowed));
    let last = agent.memory().last().unwrap().clone();
    assert_eq!(
        last,
        Message::System { content: "<sql_error>Query not allowed: only SELECT</sql_error>".to_string() }
    );
    assert_eq!(agent.on_reply("I cannot do that."), TurnAction::Finished { capped: false });
    assert!(!has_tool_note(&agent));
}

#[test]
fn iteration_cap_ends_turn() {
    let mut agent = Agent::new(&config(Some(2)));
    agent.begin_turn("Count");
    assert!(matches!(agent.on_reply("<sql>SELECT 1</sql>"), TurnAction::Execute { .. }));
    assert_eq!(agent.on_query_result(&Ok(count_result(1))), TurnAction::Generate);
    assert!(matches!(agent.on_reply("<sql>SELECT 2</sql>"), TurnAction::Execute { .. }));
    assert_eq!(agent.on_query_result(&Ok(count_result(2))), TurnAction::Finished { capped: true });
    assert!(!has_tool_note(&agent));
    assert_eq!(agent.memory().last().unwrap().content(), "<sql>SELECT 2</sql>");
}

#[test]
fn zero_iterations_end_turn_at_once() {
    let mut agent = Agent::new(&config(Some(0)));
    assert_eq!(agent.begin_turn("Hi"), TurnAction::Finished { capped: true });
    assert_eq!(agent.memory().len(), 2);
}

#[test]
fn last_query_is_forgotten_between_turns() {
    let mut agent = Agent::new(&config(None));
    agent.begin_turn("Count");
    agent.on_reply("<sql>SELECT 1</sql>");
    agent.on_query_result(&Ok(count_result(1)));
    agent.on_reply("One.");
    agent.begin_turn("Again");
    assert_eq!(
        agent.on_reply("<sql>SELECT 1</sql>"),
        TurnAction::Execute { query: "SELECT 1".to_string() }
    );
}

#[test]
fn system_prompt_shaped_like_a_note_survives() {
    let mut agent = Agent::new(&AgentConfig {
        system_prompt: "<sql_result>odd prompt".to_string(),
        max_iterations: None,
    });
    agent.begin_turn("Hi");
    agent.on_reply("Hello.");
    assert_eq!(agent.memory()[0].content(), "<sql_result>odd prompt");
}
