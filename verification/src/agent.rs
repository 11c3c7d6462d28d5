//! The agents that work on a report.

use crate::text;
use vstd::prelude::*;

verus! {

/// An agent, by its part in the work.
#[derive(Debug, Clone, Copy, PartialEq, Eq, Structural)]
pub enum AgentType {
    Main,
    DataAnalysis,
    Plotting,
    Theory,
    Report,
}

/// How many agents there are.
pub const AGENT_COUNT: usize = 5;

/// The agents in their order.
pub open spec fn agent_at(i: int) -> AgentType {
    if i == 0 {
        AgentType::Main
    } else if i == 1 {
        AgentType::DataAnalysis
    } else if i == 2 {
        AgentType::Plotting
    } else if i == 3 {
        AgentType::Theory
    } else {
        AgentType::Report
    }
}

/// The place of an agent in the order.
pub open spec fn index_of(agent: AgentType) -> int {
    match agent {
        AgentType::Main => 0,
        AgentType::DataAnalysis => 1,
        AgentType::Plotting => 2,
        AgentType::Theory => 3,
        AgentType::Report => 4,
    }
}

/// The name of an agent.
pub open spec fn agent_name(agent: AgentType) -> Seq<char> {
    match agent {
        AgentType::Main => "main"@,
        AgentType::DataAnalysis => "data_analysis"@,
        AgentType::Plotting => "plotting"@,
        AgentType::Theory => "theory"@,
        AgentType::Report => "report"@,
    }
}

/// What an agent is called on the screen.
pub open spec fn agent_label(agent: AgentType) -> Seq<char> {
    match agent {
        AgentType::Main => "Main"@,
        AgentType::DataAnalysis => "Data Analysis"@,
        AgentType::Plotting => "Plotting"@,
        AgentType::Theory => "Theory"@,
        AgentType::Report => "Report"@,
    }
}

/// The agent with the given name.
pub open spec fn named_agent(name: Seq<char>) -> Option<AgentType> {
    if name == "main"@ {
        Some(AgentType::Main)
    } else if name == "data_analysis"@ {
        Some(AgentType::DataAnalysis)
    } else if name == "plotting"@ {
        Some(AgentType::Plotting)
    } else if name == "theory"@ {
        Some(AgentType::Theory)
    } else if name == "report"@ {
        Some(AgentType::Report)
    } else {
        None
    }
}

/// What an agent is doing.
#[derive(Debug, Clone, Copy, PartialEq, Eq, Structural)]
pub enum AgentStatus {
    Idle,
    Thinking,
    RunningTool,
    Queued,
    Error,
    DebugMode,
}

/// Whether an agent is at work on its turn.
pub open spec fn is_running(status: AgentStatus) -> bool {
    status == AgentStatus::Thinking || status == AgentStatus::RunningTool || status
        == AgentStatus::DebugMode
}

/// Whether an agent is at work or waits for its turn.
pub open spec fn is_active(status: AgentStatus) -> bool {
    is_running(status) || status == AgentStatus::Queued
}

/// What a status is called on the screen.
pub open spec fn status_name(status: AgentStatus) -> Seq<char> {
    match status {
        AgentStatus::Idle => "idle"@,
        AgentStatus::Thinking => "thinking"@,
        AgentStatus::RunningTool => "running tool"@,
        AgentStatus::Queued => "queued"@,
        AgentStatus::Error => "error"@,
        AgentStatus::DebugMode => "debug"@,
    }
}

impl AgentStatus {
    /// Whether the agent is at work on its turn.
    pub fn running(self) -> (r: bool)
        ensures
            r == is_running(self),
    {
        match self {
            AgentStatus::Thinking | AgentStatus::RunningTool | AgentStatus::DebugMode => true,
            _ => false,
        }
    }

    /// Whether the agent is at work or waits for its turn.
    pub fn active(self) -> (r: bool)
        ensures
            r == is_active(self),
    {
        match self {
            AgentStatus::Queued => true,
            _ => self.running(),
        }
    }

    /// What the status is called on the screen.
    pub fn label(self) -> (r: &'static str)
        ensures
            r@ == status_name(self),
    {
        match self {
            AgentStatus::Idle => "idle",
            AgentStatus::Thinking => "thinking",
            AgentStatus::RunningTool => "running tool",
            AgentStatus::Queued => "queued",
            AgentStatus::Error => "error",
            AgentStatus::DebugMode => "debug",
        }
    }
}

impl AgentType {
    /// The name of the agent.
    pub fn as_str(self) -> (r: &'static str)
        ensures
            r@ == agent_name(self),
    {
        match self {
            AgentType::Main => "main",
            AgentType::DataAnalysis => "data_analysis",
            AgentType::Plotting => "plotting",
            AgentType::Theory => "theory",
            AgentType::Report => "report",
        }
    }

    /// What the agent is called on the screen.
    pub fn label(self) -> (r: &'static str)
        ensures
            r@ == agent_label(self),
    {
        match self {
            AgentType::Main => "Main",
            AgentType::DataAnalysis => "Data Analysis",
            AgentType::Plotting => "Plotting",
            AgentType::Theory => "Theory",
            AgentType::Report => "Report",
        }
    }

    /// The agent at a place of the order.
    pub fn at(i: usize) -> (r: AgentType)
        requires
            i < AGENT_COUNT,
        ensures
            r == agent_at(i as int),
    {
        if i == 0 {
            AgentType::Main
        } else if i == 1 {
            AgentType::DataAnalysis
        } else if i == 2 {
            AgentType::Plotting
        } else if i == 3 {
            AgentType::Theory
        } else {
            AgentType::Report
        }
    }

    /// The place of the agent in the order.
    pub fn index(self) -> (r: usize)
        ensures
            r as int == index_of(self),
            r < AGENT_COUNT,
    {
        match self {
            AgentType::Main => 0,
            AgentType::DataAnalysis => 1,
            AgentType::Plotting => 2,
            AgentType::Theory => 3,
            AgentType::Report => 4,
        }
    }

    /// The agent with the given name.
    pub fn parse(name: &str) -> (r: Option<AgentType>)
        ensures
            r == named_agent(name@),
    {
        if text::same(name, "main") {
            Some(AgentType::Main)
        } else if text::same(name, "data_analysis") {
            Some(AgentType::DataAnalysis)
        } else if text::same(name, "plotting") {
            Some(AgentType::Plotting)
        } else if text::same(name, "theory") {
            Some(AgentType::Theory)
        } else if text::same(name, "report") {
            Some(AgentType::Report)
        } else {
            None
        }
    }
}

/// Each agent stands once in the order, and its name names it.
pub proof fn law_agents_are_listed_once(agent: AgentType)
    ensures
        0 <= index_of(agent) < AGENT_COUNT,
        agent_at(index_of(agent)) == agent,
        named_agent(agent_name(agent)) == Some(agent),
{
    reveal_strlit("main");
    reveal_strlit("data_analysis");
    reveal_strlit("plotting");
    reveal_strlit("theory");
    reveal_strlit("report");
    assert("main"@[0] == 'm');
    assert("data_analysis"@[0] == 'd');
    assert("plotting"@[0] == 'p');
    assert("theory"@[0] == 't');
    assert("report"@[0] == 'r');
}

/// The name of an agent is one word, and it is the only name that the agent is found by.
pub proof fn law_names_are_single_words(name: Seq<char>, agent: AgentType)
    requires
        named_agent(name) == Some(agent),
    ensures
        name == agent_name(agent),
        name.len() > 0,
        forall|i: int| 0 <= i < name.len() ==> !text::is_white(#[trigger] name[i]),
        !name.contains(' '),
{
    reveal_strlit("main");
    reveal_strlit("data_analysis");
    reveal_strlit("plotting");
    reveal_strlit("theory");
    reveal_strlit("report");
    assert forall|i: int| 0 <= i < name.len() implies !text::is_white(#[trigger] name[i]) by {}
    if name.contains(' ') {
        let k = name.index_of(' ');
        assert(text::is_white(name[k]));
    }
}

/// The names and labels of the agents, letter by letter.
pub proof fn law_agents_are_called_by_name(agent: AgentType)
    ensures
        agent_name(AgentType::Main) == seq!['m', 'a', 'i', 'n'],
        agent_name(AgentType::DataAnalysis) == seq![
            'd',
            'a',
            't',
            'a',
            '_',
            'a',
            'n',
            'a',
            'l',
            'y',
            's',
            'i',
            's',
        ],
        agent_name(AgentType::Plotting) == seq!['p', 'l', 'o', 't', 't', 'i', 'n', 'g'],
        agent_name(AgentType::Theory) == seq!['t', 'h', 'e', 'o', 'r', 'y'],
        agent_name(AgentType::Report) == seq!['r', 'e', 'p', 'o', 'r', 't'],
        agent_label(AgentType::Main) == seq!['M', 'a', 'i', 'n'],
        agent_label(AgentType::Plotting) == seq!['P', 'l', 'o', 't', 't', 'i', 'n', 'g'],
        agent_label(AgentType::Theory) == seq!['T', 'h', 'e', 'o', 'r', 'y'],
        agent_label(AgentType::Report) == seq!['R', 'e', 'p', 'o', 'r', 't'],
        agent_label(AgentType::DataAnalysis).len() == 13,
        named_agent(agent_name(agent)) == Some(agent),
{
    law_agents_are_listed_once(agent);
    reveal_strlit("main");
    reveal_strlit("data_analysis");
    reveal_strlit("plotting");
    reveal_strlit("theory");
    reveal_strlit("report");
    reveal_strlit("Main");
    reveal_strlit("Data Analysis");
    reveal_strlit("Plotting");
    reveal_strlit("Theory");
    reveal_strlit("Report");
    assert(agent_name(AgentType::Main) =~= seq!['m', 'a', 'i', 'n']);
    assert(agent_name(AgentType::DataAnalysis) =~= seq![
        'd',
        'a',
        't',
        'a',
        '_',
        'a',
        'n',
        'a',
        'l',
        'y',
        's',
        'i',
        's',
    ]);
    assert(agent_name(AgentType::Plotting) =~= seq!['p', 'l', 'o', 't', 't', 'i', 'n', 'g']);
    assert(agent_name(AgentType::Theory) =~= seq!['t', 'h', 'e', 'o', 'r', 'y']);
    assert(agent_name(AgentType::Report) =~= seq!['r', 'e', 'p', 'o', 'r', 't']);
    assert(agent_label(AgentType::Main) =~= seq!['M', 'a', 'i', 'n']);
    assert(agent_label(AgentType::Plotting) =~= seq!['P', 'l', 'o', 't', 't', 'i', 'n', 'g']);
    assert(agent_label(AgentType::Theory) =~= seq!['T', 'h', 'e', 'o', 'r', 'y']);
    assert(agent_label(AgentType::Report) =~= seq!['R', 'e', 'p', 'o', 'r', 't']);
}

/// An agent that is idle or failed is not at work; one that waits for its turn is active but
/// does not run; in every other state it runs.
pub proof fn law_statuses_of_work(status: AgentStatus)
    ensures
        is_active(status) <==> status != AgentStatus::Idle && status != AgentStatus::Error,
        is_running(status) <==> is_active(status) && status != AgentStatus::Queued,
{
}

} // verus!
