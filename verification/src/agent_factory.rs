//! Agent lifecycle data and the specialization of instructions for
//! coordinated agents. Creating, storing and driving agents spans host
//! suspension points and quota services, and stays with the host; the
//! specialization of an instruction for one agent of a team is pure and
//! stands here.

use vstd::prelude::*;

use crate::instruction::AgentPreferences;
use crate::instruction::AgentType;
use crate::instruction::Capability;
use crate::instruction::InstructionContext;
use crate::instruction::UserInstruction;
use crate::text::views_of;

verus! {

/// Agent status tracking.
#[derive(Clone, Debug)]
pub enum AgentStatus {
    Creating,
    Ready,
    Active,
    Paused,
    Completed,
    Error(String),
}

/// Task priorities.
#[derive(Clone, Copy, Debug, PartialEq, Eq, Structural)]
pub enum TaskPriority {
    Low,
    Normal,
    High,
    Critical,
}

/// One task handed to an agent.
#[derive(Clone, Debug)]
pub struct AgentTask {
    pub task_id: String,
    pub description: String,
    pub priority: TaskPriority,
    pub deadline: Option<u64>,
    pub context: Vec<(String, String)>,
}

/// The outcome of one task.
#[derive(Clone, Debug)]
pub struct AgentTaskResult {
    pub task_id: String,
    pub success: bool,
    pub result: String,
    pub tokens_used: u64,
    pub execution_time_ms: u64,
    pub error_message: Option<String>,
}

/// A one-line summary of an agent.
#[derive(Clone, Debug)]
pub struct AgentSummary {
    pub agent_id: String,
    pub agent_type: AgentType,
    pub status: AgentStatus,
    pub created_at: u64,
    pub last_active: u64,
}

/// The decimal digit of a value below ten.
pub open spec fn dec_digit(n: int) -> char
    recommends
        0 <= n < 10,
{
    if n == 0 { '0' }
    else if n == 1 { '1' }
    else if n == 2 { '2' }
    else if n == 3 { '3' }
    else if n == 4 { '4' }
    else if n == 5 { '5' }
    else if n == 6 { '6' }
    else if n == 7 { '7' }
    else if n == 8 { '8' }
    else { '9' }
}

/// The decimal digits of a non-negative value, most significant first.
pub open spec fn dec_digits(n: int) -> Seq<char>
    recommends
        0 <= n,
    decreases n,
{
    if n < 10 {
        seq![dec_digit(n)]
    } else {
        dec_digits(n / 10).push(dec_digit(n % 10))
    }
}

/// Relies on formatting a u64 with format!: the canonical decimal digits of
/// the value.
#[verifier::external_body]
fn u64_to_string(n: u64) -> (s: String)
    ensures
        s@ == dec_digits(n as int),
{
    format!("{}", n)
}

/// Whether two instruction contexts hold the same information.
pub open spec fn context_like(a: InstructionContext, b: InstructionContext) -> bool {
    &&& (a.domain is Some <==> b.domain is Some)
    &&& (a.domain is Some ==> a.domain.unwrap()@ == b.domain.unwrap()@)
    &&& a.complexity == b.complexity
    &&& a.urgency == b.urgency
    &&& a.collaboration_needed == b.collaboration_needed
    &&& views_of(a.external_tools_required@) == views_of(b.external_tools_required@)
}

/// Whether two preference records hold the same information.
pub open spec fn preferences_like(a: AgentPreferences, b: AgentPreferences) -> bool {
    &&& a.response_style == b.response_style
    &&& a.detail_level == b.detail_level
    &&& a.creativity_level == b.creativity_level
    &&& a.safety_level == b.safety_level
    &&& a.language@ == b.language@
}

fn copy_strings(v: &Vec<String>) -> (r: Vec<String>)
    ensures
        views_of(r@) == views_of(v@),
{
    let mut r: Vec<String> = Vec::new();
    let n = v.len();
    proof {
        assert(views_of(r@) =~= views_of(v@.take(0)));
    }
    for i in 0..n
        invariant
            n == v@.len(),
            views_of(r@) == views_of(v@.take(i as int)),
    {
        let ghost pre = r@;
        r.push(v[i].clone());
        proof {
            assert(views_of(r@) =~= views_of(pre).push(v@[i as int]@));
            assert(views_of(v@.take(i + 1)) =~= views_of(v@.take(i as int)).push(v@[i as int]@));
        }
    }
    proof {
        assert(v@.take(n as int) =~= v@);
        assert(views_of(v@.take(n as int)) =~= views_of(v@));
    }
    r
}

fn copy_context(c: &InstructionContext) -> (r: InstructionContext)
    ensures
        context_like(r, *c),
{
    InstructionContext {
        domain: match &c.domain {
            None => None,
            Some(d) => Some(d.clone()),
        },
        complexity: c.complexity,
        urgency: c.urgency,
        collaboration_needed: c.collaboration_needed,
        external_tools_required: copy_strings(&c.external_tools_required),
    }
}

fn copy_preferences(p: &AgentPreferences) -> (r: AgentPreferences)
    ensures
        preferences_like(r, *p),
{
    AgentPreferences {
        response_style: p.response_style,
        detail_level: p.detail_level,
        creativity_level: p.creativity_level,
        safety_level: p.safety_level,
        language: p.language.clone(),
    }
}

/// The agent factory's pure surface.
pub struct AgentFactory;

impl AgentFactory {
    /// The instruction handed to one specialized agent of a coordinated
    /// team: a header naming the agent's place and capability, then the
    /// original instruction, with tier, context and preferences carried
    /// over.
    pub fn create_specialized_instruction(
        original: &UserInstruction,
        capability: &Capability,
        index: usize,
        total: u32,
    ) -> (r: UserInstruction)
        requires
            index < usize::MAX,
        ensures
            r.instruction_text@ == "Specialized agent "@ + dec_digits(index + 1) + " of "@
                + dec_digits(total as int) + ": "@ + capability.name@ + " - "@
                + original.instruction_text@,
            r.user_id@ == original.user_id@,
            r.subscription_tier == original.subscription_tier,
            r.context is Some <==> original.context is Some,
            r.context is Some ==> context_like(r.context.unwrap(), original.context.unwrap()),
            r.preferences is Some <==> original.preferences is Some,
            r.preferences is Some ==> preferences_like(
                r.preferences.unwrap(),
                original.preferences.unwrap(),
            ),
    {
        let mut text = String::new();
        text.append("Specialized agent ");
        let idx = u64_to_string((index as u64) + 1);
        text.append(idx.as_str());
        text.append(" of ");
        let tot = u64_to_string(total as u64);
        text.append(tot.as_str());
        text.append(": ");
        text.append(capability.name.as_str());
        text.append(" - ");
        text.append(original.instruction_text.as_str());
        proof {
            assert(text@ =~= "Specialized agent "@ + dec_digits(index + 1) + " of "@ + dec_digits(
                total as int,
            ) + ": "@ + capability.name@ + " - "@ + original.instruction_text@);
        }
        UserInstruction {
            instruction_text: text,
            user_id: original.user_id.clone(),
            subscription_tier: original.subscription_tier,
            context: match &original.context {
                None => None,
                Some(c) => Some(copy_context(c)),
            },
            preferences: match &original.preferences {
                None => None,
                Some(p) => Some(copy_preferences(p)),
            },
        }
    }
}

} // verus!
