//! The instruction-analysis data model: user instructions, preferences,
//! extracted capabilities, model requirements, agent configuration, and
//! coordination requirements.

use vstd::prelude::*;

verus! {

/// A user instruction for creating an autonomous agent.
#[derive(Clone, Debug)]
pub struct UserInstruction {
    pub instruction_text: String,
    pub user_id: String,
    pub subscription_tier: SubscriptionTier,
    pub context: Option<InstructionContext>,
    pub preferences: Option<AgentPreferences>,
}

/// Context information for instruction analysis.
#[derive(Clone, Debug)]
pub struct InstructionContext {
    pub domain: Option<String>,
    pub complexity: Option<ComplexityLevel>,
    pub urgency: Option<UrgencyLevel>,
    pub collaboration_needed: bool,
    pub external_tools_required: Vec<String>,
}

/// User preferences for agent behaviour.
#[derive(Clone, Debug)]
pub struct AgentPreferences {
    pub response_style: ResponseStyle,
    pub detail_level: DetailLevel,
    pub creativity_level: CreativityLevel,
    pub safety_level: SafetyLevel,
    pub language: String,
}

/// Subscription tiers.
#[derive(Clone, Copy, Debug, PartialEq, Eq, Structural)]
pub enum SubscriptionTier {
    Basic,
    Pro,
    Enterprise,
}

/// Complexity levels for task analysis.
#[derive(Clone, Copy, Debug, PartialEq, Eq, Structural)]
pub enum ComplexityLevel {
    Simple,
    Moderate,
    Complex,
    Expert,
}

/// Urgency levels for task prioritisation.
#[derive(Clone, Copy, Debug, PartialEq, Eq, Structural)]
pub enum UrgencyLevel {
    Low,
    Normal,
    High,
    Critical,
}

/// Response style preferences.
#[derive(Clone, Copy, Debug, PartialEq, Eq, Structural)]
pub enum ResponseStyle {
    Concise,
    Detailed,
    Conversational,
    Technical,
}

/// Detail level preferences.
#[derive(Clone, Copy, Debug, PartialEq, Eq, Structural)]
pub enum DetailLevel {
    Summary,
    Standard,
    Comprehensive,
    Expert,
}

/// Creativity level preferences.
#[derive(Clone, Copy, Debug, PartialEq, Eq, Structural)]
pub enum CreativityLevel {
    Conservative,
    Balanced,
    Creative,
    Experimental,
}

/// Safety level preferences.
#[derive(Clone, Copy, Debug, PartialEq, Eq, Structural)]
pub enum SafetyLevel {
    Strict,
    Standard,
    Flexible,
    Experimental,
}

/// A capability an agent needs for its task.
#[derive(Clone, Debug)]
pub struct Capability {
    pub name: String,
    pub description: String,
    pub category: CapabilityCategory,
    pub priority: CapabilityPriority,
    pub required_tools: Vec<String>,
    pub estimated_tokens: u32,
}

/// Capability categories.
#[derive(Clone, Debug)]
pub enum CapabilityCategory {
    TextGeneration,
    CodeGeneration,
    DataAnalysis,
    ContentCreation,
    ProblemSolving,
    Coordination,
    Communication,
    Research,
    Planning,
    Execution,
    Custom(String),
}

/// Priority levels for capabilities.
#[derive(Clone, Copy, Debug, PartialEq, Eq, Structural)]
pub enum CapabilityPriority {
    Essential,
    Important,
    Helpful,
    Optional,
}

/// Model requirements derived from instruction analysis.
#[derive(Clone, Debug)]
pub struct ModelRequirements {
    pub recommended_models: Vec<String>,
    pub minimum_context_length: u32,
    pub preferred_precision: ModelPrecision,
    pub specialized_requirements: Vec<String>,
    pub reasoning_capability: ReasoningLevel,
    pub creativity_requirement: CreativityRequirement,
}

/// Model precision requirements.
#[derive(Clone, Copy, Debug, PartialEq, Eq, Structural)]
pub enum ModelPrecision {
    FP32,
    FP16,
    INT8,
    INT4,
    Mixed,
}

/// Reasoning capability requirements.
#[derive(Clone, Copy, Debug, PartialEq, Eq, Structural)]
pub enum ReasoningLevel {
    Basic,
    Intermediate,
    Advanced,
    Expert,
}

/// Creativity requirements.
#[derive(Clone, Copy, Debug, PartialEq, Eq, Structural)]
pub enum CreativityRequirement {
    NotNeeded,
    Low,
    Medium,
    High,
}

/// Types of agents that can be created.
#[derive(Clone, Debug)]
pub enum AgentType {
    GeneralAssistant,
    CodeAssistant,
    ContentCreator,
    DataAnalyst,
    ProblemSolver,
    Coordinator,
    Researcher,
    Planner,
    Executor,
    Custom(String),
}

/// Communication style preferences.
#[derive(Clone, Copy, Debug, PartialEq, Eq, Structural)]
pub enum CommunicationStyle {
    Direct,
    Friendly,
    Professional,
    Technical,
    Conversational,
}

/// Decision-making styles.
#[derive(Clone, Copy, Debug, PartialEq, Eq, Structural)]
pub enum DecisionMakingStyle {
    Conservative,
    Balanced,
    Aggressive,
    Collaborative,
}

/// Memory configuration for agent persistence.
#[derive(Clone, Copy, Debug, PartialEq, Eq, Structural)]
pub struct MemoryConfiguration {
    pub short_term_capacity: u32,
    pub long_term_capacity: u32,
    pub retention_policy: RetentionPolicy,
    pub sharing_enabled: bool,
}

/// Memory retention policies.
#[derive(Clone, Copy, Debug, PartialEq, Eq, Structural)]
pub enum RetentionPolicy {
    Session,
    Daily,
    Weekly,
    Persistent,
}

impl Default for MemoryConfiguration {
    fn default() -> (r: Self)
        ensures
            r.short_term_capacity == 4096,
            r.long_term_capacity == 16384,
            r.retention_policy is Session,
            !r.sharing_enabled,
    {
        MemoryConfiguration {
            short_term_capacity: 4096,
            long_term_capacity: 16384,
            retention_policy: RetentionPolicy::Session,
            sharing_enabled: false,
        }
    }
}

/// Coordination requirements for multi-agent tasks.
#[derive(Clone, Copy, Debug, PartialEq, Eq, Structural)]
pub struct CoordinationRequirements {
    pub requires_coordination: bool,
    pub coordination_type: CoordinationType,
    pub agent_count: u32,
    pub communication_protocol: CommunicationProtocol,
    pub task_distribution: TaskDistributionStrategy,
}

/// Types of coordination.
#[derive(Clone, Copy, Debug, PartialEq, Eq, Structural)]
pub enum CoordinationType {
    Solo,
    Sequential,
    Parallel,
    Collaborative,
    Hierarchical,
}

/// Communication protocols for agent coordination.
#[derive(Clone, Copy, Debug, PartialEq, Eq, Structural)]
pub enum CommunicationProtocol {
    Direct,
    Centralized,
    Broadcast,
    Hierarchical,
}

/// Task distribution strategies.
#[derive(Clone, Copy, Debug, PartialEq, Eq, Structural)]
pub enum TaskDistributionStrategy {
    RoundRobin,
    CapabilityBased,
    LoadBalanced,
    PriorityBased,
}

/// An agent configuration generated from instruction analysis. Personality
/// shaping is a continuous-scale concern and stays with the host.
#[derive(Clone, Debug)]
pub struct AgentConfiguration {
    pub agent_type: AgentType,
    pub behavior_rules: Vec<String>,
    pub communication_style: CommunicationStyle,
    pub decision_making: DecisionMakingStyle,
    pub memory_configuration: MemoryConfiguration,
    pub tool_access: Vec<String>,
    pub safety_constraints: Vec<String>,
}

} // verus!
