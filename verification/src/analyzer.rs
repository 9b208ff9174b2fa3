//! Keyword-driven instruction analysis: capability extraction, model
//! requirements, coordination needs, and agent-configuration rules.
//!
//! All text matching happens on the lower-cased instruction; the lower-case
//! form itself comes from the host's Unicode tables and is carried here as
//! the named function `lower_of`.

use vstd::prelude::*;

use crate::errors::AgentError;
use crate::instruction::AgentType;
use crate::instruction::Capability;
use crate::instruction::CapabilityCategory;
use crate::instruction::CapabilityPriority;
use crate::instruction::CommunicationStyle;
use crate::instruction::ComplexityLevel;
use crate::instruction::CoordinationRequirements;
use crate::instruction::CoordinationType;
use crate::instruction::CommunicationProtocol;
use crate::instruction::CreativityRequirement;
use crate::instruction::DecisionMakingStyle;
use crate::instruction::MemoryConfiguration;
use crate::instruction::ModelPrecision;
use crate::instruction::ModelRequirements;
use crate::instruction::ReasoningLevel;
use crate::instruction::RetentionPolicy;
use crate::instruction::SafetyLevel;
use crate::instruction::SubscriptionTier;
use crate::instruction::TaskDistributionStrategy;
use crate::instruction::UserInstruction;
use crate::text::contains_sub;
use crate::text::chars_vec;
use crate::text::chars_contain;
use crate::text::sort_views;
use crate::text::views_of;

verus! {

/// The lower-case form of a character sequence, as Unicode case folding
/// defines it. The form is a function of the characters alone; its tables
/// are not modelled here.
pub uninterp spec fn lower_of(s: Seq<char>) -> Seq<char>;

/// Relies on str::to_lowercase from std: the lower-case form depends on
/// the characters alone.
#[verifier::external_body]
fn to_lowercase(s: &str) -> (r: String)
    ensures
        r@ == lower_of(s@),
{
    s.to_lowercase()
}

/// The views of a sequence of string slices.
pub open spec fn kw_views(ks: Seq<&str>) -> Seq<Seq<char>> {
    Seq::new(ks.len(), |i: int| ks[i]@)
}

/// Whether any of the keywords occurs in the text.
pub open spec fn kw_any(t: Seq<char>, kws: Seq<Seq<char>>) -> bool {
    exists|i: int| 0 <= i < kws.len() && contains_sub(t, #[trigger] kws[i])
}

/// The capability slots a lower-cased instruction asks for, in extraction
/// order; an instruction that asks for nothing specific gets general
/// assistance.
#[derive(Clone, Copy, Debug, PartialEq, Eq, Structural)]
pub enum CapSlot {
    Code,
    Text,
    Data,
    Content,
    Problem,
    Research,
    Planning,
    General,
}

pub open spec fn code_keywords() -> Seq<Seq<char>> {
    seq!["code"@, "program"@, "script"@, "function"@, "class"@, "api"@, "database"@]
}

pub open spec fn text_keywords() -> Seq<Seq<char>> {
    seq!["write"@, "create"@, "generate"@, "compose"@, "draft"@, "content"@]
}

pub open spec fn data_keywords() -> Seq<Seq<char>> {
    seq!["analyze"@, "data"@, "statistics"@, "chart"@, "graph"@, "report"@, "insights"@]
}

pub open spec fn content_keywords() -> Seq<Seq<char>> {
    seq!["content"@, "article"@, "blog"@, "social media"@, "marketing"@, "creative"@]
}

pub open spec fn problem_keywords() -> Seq<Seq<char>> {
    seq!["solve"@, "problem"@, "issue"@, "debug"@, "fix"@, "optimize"@, "improve"@]
}

pub open spec fn research_keywords() -> Seq<Seq<char>> {
    seq!["research"@, "find"@, "search"@, "investigate"@, "explore"@, "discover"@]
}

pub open spec fn planning_keywords() -> Seq<Seq<char>> {
    seq!["plan"@, "strategy"@, "roadmap"@, "timeline"@, "schedule"@, "organize"@]
}

pub open spec fn coordination_keywords() -> Seq<Seq<char>> {
    seq!["multiple"@, "team"@, "coordinate"@, "collaborate"@, "together"@]
}

pub open spec fn sequential_keywords() -> Seq<Seq<char>> {
    seq!["sequence"@, "step by step"@, "pipeline"@]
}

pub open spec fn parallel_keywords() -> Seq<Seq<char>> {
    seq!["parallel"@, "simultaneous"@, "at the same time"@]
}

pub open spec fn hierarchy_keywords() -> Seq<Seq<char>> {
    seq!["hierarchy"@, "manager"@, "lead"@]
}

pub open spec fn complex_keywords() -> Seq<Seq<char>> {
    seq!["complex"@, "advanced"@, "expert"@, "sophisticated"@]
}

pub open spec fn realtime_keywords() -> Seq<Seq<char>> {
    seq!["real-time"@, "live"@, "streaming"@]
}

pub open spec fn security_keywords() -> Seq<Seq<char>> {
    seq!["secure"@, "encrypted"@, "private"@]
}

pub open spec fn multilingual_keywords() -> Seq<Seq<char>> {
    seq!["multilingual"@, "translate"@, "language"@]
}

/// The capability slots of a lower-cased instruction text.
pub open spec fn cap_slots(t: Seq<char>) -> Seq<CapSlot> {
    let base = (if kw_any(t, code_keywords()) {
        seq![CapSlot::Code]
    } else {
        Seq::empty()
    }) + (if kw_any(t, text_keywords()) {
        seq![CapSlot::Text]
    } else {
        Seq::empty()
    }) + (if kw_any(t, data_keywords()) {
        seq![CapSlot::Data]
    } else {
        Seq::empty()
    }) + (if kw_any(t, content_keywords()) {
        seq![CapSlot::Content]
    } else {
        Seq::empty()
    }) + (if kw_any(t, problem_keywords()) {
        seq![CapSlot::Problem]
    } else {
        Seq::empty()
    }) + (if kw_any(t, research_keywords()) {
        seq![CapSlot::Research]
    } else {
        Seq::empty()
    }) + (if kw_any(t, planning_keywords()) {
        seq![CapSlot::Planning]
    } else {
        Seq::empty()
    });
    if base.len() == 0 {
        seq![CapSlot::General]
    } else {
        base
    }
}

/// What the capability of each slot holds.
pub open spec fn cap_matches(slot: CapSlot, c: Capability) -> bool {
    match slot {
        CapSlot::Code => {
            &&& c.name@ == "Code Generation"@
            &&& c.description@ == "Generate code in various programming languages"@
            &&& c.category is CodeGeneration
            &&& c.priority is Essential
            &&& c.required_tools@.len() == 2
            &&& c.required_tools@[0]@ == "code_editor"@
            &&& c.required_tools@[1]@ == "syntax_checker"@
            &&& c.estimated_tokens == 2048
        },
        CapSlot::Text => {
            &&& c.name@ == "Text Generation"@
            &&& c.description@ == "Generate human-like text content"@
            &&& c.category is TextGeneration
            &&& c.priority is Essential
            &&& c.required_tools@.len() == 1
            &&& c.required_tools@[0]@ == "text_processor"@
            &&& c.estimated_tokens == 1024
        },
        CapSlot::Data => {
            &&& c.name@ == "Data Analysis"@
            &&& c.description@ == "Analyze data and generate insights"@
            &&& c.category is DataAnalysis
            &&& c.priority is Essential
            &&& c.required_tools@.len() == 2
            &&& c.required_tools@[0]@ == "data_processor"@
            &&& c.required_tools@[1]@ == "visualization_tool"@
            &&& c.estimated_tokens == 3072
        },
        CapSlot::Content => {
            &&& c.name@ == "Content Creation"@
            &&& c.description@ == "Create engaging content for various platforms"@
            &&& c.category is ContentCreation
            &&& c.priority is Essential
            &&& c.required_tools@.len() == 2
            &&& c.required_tools@[0]@ == "content_editor"@
            &&& c.required_tools@[1]@ == "plagiarism_checker"@
            &&& c.estimated_tokens == 2048
        },
        CapSlot::Problem => {
            &&& c.name@ == "Problem Solving"@
            &&& c.description@ == "Analyze and solve complex problems"@
            &&& c.category is ProblemSolving
            &&& c.priority is Essential
            &&& c.required_tools@.len() == 2
            &&& c.required_tools@[0]@ == "debugger"@
            &&& c.required_tools@[1]@ == "optimizer"@
            &&& c.estimated_tokens == 4096
        },
        CapSlot::Research => {
            &&& c.name@ == "Research"@
            &&& c.description@ == "Conduct research and gather information"@
            &&& c.category is Research
            &&& c.priority is Important
            &&& c.required_tools@.len() == 2
            &&& c.required_tools@[0]@ == "web_search"@
            &&& c.required_tools@[1]@ == "document_analyzer"@
            &&& c.estimated_tokens == 2048
        },
        CapSlot::Planning => {
            &&& c.name@ == "Planning"@
            &&& c.description@ == "Create plans and strategies"@
            &&& c.category is Planning
            &&& c.priority is Important
            &&& c.required_tools@.len() == 2
            &&& c.required_tools@[0]@ == "planner"@
            &&& c.required_tools@[1]@ == "scheduler"@
            &&& c.estimated_tokens == 1536
        },
        CapSlot::General => {
            &&& c.name@ == "General Assistance"@
            &&& c.description@ == "Provide general help and support"@
            &&& c.category is TextGeneration
            &&& c.priority is Essential
            &&& c.required_tools@.len() == 0
            &&& c.estimated_tokens == 1024
        },
    }
}

/// The models a capability recommends.
pub open spec fn models_for(c: CapabilityCategory) -> Seq<Seq<char>> {
    match c {
        CapabilityCategory::CodeGeneration => seq!["codellama-7b-novaq"@, "wizardcoder-15b-novaq"@],
        CapabilityCategory::DataAnalysis => seq!["llama-2-70b-novaq"@, "gpt4all-13b-novaq"@],
        CapabilityCategory::ContentCreation => seq!["llama-2-13b-novaq"@, "vicuna-13b-novaq"@],
        CapabilityCategory::ProblemSolving => seq!["llama-2-70b-novaq"@, "wizardlm-30b-novaq"@],
        _ => seq!["llama-2-7b-novaq"@],
    }
}

/// All recommended models, capabilities in order.
pub open spec fn models_of(caps: Seq<Capability>) -> Seq<Seq<char>>
    decreases caps.len(),
{
    if caps.len() == 0 {
        Seq::empty()
    } else {
        models_of(caps.drop_last()) + models_for(caps.last().category)
    }
}

/// The context length a capability asks for, beyond the base.
pub open spec fn context_for(c: CapabilityCategory) -> u32 {
    match c {
        CapabilityCategory::CodeGeneration => 8192u32,
        CapabilityCategory::DataAnalysis => 16384u32,
        CapabilityCategory::ProblemSolving => 8192u32,
        _ => 0u32,
    }
}

/// The minimum context length over all capabilities, at least 2048.
pub open spec fn min_context_of(caps: Seq<Capability>) -> u32
    decreases caps.len(),
{
    if caps.len() == 0 {
        2048u32
    } else {
        let m = min_context_of(caps.drop_last());
        if context_for(caps.last().category) > m {
            context_for(caps.last().category)
        } else {
            m
        }
    }
}

/// The reasoning level the capabilities call for: the last demanding
/// capability decides.
pub open spec fn reasoning_of(caps: Seq<Capability>) -> ReasoningLevel
    decreases caps.len(),
{
    if caps.len() == 0 {
        ReasoningLevel::Basic
    } else {
        match caps.last().category {
            CapabilityCategory::CodeGeneration => ReasoningLevel::Advanced,
            CapabilityCategory::DataAnalysis => ReasoningLevel::Expert,
            CapabilityCategory::ProblemSolving => ReasoningLevel::Expert,
            _ => reasoning_of(caps.drop_last()),
        }
    }
}

/// The creativity requirement: medium once any content creation appears.
pub open spec fn creativity_of(caps: Seq<Capability>) -> CreativityRequirement
    decreases caps.len(),
{
    if caps.len() == 0 {
        CreativityRequirement::NotNeeded
    } else {
        match caps.last().category {
            CapabilityCategory::ContentCreation => CreativityRequirement::Medium,
            _ => creativity_of(caps.drop_last()),
        }
    }
}

/// Consecutive duplicates removed.
pub open spec fn dedup_snoc(s: Seq<Seq<char>>) -> Seq<Seq<char>>
    decreases s.len(),
{
    if s.len() == 0 {
        Seq::empty()
    } else if s.len() == 1 {
        seq![s[0]]
    } else if s.last() == s[s.len() - 2] {
        dedup_snoc(s.drop_last())
    } else {
        dedup_snoc(s.drop_last()).push(s.last())
    }
}

/// The model precision of a subscription tier.
pub open spec fn precision_for(t: SubscriptionTier) -> ModelPrecision {
    match t {
        SubscriptionTier::Basic => ModelPrecision::INT4,
        SubscriptionTier::Pro => ModelPrecision::INT8,
        SubscriptionTier::Enterprise => ModelPrecision::FP16,
    }
}

/// The specialized requirement names a lower-cased instruction asks for.
pub open spec fn specialized_of(t: Seq<char>) -> Seq<Seq<char>> {
    (if kw_any(t, realtime_keywords()) {
        seq!["real_time_processing"@]
    } else {
        Seq::empty()
    }) + (if kw_any(t, security_keywords()) {
        seq!["security_focused"@]
    } else {
        Seq::empty()
    }) + (if kw_any(t, multilingual_keywords()) {
        seq!["multilingual_support"@]
    } else {
        Seq::empty()
    })
}

/// The complexity of a task with `n` capabilities and, possibly, complexity
/// keywords.
pub open spec fn complexity_of(n: int, has_complex_kw: bool) -> ComplexityLevel {
    if n <= 1 && !has_complex_kw {
        ComplexityLevel::Simple
    } else if n == 2 && !has_complex_kw {
        ComplexityLevel::Moderate
    } else if 3 <= n <= 4 {
        ComplexityLevel::Complex
    } else {
        ComplexityLevel::Expert
    }
}

/// The agent type of the first capability that names one.
pub open spec fn agent_type_of(caps: Seq<Capability>) -> AgentType
    decreases caps.len(),
{
    if caps.len() == 0 {
        AgentType::GeneralAssistant
    } else {
        match caps.first().category {
            CapabilityCategory::CodeGeneration => AgentType::CodeAssistant,
            CapabilityCategory::DataAnalysis => AgentType::DataAnalyst,
            CapabilityCategory::ContentCreation => AgentType::ContentCreator,
            CapabilityCategory::ProblemSolving => AgentType::ProblemSolver,
            CapabilityCategory::Research => AgentType::Researcher,
            CapabilityCategory::Planning => AgentType::Planner,
            _ => agent_type_of(caps.drop_first()),
        }
    }
}

/// The behaviour rules a capability adds.
pub open spec fn rules_for(c: CapabilityCategory) -> Seq<Seq<char>> {
    match c {
        CapabilityCategory::CodeGeneration => seq![
            "Follow best practices and coding standards"@,
            "Include comments and documentation in code"@,
        ],
        CapabilityCategory::DataAnalysis => seq![
            "Validate data sources and assumptions"@,
            "Provide clear explanations of analysis methods"@,
        ],
        CapabilityCategory::ContentCreation => seq![
            "Ensure content is original and engaging"@,
            "Consider target audience and platform requirements"@,
        ],
        _ => Seq::empty(),
    }
}

/// All behaviour rules: the three base rules, then each capability's.
pub open spec fn rules_of(caps: Seq<Capability>) -> Seq<Seq<char>>
    decreases caps.len(),
{
    if caps.len() == 0 {
        seq![
            "Always prioritize user safety and ethical considerations"@,
            "Provide accurate and helpful responses"@,
            "Ask for clarification when instructions are unclear"@,
        ]
    } else {
        rules_of(caps.drop_last()) + rules_for(caps.last().category)
    }
}

/// Every tool the capabilities require, in order.
pub open spec fn tools_of(caps: Seq<Capability>) -> Seq<Seq<char>>
    decreases caps.len(),
{
    if caps.len() == 0 {
        Seq::empty()
    } else {
        tools_of(caps.drop_last()) + views_of(caps.last().required_tools@)
    }
}

/// The safety constraints of a safety level, beyond the two base ones.
pub open spec fn safety_for(s: SafetyLevel) -> Seq<Seq<char>> {
    match s {
        SafetyLevel::Strict => seq![
            "Conservative approach to all decisions"@,
            "Require explicit user approval for significant actions"@,
        ],
        SafetyLevel::Standard => seq!["Follow standard safety protocols"@],
        SafetyLevel::Flexible => seq!["Allow creative solutions within ethical bounds"@],
        SafetyLevel::Experimental => seq![
            "User assumes responsibility for experimental approaches"@,
        ],
    }
}

/// All safety constraints of an instruction.
pub open spec fn safety_of(preferences: Option<crate::instruction::AgentPreferences>) -> Seq<
    Seq<char>,
> {
    let base = seq![
        "No harmful or malicious content"@,
        "Respect privacy and confidentiality"@,
    ];
    match preferences {
        Option::None => base,
        Option::Some(p) => base + safety_for(p.safety_level),
    }
}

/// The instruction analyzer.
pub struct InstructionAnalyzer;

impl InstructionAnalyzer {
    /// Whether any of the keywords occurs in the text.
    pub fn contains_keywords(text: &str, keywords: &[&str]) -> (r: bool)
        ensures
            r == kw_any(text@, kw_views(keywords@)),
    {
        let tv = chars_vec(text);
        let n = keywords.len();
        for i in 0..n
            invariant
                n == keywords@.len(),
                tv@ == text@,
                forall|j: int| 0 <= j < i ==> !contains_sub(text@, #[trigger] kw_views(keywords@)[j]),
        {
            let kv = chars_vec(keywords[i]);
            proof {
                assert(kw_views(keywords@)[i as int] == keywords@[i as int]@);
            }
            if chars_contain(&tv, &kv) {
                proof {
                    assert(contains_sub(text@, kw_views(keywords@)[i as int]));
                }
                return true;
            }
        }
        false
    }
}


fn kw_code(text: &str) -> (r: bool)
    ensures
        r == kw_any(text@, code_keywords()),
{
    let mut kws: Vec<&str> = Vec::new();
    kws.push("code");
    kws.push("program");
    kws.push("script");
    kws.push("function");
    kws.push("class");
    kws.push("api");
    kws.push("database");
    let r = InstructionAnalyzer::contains_keywords(text, kws.as_slice());
    proof {
        assert(kw_views(kws@) =~= code_keywords());
    }
    r
}

fn kw_text(text: &str) -> (r: bool)
    ensures
        r == kw_any(text@, text_keywords()),
{
    let mut kws: Vec<&str> = Vec::new();
    kws.push("write");
    kws.push("create");
    kws.push("generate");
    kws.push("compose");
    kws.push("draft");
    kws.push("content");
    let r = InstructionAnalyzer::contains_keywords(text, kws.as_slice());
    proof {
        assert(kw_views(kws@) =~= text_keywords());
    }
    r
}

fn kw_data(text: &str) -> (r: bool)
    ensures
        r == kw_any(text@, data_keywords()),
{
    let mut kws: Vec<&str> = Vec::new();
    kws.push("analyze");
    kws.push("data");
    kws.push("statistics");
    kws.push("chart");
    kws.push("graph");
    kws.push("report");
    kws.push("insights");
    let r = InstructionAnalyzer::contains_keywords(text, kws.as_slice());
    proof {
        assert(kw_views(kws@) =~= data_keywords());
    }
    r
}

fn kw_content(text: &str) -> (r: bool)
    ensures
        r == kw_any(text@, content_keywords()),
{
    let mut kws: Vec<&str> = Vec::new();
    kws.push("content");
    kws.push("article");
    kws.push("blog");
    kws.push("social media");
    kws.push("marketing");
    kws.push("creative");
    let r = InstructionAnalyzer::contains_keywords(text, kws.as_slice());
    proof {
        assert(kw_views(kws@) =~= content_keywords());
    }
    r
}

fn kw_problem(text: &str) -> (r: bool)
    ensures
        r == kw_any(text@, problem_keywords()),
{
    let mut kws: Vec<&str> = Vec::new();
    kws.push("solve");
    kws.push("problem");
    kws.push("issue");
    kws.push("debug");
    kws.push("fix");
    kws.push("optimize");
    kws.push("improve");
    let r = InstructionAnalyzer::contains_keywords(text, kws.as_slice());
    proof {
        assert(kw_views(kws@) =~= problem_keywords());
    }
    r
}

fn kw_research(text: &str) -> (r: bool)
    ensures
        r == kw_any(text@, research_keywords()),
{
    let mut kws: Vec<&str> = Vec::new();
    kws.push("research");
    kws.push("find");
    kws.push("search");
    kws.push("investigate");
    kws.push("explore");
    kws.push("discover");
    let r = InstructionAnalyzer::contains_keywords(text, kws.as_slice());
    proof {
        assert(kw_views(kws@) =~= research_keywords());
    }
    r
}

fn kw_planning(text: &str) -> (r: bool)
    ensures
        r == kw_any(text@, planning_keywords()),
{
    let mut kws: Vec<&str> = Vec::new();
    kws.push("plan");
    kws.push("strategy");
    kws.push("roadmap");
    kws.push("timeline");
    kws.push("schedule");
    kws.push("organize");
    let r = InstructionAnalyzer::contains_keywords(text, kws.as_slice());
    proof {
        assert(kw_views(kws@) =~= planning_keywords());
    }
    r
}

fn kw_group3(text: &str, a: &'static str, b: &'static str, c: &'static str) -> (r: bool)
    ensures
        r == kw_any(text@, seq![a@, b@, c@]),
{
    let mut kws: Vec<&str> = Vec::new();
    kws.push(a);
    kws.push(b);
    kws.push(c);
    let r = InstructionAnalyzer::contains_keywords(text, kws.as_slice());
    proof {
        assert(kw_views(kws@) =~= seq![a@, b@, c@]);
    }
    r
}

fn mk_capability(
    name: &'static str,
    description: &'static str,
    category: CapabilityCategory,
    priority: CapabilityPriority,
    tools: Vec<String>,
    estimated_tokens: u32,
) -> (r: Capability)
    ensures
        r.name@ == name@,
        r.description@ == description@,
        r.category == category,
        r.priority == priority,
        r.required_tools == tools,
        r.estimated_tokens == estimated_tokens,
{
    Capability {
        name: name.to_owned(),
        description: description.to_owned(),
        category,
        priority,
        required_tools: tools,
        estimated_tokens,
    }
}

fn two_tools(a: &'static str, b: &'static str) -> (r: Vec<String>)
    ensures
        r@.len() == 2,
        r@[0]@ == a@,
        r@[1]@ == b@,
{
    let mut r: Vec<String> = Vec::new();
    r.push(a.to_owned());
    r.push(b.to_owned());
    r
}


impl InstructionAnalyzer {
    /// Extracts the capabilities an instruction asks for, by keyword
    /// analysis of its lower-cased text, in a fixed extraction order; an
    /// instruction that asks for nothing specific gets general assistance.
    pub fn extract_capabilities(instruction: &UserInstruction) -> (r: Result<
        Vec<Capability>,
        AgentError,
    >)
        ensures
            r is Ok,
            ({
                let slots = cap_slots(lower_of(instruction.instruction_text@));
                &&& r.unwrap()@.len() == slots.len()
                &&& forall|i: int|
                    0 <= i < slots.len() ==> cap_matches(#[trigger] slots[i], r.unwrap()@[i])
            }),
    {
        let lowered = to_lowercase(instruction.instruction_text.as_str());
        let text = lowered.as_str();
        let ghost t = lower_of(instruction.instruction_text@);
        let mut caps: Vec<Capability> = Vec::new();
        let ghost mut built: Seq<CapSlot> = Seq::empty();

        let f1 = kw_code(text);
        let f2 = kw_text(text);
        let f3 = kw_data(text);
        let f4 = kw_content(text);
        let f5 = kw_problem(text);
        let f6 = kw_research(text);
        let f7 = kw_planning(text);
        let ghost e1: Seq<CapSlot> = if f1 { seq![CapSlot::Code] } else { Seq::empty() };
        let ghost e2: Seq<CapSlot> = if f2 { seq![CapSlot::Text] } else { Seq::empty() };
        let ghost e3: Seq<CapSlot> = if f3 { seq![CapSlot::Data] } else { Seq::empty() };
        let ghost e4: Seq<CapSlot> = if f4 { seq![CapSlot::Content] } else { Seq::empty() };
        let ghost e5: Seq<CapSlot> = if f5 { seq![CapSlot::Problem] } else { Seq::empty() };
        let ghost e6: Seq<CapSlot> = if f6 { seq![CapSlot::Research] } else { Seq::empty() };
        let ghost e7: Seq<CapSlot> = if f7 { seq![CapSlot::Planning] } else { Seq::empty() };
        let ghost base = e1 + e2 + e3 + e4 + e5 + e6 + e7;

        if f1 {
            caps.push(
                mk_capability(
                    "Code Generation",
                    "Generate code in various programming languages",
                    CapabilityCategory::CodeGeneration,
                    CapabilityPriority::Essential,
                    two_tools("code_editor", "syntax_checker"),
                    2048,
                ),
            );
            proof {
                built = built + e1;
            }
        } else {
            proof {
                built = built + e1;
            }
        }
        proof {
            assert(caps@.len() == built.len());
            assert(forall|j: int| 0 <= j < built.len() ==> cap_matches(#[trigger] built[j], caps@[j]));
        }
        if f2 {
            let mut tools: Vec<String> = Vec::new();
            tools.push("text_processor".to_owned());
            caps.push(
                mk_capability(
                    "Text Generation",
                    "Generate human-like text content",
                    CapabilityCategory::TextGeneration,
                    CapabilityPriority::Essential,
                    tools,
                    1024,
                ),
            );
        }
        proof {
            built = built + e2;
            assert(caps@.len() == built.len());
            assert(forall|j: int| 0 <= j < built.len() ==> cap_matches(#[trigger] built[j], caps@[j]));
        }
        if f3 {
            caps.push(
                mk_capability(
                    "Data Analysis",
                    "Analyze data and generate insights",
                    CapabilityCategory::DataAnalysis,
                    CapabilityPriority::Essential,
                    two_tools("data_processor", "visualization_tool"),
                    3072,
                ),
            );
        }
        proof {
            built = built + e3;
            assert(caps@.len() == built.len());
            assert(forall|j: int| 0 <= j < built.len() ==> cap_matches(#[trigger] built[j], caps@[j]));
        }
        if f4 {
            caps.push(
                mk_capability(
                    "Content Creation",
                    "Create engaging content for various platforms",
                    CapabilityCategory::ContentCreation,
                    CapabilityPriority::Essential,
                    two_tools("content_editor", "plagiarism_checker"),
                    2048,
                ),
            );
        }
        proof {
            built = built + e4;
            assert(caps@.len() == built.len());
            assert(forall|j: int| 0 <= j < built.len() ==> cap_matches(#[trigger] built[j], caps@[j]));
        }
        if f5 {
            caps.push(
                mk_capability(
                    "Problem Solving",
                    "Analyze and solve complex problems",
                    CapabilityCategory::ProblemSolving,
                    CapabilityPriority::Essential,
                    two_tools("debugger", "optimizer"),
                    4096,
                ),
            );
        }
        proof {
            built = built + e5;
            assert(caps@.len() == built.len());
            assert(forall|j: int| 0 <= j < built.len() ==> cap_matches(#[trigger] built[j], caps@[j]));
        }
        if f6 {
            caps.push(
                mk_capability(
                    "Research",
                    "Conduct research and gather information",
                    CapabilityCategory::Research,
                    CapabilityPriority::Important,
                    two_tools("web_search", "document_analyzer"),
                    2048,
                ),
            );
        }
        proof {
            built = built + e6;
            assert(caps@.len() == built.len());
            assert(forall|j: int| 0 <= j < built.len() ==> cap_matches(#[trigger] built[j], caps@[j]));
        }
        if f7 {
            caps.push(
                mk_capability(
                    "Planning",
                    "Create plans and strategies",
                    CapabilityCategory::Planning,
                    CapabilityPriority::Important,
                    two_tools("planner", "scheduler"),
                    1536,
                ),
            );
        }
        proof {
            built = built + e7;
            assert(caps@.len() == built.len());
            assert(forall|j: int| 0 <= j < built.len() ==> cap_matches(#[trigger] built[j], caps@[j]));
            assert(Seq::<CapSlot>::empty() + e1 =~= e1);
            assert(built == base);
        }

        if caps.len() == 0 {
            caps.push(
                mk_capability(
                    "General Assistance",
                    "Provide general help and support",
                    CapabilityCategory::TextGeneration,
                    CapabilityPriority::Essential,
                    Vec::new(),
                    1024,
                ),
            );
            proof {
                assert(base.len() == 0);
                assert(cap_slots(t) == seq![CapSlot::General]);
                assert(caps@.len() == 1);
                assert(cap_matches(CapSlot::General, caps@[0]));
            }
        } else {
            proof {
                assert(cap_slots(t) == base);
            }
        }
        Ok(caps)
    }

    /// Derives the model requirements: recommended models per capability —
    /// sorted, deduplicated, at most three — the largest context length any
    /// capability asks for, the precision of the subscription tier, the
    /// specialized requirements the text names, and the reasoning and
    /// creativity levels the capabilities call for.
    pub fn determine_model_requirements(
        instruction: &UserInstruction,
        capabilities: &[Capability],
    ) -> (r: Result<ModelRequirements, AgentError>)
        ensures
            r is Ok,
            ({
                let m = r.unwrap();
                let deduped = dedup_snoc(sort_views(models_of(capabilities@)));
                &&& views_of(m.recommended_models@) == deduped.take(
                    if deduped.len() <= 3 {
                        deduped.len() as int
                    } else {
                        3
                    },
                )
                &&& m.minimum_context_length == min_context_of(capabilities@)
                &&& m.preferred_precision == precision_for(instruction.subscription_tier)
                &&& views_of(m.specialized_requirements@) == specialized_of(
                    lower_of(instruction.instruction_text@),
                )
                &&& m.reasoning_capability == reasoning_of(capabilities@)
                &&& m.creativity_requirement == creativity_of(capabilities@)
            }),
    {
        let n = capabilities.len();
        let mut models: Vec<String> = Vec::new();
        let mut min_context: u32 = 2048;
        let mut reasoning = ReasoningLevel::Basic;
        let mut creativity = CreativityRequirement::NotNeeded;
        proof {
            assert(views_of(models@) =~= models_of(capabilities@.take(0)));
        }
        for i in 0..n
            invariant
                n == capabilities@.len(),
                views_of(models@) == models_of(capabilities@.take(i as int)),
                min_context == min_context_of(capabilities@.take(i as int)),
                reasoning == reasoning_of(capabilities@.take(i as int)),
                creativity == creativity_of(capabilities@.take(i as int)),
        {
            proof {
                assert(capabilities@.take(i + 1).drop_last() =~= capabilities@.take(i as int));
                assert(capabilities@.take(i + 1).last() == capabilities@[i as int]);
            }
            let ghost before = models@;
            match &capabilities[i].category {
                CapabilityCategory::CodeGeneration => {
                    models.push("codellama-7b-novaq".to_owned());
                    models.push("wizardcoder-15b-novaq".to_owned());
                    if min_context < 8192 {
                        min_context = 8192;
                    }
                    reasoning = ReasoningLevel::Advanced;
                },
                CapabilityCategory::DataAnalysis => {
                    models.push("llama-2-70b-novaq".to_owned());
                    models.push("gpt4all-13b-novaq".to_owned());
                    if min_context < 16384 {
                        min_context = 16384;
                    }
                    reasoning = ReasoningLevel::Expert;
                },
                CapabilityCategory::ContentCreation => {
                    models.push("llama-2-13b-novaq".to_owned());
                    models.push("vicuna-13b-novaq".to_owned());
                    creativity = CreativityRequirement::Medium;
                },
                CapabilityCategory::ProblemSolving => {
                    models.push("llama-2-70b-novaq".to_owned());
                    models.push("wizardlm-30b-novaq".to_owned());
                    if min_context < 8192 {
                        min_context = 8192;
                    }
                    reasoning = ReasoningLevel::Expert;
                },
                _ => {
                    models.push("llama-2-7b-novaq".to_owned());
                },
            }
            proof {
                assert(views_of(models@) =~= views_of(before) + models_for(
                    capabilities@[i as int].category,
                ));
            }
        }
        proof {
            assert(capabilities@.take(n as int) =~= capabilities@);
        }

        let sorted = crate::text::sort_strings(models);
        let deduped = dedup_strings(sorted);
        let mut recommended = deduped;
        if recommended.len() > 3 {
            recommended.truncate(3);
        }
        proof {
            let dv = dedup_snoc(sort_views(models_of(capabilities@)));
            if dv.len() <= 3 {
                assert(views_of(recommended@) =~= dv.take(dv.len() as int));
            } else {
                assert(views_of(recommended@) =~= dv.take(3));
            }
        }

        let preferred_precision = match instruction.subscription_tier {
            SubscriptionTier::Basic => ModelPrecision::INT4,
            SubscriptionTier::Pro => ModelPrecision::INT8,
            SubscriptionTier::Enterprise => ModelPrecision::FP16,
        };

        let specialized = Self::extract_specialized_requirements(instruction);

        Ok(
            ModelRequirements {
                recommended_models: recommended,
                minimum_context_length: min_context,
                preferred_precision,
                specialized_requirements: specialized,
                reasoning_capability: reasoning,
                creativity_requirement: creativity,
            },
        )
    }

    /// The specialized requirement names the instruction's text asks for:
    /// real-time processing, a security focus, multilingual support.
    pub fn extract_specialized_requirements(instruction: &UserInstruction) -> (r: Vec<String>)
        ensures
            views_of(r@) == specialized_of(lower_of(instruction.instruction_text@)),
    {
        let lowered = to_lowercase(instruction.instruction_text.as_str());
        let text = lowered.as_str();
        let mut r: Vec<String> = Vec::new();
        if kw_group3(text, "real-time", "live", "streaming") {
            r.push("real_time_processing".to_owned());
        }
        if kw_group3(text, "secure", "encrypted", "private") {
            r.push("security_focused".to_owned());
        }
        if kw_group3(text, "multilingual", "translate", "language") {
            r.push("multilingual_support".to_owned());
        }
        proof {
            assert(views_of(r@) =~= specialized_of(lower_of(instruction.instruction_text@)));
        }
        r
    }

    /// Derives the coordination requirements: more than one capability or a
    /// coordination keyword requires coordination, the keywords pick the
    /// coordination type, and the agent count covers every capability with
    /// at least two agents when coordinating.
    pub fn analyze_coordination_needs(
        instruction: &UserInstruction,
        capabilities: &[Capability],
    ) -> (r: Result<CoordinationRequirements, AgentError>)
        requires
            capabilities@.len() <= u32::MAX,
        ensures
            r is Ok,
            ({
                let c = r.unwrap();
                let t = lower_of(instruction.instruction_text@);
                let req = capabilities@.len() > 1 || kw_any(t, coordination_keywords());
                &&& c.requires_coordination == req
                &&& c.coordination_type == (if !req {
                    CoordinationType::Solo
                } else if kw_any(t, sequential_keywords()) {
                    CoordinationType::Sequential
                } else if kw_any(t, parallel_keywords()) {
                    CoordinationType::Parallel
                } else if kw_any(t, hierarchy_keywords()) {
                    CoordinationType::Hierarchical
                } else {
                    CoordinationType::Collaborative
                })
                &&& c.agent_count == (if !req {
                    1int
                } else if capabilities@.len() >= 2 {
                    capabilities@.len() as int
                } else {
                    2int
                })
                &&& c.communication_protocol is Direct
                &&& c.task_distribution is CapabilityBased
            }),
    {
        let lowered = to_lowercase(instruction.instruction_text.as_str());
        let text = lowered.as_str();
        let has_coord_kw = {
            let mut kws: Vec<&str> = Vec::new();
            kws.push("multiple");
            kws.push("team");
            kws.push("coordinate");
            kws.push("collaborate");
            kws.push("together");
            let b = Self::contains_keywords(text, kws.as_slice());
            proof {
                assert(kw_views(kws@) =~= coordination_keywords());
            }
            b
        };
        let requires_coordination = capabilities.len() > 1 || has_coord_kw;

        let coordination_type = if !requires_coordination {
            CoordinationType::Solo
        } else if kw_group3(text, "sequence", "step by step", "pipeline") {
            CoordinationType::Sequential
        } else if kw_group3(text, "parallel", "simultaneous", "at the same time") {
            CoordinationType::Parallel
        } else if kw_group3(text, "hierarchy", "manager", "lead") {
            CoordinationType::Hierarchical
        } else {
            CoordinationType::Collaborative
        };

        let agent_count: u32 = if requires_coordination {
            if capabilities.len() >= 2 {
                capabilities.len() as u32
            } else {
                2
            }
        } else {
            1
        };

        Ok(
            CoordinationRequirements {
                requires_coordination,
                coordination_type,
                agent_count,
                communication_protocol: CommunicationProtocol::Direct,
                task_distribution: TaskDistributionStrategy::CapabilityBased,
            },
        )
    }

    /// Estimates task complexity from the capability count and the presence
    /// of complexity keywords.
    pub fn estimate_complexity(instruction: &UserInstruction, capabilities: &[Capability]) -> (r:
        ComplexityLevel)
        ensures
            r == complexity_of(
                capabilities@.len() as int,
                kw_any(lower_of(instruction.instruction_text@), complex_keywords()),
            ),
    {
        let lowered = to_lowercase(instruction.instruction_text.as_str());
        let text = lowered.as_str();
        let has_complex = {
            let mut kws: Vec<&str> = Vec::new();
            kws.push("complex");
            kws.push("advanced");
            kws.push("expert");
            kws.push("sophisticated");
            let b = Self::contains_keywords(text, kws.as_slice());
            proof {
                assert(kw_views(kws@) =~= complex_keywords());
            }
            b
        };
        let n = capabilities.len();
        if n <= 1 && !has_complex {
            ComplexityLevel::Simple
        } else if n == 2 && !has_complex {
            ComplexityLevel::Moderate
        } else if 3 <= n && n <= 4 {
            ComplexityLevel::Complex
        } else {
            ComplexityLevel::Expert
        }
    }

    /// The agent type of the first capability that names one, or a general
    /// assistant.
    pub fn determine_agent_type(capabilities: &[Capability]) -> (r: AgentType)
        ensures
            r == agent_type_of(capabilities@),
    {
        let n = capabilities.len();
        let ghost s0 = capabilities@;
        let mut i: usize = 0;
        proof {
            assert(s0.skip(0) == s0);
        }
        while i < n
            invariant
                i <= n,
                n == capabilities@.len(),
                s0 == capabilities@,
                agent_type_of(s0) == agent_type_of(s0.skip(i as int)),
            decreases n - i,
        {
            proof {
                assert(s0.skip(i as int).first() == s0[i as int]);
                assert(s0.skip(i as int).drop_first() =~= s0.skip(i + 1));
            }
            match &capabilities[i].category {
                CapabilityCategory::CodeGeneration => {
                    return AgentType::CodeAssistant;
                },
                CapabilityCategory::DataAnalysis => {
                    return AgentType::DataAnalyst;
                },
                CapabilityCategory::ContentCreation => {
                    return AgentType::ContentCreator;
                },
                CapabilityCategory::ProblemSolving => {
                    return AgentType::ProblemSolver;
                },
                CapabilityCategory::Research => {
                    return AgentType::Researcher;
                },
                CapabilityCategory::Planning => {
                    return AgentType::Planner;
                },
                _ => {},
            }
            i = i + 1;
        }
        proof {
            assert(s0.skip(n as int).len() == 0);
        }
        AgentType::GeneralAssistant
    }

    /// The behaviour rules: three base rules, then what each capability
    /// adds, in order.
    pub fn generate_behavior_rules(
        _instruction: &UserInstruction,
        capabilities: &[Capability],
    ) -> (r: Vec<String>)
        ensures
            views_of(r@) == rules_of(capabilities@),
    {
        let mut rules: Vec<String> = Vec::new();
        rules.push("Always prioritize user safety and ethical considerations".to_owned());
        rules.push("Provide accurate and helpful responses".to_owned());
        rules.push("Ask for clarification when instructions are unclear".to_owned());
        proof {
            assert(views_of(rules@) =~= rules_of(capabilities@.take(0)));
        }
        let n = capabilities.len();
        for i in 0..n
            invariant
                n == capabilities@.len(),
                views_of(rules@) == rules_of(capabilities@.take(i as int)),
        {
            proof {
                assert(capabilities@.take(i + 1).drop_last() =~= capabilities@.take(i as int));
                assert(capabilities@.take(i + 1).last() == capabilities@[i as int]);
            }
            let ghost before = rules@;
            match &capabilities[i].category {
                CapabilityCategory::CodeGeneration => {
                    rules.push("Follow best practices and coding standards".to_owned());
                    rules.push("Include comments and documentation in code".to_owned());
                },
                CapabilityCategory::DataAnalysis => {
                    rules.push("Validate data sources and assumptions".to_owned());
                    rules.push("Provide clear explanations of analysis methods".to_owned());
                },
                CapabilityCategory::ContentCreation => {
                    rules.push("Ensure content is original and engaging".to_owned());
                    rules.push("Consider target audience and platform requirements".to_owned());
                },
                _ => {},
            }
            proof {
                assert(views_of(rules@) =~= views_of(before) + rules_for(
                    capabilities@[i as int].category,
                ));
            }
        }
        proof {
            assert(capabilities@.take(n as int) =~= capabilities@);
        }
        rules
    }

    /// The communication style the preferences pick, or friendly without
    /// preferences.
    pub fn determine_communication_style(instruction: &UserInstruction) -> (r: CommunicationStyle)
        ensures
            r == (match instruction.preferences {
                Option::None => CommunicationStyle::Friendly,
                Option::Some(p) => match p.response_style {
                    crate::instruction::ResponseStyle::Concise => CommunicationStyle::Direct,
                    crate::instruction::ResponseStyle::Detailed => CommunicationStyle::Technical,
                    crate::instruction::ResponseStyle::Conversational => CommunicationStyle::Conversational,
                    crate::instruction::ResponseStyle::Technical => CommunicationStyle::Technical,
                },
            }),
    {
        match &instruction.preferences {
            Some(preferences) => match preferences.response_style {
                crate::instruction::ResponseStyle::Concise => CommunicationStyle::Direct,
                crate::instruction::ResponseStyle::Detailed => CommunicationStyle::Technical,
                crate::instruction::ResponseStyle::Conversational => CommunicationStyle::Conversational,
                crate::instruction::ResponseStyle::Technical => CommunicationStyle::Technical,
            },
            None => CommunicationStyle::Friendly,
        }
    }

    /// The decision-making style the safety preference picks, or balanced
    /// without preferences.
    pub fn determine_decision_making(instruction: &UserInstruction) -> (r: DecisionMakingStyle)
        ensures
            r == (match instruction.preferences {
                Option::None => DecisionMakingStyle::Balanced,
                Option::Some(p) => match p.safety_level {
                    SafetyLevel::Strict => DecisionMakingStyle::Conservative,
                    SafetyLevel::Standard => DecisionMakingStyle::Balanced,
                    SafetyLevel::Flexible => DecisionMakingStyle::Aggressive,
                    SafetyLevel::Experimental => DecisionMakingStyle::Aggressive,
                },
            }),
    {
        match &instruction.preferences {
            Some(preferences) => match preferences.safety_level {
                SafetyLevel::Strict => DecisionMakingStyle::Conservative,
                SafetyLevel::Standard => DecisionMakingStyle::Balanced,
                SafetyLevel::Flexible => DecisionMakingStyle::Aggressive,
                SafetyLevel::Experimental => DecisionMakingStyle::Aggressive,
            },
            None => DecisionMakingStyle::Balanced,
        }
    }

    /// The memory configuration of a subscription tier.
    pub fn generate_memory_config(instruction: &UserInstruction) -> (r: MemoryConfiguration)
        ensures
            r.retention_policy is Session,
            instruction.subscription_tier is Basic ==> r.short_term_capacity == 2048
                && r.long_term_capacity == 8192 && !r.sharing_enabled,
            instruction.subscription_tier is Pro ==> r.short_term_capacity == 4096
                && r.long_term_capacity == 16384 && !r.sharing_enabled,
            instruction.subscription_tier is Enterprise ==> r.short_term_capacity == 8192
                && r.long_term_capacity == 32768 && r.sharing_enabled,
    {
        let mut config = MemoryConfiguration::default();
        match instruction.subscription_tier {
            SubscriptionTier::Basic => {
                config.short_term_capacity = 2048;
                config.long_term_capacity = 8192;
            },
            SubscriptionTier::Pro => {
                config.short_term_capacity = 4096;
                config.long_term_capacity = 16384;
            },
            SubscriptionTier::Enterprise => {
                config.short_term_capacity = 8192;
                config.long_term_capacity = 32768;
                config.sharing_enabled = true;
            },
        }
        config
    }

    /// Every tool the capabilities require, sorted and deduplicated.
    pub fn determine_tool_access(capabilities: &[Capability]) -> (r: Vec<String>)
        ensures
            views_of(r@) == dedup_snoc(sort_views(tools_of(capabilities@))),
    {
        let mut tools: Vec<String> = Vec::new();
        proof {
            assert(views_of(tools@) =~= tools_of(capabilities@.take(0)));
        }
        let n = capabilities.len();
        for i in 0..n
            invariant
                n == capabilities@.len(),
                views_of(tools@) == tools_of(capabilities@.take(i as int)),
        {
            proof {
                assert(capabilities@.take(i + 1).drop_last() =~= capabilities@.take(i as int));
                assert(capabilities@.take(i + 1).last() == capabilities@[i as int]);
            }
            let ghost before = tools@;
            let m = capabilities[i].required_tools.len();
            for k in 0..m
                invariant
                    m == capabilities@[i as int].required_tools@.len(),
                    i < capabilities@.len(),
                    views_of(tools@) == views_of(before) + views_of(
                        capabilities@[i as int].required_tools@.take(k as int),
                    ),
            {
                let ghost pre = tools@;
                tools.push(capabilities[i].required_tools[k].clone());
                proof {
                    let rt = capabilities@[i as int].required_tools@;
                    assert(rt.take(k + 1) =~= rt.take(k as int).push(rt[k as int]));
                    assert(views_of(rt.take(k + 1)) =~= views_of(rt.take(k as int)).push(
                        rt[k as int]@,
                    ));
                    assert(tools@ == pre.push(tools@.last()));
                    assert(tools@.last()@ == rt[k as int]@);
                    assert(views_of(tools@) =~= views_of(pre).push(rt[k as int]@));
                    assert(views_of(pre).push(rt[k as int]@) =~= views_of(before) + views_of(
                        rt.take(k + 1),
                    ));
                }
            }
            proof {
                assert(capabilities@[i as int].required_tools@.take(m as int)
                    =~= capabilities@[i as int].required_tools@);
                assert(views_of(tools@) =~= views_of(before) + views_of(
                    capabilities@[i as int].required_tools@,
                ));
            }
        }
        proof {
            assert(capabilities@.take(n as int) =~= capabilities@);
        }
        let sorted = crate::text::sort_strings(tools);
        dedup_strings(sorted)
    }

    /// Assembles the agent configuration from the verified parts: the agent
    /// type of the first determining capability, the behaviour rules, the
    /// styles the preferences pick, the tier's memory configuration, the
    /// sorted tool union, and the safety constraints.
    pub fn generate_agent_configuration(
        instruction: &UserInstruction,
        capabilities: &[Capability],
    ) -> (r: Result<crate::instruction::AgentConfiguration, AgentError>)
        ensures
            r is Ok,
            ({
                let c = r.unwrap();
                &&& c.agent_type == agent_type_of(capabilities@)
                &&& views_of(c.behavior_rules@) == rules_of(capabilities@)
                &&& c.communication_style == (match instruction.preferences {
                    Option::None => CommunicationStyle::Friendly,
                    Option::Some(p) => match p.response_style {
                        crate::instruction::ResponseStyle::Concise => CommunicationStyle::Direct,
                        crate::instruction::ResponseStyle::Detailed => CommunicationStyle::Technical,
                        crate::instruction::ResponseStyle::Conversational => CommunicationStyle::Conversational,
                        crate::instruction::ResponseStyle::Technical => CommunicationStyle::Technical,
                    },
                })
                &&& c.decision_making == (match instruction.preferences {
                    Option::None => DecisionMakingStyle::Balanced,
                    Option::Some(p) => match p.safety_level {
                        SafetyLevel::Strict => DecisionMakingStyle::Conservative,
                        SafetyLevel::Standard => DecisionMakingStyle::Balanced,
                        SafetyLevel::Flexible => DecisionMakingStyle::Aggressive,
                        SafetyLevel::Experimental => DecisionMakingStyle::Aggressive,
                    },
                })
                &&& c.memory_configuration.retention_policy is Session
                &&& views_of(c.tool_access@) == dedup_snoc(sort_views(tools_of(capabilities@)))
                &&& views_of(c.safety_constraints@) == safety_of(instruction.preferences)
            }),
    {
        let agent_type = Self::determine_agent_type(capabilities);
        let behavior_rules = Self::generate_behavior_rules(instruction, capabilities);
        let communication_style = Self::determine_communication_style(instruction);
        let decision_making = Self::determine_decision_making(instruction);
        let memory_configuration = Self::generate_memory_config(instruction);
        let tool_access = Self::determine_tool_access(capabilities);
        let safety_constraints = Self::generate_safety_constraints(instruction);
        Ok(
            crate::instruction::AgentConfiguration {
                agent_type,
                behavior_rules,
                communication_style,
                decision_making,
                memory_configuration,
                tool_access,
                safety_constraints,
            },
        )
    }

    /// The safety constraints: two base constraints, then what the safety
    /// preference adds.
    pub fn generate_safety_constraints(instruction: &UserInstruction) -> (r: Vec<String>)
        ensures
            views_of(r@) == safety_of(instruction.preferences),
    {
        let mut constraints: Vec<String> = Vec::new();
        constraints.push("No harmful or malicious content".to_owned());
        constraints.push("Respect privacy and confidentiality".to_owned());
        match &instruction.preferences {
            None => {},
            Some(preferences) => {
                match preferences.safety_level {
                    SafetyLevel::Strict => {
                        constraints.push("Conservative approach to all decisions".to_owned());
                        constraints.push(
                            "Require explicit user approval for significant actions".to_owned(),
                        );
                    },
                    SafetyLevel::Standard => {
                        constraints.push("Follow standard safety protocols".to_owned());
                    },
                    SafetyLevel::Flexible => {
                        constraints.push(
                            "Allow creative solutions within ethical bounds".to_owned(),
                        );
                    },
                    SafetyLevel::Experimental => {
                        constraints.push(
                            "User assumes responsibility for experimental approaches".to_owned(),
                        );
                    },
                }
            },
        }
        proof {
            assert(views_of(constraints@) =~= safety_of(instruction.preferences));
        }
        constraints
    }
}

/// Removes consecutive duplicates from a sorted list of strings.
fn dedup_strings(v: Vec<String>) -> (r: Vec<String>)
    ensures
        views_of(r@) == dedup_snoc(views_of(v@)),
{
    let mut out: Vec<String> = Vec::new();
    let n = v.len();
    proof {
        assert(views_of(out@) =~= dedup_snoc(views_of(v@.take(0))));
    }
    for i in 0..n
        invariant
            n == v@.len(),
            views_of(out@) == dedup_snoc(views_of(v@.take(i as int))),
    {
        proof {
            assert(views_of(v@.take(i + 1)).drop_last() =~= views_of(v@.take(i as int)));
            assert(views_of(v@.take(i + 1)).last() == v@[i as int]@);
        }
        if i == 0 {
            out.push(v[0].clone());
            proof {
                assert(views_of(out@) =~= seq![views_of(v@.take(1))[0]]);
                assert(views_of(v@.take(1))[0] == v@[0]@);
            }
        } else {
            if crate::cache::chars_eq(v[i].as_str(), v[i - 1].as_str()) {
                proof {
                    assert(views_of(v@.take(i + 1))[i - 1] == v@[i - 1]@);
                    assert(views_of(v@.take(i + 1)).last() == views_of(v@.take(i + 1))[i - 1 + 1]);
                    assert(dedup_snoc(views_of(v@.take(i + 1))) == dedup_snoc(
                        views_of(v@.take(i as int)),
                    ));
                }
            } else {
                let ghost before = out@;
                out.push(v[i].clone());
                proof {
                    assert(views_of(v@.take(i + 1))[i - 1] == v@[i - 1]@);
                    assert(views_of(out@) =~= views_of(before).push(v@[i as int]@));
                    assert(dedup_snoc(views_of(v@.take(i + 1))) == dedup_snoc(
                        views_of(v@.take(i as int)),
                    ).push(v@[i as int]@));
                }
            }
        }
    }
    proof {
        assert(v@.take(n as int) =~= v@);
        assert(views_of(v@.take(n as int)) =~= views_of(v@));
    }
    out
}

} // verus!


