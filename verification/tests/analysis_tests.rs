use ohms_agent::agent_factory::AgentFactory;
use ohms_agent::agent_factory::AgentStatus;
use ohms_agent::agent_factory::AgentSummary;
use ohms_agent::agent_factory::AgentTask;
use ohms_agent::agent_factory::AgentTaskResult;
use ohms_agent::agent_factory::TaskPriority;
use ohms_agent::analyzer::InstructionAnalyzer;
use ohms_agent::guards::GuardError;
use ohms_agent::guards::Guards;
use ohms_agent::instruction::AgentPreferences;
use ohms_agent::instruction::AgentType;
use ohms_agent::instruction::CommunicationStyle;
use ohms_agent::instruction::ComplexityLevel;
use ohms_agent::instruction::CoordinationType;
use ohms_agent::instruction::CreativityLevel;
use ohms_agent::instruction::DecisionMakingStyle;
use ohms_agent::instruction::DetailLevel;
use ohms_agent::instruction::ModelPrecision;
use ohms_agent::instruction::ResponseStyle;
use ohms_agent::instruction::SafetyLevel;
use ohms_agent::instruction::SubscriptionTier;
use ohms_agent::instruction::UserInstruction;
use ohms_agent::llm::ChatMessage;
use ohms_agent::llm::LlmError;
use ohms_agent::llm::MessageRole;
use ohms_agent::llm::QuantizedModel;
use ohms_agent::metrics::Metrics;
use ohms_agent::modelrepo::ModelMeta;

fn instruction(text: &str, tier: SubscriptionTier) -> UserInstruction {
    UserInstruction {
        instruction_text: text.to_string(),
        user_id: "user-1".to_string(),
        subscription_tier: tier,
        context: None,
        preferences: None,
    }
}

fn preferences(response: ResponseStyle, safety: SafetyLevel) -> AgentPreferences {
    AgentPreferences {
        response_style: response,
        detail_level: DetailLevel::Standard,
        creativity_level: CreativityLevel::Balanced,
        safety_level: safety,
        language: "en".to_string(),
    }
}

#[test]
fn test_extract_capabilities_by_keywords() {
    // Keyword analysis happens on the lower-cased text, in a fixed order.
    let ins = instruction("Write CODE to analyze data", SubscriptionTier::Basic);
    let caps = InstructionAnalyzer::extract_capabilities(&ins).unwrap();
    let names: Vec<&str> = caps.iter().map(|c| c.name.as_str()).collect();
    assert_eq!(names, vec!["Code Generation", "Text Generation", "Data Analysis"]);
    assert_eq!(caps[0].estimated_tokens, 2048);
    assert_eq!(caps[0].required_tools, vec!["code_editor", "syntax_checker"]);
}

#[test]
fn test_extract_capabilities_defaults_to_general() {
    let ins = instruction("xyzzy", SubscriptionTier::Basic);
    let caps = InstructionAnalyzer::extract_capabilities(&ins).unwrap();
    assert_eq!(caps.len(), 1);
    assert_eq!(caps[0].name, "General Assistance");
    assert_eq!(caps[0].estimated_tokens, 1024);
    assert!(caps[0].required_tools.is_empty());
}

#[test]
fn test_contains_keywords() {
    assert!(InstructionAnalyzer::contains_keywords(
        "please debug this",
        &["debug", "fix"]
    ));
    assert!(!InstructionAnalyzer::contains_keywords("hello", &["debug", "fix"]));
    assert!(InstructionAnalyzer::contains_keywords("overlap", &["lap"]));
}

#[test]
fn test_model_requirements() {
    let ins = instruction("write code and analyze data", SubscriptionTier::Pro);
    let caps = InstructionAnalyzer::extract_capabilities(&ins).unwrap();
    let reqs = InstructionAnalyzer::determine_model_requirements(&ins, &caps).unwrap();
    // Sorted, deduplicated, at most three.
    assert!(reqs.recommended_models.len() <= 3);
    let mut sorted = reqs.recommended_models.clone();
    sorted.sort();
    sorted.dedup();
    assert_eq!(sorted, reqs.recommended_models);
    // Data analysis raises the context floor to 16384.
    assert_eq!(reqs.minimum_context_length, 16384);
    assert_eq!(reqs.preferred_precision, ModelPrecision::INT8);
}

#[test]
fn test_specialized_requirements() {
    let ins = instruction(
        "a secure real-time translate service",
        SubscriptionTier::Basic,
    );
    let reqs = InstructionAnalyzer::extract_specialized_requirements(&ins);
    assert_eq!(
        reqs,
        vec!["real_time_processing", "security_focused", "multilingual_support"]
    );
}

#[test]
fn test_coordination_needs() {
    let ins = instruction("just one thing", SubscriptionTier::Basic);
    let caps = InstructionAnalyzer::extract_capabilities(&ins).unwrap();
    let c = InstructionAnalyzer::analyze_coordination_needs(&ins, &caps).unwrap();
    assert!(!c.requires_coordination);
    assert_eq!(c.coordination_type, CoordinationType::Solo);
    assert_eq!(c.agent_count, 1);

    let ins = instruction(
        "coordinate the team step by step",
        SubscriptionTier::Basic,
    );
    let caps = InstructionAnalyzer::extract_capabilities(&ins).unwrap();
    let c = InstructionAnalyzer::analyze_coordination_needs(&ins, &caps).unwrap();
    assert!(c.requires_coordination);
    assert_eq!(c.coordination_type, CoordinationType::Sequential);
    assert_eq!(c.agent_count, 2);
}

#[test]
fn test_complexity_estimate() {
    let ins = instruction("xyzzy", SubscriptionTier::Basic);
    let caps = InstructionAnalyzer::extract_capabilities(&ins).unwrap();
    assert_eq!(
        InstructionAnalyzer::estimate_complexity(&ins, &caps),
        ComplexityLevel::Simple
    );
    let ins = instruction("a complex thing", SubscriptionTier::Basic);
    let caps = InstructionAnalyzer::extract_capabilities(&ins).unwrap();
    assert_eq!(
        InstructionAnalyzer::estimate_complexity(&ins, &caps),
        ComplexityLevel::Expert
    );
}

#[test]
fn test_agent_type_first_match_wins() {
    let ins = instruction("analyze data and write code", SubscriptionTier::Basic);
    let caps = InstructionAnalyzer::extract_capabilities(&ins).unwrap();
    // Extraction order puts code generation first.
    assert!(matches!(
        InstructionAnalyzer::determine_agent_type(&caps),
        AgentType::CodeAssistant
    ));
    assert!(matches!(
        InstructionAnalyzer::determine_agent_type(&[]),
        AgentType::GeneralAssistant
    ));
}

#[test]
fn test_behavior_rules_and_tools() {
    let ins = instruction("write code", SubscriptionTier::Basic);
    let caps = InstructionAnalyzer::extract_capabilities(&ins).unwrap();
    let rules = InstructionAnalyzer::generate_behavior_rules(&ins, &caps);
    assert_eq!(rules[0], "Always prioritize user safety and ethical considerations");
    assert!(rules.contains(&"Follow best practices and coding standards".to_string()));
    let tools = InstructionAnalyzer::determine_tool_access(&caps);
    // Sorted and deduplicated union of the capabilities' tools.
    assert_eq!(tools, vec!["code_editor", "syntax_checker", "text_processor"]);
}

#[test]
fn test_styles_and_memory_config() {
    let mut ins = instruction("anything", SubscriptionTier::Enterprise);
    assert_eq!(
        InstructionAnalyzer::determine_communication_style(&ins),
        CommunicationStyle::Friendly
    );
    assert_eq!(
        InstructionAnalyzer::determine_decision_making(&ins),
        DecisionMakingStyle::Balanced
    );
    ins.preferences = Some(preferences(ResponseStyle::Concise, SafetyLevel::Strict));
    assert_eq!(
        InstructionAnalyzer::determine_communication_style(&ins),
        CommunicationStyle::Direct
    );
    assert_eq!(
        InstructionAnalyzer::determine_decision_making(&ins),
        DecisionMakingStyle::Conservative
    );
    let mc = InstructionAnalyzer::generate_memory_config(&ins);
    assert_eq!(mc.short_term_capacity, 8192);
    assert_eq!(mc.long_term_capacity, 32768);
    assert!(mc.sharing_enabled);
}

#[test]
fn test_safety_constraints() {
    let mut ins = instruction("anything", SubscriptionTier::Basic);
    let base = InstructionAnalyzer::generate_safety_constraints(&ins);
    assert_eq!(base.len(), 2);
    ins.preferences = Some(preferences(ResponseStyle::Concise, SafetyLevel::Strict));
    let strict = InstructionAnalyzer::generate_safety_constraints(&ins);
    assert_eq!(strict.len(), 4);
    assert_eq!(strict[2], "Conservative approach to all decisions");
}

#[test]
fn test_create_specialized_instruction() {
    let ins = instruction("build it", SubscriptionTier::Pro);
    let caps = InstructionAnalyzer::extract_capabilities(&instruction(
        "write code",
        SubscriptionTier::Pro,
    ))
    .unwrap();
    let special = AgentFactory::create_specialized_instruction(&ins, &caps[0], 1, 3);
    assert_eq!(
        special.instruction_text,
        "Specialized agent 2 of 3: Code Generation - build it"
    );
    assert_eq!(special.user_id, "user-1");
    assert_eq!(special.subscription_tier, SubscriptionTier::Pro);
}

#[test]
fn test_guards() {
    assert!(Guards::require_caller_authenticated(false).is_ok());
    assert_eq!(
        Guards::require_admin(true).unwrap_err(),
        GuardError::AuthenticationRequired
    );
    assert!(Guards::validate_prompt_length(&"x".repeat(10000)).is_ok());
    assert_eq!(
        Guards::validate_prompt_length(&"x".repeat(10001)).unwrap_err(),
        GuardError::PromptTooLong
    );
    assert!(Guards::validate_msg_id("abc_12-X").is_ok());
    assert_eq!(
        Guards::validate_msg_id("").unwrap_err(),
        GuardError::InvalidMsgId
    );
    assert!(Guards::validate_msg_id(&"a".repeat(64)).is_ok());
    assert!(Guards::validate_msg_id(&"a".repeat(65)).is_err());
    assert!(Guards::validate_msg_id("bad$char").is_err());
    assert!(Guards::check_memory_limits().is_ok());
    assert_eq!(
        GuardError::InvalidMsgId.message(),
        "Invalid msg_id format"
    );
}

#[test]
fn test_metrics_counters_and_histograms() {
    let mut m = Metrics::new();
    assert_eq!(m.get_counter("inferences_total"), 0);
    m.increment_inference_count(1);
    m.increment_inference_count(2);
    m.increment_cache_hit(3);
    m.increment_cache_miss(4);
    m.record_tokens_generated(40, 5);
    m.add_to_counter("custom", 7, 6);
    m.increment_counter("custom", 7);
    assert_eq!(m.get_counter("inferences_total"), 2);
    assert_eq!(m.get_counter("cache_hits_total"), 1);
    assert_eq!(m.get_counter("cache_misses_total"), 1);
    assert_eq!(m.get_counter("tokens_generated_total"), 40);
    assert_eq!(m.get_counter("custom"), 8);
    assert_eq!(m.get_counter("absent"), 0);
    m.record_inference_time(12, 8);
    m.record_histogram("inference_time_ms", 30, 9);
    // Recording never disturbs the counters.
    assert_eq!(m.get_counter("custom"), 8);
}

#[test]
fn test_quantized_model_catalogue() {
    let model = QuantizedModel::Llama3_1_8B;
    assert_eq!(model.display_name(), "Llama 3.1 8B");
    assert!(model.description().contains("general-purpose"));
    let caps = model.capabilities();
    assert_eq!(caps.len(), 4);
    assert_eq!(caps[0], "Content Generation");
}

#[test]
fn test_agent_task_types() {
    let task = AgentTask {
        task_id: "t-1".to_string(),
        description: "summarize".to_string(),
        priority: TaskPriority::Normal,
        deadline: None,
        context: vec![("topic".to_string(), "models".to_string())],
    };
    let result = AgentTaskResult {
        task_id: task.task_id.clone(),
        success: true,
        result: "done".to_string(),
        tokens_used: 12,
        execution_time_ms: 3,
        error_message: None,
    };
    let summary = AgentSummary {
        agent_id: "agent-1".to_string(),
        agent_type: AgentType::GeneralAssistant,
        status: AgentStatus::Ready,
        created_at: 1,
        last_active: 2,
    };
    assert_eq!(result.task_id, "t-1");
    assert!(matches!(summary.status, AgentStatus::Ready));
    assert_eq!(task.priority, TaskPriority::Normal);
}

#[test]
fn test_chat_message_types() {
    let msg = ChatMessage {
        role: MessageRole::User,
        content: "hi".to_string(),
        timestamp: 1,
        model: QuantizedModel::Llama3_1_8B,
    };
    assert_eq!(msg.role, MessageRole::User);
    let err = LlmError::RateLimitExceeded { reset_time: 9 };
    assert!(matches!(err, LlmError::RateLimitExceeded { reset_time: 9 }));
}

#[test]
fn test_model_meta_shape() {
    let meta = ModelMeta {
        family: "llama".to_string(),
        arch: "transformer".to_string(),
        tokenizer_id: "tok-1".to_string(),
        vocab_size: 32000,
        ctx_window: 4096,
        license: "open".to_string(),
    };
    assert_eq!(meta.vocab_size, 32000);
}

#[test]
fn test_metrics_histogram_accessor() {
    let mut m = Metrics::new();
    assert!(m.get_histogram("inference_time_ms").is_none());
    m.record_inference_time(5, 1);
    m.record_inference_time(9, 2);
    assert_eq!(m.get_histogram("inference_time_ms"), Some(vec![5, 9]));
}

#[test]
fn test_generate_agent_configuration() {
    let mut ins = instruction("write code", SubscriptionTier::Pro);
    ins.preferences = Some(preferences(ResponseStyle::Technical, SafetyLevel::Standard));
    let caps = InstructionAnalyzer::extract_capabilities(&ins).unwrap();
    let config = InstructionAnalyzer::generate_agent_configuration(&ins, &caps).unwrap();
    assert!(matches!(config.agent_type, AgentType::CodeAssistant));
    assert_eq!(config.communication_style, CommunicationStyle::Technical);
    assert_eq!(config.decision_making, DecisionMakingStyle::Balanced);
    assert_eq!(config.memory_configuration.short_term_capacity, 4096);
    assert_eq!(
        config.tool_access,
        vec!["code_editor", "syntax_checker", "text_processor"]
    );
    assert_eq!(config.safety_constraints.len(), 3);
    assert_eq!(config.behavior_rules.len(), 5);
}
