use semantic_terminal::{AgentStateParser, ConfirmType, ParserContext, State};

fn make_context(lines: &[&str]) -> ParserContext {
    ParserContext::new(lines.iter().map(|s| s.to_string()).collect())
}

fn make_context_with_state(lines: &[&str], state: State) -> ParserContext {
    ParserContext::new(lines.iter().map(|s| s.to_string()).collect()).with_state(state)
}

#[test]
fn test_detect_idle_with_prompt() {
    let parser = AgentStateParser::new();

    let context = make_context(&["❯ ", "some previous output"]);
    let result = parser.detect_state(&context);
    assert!(result.is_some());
    let result = result.unwrap();
    assert_eq!(result.state, State::Idle);
    assert!(result.confidence >= 90);

    let context = make_context(&["> ", "some output"]);
    let result = parser.detect_state(&context);
    assert!(result.is_some());
    assert_eq!(result.unwrap().state, State::Idle);
}

#[test]
fn test_detect_thinking() {
    let parser = AgentStateParser::new();

    let context = make_context(&["Processing...", "esc to interrupt"]);
    let result = parser.detect_state(&context);
    assert!(result.is_some());
    let result = result.unwrap();
    assert_eq!(result.state, State::Thinking);
    assert!(result.confidence >= 90);
}

#[test]
fn test_detect_tool_running() {
    let parser = AgentStateParser::new();

    let context = make_context(&["Tool: Read file", "esc to interrupt"]);
    let result = parser.detect_state(&context);
    assert!(result.is_some());
    assert_eq!(result.unwrap().state, State::ToolRunning);

    let context = make_context(&["⏺ Running command │ ls -la", "esc to interrupt"]);
    let result = parser.detect_state(&context);
    assert!(result.is_some());
    assert_eq!(result.unwrap().state, State::ToolRunning);
}

#[test]
fn state_test_detect_option_confirm() {
    let parser = AgentStateParser::new();

    let context = make_context(&[
        "xjp-mcp - xjp_secret_get(key: \"test\")",
        "❯ 1. Yes, allow this action",
        "  2. Yes, allow for this session",
        "  3. No, deny this action",
        "Esc to cancel",
    ]);
    let result = parser.detect_state(&context);
    assert!(result.is_some());
    let result = result.unwrap();
    assert_eq!(result.state, State::Confirming);
    assert!(result.meta.is_some());
    assert_eq!(result.meta.unwrap().confirm_type, Some(ConfirmType::Options));
}

#[test]
fn state_test_detect_yesno_confirm() {
    let parser = AgentStateParser::new();

    let context = make_context(&["Do you want to continue? [Y/n]"]);
    let result = parser.detect_state(&context);
    assert!(result.is_some());
    let result = result.unwrap();
    assert_eq!(result.state, State::Confirming);
    assert_eq!(result.meta.unwrap().confirm_type, Some(ConfirmType::YesNo));

    let context = make_context(&["Proceed? (yes/no)"]);
    let result = parser.detect_state(&context);
    assert!(result.is_some());
    assert_eq!(result.unwrap().state, State::Confirming);
}

#[test]
fn test_detect_starting_trust_confirm() {
    let parser = AgentStateParser::new();

    let context = make_context_with_state(
        &["Do you trust this project?", "Yes, proceed", "Enter to confirm"],
        State::Starting,
    );
    let result = parser.detect_state(&context);
    assert!(result.is_some());
    let result = result.unwrap();
    assert_eq!(result.state, State::Starting);
    assert!(result.meta.is_some());
    assert_eq!(result.meta.unwrap().needs_trust_confirm, Some(true));
}

#[test]
fn test_detect_error() {
    let parser = AgentStateParser::new();

    let context = make_context(&["Error: Something went wrong"]);
    let result = parser.detect_state(&context);
    assert!(result.is_some());
    assert_eq!(result.unwrap().state, State::Error);

    let context = make_context(&["error: file not found"]);
    let result = parser.detect_state(&context);
    assert!(result.is_some());
    assert_eq!(result.unwrap().state, State::Error);

    let context = make_context(&["✖ Failed to execute command"]);
    let result = parser.detect_state(&context);
    assert!(result.is_some());
    assert_eq!(result.unwrap().state, State::Error);
}

#[test]
fn state_test_no_detection() {
    let parser = AgentStateParser::new();

    let context = make_context(&["random text", "nothing special"]);
    let result = parser.detect_state(&context);
    assert!(result.is_none());
}

#[test]
fn scenario_idle_prompt_alone() {
    let parser = AgentStateParser::new();
    let context = make_context(&["❯ "]);
    let result = parser.detect_state(&context).unwrap();
    assert_eq!(result.state, State::Idle);
    assert!(result.confidence >= 90);
}

#[test]
fn scenario_trust_confirm_outranks_busy_marker() {
    let parser = AgentStateParser::new();
    let context = make_context_with_state(
        &["esc to interrupt", "Yes, proceed", "Enter to confirm"],
        State::Starting,
    );
    let result = parser.detect_state(&context).unwrap();
    assert_eq!(result.state, State::Starting);
    assert_eq!(result.meta.unwrap().needs_trust_confirm, Some(true));
}

#[test]
fn scenario_stack_trace_with_spaced_frame() {
    // the frame text of a stack line may begin inside the whitespace run
    let registry = semantic_terminal::default_registry();
    let context = make_context(&["  at  (file.js:1:2)"]);
    let result = registry.extract(&context);
    assert!(result.get_match("agent.error.stack-trace").unwrap().matched);
}
