use semantic_terminal::{spinner_chars, AgentStatusParser, ParserContext, StatusPhase};

fn make_context(lines: &[&str]) -> ParserContext {
    ParserContext::new(lines.iter().map(|s| s.to_string()).collect())
}

#[test]
fn test_spinner_chars() {
    let chars = spinner_chars();
    assert_eq!(chars.len(), 6);
    assert!(chars.contains(&'·'));
    assert!(chars.contains(&'✻'));
    assert!(chars.contains(&'✽'));
    assert!(chars.contains(&'✶'));
    assert!(chars.contains(&'✳'));
    assert!(chars.contains(&'✢'));
}

#[test]
fn test_can_parse_with_status() {
    let parser = AgentStatusParser::new();

    let context = make_context(&["· Precipitating… (esc to interrupt · thinking)"]);
    assert!(parser.can_parse(&context));

    let context = make_context(&["✻ Schlepping… (esc to interrupt)"]);
    assert!(parser.can_parse(&context));

    let context = make_context(&["✽ Processing… (ESC to interrupt)"]);
    assert!(parser.can_parse(&context));
}

#[test]
fn test_can_parse_without_status() {
    let parser = AgentStatusParser::new();

    let context = make_context(&["random text", "no status here"]);
    assert!(!parser.can_parse(&context));

    let context = make_context(&["❯ "]);
    assert!(!parser.can_parse(&context));
}

#[test]
fn test_parse_with_thinking_hint() {
    let parser = AgentStatusParser::new();

    let context = make_context(&["· Precipitating… (esc to interrupt · thinking)"]);
    let result = parser.parse(&context);

    assert!(result.is_some());
    let status = result.unwrap();
    assert_eq!(status.spinner, "·");
    assert_eq!(status.status_text, "Precipitating…");
    assert_eq!(status.phase, StatusPhase::Thinking);
    assert!(status.interruptible);
}

#[test]
fn test_parse_without_hint() {
    let parser = AgentStatusParser::new();

    let context = make_context(&["✻ Schlepping… (esc to interrupt)"]);
    let result = parser.parse(&context);

    assert!(result.is_some());
    let status = result.unwrap();
    assert_eq!(status.spinner, "✻");
    assert_eq!(status.status_text, "Schlepping…");
    assert_eq!(status.phase, StatusPhase::Thinking);
    assert!(status.interruptible);
}

#[test]
fn test_parse_with_tool_hint() {
    let parser = AgentStatusParser::new();

    let context = make_context(&["✶ Running… (esc to interrupt · tool)"]);
    let result = parser.parse(&context);

    assert!(result.is_some());
    let status = result.unwrap();
    assert_eq!(status.spinner, "✶");
    assert_eq!(status.status_text, "Running…");
    assert_eq!(status.phase, StatusPhase::ToolRunning);
    assert!(status.interruptible);
}

#[test]
fn test_parse_tool_in_status_text() {
    let parser = AgentStatusParser::new();

    let context = make_context(&["✳ Tool… (esc to interrupt)"]);
    let result = parser.parse(&context);

    assert!(result.is_some());
    let status = result.unwrap();
    assert_eq!(status.phase, StatusPhase::ToolRunning);
}

#[test]
fn test_parse_case_insensitive_esc() {
    let parser = AgentStatusParser::new();

    let context = make_context(&["· Working… (esc to interrupt)"]);
    assert!(parser.can_parse(&context));
    assert!(parser.parse(&context).is_some());

    let context = make_context(&["· Working… (ESC to interrupt)"]);
    assert!(parser.can_parse(&context));
    assert!(parser.parse(&context).is_some());
}

#[test]
fn test_parse_all_spinners() {
    let parser = AgentStatusParser::new();

    for spinner in spinner_chars() {
        let line = format!("{} Status… (esc to interrupt)", spinner);
        let context = make_context(&[&line]);
        let result = parser.parse(&context);
        assert!(result.is_some(), "no match for spinner: {}", spinner);
        assert_eq!(result.unwrap().spinner, spinner.to_string());
    }
}

#[test]
fn test_parse_with_leading_whitespace() {
    let parser = AgentStatusParser::new();

    let context = make_context(&["  · Working… (esc to interrupt · thinking)"]);
    assert!(parser.can_parse(&context));

    let result = parser.parse(&context);
    assert!(result.is_some());
    assert_eq!(result.unwrap().spinner, "·");
}

#[test]
fn test_parse_returns_none_for_invalid() {
    let parser = AgentStatusParser::new();

    let context = make_context(&["random text"]);
    assert!(parser.parse(&context).is_none());

    let context = make_context(&["· Missing parentheses"]);
    assert!(parser.parse(&context).is_none());

    let context = make_context(&["X Invalid… (esc to interrupt)"]);
    assert!(parser.parse(&context).is_none());
}

#[test]
fn status_test_parser_meta() {
    let parser = AgentStatusParser::new();
    let meta = parser.meta();

    assert_eq!(meta.name, "agent-status");
    assert_eq!(meta.priority, 95);
    assert_eq!(meta.version, "1.0.0");
}

#[test]
fn test_multiple_lines_finds_status() {
    let parser = AgentStatusParser::new();

    let context = make_context(&[
        "Some output text",
        "More output",
        "· Processing… (esc to interrupt · thinking)",
        "Other stuff",
    ]);

    assert!(parser.can_parse(&context));
    let result = parser.parse(&context);
    assert!(result.is_some());
    assert_eq!(result.unwrap().status_text, "Processing…");
}

#[test]
fn scenario_token_abuts_parenthesis() {
    let parser = AgentStatusParser::new();
    let context = make_context(&["· Working(esc to interrupt)"]);
    assert!(parser.can_parse(&context));
    let status = parser.parse(&context).unwrap();
    assert_eq!(status.status_text, "Working");
    assert_eq!(status.phase, StatusPhase::Thinking);
}
