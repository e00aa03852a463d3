use semantic_terminal::{
    AgentConfirmParser, ConfirmInfo, ConfirmKey, ConfirmResponse, ConfirmType, ParserContext,
};

fn make_context(lines: &[&str]) -> ParserContext {
    ParserContext::new(lines.iter().map(|s| s.to_string()).collect())
}

fn get<'a>(params: &'a [(String, String)], key: &str) -> Option<&'a String> {
    params.iter().find(|p| p.0 == key).map(|p| &p.1)
}

#[test]
fn test_parse_tool_info() {
    let parser = AgentConfirmParser::new();

    let text = r#"xjp-mcp - xjp_secret_get(key: "test_value")"#;
    let tool = parser.parse_tool_info(text);
    assert!(tool.is_some());
    let tool = tool.unwrap();
    assert_eq!(tool.name, "xjp_secret_get");
    assert_eq!(tool.mcp_server, Some("xjp-mcp".to_string()));
    assert_eq!(get(&tool.params, "key"), Some(&"test_value".to_string()));

    let text = r#"xjp-mcp - xjp_secret_get(key: "value") (MCP)"#;
    let tool = parser.parse_tool_info(text);
    assert!(tool.is_some());
    assert_eq!(tool.unwrap().name, "xjp_secret_get");

    let text = r#"server - tool_name(param1: "val1", param2: "val2")"#;
    let tool = parser.parse_tool_info(text);
    assert!(tool.is_some());
    let tool = tool.unwrap();
    assert_eq!(get(&tool.params, "param1"), Some(&"val1".to_string()));
    assert_eq!(get(&tool.params, "param2"), Some(&"val2".to_string()));
}

#[test]
fn test_parse_options() {
    let parser = AgentConfirmParser::new();

    let text =
        "❯ 1. Yes, allow this action\n  2. Yes, allow for this session\n  3. No, deny this action";
    let options = parser.parse_options(text);
    assert!(options.is_some());
    let options = options.unwrap();
    assert_eq!(options.len(), 3);

    assert!(matches!(options[0].key, ConfirmKey::Number(1)));
    assert!(options[0].label.contains("Yes, allow this action"));
    assert!(options[0].is_default);

    assert!(matches!(options[1].key, ConfirmKey::Number(2)));
    assert!(!options[1].is_default);

    assert!(matches!(options[2].key, ConfirmKey::Number(3)));
    assert!(options[2].label.contains("No"));
}

#[test]
fn confirm_test_detect_option_confirm() {
    let parser = AgentConfirmParser::new();

    let context = make_context(&[
        "xjp-mcp - xjp_secret_get(key: \"test\")",
        "❯ 1. Yes, allow this action",
        "  2. Yes, allow for this session",
        "  3. No, deny this action",
        "Esc to cancel",
    ]);

    let result = parser.detect_confirm(&context);
    assert!(result.is_some());
    let info = result.unwrap();

    assert_eq!(info.confirm_type, ConfirmType::Options);
    assert!(info.tool.is_some());
    let tool = info.tool.as_ref().unwrap();
    assert_eq!(tool.name, "xjp_secret_get");
    assert_eq!(tool.mcp_server, Some("xjp-mcp".to_string()));
    assert!(info.options.is_some());
    let options = info.options.as_ref().unwrap();
    assert_eq!(options.len(), 3);
    assert!(options[0].is_default);
}

#[test]
fn confirm_test_detect_yesno_confirm() {
    let parser = AgentConfirmParser::new();

    let context = make_context(&["Do you want to continue? [Y/n]"]);
    let result = parser.detect_confirm(&context);
    assert!(result.is_some());
    let info = result.unwrap();
    assert_eq!(info.confirm_type, ConfirmType::YesNo);
    assert!(info.options.is_some());
    assert_eq!(info.options.as_ref().unwrap().len(), 2);

    let context = make_context(&["Proceed with action? (yes/no)"]);
    let result = parser.detect_confirm(&context);
    assert!(result.is_some());
    assert_eq!(result.unwrap().confirm_type, ConfirmType::YesNo);
}

#[test]
fn confirm_test_extract_prompt() {
    let parser = AgentConfirmParser::new();

    let text = "Do you want to allow this?\n❯ 1. Yes\n  2. No\nEsc to cancel";
    let prompt = parser.extract_prompt(text);
    assert_eq!(prompt, "Do you want to allow this?");

    let text = "Continue? [Y/n]";
    let prompt = parser.extract_prompt(text);
    assert_eq!(prompt, "Continue?");
}

fn plain_info(confirm_type: ConfirmType) -> ConfirmInfo {
    ConfirmInfo {
        confirm_type,
        prompt: "Test".to_string(),
        options: None,
        tool: None,
        raw_prompt: "Test".to_string(),
    }
}

#[test]
fn test_format_response_confirm() {
    let parser = AgentConfirmParser::new();
    let info = plain_info(ConfirmType::Options);
    let response = ConfirmResponse::confirm();
    assert_eq!(parser.format_response(&info, &response), "\r");
}

#[test]
fn test_format_response_deny_options() {
    let parser = AgentConfirmParser::new();
    let info = plain_info(ConfirmType::Options);
    let response = ConfirmResponse::deny();
    assert_eq!(parser.format_response(&info, &response), "\x1b[B\x1b[B\r");
}

#[test]
fn test_format_response_deny_yesno() {
    let parser = AgentConfirmParser::new();
    let info = plain_info(ConfirmType::YesNo);
    let response = ConfirmResponse::deny();
    assert_eq!(parser.format_response(&info, &response), "n\r");
}

#[test]
fn test_format_response_select() {
    let parser = AgentConfirmParser::new();
    let info = plain_info(ConfirmType::Options);

    let response = ConfirmResponse::select(1);
    assert_eq!(parser.format_response(&info, &response), "\r");

    let response = ConfirmResponse::select(2);
    assert_eq!(parser.format_response(&info, &response), "\x1b[B\r");

    let response = ConfirmResponse::select(3);
    assert_eq!(parser.format_response(&info, &response), "\x1b[B\x1b[B\r");
}

#[test]
fn test_format_response_input() {
    let parser = AgentConfirmParser::new();
    let info = plain_info(ConfirmType::YesNo);
    let response = ConfirmResponse::input("custom value".to_string());
    assert_eq!(parser.format_response(&info, &response), "custom value\r");
}

#[test]
fn confirm_test_no_detection() {
    let parser = AgentConfirmParser::new();

    let context = make_context(&["random text", "nothing special"]);
    let result = parser.detect_confirm(&context);
    assert!(result.is_none());
}
