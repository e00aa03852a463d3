use semantic_terminal::{AgentToolOutputParser, ParamValue, ParserContext, ToolStatus};

fn make_context(lines: &[&str]) -> ParserContext {
    ParserContext::new(lines.iter().map(|s| s.to_string()).collect())
}

fn get<'a>(params: &'a [(String, ParamValue)], key: &str) -> Option<&'a ParamValue> {
    params.iter().find(|p| p.0 == key).map(|p| &p.1)
}

#[test]
fn test_can_parse_box_header() {
    let parser = AgentToolOutputParser::new();

    let context = make_context(&["⏺ Bash", "  │ command: \"git status\""]);
    assert!(parser.can_parse(&context));
}

#[test]
fn test_can_parse_inline_header() {
    let parser = AgentToolOutputParser::new();

    let context = make_context(&["⏺ Bash(git status)"]);
    assert!(parser.can_parse(&context));
}

#[test]
fn test_can_parse_completed_header() {
    let parser = AgentToolOutputParser::new();

    let context = make_context(&["⏺ Bash (completed in 0.5s)"]);
    assert!(parser.can_parse(&context));
}

#[test]
fn test_cannot_parse_random_text() {
    let parser = AgentToolOutputParser::new();

    let context = make_context(&["random text", "nothing special"]);
    assert!(!parser.can_parse(&context));
}

#[test]
fn test_parse_box_style_basic() {
    let parser = AgentToolOutputParser::new();

    let context = make_context(&["⏺ Bash", "  │ command: \"git status\""]);
    let result = parser.parse(&context);

    assert!(result.is_some());
    let result = result.unwrap();
    assert_eq!(result.data.tool_name, "Bash");
    assert_eq!(result.data.status, ToolStatus::Running);
    assert!(result.data.duration_ms.is_none());
    assert_eq!(
        get(&result.data.params, "command"),
        Some(&ParamValue::Text("git status".to_string()))
    );
    assert_eq!(result.confidence, 95);
}

#[test]
fn test_parse_box_style_completed() {
    let parser = AgentToolOutputParser::new();

    let context = make_context(&["⏺ Bash (completed in 0.5s)", "  │ command: \"ls -la\""]);
    let result = parser.parse(&context);

    assert!(result.is_some());
    let result = result.unwrap();
    assert_eq!(result.data.tool_name, "Bash");
    assert_eq!(result.data.status, ToolStatus::Completed);
    assert_eq!(result.data.duration_ms, Some(500));
    assert_eq!(
        get(&result.data.params, "command"),
        Some(&ParamValue::Text("ls -la".to_string()))
    );
}

#[test]
fn test_parse_inline_style_bash() {
    let parser = AgentToolOutputParser::new();

    let context = make_context(&["⏺ Bash(git status)"]);
    let result = parser.parse(&context);

    assert!(result.is_some());
    let result = result.unwrap();
    assert_eq!(result.data.tool_name, "Bash");
    assert_eq!(
        get(&result.data.params, "command"),
        Some(&ParamValue::Text("git status".to_string()))
    );
}

#[test]
fn test_parse_inline_style_with_key_value() {
    let parser = AgentToolOutputParser::new();

    let context = make_context(&["⏺ Search(pattern: \"*.ts\", path: \"/src\")"]);
    let result = parser.parse(&context);

    assert!(result.is_some());
    let result = result.unwrap();
    assert_eq!(result.data.tool_name, "Search");
    assert_eq!(
        get(&result.data.params, "pattern"),
        Some(&ParamValue::Text("*.ts".to_string()))
    );
    assert_eq!(get(&result.data.params, "path"), Some(&ParamValue::Text("/src".to_string())));
}

#[test]
fn test_parse_with_output() {
    let parser = AgentToolOutputParser::new();

    let context = make_context(&[
        "⏺ Bash(git status)",
        "  ⎿ On branch main",
        "  ⎿ nothing to commit",
    ]);
    let result = parser.parse(&context);

    assert!(result.is_some());
    let result = result.unwrap();
    assert_eq!(result.data.tool_name, "Bash");
    assert!(result.data.output.is_some());
    let output = result.data.output.unwrap();
    assert!(output.contains("On branch main"));
    assert!(output.contains("nothing to commit"));
}

#[test]
fn test_parse_unknown_tool() {
    let parser = AgentToolOutputParser::new();

    let context = make_context(&["⏺ UnknownTool(some args)"]);
    let result = parser.parse(&context);

    assert!(result.is_some());
    let result = result.unwrap();
    assert_eq!(result.data.tool_name, "UnknownTool");
    assert_eq!(result.confidence, 80);
}

#[test]
fn test_parse_read_tool() {
    let parser = AgentToolOutputParser::new();

    let context = make_context(&[
        "⏺ Read",
        "  │ file_path: \"/path/to/file.rs\"",
        "  │ limit: 100",
    ]);
    let result = parser.parse(&context);

    assert!(result.is_some());
    let result = result.unwrap();
    assert_eq!(result.data.tool_name, "Read");
    assert_eq!(
        get(&result.data.params, "file_path"),
        Some(&ParamValue::Text("/path/to/file.rs".to_string()))
    );
    // "100" reads as a JSON number, not as the plain text "100"
    assert_eq!(get(&result.data.params, "limit"), Some(&ParamValue::Number("100".to_string())));
}

#[test]
fn test_parse_edit_tool() {
    let parser = AgentToolOutputParser::new();

    let context = make_context(&[
        "⏺ Edit",
        "  │ file_path: \"/src/main.rs\"",
        "  │ old_string: \"fn main\"",
        "  │ new_string: \"fn main_v2\"",
    ]);
    let result = parser.parse(&context);

    assert!(result.is_some());
    let result = result.unwrap();
    assert_eq!(result.data.tool_name, "Edit");
    assert!(get(&result.data.params, "file_path").is_some());
    assert!(get(&result.data.params, "old_string").is_some());
    assert!(get(&result.data.params, "new_string").is_some());
}

#[test]
fn test_parse_inline_args_splitting() {
    let parser = AgentToolOutputParser::new();

    let args = parser.parse_inline_args("Search", r#"pattern: "a,b,c", path: "/src""#);
    assert_eq!(get(&args, "pattern"), Some(&ParamValue::Text("a,b,c".to_string())));
    assert_eq!(get(&args, "path"), Some(&ParamValue::Text("/src".to_string())));
}

#[test]
fn test_known_tools() {
    let parser = AgentToolOutputParser::new();

    assert!(parser.is_known_tool("Bash"));
    assert!(parser.is_known_tool("Read"));
    assert!(parser.is_known_tool("Edit"));
    assert!(parser.is_known_tool("Write"));
    assert!(parser.is_known_tool("Glob"));
    assert!(parser.is_known_tool("Grep"));
    assert!(parser.is_known_tool("WebFetch"));
    assert!(parser.is_known_tool("WebSearch"));
    assert!(!parser.is_known_tool("CustomTool"));
}

#[test]
fn test_output_type() {
    let parser = AgentToolOutputParser::new();

    let context = make_context(&["⏺ Bash(ls)"]);
    let result = parser.parse(&context).unwrap();

    assert_eq!(result.output_type, "agent-tool");
}

#[test]
fn tool_test_parser_meta() {
    let parser = AgentToolOutputParser::new();
    let meta = parser.meta();

    assert_eq!(meta.name, "agent-tool");
    assert_eq!(meta.priority, 92);
    assert_eq!(meta.version, "1.0.0");
}

#[test]
fn scenario_structured_param_value() {
    let parser = AgentToolOutputParser::new();
    let context = make_context(&["⏺ Write", "  │ flags: [1, 2, 3]", "  │ dry_run: true"]);
    let result = parser.parse(&context).unwrap();
    assert_eq!(
        get(&result.data.params, "flags"),
        Some(&ParamValue::Structured("[1, 2, 3]".to_string()))
    );
    assert_eq!(get(&result.data.params, "dry_run"), Some(&ParamValue::Bool(true)));
}

#[test]
fn scenario_get_param_method() {
    let parser = AgentToolOutputParser::new();
    let context = make_context(&["⏺ Bash(git status)"]);
    let result = parser.parse(&context).unwrap();
    assert_eq!(
        result.data.get_param("command"),
        Some(&ParamValue::Text("git status".to_string()))
    );
    assert_eq!(result.data.get_param("missing"), None);
}
