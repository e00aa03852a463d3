use semantic_terminal::{
    all_spinners, braille_spinners, other_spinners, AgentTitleParser, TitleParserContext,
};

fn make_context(title: &str) -> TitleParserContext {
    TitleParserContext::new(title.to_string())
}

#[test]
fn test_parse_braille_spinner_title() {
    let parser = AgentTitleParser::new();

    let context = make_context("⠐ Initial Greeting");
    let result = parser.parse(&context);
    assert!(result.is_some());
    let result = result.unwrap();
    assert_eq!(result.data.task_name, Some("Initial Greeting".to_string()));
    assert_eq!(result.data.spinner_state, "⠐");
    assert!(result.data.is_processing);
    assert!(result.confidence >= 90);
}

#[test]
fn test_parse_different_braille_spinners() {
    let parser = AgentTitleParser::new();

    for spinner in braille_spinners() {
        let title = format!("{} Running task", spinner);
        let context = make_context(&title);
        let result = parser.parse(&context).unwrap();
        assert!(result.data.is_processing, "braille spinner {} should be processing", spinner);
        assert_eq!(result.data.spinner_state, spinner.to_string());
    }
}

#[test]
fn test_parse_static_spinner_title() {
    let parser = AgentTitleParser::new();

    let context = make_context("✳ Agent Console");
    let result = parser.parse(&context);
    assert!(result.is_some());
    let result = result.unwrap();
    assert_eq!(result.data.task_name, Some("Agent Console".to_string()));
    assert_eq!(result.data.spinner_state, "✳");
    assert!(!result.data.is_processing);
}

#[test]
fn test_parse_other_spinners() {
    let parser = AgentTitleParser::new();

    for spinner in other_spinners() {
        let title = format!("{} Some task", spinner);
        let context = make_context(&title);
        let result = parser.parse(&context).unwrap();

        if spinner == '✳' {
            assert!(!result.data.is_processing, "the idle glyph is not processing");
        } else {
            assert!(result.data.is_processing, "spinner {} should be processing", spinner);
        }
    }
}

#[test]
fn test_parse_static_title() {
    let parser = AgentTitleParser::new();

    let context = make_context("Agent Console");
    let result = parser.parse(&context);
    assert!(result.is_some());
    let result = result.unwrap();
    assert_eq!(result.data.task_name, Some("Agent Console".to_string()));
    assert_eq!(result.data.spinner_state, "");
    assert!(!result.data.is_processing);
    assert!(result.confidence < 90);
}

#[test]
fn test_parse_empty_title() {
    let parser = AgentTitleParser::new();

    let context = make_context("");
    let result = parser.parse(&context);
    assert!(result.is_none());
}

#[test]
fn test_parse_spinner_only() {
    let parser = AgentTitleParser::new();

    let context = make_context("⠐ ");
    let result = parser.parse(&context);
    assert!(result.is_some());
    let result = result.unwrap();
    assert_eq!(result.data.task_name, None);
    assert_eq!(result.data.spinner_state, "⠐");
    assert!(result.data.is_processing);
}

#[test]
fn test_can_parse() {
    let parser = AgentTitleParser::new();

    assert!(parser.can_parse(&make_context("Some title")));
    assert!(!parser.can_parse(&make_context("")));
}

#[test]
fn title_test_parser_meta() {
    let parser = AgentTitleParser::new();
    let meta = parser.meta();

    assert_eq!(meta.name, "agent-title");
    assert_eq!(meta.priority, 85);
}

#[test]
fn test_all_spinners_constant() {
    assert_eq!(braille_spinners().len(), 12);
    assert_eq!(other_spinners().len(), 6);
    assert_eq!(all_spinners().len(), 18);
}
