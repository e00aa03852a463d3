use semantic_terminal::{
    agent_fingerprints, default_registry, FingerprintCategory, FingerprintHints,
    FingerprintRegistry, ParserContext,
};

fn make_context(lines: &[&str]) -> ParserContext {
    ParserContext::new(lines.iter().map(|s| s.to_string()).collect())
}

#[test]
fn test_registry_register() {
    let mut registry = FingerprintRegistry::new();
    registry.register_all(agent_fingerprints());

    assert!(registry.get("agent.spinner.status").is_some());
    assert!(registry.get("agent.prompt.input").is_some());
    assert!(registry.get("nonexistent").is_none());
}

#[test]
fn test_get_by_category() {
    let registry = default_registry();

    let spinners = registry.get_by_category(FingerprintCategory::Spinner);
    assert!(!spinners.is_empty());

    let prompts = registry.get_by_category(FingerprintCategory::Prompt);
    assert!(!prompts.is_empty());
}

#[test]
fn test_extract_spinner() {
    let registry = default_registry();
    let context = make_context(&["·"]);
    let result = registry.extract(&context);

    assert!(result.hints.has_spinner);
}

#[test]
fn fingerprint_test_extract_prompt() {
    let registry = default_registry();
    let context = make_context(&["❯ "]);
    let result = registry.extract(&context);

    assert!(result.hints.has_prompt);
}

#[test]
fn test_extract_statusbar() {
    let registry = default_registry();
    let context = make_context(&["✻ Reading file... (esc to interrupt)"]);
    let result = registry.extract(&context);

    let matches = result.get_match("agent.statusbar.running");
    assert!(matches.is_some());
    assert!(matches.unwrap().matched);
}

#[test]
fn test_extract_error() {
    let registry = default_registry();
    let context = make_context(&["Error: file not found"]);
    let result = registry.extract(&context);

    assert!(result.hints.has_error);
}

#[test]
fn test_extract_tool() {
    let registry = default_registry();
    let context = make_context(&["⏺ Read"]);
    let result = registry.extract(&context);

    assert!(result.hints.has_tool_output);
}

#[test]
fn test_fingerprint_hints_default() {
    let hints = FingerprintHints::default();
    assert!(!hints.has_spinner);
    assert!(!hints.has_prompt);
    assert!(!hints.has_tool_output);
    assert!(!hints.has_confirm_dialog);
    assert!(!hints.has_error);
}

#[test]
fn scenario_get_after_register() {
    let mut registry = FingerprintRegistry::new();
    let table = agent_fingerprints();
    let first_id = table[0].id.clone();
    let first_priority = table[0].priority;
    registry.register_all(table);
    let got = registry.get(&first_id).unwrap();
    assert_eq!(got.id, first_id);
    assert_eq!(got.priority, first_priority);
}

#[test]
fn scenario_reregister_does_not_duplicate() {
    let mut registry = FingerprintRegistry::new();
    registry.register_all(agent_fingerprints());
    let spinners_before = registry.get_by_category(FingerprintCategory::Spinner).len();
    // register the same identifiers again, unchanged
    registry.register_all(agent_fingerprints());
    let spinners_after = registry.get_by_category(FingerprintCategory::Spinner).len();
    assert_eq!(spinners_before, spinners_after);
    assert_eq!(spinners_before, 2);
}

#[test]
fn scenario_get_by_category_sorted() {
    let registry = default_registry();
    for cat in [
        FingerprintCategory::Spinner,
        FingerprintCategory::Statusbar,
        FingerprintCategory::Prompt,
        FingerprintCategory::Separator,
        FingerprintCategory::Assistant,
        FingerprintCategory::Tool,
        FingerprintCategory::Error,
        FingerprintCategory::Confirm,
    ] {
        let fps = registry.get_by_category(cat);
        for w in fps.windows(2) {
            assert!(w[0].priority >= w[1].priority);
        }
    }
}

#[test]
fn scenario_extract_is_total() {
    let registry = default_registry();
    let table = agent_fingerprints();
    let context = make_context(&["whatever input", "with no signal at all"]);
    let result = registry.extract(&context);
    assert_eq!(result.matches.len(), table.len());
    for (m, fp) in result.matches.iter().zip(table.iter()) {
        assert_eq!(m.fingerprint_id, fp.id);
    }
}

#[test]
fn scenario_unmatched_is_bare() {
    let registry = default_registry();
    let context = make_context(&["plain words only"]);
    let result = registry.extract(&context);
    for m in &result.matches {
        if !m.matched {
            assert!(m.captures.is_none());
            assert!(m.line_index.is_none());
        }
    }
}

#[test]
fn scenario_full_buffer_fallback() {
    let registry = default_registry();
    let context = make_context(&["nothing here"])
        .with_full_content("earlier output had esc to interrupt in it".to_string());
    let result = registry.extract(&context);
    let m = result.get_match("agent.statusbar.running").unwrap();
    assert!(m.matched);
    assert!(m.line_index.is_none());
}

#[test]
fn scenario_statusbar_rule_captures() {
    let registry = default_registry();
    let context = make_context(&["· Precipitating… (esc to interrupt · thinking)"]);
    let result = registry.extract(&context);
    let m = result.get_match("agent.statusbar.pattern").unwrap();
    assert!(m.matched);
    assert_eq!(m.line_index, Some(0));
    let caps = m.captures.as_ref().unwrap();
    assert_eq!(caps.len(), 3);
    assert_eq!(caps[0], "·");
    assert_eq!(caps[1], "Precipitating…");
    assert_eq!(caps[2], "thinking");
}

#[test]
fn scenario_clear_empties_registry() {
    let mut registry = default_registry();
    registry.clear();
    assert!(registry.get("agent.spinner.status").is_none());
    assert!(registry.get_by_category(FingerprintCategory::Spinner).is_empty());
}

#[test]
fn scenario_default_table_contents() {
    let table = agent_fingerprints();
    assert_eq!(table.len(), 20);
    // pairwise-distinct identifiers
    for i in 0..table.len() {
        for j in (i + 1)..table.len() {
            assert_ne!(table[i].id, table[j].id);
        }
    }
    // confidences in range and positive priorities
    for fp in &table {
        assert!(fp.confidence <= 100);
        assert!(fp.priority > 0);
        assert_eq!(fp.source, "agent-v1.0");
    }
    // spot-check entries against the stated table
    assert_eq!(table[0].id, "agent.spinner.status");
    assert_eq!(table[8].id, "agent.tool.header");
    assert_eq!(table[8].priority, 92);
    assert_eq!(table[19].id, "agent.title.pattern");
    // a second call yields the same list
    let again = agent_fingerprints();
    for (a, b) in table.iter().zip(again.iter()) {
        assert_eq!(a.id, b.id);
        assert_eq!(a.priority, b.priority);
        assert_eq!(a.confidence, b.confidence);
    }
}

#[test]
fn scenario_default_registry_holds_table() {
    let registry = default_registry();
    for fp in agent_fingerprints() {
        let got = registry.get(&fp.id).expect("default id registered");
        assert_eq!(got.priority, fp.priority);
        assert_eq!(got.confidence, fp.confidence);
    }
    assert!(registry.get("not-a-default-id").is_none());
}

#[test]
fn scenario_get_by_category_complete_with_stable_ties() {
    let registry = default_registry();
    // both spinner entries share priority 100; registration order decides
    let spinners = registry.get_by_category(FingerprintCategory::Spinner);
    assert_eq!(spinners.len(), 2);
    assert_eq!(spinners[0].id, "agent.spinner.status");
    assert_eq!(spinners[1].id, "agent.spinner.braille");
    // all six tool entries are returned, highest priority first
    let tools = registry.get_by_category(FingerprintCategory::Tool);
    assert_eq!(tools.len(), 6);
    assert_eq!(tools[0].priority, 92);
    assert_eq!(tools[0].id, "agent.tool.header");
    assert_eq!(tools[1].id, "agent.tool.inline-header");
    assert_eq!(tools[2].id, "agent.tool.known-names");
}

#[test]
fn scenario_whitespace_tail_matches() {
    let registry = default_registry();
    // a parameter line whose value is only whitespace still matches,
    // capturing the last whitespace character
    let context = make_context(&["  │ key:   "]);
    let result = registry.extract(&context);
    let m = result.get_match("agent.tool.param").unwrap();
    assert!(m.matched);
    assert_eq!(m.captures.as_ref().unwrap()[1], " ");
    // a numbered option followed only by whitespace
    let context = make_context(&["1.   "]);
    let result = registry.extract(&context);
    assert!(result.get_match("agent.confirm.numbered-option").unwrap().matched);
}
