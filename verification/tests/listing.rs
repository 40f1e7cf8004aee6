use faber::listing::{
    activity_mark, format_table, list_agent_rows, list_agents, list_model_row, model_titles,
    models_heading, ModelInfo, ModelPricing, ShownPrices, TextRow,
};
use faber::store::AgentRow;

/// 2026-01-02T03:04:05Z.
const NOW_MS: i64 = 1_767_323_045_000;

fn agent(name: &str, session: Option<&str>, heartbeat: Option<&str>) -> AgentRow {
    AgentRow {
        name: name.to_string(),
        description: format!("the {}", name),
        created_at: String::new(),
        session_id: session.map(|s| s.to_string()),
        heartbeat_at: heartbeat.map(|s| s.to_string()),
    }
}

fn row(cells: &[&str]) -> TextRow {
    TextRow { cells: cells.iter().map(|c| c.to_string()).collect() }
}

#[test]
fn agents_are_marked() {
    assert_eq!(activity_mark("a", "a", false, None), "* (this session)");
    assert_eq!(activity_mark("b", "a", true, Some(9)), "* (other session)");
    assert_eq!(activity_mark("b", "a", true, Some(10)), "");
    assert_eq!(activity_mark("b", "a", false, Some(1)), "");
    assert_eq!(activity_mark("b", "a", true, None), "");
}

#[test]
fn the_rows_of_agents() {
    let agents = vec![
        agent("a", Some("s"), Some("2026-01-02 03:04:00")),
        agent("b", Some("t"), Some("2026-01-02 03:04:00")),
        agent("c", Some("u"), Some("2026-01-02 03:03:55")),
        agent("d", Some("v"), Some("yesterday")),
    ];
    let rows = list_agent_rows(&agents, &[3, 0, -1, 7], "a", NOW_MS);
    assert_eq!(
        rows,
        vec![
            row(&["Name", "Description", "Messages", "Active"]),
            row(&["a", "the a", "3", "* (this session)"]),
            row(&["b", "the b", "0", "* (other session)"]),
            row(&["c", "the c", "-1", ""]),
            row(&["d", "the d", "7", ""]),
        ]
    );
}

#[test]
fn agents_stand_in_a_table() {
    assert_eq!(list_agents(&[], &[], "a", NOW_MS), Some("No agents.".to_string()));
    let table = list_agents(&[agent("bob", None, None)], &[12], "x", NOW_MS).unwrap();
    let lines: Vec<&str> = table.lines().collect();
    assert!(lines[0].contains("Name"));
    assert!(lines[0].contains("Messages"));
    assert!(lines.iter().any(|l| l.contains("bob") && l.contains("12")));
}

#[test]
fn cells_that_cannot_be_measured() {
    assert!(format_table(&[row(&["a"]), row(&["\u{1b}[1mb"])]).is_some());
    assert!(format_table(&[row(&["a"]), row(&["é"])]).is_some());
    assert!(format_table(&[row(&["a"]), row(&["\u{1b}é"])]).is_some());
    assert_eq!(
        format_table(&[row(&["a"]), row(&["\u{1b}[1mé\u{1b}[0m"])]),
        Some(" a \n-----\n \u{1b}[1mé\u{1b}[0m \n".to_string())
    );
    assert!(format_table(&[row(&["a"]), row(&["\u{1b}[1\né"])]).is_some());
    assert!(format_table(&[row(&["a"]), row(&["\u{1b}[é"])]).is_none());
}

#[test]
fn the_row_of_a_model() {
    let model = ModelInfo {
        id: "m".to_string(),
        name: Some("Model".to_string()),
        context_length: Some(4096),
        pricing: Some(ModelPricing { prompt: "0.5".to_string(), completion: "free".to_string() }),
        supported_parameters: Some(vec!["a".to_string(), "b".to_string()]),
    };
    let shown = ShownPrices { prompt: Some("0.500000".to_string()), completion: None };
    assert_eq!(
        list_model_row(&model, &shown),
        row(&["m", "Model", "4096", "0.500000", "free", "a,b"])
    );
    let bare = ModelInfo {
        id: "n".to_string(),
        name: None,
        context_length: None,
        pricing: None,
        supported_parameters: None,
    };
    let shown = ShownPrices { prompt: None, completion: None };
    assert_eq!(list_model_row(&bare, &shown), row(&["n", "", "0", "N/A", "N/A", ""]));
    assert_eq!(model_titles().cells.len(), 6);
    assert_eq!(model_titles().cells[3], "Prompt_USD/1M");
    assert_eq!(models_heading(true), "Available models from custom endpoint:");
    assert_eq!(models_heading(false), "Available models from default endpoint:");
}
