use rope::config::ToolPolicies;
use rope::json::{parse, Json};
use rope::tool::builtin::{
    edit, file_diff, image_type, list_files, list_kept, normalize_path_separator, normalize_plan,
    search_files, update_plan, viewed_image, Unusable,
};
use rope::tool::external::{external_name, ExternalTool};
use rope::tool::offered::{discover, find_program, UpdatePlanTool, ViewImageTool};
use rope::tool::registry::{ToolEntry, ToolRegistry};
use rope::tool::{Approval, ExecutionPlan, PlanStatus, PlanStep};

fn entry(name: &str, approval: Approval) -> ToolEntry {
    ToolEntry {
        name: name.into(),
        description: "does something".into(),
        parameters: parse("{}").unwrap(),
        vision_only: false,
        approval,
    }
}

fn plan(explanation: Option<&str>, steps: &[(&str, PlanStatus)]) -> ExecutionPlan {
    ExecutionPlan {
        explanation: explanation.map(String::from),
        plan: steps
            .iter()
            .map(|(step, status)| PlanStep {
                step: step.to_string(),
                status: *status,
            })
            .collect(),
    }
}

#[test]
fn tool_paths_use_portable_separators() {
    assert_eq!(
        normalize_path_separator("nested/match.rs", '/'),
        "nested/match.rs"
    );
    assert_eq!(
        normalize_path_separator(r"nested\match.rs", '\\'),
        "nested/match.rs"
    );
}

#[test]
fn vision_tool_is_only_advertised_to_vision_models() {
    let mut tools = ToolRegistry::new();
    tools.insert(ViewImageTool(String::new()).entry(Approval::Allow));

    assert!(tools.definitions(false).is_empty());
    assert_eq!(
        tools.definitions(true)[0].function.name,
        "view_image".to_owned()
    );
}

#[test]
fn web_tools_are_omitted_without_a_headless_browser() {
    let policies = ToolPolicies::default();
    let tools = discover("", &policies, false, false, &vec![]);

    assert!(tools.get("web_browser").is_err());
    assert!(tools.get("web_search").is_err());
    let tools = discover("", &policies, false, true, &vec![]);
    assert!(tools.get("web_browser").is_ok());
    assert!(tools.get("web_search").is_ok());
}

#[test]
fn tools_are_listed_by_name() {
    let tools = discover("", &ToolPolicies::default(), true, true, &vec![]);
    let names: Vec<String> = tools
        .definitions(true)
        .iter()
        .map(|definition| definition.function.name.clone())
        .collect();
    assert_eq!(
        names,
        [
            "edit",
            "list_files",
            "org_outline",
            "read",
            "search_files",
            "shell",
            "shell_cancel",
            "shell_poll",
            "update_plan",
            "view_image",
            "web_browser",
            "web_search",
            "write"
        ]
    );
    assert_eq!(tools.get("write").unwrap().approval, Approval::Ask);
    assert_eq!(tools.get("read").unwrap().approval, Approval::Allow);
    assert_eq!(tools.get("shell").unwrap().approval, Approval::Ask);
    assert_eq!(tools.get("shell_poll").unwrap().approval, Approval::Allow);
    assert_eq!(tools.get("shell_cancel").unwrap().approval, Approval::Allow);
    assert_eq!(tools.get("none").unwrap_err(), "unknown tool: none");
}

#[test]
fn programs_replace_tools_but_not_the_plan() {
    let programs = vec![
        ExternalTool::new("read".into(), "/a/read".into()),
        ExternalTool::new("update_plan".into(), "/a/update_plan".into()),
    ];
    let policies = ToolPolicies {
        external: Approval::Deny,
        ..ToolPolicies::default()
    };
    let tools = discover("", &policies, false, false, &programs);
    assert_eq!(tools.get("read").unwrap().description, "External executable tool");
    assert_eq!(tools.get("read").unwrap().approval, Approval::Deny);
    assert_eq!(tools.get("update_plan").unwrap().approval, Approval::Allow);
    assert_eq!(find_program(&programs, "read"), Some(0));
    assert_eq!(find_program(&programs, "update_plan"), None);
    assert_eq!(find_program(&programs, "write"), None);
}

#[test]
fn a_tool_is_entered_once() {
    let mut tools = ToolRegistry::new();
    tools.insert(entry("b", Approval::Ask));
    tools.insert(entry("a", Approval::Ask));
    tools.insert(entry("b", Approval::Deny));
    assert_eq!(tools.tools.len(), 2);
    assert_eq!(tools.tools[0].name, "a");
    assert_eq!(tools.get("b").unwrap().approval, Approval::Deny);
}

#[test]
fn schemas_name_what_is_required() {
    let entry = UpdatePlanTool.entry(Approval::Allow);
    let schema: serde_json::Value =
        serde_json::from_str(&rope::json::write(&entry.parameters)).unwrap();
    assert_eq!(schema["required"][0], "plan");
    assert_eq!(schema["properties"]["plan"]["minItems"], 1);
    assert_eq!(
        schema["properties"]["plan"]["items"]["properties"]["status"]["enum"][1],
        "in_progress"
    );
    assert_eq!(schema["additionalProperties"], false);
    let tools = discover("", &ToolPolicies::default(), true, true, &vec![]);
    let shell: serde_json::Value = serde_json::from_str(&rope::json::write(
        &tools.get("shell").unwrap().parameters,
    ))
    .unwrap();
    assert_eq!(shell["properties"]["yield_time_ms"]["maximum"], 30_000);
    assert_eq!(shell["required"], serde_json::Value::from(vec!["command"]));
}

#[test]
fn plans_are_normalized_and_checked() {
    let stored = update_plan(plan(
        Some("  starting work  "),
        &[
            (" inspect code ", PlanStatus::Completed),
            (" implement pane ", PlanStatus::InProgress),
        ],
    ))
    .unwrap();
    let Json::Object(_) = parse(&stored.output).unwrap() else {
        panic!("not an object");
    };
    let value: serde_json::Value = serde_json::from_str(&stored.output).unwrap();
    assert_eq!(value["explanation"], "starting work");
    assert_eq!(value["plan"][0]["step"], "inspect code");
    assert_eq!(value["plan"][1]["status"], "in_progress");

    let two = &[("one", PlanStatus::InProgress), ("two", PlanStatus::InProgress)];
    assert_eq!(
        update_plan(plan(None, two)).unwrap_err(),
        "plan may contain at most one in_progress step"
    );
    assert_eq!(
        normalize_plan(plan(None, &[])).unwrap_err(),
        "plan must contain at least one step"
    );
    assert_eq!(
        normalize_plan(plan(None, &[("  ", PlanStatus::Pending)])).unwrap_err(),
        "plan steps must not be empty"
    );
    let tidy = normalize_plan(plan(Some("  "), &[("a", PlanStatus::Pending)])).unwrap();
    assert_eq!(tidy.explanation, None);
}

#[test]
fn edits_replace_the_only_match() {
    assert_eq!(edit("one\ntwo\n", "two", "three", "f").unwrap(), "one\nthree\n");
    assert_eq!(
        edit("one one", "one", "x", "f").unwrap_err(),
        "expected one match in f, found 2"
    );
    assert_eq!(edit("abc", "d", "x", "f").unwrap_err(), "expected one match in f, found 0");
    assert_eq!(edit("aaa", "aa", "b", "f").unwrap(), "ba");
    assert_eq!(edit("", "", "new", "f").unwrap(), "new");
    assert_eq!(edit("ab", "", "x", "f").unwrap_err(), "expected one match in f, found 3");
}

#[test]
fn differences_name_their_file() {
    let changed = file_diff("existing.txt", Some("one\ntwo\n"), "one\nthree\n").unwrap();
    assert!(changed.contains("--- a/existing.txt"));
    assert!(changed.contains("+++ b/existing.txt"));
    assert!(changed.contains("-two"));
    assert!(changed.contains("+three"));
    let new = file_diff("new.txt", None, "new file\n").unwrap();
    assert!(new.contains("--- /dev/null"));
    assert!(new.contains("+++ b/new.txt"));
    assert!(new.contains("+new file"));
    assert_eq!(file_diff("same.txt", Some("a"), "a"), None);
    assert!(file_diff("empty.txt", None, "").is_some());
}

#[test]
fn files_are_searched_line_by_line() {
    let files = vec![
        ("a.rs".to_string(), "fn one() {}\nfn two() {}\n".to_string()),
        ("b.rs".to_string(), "fn one() {}\r\n".to_string()),
    ];
    assert_eq!(
        search_files(&files, "on[e]").unwrap(),
        "a.rs:1:fn one() {}\nb.rs:1:fn one() {}\n"
    );
    assert_eq!(search_files(&files, "three").unwrap(), "");
    let malformed = search_files(&files, "(").unwrap_err();
    assert!(matches!(malformed, Unusable::Malformed(_)));
    assert!(malformed.message().starts_with("regex parse error"));
    let big = search_files(&files, r"\w{100000}").unwrap_err();
    assert!(matches!(big, Unusable::TooBig(_)));
    assert_eq!(big.message(), "Compiled regex exceeds size limit of 10485760 bytes.");
}

#[test]
fn files_are_listed_by_pattern() {
    let paths = ["src/lib.rs", "b.txt", "a.rs"].map(String::from).to_vec();
    assert_eq!(list_files(&paths, "*.rs").unwrap(), "a.rs\nsrc/lib.rs");
    assert_eq!(list_files(&paths, "*.md").unwrap(), "");
    assert!(matches!(list_files(&paths, "["), Err(Unusable::Malformed(_))));
    let deep = format!("{}a{}", "{".repeat(300), "}".repeat(300));
    assert!(matches!(list_files(&paths, &deep), Err(Unusable::TooBig(_))));
    assert_eq!(list_kept(&paths, &vec![true, false, true]), "a.rs\nsrc/lib.rs");
}

#[test]
fn images_are_known_by_their_endings() {
    assert_eq!(image_type("PNG", "x.PNG"), Ok("image/png"));
    assert_eq!(image_type("jpeg", "x"), Ok("image/jpeg"));
    assert_eq!(image_type("webp", "x"), Ok("image/webp"));
    assert_eq!(image_type("gif", "x"), Ok("image/gif"));
    assert_eq!(
        image_type("bmp", "a/x.bmp").unwrap_err(),
        "unsupported image format: a/x.bmp"
    );
    let viewed = viewed_image("image/png", &b"image".to_vec(), "x.png");
    assert_eq!(viewed.output, "viewed x.png");
    assert_eq!(viewed.image.unwrap().data, "aW1hZ2U=");
}

#[test]
fn programs_in_a_directory_are_tools() {
    assert_eq!(external_name(true, true, Some("t".into())), Ok(Some("t".into())));
    assert_eq!(external_name(false, true, Some("t".into())), Ok(None));
    assert_eq!(external_name(true, false, None), Ok(None));
    assert_eq!(external_name(true, true, None).unwrap_err(), "tool name is not UTF-8");
    assert_eq!(
        external_name(true, true, Some("".into())).unwrap_err(),
        "external tool has an empty name"
    );
    assert_eq!(
        ExternalTool::new("t".into(), "/t".into()).failure("exit status: 1", "no"),
        "external tool t exited with exit status: 1: no"
    );
}
