use rope::tool::org_outline::{
    block_keyword, extract_outline, heading, render, tool_error, OrgNode, OrgOutline,
};

#[test]
fn extracts_subtree_ranges_in_source_order() {
    let content = "* A\ntext\n** B\ntext\n** C\ntext\n* D\n";
    let outline = extract_outline(content);

    assert_eq!(outline.line_count, 7);
    assert_eq!(
        outline.nodes,
        vec![
            OrgNode {
                level: 1,
                title: "A".into(),
                start_line: 1,
                end_line: 6
            },
            OrgNode {
                level: 2,
                title: "B".into(),
                start_line: 3,
                end_line: 4
            },
            OrgNode {
                level: 2,
                title: "C".into(),
                start_line: 5,
                end_line: 6
            },
            OrgNode {
                level: 1,
                title: "D".into(),
                start_line: 7,
                end_line: 7
            },
        ]
    );
}

#[test]
fn preamble_and_trailing_text_are_not_nodes() {
    let content = "#+title: Notes\nSome introduction.\n\n* Work\n** Rope\ndetails\n";
    let outline = extract_outline(content);

    assert_eq!(outline.line_count, 6);
    assert_eq!(
        outline.nodes,
        vec![
            OrgNode {
                level: 1,
                title: "Work".into(),
                start_line: 4,
                end_line: 6
            },
            OrgNode {
                level: 2,
                title: "Rope".into(),
                start_line: 5,
                end_line: 6
            },
        ]
    );
}

#[test]
fn keeps_full_heading_text_without_parsing_org_semantics() {
    let content = "*** TODO [#A] Implement parser :rope:rust:  \n";
    let outline = extract_outline(content);

    assert_eq!(outline.nodes.len(), 1);
    assert_eq!(outline.nodes[0].level, 3);
    assert_eq!(
        outline.nodes[0].title,
        "TODO [#A] Implement parser :rope:rust:"
    );
}

#[test]
fn rejects_non_headings() {
    let outline = extract_outline("some * text\n*invalid\n  * indented\n* \n");
    // Only the empty-titled `* ` is a real heading.
    assert_eq!(
        outline.nodes,
        vec![OrgNode {
            level: 1,
            title: String::new(),
            start_line: 4,
            end_line: 4
        }]
    );
}

#[test]
fn ignores_heading_like_text_inside_blocks() {
    let content = "* Real\n#+begin_src text\n* not a heading\n** still not\n#+end_src\n#+BEGIN_QUOTE\n* also not\n#+end_quote\n#+begin_example\n* unterminated swallows the rest\n";
    let outline = extract_outline(content);

    assert_eq!(outline.line_count, 10);
    assert_eq!(
        outline.nodes,
        vec![OrgNode {
            level: 1,
            title: "Real".into(),
            start_line: 1,
            end_line: 10
        }]
    );
}

#[test]
fn nested_blocks_close_innermost_first() {
    let content = "#+begin_quote\n#+begin_example\n* hidden\n#+end_example\n* still hidden\n#+end_quote\n* visible\n";
    let outline = extract_outline(content);

    assert_eq!(
        outline.nodes,
        vec![OrgNode {
            level: 1,
            title: "visible".into(),
            start_line: 7,
            end_line: 7
        }]
    );
}

#[test]
fn level_jumps_end_every_open_subtree() {
    let content = "* A\n*** C\ntext\n* D\n";
    let outline = extract_outline(content);

    assert_eq!(
        outline.nodes,
        vec![
            OrgNode {
                level: 1,
                title: "A".into(),
                start_line: 1,
                end_line: 3
            },
            OrgNode {
                level: 3,
                title: "C".into(),
                start_line: 2,
                end_line: 3
            },
            OrgNode {
                level: 1,
                title: "D".into(),
                start_line: 4,
                end_line: 4
            },
        ]
    );
}

#[test]
fn handles_empty_files_and_crlf_line_endings() {
    assert_eq!(extract_outline(""),
        OrgOutline {
            line_count: 0,
            nodes: Vec::new()
        }
    );
    assert_eq!(extract_outline("\n").line_count, 1);

    let outline = extract_outline("* A\r\ntext\r\n** B\r\n");
    assert_eq!(outline.line_count, 3);
    assert_eq!(
        outline.nodes,
        vec![
            OrgNode {
                level: 1,
                title: "A".into(),
                start_line: 1,
                end_line: 3
            },
            OrgNode {
                level: 2,
                title: "B".into(),
                start_line: 3,
                end_line: 3
            },
        ]
    );
}

#[test]
fn lines_cutting_non_ascii_characters_near_a_block_prefix_do_not_panic() {
    // The multi-byte character starts at byte 7, so slicing the first
    // eight bytes would cut it.
    let outline = extract_outline("#+begin\u{435}x\n* A\n");

    assert_eq!(outline.line_count, 2);
    assert_eq!(outline.nodes.len(), 1);
    assert_eq!(outline.nodes[0].title, "A");
}

#[test]
fn render_is_valid_json_with_compact_nodes() {
    let outline = OrgOutline {
        line_count: 4821,
        nodes: vec![
            OrgNode {
                level: 1,
                title: "Work".into(),
                start_line: 10,
                end_line: 950,
            },
            OrgNode {
                level: 2,
                title: "Rope \"quoted\"".into(),
                start_line: 40,
                end_line: 310,
            },
        ],
    };
    let rendered = render("/home/user/notes.org", &outline);

    let value: serde_json::Value = serde_json::from_str(&rendered).unwrap();
    assert_eq!(value["path"], "/home/user/notes.org");
    assert_eq!(value["line_count"], 4821);
    assert_eq!(value["nodes"][0]["title"], "Work");
    assert_eq!(value["nodes"][1]["title"], "Rope \"quoted\"");
    assert_eq!(value["nodes"][1]["end_line"], 310);
    // One node object per line.
    assert!(rendered.contains("    {\"level\":1"));
}

#[test]
fn errors_are_told_as_json() {
    let result = tool_error("invalid_encoding", "File is not valid UTF-8.");
    let value: serde_json::Value = serde_json::from_str(&result.output).unwrap();
    assert_eq!(value["error"], "invalid_encoding");
    assert_eq!(value["message"], "File is not valid UTF-8.");
    assert_eq!(result.image, None);
    assert_eq!(result.diff, None);
}

#[test]
fn an_outline_without_headings_is_rendered() {
    let rendered = render("a.org", &extract_outline("text\n"));
    assert_eq!(
        rendered,
        "{\n  \"path\": \"a.org\",\n  \"line_count\": 1,\n  \"nodes\": [  ]\n}"
    );
}

#[test]
fn markers_and_headings_are_recognized() {
    assert_eq!(block_keyword("#+BEGIN_SRC rust", "#+begin_").as_deref(), Some("SRC"));
    assert_eq!(block_keyword("text", "#+begin_"), None);
    assert_eq!(heading("**  Title \t"), Some((2, "Title".to_string())));
    assert_eq!(heading("**"), None);
    assert_eq!(heading("text"), None);
}

#[test]
fn line_ends_change_nothing() {
    let content = "* A\n#+begin_src\n* no\n#+end_src\n** B\nlast";
    let outline = extract_outline(content);
    assert_eq!(outline.nodes.len(), 2);
    assert_eq!(extract_outline(&content.replace('\n', "\r\n")), outline);
    assert_eq!(extract_outline(&format!("{content}\n")), outline);
    let ended = format!("{content}\n");
    assert_eq!(extract_outline(&ended.replace('\n', "\r\n")), outline);
    assert_eq!(block_keyword("#+BEGIN_SRC x", "#+Begin_").as_deref(), Some("SRC"));
}
