use openloom::app_state::Message;
use openloom::message_layout::{build_lines_for_messages, LayoutLine, Tone};

fn msg(role: &str, content: &str, collapsed: bool, elapsed_ms: Option<u64>) -> Message {
    Message { role: role.to_string(), content: content.to_string(), collapsed, elapsed_ms }
}

fn kind(l: &LayoutLine) -> String {
    match l {
        LayoutLine::Blank => "blank".to_string(),
        LayoutLine::Collapsed { role, preview } => format!("collapsed:{}:{}", role, preview),
        LayoutLine::Header { role, elapsed } => format!("header:{}:{}", role, elapsed.clone().unwrap_or_default()),
        LayoutLine::Diff { text, tone } => format!("diff:{:?}:{}", tone, text),
        LayoutLine::Code { text } => format!("code:{}", text),
        LayoutLine::Markdown { text } => format!("md:{}", text),
        LayoutLine::Plain { text } => format!("plain:{}", text),
    }
}

#[test]
fn messages_laid_out() {
    let ms = vec![
        msg("user", "hi /help\n\nthere", false, None),
        msg("assistant", "Sure:\n```\nlet x = 1;\n\n```\n**done**", false, Some(1500)),
        msg("thinking", "pondering", true, None),
    ];
    let lines: Vec<String> = build_lines_for_messages(&ms, 80, false).iter().map(kind).collect();
    assert_eq!(
        lines,
        vec![
            "header:user:",
            "plain:hi /help",
            "plain:there",
            "blank",
            "header:assistant:1.5s",
            "md:Sure:",
            "code:let x = 1;",
            "blank",
            "md:**done**",
            "blank",
            "collapsed:thinking:pondering",
        ]
    );
}

#[test]
fn diffs_in_colours() {
    let ms = vec![msg("tool_result", "--- a.rs\n+++ b.rs\n@@ -1 +1 @@\n-old\n+new\n same", false, None)];
    let lines = build_lines_for_messages(&ms, 80, true);
    assert!(matches!(lines[0], LayoutLine::Blank));
    let tones: Vec<Tone> = lines
        .iter()
        .filter_map(|l| match l {
            LayoutLine::Diff { tone, .. } => Some(*tone),
            _ => None,
        })
        .collect();
    assert_eq!(tones, vec![Tone::Dim, Tone::Dim, Tone::Accent, Tone::Error, Tone::Success, Tone::Text]);
    assert!(matches!(&lines[2], LayoutLine::Diff { text, .. } if text == "    --- a.rs"));
    let empty = build_lines_for_messages(&vec![msg("assistant", "", false, None)], 10, false);
    assert_eq!(empty.len(), 1);
}
