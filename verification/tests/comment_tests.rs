use termaup::comment_text::{comment_body_lines, highlight_compose, highlight_mentions, Piece};
use termaup::comment_input::{input_header, input_prompt, input_scroll_offset, CommentInputMode};
use termaup::models::{Comment, CommentContentItem, TaggedUser, User};
use termaup::ui_text::comment_age_at;

fn p(text: &str, mention: bool) -> Piece {
    Piece { text: text.to_string(), mention }
}

fn text_item(t: &str) -> CommentContentItem {
    CommentContentItem::Text { text: t.to_string(), attributes: None }
}

fn tag(id: i64, username: Option<&str>, text: Option<&str>) -> CommentContentItem {
    CommentContentItem::Tag {
        content_type: "tag".to_string(),
        user: TaggedUser { id, username: username.map(|s| s.to_string()), email: None },
        text: text.map(|s| s.to_string()),
    }
}

#[test]
fn received_text_mentions_are_picked_out() {
    assert_eq!(highlight_mentions("hi @bob_1 and @x"), vec![p("hi ", false), p("@bob_1", true), p(" and ", false), p("@x", true)]);
    assert_eq!(highlight_mentions("mail me@x.io"), vec![p("mail me@x.io", false)]);
    assert_eq!(highlight_mentions("@ alone"), vec![p("@ alone", false)]);
    assert_eq!(highlight_mentions(""), Vec::<Piece>::new());
    assert_eq!(highlight_mentions("@ana."), vec![p("@ana", true), p(".", false)]);
}

#[test]
fn compose_prefers_the_longest_known_name() {
    let names = vec!["Ann".to_string(), "Ann Lee".to_string()];
    assert_eq!(highlight_compose("hey @Ann Lee ok", &names), vec![p("hey ", false), p("@Ann Lee", true), p(" ok", false)]);
    assert_eq!(highlight_compose("@Ann", &names), vec![p("@Ann", true)]);
    assert_eq!(highlight_compose("@Annie.b x", &names), vec![p("@Annie.b", true), p(" x", false)]);
    assert_eq!(highlight_compose("a@b", &names), vec![p("a@b", false)]);
}

#[test]
fn plain_body_is_split_into_lines_with_mentions() {
    let lines = comment_body_lines(&vec![], "hi @bob\nsecond", "  ");
    assert_eq!(lines, vec![vec![p("  ", false), p("hi ", false), p("@bob", true)], vec![p("  ", false), p("second", false)]]);
}

#[test]
fn structured_body_breaks_at_newlines() {
    let content = vec![text_item("Hello "), tag(1, Some("ann"), None), text_item("!\nnext\n"), tag(2, None, Some("@Bo"))];
    let lines = comment_body_lines(&content, "ignored", "> ");
    assert_eq!(
        lines,
        vec![
            vec![p("> ", false), p("Hello ", false), p("@ann", true), p("!", false)],
            vec![p("> ", false), p("next", false)],
            vec![p("> ", false), p("@Bo", true)],
        ]
    );
    let lines = comment_body_lines(&vec![tag(3, None, None), text_item("\n")], "", "");
    assert_eq!(lines, vec![vec![p("", false), p("@mention", true)]]);
}

#[test]
fn comment_ages() {
    let ms: i128 = 1_710_028_800_000;
    let at = |secs: i128| ms * 1_000_000 + secs * 1_000_000_000;
    assert_eq!(comment_age_at("1710028800000", at(30)), "just now");
    assert_eq!(comment_age_at("1710028800000", at(-3600)), "just now");
    assert_eq!(comment_age_at("1710028800000", at(5 * 60)), "5m ago");
    assert_eq!(comment_age_at("1710028800000", at(3 * 3600)), "3h ago");
    assert_eq!(comment_age_at("1710028800000", at(2 * 86400)), "2d ago");
    assert_eq!(comment_age_at("1710028800000", at(8 * 86400)), "Mar 10, 2024");
    assert_eq!(comment_age_at("soon", at(0)), "soon");
}

#[test]
fn highlighting_keeps_the_text() {
    for t in ["hi @bob and @ann!", "@x", "a@b @ c", "", "@Ann Lee said @Annie"] {
        let joined: String = highlight_mentions(t).iter().map(|p| p.text.as_str()).collect();
        assert_eq!(joined, t);
        let names = vec!["Ann Lee".to_string()];
        let joined: String = highlight_compose(t, &names).iter().map(|p| p.text.as_str()).collect();
        assert_eq!(joined, t);
    }
}

fn comment(id: &str, username: Option<&str>) -> Comment {
    Comment {
        id: id.to_string(),
        comment_text: String::new(),
        comment: vec![],
        user: username.map(|u| User {
            id: 1,
            username: u.to_string(),
            email: String::new(),
            color: None,
            profile_picture: None,
            initials: None,
        }),
        date: "0".to_string(),
        reply_count: 0,
        resolved: None,
        parent: None,
        assignee: None,
    }
}

#[test]
fn input_prompt_names_the_mode_and_the_reply_target() {
    let comments = vec![comment("c1", Some("alice")), comment("c2", None)];
    let replies = vec![comment("r1", Some("bob")), comment("c2", Some("carol"))];
    assert_eq!(input_prompt(CommentInputMode::Browse, None, &comments, &replies), None);
    assert_eq!(input_prompt(CommentInputMode::NewComment, None, &comments, &replies).as_deref(), Some("New comment:"));
    assert_eq!(input_prompt(CommentInputMode::EditComment, Some("c1"), &comments, &replies).as_deref(), Some("Edit comment:"));
    assert_eq!(input_prompt(CommentInputMode::Reply, None, &comments, &replies).as_deref(), Some("Reply:"));
    assert_eq!(input_prompt(CommentInputMode::Reply, Some("c1"), &comments, &replies).as_deref(), Some("Reply to alice:"));
    assert_eq!(input_prompt(CommentInputMode::Reply, Some("r1"), &comments, &replies).as_deref(), Some("Reply to bob:"));
    assert_eq!(input_prompt(CommentInputMode::Reply, Some("c2"), &comments, &replies).as_deref(), Some("Reply to carol:"));
    assert_eq!(input_prompt(CommentInputMode::Reply, Some("zz"), &comments, &replies).as_deref(), Some("Reply to comment:"));
}

#[test]
fn input_header_adds_the_send_hint() {
    assert_eq!(input_header("New comment:"), " New comment: (Enter to send, Alt+Enter or Ctrl+N for newline)");
}

#[test]
fn input_scrolls_by_the_rows_beyond_the_box() {
    let header = "0123456789abcdefghij"; // 20 bytes: 2 rows at width 10
    assert_eq!(input_scroll_offset(header, "", 10, 2), 1);
    assert_eq!(input_scroll_offset(header, "", 10, 3), 0);
    assert_eq!(input_scroll_offset(header, "hello\nworld", 10, 1), 3);
    assert_eq!(input_scroll_offset(header, "hello\nworld", 10, 10), 0);
    // " 0123456789" is 11 bytes: 2 rows; the last line " é█" is 1 + 2 + 3 bytes: 1 row.
    assert_eq!(input_scroll_offset(header, "0123456789\né", 10, 0), 5);
    // A zero width counts as one column: 20 + 4 rows.
    assert_eq!(input_scroll_offset(header, "", 0, 4), 20);
    // The offset is taken as a u16.
    let long = "x".repeat(70_000);
    assert_eq!(input_scroll_offset("", &long, 1, 0), ((1 + 70_001 + 3) % 65_536) as u16);
}
