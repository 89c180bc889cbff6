use mind::task::Task;
use mind::time::Timestamp;

fn by_lines(contents: &str) -> Option<(String, Option<String>)> {
    let mut lines = contents.lines();
    let name = lines.next()?;
    lines.next();
    let details = lines.collect::<Vec<&str>>().join("\n");
    let details = details.trim();
    Some((
        name.trim_start_matches("# ").trim().to_string(),
        if details.chars().count() > 0 { Some(details.to_string()) } else { None },
    ))
}

#[test]
fn an_edited_text_gives_a_name_and_details() {
    assert_eq!(
        Task::parse("fix it\n======\nwith care\nand time\n"),
        Some(("fix it".to_string(), Some("with care\nand time".to_string())))
    );
    assert_eq!(Task::parse("# # title \n\n\n"), Some(("title".to_string(), None)));
    assert_eq!(Task::parse("only"), Some(("only".to_string(), None)));
    assert_eq!(Task::parse("a\nb"), Some(("a".to_string(), None)));
    assert_eq!(Task::parse("a\nb\nc"), Some(("a".to_string(), Some("c".to_string()))));
    assert_eq!(Task::parse("\n"), Some((String::new(), None)));
    assert_eq!(Task::parse(""), None);
    assert_eq!(
        Task::parse("a\r\n=\r\none\r\ntwo\r\n"),
        Some(("a".to_string(), Some("one\ntwo".to_string())))
    );
}

#[test]
fn an_edited_text_is_read_line_by_line() {
    let texts = [
        "", "\n", "\n\n", "\n\n\n", "a", "a\n", "a\n=", "a\n=\n", "a\n=\nd", "a\n=\nd\n",
        "# a\n=\nd", "# # a", "## a", "#  a", " # a", "# ", "#", "# # ", "a # b\n\n# c",
        "a\r\n=\r\nd\r\n", "a\r", "a\r\r\n=\n\rd\r", "a\n=\n\r\n\r\nd\r\ne\r\n\r\n", "\r\n",
        "a\n=\n  d  \n\n e \n \n", "a\n=\n\t\n", "\u{1F4C6} é\n===\nü\nö", "a\n=\nd\r\n\u{a0}",
        "a\n\r\n\r", "x\ny\n\r", "x\ny\n\r\r\n\r\nz", "# #  # a \r\n", "a\n=\n1\r\r\n2",
    ];
    for text in texts {
        assert_eq!(Task::parse(text), by_lines(text), "{:?}", text);
    }
}

#[test]
fn what_is_shown_can_be_read_again() {
    let at = Timestamp::new(0, 0, 0).unwrap();
    let full = Task::started("fix it".to_string(), Some("with care\nand time".to_string()), at);
    assert_eq!(
        Task::parse(&full.to_text()),
        Some(("fix it".to_string(), Some("with care\nand time".to_string())))
    );
    let bare = Task::started("fix it".to_string(), None, at);
    assert_eq!(
        Task::parse(&bare.to_text()),
        Some(("fix it".to_string(), Some("No details...".to_string())))
    );
}
