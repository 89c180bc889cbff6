use mind::command::Command;
use mind::text::{parse_index, same_text, same_trimmed, trimmed, white_space};

fn read(line: &str) -> Option<Command> {
    Command::from(line.split(' '))
}

#[test]
fn verbs_alone_speak_of_the_last_task() {
    assert!(matches!(read("g"), Some(Command::GetLast)));
    assert!(matches!(read("get"), Some(Command::GetLast)));
    assert!(matches!(read("p"), Some(Command::PopLast)));
    assert!(matches!(read("pop"), Some(Command::PopLast)));
    assert!(matches!(read("r"), Some(Command::RemindLast)));
    assert!(matches!(read("remind"), Some(Command::RemindLast)));
    assert!(matches!(read("e"), Some(Command::EditLast)));
    assert!(matches!(read("edit"), Some(Command::EditLast)));
}

#[test]
fn verbs_with_a_position_speak_of_that_task() {
    assert!(matches!(read("g 3"), Some(Command::Get(3))));
    assert!(matches!(read("get 0"), Some(Command::Get(0))));
    assert!(matches!(read("p 12"), Some(Command::Pop(12))));
    assert!(matches!(read("pop +4"), Some(Command::Pop(4))));
    assert!(matches!(read("r 1"), Some(Command::Remind(1))));
    assert!(matches!(read("remind 007"), Some(Command::Remind(7))));
    assert!(matches!(read("e 2"), Some(Command::Edit(2))));
    assert!(matches!(read("edit 2 and more"), Some(Command::Edit(2))));
}

#[test]
fn edit_may_name_the_reminders() {
    assert!(matches!(read("e r"), Some(Command::EditReminders)));
    assert!(matches!(read("edit reminders"), Some(Command::EditReminders)));
    assert!(matches!(read("e reminders"), Some(Command::EditReminders)));
    assert!(read("g r").is_none());
    assert!(read("p reminders").is_none());
    assert!(read("e remind").is_none());
}

#[test]
fn a_position_alone_asks_to_continue() {
    assert!(matches!(read("5"), Some(Command::Continue(5))));
    assert!(matches!(read("0"), Some(Command::Continue(0))));
    assert!(matches!(read("5 pop"), Some(Command::Continue(5))));
}

#[test]
fn what_is_not_a_position_is_turned_down() {
    assert!(read("pop x").is_none());
    assert!(read("get -1").is_none());
    assert!(read("e 1.5").is_none());
    assert!(read("r ").is_none());
    assert!(read("hello").is_none());
    assert!(read("").is_none());
    assert!(read("Pop").is_none());
    assert!(read(" pop").is_none());
    assert!(Command::from(std::iter::empty::<&str>()).is_none());
    assert!(read("pop 99999999999999999999999999").is_none());
}

#[test]
fn positions_are_read_as_the_standard_library_reads_them() {
    let max = usize::MAX.to_string();
    let over = format!("{}0", max);
    let tokens = [
        "0", "1", "42", "+42", "-42", "", "+", "-", "++1", "+-1", "00", "0009", " 1", "1 ", "1_0",
        "0x10", "१२", "１", "٣", "a", "1a", "18446744073709551615", "18446744073709551616",
        "4294967295", "4294967296", max.as_str(), over.as_str(),
    ];
    for token in tokens {
        assert_eq!(parse_index(token), token.parse::<usize>().ok(), "{:?}", token);
    }
}

#[test]
fn trimming_is_what_the_standard_library_does() {
    let texts = [
        "", " ", "a", " a", "a ", "  a b  ", "\t\n a \r\n", "\u{a0}x\u{a0}", "\u{3000}x y\u{2003}",
        "\u{85}x\u{1680}", "\u{2028}\u{2029}z\u{202f}\u{205f}", "\u{200b}x", "\u{feff}x",
        "\u{180e}x", "  ", "\u{b}\u{c}q", "\u{1c} x", "\u{2000}\u{200a}m\u{2001}",
    ];
    for text in texts {
        assert_eq!(trimmed(text), text.trim(), "{:?}", text);
    }
}

#[test]
fn white_space_is_what_the_standard_library_says() {
    let mut n: u32 = 0;
    while n < 0x11_0000 {
        if let Some(c) = char::from_u32(n) {
            assert_eq!(white_space(c), c.is_whitespace(), "{:x}", n);
        }
        n += 1;
    }
}

#[test]
fn texts_are_compared_character_by_character() {
    assert!(same_text("", ""));
    assert!(same_text("abc", "abc"));
    assert!(!same_text("abc", "abd"));
    assert!(!same_text("abc", "ab"));
    assert!(same_text("\u{1F4C6} x", "\u{1F4C6} x"));
    assert!(same_trimmed(" a ", "a"));
    assert!(same_trimmed("\ta b\n", "a b"));
    assert!(!same_trimmed("a  b", "a b"));
    assert!(same_trimmed("  ", ""));
}
