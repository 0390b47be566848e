use companion::task_format::{FormatError, Task, TaskList};
use regex::Regex;

const CHORES: &str = "- [ ] Clean the kitchen\n- [ ] Buy dragon food\n- [x] Feed the dragon\n";

fn parsed(text: &str) -> TaskList {
    TaskList::parse(text).unwrap()
}

#[test]
fn task_from_str() {
    let task = Task::parse("- [x] Do something with dragons").unwrap();
    assert_eq!(task.name, "Do something with dragons");
    assert!(task.completed);
}

#[test]
fn open_task_from_str() {
    let task = Task::parse("- [ ] Buy dragon food").unwrap();
    assert_eq!(task.name, "Buy dragon food");
    assert!(!task.completed);
}

#[test]
fn task_name_is_kept_verbatim() {
    let task = Task::parse("- [ ]   two  spaces, a tab\tand a trailing blank ").unwrap();
    assert_eq!(task.name, "  two  spaces, a tab\tand a trailing blank ");
    let task = Task::parse("- [x] - [ ] nested marker").unwrap();
    assert_eq!(task.name, "- [ ] nested marker");
    let task = Task::parse("- [x] Füttere den Drachen 🐉").unwrap();
    assert_eq!(task.name, "Füttere den Drachen 🐉");
}

#[test]
fn task_name_may_be_empty() {
    let task = Task::parse("- [ ] ").unwrap();
    assert_eq!(task.name, "");
    assert!(!task.completed);
}

#[test]
fn task_name_ends_at_a_line_feed() {
    let task = Task::parse("- [x] first\nsecond").unwrap();
    assert_eq!(task.name, "first");
    let task = Task::parse("- [ ] \n").unwrap();
    assert_eq!(task.name, "");
}

#[test]
fn task_line_needs_its_marker() {
    for line in [
        "",
        "-",
        "- [ ]",
        "- [x]",
        "- [X] capital",
        "- [] none",
        "-[ ] no blank",
        "- [ ]no blank",
        " - [ ] indented",
        "* [ ] star",
        "- [o] other",
        "do the dishes",
        "- [ \u{a0}] wide",
    ] {
        assert_eq!(Task::parse(line).err(), Some(FormatError), "{:?}", line);
    }
}

#[test]
fn task_line_is_written_as_it_was_read() {
    for line in ["- [x] Do something with dragons", "- [ ] Buy dragon food", "- [ ] "] {
        assert_eq!(Task::parse(line).unwrap().serialize(), line);
    }
    let task = Task { name: "Feed the dragon".to_string(), completed: true };
    assert_eq!(task.serialize(), "- [x] Feed the dragon");
    let task = Task { name: "Feed the dragon".to_string(), completed: false };
    assert_eq!(task.serialize(), "- [ ] Feed the dragon");
}

#[test]
fn task_lines_read_as_the_pattern_reads_them() {
    let pattern = Regex::new(r"^- (\[x]|\[ ]) (.*)").unwrap();
    let lines = [
        "- [x] Do something with dragons",
        "- [ ] Buy dragon food",
        "- [ ] ",
        "- [x] ",
        "- [ ]",
        "- [x]x",
        "- [ ]  leading blank",
        "- [x] trailing carriage return\r",
        "- [x] inner\rcarriage return",
        "- [ ] first\nsecond",
        "- [ ] first\r\nsecond",
        "- [ ] \nsecond",
        "- [x] tab\there",
        "- [x] Füttere den Drachen 🐉",
        "- [ ] \u{2028}separator",
        " - [ ] indented",
        "\n- [ ] after a line feed",
        "- [X] capital",
        "- [ x] wide",
        "-- [ ] double",
        "- [ ] - [x] nested",
        "",
        " ",
        "-",
        "do the dishes",
    ];
    for line in lines {
        let expected = pattern.captures(line).map(|found| {
            (
                found.get(2).unwrap().as_str().to_owned(),
                found.get(1).unwrap().as_str() == "[x]",
            )
        });
        let actual = Task::parse(line).ok().map(|task| (task.name, task.completed));
        assert_eq!(actual, expected, "{:?}", line);
    }
}

#[test]
fn active_task_is_first_open_entry() {
    assert_eq!(parsed(CHORES).active_task(), Some("Clean the kitchen".to_string()));
    let list = parsed("- [x] a\n- [x] b\n- [ ] c\n- [ ] d\n- [x] e\n");
    assert_eq!(list.active_task(), Some("c".to_string()));
}

#[test]
fn active_task_of_empty_or_completed_list_is_none() {
    assert_eq!(parsed("").active_task(), None);
    assert_eq!(parsed("\n \n\t\n").active_task(), None);
    assert_eq!(parsed("- [x] a\n- [x] b\n").active_task(), None);
}

#[test]
fn duplicate_names_are_distinct_entries() {
    let mut list = parsed("- [ ] same\n- [ ] same\n");
    list.advance();
    assert_eq!(list.serialize(), "- [x] same\n- [ ] same\n");
    assert_eq!(list.active_task(), Some("same".to_string()));
}

#[test]
fn advance_completes_first_open_entry() {
    let mut list = parsed(CHORES);
    list.advance();
    let text = list.serialize();
    assert_eq!(text, "- [x] Clean the kitchen\n- [ ] Buy dragon food\n- [x] Feed the dragon\n");
    assert_eq!(parsed(&text).active_task(), Some("Buy dragon food".to_string()));
}

#[test]
fn second_advance_completes_the_list() {
    let mut list = parsed(CHORES);
    list.advance();
    list.advance();
    let text = list.serialize();
    assert_eq!(text, "- [x] Clean the kitchen\n- [x] Buy dragon food\n- [x] Feed the dragon\n");
    assert_eq!(list.active_task(), None);
    let mut again = parsed(&text);
    again.advance();
    assert_eq!(again.serialize(), text);
    assert_eq!(again.active_task(), None);
}

#[test]
fn advance_of_completed_list_changes_nothing() {
    let text = "- [x] a\n- [x] b\n";
    let mut list = parsed(text);
    for _ in 0..5 {
        list.advance();
        assert_eq!(list.serialize(), text);
    }
    let mut empty = parsed("");
    empty.advance();
    assert_eq!(empty.serialize(), "");
}

#[test]
fn advances_complete_from_left_to_right() {
    let names = ["one", "two", "three", "four"];
    let text: String = names.iter().map(|name| format!("- [ ] {}\n", name)).collect();
    let mut list = parsed(&text);
    for done in 0..=names.len() {
        let expected: String = names
            .iter()
            .enumerate()
            .map(|(at, name)| format!("- [{}] {}\n", if at < done { "x" } else { " " }, name))
            .collect();
        assert_eq!(list.serialize(), expected);
        assert_eq!(list.active_task(), names.get(done).map(|name| name.to_string()));
        list.advance();
    }
    assert_eq!(list.active_task(), None);
}

#[test]
fn blank_lines_are_passed_over_and_not_written() {
    let text = "\n- [ ] a\n\n   \n\t\n- [x] b\n\u{a0}\u{3000}\n\n";
    let list = parsed(text);
    assert_eq!(list.serialize(), "- [ ] a\n- [x] b\n");
    assert_eq!(list.active_task(), Some("a".to_string()));
}

#[test]
fn lines_end_with_line_feed_or_with_both() {
    let list = parsed("- [ ] a\r\n- [x] b\r\n\r\n- [ ] c");
    assert_eq!(list.serialize(), "- [ ] a\n- [x] b\n- [ ] c\n");
    let list = parsed("- [ ] inner\rreturn\n");
    assert_eq!(list.active_task(), Some("inner\rreturn".to_string()));
    let list = parsed("- [ ] two returns\r\r\n");
    assert_eq!(list.active_task(), Some("two returns\r".to_string()));
    let list = parsed("- [ ] last line\r");
    assert_eq!(list.active_task(), Some("last line\r".to_string()));
}

#[test]
fn lines_are_those_of_the_standard_library() {
    let texts = [
        "",
        "\n",
        "- [ ] a",
        "- [ ] a\n",
        "- [ ] a\n\n- [x] b",
        "- [ ] a\r\n- [x] b\r\n",
        "- [ ] a\r\r\n",
        "- [ ] a\r",
        "\r\n\r\n- [ ] a\n \n",
        "- [x] Füttere den Drachen 🐉\n- [ ] \u{2028}\n",
    ];
    for text in texts {
        let expected: String = text
            .lines()
            .filter(|line| !line.trim().is_empty())
            .map(|line| format!("{}\n", line))
            .collect();
        assert_eq!(parsed(text).serialize(), expected, "{:?}", text);
    }
}

#[test]
fn written_list_is_read_back() {
    let texts = [
        "",
        "- [ ] a\n",
        CHORES,
        "- [x] \n- [ ]  \n- [ ] - [x] nested\n",
        "- [x] Füttere den Drachen 🐉\n- [ ] inner\rreturn\n",
    ];
    for text in texts {
        let list = parsed(text);
        assert_eq!(list.serialize(), text);
        assert_eq!(parsed(&list.serialize()).serialize(), text);
    }
}

#[test]
fn carriage_return_at_the_end_of_a_name_is_not_read_back() {
    for text in ["- [ ] last line\r", "- [ ] two returns\r\r\n"] {
        let list = parsed(text);
        let name = list.active_task().unwrap();
        assert!(name.ends_with('\r'));
        let written = list.serialize();
        assert_eq!(written, format!("- [ ] {}\n", name));
        let again = parsed(&written).active_task().unwrap();
        assert_eq!(format!("{}\r", again), name);
    }
}

#[test]
fn copy_of_a_task_is_the_task() {
    let task = Task::parse("- [x] Feed the dragon").unwrap();
    let copy = task.clone();
    assert_eq!(copy.name, task.name);
    assert_eq!(copy.completed, task.completed);
}

#[test]
fn line_without_marker_is_rejected() {
    let text = "- [ ] Clean the kitchen\ndo the dishes\n- [x] Feed the dragon\n";
    assert_eq!(TaskList::parse(text).err(), Some(FormatError));
}

#[test]
fn one_bad_line_anywhere_fails_the_whole_text() {
    let good = ["- [ ] a", "- [x] b", "", "- [ ] c"];
    for at in 0..=good.len() {
        let mut lines: Vec<&str> = good.to_vec();
        lines.insert(at, "  - [ ] indented");
        let text = lines.join("\n");
        assert_eq!(TaskList::parse(&text).err(), Some(FormatError), "{:?}", text);
    }
    assert!(TaskList::parse(&good.join("\n")).is_ok());
}

#[test]
fn format_error_has_a_message() {
    assert_eq!(FormatError.message(), "Invalid task format");
}
