use mind::command::Command;
use mind::mind::{Effect, Mind};
use mind::reminder::{RecurrenceConfigError, Reminder, Repeat};
use mind::task::Task;
use mind::time::Timestamp;

fn at(secs: i64) -> Timestamp {
    Timestamp::new(secs, 0, 0).unwrap()
}

fn task(name: &str, secs: i64) -> Task {
    Task::started(name.to_string(), None, at(secs))
}

fn names(mind: &Mind) -> Vec<String> {
    mind.tasks().iter().map(|t| t.name().clone()).collect()
}

fn abc() -> Mind {
    Mind::from(vec![task("a", 1), task("b", 2), task("c", 3)], Vec::new())
}

#[test]
fn push_promotes_a_task_of_the_same_name() {
    let mut mind = Mind::default();
    mind.push(task("a", 100));
    mind.push(task("b", 200));
    mind.push(task("a", 300));
    assert_eq!(names(&mind), vec!["b".to_string(), "a".to_string()]);
    assert_eq!(mind.tasks().len(), 2);
    assert_eq!(*mind.tasks()[1].start(), at(100));
}

#[test]
fn push_compares_names_without_the_white_space_around_them() {
    let mut mind = Mind::default();
    mind.push(task("write  report", 1));
    mind.push(task("call", 2));
    mind.push(task(" \twrite  report\u{2003}\n", 3));
    assert_eq!(names(&mind), vec!["call".to_string(), "write  report".to_string()]);
    mind.push(task("write report", 4));
    assert_eq!(mind.tasks().len(), 3);
}

#[test]
fn push_takes_new_details_only_where_some_are_given() {
    let mut mind = Mind::default();
    mind.push(Task::started("a".to_string(), Some("old".to_string()), at(1)));
    mind.push(task("a", 2));
    assert_eq!(mind.tasks()[0].details(), &Some("old".to_string()));
    mind.push(Task::started("a".to_string(), Some("new".to_string()), at(3)));
    assert_eq!(mind.tasks().len(), 1);
    assert_eq!(mind.tasks()[0].details(), &Some("new".to_string()));
    assert_eq!(*mind.tasks()[0].start(), at(1));
}

#[test]
fn push_moves_only_the_first_of_two_tasks_of_one_name() {
    let mut mind = Mind::from(vec![task("a", 1), task("b", 2), task("a", 3)], Vec::new());
    mind.push(task("a", 9));
    let starts: Vec<i64> = mind.tasks().iter().map(|t| t.start().secs()).collect();
    assert_eq!(names(&mind), vec!["b".to_string(), "a".to_string(), "a".to_string()]);
    assert_eq!(starts, vec![2, 3, 1]);
}

#[test]
fn pop_returns_what_was_pushed() {
    let mut mind = Mind::default();
    mind.push(task("x", 5));
    let popped = mind.pop().unwrap();
    assert_eq!(popped.name(), "x");
    assert!(mind.tasks().is_empty());
    assert!(mind.pop().is_none());
}

#[test]
fn continuing_moves_a_task_to_the_end() {
    let mut mind = abc();
    mind.resume(0);
    assert_eq!(names(&mind), vec!["b".to_string(), "c".to_string(), "a".to_string()]);
    assert_eq!(mind.tasks().len(), 3);
    assert_eq!(*mind.tasks()[2].start(), at(1));
}

#[test]
fn out_of_range_changes_nothing() {
    let mut mind = Mind::from(vec![task("a", 1), task("b", 2)], Vec::new());
    assert!(mind.pop_at(5).is_none());
    assert_eq!(names(&mind), vec!["a".to_string(), "b".to_string()]);
    mind.resume(5);
    assert_eq!(names(&mind), vec!["a".to_string(), "b".to_string()]);
    mind.get(5);
    assert!(mind.focused().is_none());
    mind.pop_at(2);
    mind.resume(2);
    mind.get(2);
    assert_eq!(mind.tasks().len(), 2);
    assert!(mind.focused().is_none());
}

#[test]
fn pop_at_takes_the_task_at_the_position() {
    let mut mind = abc();
    let taken = mind.pop_at(1).unwrap();
    assert_eq!(taken.name(), "b");
    assert_eq!(names(&mind), vec!["a".to_string(), "c".to_string()]);
}

#[test]
fn get_sets_the_focus_and_any_change_clears_it() {
    let mut mind = abc();
    mind.get(1);
    assert_eq!(mind.focused().unwrap().name(), "b");
    assert_eq!(names(&mind), vec!["a".to_string(), "b".to_string(), "c".to_string()]);
    mind.get_last();
    assert_eq!(mind.focused().unwrap().name(), "c");
    mind.resume(0);
    assert!(mind.focused().is_none());
    mind.get(0);
    mind.push(task("d", 9));
    assert!(mind.focused().is_none());
    mind.get(0);
    mind.pop();
    assert!(mind.focused().is_none());
    let mut empty = Mind::default();
    empty.get_last();
    assert!(empty.focused().is_none());
}

#[test]
fn edit_keeps_the_start() {
    let mut mind = abc();
    mind.get(1);
    mind.edit(1, "B".to_string(), Some("more".to_string()));
    assert_eq!(names(&mind), vec!["a".to_string(), "B".to_string(), "c".to_string()]);
    assert_eq!(mind.tasks()[1].details(), &Some("more".to_string()));
    assert_eq!(*mind.tasks()[1].start(), at(2));
    assert!(mind.focused().is_none());
}

#[test]
fn remind_turns_a_task_into_the_first_reminder() {
    let old = Reminder::new("old".to_string(), None, at(50), Repeat::EveryDay).unwrap();
    let mut mind = Mind::from(vec![task("a", 1), task("b", 2)], vec![old]);
    assert_eq!(mind.remind(0, at(77), Repeat::EveryWeek), Ok(()));
    assert_eq!(names(&mind), vec!["b".to_string()]);
    assert_eq!(mind.reminders().len(), 2);
    assert_eq!(mind.reminders()[0].name(), "a");
    assert_eq!(*mind.reminders()[0].when(), at(77));
    assert!(matches!(mind.reminders()[0].repeat(), Repeat::EveryWeek));
    assert_eq!(mind.reminders()[1].name(), "old");
}

#[test]
fn remind_turns_down_a_rule_that_cannot_be_followed() {
    let mut mind = abc();
    mind.get(0);
    assert_eq!(
        mind.remind(0, at(77), Repeat::Weekly(Vec::new())),
        Err(RecurrenceConfigError::EmptyWeekdays)
    );
    assert_eq!(mind.tasks().len(), 3);
    assert!(mind.reminders().is_empty());
    assert!(mind.focused().is_some());
}

#[test]
fn task_to_reminder_uses_the_clock_and_never_repeats() {
    let before = Timestamp::now();
    let mut mind = abc();
    mind.task_to_reminder(2);
    assert_eq!(names(&mind), vec!["a".to_string(), "b".to_string()]);
    assert_eq!(mind.reminders()[0].name(), "c");
    assert!(matches!(mind.reminders()[0].repeat(), Repeat::Never));
    assert!(!before.is_after(mind.reminders()[0].when()));
}

#[test]
fn acting_on_commands_changes_the_stack() {
    let now = at(1000);
    let mut mind = Mind::default();
    assert_eq!(mind.act_at(Command::Push("a".to_string()), now), Effect::Nothing);
    assert_eq!(mind.act_at(Command::Push("b".to_string()), at(2000)), Effect::Nothing);
    assert_eq!(mind.act_at(Command::Push("a".to_string()), at(3000)), Effect::Nothing);
    assert_eq!(names(&mind), vec!["b".to_string(), "a".to_string()]);
    assert_eq!(*mind.tasks()[1].start(), now);
    assert_eq!(mind.act_at(Command::Continue(0), now), Effect::Nothing);
    assert_eq!(names(&mind), vec!["a".to_string(), "b".to_string()]);
    assert_eq!(mind.act_at(Command::Get(0), now), Effect::Nothing);
    assert_eq!(mind.focused().unwrap().name(), "a");
    assert_eq!(mind.act_at(Command::GetLast, now), Effect::Nothing);
    assert_eq!(mind.focused().unwrap().name(), "b");
    assert_eq!(mind.act_at(Command::Get(7), now), Effect::Nothing);
    assert!(mind.focused().is_none());
    assert_eq!(mind.act_at(Command::Pop(0), now), Effect::Nothing);
    assert_eq!(names(&mind), vec!["b".to_string()]);
    assert_eq!(mind.act_at(Command::PopLast, now), Effect::Nothing);
    assert!(mind.tasks().is_empty());
    assert_eq!(mind.act_at(Command::PopLast, now), Effect::Nothing);
}

#[test]
fn acting_on_an_edit_leaves_the_editing_to_the_caller() {
    let now = at(1000);
    let mut mind = abc();
    mind.get(0);
    assert_eq!(mind.act_at(Command::Edit(1), now), Effect::EditTask(1));
    assert!(mind.focused().is_none());
    assert_eq!(mind.act_at(Command::Edit(3), now), Effect::Nothing);
    assert_eq!(mind.act_at(Command::EditLast, now), Effect::EditTask(2));
    assert_eq!(mind.act_at(Command::EditReminders, now), Effect::EditReminders);
    assert_eq!(names(&mind), vec!["a".to_string(), "b".to_string(), "c".to_string()]);
    let mut empty = Mind::default();
    assert_eq!(empty.act_at(Command::EditLast, now), Effect::Nothing);
    assert_eq!(empty.act_at(Command::RemindLast, now), Effect::Nothing);
    assert_eq!(empty.act_at(Command::EditReminders, now), Effect::EditReminders);
}

#[test]
fn acting_on_remind_makes_the_reminder_first() {
    let now = at(1000);
    let mut mind = abc();
    assert_eq!(mind.act_at(Command::Remind(0), now), Effect::EditReminders);
    assert_eq!(mind.act_at(Command::Remind(9), now), Effect::Nothing);
    assert_eq!(mind.act_at(Command::RemindLast, at(2000)), Effect::EditReminders);
    assert_eq!(names(&mind), vec!["b".to_string()]);
    assert_eq!(mind.reminders().len(), 2);
    assert_eq!(mind.reminders()[0].name(), "c");
    assert_eq!(*mind.reminders()[0].when(), at(2000));
    assert_eq!(mind.reminders()[1].name(), "a");
    assert_eq!(*mind.reminders()[1].when(), now);
}

#[test]
fn act_reads_the_clock_for_a_push() {
    let before = Timestamp::now();
    let mut mind = Mind::default();
    assert_eq!(mind.act(Command::Push("now".to_string())), Effect::Nothing);
    assert!(!before.is_after(mind.tasks()[0].start()));
    assert!(!mind.tasks()[0].start().is_after(&Timestamp::now()));
}

#[test]
fn set_reminders_replaces_them() {
    let mut mind = abc();
    mind.get(0);
    let r = Reminder::new("r".to_string(), None, at(5), Repeat::Never).unwrap();
    mind.set_reminders(vec![r]);
    assert_eq!(mind.reminders().len(), 1);
    assert_eq!(mind.tasks().len(), 3);
    assert!(mind.focused().is_none());
}

#[test]
fn the_version_is_told() {
    assert_eq!(Mind::version(), "0.7.4");
}
