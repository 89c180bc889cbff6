use mind::mind::Mind;
use mind::productivity::Productivity;
use mind::task::Task;
use mind::time::{Span, Timestamp};

const HOUR: i64 = 3_600;

fn at(secs: i64) -> Timestamp {
    Timestamp::new(secs, 0, 0).unwrap()
}

fn grade(secs: i64) -> Productivity {
    Productivity::from_backlog(Span::seconds(secs))
}

#[test]
fn the_grades_turn_at_their_bounds() {
    assert_eq!(grade(12 * HOUR), Productivity::Optimal);
    assert_eq!(grade(12 * HOUR + 1), Productivity::High);
    assert_eq!(grade(24 * HOUR), Productivity::High);
    assert_eq!(grade(24 * HOUR + 1), Productivity::Normal);
    assert_eq!(grade(72 * HOUR), Productivity::Normal);
    assert_eq!(grade(72 * HOUR + 1), Productivity::Low);
    assert_eq!(grade(168 * HOUR), Productivity::Low);
    assert_eq!(grade(168 * HOUR + 1), Productivity::UnProductive);
    assert_eq!(grade(0), Productivity::Optimal);
    assert_eq!(grade(-5 * HOUR), Productivity::Optimal);
    assert_eq!(grade(i64::MAX), Productivity::UnProductive);
}

#[test]
fn a_nanosecond_past_the_bound_counts() {
    let just_over = Span::new(12 * HOUR as i128, 1).unwrap();
    assert_eq!(Productivity::from_backlog(just_over), Productivity::High);
    let just_under = Span::new(12 * HOUR as i128 - 1, 999_999_999).unwrap();
    assert_eq!(Productivity::from_backlog(just_under), Productivity::Optimal);
    assert_eq!(Productivity::from_backlog(Span::hours(12)), Productivity::Optimal);
    assert_eq!(Productivity::from_backlog(Span::hours(169)), Productivity::UnProductive);
}

#[test]
fn a_longer_backlog_never_earns_a_better_grade() {
    let rank = |p: Productivity| match p {
        Productivity::Optimal => 0,
        Productivity::High => 1,
        Productivity::Normal => 2,
        Productivity::Low => 3,
        Productivity::UnProductive => 4,
    };
    let mut last = 0;
    let mut secs = -10 * HOUR;
    while secs < 200 * HOUR {
        let now = rank(grade(secs));
        assert!(now >= last);
        last = now;
        secs += 599;
    }
    assert_eq!(last, 4);
}

#[test]
fn spans_are_seconds_and_nanoseconds() {
    assert!(Span::new(0, 1_000_000_000).is_none());
    let s = Span::new(-3, 250_000_000).unwrap();
    assert_eq!(s.secs(), -3);
    assert_eq!(s.subsec_nanos(), 250_000_000);
    assert!(s.at_most(&Span::seconds(-2)));
    assert!(!s.at_most(&Span::seconds(-3)));
    assert!(Span::seconds(5).at_most(&Span::seconds(5)));
    assert_eq!(Span::hours(2), Span::seconds(7200));
    assert_eq!(Span::hours(-1), Span::seconds(-3600));
}

#[test]
fn the_time_between_two_points_may_be_negative() {
    let a = Timestamp::new(10, 900_000_000, 0).unwrap();
    let b = Timestamp::new(12, 100_000_000, 7200).unwrap();
    let forth = b.since(&a);
    assert_eq!((forth.secs(), forth.subsec_nanos()), (1, 200_000_000));
    let back = a.since(&b);
    assert_eq!((back.secs(), back.subsec_nanos()), (-2, 800_000_000));
    assert_eq!(a.since(&a), Span::seconds(0));
    let theirs = chrono::DateTime::from_timestamp(10, 900_000_000).unwrap()
        - chrono::DateTime::from_timestamp(12, 100_000_000).unwrap();
    assert_eq!(theirs.num_nanoseconds(), Some(-1_200_000_000));
}

#[test]
fn the_backlog_is_the_sum_of_the_ages() {
    let now = Timestamp::new(100 * HOUR, 500_000_000, 0).unwrap();
    let tasks = vec![
        Task::started("a".to_string(), None, at(95 * HOUR)),
        Task::started("b".to_string(), None, Timestamp::new(93 * HOUR, 750_000_000, 3600).unwrap()),
        Task::started("c".to_string(), None, at(101 * HOUR)),
    ];
    let mind = Mind::from(tasks, Vec::new());
    let backlog = mind.backlog_at(now);
    assert_eq!((backlog.secs(), backlog.subsec_nanos()), (11 * HOUR as i128, 750_000_000));
    assert_eq!(mind.productivity_at(now), Productivity::Optimal);
    assert_eq!(mind.productivity_at(at(101 * HOUR)), Productivity::High);
    assert_eq!(Mind::default().backlog_at(now), Span::seconds(0));
    assert_eq!(Mind::default().productivity_at(now), Productivity::Optimal);
}

#[test]
fn the_backlog_carries_the_nanoseconds() {
    let now = at(10);
    let start = Timestamp::new(8, 600_000_000, 0).unwrap();
    let tasks = (0..5).map(|i| Task::started(format!("t{}", i), None, start)).collect();
    let backlog = Mind::from(tasks, Vec::new()).backlog_at(now);
    assert_eq!((backlog.secs(), backlog.subsec_nanos()), (7, 0));
}

#[test]
fn the_backlog_by_the_clock_grows_with_age() {
    let tasks = vec![
        Task::started("old".to_string(), None, at(0)),
        Task::new("new".to_string()),
    ];
    let mind = Mind::from(tasks, Vec::new());
    assert!(Span::seconds(1_600_000_000).at_most(&mind.backlog()));
    assert_eq!(mind.productivity(), Productivity::UnProductive);
    let fresh = Mind::from(vec![Task::new("new".to_string())], Vec::new());
    assert_eq!(fresh.productivity(), Productivity::Optimal);
    assert!(fresh.backlog().at_most(&Span::seconds(60)));
}

#[test]
fn a_task_is_shown_as_text() {
    let bare = Task::started("fix it".to_string(), None, at(0));
    assert_eq!(bare.to_text(), "fix it\n======\nNo details...");
    let full = Task::started("\u{1F4C6} é".to_string(), Some("a\nb".to_string()), at(0));
    assert_eq!(full.to_text(), "\u{1F4C6} é\n===\na\nb");
    let empty = Task::started(String::new(), Some(String::new()), at(0));
    assert_eq!(empty.to_text(), "\n\n");
    let copy = full.clone();
    assert_eq!(copy.name(), full.name());
    assert_eq!(copy.start(), full.start());
}

#[test]
fn a_task_is_edited_in_place() {
    let mut t = Task::started("a".to_string(), Some("d".to_string()), at(9));
    t.edit("b".to_string(), None);
    assert_eq!(t.name(), "b");
    assert_eq!(t.details(), &None);
    assert_eq!(*t.start(), at(9));
    let before = Timestamp::now();
    let fresh = Task::new("n".to_string());
    assert_eq!(fresh.name(), "n");
    assert_eq!(fresh.details(), &None);
    assert!(!before.is_after(fresh.start()));
}
