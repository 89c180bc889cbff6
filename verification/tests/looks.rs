use mind::layout::{
    age_rgb, cursor_column, digits, first_shown, list_rows, name_limit, name_rgb, name_width,
    shade, text_width,
};
use mind::productivity::Productivity;
use mind::task::Task;
use mind::time::Timestamp;

#[test]
fn digits_are_counted() {
    for n in [0usize, 1, 9, 10, 11, 99, 100, 999, 1000, 65_535, 4_294_967_295, usize::MAX] {
        assert_eq!(digits(n), n.to_string().chars().count(), "{}", n);
    }
}

#[test]
fn shades_rise_in_equal_steps() {
    assert_eq!(shade(0, 1), 155);
    assert_eq!(shade(0, 4), 155);
    assert_eq!(shade(1, 4), 180);
    assert_eq!(shade(3, 4), 230);
    assert_eq!(shade(2, 3), 221);
    assert_eq!(shade(99, 100), 254);
    assert_eq!(shade(100, 101), 155);
    assert_eq!(shade(255, 256), 155);
    for count in 1..=255usize {
        let mut colour = 155u8;
        for position in 0..count {
            assert_eq!(shade(position, count), colour);
            colour += 100u8 / count as u8;
        }
    }
}

#[test]
fn colours_go_from_green_to_red() {
    assert_eq!(name_rgb(Productivity::Optimal, 155), (0, 155, 0));
    assert_eq!(name_rgb(Productivity::High, 155), (80, 130, 0));
    assert_eq!(name_rgb(Productivity::Normal, 155), (105, 105, 0));
    assert_eq!(name_rgb(Productivity::Low, 155), (130, 80, 0));
    assert_eq!(name_rgb(Productivity::UnProductive, 255), (255, 0, 0));
    assert_eq!(name_rgb(Productivity::Low, 75), (50, 0, 0));
    assert_eq!(age_rgb(155), (105, 105, 105));
    assert_eq!(age_rgb(50), (0, 0, 0));
}

#[test]
fn names_get_the_width_of_the_longest() {
    let at = Timestamp::new(0, 0, 0).unwrap();
    let tasks: Vec<Task> = ["ab", "\u{1F4C6} héllo", "", "abcd"]
        .iter()
        .map(|n| Task::started(n.to_string(), None, at))
        .collect();
    assert_eq!(name_width(&tasks, 70), 7);
    assert_eq!(name_width(&tasks, 3), 3);
    assert_eq!(name_width(&tasks, 0), 0);
    assert_eq!(name_width(&Vec::new(), 70), 0);
    assert_eq!(name_limit(100), 70);
    assert_eq!(name_limit(30), 0);
    assert_eq!(name_limit(29), 0);
    assert_eq!(name_limit(u16::MAX), 65_505);
}

#[test]
fn the_list_shows_the_last_items_that_fit() {
    assert_eq!(list_rows(0), 0);
    assert_eq!(list_rows(3), 0);
    assert_eq!(list_rows(4), 1);
    assert_eq!(list_rows(40), 37);
    assert_eq!(first_shown(10, 0), 10);
    assert_eq!(first_shown(10, 1), 10);
    assert_eq!(first_shown(10, 2), 9);
    assert_eq!(first_shown(10, 11), 0);
    assert_eq!(first_shown(10, 12), 0);
    assert_eq!(first_shown(0, 5), 0);
    for count in 0..30usize {
        for rows in 0..30u16 {
            let shown = (0..count).rev().take((rows.max(1) - 1).into()).rev().next();
            assert_eq!(first_shown(count, rows), shown.unwrap_or(count));
        }
    }
}

#[test]
fn columns_stay_on_the_screen() {
    assert_eq!(text_width(80, 2), 78);
    assert_eq!(text_width(2, 2), 0);
    assert_eq!(text_width(1, 20), 0);
    assert_eq!(cursor_column(0, 0, 1), 4);
    assert_eq!(cursor_column(5, 10, 2), 20);
    assert_eq!(cursor_column(65_530, 1, 1), 65_535);
    assert_eq!(cursor_column(65_530, 2, 1), 65_535);
    assert_eq!(cursor_column(0, usize::MAX, 1), 65_535);
    assert_eq!(cursor_column(0, 65_531, 1), 65_535);
    assert_eq!(cursor_column(0, 65_530, 1), 65_534);
}
