//! The numbers behind what is shown: widths, shades, colours, and which rows
//! fit. Nothing here draws.

use crate::productivity::Productivity;
use crate::task::{Task, TaskView};
use vstd::prelude::*;

verus! {

/// How many digits write `n` in base ten.
pub open spec fn digits_of(n: nat) -> nat
    decreases n,
{
    if n < 10 {
        1
    } else {
        1 + digits_of(n / 10)
    }
}

/// The shade of the task at `position` among `count`: from 155 upwards in
/// equal whole steps that together stay within 100. Beyond a hundred tasks
/// the step is nothing.
pub open spec fn shade_of(position: int, count: int) -> int {
    155 + position * (if 0 < count <= 100 {
        100int / count
    } else {
        0int
    })
}

/// The red, green and blue of a name at `shade`, by grade: green for the
/// best, through yellows, to red for the worst.
pub open spec fn name_colour(grade: Productivity, shade: int) -> (int, int, int) {
    match grade {
        Productivity::Optimal => (0, shade, 0),
        Productivity::High => (shade - 75, shade - 25, 0),
        Productivity::Normal => (shade - 50, shade - 50, 0),
        Productivity::Low => (shade - 25, shade - 75, 0),
        Productivity::UnProductive => (shade, 0, 0),
    }
}

/// The width of the longest name, where no name counts for more than
/// `limit`.
pub open spec fn widest(tasks: Seq<TaskView>, limit: int) -> int
    decreases tasks.len(),
{
    if tasks.len() == 0 {
        0
    } else {
        let before = widest(tasks.drop_last(), limit);
        let name = tasks.last().name.len() as int;
        let this = if name < limit { name } else { limit };
        if this > before { this } else { before }
    }
}

/// Ten to the power of `e`.
pub open spec fn pow10(e: nat) -> nat
    decreases e,
{
    if e == 0 {
        1
    } else {
        10 * pow10((e - 1) as nat)
    }
}

/// A number below ten to the power of `e` has at most `e` digits.
pub proof fn lemma_digits(n: nat, e: nat)
    requires
        e >= 1,
        n < pow10(e),
    ensures
        1 <= digits_of(n) <= e,
    decreases e,
{
    if n >= 10 {
        if e == 1 {
            assert(pow10(1) == 10 * pow10(0));
        } else {
            lemma_digits(n / 10, (e - 1) as nat);
        }
    }
}

/// How many digits write `n` in base ten.
pub fn digits(n: usize) -> (d: usize)
    ensures
        d == digits_of(n as nat),
        1 <= d <= 20,
{
    proof {
        reveal_with_fuel(pow10, 21);
        assert(pow10(20) == 100_000_000_000_000_000_000);
        lemma_digits(n as nat, 20);
    }
    let mut d: usize = 1;
    let mut rest: usize = n;
    while rest >= 10
        invariant
            1 <= d,
            digits_of(n as nat) <= 20,
            digits_of(n as nat) == (d - 1) + digits_of(rest as nat),
        decreases rest,
    {
        rest = rest / 10;
        d += 1;
    }
    d
}

/// The shade of the task at `position` among `count`.
pub fn shade(position: usize, count: usize) -> (s: u8)
    requires
        position < count,
    ensures
        s == shade_of(position as int, count as int),
        155 <= s <= 255,
{
    if count > 100 {
        155
    } else {
        let step: usize = 100 / count;
        assert(step * count <= 100) by (nonlinear_arith)
            requires
                step == 100int / (count as int),
                0 < count,
        ;
        assert(position * step <= 100) by (nonlinear_arith)
            requires
                position < count,
                step * count <= 100,
                step >= 0,
        ;
        (155 + position * step) as u8
    }
}

/// The red, green and blue of a name at `shade`, by grade.
pub fn name_rgb(grade: Productivity, shade: u8) -> (c: (u8, u8, u8))
    requires
        shade >= 75,
    ensures
        (c.0 as int, c.1 as int, c.2 as int) == name_colour(grade, shade as int),
{
    match grade {
        Productivity::Optimal => (0, shade, 0),
        Productivity::High => (shade - 75, shade - 25, 0),
        Productivity::Normal => (shade - 50, shade - 50, 0),
        Productivity::Low => (shade - 25, shade - 75, 0),
        Productivity::UnProductive => (shade, 0, 0),
    }
}

/// The red, green and blue of an age at `shade`: a grey, 50 below it.
pub fn age_rgb(shade: u8) -> (c: (u8, u8, u8))
    requires
        shade >= 50,
    ensures
        c.0 == shade - 50,
        c.1 == shade - 50,
        c.2 == shade - 50,
{
    (shade - 50, shade - 50, shade - 50)
}

/// The width that is left for names on a screen `columns` wide, once 30
/// columns are set aside; nothing on a narrower screen.
pub fn name_limit(columns: u16) -> (w: usize)
    ensures
        w == if columns >= 30 { columns - 30 } else { 0 },
{
    if columns >= 30 {
        (columns - 30) as usize
    } else {
        0
    }
}

/// The width of the longest name, where no name counts for more than
/// `limit`.
pub fn name_width(tasks: &Vec<Task>, limit: usize) -> (w: usize)
    ensures
        w == widest(crate::mind::task_views(tasks@), limit as int),
        w <= limit,
{
    let ghost all = crate::mind::task_views(tasks@);
    let mut w: usize = 0;
    let mut i: usize = 0;
    assert(all.subrange(0, 0) =~= Seq::empty());
    while i < tasks.len()
        invariant
            i <= tasks@.len(),
            all == crate::mind::task_views(tasks@),
            w == widest(all.subrange(0, i as int), limit as int),
            w <= limit,
        decreases tasks@.len() - i,
    {
        proof {
            assert(all.subrange(0, i + 1).drop_last() =~= all.subrange(0, i as int));
            assert(all.subrange(0, i + 1).last() == all[i as int]);
        }
        let name = tasks[i].name().as_str().unicode_len();
        let this = if name < limit { name } else { limit };
        if this > w {
            w = this;
        }
        i += 1;
    }
    assert(all.subrange(0, i as int) =~= all);
    w
}

/// The rows that a list has on a screen `height` high, where three rows go
/// to the bars above and below it.
pub fn list_rows(height: u16) -> (rows: u16)
    ensures
        rows == if height > 3 { height - 3 } else { 0 },
{
    if height > 3 {
        height - 3
    } else {
        0
    }
}

/// The position of the first of `count` items that is shown in a list of
/// `rows` rows, of which the last is kept for the input: the last items are
/// shown, as many as fit.
pub fn first_shown(count: usize, rows: u16) -> (first: usize)
    ensures
        first <= count,
        rows <= 1 ==> first == count,
        rows > 1 ==> count - first == if count < rows - 1 { count as int } else { rows - 1 },
{
    let room: usize = if rows > 1 { (rows - 1) as usize } else { 0 };
    if count < room {
        0
    } else {
        count - room
    }
}

/// The width of the column for the text, in a list `width` wide whose
/// first column holds `index_width` digits.
pub fn text_width(width: u16, index_width: usize) -> (w: u16)
    ensures
        w == if width > index_width { width - index_width } else { 0 },
{
    if index_width < width as usize {
        (width as usize - index_width) as u16
    } else {
        0
    }
}

/// The column of the cursor: three columns and the digits of the index
/// after the left edge `x` of the list comes the text. A column beyond the
/// last one is the last one.
pub fn cursor_column(x: u16, cursor: usize, index_width: usize) -> (column: u16)
    ensures
        column == if x + cursor + index_width + 3 <= u16::MAX {
            x + cursor + index_width + 3
        } else {
            u16::MAX as int
        },
{
    let limit: usize = 0xFFFF;
    let x: usize = x as usize;
    if cursor > limit || index_width > limit {
        return u16::MAX;
    }
    let sum: u64 = x as u64 + cursor as u64 + index_width as u64 + 3;
    if sum <= 0xFFFF {
        sum as u16
    } else {
        u16::MAX
    }
}

} // verus!
