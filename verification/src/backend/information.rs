//! What was captured, as it is kept.

use crate::information::Information;
use crate::object::{lent, Object};
use crate::point::Point;
use crate::text::{chars_of, find_char, split_once, text_of};
use crate::time::Timestamp;
use uuid::Uuid;
use vstd::prelude::*;
use vstd::string::*;

verus! {

/// Something that was captured, with all that became of it since.
#[derive(Clone, Debug)]
pub struct InformationImpl {
    pub id: Uuid,
    pub title: String,
    pub body: Option<String>,
    pub captured_at: Timestamp,
    pub outcome: Option<String>,
    pub steps: Vec<String>,
    pub clarified_at: Option<Timestamp>,
    pub organized_at: Option<Timestamp>,
    pub life_importance: Option<Point>,
    pub longterm_vision_importance: Option<Point>,
    pub yearly_goals_importance: Option<Point>,
    pub accountabilities_importance: Option<Point>,
    pub current_projects_importance: Option<Point>,
    pub current_actions_importance: Option<Point>,
    pub reflected_at: Option<Timestamp>,
    pub calculated_priority: Option<i32>,
    pub steps_done: Vec<String>,
    pub last_step_done_at: Option<Timestamp>,
    pub finished_at: Option<Timestamp>,
    pub archived_at: Option<Timestamp>,
}

/// The title that `text` gives: its first line.
pub open spec fn title_of(text: Seq<char>) -> Seq<char> {
    match split_once(text, '\n') {
        Some((title, _)) => title,
        None => text,
    }
}

/// The body that `text` gives: what follows its first line, where it has
/// more than one.
pub open spec fn body_of(text: Seq<char>) -> Option<Seq<char>> {
    match split_once(text, '\n') {
        Some((_, body)) => Some(body),
        None => None,
    }
}

impl InformationImpl {
    /// Nothing but the capture has happened to the item: it has no outcome,
    /// no steps, no importance, no priority, and no time but that of its
    /// capture.
    pub open spec fn fresh(self) -> bool {
        &&& self.outcome is None
        &&& self.steps@.len() == 0
        &&& self.clarified_at is None
        &&& self.organized_at is None
        &&& self.life_importance is None
        &&& self.longterm_vision_importance is None
        &&& self.yearly_goals_importance is None
        &&& self.accountabilities_importance is None
        &&& self.current_projects_importance is None
        &&& self.current_actions_importance is None
        &&& self.reflected_at is None
        &&& self.calculated_priority is None
        &&& self.steps_done@.len() == 0
        &&& self.last_step_done_at is None
        &&& self.finished_at is None
        &&& self.archived_at is None
    }

    /// Captures `text` now, by the clock, under a fresh id.
    pub fn new(text: &str) -> (r: Self)
        ensures
            r.title@ == title_of(text@),
            text_of(r.body) == body_of(text@),
            r.fresh(),
    {
        Self::captured(text, Uuid::new_v4(), Timestamp::utc_now())
    }

    /// Captures `text` at `captured_at` under `id`. The first line is the
    /// title, and what follows it, if anything, the body.
    pub fn captured(text: &str, id: Uuid, captured_at: Timestamp) -> (r: Self)
        ensures
            r.id == id,
            r.captured_at == captured_at,
            r.title@ == title_of(text@),
            text_of(r.body) == body_of(text@),
            r.fresh(),
    {
        let chars = chars_of(text);
        let n = chars.len();
        let found = find_char(&chars, '\n');
        let (title, body) = match found {
            Some(i) => {
                let title = text.substring_char(0, i).to_owned();
                let body = text.substring_char(i + 1, n).to_owned();
                (title, Some(body))
            },
            None => (text.to_owned(), None),
        };
        Self {
            id,
            title,
            body,
            captured_at,
            outcome: None,
            steps: Vec::new(),
            clarified_at: None,
            organized_at: None,
            life_importance: None,
            longterm_vision_importance: None,
            yearly_goals_importance: None,
            accountabilities_importance: None,
            current_projects_importance: None,
            current_actions_importance: None,
            reflected_at: None,
            calculated_priority: None,
            steps_done: Vec::new(),
            last_step_done_at: None,
            finished_at: None,
            archived_at: None,
        }
    }
}

/// The text of an optional text, borrowed.
fn borrowed(text: &Option<String>) -> (r: Option<&str>)
    ensures
        r is Some <==> text is Some,
        r matches Some(t) ==> t@ == text->0@,
{
    match text {
        Some(t) => Some(t.as_str()),
        None => None,
    }
}

impl Object for InformationImpl {
    type Id = Uuid;

    fn id(&self) -> (r: &Self::Id)
        ensures
            *r == self.id,
    {
        &self.id
    }
}

impl Information for InformationImpl {
    fn title(&self) -> (r: &str)
        ensures
            r@ == self.title@,
    {
        self.title.as_str()
    }

    fn body(&self) -> (r: Option<&str>)
        ensures
            r is Some <==> self.body is Some,
            r matches Some(t) ==> t@ == self.body->0@,
    {
        borrowed(&self.body)
    }

    fn captured_at(&self) -> (r: &Timestamp)
        ensures
            *r == self.captured_at,
    {
        &self.captured_at
    }

    fn outcome(&self) -> (r: Option<&str>)
        ensures
            r is Some <==> self.outcome is Some,
            r matches Some(t) ==> t@ == self.outcome->0@,
    {
        borrowed(&self.outcome)
    }

    fn steps(&self) -> (r: &[String])
        ensures
            r@ == self.steps@,
    {
        self.steps.as_slice()
    }

    fn clarified_at(&self) -> (r: Option<&Timestamp>)
        ensures
            lent(r, self.clarified_at),
    {
        self.clarified_at.as_ref()
    }

    fn organized_at(&self) -> (r: Option<&Timestamp>)
        ensures
            lent(r, self.organized_at),
    {
        self.organized_at.as_ref()
    }

    fn life_importance(&self) -> (r: Option<&Point>)
        ensures
            lent(r, self.life_importance),
    {
        self.life_importance.as_ref()
    }

    fn longterm_vision_importance(&self) -> (r: Option<&Point>)
        ensures
            lent(r, self.longterm_vision_importance),
    {
        self.longterm_vision_importance.as_ref()
    }

    fn yearly_goals_importance(&self) -> (r: Option<&Point>)
        ensures
            lent(r, self.yearly_goals_importance),
    {
        self.yearly_goals_importance.as_ref()
    }

    fn accountabilities_importance(&self) -> (r: Option<&Point>)
        ensures
            lent(r, self.accountabilities_importance),
    {
        self.accountabilities_importance.as_ref()
    }

    fn current_projects_importance(&self) -> (r: Option<&Point>)
        ensures
            lent(r, self.current_projects_importance),
    {
        self.current_projects_importance.as_ref()
    }

    fn current_actions_importance(&self) -> (r: Option<&Point>)
        ensures
            lent(r, self.current_actions_importance),
    {
        self.current_actions_importance.as_ref()
    }

    fn reflected_at(&self) -> (r: Option<&Timestamp>)
        ensures
            lent(r, self.reflected_at),
    {
        self.reflected_at.as_ref()
    }

    fn calculated_priority(&self) -> (r: Option<i32>)
        ensures
            r == self.calculated_priority,
    {
        self.calculated_priority
    }

    fn steps_done(&self) -> (r: &[String])
        ensures
            r@ == self.steps_done@,
    {
        self.steps_done.as_slice()
    }

    fn last_step_done_at(&self) -> (r: Option<&Timestamp>)
        ensures
            lent(r, self.last_step_done_at),
    {
        self.last_step_done_at.as_ref()
    }

    fn finished_at(&self) -> (r: Option<&Timestamp>)
        ensures
            lent(r, self.finished_at),
    {
        self.finished_at.as_ref()
    }

    fn archived_at(&self) -> (r: Option<&Timestamp>)
        ensures
            lent(r, self.archived_at),
    {
        self.archived_at.as_ref()
    }
}

} // verus!
