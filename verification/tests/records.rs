use mind::backend::horizon::HorizonPriorityImpl;
use mind::backend::information::InformationImpl;
use mind::backend::label::{InformationLabelRelationImpl, LabelImpl};
use mind::backend::state::Step;
use mind::horizon::{Horizon, HorizonPriority};
use mind::information::Information;
use mind::label::{InformationLabelRelation, Label, LabelKind};
use mind::object::Object;
use mind::point::Point;
use mind::time::Timestamp;
use uuid::Uuid;

#[test]
fn the_steps_follow_one_another() {
    assert_eq!(Step::default(), Step::Capture);
    assert_eq!(Step::Capture.next(), Some(Step::Clarify));
    assert_eq!(Step::Clarify.next(), Some(Step::Organize));
    assert_eq!(Step::Organize.next(), Some(Step::Reflect));
    assert_eq!(Step::Reflect.next(), Some(Step::Engage));
    assert_eq!(Step::Engage.next(), None);
    assert_eq!(
        Step::all(),
        vec![Step::Capture, Step::Clarify, Step::Reflect, Step::Organize, Step::Engage]
    );
}

#[test]
fn the_horizons_zoom_in_and_out() {
    let all = Horizon::all();
    assert_eq!(
        all,
        vec![
            Horizon::Life,
            Horizon::LongTermVision,
            Horizon::YearlyGoals,
            Horizon::Accountabilities,
            Horizon::CurrentProjects,
            Horizon::CurrentActions,
        ]
    );
    assert_eq!(Horizon::Life.zoom_out(), None);
    assert_eq!(Horizon::CurrentActions.zoom_in(), None);
    for (i, h) in all.iter().enumerate() {
        assert_eq!(h.value() as usize, i + 1);
        if i > 0 {
            assert_eq!(h.zoom_out(), Some(all[i - 1]));
            assert_eq!(h.zoom_out().unwrap().zoom_in(), Some(*h));
        }
        if i + 1 < all.len() {
            assert_eq!(h.zoom_in(), Some(all[i + 1]));
            assert_eq!(h.zoom_in().unwrap().zoom_out(), Some(*h));
        }
    }
}

#[test]
fn points_and_kinds_are_numbered() {
    assert_eq!(Point::VeryLow.value(), 1);
    assert_eq!(Point::Low.value(), 2);
    assert_eq!(Point::Moderate.value(), 3);
    assert_eq!(Point::High.value(), 4);
    assert_eq!(Point::VeryHigh.value(), 5);
    assert_eq!(LabelKind::DoByHours.value(), 1);
    assert_eq!(LabelKind::StartsAfterYears.value(), 10);
    assert_eq!(LabelKind::RepeatsForYears.value(), 20);
    assert_eq!(LabelKind::RequiresSkill.value(), 28);
    assert_eq!(LabelKind::DoAfterFinishing.value(), 30);
}

#[test]
fn capturing_splits_the_text_at_the_first_line() {
    let id = Uuid::from_u128(7);
    let at = Timestamp::new(1_600_000_000, 5, 0).unwrap();
    let one = InformationImpl::captured("buy milk", id, at);
    assert_eq!(one.title(), "buy milk");
    assert_eq!(one.body(), None);
    assert_eq!(*one.id(), id);
    assert_eq!(*one.captured_at(), at);
    let two = InformationImpl::captured("buy milk\nand bread\nand eggs", id, at);
    assert_eq!(two.title(), "buy milk");
    assert_eq!(two.body(), Some("and bread\nand eggs"));
    let edge = InformationImpl::captured("\n", id, at);
    assert_eq!(edge.title(), "");
    assert_eq!(edge.body(), Some(""));
    let empty = InformationImpl::captured("", id, at);
    assert_eq!(empty.title(), "");
    assert_eq!(empty.body(), None);
    let wide = InformationImpl::captured("é\u{1F4C6}\nü", id, at);
    assert_eq!(wide.title(), "é\u{1F4C6}");
    assert_eq!(wide.body(), Some("ü"));
    for text in ["a", "a\nb", "\n\n", "a\r\nb", "x\n"] {
        let got = InformationImpl::captured(text, id, at);
        let want = text.split_once("\n");
        assert_eq!(got.title(), want.map(|w| w.0).unwrap_or(text));
        assert_eq!(got.body(), want.map(|w| w.1));
    }
}

#[test]
fn what_is_captured_is_fresh() {
    let info = InformationImpl::new("title\nbody");
    assert_eq!(info.title(), "title");
    assert_eq!(info.body(), Some("body"));
    assert!(info.outcome().is_none());
    assert!(info.steps().is_empty());
    assert!(info.clarified_at().is_none());
    assert!(info.organized_at().is_none());
    assert!(info.life_importance().is_none());
    assert!(info.longterm_vision_importance().is_none());
    assert!(info.yearly_goals_importance().is_none());
    assert!(info.accountabilities_importance().is_none());
    assert!(info.current_projects_importance().is_none());
    assert!(info.current_actions_importance().is_none());
    assert!(info.reflected_at().is_none());
    assert!(info.calculated_priority().is_none());
    assert!(info.steps_done().is_empty());
    assert!(info.last_step_done_at().is_none());
    assert!(info.finished_at().is_none());
    assert!(info.archived_at().is_none());
    assert_eq!(info.captured_at().offset(), 0);
    assert!(info.captured_at().secs() > 1_600_000_000);
    let other = InformationImpl::new("title\nbody");
    assert_ne!(info.id(), other.id());
    assert_eq!(info.id().get_version_num(), 4);
    assert_eq!(info.clone().id(), info.id());
}

#[test]
fn what_is_kept_is_given_back() {
    let at = Timestamp::new(5, 0, 0).unwrap();
    let mut info = InformationImpl::captured("t", Uuid::from_u128(1), at);
    info.outcome = Some("done".to_string());
    info.steps = vec!["one".to_string()];
    info.current_projects_importance = Some(Point::High);
    info.current_actions_importance = Some(Point::Low);
    info.calculated_priority = Some(-3);
    info.finished_at = Some(at);
    assert_eq!(info.outcome(), Some("done"));
    assert_eq!(info.steps(), ["one".to_string()]);
    assert_eq!(info.current_projects_importance(), Some(&Point::High));
    assert_eq!(info.current_actions_importance(), Some(&Point::Low));
    assert_eq!(info.calculated_priority(), Some(-3));
    assert_eq!(info.finished_at(), Some(&at));

    let label = LabelImpl {
        id: Uuid::from_u128(2),
        kind: Some(LabelKind::RequiresTime),
        value: "an hour".to_string(),
        description: None,
        effort_point: Some(Point::Moderate),
    };
    assert_eq!(*label.id(), Uuid::from_u128(2));
    assert_eq!(label.kind(), Some(&LabelKind::RequiresTime));
    assert_eq!(label.value(), "an hour");
    assert_eq!(label.description(), None);
    assert_eq!(label.effort_point(), Some(&Point::Moderate));

    let tie: InformationLabelRelationImpl<InformationImpl, LabelImpl> =
        InformationLabelRelationImpl {
            id: Uuid::from_u128(3),
            information_id: *info.id(),
            label_id: *label.id(),
        };
    assert_eq!(*tie.id(), Uuid::from_u128(3));
    assert_eq!(tie.information_id(), info.id());
    assert_eq!(tie.label_id(), label.id());

    let priority = HorizonPriorityImpl {
        id: Uuid::from_u128(4),
        horizon: Horizon::YearlyGoals,
        priority_point: None,
    };
    assert_eq!(*priority.id(), Uuid::from_u128(4));
    assert_eq!(*priority.horizon(), Horizon::YearlyGoals);
    assert_eq!(priority.priority_point(), None);
}
