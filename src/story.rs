//! The built-in scripts: a short main story, and the side track played when
//! the player is exposed to the virus.
use vstd::prelude::*;
use crate::environment::Location;
use crate::narrative::{
    action, empty_actions, events_model, ActionsModel, EventModel, NarrativeCriterion,
    NarrativeEvent, PickupModel,
};
use crate::pickup::Pickup;

verus! {

pub open spec fn text_only(sender: Seq<char>, body: Seq<char>) -> ActionsModel {
    ActionsModel { texts: seq![(sender, body)], ..empty_actions() }
}

/// The built-in main story.
pub open spec fn main_story_spec() -> Seq<EventModel> {
    seq![
        EventModel {
            starts_act: true,
            criterion: NarrativeCriterion::ElapsedRel(1500),
            action: text_only(
                "Dictator DAN"@,
                "Fellow Victorians!|We must do what must be done.|STAY INDOORS. BY ORDER OF THE GOVERNMENT, THAT IS, ME"@,
            ),
        },
        EventModel {
            starts_act: false,
            criterion: NarrativeCriterion::ElapsedRel(1500),
            action: ActionsModel { change_sanity: Some(3), ..empty_actions() },
        },
        EventModel {
            starts_act: false,
            criterion: NarrativeCriterion::ElapsedRel(3500),
            action: ActionsModel {
                change_sanity: Some(9),
                ..text_only(
                    "Mum"@,
                    "Hello dearie|Just sent you a little something in the mail. Hope you're well. xoxox|Mum"@,
                )
            },
        },
        EventModel {
            starts_act: false,
            criterion: NarrativeCriterion::ElapsedRel(2500),
            action: ActionsModel {
                items: seq![PickupModel { prototype: Pickup::Potplant, location: (5, 5), on_collect: empty_actions() }],
                ..empty_actions()
            },
        },
        EventModel {
            starts_act: false,
            criterion: NarrativeCriterion::ClearedAll,
            action: text_only("The Game"@, "You picked up the thing|Now go to the park"@),
        },
        EventModel {
            starts_act: false,
            criterion: NarrativeCriterion::InEnvironment(Location::Park),
            action: text_only("The Game"@, "You have gone to the park. You are good at directions."@),
        },
    ]
}

/// The built-in side track: the exposure notice after one second, then the
/// end of quarantine after thirty-five more.
pub open spec fn covid_story_spec() -> Seq<EventModel> {
    seq![
        EventModel {
            starts_act: true,
            criterion: NarrativeCriterion::ElapsedRel(1000),
            action: text_only(
                "Department of Health"@,
                "You have been exposed to Covid as a close contact with another person. You must isolate for seven days.|During this time, you must not leave your house."@,
            ),
        },
        EventModel {
            starts_act: true,
            criterion: NarrativeCriterion::ElapsedRel(35000),
            action: text_only(
                "Department of Health"@,
                "Your Covid quarantine has finished. You can now leave your house. Stay safe out there."@,
            ),
        },
    ]
}

pub fn hardcoded_main_narrative() -> (r: Vec<NarrativeEvent>)
    ensures
        events_model(r@) == main_story_spec(),
{
    let mut r: Vec<NarrativeEvent> = Vec::new();
    r.push(NarrativeEvent {
        starts_act: true,
        criterion: NarrativeCriterion::ElapsedRel(1500),
        action: action().send_text(
            "Dictator DAN",
            "Fellow Victorians!|We must do what must be done.|STAY INDOORS. BY ORDER OF THE GOVERNMENT, THAT IS, ME",
        ),
    });
    r.push(NarrativeEvent {
        starts_act: false,
        criterion: NarrativeCriterion::ElapsedRel(1500),
        action: action().change_sanity(3),
    });
    r.push(NarrativeEvent {
        starts_act: false,
        criterion: NarrativeCriterion::ElapsedRel(3500),
        action: action().send_text(
            "Mum",
            "Hello dearie|Just sent you a little something in the mail. Hope you're well. xoxox|Mum",
        ).change_sanity(9),
    });
    r.push(NarrativeEvent {
        starts_act: false,
        criterion: NarrativeCriterion::ElapsedRel(2500),
        action: action().spawn_pickup(Pickup::Potplant, (5, 5), action()),
    });
    r.push(NarrativeEvent {
        starts_act: false,
        criterion: NarrativeCriterion::ClearedAll,
        action: action().send_text("The Game", "You picked up the thing|Now go to the park"),
    });
    r.push(NarrativeEvent {
        starts_act: false,
        criterion: NarrativeCriterion::InEnvironment(Location::Park),
        action: action().send_text("The Game", "You have gone to the park. You are good at directions."),
    });
    assert(events_model(r@) =~= main_story_spec());
    r
}

pub fn hardcoded_covid_narrative() -> (r: Vec<NarrativeEvent>)
    ensures
        events_model(r@) == covid_story_spec(),
{
    let mut r: Vec<NarrativeEvent> = Vec::new();
    r.push(NarrativeEvent {
        starts_act: true,
        criterion: NarrativeCriterion::ElapsedRel(1000),
        action: action().send_text(
            "Department of Health",
            "You have been exposed to Covid as a close contact with another person. You must isolate for seven days.|During this time, you must not leave your house.",
        ),
    });
    r.push(NarrativeEvent {
        starts_act: true,
        criterion: NarrativeCriterion::ElapsedRel(35000),
        action: action().send_text(
            "Department of Health",
            "Your Covid quarantine has finished. You can now leave your house. Stay safe out there.",
        ),
    });
    assert(events_model(r@) =~= covid_story_spec());
    r
}

} // verus!
