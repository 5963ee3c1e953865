use set_cosmic_theme::apply::{plan_steps, BuilderSource, Step, Variant};
use set_cosmic_theme::resolver::{RequestError, ThemePayload, ThemeRequest};
use set_cosmic_theme::session::{Session, Status};

fn request(dark: bool, light: bool, gtk4: bool, payload: Option<bool>) -> ThemeRequest {
    ThemeRequest {
        want_dark: dark,
        want_light: light,
        want_secondary_stylesheet: gtk4,
        payload: payload.map(ThemePayload::new),
    }
}

fn begin(dark: bool, light: bool, gtk4: bool, payload: Option<bool>) -> Session {
    match Session::begin(&request(dark, light, gtk4, payload)) {
        Ok(session) => session,
        Err(error) => panic!("refused: {:?}", error),
    }
}

fn run(session: &mut Session, fail_at: Option<usize>) -> Vec<Step> {
    let mut taken = Vec::new();
    while let Status::Pending(step) = session.status() {
        let succeeded = Some(taken.len()) != fail_at;
        taken.push(step);
        session.record(succeeded);
    }
    taken
}

#[test]
fn a_session_hands_out_the_plan_in_order() {
    let wanted = request(true, true, true, Some(false));
    let mut session = begin(true, true, true, Some(false));
    let taken = run(&mut session, None);
    assert_eq!(taken, plan_steps(&wanted.resolve(), true));
    assert_eq!(taken.len(), 9);
    assert_eq!(session.status(), Status::Finished);
}

#[test]
fn the_first_step_opens_the_builder_store() {
    let session = begin(false, false, false, Some(true));
    assert_eq!(
        session.status(),
        Status::Pending(Step::OpenBuilderConfig(Variant::Dark))
    );
    let session = begin(false, false, false, Some(false));
    assert_eq!(
        session.status(),
        Status::Pending(Step::OpenBuilderConfig(Variant::Light))
    );
}

#[test]
fn asking_twice_gives_the_same_step() {
    let session = begin(true, false, false, None);
    assert_eq!(session.status(), session.status());
}

#[test]
fn a_failure_ends_the_session() {
    let mut session = begin(true, true, false, None);
    let taken = run(&mut session, Some(2));
    assert_eq!(
        taken,
        vec![
            Step::OpenBuilderConfig(Variant::Dark),
            Step::OpenThemeConfig(Variant::Dark),
            Step::WriteTheme(Variant::Dark, BuilderSource::BuiltIn(Variant::Dark)),
        ]
    );
    assert_eq!(
        session.status(),
        Status::Failed(Step::WriteTheme(
            Variant::Dark,
            BuilderSource::BuiltIn(Variant::Dark)
        ))
    );
}

#[test]
fn a_failed_session_stays_failed() {
    let mut session = begin(false, true, false, Some(true));
    session.record(false);
    let failed = Status::Failed(Step::OpenBuilderConfig(Variant::Light));
    assert_eq!(session.status(), failed);
    session.record(true);
    assert_eq!(session.status(), failed);
    session.record(false);
    assert_eq!(session.status(), failed);
}

#[test]
fn a_finished_session_stays_finished() {
    let mut session = begin(true, false, false, Some(true));
    run(&mut session, None);
    assert_eq!(session.status(), Status::Finished);
    session.record(false);
    assert_eq!(session.status(), Status::Finished);
    session.record(true);
    assert_eq!(session.status(), Status::Finished);
}

#[test]
fn the_last_step_can_fail() {
    let mut session = begin(false, false, true, Some(true));
    let taken = run(&mut session, Some(4));
    assert_eq!(taken.len(), 5);
    assert_eq!(session.status(), Status::Failed(Step::WriteStylesheet));
}

#[test]
fn a_stylesheet_without_a_payload_starts_nothing() {
    for dark in [false, true] {
        for light in [false, true] {
            match Session::begin(&request(dark, light, true, None)) {
                Ok(_) => panic!("a session was started"),
                Err(error) => assert_eq!(error, RequestError::StylesheetWithoutPayload),
            }
        }
    }
}
