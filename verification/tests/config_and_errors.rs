use input_selector::error::{FlowError, FlowReturn, UriError, UriErrorKind};
use input_selector::selector::{
    get_property, set_property, transition_plan, InputSelector, PropertyKey, PropertyValue,
    Settings, StateTransition,
};

#[test]
fn default_settings_are_private_context_without_throttle() {
    let s = Settings::default();
    assert_eq!(s.context, "");
    assert_eq!(s.context_wait, 0);
}

#[test]
fn properties_round_trip() {
    let mut settings = Settings::default();
    let mut sel = InputSelector::new();
    let a = sel.add_input();

    assert!(set_property(&mut settings, &mut sel, PropertyValue::Context("shared".to_string())));
    assert!(set_property(&mut settings, &mut sel, PropertyValue::ContextWait(250)));
    assert!(set_property(&mut settings, &mut sel, PropertyValue::ActivePad(Some(a))));

    match get_property(&settings, &sel, PropertyKey::Context) {
        PropertyValue::Context(c) => assert_eq!(c, "shared"),
        _ => panic!("wrong property kind"),
    }
    match get_property(&settings, &sel, PropertyKey::ContextWait) {
        PropertyValue::ContextWait(w) => assert_eq!(w, 250),
        _ => panic!("wrong property kind"),
    }
    match get_property(&settings, &sel, PropertyKey::ActivePad) {
        PropertyValue::ActivePad(p) => assert_eq!(p, Some(a)),
        _ => panic!("wrong property kind"),
    }
}

#[test]
fn out_of_range_throttle_is_rejected() {
    let mut settings = Settings::default();
    let mut sel = InputSelector::new();
    assert!(set_property(&mut settings, &mut sel, PropertyValue::ContextWait(1000)));
    assert!(!set_property(&mut settings, &mut sel, PropertyValue::ContextWait(1001)));
    assert_eq!(settings.context_wait, 1000);
}

#[test]
fn selecting_an_unknown_pad_through_properties_is_a_no_op() {
    let mut settings = Settings::default();
    let mut sel = InputSelector::new();
    let a = sel.add_input();
    assert!(set_property(&mut settings, &mut sel, PropertyValue::ActivePad(Some(17))));
    assert_eq!(sel.active_pad(), Some(a));
}

#[test]
fn lifecycle_transitions_prepare_and_unprepare() {
    let plan = transition_plan(StateTransition::NullToReady);
    assert!(plan.prepare && !plan.unprepare && !plan.no_preroll);
    let plan = transition_plan(StateTransition::ReadyToNull);
    assert!(!plan.prepare && plan.unprepare && !plan.no_preroll);
    let plan = transition_plan(StateTransition::ReadyToPaused);
    assert!(!plan.prepare && !plan.unprepare && plan.no_preroll);
    let plan = transition_plan(StateTransition::PlayingToPaused);
    assert!(!plan.prepare && !plan.unprepare && plan.no_preroll);
    let plan = transition_plan(StateTransition::PausedToPlaying);
    assert!(!plan.prepare && !plan.unprepare && !plan.no_preroll);
    let plan = transition_plan(StateTransition::PausedToReady);
    assert!(!plan.prepare && !plan.unprepare && !plan.no_preroll);
}

#[test]
fn flow_errors_collapse_to_their_return_codes() {
    assert_eq!(FlowError::Flushing.flow_return(), FlowReturn::Flushing);
    assert_eq!(FlowError::Eos.flow_return(), FlowReturn::Eos);
    assert_eq!(
        FlowError::NotNegotiated("caps refused".to_string()).flow_return(),
        FlowReturn::NotNegotiated
    );
    assert_eq!(FlowError::Error("boom".to_string()).flow_return(), FlowReturn::Error);
}

#[test]
fn flow_error_descriptions() {
    assert_eq!(FlowError::Flushing.description(), "Flushing");
    assert_eq!(FlowError::Eos.description(), "Eos");
    assert_eq!(FlowError::NotNegotiated("m".to_string()).description(), "Not Negotiated");
    assert_eq!(FlowError::Error("m".to_string()).description(), "Error");
}

#[test]
fn uri_error_carries_kind_and_message() {
    let e = UriError::new(UriErrorKind::BadUri, "no scheme".to_string());
    assert_eq!(e.error(), UriErrorKind::BadUri);
    assert_eq!(e.message().as_str(), "no scheme");
    assert_eq!(e.description(), "Bad URI");
}

#[test]
fn uri_error_descriptions() {
    let m = String::new();
    assert_eq!(UriError::new(UriErrorKind::UnsupportedProtocol, m.clone()).description(), "Unsupported protocol");
    assert_eq!(UriError::new(UriErrorKind::BadState, m.clone()).description(), "Bad State");
    assert_eq!(UriError::new(UriErrorKind::BadReference, m).description(), "Bad Reference");
}
