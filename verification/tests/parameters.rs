//! Parameters: editing, uploading, merging and filtering.

use groundhog::ident::Ident;
use groundhog::parameters::{next_timer, LoadingState, ParamState, Parameter, Parameters, TimerId};
use groundhog::value::Value;

fn name(s: &str) -> Ident {
    Ident::new(s).expect("a short name")
}

fn real_text(bits: u32) -> String {
    f32::from_bits(bits).to_string()
}

fn sample() -> Parameters {
    let mut parameters = Parameters::new();
    parameters.map.insert(name("RC_SPEED"), Parameter::new(Value::U16(50)));
    parameters.map.insert(name("ALT_MAX"), Parameter::new(Value::F32(1.5f32.to_bits())));
    parameters.map.insert(name("rc_map"), Parameter::new(Value::I8(-1)));
    parameters
}

fn state(parameters: &Parameters, s: &str) -> ParamState {
    parameters.map.get(&name(s)).expect("the parameter is there").state
}

fn names(parameters: &Parameters) -> Vec<String> {
    parameters.map.entries.iter().map(|(n, _)| n.as_str().to_string()).collect()
}

#[test]
fn parameters_stand_in_the_order_of_their_names() {
    assert_eq!(names(&sample()), vec!["ALT_MAX", "RC_SPEED", "rc_map"]);
}

#[test]
fn a_new_parameter_is_as_the_vehicle_reported_it() {
    let p = Parameter::new(Value::U8(3));
    assert_eq!(p.value, Value::U8(3));
    assert_eq!(p.state, ParamState::Unchanged);
    assert!(p.editing.is_none());
    let loading = LoadingState::new();
    assert!(loading.has_loaded.is_empty());
    assert_eq!(loading.expected_count, 0);
}

#[test]
fn filtering_does_not_mind_the_case() {
    let mut parameters = sample();
    parameters.loading_state.has_loaded.insert(4);
    parameters.loading_state.expected_count = 9;
    let filtered = parameters.filtered("rC_");
    assert_eq!(names(&filtered), vec!["RC_SPEED", "rc_map"]);
    assert_eq!(filtered.loading_state.expected_count, 9);
    assert!(filtered.loading_state.has_loaded.contains(&4));
    assert_eq!(names(&parameters.filtered("")), names(&parameters));
    assert!(parameters.filtered("xyz").map.is_empty());
    assert_eq!(names(&parameters.filtered("ALT")), vec!["ALT_MAX"]);
}

#[test]
fn another_value_typed_in_is_a_change() {
    let mut parameters = sample();
    assert!(parameters.edit(&name("RC_SPEED"), "51".to_string(), None));
    assert_eq!(state(&parameters, "RC_SPEED"), ParamState::Changed(Value::U16(51)));
    assert!(parameters.edit(&name("RC_SPEED"), "50".to_string(), None));
    assert_eq!(state(&parameters, "RC_SPEED"), ParamState::Unchanged);
    assert!(parameters.edit(&name("RC_SPEED"), "abc".to_string(), None));
    assert_eq!(state(&parameters, "RC_SPEED"), ParamState::Unchanged);
    let held = parameters.map.get(&name("RC_SPEED")).and_then(|p| p.editing.clone());
    assert_eq!(held, Some("abc".to_string()));
    assert!(!parameters.edit(&name("NONE"), "1".to_string(), None));
}

#[test]
fn singles_typed_in_go_by_how_they_read() {
    let mut parameters = sample();
    let bits = 2.5f32.to_bits();
    parameters.edit(&name("ALT_MAX"), "2.5".to_string(), Some(bits));
    assert_eq!(state(&parameters, "ALT_MAX"), ParamState::Changed(Value::F32(bits)));
    parameters.edit(&name("ALT_MAX"), "1.50".to_string(), Some(1.5f32.to_bits()));
    assert_eq!(state(&parameters, "ALT_MAX"), ParamState::Unchanged);
    parameters.edit(&name("ALT_MAX"), "x".to_string(), None);
    assert_eq!(state(&parameters, "ALT_MAX"), ParamState::Unchanged);
}

#[test]
fn resetting_drops_what_was_typed_in() {
    let mut parameters = sample();
    parameters.edit(&name("rc_map"), "7".to_string(), None);
    assert!(parameters.reset(&name("rc_map")));
    let p = parameters.map.get(&name("rc_map")).expect("the parameter is there");
    assert_eq!((p.value, p.state), (Value::I8(-1), ParamState::Unchanged));
    assert!(p.editing.is_none());
    assert!(!parameters.reset(&name("NONE")));
}

#[test]
fn an_upload_that_times_out_leaves_the_value_of_the_vehicle() {
    let mut parameters = sample();
    parameters.edit(&name("rc_map"), "7".to_string(), None);
    assert!(parameters.start_upload(&name("rc_map"), TimerId(4)));
    assert_eq!(state(&parameters, "rc_map"), ParamState::Uploading(TimerId(4), Value::I8(-1)));
    assert_eq!(parameters.time_out(&name("rc_map")), Some(TimerId(4)));
    assert_eq!(state(&parameters, "rc_map"), ParamState::Changed(Value::I8(-1)));
    assert_eq!(parameters.time_out(&name("rc_map")), None);
    assert_eq!(parameters.time_out(&name("NONE")), None);
    assert!(!parameters.start_upload(&name("NONE"), TimerId(5)));
}

#[test]
fn all_changed_parameters_are_uploaded() {
    let mut parameters = sample();
    parameters.edit(&name("ALT_MAX"), "9".to_string(), Some(9f32.to_bits()));
    parameters.edit(&name("rc_map"), "7".to_string(), None);
    let uploads = parameters.start_uploads(u64::MAX);
    let made: Vec<(&str, Value, TimerId)> =
        uploads.iter().map(|u| (u.ident.as_str(), u.value, u.timer)).collect();
    assert_eq!(
        made,
        vec![
            ("ALT_MAX", Value::F32(9f32.to_bits()), TimerId(u64::MAX)),
            ("rc_map", Value::I8(7), TimerId(0)),
        ]
    );
    assert_eq!(state(&parameters, "RC_SPEED"), ParamState::Unchanged);
    assert_eq!(state(&parameters, "rc_map"), ParamState::Uploading(TimerId(0), Value::I8(-1)));
    assert!(parameters.start_uploads(5).is_empty());
}

#[test]
fn only_the_first_changed_parameter_can_be_marked() {
    let mut parameters = sample();
    assert!(!parameters.start_first_upload(1));
    parameters.edit(&name("RC_SPEED"), "1".to_string(), None);
    parameters.edit(&name("rc_map"), "7".to_string(), None);
    assert!(parameters.start_first_upload(1));
    assert_eq!(state(&parameters, "RC_SPEED"), ParamState::Uploading(TimerId(1), Value::U16(50)));
    assert_eq!(state(&parameters, "rc_map"), ParamState::Changed(Value::I8(7)));
}

#[test]
fn timers_count_up_and_start_over() {
    assert_eq!(next_timer(0), 1);
    assert_eq!(next_timer(u64::MAX), 0);
}

#[test]
fn loaded_values_of_the_same_type_are_changes() {
    let mut parameters = sample();
    let mut loaded = Parameters::new();
    loaded.map.insert(name("RC_SPEED"), Parameter::new(Value::U16(60)));
    loaded.map.insert(name("rc_map"), Parameter::new(Value::U8(9)));
    loaded.map.insert(name("ALT_MAX"), Parameter::new(Value::F32(1.5f32.to_bits())));
    loaded.map.insert(name("OTHER"), Parameter::new(Value::U8(1)));
    parameters.merge(&loaded, real_text);
    assert_eq!(state(&parameters, "RC_SPEED"), ParamState::Changed(Value::U16(60)));
    let held = parameters.map.get(&name("RC_SPEED")).and_then(|p| p.editing.clone());
    assert_eq!(held, Some("60".to_string()));
    assert_eq!(state(&parameters, "rc_map"), ParamState::Unchanged);
    assert_eq!(state(&parameters, "ALT_MAX"), ParamState::Unchanged);
    assert_eq!(parameters.map.len(), 3);
}

#[test]
fn loading_starts_over() {
    let mut parameters = sample();
    parameters.loading_state.has_loaded.insert(1);
    parameters.loading_state.expected_count = 3;
    parameters.begin_loading();
    assert!(parameters.loading_state.has_loaded.is_empty());
    assert_eq!(parameters.loading_state.expected_count, 3);
}
