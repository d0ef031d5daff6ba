use ontime::errors::BadTimeFormat;
use ontime::errors::ExecutionError;
use ontime::errors::FileNotFoundError;
use ontime::errors::PlanNotFoundError;
use ontime::errors::RequiredAttributeMissingError;
use std::borrow::Cow;

#[test]
fn file_not_found_names_the_path() {
    let error = FileNotFoundError::new("/etc/ontime/main.yml");
    assert_eq!(error.to_string(), "Couldn't read file /etc/ontime/main.yml");
}

#[test]
fn plan_not_found_names_the_weekday() {
    let error = PlanNotFoundError::new(Cow::Borrowed("monday"));
    assert_eq!(error.to_string(), "Plan for monday not found, not doing anything");
    let owned = PlanNotFoundError::new(Cow::Owned(String::from("sunday")));
    assert_eq!(owned.to_string(), "Plan for sunday not found, not doing anything");
}

#[test]
fn required_attribute_missing_names_attribute_and_weekday() {
    let error = RequiredAttributeMissingError::new("end", "friday");
    assert_eq!(error.to_string(), "Required attribute end missing for friday plan");
}

#[test]
fn bad_time_format_names_the_weekday() {
    let error = BadTimeFormat::new("tuesday");
    assert_eq!(
        error.to_string(),
        "Badly formated time in tuesday. Make sure it follows HH:MM format"
    );
}

#[test]
fn execution_error_has_a_fixed_message() {
    assert_eq!(ExecutionError.to_string(), "Script execution failed");
}
