use hypr_profile::profile_names::profile_name_of;

#[test]
fn conf_file_is_listed_without_marker() {
    assert_eq!(profile_name_of("gaming.conf"), Some("gaming".to_owned()));
}

#[test]
fn dot_files_are_hidden() {
    assert_eq!(profile_name_of(".hidden.conf"), None);
}

#[test]
fn names_without_marker_are_not_profiles() {
    assert_eq!(profile_name_of("README.md"), None);
    assert_eq!(profile_name_of(""), None);
}

#[test]
fn every_marker_occurrence_is_removed() {
    assert_eq!(profile_name_of("x.conf.conf"), Some("x".to_owned()));
    assert_eq!(profile_name_of("x.conf.bak"), Some("x.bak".to_owned()));
}
