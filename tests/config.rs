use greprs::{Config, ConfigError};

fn strings(items: &[&str]) -> Vec<String> {
    items.iter().map(|s| s.to_string()).collect()
}

#[test]
fn one_argument_is_not_enough() {
    let args = strings(&["prog"]);
    match Config::new(&args, &[]) {
        Err(e) => {
            assert_eq!(ConfigError::InsufficientArguments, e);
            assert_eq!("Not enough arguments", e.message());
        }
        Ok(_) => panic!("one token must be refused"),
    }
}

#[test]
fn too_few_arguments_regardless_of_environment() {
    let names = strings(&["CASE_INSENSITIVE", "HOME"]);
    for args in [strings(&[]), strings(&["prog"]), strings(&["prog", "pattern"])] {
        assert!(matches!(Config::new(&args, &[]), Err(ConfigError::InsufficientArguments)));
        assert!(matches!(Config::new(&args, &names), Err(ConfigError::InsufficientArguments)));
    }
}

#[test]
fn pattern_and_filename_are_taken_as_given() {
    let args = strings(&["prog", "fo(o", "poem.txt", "extra"]);
    let config = Config::new(&args, &[]).unwrap();
    assert_eq!("fo(o", config.search);
    assert_eq!("poem.txt", config.filename);
    assert!(config.case_sensitive);
}

#[test]
fn case_insensitive_variable_turns_case_sensitivity_off() {
    let args = strings(&["prog", "a", "b"]);
    let with = strings(&["PATH", "CASE_INSENSITIVE", "HOME"]);
    assert!(!Config::new(&args, &with).unwrap().case_sensitive);
    let without = strings(&["PATH", "case_insensitive", "CASE_INSENSITIVE_X", "HOME"]);
    assert!(Config::new(&args, &without).unwrap().case_sensitive);
}
