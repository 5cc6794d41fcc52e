use fenmov::path::PathKind;
use fenmov::validate::{
    is_valid_source_path, is_valid_target_path, ArgumentError, CommandArguments,
};

const SOURCE_MESSAGE: &str = "The source must be a valid absolute path or file name.";
const TARGET_MESSAGE: &str = "The target must be a valid absolute path name.";

#[test]
fn an_absolute_existing_source_is_accepted() {
    assert_eq!(is_valid_source_path("/src".to_string(), PathKind::Directory), Ok(()));
    assert_eq!(is_valid_source_path("/src/a.txt".to_string(), PathKind::File), Ok(()));
}

#[test]
fn a_relative_source_is_rejected() {
    for kind in [PathKind::Missing, PathKind::File, PathKind::Directory, PathKind::Other] {
        assert_eq!(
            is_valid_source_path("src/files".to_string(), kind),
            Err(SOURCE_MESSAGE.to_string())
        );
        assert_eq!(is_valid_source_path(String::new(), kind), Err(SOURCE_MESSAGE.to_string()));
        assert_eq!(is_valid_source_path("./src".to_string(), kind), Err(SOURCE_MESSAGE.to_string()));
    }
}

#[test]
fn a_source_that_does_not_exist_is_rejected() {
    assert_eq!(
        is_valid_source_path("/nowhere".to_string(), PathKind::Missing),
        Err(SOURCE_MESSAGE.to_string())
    );
    assert_eq!(
        is_valid_source_path("/dev/null".to_string(), PathKind::Other),
        Err(SOURCE_MESSAGE.to_string())
    );
}

#[test]
fn an_absolute_existing_directory_is_accepted_as_target() {
    assert_eq!(is_valid_target_path("/dst".to_string(), PathKind::Directory), Ok(()));
    assert_eq!(is_valid_target_path("/".to_string(), PathKind::Directory), Ok(()));
}

#[test]
fn a_relative_target_is_rejected() {
    for kind in [PathKind::Missing, PathKind::File, PathKind::Directory, PathKind::Other] {
        assert_eq!(
            is_valid_target_path("dst".to_string(), kind),
            Err(TARGET_MESSAGE.to_string())
        );
        assert_eq!(
            is_valid_target_path("../dst".to_string(), kind),
            Err(TARGET_MESSAGE.to_string())
        );
    }
}

#[test]
fn a_target_that_is_no_directory_is_rejected() {
    for kind in [PathKind::Missing, PathKind::File, PathKind::Other] {
        assert_eq!(
            is_valid_target_path("/dst/file.txt".to_string(), kind),
            Err(TARGET_MESSAGE.to_string())
        );
    }
}

#[test]
fn the_messages_name_the_argument() {
    assert_eq!(ArgumentError::InvalidSource.message(), SOURCE_MESSAGE);
    assert_eq!(ArgumentError::InvalidTarget.message(), TARGET_MESSAGE);
}

#[test]
fn acceptable_arguments_are_kept_as_given() {
    let made = CommandArguments::new(
        true,
        false,
        "/src".to_string(),
        PathKind::Directory,
        "/dst".to_string(),
        PathKind::Directory,
    );
    assert_eq!(
        made,
        Ok(CommandArguments {
            traverse_recursive: true,
            skip_error: false,
            source: "/src".to_string(),
            target: "/dst".to_string(),
        })
    );
    let made = CommandArguments::new(
        false,
        true,
        "/src/one.txt".to_string(),
        PathKind::File,
        "/dst".to_string(),
        PathKind::Directory,
    )
    .unwrap();
    assert!(!made.traverse_recursive);
    assert!(made.skip_error);
}

#[test]
fn an_unacceptable_source_gives_invalid_source() {
    let relative = CommandArguments::new(
        false,
        false,
        "src".to_string(),
        PathKind::Directory,
        "/dst".to_string(),
        PathKind::Directory,
    );
    assert_eq!(relative, Err(ArgumentError::InvalidSource));
    let missing = CommandArguments::new(
        false,
        false,
        "/src".to_string(),
        PathKind::Missing,
        "/dst".to_string(),
        PathKind::Directory,
    );
    assert_eq!(missing, Err(ArgumentError::InvalidSource));
}

#[test]
fn an_unacceptable_target_gives_invalid_target() {
    let relative = CommandArguments::new(
        false,
        false,
        "/src".to_string(),
        PathKind::Directory,
        "dst".to_string(),
        PathKind::Directory,
    );
    assert_eq!(relative, Err(ArgumentError::InvalidTarget));
    let a_file = CommandArguments::new(
        false,
        false,
        "/src".to_string(),
        PathKind::Directory,
        "/dst/file.txt".to_string(),
        PathKind::File,
    );
    assert_eq!(a_file, Err(ArgumentError::InvalidTarget));
}

#[test]
fn the_source_is_judged_before_the_target() {
    let both_wrong = CommandArguments::new(
        false,
        false,
        "src".to_string(),
        PathKind::Missing,
        "dst".to_string(),
        PathKind::Missing,
    );
    assert_eq!(both_wrong, Err(ArgumentError::InvalidSource));
}
