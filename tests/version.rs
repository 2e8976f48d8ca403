use citeproc_preprocessor::version::host_version_matches;
use citeproc_preprocessor::PandocError;

#[test]
fn matching_host_version() {
    assert_eq!(host_version_matches("0.4.52", "0.4.52"), Ok(true));
    assert_eq!(host_version_matches("0.4.60", "0.4.52"), Ok(true));
}

#[test]
fn mismatching_host_version_is_not_an_error() {
    assert_eq!(host_version_matches("0.5.0", "0.4.52"), Ok(false));
    assert_eq!(host_version_matches("0.4.10", "0.4.52"), Ok(false));
}

#[test]
fn malformed_versions_are_errors() {
    assert_eq!(
        host_version_matches("not a version", "0.4.52"),
        Err(PandocError::MalformedVersion)
    );
    assert_eq!(
        host_version_matches("0.4.52", "=>>0.4"),
        Err(PandocError::MalformedVersion)
    );
}
