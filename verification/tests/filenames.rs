use uv_requirements::filename::{parse_source_dist, parse_wheel, WheelFault};

#[test]
fn wheel_name_and_version_are_read() {
    let parts = parse_wheel("pkg-1.0-py3-none-any.whl").unwrap();
    assert!(parts.name.matches("pkg"));
    assert_eq!(parts.version, "1.0");
    let parts = parse_wheel("Foo_Bar-2.3.4-1-cp311-cp311-manylinux_2_17_x86_64.whl").unwrap();
    assert!(parts.name.matches("foo-bar"));
    assert_eq!(parts.version, "2.3.4");
}

#[test]
fn wheel_with_missing_components_is_refused() {
    assert_eq!(parse_wheel("pkg.whl").unwrap_err(), WheelFault::MissingVersion);
    assert_eq!(parse_wheel("pkg-1.0.whl").unwrap_err(), WheelFault::MissingPythonTag);
    assert_eq!(parse_wheel("pkg-1.0-py3.whl").unwrap_err(), WheelFault::MissingAbiTag);
    assert_eq!(parse_wheel("pkg-1.0-py3-none.whl").unwrap_err(), WheelFault::MissingPlatformTag);
}

#[test]
fn wheel_with_too_many_components_is_refused() {
    assert_eq!(
        parse_wheel("pkg-1.0-1-py3-none-any-more.whl").unwrap_err(),
        WheelFault::TooManyComponents
    );
}

#[test]
fn wheel_without_the_extension_is_refused() {
    assert_eq!(parse_wheel("pkg-1.0-py3-none-any.zip").unwrap_err(), WheelFault::Extension);
    assert_eq!(parse_wheel("pkg-1.0-py3-none-any.WHL").unwrap_err(), WheelFault::Extension);
    assert_eq!(parse_wheel("whl").unwrap_err(), WheelFault::Extension);
    assert_eq!(parse_wheel("").unwrap_err(), WheelFault::Extension);
}

#[test]
fn wheel_with_an_invalid_name_is_refused() {
    assert_eq!(parse_wheel("-1.0-py3-none-any.whl").unwrap_err(), WheelFault::InvalidName);
    assert_eq!(parse_wheel("my pkg-1.0-py3-none-any.whl").unwrap_err(), WheelFault::InvalidName);
    assert_eq!(parse_wheel("pkg_-1.0-py3-none-any.whl").unwrap_err(), WheelFault::InvalidName);
}

#[test]
fn wheel_fault_messages() {
    assert_eq!(WheelFault::Extension.message(), "Must end with .whl");
    assert_eq!(WheelFault::MissingVersion.message(), "Must have a version");
    assert_eq!(WheelFault::MissingPythonTag.message(), "Must have a Python tag");
    assert_eq!(WheelFault::MissingAbiTag.message(), "Must have an ABI tag");
    assert_eq!(WheelFault::MissingPlatformTag.message(), "Must have a platform tag");
    assert_eq!(
        WheelFault::TooManyComponents.message(),
        "Must have 5 or 6 components, but has more"
    );
    assert_eq!(WheelFault::InvalidName.message(), "Not a valid package name");
    assert_eq!(WheelFault::InvalidVersion("bad".to_string()).message(), "bad");
}

#[test]
fn source_archive_name_and_version_are_read() {
    let parts = parse_source_dist("pkg-1.0.tar.gz").unwrap();
    assert!(parts.name.matches("pkg"));
    assert_eq!(parts.version, "1.0");
    let parts = parse_source_dist("My.Project-name-2.0b1.zip").unwrap();
    assert!(parts.name.matches("my-project-name"));
    assert_eq!(parts.version, "2.0b1");
    let parts = parse_source_dist("pkg-.zip").unwrap();
    assert!(parts.name.matches("pkg"));
    assert_eq!(parts.version, "");
}

#[test]
fn other_file_names_are_no_source_archives() {
    assert!(parse_source_dist("pkg-1.0.tar.bz2").is_none());
    assert!(parse_source_dist("pkg-1.0.TAR.GZ").is_none());
    assert!(parse_source_dist("pkg.tar.gz").is_none());
    assert!(parse_source_dist("-1.0.zip").is_none());
    assert!(parse_source_dist("my pkg-1.0.zip").is_none());
    assert!(parse_source_dist("pkg--1.0.zip").is_none());
    assert!(parse_source_dist(".zip").is_none());
    assert!(parse_source_dist("").is_none());
    assert!(parse_source_dist("project").is_none());
}
