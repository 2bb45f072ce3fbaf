use uv_requirements::pkg_info::pkg_info_name;

#[test]
fn name_field_is_read() {
    assert!(pkg_info_name("Name: foo\n").unwrap().matches("foo"));
    assert!(pkg_info_name("Name: foo").unwrap().matches("foo"));
    assert!(pkg_info_name("Metadata-Version: 2.1\nName: Foo_Bar\nVersion: 0.1\n")
        .unwrap()
        .matches("foo-bar"));
}

#[test]
fn name_field_is_found_in_any_case_and_trimmed() {
    assert!(pkg_info_name("name:foo\n").unwrap().matches("foo"));
    assert!(pkg_info_name("NAME: \t foo \t\r\nVersion: 1\r\n").unwrap().matches("foo"));
    assert!(pkg_info_name("Metadata-Version: 1.0\r\nName: foo\r\n\r\nbody").unwrap().matches("foo"));
}

#[test]
fn first_name_field_is_the_one_read() {
    assert!(pkg_info_name("Name: first\nName: second\n").unwrap().matches("first"));
    assert!(pkg_info_name("Name: not valid\nName: second\n").is_none());
}

#[test]
fn headers_end_at_the_first_blank_line() {
    assert!(pkg_info_name("Version: 1\n\nName: foo\n").is_none());
    assert!(pkg_info_name("\nName: foo\n").is_none());
    assert!(pkg_info_name("Version: 1\n  \r\nName: foo\n").is_none());
}

#[test]
fn missing_or_invalid_name_gives_none() {
    assert!(pkg_info_name("").is_none());
    assert!(pkg_info_name("Version: 1\nSummary: none\n").is_none());
    assert!(pkg_info_name("Name:\n").is_none());
    assert!(pkg_info_name("Name: \n").is_none());
    assert!(pkg_info_name("Name: -foo\n").is_none());
    assert!(pkg_info_name("Names: foo\n").is_none());
    assert!(pkg_info_name("Name foo\n").is_none());
    assert!(pkg_info_name("Nam").is_none());
}

#[test]
fn continuation_line_starts_no_field() {
    assert!(pkg_info_name("Summary: about\n  Name: inner\nName: outer\n").unwrap().matches("outer"));
    assert!(pkg_info_name("Description: text\n\tName: inner\n").is_none());
    assert!(pkg_info_name(" Name: foo\n").is_none());
}
