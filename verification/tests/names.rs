use uv_requirements::locator::{Locator, SourceKind};
use uv_requirements::metadata::{choose_name, pyproject_name, setup_cfg_name};
use uv_requirements::name::PackageName;
use uv_requirements::requirement::ResolveError;

fn locator(given: &str, scheme: &str, path: &str) -> Locator {
    Locator { given: given.to_string(), scheme: scheme.to_string(), path: path.to_string() }
}

fn text_of(name: &PackageName) -> String {
    name.as_chars().iter().collect()
}

#[test]
fn name_is_lowered_and_separators_collapse() {
    assert_eq!(text_of(&PackageName::new("Friendly-Bard").unwrap()), "friendly-bard");
    assert_eq!(text_of(&PackageName::new("friendly.bard").unwrap()), "friendly-bard");
    assert_eq!(text_of(&PackageName::new("friendly__bard").unwrap()), "friendly-bard");
    assert_eq!(text_of(&PackageName::new("FrIeNdLy-._.-bArD").unwrap()), "friendly-bard");
    assert_eq!(text_of(&PackageName::new("a").unwrap()), "a");
    assert_eq!(text_of(&PackageName::new("pkg2").unwrap()), "pkg2");
}

#[test]
fn name_outside_the_grammar_is_refused() {
    assert!(PackageName::new("").is_none());
    assert!(PackageName::new("-pkg").is_none());
    assert!(PackageName::new("pkg-").is_none());
    assert!(PackageName::new("_pkg").is_none());
    assert!(PackageName::new("pkg.").is_none());
    assert!(PackageName::new("my pkg").is_none());
    assert!(PackageName::new("pkg!").is_none());
    assert!(PackageName::new("caf\u{e9}").is_none());
}

#[test]
fn name_matches_its_normal_form_only() {
    let name = PackageName::new("Foo_Bar").unwrap();
    assert!(name.matches("foo-bar"));
    assert!(!name.matches("Foo_Bar"));
    assert!(!name.matches("foo-ba"));
    assert_eq!(name.as_chars(), &vec!['f', 'o', 'o', '-', 'b', 'a', 'r']);
}

#[test]
fn from_field_takes_a_valid_text_only() {
    assert!(PackageName::from_field(None).is_none());
    assert!(PackageName::from_field(Some("not valid".to_string())).is_none());
    assert!(PackageName::from_field(Some("Valid.Name".to_string())).unwrap().matches("valid-name"));
}

#[test]
fn supported_schemes_are_classified() {
    assert_eq!(locator("file:///p", "file", "/p").classify(), Ok(SourceKind::Path));
    assert_eq!(locator("http://h/p", "http", "/p").classify(), Ok(SourceKind::Direct));
    assert_eq!(locator("https://h/p", "https", "/p").classify(), Ok(SourceKind::Direct));
    assert_eq!(locator("git+ssh://h/p", "git+ssh", "/p").classify(), Ok(SourceKind::VersionControl));
    assert_eq!(
        locator("git+https://h/p", "git+https", "/p").classify(),
        Ok(SourceKind::VersionControl)
    );
}

#[test]
fn other_schemes_are_refused_with_the_locator() {
    for scheme in ["ftp", "git+http", "git+file", "hg+https", "svn+ssh", "", "FILE", "files"] {
        let given = format!("{scheme}://host/pkg");
        assert_eq!(
            locator(&given, scheme, "/pkg").classify(),
            Err(ResolveError::UnsupportedScheme(given.clone()))
        );
    }
}

#[test]
fn wheel_extension_is_found_in_any_case() {
    assert!(locator("", "https", "/files/pkg-1.0-py3-none-any.whl").is_wheel());
    assert!(locator("", "https", "/files/PKG.WHL").is_wheel());
    assert!(locator("", "file", "pkg.Whl").is_wheel());
    assert!(locator("", "file", "/a/x.whl").is_wheel());
}

#[test]
fn other_file_names_are_no_wheels() {
    assert!(!locator("", "https", "/files/pkg-1.0.tar.gz").is_wheel());
    assert!(!locator("", "https", "/files/.whl").is_wheel());
    assert!(!locator("", "https", "/files/whl").is_wheel());
    assert!(!locator("", "https", "/files/pkgwhl").is_wheel());
    assert!(!locator("", "https", "/files/pkg.whl/").is_wheel());
    assert!(!locator("", "https", "/dir.whl/pkg").is_wheel());
    assert!(!locator("", "https", "/files/pkg.whl.zip").is_wheel());
    assert!(!locator("", "https", "").is_wheel());
}

#[test]
fn pyproject_project_name_is_read() {
    let text = "[project]\nname = \"Bar\"\nversion = \"1.0\"\n";
    assert!(pyproject_name(text).unwrap().matches("bar"));
}

#[test]
fn pyproject_project_name_wins_over_poetry() {
    let text = "[project]\nname = \"bar\"\n\n[tool.poetry]\nname = \"baz\"\n";
    assert!(pyproject_name(text).unwrap().matches("bar"));
}

#[test]
fn pyproject_poetry_name_is_read_without_project_table() {
    let text = "[tool.poetry]\nname = \"baz\"\n";
    assert!(pyproject_name(text).unwrap().matches("baz"));
}

#[test]
fn pyproject_poetry_name_is_read_without_project_name() {
    let text = "[project]\nversion = \"1\"\n\n[tool.poetry]\nname = \"baz\"\n";
    assert!(pyproject_name(text).unwrap().matches("baz"));
}

#[test]
fn pyproject_without_a_name_gives_none() {
    assert!(pyproject_name("").is_none());
    assert!(pyproject_name("[build-system]\nrequires = [\"setuptools\"]\n").is_none());
    assert!(pyproject_name("[tool.black]\nline-length = 88\n").is_none());
    assert!(pyproject_name("[project]\nname = 3\n").is_none());
    assert!(pyproject_name("project = \"name\"\n").is_none());
}

#[test]
fn pyproject_that_is_no_toml_gives_none() {
    assert!(pyproject_name("[project\nname = \"bar\"").is_none());
    assert!(pyproject_name("name = = 1").is_none());
}

#[test]
fn choose_name_prefers_the_first_valid_field() {
    let both = choose_name(Some("bar".to_string()), Some("baz".to_string()));
    assert!(both.unwrap().matches("bar"));
    let second = choose_name(None, Some("baz".to_string()));
    assert!(second.unwrap().matches("baz"));
    let invalid_first = choose_name(Some("not valid".to_string()), Some("baz".to_string()));
    assert!(invalid_first.unwrap().matches("baz"));
    assert!(choose_name(None, None).is_none());
    assert!(choose_name(Some("-".to_string()), Some("".to_string())).is_none());
}

#[test]
fn setup_cfg_name_is_read() {
    assert!(setup_cfg_name("[metadata]\nname = qux\n").unwrap().matches("qux"));
    assert!(setup_cfg_name("[metadata]\nname = Qux_Lib\nversion = 1\n").unwrap().matches("qux-lib"));
    assert!(setup_cfg_name("[options]\nzip_safe = 1\n[metadata]\nname: qux\n").unwrap().matches("qux"));
}

#[test]
fn setup_cfg_names_are_case_sensitive() {
    assert!(setup_cfg_name("[Metadata]\nname = qux\n").is_none());
    assert!(setup_cfg_name("[metadata]\nName = qux\n").is_none());
}

#[test]
fn setup_cfg_without_a_valid_name_gives_none() {
    assert!(setup_cfg_name("").is_none());
    assert!(setup_cfg_name("[metadata]\nversion = 1\n").is_none());
    assert!(setup_cfg_name("[metadata]\nname\n").is_none());
    assert!(setup_cfg_name("[metadata]\nname = not valid\n").is_none());
    assert!(setup_cfg_name("[options]\nname = qux\n").is_none());
    assert!(setup_cfg_name("[metadata\nname = qux\n").is_none());
}

#[test]
fn setup_cfg_multiline_value_is_no_name() {
    assert!(setup_cfg_name("[metadata]\nname = qux\n    more\n").is_none());
}

#[test]
fn file_name_is_the_last_segment() {
    assert_eq!(locator("", "https", "/files/pkg-1.0.tar.gz").file_name(), "pkg-1.0.tar.gz");
    assert_eq!(locator("", "file", "pkg.whl").file_name(), "pkg.whl");
    assert_eq!(locator("", "file", "/tmp/project/").file_name(), "");
    assert_eq!(locator("", "file", "").file_name(), "");
    assert_eq!(locator("", "file", "/caf\u{e9}/na\u{ef}ve.zip").file_name(), "na\u{ef}ve.zip");
}
