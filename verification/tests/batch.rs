use uv_requirements::batch::{NamedRequirementsResolver, CONCURRENCY};
use uv_requirements::filename::WheelFault;
use uv_requirements::locator::Locator;
use uv_requirements::name::PackageName;
use uv_requirements::requirement::{
    Requirement, RequirementsTxtRequirement, ResolveError, UnnamedRequirement, VersionOrUrl,
};

fn name(text: &str) -> PackageName {
    PackageName::new(text).unwrap()
}

fn named(text: &str) -> RequirementsTxtRequirement {
    RequirementsTxtRequirement::Pep508(Requirement {
        name: name(text),
        extras: vec!["extra".to_string()],
        version_or_url: Some(VersionOrUrl::VersionSpecifier(">=1.0".to_string())),
        marker: Some("os_name == 'posix'".to_string()),
    })
}

fn locator(index: usize) -> Locator {
    Locator {
        given: format!("https://example.com/src/{index}"),
        scheme: "https".to_string(),
        path: format!("/src/{index}"),
    }
}

fn unnamed(index: usize) -> RequirementsTxtRequirement {
    RequirementsTxtRequirement::Unnamed(UnnamedRequirement {
        url: locator(index),
        extras: vec![format!("extra{index}")],
        marker: None,
    })
}

#[test]
fn named_requirements_pass_through_unchanged() {
    let mut batch = NamedRequirementsResolver::new(vec![named("alpha"), named("beta")]).resolve();
    assert_eq!(batch.len(), 2);
    assert_eq!(batch.dispatch(), None);
    assert_eq!(batch.in_flight(), 0);
    assert!(batch.unnamed(0).is_none());
    let list = batch.finish().unwrap().unwrap();
    assert_eq!(list.len(), 2);
    assert!(list[0].name.matches("alpha"));
    assert!(list[1].name.matches("beta"));
    assert_eq!(list[0].extras, vec!["extra".to_string()]);
    assert_eq!(list[0].marker, Some("os_name == 'posix'".to_string()));
    assert!(matches!(
        &list[0].version_or_url,
        Some(VersionOrUrl::VersionSpecifier(spec)) if spec == ">=1.0"
    ));
}

#[test]
fn empty_batch_finishes_with_an_empty_list() {
    let mut batch = NamedRequirementsResolver::new(Vec::new()).resolve();
    assert_eq!(batch.dispatch(), None);
    assert!(batch.finish().unwrap().unwrap().is_empty());
}

#[test]
fn reporter_is_carried_into_the_batch() {
    assert!(!NamedRequirementsResolver::new(Vec::new()).resolve().has_reporter());
    assert!(NamedRequirementsResolver::new(vec![named("alpha")])
        .with_reporter()
        .resolve()
        .has_reporter());
}

#[test]
fn output_keeps_input_order_when_completion_is_reversed() {
    let requirements =
        vec![unnamed(0), named("fixed"), unnamed(2), unnamed(3), named("last"), unnamed(5)];
    let mut batch = NamedRequirementsResolver::new(requirements).resolve();
    let mut started = Vec::new();
    while let Some(index) = batch.dispatch() {
        started.push(index);
    }
    assert_eq!(started, vec![0, 2, 3, 5]);
    assert_eq!(batch.in_flight(), 4);
    assert!(!batch.is_settled());
    for index in started.iter().rev() {
        assert!(!batch.is_settled());
        batch.complete(*index, Ok(name(&format!("pkg{index}"))));
    }
    assert!(batch.is_settled());
    assert_eq!(batch.in_flight(), 0);
    let list = batch.finish().unwrap().unwrap();
    let names: Vec<String> = list.iter().map(|r| r.name.as_chars().iter().collect()).collect();
    assert_eq!(names, vec!["pkg0", "fixed", "pkg2", "pkg3", "last", "pkg5"]);
    assert_eq!(list[2].extras, vec!["extra2".to_string()]);
    assert_eq!(list[2].marker, None);
    match &list[3].version_or_url {
        Some(VersionOrUrl::Url(url)) => assert_eq!(url, &locator(3)),
        other => panic!("{other:?}"),
    }
}

#[test]
fn unfinished_batch_has_no_result() {
    let mut batch = NamedRequirementsResolver::new(vec![unnamed(0), unnamed(1)]).resolve();
    assert_eq!(batch.dispatch(), Some(0));
    assert_eq!(batch.dispatch(), Some(1));
    batch.complete(1, Ok(name("one")));
    assert!(!batch.is_settled());
    assert!(batch.finish().is_none());
}

#[test]
fn no_more_than_the_ceiling_are_in_flight() {
    assert_eq!(CONCURRENCY, 50);
    let requirements: Vec<RequirementsTxtRequirement> = (0..120).map(unnamed).collect();
    let mut batch = NamedRequirementsResolver::new(requirements).resolve();
    for index in 0..50 {
        assert_eq!(batch.dispatch(), Some(index));
        assert_eq!(batch.in_flight(), index + 1);
    }
    assert_eq!(batch.dispatch(), None);
    assert_eq!(batch.in_flight(), 50);
    batch.complete(17, Ok(name("pkg17")));
    assert_eq!(batch.in_flight(), 49);
    assert_eq!(batch.dispatch(), Some(50));
    assert_eq!(batch.dispatch(), None);
    assert_eq!(batch.in_flight(), 50);
    let mut next = 51;
    for index in 0..120 {
        if index == 17 {
            continue;
        }
        batch.complete(index, Ok(name(&format!("pkg{index}"))));
        if next < 120 {
            assert_eq!(batch.dispatch(), Some(next));
            next += 1;
        }
        assert!(batch.in_flight() <= CONCURRENCY);
    }
    assert_eq!(batch.in_flight(), 0);
    let list = batch.finish().unwrap().unwrap();
    assert_eq!(list.len(), 120);
    for (index, requirement) in list.iter().enumerate() {
        assert!(requirement.name.matches(&format!("pkg{index}")));
    }
}

#[test]
fn first_failure_fails_the_whole_batch() {
    let requirements = vec![unnamed(0), unnamed(1), unnamed(2), named("fixed")];
    let mut batch = NamedRequirementsResolver::new(requirements).resolve();
    assert_eq!(batch.dispatch(), Some(0));
    assert_eq!(batch.dispatch(), Some(1));
    batch.complete(0, Ok(name("zero")));
    assert!(!batch.has_failed());
    batch.complete(1, Err(ResolveError::MalformedFilename(WheelFault::MissingAbiTag)));
    assert!(batch.has_failed());
    assert!(batch.is_settled());
    assert_eq!(batch.dispatch(), None);
    assert_eq!(
        batch.finish().unwrap().unwrap_err(),
        ResolveError::MalformedFilename(WheelFault::MissingAbiTag)
    );
}

#[test]
fn later_failures_do_not_replace_the_first() {
    let mut batch = NamedRequirementsResolver::new(vec![unnamed(0), unnamed(1)]).resolve();
    assert_eq!(batch.dispatch(), Some(0));
    assert_eq!(batch.dispatch(), Some(1));
    batch.complete(1, Err(ResolveError::Build("first".to_string())));
    batch.complete(0, Err(ResolveError::Build("second".to_string())));
    assert_eq!(batch.in_flight(), 0);
    assert_eq!(batch.finish().unwrap().unwrap_err(), ResolveError::Build("first".to_string()));
}

#[test]
fn outcome_for_a_position_that_does_not_run_is_dropped() {
    let mut batch = NamedRequirementsResolver::new(vec![named("fixed"), unnamed(1)]).resolve();
    batch.complete(0, Ok(name("wrong")));
    batch.complete(1, Ok(name("early")));
    batch.complete(7, Err(ResolveError::Build("nowhere".to_string())));
    assert!(!batch.has_failed());
    assert_eq!(batch.in_flight(), 0);
    assert_eq!(batch.dispatch(), Some(1));
    batch.complete(1, Ok(name("one")));
    batch.complete(1, Ok(name("again")));
    let list = batch.finish().unwrap().unwrap();
    assert!(list[0].name.matches("fixed"));
    assert!(list[1].name.matches("one"));
}

#[test]
fn unnamed_gives_the_requirement_to_resolve() {
    let batch = NamedRequirementsResolver::new(vec![named("fixed"), unnamed(1)]).resolve();
    assert!(batch.unnamed(0).is_none());
    assert_eq!(batch.unnamed(1).unwrap().url, locator(1));
    assert!(batch.unnamed(2).is_none());
}
