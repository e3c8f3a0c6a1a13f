use extattr::{ext_attrs, ExtAttr, ExtAttrs, Failure, FailureKind, Fetched, Step, Warning};

const PATH: &[u8] = b"/tmp/foo";

fn names(list: &[&[u8]]) -> Vec<Vec<u8>> {
    list.iter().map(|name| name.to_vec()).collect()
}

fn listed<'p>(path: &'p [u8], list: &[&[u8]]) -> ExtAttrs<'p> {
    ext_attrs(path, Ok(names(list))).expect("the listing succeeded")
}

fn present(value: &[u8]) -> Fetched {
    Ok(Some(value.to_vec()))
}

fn denied() -> Failure {
    Failure { kind: FailureKind::PermissionDenied, os_code: Some(13) }
}

fn attr(name: &[u8], value: Option<&[u8]>) -> ExtAttr {
    ExtAttr { name: name.to_vec(), value: value.map(|bytes| bytes.to_vec()) }
}

#[test]
fn empty_listing_succeeds_and_yields_nothing() {
    let mut attrs = ext_attrs(PATH, Ok(Vec::new())).expect("an empty listing is a success");
    assert_eq!(attrs.pending(), None);
    assert!(attrs.remaining_names().is_empty());
    assert_eq!(attrs.resolve(present(b"stray")), Step::Exhausted);
    assert_eq!(attrs.pending(), None);

    let mut attrs = listed(PATH, &[]);
    let run = attrs.resolve_all(Vec::new());
    assert!(run.attrs.is_empty());
    assert!(run.warnings.is_empty());
}

#[test]
fn missing_path_fails_with_not_found() {
    let cause = Failure { kind: FailureKind::NotFound, os_code: Some(2) };
    match ext_attrs(b"/no/such/file", Err(cause)) {
        Ok(_) => panic!("a failed listing must not start an enumeration"),
        Err(failure) => {
            assert_eq!(failure.kind, FailureKind::NotFound);
            assert_eq!(failure, cause);
        }
    }
}

#[test]
fn listing_denied_is_fatal() {
    let result = ext_attrs(PATH, Err(denied()));
    assert_eq!(result.err(), Some(denied()));
}

#[test]
fn listing_unsupported_is_fatal() {
    let cause = Failure { kind: FailureKind::Unsupported, os_code: Some(95) };
    let result = ext_attrs(PATH, Err(cause));
    assert_eq!(result.err(), Some(cause));
}

#[test]
fn listing_other_failure_is_fatal() {
    let cause = Failure { kind: FailureKind::Other, os_code: None };
    let result = ext_attrs(PATH, Err(cause));
    assert_eq!(result.err(), Some(cause));
}

#[test]
fn enumeration_begins_before_the_first_name() {
    let attrs = listed(PATH, &[b"user.a", b"user.b"]);
    assert_eq!(attrs.path(), PATH);
    assert_eq!(attrs.pending(), Some(&b"user.a"[..]));
    assert_eq!(attrs.remaining_names(), &names(&[b"user.a", b"user.b"])[..]);
}

#[test]
fn pending_does_not_advance() {
    let attrs = listed(PATH, &[b"user.a", b"user.b"]);
    assert_eq!(attrs.pending(), Some(&b"user.a"[..]));
    assert_eq!(attrs.pending(), Some(&b"user.a"[..]));
}

#[test]
fn fetched_value_is_yielded_with_its_name() {
    let mut attrs = listed(PATH, &[b"user.a"]);
    let step = attrs.resolve(present(b"1"));
    assert_eq!(step, Step::Yield(attr(b"user.a", Some(b"1"))));
    assert_eq!(attrs.pending(), None);
}

#[test]
fn failed_fetch_is_skipped_and_leaves_one_warning() {
    let mut attrs = listed(PATH, &[b"a", b"b", b"c"]);
    let mut yielded: Vec<ExtAttr> = Vec::new();
    let mut warnings: Vec<Warning> = Vec::new();
    let results: Vec<Fetched> = vec![present(b"1"), Err(denied()), present(b"3")];
    for fetched in results {
        match attrs.resolve(fetched) {
            Step::Yield(attr) => yielded.push(attr),
            Step::Skip(warning) => warnings.push(warning),
            Step::Exhausted => panic!("three names were listed"),
        }
    }
    assert_eq!(yielded, vec![attr(b"a", Some(b"1")), attr(b"c", Some(b"3"))]);
    assert!(yielded.iter().all(|attr| attr.name != b"b"));
    assert_eq!(warnings, vec![Warning { name: b"b".to_vec(), path: PATH, cause: denied() }]);
    assert_eq!(attrs.pending(), None);
}

#[test]
fn failed_fetch_is_skipped_and_leaves_one_warning_in_one_run() {
    let mut attrs = listed(PATH, &[b"a", b"b", b"c"]);
    let run = attrs.resolve_all(vec![present(b"1"), Err(denied()), present(b"3")]);
    assert_eq!(run.attrs, vec![attr(b"a", Some(b"1")), attr(b"c", Some(b"3"))]);
    assert_eq!(run.warnings.len(), 1);
    assert_eq!(run.warnings[0].name, b"b".to_vec());
    assert_eq!(run.warnings[0].path, PATH);
    assert_eq!(run.warnings[0].cause, denied());
    assert_eq!(attrs.pending(), None);
}

#[test]
fn failed_fetch_does_not_end_the_enumeration() {
    let mut attrs = listed(PATH, &[b"a", b"b"]);
    assert!(matches!(attrs.resolve(Err(denied())), Step::Skip(_)));
    assert_eq!(attrs.pending(), Some(&b"b"[..]));
    assert_eq!(attrs.resolve(present(b"2")), Step::Yield(attr(b"b", Some(b"2"))));
}

#[test]
fn every_fetch_may_fail() {
    let mut attrs = listed(PATH, &[b"a", b"b"]);
    let run = attrs.resolve_all(vec![Err(denied()), Err(denied())]);
    assert!(run.attrs.is_empty());
    assert_eq!(
        run.warnings,
        vec![
            Warning { name: b"a".to_vec(), path: PATH, cause: denied() },
            Warning { name: b"b".to_vec(), path: PATH, cause: denied() },
        ]
    );
}

#[test]
fn valueless_attribute_is_yielded_without_value_or_warning() {
    let mut attrs = listed(PATH, &[b"user.flag"]);
    assert_eq!(attrs.resolve(Ok(None)), Step::Yield(attr(b"user.flag", None)));

    let mut attrs = listed(PATH, &[b"user.flag"]);
    let run = attrs.resolve_all(vec![Ok(None)]);
    assert_eq!(run.attrs, vec![attr(b"user.flag", None)]);
    assert!(run.warnings.is_empty());
}

#[test]
fn empty_value_is_not_no_value() {
    let mut attrs = listed(PATH, &[b"user.empty"]);
    assert_eq!(attrs.resolve(present(b"")), Step::Yield(attr(b"user.empty", Some(b""))));
}

#[test]
fn warning_carries_name_path_and_cause() {
    let cause = Failure { kind: FailureKind::Other, os_code: Some(61) };
    let mut attrs = listed(b"/srv/data", &[b"security.selinux"]);
    match attrs.resolve(Err(cause)) {
        Step::Skip(warning) => {
            assert_eq!(warning.name, b"security.selinux".to_vec());
            assert_eq!(warning.path, b"/srv/data");
            assert_eq!(warning.cause, cause);
        }
        _ => panic!("a failed fetch is passed over"),
    }
}

#[test]
fn warning_carries_each_kind_of_cause() {
    let kinds = [
        FailureKind::NotFound,
        FailureKind::PermissionDenied,
        FailureKind::Unsupported,
        FailureKind::Other,
    ];
    for kind in kinds {
        let cause = Failure { kind, os_code: None };
        let mut attrs = listed(PATH, &[b"a"]);
        assert_eq!(
            attrs.resolve(Err(cause)),
            Step::Skip(Warning { name: b"a".to_vec(), path: PATH, cause })
        );
    }
}

#[test]
fn exhausted_enumeration_stays_exhausted() {
    let mut attrs = listed(PATH, &[b"a"]);
    assert_eq!(attrs.resolve(present(b"1")), Step::Yield(attr(b"a", Some(b"1"))));
    assert_eq!(attrs.resolve(present(b"2")), Step::Exhausted);
    assert_eq!(attrs.resolve(Err(denied())), Step::Exhausted);
    assert_eq!(attrs.resolve(Ok(None)), Step::Exhausted);
    assert_eq!(attrs.pending(), None);
    let run = attrs.resolve_all(vec![present(b"3")]);
    assert!(run.attrs.is_empty());
    assert!(run.warnings.is_empty());
}

#[test]
fn enumeration_may_be_abandoned_early() {
    let mut attrs = listed(PATH, &[b"a", b"b", b"c"]);
    assert_eq!(attrs.resolve(present(b"1")), Step::Yield(attr(b"a", Some(b"1"))));
    assert_eq!(attrs.pending(), Some(&b"b"[..]));
    drop(attrs);

    let untouched = listed(PATH, &[b"a"]);
    drop(untouched);
}

#[test]
fn names_come_out_in_listing_order() {
    let mut attrs = listed(PATH, &[b"z", b"a", b"m"]);
    let run = attrs.resolve_all(vec![present(b"1"), present(b"2"), present(b"3")]);
    let order: Vec<Vec<u8>> = run.attrs.into_iter().map(|attr| attr.name).collect();
    assert_eq!(order, names(&[b"z", b"a", b"m"]));
}

#[test]
fn a_run_ends_where_the_results_run_out() {
    let mut attrs = listed(PATH, &[b"a", b"b", b"c"]);
    let run = attrs.resolve_all(vec![present(b"1")]);
    assert_eq!(run.attrs, vec![attr(b"a", Some(b"1"))]);
    assert_eq!(attrs.pending(), Some(&b"b"[..]));
    assert_eq!(attrs.remaining_names(), &names(&[b"b", b"c"])[..]);

    let run = attrs.resolve_all(vec![Err(denied()), present(b"3")]);
    assert_eq!(run.attrs, vec![attr(b"c", Some(b"3"))]);
    assert_eq!(run.warnings, vec![Warning { name: b"b".to_vec(), path: PATH, cause: denied() }]);
    assert_eq!(attrs.pending(), None);
}

#[test]
fn a_run_drops_results_beyond_the_last_name() {
    let mut attrs = listed(PATH, &[b"a"]);
    let run = attrs.resolve_all(vec![present(b"1"), present(b"2"), Err(denied())]);
    assert_eq!(run.attrs, vec![attr(b"a", Some(b"1"))]);
    assert!(run.warnings.is_empty());
}

#[test]
fn steps_and_one_run_agree() {
    let results = || -> Vec<Fetched> { vec![present(b"1"), Err(denied()), Ok(None), present(b"4")] };
    let list: [&[u8]; 4] = [b"a", b"b", b"c", b"d"];

    let mut stepwise = listed(PATH, &list);
    let mut yielded: Vec<ExtAttr> = Vec::new();
    let mut warnings: Vec<Warning> = Vec::new();
    for fetched in results() {
        match stepwise.resolve(fetched) {
            Step::Yield(attr) => yielded.push(attr),
            Step::Skip(warning) => warnings.push(warning),
            Step::Exhausted => {}
        }
    }

    let mut at_once = listed(PATH, &list);
    let run = at_once.resolve_all(results());
    assert_eq!(run.attrs, yielded);
    assert_eq!(run.warnings, warnings);
}

#[test]
fn bytes_that_are_no_text_pass_unchanged() {
    let name: &[u8] = &[0xff, 0xfe, 0x00, 0x80];
    let value: &[u8] = &[0x00, 0xc3, 0x28, 0xff];
    let path: &[u8] = &[b'/', 0xf0, 0x9f];
    let mut attrs = listed(path, &[name, name]);
    assert_eq!(attrs.path(), path);
    assert_eq!(attrs.pending(), Some(name));
    assert_eq!(attrs.resolve(present(value)), Step::Yield(attr(name, Some(value))));
    assert_eq!(
        attrs.resolve(Err(denied())),
        Step::Skip(Warning { name: name.to_vec(), path, cause: denied() })
    );
}
