use course_dl::resolve::{
    find_pdf_url, resolve_responses, AssetUrl, PairOutcome, Resolver, ResolveErrorKind,
    IN_FLIGHT_LIMIT,
};

#[test]
fn test() {
    assert!(AssetUrl::from_text(
        "https://duckduckgo.com/?t=ffab&q=url+parts&ia=web".to_string()
    )
    .is_some());
}

#[test]
fn rejects_text_that_is_no_url() {
    assert!(AssetUrl::from_text("no scheme at all".to_string()).is_none());
}

#[test]
fn finds_quoted_pdf_url() {
    let body = br#"junk textOrigUrl:"https://cdn.example.com/a.pdf?download=a.pdf" tail"#;
    let url = find_pdf_url(body).unwrap();
    assert_eq!(url, b"https://cdn.example.com/a.pdf?download=a.pdf".to_vec());
}

#[test]
fn no_marker_yields_nothing() {
    assert!(find_pdf_url(b"a response about a video lesson").is_none());
}

#[test]
fn quoted_value_without_pdf_yields_nothing() {
    let body = br#"textOrigUrl:"https://cdn.example.com/a.mp4" tail"#;
    assert!(find_pdf_url(body).is_none());
}

#[test]
fn unterminated_quote_yields_nothing() {
    assert!(find_pdf_url(br#"textOrigUrl:"https://x/a.pdf"#).is_none());
}

#[test]
fn first_matching_marker_wins() {
    let body = br#"textOrigUrl:"nope.mp4" textOrigUrl:"https://x/first.pdf" textOrigUrl:"https://x/second.pdf""#;
    assert_eq!(find_pdf_url(body).unwrap(), b"https://x/first.pdf".to_vec());
}

#[test]
fn resolves_only_the_matching_pair() {
    let outcomes = vec![
        PairOutcome::Response(
            br#"textOrigUrl:"https://cdn.example.com/notes.pdf?download=notes.pdf""#.to_vec(),
        ),
        PairOutcome::Response(b"no asset in this one".to_vec()),
    ];
    let (urls, errors) = resolve_responses(&outcomes);
    assert_eq!(urls.len(), 1);
    assert_eq!(
        urls[0].as_str(),
        "https://cdn.example.com/notes.pdf?download=notes.pdf"
    );
    assert!(errors.is_empty());
}

#[test]
fn transport_failure_is_recorded_not_fatal() {
    let good = |name: &str| {
        PairOutcome::Response(
            format!("textOrigUrl:\"https://cdn.example.com/{name}.pdf\"").into_bytes(),
        )
    };
    let outcomes = vec![
        good("a"),
        good("b"),
        PairOutcome::Failed,
        good("c"),
        PairOutcome::Response(b"nothing here".to_vec()),
    ];
    let (urls, errors) = resolve_responses(&outcomes);
    assert_eq!(urls.len(), 3);
    assert_eq!(errors.len(), 1);
    assert_eq!(errors[0].pair_index, 2);
    assert_eq!(errors[0].kind, ResolveErrorKind::Transport);
}

#[test]
fn rejected_url_is_recorded() {
    let outcomes = vec![PairOutcome::Response(
        br#"textOrigUrl:"not an absolute url.pdf""#.to_vec(),
    )];
    let (urls, errors) = resolve_responses(&outcomes);
    assert!(urls.is_empty());
    assert_eq!(errors.len(), 1);
    assert_eq!(errors[0].kind, ResolveErrorKind::UrlRejected);
}

#[test]
fn non_utf8_url_is_recorded() {
    let body = b"textOrigUrl:\"https://x/\xff.pdf\"".to_vec();
    let (urls, errors) = resolve_responses(&vec![PairOutcome::Response(body)]);
    assert!(urls.is_empty());
    assert_eq!(errors.len(), 1);
    assert_eq!(errors[0].kind, ResolveErrorKind::UrlNotUtf8);
}

#[test]
fn in_flight_never_exceeds_the_limit() {
    let mut r = Resolver::new(12);
    let mut launched = 0usize;
    while r.can_launch() {
        r.launch();
        launched += 1;
    }
    assert_eq!(launched, IN_FLIGHT_LIMIT);
    assert_eq!(r.in_flight(), IN_FLIGHT_LIMIT);
    assert!(!r.can_launch());
    r.complete(0, &PairOutcome::Response(b"no match".to_vec()));
    assert_eq!(r.in_flight(), IN_FLIGHT_LIMIT - 1);
    assert!(r.can_launch());
}

#[test]
fn round_finishes_only_after_every_outcome() {
    let mut r = Resolver::new(2);
    let a = r.launch();
    let b = r.launch();
    assert!(!r.finished());
    r.complete(a, &PairOutcome::Failed);
    assert!(!r.finished());
    r.complete(b, &PairOutcome::Response(b"x".to_vec()));
    assert!(r.finished());
    let (urls, errors) = r.into_results();
    assert!(urls.is_empty());
    assert_eq!(errors.len(), 1);
    assert_eq!(errors[0].pair_index, a);
}
