use honeybadger::notice::{
    frames_of, normalize, CauseInfo, Error, FrameData, SourceError, SymbolInfo,
};

#[test]
fn test_chained_err() {
    let chain = vec![
        "Honeybadger rate limit exceeded".to_owned(),
        "The endpoint replied with a redirect".to_owned(),
    ];
    let notice = Error::new(
        "Honeybadger rate limit exceeded",
        "Error: Honeybadger rate limit exceeded\nCaused by: The endpoint replied with a redirect\n",
        &chain,
        &None,
    );

    assert_eq!("Honeybadger rate limit exceeded", notice.class);
    if let Some(causes) = notice.causes {
        assert_eq!(2, causes.len());
    } else {
        assert_eq!("", "Missing causes in ::notice::Error");
    }
}

#[test]
fn test_failure_err() {
    let error = SourceError::Aggregate {
        display: "test_error_message".to_owned(),
        debug: "test_error_message".to_owned(),
        causes: vec![],
    };
    let notice: Error = normalize(&error);
    assert_eq!("test_error_message", notice.class);
}

#[test]
fn chained_causes_nest_one_link_at_a_time() {
    let chain = vec!["outer".to_owned(), "middle".to_owned(), "inner".to_owned()];
    let notice = Error::new("outer", "outer / middle / inner", &chain, &None);

    let causes = notice.causes.expect("causes");
    assert_eq!(3, causes.len());

    // The first entry is the whole chain, nested as single causes.
    assert_eq!("outer", causes[0].class);
    assert!(causes[0].message.is_none());
    let nested = causes[0].causes.as_ref().expect("nested cause");
    assert_eq!(1, nested.len());
    assert_eq!("middle", nested[0].class);
    let deepest = nested[0].causes.as_ref().expect("deepest cause");
    assert_eq!(1, deepest.len());
    assert_eq!("inner", deepest[0].class);
    assert!(deepest[0].causes.is_none());

    // The last entry is the exhausted end of the chain.
    assert_eq!("inner", causes[2].class);
    assert!(causes[2].causes.is_none());
}

#[test]
fn empty_chain_has_no_causes() {
    let notice = Error::new("boom", "boom", &vec![], &None);
    assert_eq!("boom", notice.class);
    assert!(notice.causes.is_none());
}

#[test]
fn childless_aggregate_has_no_causes() {
    let error = SourceError::Aggregate {
        display: "lonely".to_owned(),
        debug: "lonely debug".to_owned(),
        causes: vec![],
    };
    let notice = normalize(&error);
    assert_eq!("lonely", notice.class);
    assert!(notice.causes.is_none());
}

#[test]
fn std_err_builds_the_tail_of_a_chain() {
    let chain = vec!["a".to_owned(), "b".to_owned()];
    let record = Error::std_err(&chain, 1);
    assert_eq!("b", record.class);
    assert!(record.message.is_none());
    assert!(record.causes.is_none());
}

#[test]
fn opaque_error_keeps_display_and_debug() {
    let error = SourceError::Opaque {
        display: "io failure".to_owned(),
        debug: "Os { code: 2 }".to_owned(),
    };
    let notice = normalize(&error);
    assert_eq!("io failure", notice.class);
    assert_eq!(Some("Os { code: 2 }".to_owned()), notice.message);
    assert!(notice.causes.is_none());
    assert!(notice.frames.is_none());
}

#[test]
fn aggregate_error_maps_each_sub_error() {
    let error = SourceError::Aggregate {
        display: "several things failed".to_owned(),
        debug: "aggregate { .. }".to_owned(),
        causes: vec![
            CauseInfo {
                display: "first".to_owned(),
                debug: "first debug".to_owned(),
            },
            CauseInfo {
                display: "second".to_owned(),
                debug: "second debug".to_owned(),
            },
        ],
    };
    let notice = normalize(&error);
    assert_eq!("several things failed", notice.class);
    assert_eq!(Some("aggregate { .. }".to_owned()), notice.message);
    let causes = notice.causes.expect("causes");
    assert_eq!(2, causes.len());
    assert_eq!("first", causes[0].class);
    assert_eq!(Some("first debug".to_owned()), causes[0].message);
    assert!(causes[0].causes.is_none());
    assert_eq!("second", causes[1].class);
}

fn symbol(name: &str) -> SymbolInfo {
    SymbolInfo {
        line: Some("10".to_owned()),
        file: Some("src/lib.rs".to_owned()),
        symbol: Some(name.to_owned()),
    }
}

#[test]
fn frames_skip_empty_and_take_outermost_symbol() {
    let backtrace = vec![
        FrameData {
            symbols: vec![symbol("innermost_inlined"), symbol("outermost")],
        },
        FrameData { symbols: vec![] },
        FrameData {
            symbols: vec![symbol("caller")],
        },
    ];
    let frames = frames_of(&backtrace);
    assert_eq!(2, frames.len());
    assert_eq!(Some("outermost".to_owned()), frames[0].symbol);
    assert_eq!(Some("caller".to_owned()), frames[1].symbol);
    assert_eq!(Some("src/lib.rs".to_owned()), frames[0].file);
    assert_eq!(Some("10".to_owned()), frames[0].line);
}

#[test]
fn chained_error_with_backtrace_gets_frames() {
    let chain = vec!["boom".to_owned()];
    let backtrace = Some(vec![FrameData {
        symbols: vec![symbol("main")],
    }]);
    let notice = Error::new("boom", "boom", &chain, &backtrace);
    let frames = notice.frames.expect("frames");
    assert_eq!(1, frames.len());
    assert_eq!(Some("main".to_owned()), frames[0].symbol);
}

#[test]
fn chained_error_without_backtrace_has_no_frames() {
    let chain = vec!["boom".to_owned()];
    let notice = Error::new("boom", "boom", &chain, &None);
    assert!(notice.frames.is_none());
}
