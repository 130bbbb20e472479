use owlengine::warn::{All, First, Last, Sink};

#[derive(Debug, PartialEq, Eq, Clone)]
struct ErrFirst {
    value: usize,
}

fn recursive(n: usize, warn: &mut impl Sink<ErrFirst>) {
    if n == 0 {
        return;
    }
    recursive(n - 1, warn);
    warn.warn(ErrFirst { value: n });
    recursive(n - 1, warn);
}

#[test]
fn test_recursive() {
    let mut sink: All<ErrFirst> = All::new();
    recursive(3, &mut sink);
    let res = vec![
        ErrFirst { value: 1 },
        ErrFirst { value: 2 },
        ErrFirst { value: 1 },
        ErrFirst { value: 3 },
        ErrFirst { value: 1 },
        ErrFirst { value: 2 },
        ErrFirst { value: 1 },
    ];
    assert_eq!(sink.log, res);
}

#[test]
fn test_first_and_last() {
    let mut first: First<ErrFirst> = First::new();
    assert_eq!(*first.get(), None);
    first.warn(ErrFirst { value: 1 });
    first.warn(ErrFirst { value: 2 });
    assert_eq!(*first.get(), Some(ErrFirst { value: 1 }));

    let mut last: Last<ErrFirst> = Last::new();
    assert_eq!(*last.get(), None);
    last.warn(ErrFirst { value: 1 });
    last.warn(ErrFirst { value: 2 });
    assert_eq!(*last.get(), Some(ErrFirst { value: 2 }));
}

#[test]
fn test_or_warn_helpers() {
    let mut sink: All<ErrFirst> = All::new();
    let v = owlengine::warn::or_warn_with(Some(5), ErrFirst { value: 1 }, &mut sink);
    assert_eq!(v, Some(5));
    assert!(sink.log.is_empty());
    let v: Option<u32> = owlengine::warn::or_warn_with(None, ErrFirst { value: 2 }, &mut sink);
    assert_eq!(v, None);
    assert_eq!(sink.log, vec![ErrFirst { value: 2 }]);

    let r: Result<u32, &str> = owlengine::warn::or_warn(Err("bad"), ErrFirst { value: 3 }, &mut sink);
    assert_eq!(r, Err("bad"));
    let r: Result<u32, &str> = owlengine::warn::or_warn(Ok(7), ErrFirst { value: 4 }, &mut sink);
    assert_eq!(r, Ok(7));
    assert_eq!(
        sink.log,
        vec![ErrFirst { value: 2 }, ErrFirst { value: 3 }]
    );
}

#[test]
fn test_from_fn_sink() {
    let mut seen: Vec<usize> = Vec::new();
    {
        let mut sink = owlengine::warn::from_fn(|e: ErrFirst| {
            // the callback only observes; the value is dropped
            let _ = e;
        });
        sink.warn(ErrFirst { value: 7 });
    }
    seen.push(1);
    assert_eq!(seen, vec![1]);
}
