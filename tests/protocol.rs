use indicate::color::Color;
use std::str::FromStr;
use indicate::error::{Error, ErrorKind};
use indicate::state::{Progress, UpdateMsg};

fn err(line: &str) -> Error {
    UpdateMsg::parse(line).unwrap_err()
}

#[test]
fn color_command() {
    match UpdateMsg::parse("\\color=#ff0000").unwrap() {
        UpdateMsg::Color(c) => {
            assert_eq!(c, Color(255, 0, 0, 255));
            assert_eq!((c.0 as f64 / 255.0, c.1 as f64, c.2 as f64, c.3 as f64 / 255.0), (1.0, 0.0, 0.0, 1.0));
        }
        other => panic!("unexpected {:?}", other),
    }
}

#[test]
fn empty_color_is_missing_value() {
    let e = err("\\color=");
    assert_eq!(e.kind, ErrorKind::MissingValue);
    assert_eq!(e.subject, "color");
    assert_eq!(e.message(), "no value given for color");
}

#[test]
fn no_equals_is_missing_value() {
    let e = err("\\ progress ");
    assert_eq!(e.kind, ErrorKind::MissingValue);
    assert_eq!(e.subject, "progress");
}

#[test]
fn unknown_attribute() {
    let e = err("\\bogus=1");
    assert_eq!(e.kind, ErrorKind::UnknownAttribute);
    assert_eq!(e.subject, "bogus");
}

#[test]
fn plain_line_is_text() {
    match UpdateMsg::parse("hello world").unwrap() {
        UpdateMsg::Text(s) => assert_eq!(s, "hello world"),
        other => panic!("unexpected {:?}", other),
    }
    match UpdateMsg::parse("").unwrap() {
        UpdateMsg::Text(s) => assert_eq!(s, ""),
        other => panic!("unexpected {:?}", other),
    }
    match UpdateMsg::parse("  a = b ").unwrap() {
        UpdateMsg::Text(s) => assert_eq!(s, "  a = b "),
        other => panic!("unexpected {:?}", other),
    }
}

#[test]
fn font_is_verbatim_and_trimmed() {
    match UpdateMsg::parse("\\ font =  Monospace Bold 14 ").unwrap() {
        UpdateMsg::Font(s) => assert_eq!(s, "Monospace Bold 14"),
        other => panic!("unexpected {:?}", other),
    }
    match UpdateMsg::parse("\\font=a=b").unwrap() {
        UpdateMsg::Font(s) => assert_eq!(s, "a=b"),
        other => panic!("unexpected {:?}", other),
    }
}

#[test]
fn progress_modes() {
    assert!(matches!(UpdateMsg::parse("\\progress=indeterminate").unwrap(), UpdateMsg::Progress(Progress::Indeterminate)));
    assert!(matches!(UpdateMsg::parse("\\progress=determinate").unwrap(), UpdateMsg::Progress(Progress::Determinate)));
    assert!(matches!(UpdateMsg::parse("\\progress=none").unwrap(), UpdateMsg::Progress(Progress::Hidden)));
    let e = err("\\progress=Determinate");
    assert_eq!(e.kind, ErrorKind::InvalidProgressMode);
    assert_eq!(e.subject, "Determinate");
    assert_eq!(Progress::parse("none").unwrap(), Progress::Hidden);
    let p: Progress = "determinate".parse().unwrap();
    assert_eq!(p, Progress::Determinate);
}

#[test]
fn numbers() {
    assert!(matches!(UpdateMsg::parse("\\indeterminate_speed=3").unwrap(), UpdateMsg::IndeterminateSpeed(3)));
    assert!(matches!(UpdateMsg::parse("\\progress_current=+42").unwrap(), UpdateMsg::ProgressCurrent(42)));
    assert!(matches!(
        UpdateMsg::parse("\\progress_max=18446744073709551615").unwrap(),
        UpdateMsg::ProgressMax(u64::MAX)
    ));
    assert!(matches!(UpdateMsg::parse("\\indeterminate_speed=4294967295").unwrap(), UpdateMsg::IndeterminateSpeed(u32::MAX)));
    for line in [
        "\\progress_max=18446744073709551616",
        "\\indeterminate_speed=4294967296",
        "\\progress_current=-1",
        "\\progress_current=1.5",
        "\\progress_current=+",
        "\\progress_current=ten",
    ] {
        assert_eq!(err(line).kind, ErrorKind::InvalidNumber, "{}", line);
    }
    assert_eq!(err("\\progress_current=ten").subject, "ten");
}

#[test]
fn bad_color_value() {
    let e = err("\\color = #12345");
    assert_eq!(e.kind, ErrorKind::InvalidColor);
    assert_eq!(e.subject, "#12345");
}

#[test]
fn from_str_reads_lines() {
    let m: UpdateMsg = "\\progress_max=7".parse().unwrap();
    assert!(matches!(m, UpdateMsg::ProgressMax(7)));
}

#[test]
fn error_from_string() {
    let e = Error::from_string("boom".to_string());
    assert_eq!(e.kind, ErrorKind::Other);
    assert_eq!(e.message(), "boom");
    assert_eq!(Error::new(ErrorKind::InvalidColor, "x".to_string()).message(), "invalid color x");
}

#[test]
fn unknown_key_comes_before_empty_value() {
    let e = err("\\bogus=");
    assert_eq!(e.kind, ErrorKind::UnknownAttribute);
    assert_eq!(e.subject, "bogus");
    let e = err("\\bogus");
    assert_eq!(e.kind, ErrorKind::MissingValue);
    assert_eq!(e.subject, "bogus");
}

#[test]
fn empty_values_of_other_keys() {
    match UpdateMsg::parse("\\font=  ").unwrap() {
        UpdateMsg::Font(s) => assert_eq!(s, ""),
        other => panic!("unexpected {:?}", other),
    }
    match UpdateMsg::parse("\\font=").unwrap() {
        UpdateMsg::Font(s) => assert_eq!(s, ""),
        other => panic!("unexpected {:?}", other),
    }
    let e = err("\\progress=");
    assert_eq!((e.kind, e.subject.as_str()), (ErrorKind::InvalidProgressMode, ""));
    for line in ["\\progress_max=", "\\progress_current= ", "\\indeterminate_speed="] {
        let e = err(line);
        assert_eq!((e.kind, e.subject.as_str()), (ErrorKind::InvalidNumber, ""), "{}", line);
    }
    let e = err("\\color= ");
    assert_eq!((e.kind, e.subject.as_str()), (ErrorKind::MissingValue, "color"));
}

#[test]
fn trait_parsers_agree() {
    assert_eq!(<Color as FromStr>::from_str("00ff0080").unwrap(), Color(0, 255, 0, 128));
    assert_eq!(<Color as FromStr>::from_str("#zz0000").unwrap_err().kind, ErrorKind::InvalidColor);
    assert_eq!(<Progress as FromStr>::from_str("Determinate").unwrap_err().kind, ErrorKind::InvalidProgressMode);
    assert!(matches!(
        <UpdateMsg as FromStr>::from_str("\\ progress_current = 42 ").unwrap(),
        UpdateMsg::ProgressCurrent(42)
    ));
    let e = <UpdateMsg as FromStr>::from_str("\\color=").unwrap_err();
    assert_eq!((e.kind, e.subject.as_str()), (ErrorKind::MissingValue, "color"));
}
