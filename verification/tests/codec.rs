use neptun::codec::build_record_link;
use neptun::codec::encode_token;
use neptun::codec::fmt_u64;
use neptun::codec::parse_start_args;
use neptun::codec::StartArg;

#[test]
fn fmt_writes_decimal() {
    assert_eq!(fmt_u64(0), "0");
    assert_eq!(fmt_u64(7), "7");
    assert_eq!(fmt_u64(10), "10");
    assert_eq!(fmt_u64(1234567890), "1234567890");
    assert_eq!(fmt_u64(u64::MAX), "18446744073709551615");
}

#[test]
fn encode_builds_token() {
    assert_eq!(encode_token(5, "abcDEF"), "record-5-abcDEF");
    assert_eq!(encode_token(0, ""), "record-0-");
    assert_eq!(encode_token(i64::MAX, "zzzz"), "record-9223372036854775807-zzzz");
}

#[test]
fn link_embeds_token() {
    assert_eq!(build_record_link("bot", 1, "s1ug"), "tg://@bot?start=record-1-s1ug");
}

#[test]
fn decode_round_trips() {
    let token = encode_token(42, "aB3xYz90AbCdEfGh");
    match parse_start_args(&token) {
        StartArg::Record { id, slug } => {
            assert_eq!(id, 42);
            assert_eq!(slug, "aB3xYz90AbCdEfGh");
        }
        StartArg::NoRecord => panic!("a well-formed token must decode"),
    }
}

#[test]
fn decode_accepts_leading_zeros() {
    match parse_start_args("record-007-x") {
        StartArg::Record { id, slug } => {
            assert_eq!(id, 7);
            assert_eq!(slug, "x");
        }
        StartArg::NoRecord => panic!("leading zeros still denote a number"),
    }
}

#[test]
fn decode_accepts_empty_slug() {
    match parse_start_args("record-3-") {
        StartArg::Record { id, slug } => {
            assert_eq!(id, 3);
            assert_eq!(slug, "");
        }
        StartArg::NoRecord => panic!("an empty third segment is still present"),
    }
}

#[test]
fn decode_accepts_largest_id() {
    match parse_start_args("record-9223372036854775807-a") {
        StartArg::Record { id, slug } => {
            assert_eq!(id, i64::MAX);
            assert_eq!(slug, "a");
        }
        StartArg::NoRecord => panic!("the largest id fits"),
    }
}

#[test]
fn decode_rejects_malformed() {
    let bad = [
        "",
        "-",
        "record",
        "record-",
        "records-1-x",
        "record-x-y",
        "record-1x-y",
        "record--y",
        "record-5",
        "record-5-a-b",
        "hello-5-a",
        "Record-5-a",
        "record-9223372036854775808-a",
        "record-99999999999999999999-a",
    ];
    for s in bad {
        assert!(
            matches!(parse_start_args(s), StartArg::NoRecord),
            "{s} is not a record reference"
        );
    }
}
