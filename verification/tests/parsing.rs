use memkv::{Common, Get, ParseError, Req};

#[test]
fn test_set() {
    let command = Common::from("set hello 0 0 5 \r\nhello\r\n").unwrap();

    assert_eq!(command.name, "set");
    assert_eq!(command.key, "hello");
    assert_eq!(command.flags, 0);
    assert_eq!(command.exptime, 0);
    assert_eq!(command.byte_count, 5);
    assert_eq!(command.no_reply, false);
    assert_eq!(command.data_block, "hello".as_bytes());
}

#[test]
fn test_empty_data_set() {
    let command = Common::from("set hello 0 0 0 \r\n\r\n").unwrap();

    assert_eq!(command.name, "set");
    assert_eq!(command.key, "hello");
    assert_eq!(command.flags, 0);
    assert_eq!(command.exptime, 0);
    assert_eq!(command.byte_count, 0);
    assert_eq!(command.no_reply, false);
    assert_eq!(command.data_block, "".as_bytes());
}

#[test]
fn test_noreply_set() {
    let command = Common::from("set hello 0 0 5 noreply\r\nhello\r\n").unwrap();

    assert_eq!(command.name, "set");
    assert_eq!(command.key, "hello");
    assert_eq!(command.flags, 0);
    assert_eq!(command.exptime, 0);
    assert_eq!(command.byte_count, 5);
    assert_eq!(command.no_reply, true);
    assert_eq!(command.data_block, "hello".as_bytes());
}

#[test]
fn test_noreply_empty_data_set() {
    let command = Common::from("set hello 0 0 0 noreply\r\n\r\n").unwrap();

    assert_eq!(command.name, "set");
    assert_eq!(command.key, "hello");
    assert_eq!(command.flags, 0);
    assert_eq!(command.exptime, 0);
    assert_eq!(command.byte_count, 0);
    assert_eq!(command.no_reply, true);
    assert_eq!(command.data_block, "".as_bytes());
}

#[test]
fn test_get() {
    let command = Get::from("get hello\r\n").unwrap();

    assert_eq!(command.name, "get");
    assert_eq!(command.key, "hello");
}

#[test]
fn test_req() {
    let command = Req::from("set hello 0 0 5 \r\nhello\r\n").unwrap();

    assert_eq!(command, Req::Put(Common::from("set hello 0 0 5 \r\nhello\r\n").unwrap()));

    let command = Req::from("get hello\r\n").unwrap();

    assert_eq!(command, Req::Get(Get::from("get hello\r\n").unwrap()));
}

#[test]
fn set_without_trailing_space() {
    let command = Common::from("set foo 5 0 3\r\nbar\r\n").unwrap();

    assert_eq!(command.name, "set");
    assert_eq!(command.key, "foo");
    assert_eq!(command.flags, 5);
    assert_eq!(command.exptime, 0);
    assert_eq!(command.byte_count, 3);
    assert_eq!(command.no_reply, false);
    assert_eq!(command.data_block, "bar".as_bytes());
}

#[test]
fn every_command_name_is_recognised() {
    let block = " k 1 2 1\r\nx\r\n";
    let common = |name: &str| Common::from(&format!("{}{}", name, block)).unwrap();

    assert_eq!(Req::from(&format!("set{}", block)), Ok(Req::Put(common("set"))));
    assert_eq!(Req::from(&format!("add{}", block)), Ok(Req::Add(common("add"))));
    assert_eq!(Req::from(&format!("replace{}", block)), Ok(Req::Replace(common("replace"))));
    assert_eq!(Req::from(&format!("append{}", block)), Ok(Req::Append(common("append"))));
    assert_eq!(Req::from(&format!("prepend{}", block)), Ok(Req::Prepend(common("prepend"))));
    assert_eq!(common("prepend").name, "prepend");
    assert_eq!(common("prepend").exptime, 2);
}

#[test]
fn unknown_command_is_rejected() {
    assert_eq!(Req::from("delete foo\r\n"), Err(ParseError::UnknownCommand));
    assert_eq!(Req::from("SET foo 0 0 1\r\nx\r\n"), Err(ParseError::UnknownCommand));
    assert_eq!(Req::from("sets foo 0 0 1\r\nx\r\n"), Err(ParseError::UnknownCommand));
    assert_eq!(Req::from("se foo 0 0 1\r\nx\r\n"), Err(ParseError::UnknownCommand));
    assert_eq!(Req::from("\r\n"), Err(ParseError::UnknownCommand));
    assert_eq!(Req::from("   \r\n"), Err(ParseError::UnknownCommand));
}

#[test]
fn missing_line_end_is_rejected() {
    assert_eq!(Req::from(""), Err(ParseError::UnterminatedLine));
    assert_eq!(Req::from("get foo"), Err(ParseError::UnterminatedLine));
    assert_eq!(Req::from("get foo\n"), Err(ParseError::UnterminatedLine));
    assert_eq!(Req::from("get foo\r"), Err(ParseError::UnterminatedLine));
    assert_eq!(Req::from("get foo\n\r"), Err(ParseError::UnterminatedLine));
    assert_eq!(Req::from("bogus"), Err(ParseError::UnterminatedLine));
    assert_eq!(Get::from("get foo"), Err(ParseError::UnterminatedLine));
    assert_eq!(Common::from("set foo 0 0 3 bar"), Err(ParseError::UnterminatedLine));
}

#[test]
fn wrong_arity_is_rejected() {
    assert_eq!(Req::from("get\r\n"), Err(ParseError::WrongArity));
    assert_eq!(Req::from("get a b\r\n"), Err(ParseError::WrongArity));
    assert_eq!(Req::from("set foo 0 0\r\nbar\r\n"), Err(ParseError::WrongArity));
    assert_eq!(Req::from("set foo\r\n"), Err(ParseError::WrongArity));
    assert_eq!(Req::from("set foo 0 0 3 noreply more\r\nbar\r\n"), Err(ParseError::WrongArity));
    assert_eq!(Req::from("set foo 0 0 3 quiet\r\nbar\r\n"), Err(ParseError::WrongArity));
    assert_eq!(Req::from("set foo 0 0 3 NOREPLY\r\nbar\r\n"), Err(ParseError::WrongArity));
    assert_eq!(Common::from("\r\n"), Err(ParseError::WrongArity));
    assert_eq!(Get::from("\r\n"), Err(ParseError::WrongArity));
}

#[test]
fn arity_comes_before_numbers() {
    assert_eq!(Req::from("set foo x y\r\n"), Err(ParseError::WrongArity));
    assert_eq!(Req::from("set foo x y z quiet\r\n"), Err(ParseError::WrongArity));
}

#[test]
fn numbers_must_be_decimal_and_fit() {
    assert_eq!(Req::from("set foo x 0 3\r\nbar\r\n"), Err(ParseError::InvalidNumber));
    assert_eq!(Req::from("set foo 0 x 3\r\nbar\r\n"), Err(ParseError::InvalidNumber));
    assert_eq!(Req::from("set foo 0 0 x\r\nbar\r\n"), Err(ParseError::InvalidNumber));
    assert_eq!(Req::from("set foo -1 0 3\r\nbar\r\n"), Err(ParseError::InvalidNumber));
    assert_eq!(Req::from("set foo 0 0 -3\r\nbar\r\n"), Err(ParseError::InvalidNumber));
    assert_eq!(Req::from("set foo 1.5 0 3\r\nbar\r\n"), Err(ParseError::InvalidNumber));
    assert_eq!(Req::from("set foo 0x10 0 3\r\nbar\r\n"), Err(ParseError::InvalidNumber));
    assert_eq!(Req::from("set foo + 0 3\r\nbar\r\n"), Err(ParseError::InvalidNumber));
    assert_eq!(Req::from("set foo ++1 0 3\r\nbar\r\n"), Err(ParseError::InvalidNumber));
    assert_eq!(Req::from("set foo 65536 0 3\r\nbar\r\n"), Err(ParseError::InvalidNumber));
    assert_eq!(
        Req::from("set foo 0 18446744073709551616 3\r\nbar\r\n"),
        Err(ParseError::InvalidNumber)
    );
    assert_eq!(
        Req::from("set foo 0 0 99999999999999999999999999\r\nbar\r\n"),
        Err(ParseError::InvalidNumber)
    );
}

#[test]
fn numbers_at_their_limits() {
    let command = Common::from("set foo 65535 18446744073709551615 3\r\nbar\r\n").unwrap();
    assert_eq!(command.flags, 65535);
    assert_eq!(command.exptime, 18446744073709551615);

    let command = Common::from("set foo 0000000000000000000007 +12 03\r\nbar\r\n").unwrap();
    assert_eq!(command.flags, 7);
    assert_eq!(command.exptime, 12);
    assert_eq!(command.byte_count, 3);
    assert_eq!(command.data_block, "bar".as_bytes());
}

#[test]
fn numbers_come_before_the_data() {
    assert_eq!(Req::from("set foo x 0 30\r\nbar\r\n"), Err(ParseError::InvalidNumber));
}

#[test]
fn short_data_is_rejected() {
    assert_eq!(Req::from("set foo 0 0 3\r\nba"), Err(ParseError::TruncatedData));
    assert_eq!(Req::from("set foo 0 0 1\r\n"), Err(ParseError::TruncatedData));
    assert_eq!(Req::from("set foo 0 0 6\r\nbar\r\n"), Err(ParseError::TruncatedData));
    let most = format!("set foo 0 0 {}\r\nbar\r\n", usize::MAX);
    assert_eq!(Req::from(&most), Err(ParseError::TruncatedData));
}

#[test]
fn data_take_exactly_the_announced_bytes() {
    let command = Common::from("set foo 0 0 3\r\nbarbaz\r\nget foo\r\n").unwrap();
    assert_eq!(command.byte_count, 3);
    assert_eq!(command.data_block, "bar".as_bytes());

    let command = Common::from("set foo 0 0 5\r\nbar\r\n").unwrap();
    assert_eq!(command.data_block, "bar\r\n".as_bytes());

    let command = Common::from("set foo 0 0 7\r\na b\r\nc d\r\n").unwrap();
    assert_eq!(command.data_block, "a b\r\nc ".as_bytes());
}

#[test]
fn data_may_be_cut_inside_a_character() {
    let command = Common::from("set foo 0 0 1\r\n\u{e9}\r\n").unwrap();
    assert_eq!(command.byte_count, 1);
    assert_eq!(command.data_block, vec![0xc3u8]);
}

#[test]
fn words_are_separated_by_runs_of_blanks() {
    let command = Common::from("  set \t foo   1  2\t3   noreply  \r\nbar\r\n").unwrap();
    assert_eq!(command.name, "set");
    assert_eq!(command.key, "foo");
    assert_eq!(command.flags, 1);
    assert_eq!(command.exptime, 2);
    assert_eq!(command.byte_count, 3);
    assert_eq!(command.no_reply, true);
    assert_eq!(command.data_block, "bar".as_bytes());

    let command = Get::from("get\nfoo\r \r\n").unwrap();
    assert_eq!(command.name, "get");
    assert_eq!(command.key, "foo");

    assert_eq!(
        Req::from(" get  foo \r\n"),
        Ok(Req::Get(Get { name: "get".to_string(), key: "foo".to_string() }))
    );
}

#[test]
fn keys_may_hold_any_characters_but_blanks() {
    let command = Get::from("get cl\u{e9}\u{20ac}\u{1f600}!\r\n").unwrap();
    assert_eq!(command.key, "cl\u{e9}\u{20ac}\u{1f600}!");

    let command = Common::from("set \u{1f600} 0 0 4\r\n\u{1f600}\r\n").unwrap();
    assert_eq!(command.key, "\u{1f600}");
    assert_eq!(command.data_block, "\u{1f600}".as_bytes());

    let command = Get::from("get a\u{a0}b\r\n").unwrap();
    assert_eq!(command.key, "a\u{a0}b");
}

#[test]
fn the_name_of_a_storing_request_is_kept_as_written() {
    let command = Common::from("anything foo 1 2 3\r\nbar\r\n").unwrap();
    assert_eq!(command.name, "anything");
    let command = Get::from("fetch foo\r\n").unwrap();
    assert_eq!(command.name, "fetch");
}

#[test]
fn what_follows_a_get_is_not_read() {
    assert_eq!(
        Req::from("get foo\r\nget bar\r\n"),
        Ok(Req::Get(Get { name: "get".to_string(), key: "foo".to_string() }))
    );
}
