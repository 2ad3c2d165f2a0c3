use memkv::text::{find_line_end, find_words, push_decimal, read_number};
use memkv::{encode_reply, Resp, Value};

fn value(name: &str, flags: u16, data: &[u8]) -> Value {
    Value { name: name.to_string(), flags, byte_count: data.len(), data_block: data.to_vec() }
}

#[test]
fn plain_responses_on_the_wire() {
    assert_eq!(Resp::Stored.to_bytes(), b"STORED\r\n".to_vec());
    assert_eq!(Resp::NotStored.to_bytes(), b"NOT_STORED\r\n".to_vec());
    assert_eq!(Resp::End.to_bytes(), b"END\r\n".to_vec());
    assert_eq!(Resp::Stored.to_string(), "STORED\r\n");
    assert_eq!(Resp::NotStored.to_string(), "NOT_STORED\r\n");
    assert_eq!(Resp::End.to_string(), "END\r\n");
}

#[test]
fn value_on_the_wire() {
    let v = value("foo", 5, b"bar");
    assert_eq!(v.to_bytes(), b"VALUE foo 5 3\r\nbar\r\n".to_vec());
    assert_eq!(v.to_string(), "VALUE foo 5 3\r\nbar\r\n");
    assert_eq!(Resp::Value(v.clone()).to_bytes(), b"VALUE foo 5 3\r\nbar\r\n".to_vec());
    assert_eq!(Resp::Value(v).to_string(), "VALUE foo 5 3\r\nbar\r\n");
}

#[test]
fn empty_value_on_the_wire() {
    let v = value("k", 0, b"");
    assert_eq!(v.to_bytes(), b"VALUE k 0 0\r\n\r\n".to_vec());
    assert_eq!(v.to_string(), "VALUE k 0 0\r\n\r\n");
}

#[test]
fn value_with_large_numbers() {
    let v = Value {
        name: "k".to_string(),
        flags: 65535,
        byte_count: 1234567890,
        data_block: b"x".to_vec(),
    };
    assert_eq!(v.to_bytes(), b"VALUE k 65535 1234567890\r\nx\r\n".to_vec());
}

#[test]
fn data_are_written_as_they_are() {
    let data = [0u8, 13, 10, 255, 0xc3, 32, 0x80];
    let v = value("bin", 1, &data);
    let mut expected = b"VALUE bin 1 7\r\n".to_vec();
    expected.extend_from_slice(&data);
    expected.extend_from_slice(b"\r\n");
    assert_eq!(v.to_bytes(), expected);
}

#[test]
fn text_form_replaces_what_is_not_utf8() {
    let v = value("bin", 1, &[b'a', 0xff, b'b']);
    assert_eq!(v.to_string(), "VALUE bin 1 3\r\na\u{fffd}b\r\n");
    let v = value("cut", 0, &[0xc3]);
    assert_eq!(v.to_string(), "VALUE cut 0 1\r\n\u{fffd}\r\n");
    assert_eq!(Resp::Value(v).to_string(), "VALUE cut 0 1\r\n\u{fffd}\r\n");
}

#[test]
fn text_form_keeps_utf8() {
    let v = value("cl\u{e9}", 2, "\u{20ac}5".as_bytes());
    assert_eq!(v.to_string(), "VALUE cl\u{e9} 2 4\r\n\u{20ac}5\r\n");
    assert_eq!(v.to_string().as_bytes(), &v.to_bytes()[..]);
}

#[test]
fn withheld_response_is_no_bytes() {
    assert_eq!(encode_reply(&None), Vec::<u8>::new());
    assert_eq!(encode_reply(&Some(Resp::Stored)), b"STORED\r\n".to_vec());
    assert_eq!(encode_reply(&Some(Resp::End)), b"END\r\n".to_vec());
    assert_eq!(
        encode_reply(&Some(Resp::Value(value("a", 9, b"zz")))),
        b"VALUE a 9 2\r\nzz\r\n".to_vec()
    );
}

#[test]
fn decimal_digits() {
    let render = |n: u64| {
        let mut out = vec![b'#'];
        push_decimal(&mut out, n);
        String::from_utf8(out).unwrap()
    };
    assert_eq!(render(0), "#0");
    assert_eq!(render(7), "#7");
    assert_eq!(render(10), "#10");
    assert_eq!(render(1009), "#1009");
    assert_eq!(render(u64::MAX), "#18446744073709551615");
}

#[test]
fn written_numbers_read_back() {
    for n in [0u64, 1, 9, 10, 99, 100, 65535, 4294967296, u64::MAX] {
        let mut out = Vec::new();
        push_decimal(&mut out, n);
        assert_eq!(read_number(&out, 0, out.len(), u64::MAX), Some(n));
        assert_eq!(read_number(&out, 0, out.len(), n), Some(n));
        if n > 0 {
            assert_eq!(read_number(&out, 0, out.len(), n - 1), None);
        }
    }
}

#[test]
fn numbers_are_read_from_a_part_of_the_bytes() {
    let bytes = b"ab+42cd";
    assert_eq!(read_number(bytes, 2, 5, 100), Some(42));
    assert_eq!(read_number(bytes, 3, 5, 100), Some(42));
    assert_eq!(read_number(bytes, 3, 5, 41), None);
    assert_eq!(read_number(bytes, 3, 6, 100), None);
    assert_eq!(read_number(bytes, 2, 3, 100), None);
    assert_eq!(read_number(bytes, 3, 3, 100), None);
    assert_eq!(read_number(bytes, 4, 5, 0), None);
    assert_eq!(read_number(b"0", 0, 1, 0), Some(0));
}

#[test]
fn line_ends_and_words() {
    assert_eq!(find_line_end(b""), None);
    assert_eq!(find_line_end(b"\r"), None);
    assert_eq!(find_line_end(b"\r\n"), Some(0));
    assert_eq!(find_line_end(b"ab\r\ncd\r\n"), Some(2));
    assert_eq!(find_line_end(b"a\rb\n\r\r\n"), Some(5));

    assert_eq!(find_words(b"", 0), vec![]);
    assert_eq!(find_words(b"   ", 3), vec![]);
    assert_eq!(find_words(b"ab", 2), vec![(0, 2)]);
    assert_eq!(find_words(b" ab  c\td ", 9), vec![(1, 3), (5, 6), (7, 8)]);
    assert_eq!(find_words(b"ab cd", 4), vec![(0, 2), (3, 4)]);
    assert_eq!(find_words(b"ab cd", 3), vec![(0, 2)]);
}
