use rtools::selector::TakeValue::{PlusZero, TakeNum};
use rtools::selector::{get_start_index, parse_num};

#[test]
fn test_get_start_index() {
    // +0 from an empty file (0 lines/bytes) returns None
    assert_eq!(get_start_index(&PlusZero, 0), None);

    // +0 from a nonempty file returns an index that
    // is one less than the number of lines/bytes
    assert_eq!(get_start_index(&PlusZero, 1), Some(0));

    // Taking 0 lines/bytes returns None
    assert_eq!(get_start_index(&TakeNum(0), 1), None);

    // Taking any lines/bytes from an empty file returns None
    assert_eq!(get_start_index(&TakeNum(1), 0), None);

    // Taking more lines/bytes than is available returns None
    assert_eq!(get_start_index(&TakeNum(2), 1), None);

    // When starting line/byte is less than total lines/bytes,
    // return one less than starting number
    assert_eq!(get_start_index(&TakeNum(1), 10), Some(0));
    assert_eq!(get_start_index(&TakeNum(2), 10), Some(1));
    assert_eq!(get_start_index(&TakeNum(3), 10), Some(2));

    // When starting line/byte is negative and less than total,
    // return total - start
    assert_eq!(get_start_index(&TakeNum(-1), 10), Some(9));
    assert_eq!(get_start_index(&TakeNum(-2), 10), Some(8));
    assert_eq!(get_start_index(&TakeNum(-3), 10), Some(7));

    // When the starting line/byte is negative and more than the total,
    // return 0 to print the whole file
    assert_eq!(get_start_index(&TakeNum(-20), 10), Some(0));
}

#[test]
fn test_parse_num() {
    // All integers should be interpreted as negative numbers
    let res = parse_num("3");
    assert!(res.is_ok());
    assert_eq!(res.unwrap(), TakeNum(-3));

    // A leading "+" should result in a positive number
    let res = parse_num("+3");
    assert!(res.is_ok());
    assert_eq!(res.unwrap(), TakeNum(3));

    // An explicit "-" value should result in a negative number
    let res = parse_num("-3");
    assert!(res.is_ok());
    assert_eq!(res.unwrap(), TakeNum(-3));

    // Zero is zero
    let res = parse_num("0");
    assert!(res.is_ok());
    assert_eq!(res.unwrap(), TakeNum(0));

    // Plus zero is special
    let res = parse_num("+0");
    assert!(res.is_ok());
    assert_eq!(res.unwrap(), PlusZero);

    // Test boundaries
    let res = parse_num(&i64::MAX.to_string());
    assert!(res.is_ok());
    assert_eq!(res.unwrap(), TakeNum(i64::MIN + 1));

    let res = parse_num(&(i64::MIN + 1).to_string());
    assert!(res.is_ok());
    assert_eq!(res.unwrap(), TakeNum(i64::MIN + 1));

    let res = parse_num(&format!("+{}", i64::MAX));
    assert!(res.is_ok());
    assert_eq!(res.unwrap(), TakeNum(i64::MAX));

    let res = parse_num(&i64::MIN.to_string());
    assert!(res.is_ok());
    assert_eq!(res.unwrap(), TakeNum(i64::MIN));

    // A floating-point value is invalid
    let res = parse_num("3.14");
    assert!(res.is_err());
    assert_eq!(res.unwrap_err().to_string(), "3.14");

    // Any non-integer string is invalid
    let res = parse_num("foo");
    assert!(res.is_err());
    assert_eq!(res.unwrap_err().to_string(), "foo");
}

#[test]
fn parse_num_rejects_malformed_and_out_of_range() {
    for bad in ["", "+", "-", " 3", "3 ", "+-3", "1e3", "9223372036854775808",
        "-9223372036854775809", "+9223372036854775808"]
    {
        assert_eq!(parse_num(bad), Err(bad.to_string()));
    }
}

#[test]
fn parse_num_keeps_explicit_signs() {
    assert_eq!(parse_num("-0"), Ok(TakeNum(0)));
    assert_eq!(parse_num("+00"), Ok(TakeNum(0)));
    assert_eq!(parse_num("007"), Ok(TakeNum(-7)));
    assert_eq!(parse_num("+10"), Ok(TakeNum(10)));
    assert_eq!(parse_num("-10"), Ok(TakeNum(-10)));
    // Same text, same selector.
    assert_eq!(parse_num("42"), parse_num("42"));
}

#[test]
fn from_end_start_never_grows_and_stops_at_zero() {
    let mut previous = get_start_index(&TakeNum(-1), 7).unwrap();
    for n in 2..20i64 {
        let start = get_start_index(&TakeNum(-n), 7).unwrap();
        assert!(start <= previous);
        previous = start;
    }
    assert_eq!(previous, 0);
    assert_eq!(get_start_index(&TakeNum(-7), 7), Some(0));
    assert_eq!(get_start_index(&TakeNum(i64::MIN), 7), Some(0));
    assert_eq!(get_start_index(&TakeNum(i64::MIN), 0), Some(0));
}

#[test]
fn from_start_is_none_past_the_end() {
    for n in 1..12i64 {
        let start = get_start_index(&TakeNum(n), 10);
        if n > 10 {
            assert_eq!(start, None);
        } else {
            assert_eq!(start, Some((n - 1) as u64));
        }
    }
    assert_eq!(get_start_index(&TakeNum(i64::MAX), i64::MAX), Some((i64::MAX - 1) as u64));
}
