use rtools::cal::{check_month, check_year, month_by_name, parse_month, parse_year};

#[test]
fn test_parse_year() {
    let res = parse_year("1");
    assert!(res.is_ok());
    assert_eq!(res.unwrap(), 1i32);

    let res = parse_year("9999");
    assert!(res.is_ok());
    assert_eq!(res.unwrap(), 9999i32);

    let res = parse_year("0");
    assert!(res.is_err());
    assert_eq!(
        res.unwrap_err().to_string(),
        "year \"0\" not in the range 1 through 9999"
    );

    let res = parse_year("10000");
    assert!(res.is_err());
    assert_eq!(
        res.unwrap_err().to_string(),
        "year \"10000\" not in the range 1 through 9999"
    );

    let res = parse_year("foo");
    assert!(res.is_err());
    assert_eq!(res.unwrap_err().to_string(), "Invalid integer \"foo\"");
}

#[test]
fn test_parse_month() {
    let res = parse_month("1");
    assert!(res.is_ok());
    assert_eq!(res.unwrap(), 1u32);

    let res = parse_month("12");
    assert!(res.is_ok());
    assert_eq!(res.unwrap(), 12u32);

    let res = parse_month("jan");
    assert!(res.is_ok());
    assert_eq!(res.unwrap(), 1u32);

    let res = parse_month("0");
    assert!(res.is_err());
    assert_eq!(
        res.unwrap_err().to_string(),
        "month \"0\" not in the range 1 through 12"
    );

    let res = parse_month("13");
    assert!(res.is_err());
    assert_eq!(
        res.unwrap_err().to_string(),
        "month \"13\" not in the range 1 through 12"
    );

    let res = parse_month("foo");
    assert!(res.is_err());
    assert_eq!(res.unwrap_err().to_string(), "Invalid month \"foo\"");
}

#[test]
fn month_names_need_a_unique_prefix() {
    assert_eq!(month_by_name("jan"), Some(1));
    assert_eq!(month_by_name("sept"), Some(9));
    assert_eq!(month_by_name("december"), Some(12));
    assert_eq!(month_by_name("ju"), None);
    assert_eq!(month_by_name("ma"), None);
    assert_eq!(month_by_name(""), None);
    assert_eq!(month_by_name("Jan"), None);
    assert_eq!(parse_month("JUL"), Ok(7));
    assert_eq!(parse_month("Ju"), Err("Invalid month \"Ju\"".to_string()));
}

#[test]
fn checks_on_parsed_values() {
    assert_eq!(check_year(Ok(2024), "2024"), Ok(2024));
    assert_eq!(check_year(Ok(-3), "-3"), Err("year \"-3\" not in the range 1 through 9999".to_string()));
    assert_eq!(check_year(Err("bad".to_string()), "x"), Err("bad".to_string()));
    assert_eq!(check_month(Ok(5), "5", "5"), Ok(5));
    assert_eq!(check_month(Ok(0), "00", "00"), Err("month \"00\" not in the range 1 through 12".to_string()));
    assert_eq!(check_month(Err("no".to_string()), "Feb", "feb"), Ok(2));
    assert_eq!(check_month(Err("no".to_string()), "M", "m"), Err("Invalid month \"M\"".to_string()));
}
