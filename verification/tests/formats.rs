use openlibrary::format::{
    decode_date_dmy, decode_date_mdy, decode_datetime, encode_date_dmy, encode_date_mdy,
    encode_datetime, Date, DateTime,
};

#[test]
fn test_datetime_round_trip_exact() {
    let input = "2021/09/06,00:44:47";
    let dt = decode_datetime(input).unwrap();
    assert_eq!(
        dt,
        DateTime { year: 2021, month: 9, day: 6, hour: 0, minute: 44, second: 47 }
    );
    assert_eq!(encode_datetime(&dt), input);
}

#[test]
fn test_datetime_rejects_bad_layout() {
    assert!(decode_datetime("2021-09-06,00:44:47").is_none());
    assert!(decode_datetime("2021/09/06 00:44:47").is_none());
    assert!(decode_datetime("2021/09/06,00:44").is_none());
    assert!(decode_datetime("21/09/06,00:44:47").is_none());
    assert!(decode_datetime("").is_none());
}

#[test]
fn test_datetime_rejects_bad_calendar() {
    assert!(decode_datetime("2021/13/06,00:44:47").is_none());
    assert!(decode_datetime("2021/00/06,00:44:47").is_none());
    assert!(decode_datetime("2021/09/31,00:44:47").is_none());
    assert!(decode_datetime("2021/09/06,24:00:00").is_none());
    assert!(decode_datetime("2021/09/06,00:60:00").is_none());
    assert!(decode_datetime("2021/09/06,00:00:60").is_none());
}

#[test]
fn test_datetime_leap_years() {
    assert!(decode_datetime("2020/02/29,12:00:00").is_some());
    assert!(decode_datetime("2021/02/29,12:00:00").is_none());
    assert!(decode_datetime("2000/02/29,12:00:00").is_some());
    assert!(decode_datetime("1900/02/29,12:00:00").is_none());
}

#[test]
fn test_date_dmy_round_trip() {
    let input = "06 September 2021";
    let d = decode_date_dmy(input).unwrap();
    assert_eq!(d, Date { year: 2021, month: 9, day: 6 });
    assert_eq!(encode_date_dmy(&d), input);

    let input = "31 May 1999";
    let d = decode_date_dmy(input).unwrap();
    assert_eq!(d, Date { year: 1999, month: 5, day: 31 });
    assert_eq!(encode_date_dmy(&d), input);
}

#[test]
fn test_date_dmy_rejects_bad_inputs() {
    assert!(decode_date_dmy("6 September 2021").is_none());
    assert!(decode_date_dmy("06 Septembre 2021").is_none());
    assert!(decode_date_dmy("06 September 21").is_none());
    assert!(decode_date_dmy("31 February 2021").is_none());
    assert!(decode_date_dmy("September 06, 2021").is_none());
}

#[test]
fn test_date_mdy_round_trip() {
    let input = "September 06, 2021";
    let d = decode_date_mdy(input).unwrap();
    assert_eq!(d, Date { year: 2021, month: 9, day: 6 });
    assert_eq!(encode_date_mdy(&d), input);

    let input = "May 31, 1999";
    let d = decode_date_mdy(input).unwrap();
    assert_eq!(d, Date { year: 1999, month: 5, day: 31 });
    assert_eq!(encode_date_mdy(&d), input);
}

#[test]
fn test_date_mdy_rejects_bad_inputs() {
    assert!(decode_date_mdy("September 6, 2021").is_none());
    assert!(decode_date_mdy("September 06 2021").is_none());
    assert!(decode_date_mdy("06 September 2021").is_none());
    assert!(decode_date_mdy("February 30, 2021").is_none());
}

#[test]
fn test_all_month_names_round_trip() {
    let inputs = vec![
        "01 January 2000",
        "02 February 2000",
        "03 March 2000",
        "04 April 2000",
        "05 May 2000",
        "06 June 2000",
        "07 July 2000",
        "08 August 2000",
        "09 September 2000",
        "10 October 2000",
        "11 November 2000",
        "12 December 2000",
    ];
    for (i, input) in inputs.iter().enumerate() {
        let d = decode_date_dmy(input).unwrap();
        assert_eq!(d.month as usize, i + 1);
        assert_eq!(&encode_date_dmy(&d), input);
    }
}
