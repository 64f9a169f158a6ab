use sem_reg::cloud_store::night_light::{
    ClockTime, ClockTimeFrame, ClockTimeOrFrameFromStrError, Meridiem,
};

#[test]
fn clock_time_frame_from_str() {
    assert_eq!(
        "20:21-6:00".parse::<ClockTimeFrame>(),
        Ok(ClockTimeFrame {
            start: ClockTime::from_h_min_with_meridiem(8, 21, Meridiem::Pm).unwrap(),
            end: ClockTime::from_h_min_with_meridiem(6, 0, Meridiem::Am).unwrap()
        })
    );
    assert_eq!(
        "08:00pm-05:45AM".parse::<ClockTimeFrame>(),
        Ok(ClockTimeFrame {
            start: ClockTime::from_h_min(20, 00).unwrap(),
            end: ClockTime::from_h_min(5, 45).unwrap()
        })
    );
    assert_eq!(
        "9:59-9:59am".parse::<ClockTimeFrame>(),
        Ok(ClockTimeFrame {
            start: ClockTime::from_h_min_with_meridiem(9, 59, Meridiem::Am).unwrap(),
            end: ClockTime::from_h_min(9, 59).unwrap()
        })
    );

    assert!("9:59-9:59am-".parse::<ClockTimeFrame>().is_err());
    assert!("10:00 - 10:00".parse::<ClockTimeFrame>().is_err());
    assert!("10.00-10.00".parse::<ClockTimeFrame>().is_err());
    assert!("10:00-10:60".parse::<ClockTimeFrame>().is_err());
    assert!("10:00-24:00".parse::<ClockTimeFrame>().is_err());
}

#[test]
fn clock_time_from_h_min_checks_the_range() {
    assert!(ClockTime::from_h_min(23, 59).is_some());
    assert!(ClockTime::from_h_min(24, 0).is_none());
    assert!(ClockTime::from_h_min(0, 60).is_none());
    let time = ClockTime::from_h_min(7, 5).unwrap();
    assert_eq!(time.hour(), 7);
    assert_eq!(time.minute(), 5);
    assert!(!time.is_midnight());
    assert!(ClockTime::midnight().is_midnight());
}

#[test]
fn clock_time_meridiem_conversions() {
    assert_eq!(
        ClockTime::from_h_min_with_meridiem(12, 0, Meridiem::Am),
        ClockTime::from_h_min(0, 0)
    );
    assert_eq!(
        ClockTime::from_h_min_with_meridiem(12, 30, Meridiem::Pm),
        ClockTime::from_h_min(12, 30)
    );
    assert_eq!(
        ClockTime::from_h_min_with_meridiem(11, 59, Meridiem::Pm),
        ClockTime::from_h_min(23, 59)
    );
    assert!(ClockTime::from_h_min_with_meridiem(13, 0, Meridiem::Am).is_none());

    let (hour, meridiem) = ClockTime::from_h_min(0, 10).unwrap().hour_meridiem();
    assert_eq!(hour, 12);
    assert!(meridiem == Meridiem::Am);
    let (hour, meridiem) = ClockTime::from_h_min(12, 10).unwrap().hour_meridiem();
    assert_eq!(hour, 12);
    assert!(meridiem == Meridiem::Pm);
    let (hour, meridiem) = ClockTime::from_h_min(18, 0).unwrap().hour_meridiem();
    assert_eq!(hour, 6);
    assert!(meridiem == Meridiem::Pm);
}

#[test]
fn clock_time_format() {
    let time = ClockTime::from_h_min(20, 5).unwrap();
    assert_eq!(time.format(false), "20:05");
    assert_eq!(time.format(true), "08:05pm");
    assert_eq!(ClockTime::midnight().format(true), "12:00am");

    let frame = ClockTimeFrame {
        start: time,
        end: ClockTime::from_h_min(6, 30).unwrap(),
    };
    assert_eq!(frame.format(false), "20:05-06:30");
    assert_eq!(frame.format(true), "08:05pm-06:30am");
}

#[test]
fn clock_time_format_parses_back() {
    for (hour, minute) in [(0, 0), (9, 7), (12, 0), (12, 59), (13, 1), (23, 59)] {
        let time = ClockTime::from_h_min(hour, minute).unwrap();
        assert_eq!(ClockTime::parse_str(&time.format(false)), Ok(time));
        assert_eq!(ClockTime::parse_str(&time.format(true)), Ok(time));
    }
}

#[test]
fn clock_time_from_str_errors() {
    assert_eq!("".parse::<ClockTime>(), Err(ClockTimeOrFrameFromStrError));
    assert_eq!(":".parse::<ClockTime>(), Err(ClockTimeOrFrameFromStrError));
    assert_eq!("7".parse::<ClockTime>(), Err(ClockTimeOrFrameFromStrError));
    assert_eq!("7:5x".parse::<ClockTime>(), Err(ClockTimeOrFrameFromStrError));
    assert_eq!("13:00pm".parse::<ClockTime>(), Err(ClockTimeOrFrameFromStrError));
    assert_eq!("-1:00".parse::<ClockTime>(), Err(ClockTimeOrFrameFromStrError));
    assert_eq!("+7:05".parse::<ClockTime>(), ClockTime::from_h_min(7, 5).ok_or(ClockTimeOrFrameFromStrError));
    assert_eq!("7:05PM".parse::<ClockTime>(), ClockTime::from_h_min(19, 5).ok_or(ClockTimeOrFrameFromStrError));
}
