use xkcdfs::comic::{parse_i32, Comic, DateFieldError};

fn dated(year: i32, month: i32, day: i32) -> Comic {
    Comic {
        num: 1,
        day,
        month,
        year,
        link: None,
        news: None,
        alt: String::new(),
        title: String::new(),
        safe_title: String::new(),
        transcript: None,
        img_url: String::new(),
        img_len: None,
    }
}

#[test]
fn isodate_pads_each_field() {
    assert_eq!(dated(2006, 1, 1).isodate(), "2006-01-01");
    assert_eq!(dated(2019, 12, 31).isodate(), "2019-12-31");
    assert_eq!(dated(999, 7, 4).isodate(), "0999-07-04");
}

#[test]
fn time_is_noon_utc() {
    assert_eq!(dated(1970, 1, 1).time(), 43_200);
    assert_eq!(dated(2006, 1, 1).time(), 1_136_116_800);
    assert_eq!(dated(2000, 2, 29).time(), 951_825_600);
    assert_eq!(dated(1969, 12, 31).time(), -43_200);
    assert_eq!(dated(2019, 13, 1).time(), dated(2020, 1, 1).time());
    assert_eq!(dated(2020, 0, 1).time(), dated(2019, 12, 1).time());
    assert_eq!(dated(2020, 1, 32).time(), dated(2020, 2, 1).time());
    assert_eq!(dated(1600, 3, 1).time(), -11_670_868_800);
}

#[test]
fn integers_parse_as_std_does() {
    assert_eq!(parse_i32("42"), Some(42));
    assert_eq!(parse_i32("+7"), Some(7));
    assert_eq!(parse_i32("-2147483648"), Some(i32::MIN));
    assert_eq!(parse_i32("2147483647"), Some(i32::MAX));
    assert_eq!(parse_i32("2147483648"), None);
    assert_eq!(parse_i32(""), None);
    assert_eq!(parse_i32("-"), None);
    assert_eq!(parse_i32("1a"), None);
    assert_eq!(parse_i32("007"), Some(7));
}

#[test]
fn remote_records_become_comics() {
    let build = |day: &str, month: &str, year: &str| {
        Comic::from_api(
            614,
            day,
            month,
            year,
            String::new(),
            "news".to_string(),
            "alt".to_string(),
            "Woodpecker".to_string(),
            "Woodpecker".to_string(),
            None,
            "https://imgs.xkcd.com/comics/woodpecker.png".to_string(),
        )
    };
    let c = build("24", "7", "2009").unwrap();
    assert_eq!((c.num, c.day, c.month, c.year), (614, 24, 7, 2009));
    assert_eq!(c.link, None);
    assert_eq!(c.news, Some("news".to_string()));
    assert_eq!(c.isodate(), "2009-07-24");
    assert_eq!(build("x", "7", "2009").err(), Some(DateFieldError::Day));
    assert_eq!(build("1", "", "2009").err(), Some(DateFieldError::Month));
    assert_eq!(build("1", "2", "MMIX").err(), Some(DateFieldError::Year));
}
