use dtinfer::infer_best;

#[test]
fn year() {
    let pattern = infer_best("2020").unwrap();
    assert_eq!(pattern, "%Y");
}

#[test]
fn year_month() {
    let pattern = infer_best("2020-10").unwrap();
    assert_eq!(pattern, "%Y-%m");
}

#[test]
fn year_month_day() {
    let pattern = infer_best("2020/10/23").unwrap();
    assert_eq!(pattern, "%Y/%m/%d");
}

#[test]
fn iso_date_hour() {
    let pattern = infer_best("2020-10-09T15").unwrap();
    assert_eq!(pattern, "%Y-%m-%dT%H");
}

#[test]
fn iso_8601_date_time() {
    let pattern = infer_best("2020-10-09 15:24:50").unwrap();
    assert_eq!(pattern, "%Y-%m-%d %H:%M:%S");
}

#[test]
fn invalid_format() {
    let pattern = infer_best("invalid");
    assert_eq!(pattern, None);
}

#[test]
fn iso_8601_date_only() {
    let pattern = infer_best("2020-10-09").unwrap();
    assert_eq!(pattern, "%Y-%m-%d");
}

#[test]
fn iso_date_block() {
    let pattern = infer_best("20201009").unwrap();
    assert_eq!(pattern, "%Y%m%d");
}

#[test]
fn time_zone() {
    let pattern = infer_best("2020-10-09 15:24:50+00:00").unwrap();
    assert_eq!(pattern, "%Y-%m-%d %H:%M:%S%z");
}
