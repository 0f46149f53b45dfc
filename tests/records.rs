use nginx_logs_generator::date::Date;
use nginx_logs_generator::log::{FieldChoices, Log};
use nginx_logs_generator::run::next_record;

#[test]
fn log_has_correct_format() {
    let date = Date::new(2021, 12, 16, 0, 7, 2);
    let log = Log::new(date, FieldChoices::fixed());
    assert_eq!(
        r#"8.8.8.8 - - [16/Dec/2021:00:07:02 +0100] "GET /index.html HTTP/1.1" 200 118 "http://foo-referer/login.asp" "Mozilla/5.0 (X11; Ubuntu; Linux x86_64; rv:71.0) Gecko/20100101 Firefox/71.0""#,
        log.str()
    );
}

#[test]
fn log_renders_every_pool_end() {
    let choices = FieldChoices {
        remote_addr: [0, 10, 255, 192],
        remote_user: 1,
        request: 2,
        status: 4,
        body_bytes_sent: 4,
        http_referer: 0,
        http_user_agent: 2,
    };
    let log = Log::new(Date::new(5, 3, 7, 1, 2, 3), choices);
    assert_eq!(
        r#"0.10.255.192 - root [07/Mar/0005:01:02:03 +0100] "POST /foo/admin/formLogin HTTP/1.1" 405 125837 "-" "Mozilla/5.0 (Windows NT 10.0; Win64; x64) AppleWebKit/537.36 (KHTML, like Gecko) Chrome/60.0.3112.113 Safari/537.36""#,
        log.str()
    );
}

#[test]
fn log_writes_years_before_zero_with_a_sign() {
    let log = Log::new(Date::new(-44, 3, 15, 12, 0, 0), FieldChoices::fixed());
    assert!(log.str().contains("[15/Mar/-0044:12:00:00 +0100]"));
}

#[test]
fn random_record_uses_pool_values() {
    let choices = FieldChoices::random();
    assert!(choices.remote_user < 2);
    assert!(choices.request < 3);
    assert!(choices.status < 5);
    assert!(choices.body_bytes_sent < 5);
    assert!(choices.http_referer < 2);
    assert!(choices.http_user_agent < 3);
    let line = Log::new(Date::new(2022, 1, 1, 0, 0, 0), choices).str();
    assert!(line.contains(" [01/Jan/2022:00:00:00 +0100] \""));
    assert!(line.ends_with('"'));
}

#[test]
fn next_record_ends_line_and_advances_clock() {
    let mut date = Date::new(2021, 12, 16, 0, 7, 2);
    let first = next_record(&mut date, FieldChoices::fixed());
    assert_eq!(Date::new(2021, 12, 16, 0, 7, 3), date);
    assert!(first.starts_with("8.8.8.8 - - [16/Dec/2021:00:07:02 +0100] "));
    assert!(first.ends_with("Firefox/71.0\"\n"));
    let second = next_record(&mut date, FieldChoices::fixed());
    assert!(second.contains("[16/Dec/2021:00:07:03 +0100]"));
}
