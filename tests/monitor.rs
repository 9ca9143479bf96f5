use status_change_monitor::decimal::{Decimal, Order};
use status_change_monitor::monitor::{
    aggregate, all_members_changed, check_site, finish_pass, join_texts, Notice,
};
use status_change_monitor::notify::{compose, delivery_result, encode, notify, DispatchError, NotifyData};
use status_change_monitor::plan::{Mailgun, Multiple, Plan, Site, Timestamp};
use status_change_monitor::rule::{
    get_element_text, get_element_value, NumberChange, Observation, PresenceOf, RuleError, RuleKind,
};
use status_change_monitor::util::get_opts;

fn site(id: &str, rule_kind: &str) -> Site {
    Site {
        id: id.to_string(),
        description: format!("{} page", id),
        url: format!("https://example.com/{}", id),
        selector: "#s".to_string(),
        rule_kind: rule_kind.to_string(),
        text: None,
        value: None,
        happy_note: format!("{} happened", id),
        disappointing_note: format!("{} not yet", id),
        status_changed: None,
        status_changed_date: None,
    }
}

fn text_site(id: &str, rule_kind: &str, expected: &str) -> Site {
    let mut s = site(id, rule_kind);
    s.text = Some(expected.to_string());
    s
}

fn number_site(id: &str, rule_kind: &str, expected: &str) -> Site {
    let mut s = site(id, rule_kind);
    s.value = Some(Decimal::parse(expected).unwrap());
    s
}

fn finalized(mut s: Site) -> Site {
    s.status_changed = Some(true);
    s.status_changed_date = Some(Timestamp { secs: 1_600_000_000, nanos: 0 });
    s
}

fn seen(present: bool, text: &str) -> Observation {
    Observation { present, text: text.to_string() }
}

fn mailgun() -> Mailgun {
    Mailgun {
        from: "monitor@example.com".to_string(),
        to: "me@example.com".to_string(),
        domain: "mg.example.com".to_string(),
        api_key: "key-123".to_string(),
    }
}

fn plan(sites: Vec<Site>, multiples: Vec<Multiple>) -> Plan {
    Plan { sites, mailgun: mailgun(), multiples }
}

fn group(ids: &[&str]) -> Multiple {
    Multiple {
        ids: ids.iter().map(|s| s.to_string()).collect(),
        status_changed: None,
        status_changed_date: None,
    }
}

fn contains(hay: &[u8], needle: &[u8]) -> bool {
    hay.windows(needle.len()).any(|w| w == needle)
}

#[test]
fn presence_of_text_match_finalizes_and_sends_happy_note() {
    let mut s = text_site("shop", "presence of text", "SOLD");
    let r = check_site(&mut s, &seen(true, "SOLD"));
    assert_eq!(r, Ok(true));
    assert_eq!(s.status_changed, Some(true));
    assert!(s.status_changed_date.is_some());
    let mut p = plan(vec![s], vec![]);
    let notices = finish_pass(&mut p);
    assert_eq!(notices.len(), 1);
    assert!(notices[0].changed);
    let req = notify(notices[0].changed, &notices[0].data, &p.mailgun);
    assert!(contains(&req.body, b"shop happened"));
    assert!(!contains(&req.body, b"shop not yet"));
}

#[test]
fn presence_of_text_mismatch_sends_disappointing_note() {
    let mut s = text_site("shop", "presence of text", "SOLD");
    let r = check_site(&mut s, &seen(true, "Available"));
    assert_eq!(r, Ok(false));
    assert_eq!(s.status_changed, None);
    assert_eq!(s.status_changed_date, None);
    let mut p = plan(vec![s], vec![]);
    let notices = finish_pass(&mut p);
    assert_eq!(notices.len(), 1);
    assert!(!notices[0].changed);
    let req = notify(notices[0].changed, &notices[0].data, &p.mailgun);
    assert!(contains(&req.body, b"shop not yet"));
}

#[test]
fn group_changes_when_last_member_changes() {
    let a = finalized(site("a", "presence of element"));
    let mut b = site("b", "presence of element");
    assert!(a.status_changed == Some(true));
    assert_eq!(check_site(&mut b, &seen(true, "")), Ok(true));
    let mut p = plan(vec![a, b], vec![group(&["a", "b"])]);
    let notices = finish_pass(&mut p);
    assert_eq!(notices.len(), 1);
    assert!(notices[0].changed);
    assert_eq!(notices[0].data.happy_note, "a happened\nb happened");
    assert_eq!(notices[0].data.description, "a page, b page");
    assert_eq!(p.multiples[0].status_changed, Some(true));
    assert!(p.multiples[0].status_changed_date.is_some());
}

#[test]
fn finalized_site_is_not_inspected_again() {
    let mut s = finalized(text_site("shop", "presence of text", "SOLD"));
    assert!(!s.needs_inspection());
    let before = s.status_changed_date;
    assert_eq!(check_site(&mut s, &seen(false, "")), Ok(false));
    assert_eq!(s.status_changed, Some(true));
    assert_eq!(s.status_changed_date, before);
    let mut p = plan(vec![s], vec![]);
    let notices = finish_pass(&mut p);
    assert!(notices[0].changed);
    assert_eq!(notices[0].data.happy_note, "shop happened");
}

#[test]
fn presence_and_absence_rules_disagree() {
    let s = text_site("x", "presence of text", "SOLD");
    for o in [seen(true, "SOLD"), seen(true, "other"), seen(false, "")] {
        let pe = RuleKind::PresenceOfElement.evaluate(&s, &o).unwrap();
        let ae = RuleKind::AbsenceOfElement.evaluate(&s, &o).unwrap();
        let pt = RuleKind::PresenceOfText.evaluate(&s, &o).unwrap();
        let at = RuleKind::AbsenceOfText.evaluate(&s, &o).unwrap();
        assert_ne!(pe, ae);
        assert_ne!(pt, at);
    }
    let no_text = site("y", "presence of text");
    assert!(!RuleKind::PresenceOfText.evaluate(&no_text, &seen(true, "SOLD")).unwrap());
    assert!(RuleKind::AbsenceOfText.evaluate(&no_text, &seen(true, "SOLD")).unwrap());
}

#[test]
fn numeric_comparisons_on_equal_values() {
    let s = number_site("n", "==", "10");
    let o = seen(true, "10");
    assert!(RuleKind::EqualThan.evaluate(&s, &o).unwrap());
    assert!(!RuleKind::MoreThan.evaluate(&s, &o).unwrap());
    assert!(!RuleKind::LessThan.evaluate(&s, &o).unwrap());
    assert!(RuleKind::MoreOrEqualThan.evaluate(&s, &o).unwrap());
    assert!(RuleKind::LessOrEqualThan.evaluate(&s, &o).unwrap());
}

#[test]
fn numeric_comparisons_across_scales() {
    let s = number_site("n", ">", "10");
    assert!(RuleKind::MoreThan.evaluate(&s, &seen(true, "10.5")).unwrap());
    assert!(!RuleKind::MoreThan.evaluate(&s, &seen(true, "9.99")).unwrap());
    assert!(RuleKind::EqualThan.evaluate(&s, &seen(true, "10.000")).unwrap());
    assert!(RuleKind::LessThan.evaluate(&s, &seen(true, "-11")).unwrap());
    assert!(NumberChange("<=".to_string()).evaluate(&s, &seen(true, "10.0")).unwrap());
    assert!(NumberChange("??".to_string()).evaluate(&s, &seen(true, "10")).unwrap());
}

#[test]
fn numeric_rule_without_value_or_element_is_false() {
    let s = site("n", ">");
    assert_eq!(RuleKind::MoreThan.evaluate(&s, &seen(true, "5")), Ok(false));
    let s = number_site("n", ">", "1");
    assert_eq!(RuleKind::MoreThan.evaluate(&s, &seen(false, "5")), Ok(false));
}

#[test]
fn numeric_rule_on_text_is_an_error() {
    let mut s = number_site("n", ">", "1");
    assert_eq!(RuleKind::MoreThan.evaluate(&s, &seen(true, "N/A")), Err(RuleError::NotANumber));
    assert_eq!(check_site(&mut s, &seen(true, "N/A")), Err(RuleError::NotANumber));
    assert_eq!(s.status_changed, None);
}

#[test]
fn unknown_rule_kind_is_skipped() {
    let mut s = site("u", "sometimes");
    assert_eq!(check_site(&mut s, &seen(true, "x")), Err(RuleError::UnknownRule));
    assert_eq!(s.status_changed, None);
}

#[test]
fn rule_kinds_parse() {
    assert_eq!(RuleKind::from_str("absence of element"), Some(RuleKind::AbsenceOfElement));
    assert_eq!(RuleKind::from_str("absence of text"), Some(RuleKind::AbsenceOfText));
    assert_eq!(RuleKind::from_str("presence of element"), Some(RuleKind::PresenceOfElement));
    assert_eq!(RuleKind::from_str("presence of text"), Some(RuleKind::PresenceOfText));
    assert_eq!(RuleKind::from_str(">"), Some(RuleKind::MoreThan));
    assert_eq!(RuleKind::from_str(">="), Some(RuleKind::MoreOrEqualThan));
    assert_eq!(RuleKind::from_str("<"), Some(RuleKind::LessThan));
    assert_eq!(RuleKind::from_str("<="), Some(RuleKind::LessOrEqualThan));
    assert_eq!(RuleKind::from_str("=="), Some(RuleKind::EqualThan));
    assert_eq!(RuleKind::from_str("Presence of text"), None);
    assert_eq!(RuleKind::from_str(""), None);
}

#[test]
fn presence_of_struct_evaluates() {
    let s = text_site("x", "presence of text", "SOLD");
    assert!(PresenceOf(true, true).evaluate(&s, &seen(true, "SOLD")));
    assert!(!PresenceOf(true, true).evaluate(&s, &seen(false, "SOLD")));
    assert!(PresenceOf(false, false).evaluate(&s, &seen(false, "")));
}

#[test]
fn decimals_parse() {
    let d = Decimal::parse("-3.25").unwrap();
    assert_eq!((d.mantissa(), d.scale()), (-325, 2));
    let d = Decimal::parse("+0.5").unwrap();
    assert_eq!((d.mantissa(), d.scale()), (5, 1));
    let d = Decimal::parse(".5").unwrap();
    assert_eq!((d.mantissa(), d.scale()), (5, 1));
    let d = Decimal::parse("5.").unwrap();
    assert_eq!((d.mantissa(), d.scale()), (5, 0));
    let d = Decimal::parse("123456789012345678").unwrap();
    assert_eq!(d.mantissa(), 123456789012345678);
    assert!(Decimal::parse("1234567890123456789").is_none());
    assert!(Decimal::parse("").is_none());
    assert!(Decimal::parse(".").is_none());
    assert!(Decimal::parse("-").is_none());
    assert!(Decimal::parse("1e5").is_none());
    assert!(Decimal::parse("1.2.3").is_none());
    assert!(Decimal::parse("$10").is_none());
}

#[test]
fn decimals_compare() {
    let a = Decimal::parse("1.50").unwrap();
    let b = Decimal::parse("1.5").unwrap();
    let c = Decimal::parse("2").unwrap();
    assert_eq!(a.compare(&b), Order::Equal);
    assert_eq!(a.compare(&c), Order::Less);
    assert_eq!(c.compare(&a), Order::Greater);
    assert!(Decimal::new(1, 19).is_none());
    let big = Decimal::new(i64::MAX, 0).unwrap();
    let small = Decimal::new(i64::MIN, 18).unwrap();
    assert_eq!(big.compare(&small), Order::Greater);
}

#[test]
fn element_text_is_first_child_trimmed() {
    let t = get_element_text(&vec!["  SOLD \n".to_string(), "other".to_string()]);
    assert_eq!(t, "SOLD");
    assert_eq!(get_element_text(&vec![]), "");
    assert_eq!(get_element_value(" 42 ").err(), Some(RuleError::NotANumber));
    assert_eq!(get_element_value("42").unwrap().mantissa(), 42);
}

#[test]
fn group_with_unfinished_member_waits() {
    let a = finalized(site("a", "presence of element"));
    let b = site("b", "presence of element");
    let sites = vec![a, b];
    let (changed, data) = aggregate(&group(&["a", "b"]), &sites);
    assert!(!changed);
    assert_eq!(data.happy_note, "a happened\nb happened");
    assert_eq!(data.disappointing_note, "a happened\nb not yet");
}

#[test]
fn group_with_missing_or_no_member_never_changes() {
    let sites = vec![finalized(site("a", "presence of element"))];
    assert!(all_members_changed(&vec!["a".to_string()], &sites));
    assert!(!all_members_changed(&vec!["a".to_string(), "zzz".to_string()], &sites));
    assert!(!all_members_changed(&vec![], &sites));
}

#[test]
fn grouped_sites_are_not_notified_alone() {
    let sites = vec![
        site("a", "presence of element"),
        site("solo", "presence of element"),
        site("b", "presence of element"),
    ];
    let mut p = plan(sites, vec![group(&["b", "a"])]);
    let notices: Vec<Notice> = finish_pass(&mut p);
    assert_eq!(notices.len(), 2);
    assert_eq!(notices[0].data.description, "solo page");
    assert_eq!(notices[1].data.description, "a page, b page");
    assert!(!notices[1].changed);
    assert_eq!(p.multiples[0].status_changed, None);
}

#[test]
fn group_date_is_kept_once_recorded() {
    let a = finalized(site("a", "presence of element"));
    let mut g = group(&["a"]);
    g.status_changed = Some(true);
    g.status_changed_date = Some(Timestamp { secs: 5, nanos: 6 });
    let mut p = plan(vec![a], vec![g]);
    let notices = finish_pass(&mut p);
    assert!(notices[0].changed);
    assert_eq!(p.multiples[0].status_changed_date, Some(Timestamp { secs: 5, nanos: 6 }));
}

#[test]
fn join_puts_separator_between_parts() {
    assert_eq!(join_texts(&vec![], ", "), "");
    assert_eq!(join_texts(&vec!["x".to_string()], ", "), "x");
    assert_eq!(join_texts(&vec!["x".to_string(), "y".to_string(), "z".to_string()], ", "), "x, y, z");
}

#[test]
fn compose_picks_note_by_status() {
    let d = NotifyData {
        description: "d".to_string(),
        happy_note: "h".to_string(),
        disappointing_note: "s".to_string(),
    };
    assert_eq!(compose(true, &d), ("d".to_string(), "h".to_string()));
    assert_eq!(compose(false, &d), ("d".to_string(), "s".to_string()));
}

#[test]
fn encode_writes_each_field_as_a_part() {
    let fields = vec![
        ("from".to_string(), "a@example.com".to_string()),
        ("html".to_string(), "<b>hi</b>".to_string()),
    ];
    let boundary = b"XyZ123".to_vec();
    let (body, content_type) = encode(&fields, &boundary);
    assert_eq!(content_type, "multipart/form-data; boundary=XyZ123");
    assert!(body.starts_with(b"--XyZ123\r\n"));
    assert!(body.ends_with(b"--XyZ123--"));
    assert!(contains(&body, b"name=\"from\""));
    assert!(contains(&body, b"\r\n\r\n<b>hi</b>\r\n"));
}

#[test]
fn send_builds_authenticated_request() {
    let m = mailgun();
    let req = m.send("Subject line", "Body text");
    assert_eq!(req.url, "https://api.mailgun.net/v3/mg.example.com/messages");
    assert_eq!(req.user, "api");
    assert_eq!(req.password, "key-123");
    assert_eq!(req.boundary.len(), 68);
    let expected_type = format!("multipart/form-data; boundary={}", String::from_utf8(req.boundary.clone()).unwrap());
    assert_eq!(req.content_type, expected_type);
    assert!(contains(&req.body, b"Subject line"));
    assert!(contains(&req.body, b"me@example.com"));
    assert!(contains(&req.body, &req.boundary));
}

#[test]
fn delivery_accepts_only_success_statuses() {
    assert_eq!(delivery_result(200), Ok(()));
    assert_eq!(delivery_result(204), Ok(()));
    assert_eq!(delivery_result(404), Err(DispatchError::Rejected(404)));
    assert_eq!(delivery_result(500), Err(DispatchError::Rejected(500)));
}

#[test]
fn command_line_takes_plan_and_log() {
    let args = vec!["monitor".to_string(), "plan.json".to_string(), "run.log".to_string()];
    let o = get_opts(&args).unwrap();
    assert_eq!(o.plan, "plan.json");
    assert_eq!(o.log, "run.log");
    assert!(get_opts(&vec!["monitor".to_string()]).is_none());
    assert!(get_opts(&vec!["monitor".to_string(), "a".to_string(), "b".to_string(), "c".to_string()]).is_none());
}

#[test]
fn options_module_reads_the_same_command_line() {
    let args = vec!["monitor".to_string(), "p.json".to_string(), "l.log".to_string()];
    let o = status_change_monitor::opts::get(&args).unwrap();
    assert_eq!((o.plan.as_str(), o.log.as_str()), ("p.json", "l.log"));
    assert!(status_change_monitor::opts::get(&vec![]).is_none());
}

#[test]
fn unknown_rule_kind_site_gets_no_notification() {
    let sites = vec![site("odd", "sometimes"), site("ok", "presence of element")];
    let mut p = plan(sites, vec![]);
    let notices = finish_pass(&mut p);
    assert_eq!(notices.len(), 1);
    assert_eq!(notices[0].data.description, "ok page");
}

#[test]
fn group_status_is_recomputed_each_pass() {
    let a = site("a", "presence of element");
    let mut g = group(&["a"]);
    g.status_changed = Some(true);
    g.status_changed_date = Some(Timestamp { secs: 5, nanos: 6 });
    let mut p = plan(vec![a], vec![g]);
    let notices = finish_pass(&mut p);
    assert!(!notices[0].changed);
    assert_eq!(p.multiples[0].status_changed, Some(false));
    assert_eq!(p.multiples[0].status_changed_date, None);
}

#[test]
fn encode_writes_the_exact_multipart_layout() {
    let fields = vec![
        ("from".to_string(), "a@example.com".to_string()),
        ("html".to_string(), "é".to_string()),
    ];
    let (body, _) = encode(&fields, &b"B0".to_vec());
    let expected = "--B0\r\nContent-Type: text/plain\r\nContent-Disposition: form-data; name=\"from\"\r\n\r\na@example.com\r\n\
--B0\r\nContent-Type: text/plain\r\nContent-Disposition: form-data; name=\"html\"\r\n\r\né\r\n--B0--";
    assert_eq!(String::from_utf8(body).unwrap(), expected);
    let (empty, _) = encode(&vec![], &b"B0".to_vec());
    assert_eq!(empty, b"--B0--".to_vec());
}

#[test]
fn element_text_trims_unicode_white_space() {
    let t = get_element_text(&vec!["\u{3000}\u{a0} SOLD OUT\t\u{2029}".to_string()]);
    assert_eq!(t, "SOLD OUT");
    assert_eq!(get_element_text(&vec![" \n ".to_string()]), "");
}

#[test]
fn encode_turns_line_breaks_in_names_into_spaces() {
    let fields = vec![("a\r\nb".to_string(), "x\r\ny".to_string())];
    let (body, _) = encode(&fields, &b"B".to_vec());
    let expected = "--B\r\nContent-Type: text/plain\r\nContent-Disposition: form-data; name=\"a  b\"\r\n\r\nx\r\ny\r\n--B--";
    assert_eq!(String::from_utf8(body).unwrap(), expected);
}

#[test]
fn decimals_write_back_as_text() {
    for (text, written) in [
        ("10", "10"),
        ("-3.25", "-3.25"),
        ("0.05", "0.05"),
        ("-.5", "-0.5"),
        ("+7.", "7"),
        ("1.50", "1.50"),
        ("0", "0"),
        ("-0.000", "0.000"),
    ] {
        let d = Decimal::parse(text).unwrap();
        assert_eq!(d.to_text(), written);
        let back = Decimal::parse(&d.to_text()).unwrap();
        assert_eq!((back.mantissa(), back.scale()), (d.mantissa(), d.scale()));
    }
    assert_eq!(Decimal::new(-123, 5).unwrap().to_text(), "-0.00123");
}
