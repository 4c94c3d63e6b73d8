use codex_pacer::dates::{
    add_months_clamped, billing_cycle_start, date_from_ymd, days_in_month, format_date,
    parse_date_field, CalendarDate,
};
use codex_pacer::subscriptions::{
    canonical_subscription_currency, migrated_plan_type, migration_service_period,
    normalize_billing_mode, normalize_date_field, normalize_subscription_dates,
    normalize_subscription_details, stored_billing_anchor_day,
};

fn date(year: i32, month: u32, day: u32) -> CalendarDate {
    CalendarDate { year, month, day }
}

#[test]
fn subscription_record_rejects_invalid_dates() {
    let error = normalize_subscription_dates("2026-04-16", "2026-05-16", "2026-04-16")
        .expect_err("reject invalid date range");

    assert!(error.contains("serviceEnd"));
}

#[test]
fn subscription_record_canonicalizes_dates_and_rejects_invalid_amounts() {
    let created = normalize_subscription_dates("2026-4-6", "2026-4-6", "2026-5-6").expect("dates");
    assert_eq!(created.paid_at, "2026-04-06");
    assert_eq!(created.service_start, "2026-04-06");
    assert_eq!(created.service_end, "2026-05-06");
    let details = normalize_subscription_details("monthly_recurring", "plus", &None).expect("details");
    assert_eq!(details.billing_mode, "monthly_recurring");
}

#[test]
fn subscription_records_round_trip() {
    let details =
        normalize_subscription_details("monthly_recurring", "plus", &Some("user@example.com".to_string()))
            .expect("details");
    assert_eq!(details.plan_type, "plus");
    assert_eq!(details.note.as_deref(), Some("user@example.com"));

    let updated =
        normalize_subscription_details("one_time", "pro_x5", &Some("updated@example.com".to_string()))
            .expect("details");
    assert_eq!(updated.plan_type, "pro_x5");
    assert_eq!(updated.billing_mode, "one_time");
}

#[test]
fn date_fields_name_the_field_in_errors() {
    assert_eq!(
        normalize_date_field("paidAt", "2026/04/06"),
        Err("paidAt must use YYYY-MM-DD format.".to_string())
    );
    assert_eq!(
        normalize_date_field("paidAt", "2026-02-30"),
        Err("paidAt must use YYYY-MM-DD format.".to_string())
    );
    assert_eq!(
        normalize_date_field("paidAt", "26-02-03"),
        Err("paidAt must use YYYY-MM-DD format.".to_string())
    );
    assert_eq!(normalize_date_field("paidAt", " 2024-2-29 "), Ok("2024-02-29".to_string()));
    assert_eq!(normalize_date_field("paidAt", "+999-1-1"), Ok("0999-01-01".to_string()));
    assert_eq!(
        normalize_date_field("paidAt", &normalize_date_field("paidAt", "2026-4-6").unwrap()),
        Ok("2026-04-06".to_string())
    );
    assert_eq!(
        normalize_subscription_dates("x", "2026-01-01", "2026-02-01").unwrap_err(),
        date_error("paidAt")
    );
    assert_eq!(
        normalize_subscription_dates("2026-01-01", "2026-01-01", "nope").unwrap_err(),
        date_error("serviceEnd")
    );
}

fn date_error(field: &str) -> String {
    format!("{field} must use YYYY-MM-DD format.")
}

#[test]
fn billing_mode_plan_and_note_are_normalized() {
    assert_eq!(normalize_billing_mode(" one_time "), Ok("one_time".to_string()));
    assert_eq!(
        normalize_billing_mode("yearly"),
        Err("billingMode must be one_time or monthly_recurring.".to_string())
    );
    let details = normalize_subscription_details("one_time", "   ", &Some("   ".to_string())).unwrap();
    assert_eq!(details.plan_type, "unknown");
    assert_eq!(details.note, None);
    let long = normalize_subscription_details("one_time", &"p".repeat(70), &Some("n".repeat(600)))
        .unwrap();
    assert_eq!(long.plan_type.chars().count(), 64);
    assert_eq!(long.note.unwrap().chars().count(), 500);
    assert!(normalize_subscription_details("weekly", "plus", &None).is_err());
}

#[test]
fn calendar_rules() {
    assert_eq!(days_in_month(2024, 2), 29);
    assert_eq!(days_in_month(2023, 2), 28);
    assert_eq!(days_in_month(1900, 2), 28);
    assert_eq!(days_in_month(2000, 2), 29);
    assert_eq!(days_in_month(2026, 4), 30);
    assert!(date_from_ymd(2026, 13, 1).is_none());
    assert!(date_from_ymd(2026, 4, 31).is_none());
    assert_eq!(date_from_ymd(2026, 4, 30), Some(date(2026, 4, 30)));
    assert_eq!(format_date(date(2026, 4, 6)), "2026-04-06");
    assert_eq!(format_date(date(12345, 1, 2)), "+12345-01-02");
    assert_eq!(format_date(date(-1, 1, 2)), "-0001-01-02");
    assert_eq!(parse_date_field("d", "2026-04-06"), Ok(date(2026, 4, 6)));
}

#[test]
fn months_are_added_with_the_day_clamped() {
    assert_eq!(add_months_clamped(date(2026, 1, 31), 1), date(2026, 2, 28));
    assert_eq!(add_months_clamped(date(2026, 3, 31), -1), date(2026, 2, 28));
    assert_eq!(add_months_clamped(date(2026, 12, 15), 1), date(2027, 1, 15));
    assert_eq!(add_months_clamped(date(2026, 1, 15), -1), date(2025, 12, 15));
}

#[test]
fn billing_cycle_starts_on_the_anchor_day() {
    assert_eq!(billing_cycle_start(date(2026, 5, 17), 15), date(2026, 5, 15));
    assert_eq!(billing_cycle_start(date(2026, 5, 10), 15), date(2026, 4, 15));
    assert_eq!(billing_cycle_start(date(2026, 3, 30), 31), date(2026, 2, 28));
    assert_eq!(billing_cycle_start(date(2026, 5, 1), 0), date(2026, 5, 1));
    let (start, end) = migration_service_period(date(2026, 5, 10), 15);
    assert_eq!(start, "2026-04-15");
    assert_eq!(end, "2026-05-15");
    let (start, end) = migration_service_period(date(2026, 5, 10), -1);
    assert_eq!(start, "2026-04-30");
    assert_eq!(end, "2026-05-30");
}

#[test]
fn profile_values_are_kept_in_range() {
    assert_eq!(stored_billing_anchor_day(0), 1);
    assert_eq!(stored_billing_anchor_day(31), 28);
    assert_eq!(stored_billing_anchor_day(12), 12);
    assert_eq!(migrated_plan_type("  "), "plus");
    assert_eq!(migrated_plan_type(" pro "), "pro");
    assert_eq!(canonical_subscription_currency(), "USD");
}

#[test]
fn init_db_migrates_profile_to_monthly_recurring_record() {
    // The bootstrap profile: plan `plus`, 20 dollars a month, billed on day 1.
    let plan_type = migrated_plan_type("plus");
    let billing_mode = normalize_billing_mode("monthly_recurring").expect("billing mode");
    let amount_usd = 20.0_f64;
    let (start, end) = migration_service_period(date(2026, 5, 10), 1);
    assert_eq!(billing_mode, "monthly_recurring");
    assert_eq!(amount_usd, 20.0);
    assert_eq!(plan_type, "plus");
    assert_eq!(start, "2026-05-01");
    assert_eq!(end, "2026-06-01");
}
