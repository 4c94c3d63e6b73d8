//! Subscription records: what a record entered by the user is stored as,
//! and the record a single subscription profile becomes.
use vstd::prelude::*;

use crate::dates::{
    add_months_clamped, billing_cycle_start, cycle_start, date_before, date_format_message,
    date_text, format_date, inner_date, is_before, law_date_text_round_trip, months_later,
    parse_date_field, parsed_date, valid_date, CalendarDate,
};
use crate::importer::opt_view;
use crate::text::{
    all_digits, digits_value, is_ws, owned, parsed_i32, split_seq, string_from_chars, take_chars,
    take_seq, trim_end_seq, trim_seq, trim_start_seq, trim_str, str_eq,
};

verus! {

/// The currency every subscription amount is in.
pub fn canonical_subscription_currency() -> (r: &'static str)
    ensures
        r@ == "USD"@,
{
    proof {
        reveal_strlit("USD");
    }
    "USD"
}

// ---------------------------------------------------------------------------
// Dates
// ---------------------------------------------------------------------------

/// A date field as stored: the trimmed text read as a date and written as
/// `YYYY-MM-DD`.
pub open spec fn normalized_date(field: Seq<char>, value: Seq<char>) -> Result<Seq<char>, Seq<char>> {
    match parsed_date(trim_seq(value)) {
        Some(d) => Ok(date_text(d)),
        None => Err(date_format_message(field)),
    }
}

pub open spec fn result_view(r: Result<String, String>) -> Result<Seq<char>, Seq<char>> {
    match r {
        Ok(v) => Ok(v@),
        Err(e) => Err(e@),
    }
}

/// Reads a date field and writes it back as `YYYY-MM-DD`.
pub fn normalize_date_field(field_name: &str, value: &str) -> (r: Result<String, String>)
    ensures
        result_view(r) == normalized_date(field_name@, value@),
{
    let trimmed = string_from_chars(&trim_str(value));
    match parse_date_field(field_name, trimmed.as_str()) {
        Ok(d) => Ok(format_date(d)),
        Err(e) => Err(e),
    }
}

proof fn lemma_parsed_year_range(value: Seq<char>)
    requires
        parsed_date(value) is Some,
    ensures
        0 <= parsed_date(value)->0.year <= 9999,
{
    let parts = split_seq(value, '-');
    let y = parts[0];
    let digits = if y[0] == '-' || y[0] == '+' {
        y.skip(1)
    } else {
        y
    };
    if y[0] == '-' {
        assert(y.contains('-'));
        assert(false) by {
            crate::text::lemma_piece_lacks_sep(value, '-', 0);
        }
    }
    lemma_digits_below(digits);
}

proof fn lemma_digits_below(s: Seq<char>)
    requires
        s.len() <= 4,
        all_digits(s),
    ensures
        digits_value(s) < 10000,
    decreases s.len(),
{
    if s.len() > 0 {
        assert(all_digits(s.drop_last()));
        lemma_digits_short(s.drop_last());
        assert(crate::text::is_digit_ascii(s[s.len() - 1]));
    }
}

proof fn lemma_digits_short(s: Seq<char>)
    requires
        all_digits(s),
    ensures
        s.len() <= 3 ==> digits_value(s) < 1000,
        s.len() <= 2 ==> digits_value(s) < 100,
        s.len() <= 1 ==> digits_value(s) < 10,
        s.len() == 0 ==> digits_value(s) == 0,
    decreases s.len(),
{
    if s.len() > 0 {
        assert(all_digits(s.drop_last()));
        lemma_digits_short(s.drop_last());
        assert(crate::text::is_digit_ascii(s[s.len() - 1]));
    }
}

/// A stored date field stays as it is when it is stored again.
pub proof fn law_normalized_date_is_stable(field: Seq<char>, value: Seq<char>)
    requires
        normalized_date(field, value) is Ok,
    ensures
        normalized_date(field, normalized_date(field, value)->Ok_0) == normalized_date(field, value),
{
    let d = parsed_date(trim_seq(value))->0;
    lemma_parsed_year_range(trim_seq(value));
    law_date_text_round_trip(d);
    let t = date_text(d);
    lemma_trim_digits_text(d);
    assert(trim_seq(t) == t);
}

proof fn lemma_trim_digits_text(d: CalendarDate)
    requires
        valid_date(d),
        0 <= d.year <= 9999,
    ensures
        trim_seq(date_text(d)) == date_text(d),
{
    let t = date_text(d);
    law_date_text_round_trip(d);
    crate::text::lemma_zero_padded(d.year as nat, 4);
    crate::text::lemma_zero_padded(d.day as nat, 2);
    let y = crate::text::zero_padded(d.year as nat, 4);
    let dd = crate::text::zero_padded(d.day as nat, 2);
    assert(t[0] == y[0]);
    assert(crate::text::is_digit_ascii(y[0]));
    assert(t.last() == dd.last());
    assert(crate::text::is_digit_ascii(dd[dd.len() - 1]));
    assert(!is_ws(t[0]));
    assert(trim_start_seq(t) == t);
    assert(!is_ws(t.last()));
    assert(trim_end_seq(t) == t);
}

/// The three dates of a subscription record, as stored.
#[derive(Debug, Clone)]
pub struct SubscriptionDates {
    pub paid_at: String,
    pub service_start: String,
    pub service_end: String,
}

/// The message for a service that does not end after it starts.
pub open spec fn service_range_message() -> Seq<char> {
    "serviceEnd must be later than serviceStart."@
}

/// The dates of a record: each read and written as `YYYY-MM-DD`, the first
/// that cannot be read named in the error, and the service ending after it
/// starts.
pub open spec fn normalized_dates(paid_at: Seq<char>, service_start: Seq<char>, service_end: Seq<char>) -> Result<(Seq<char>, Seq<char>, Seq<char>), Seq<char>> {
    match normalized_date("paidAt"@, paid_at) {
        Err(e) => Err(e),
        Ok(p) => match normalized_date("serviceStart"@, service_start) {
            Err(e) => Err(e),
            Ok(s) => match normalized_date("serviceEnd"@, service_end) {
                Err(e) => Err(e),
                Ok(t) => if date_before(
                    parsed_date(trim_seq(service_start))->0,
                    parsed_date(trim_seq(service_end))->0,
                ) {
                    Ok((p, s, t))
                } else {
                    Err(service_range_message())
                },
            },
        },
    }
}

/// Reads and checks the three dates of a subscription record.
pub fn normalize_subscription_dates(paid_at: &str, service_start: &str, service_end: &str) -> (r: Result<SubscriptionDates, String>)
    ensures
        match r {
            Ok(d) => normalized_dates(paid_at@, service_start@, service_end@) == Ok::<
                (Seq<char>, Seq<char>, Seq<char>),
                Seq<char>,
            >((d.paid_at@, d.service_start@, d.service_end@)),
            Err(e) => normalized_dates(paid_at@, service_start@, service_end@) == Err::<
                (Seq<char>, Seq<char>, Seq<char>),
                Seq<char>,
            >(e@),
        },
{
    proof {
        reveal_strlit("paidAt");
        reveal_strlit("serviceStart");
        reveal_strlit("serviceEnd");
    }
    let paid = match normalize_date_field("paidAt", paid_at) {
        Ok(v) => v,
        Err(e) => {
            return Err(e);
        },
    };
    let start = match normalize_date_field("serviceStart", service_start) {
        Ok(v) => v,
        Err(e) => {
            return Err(e);
        },
    };
    let end = match normalize_date_field("serviceEnd", service_end) {
        Ok(v) => v,
        Err(e) => {
            return Err(e);
        },
    };
    proof {
        law_normalized_date_is_stable("serviceStart"@, service_start@);
        law_normalized_date_is_stable("serviceEnd"@, service_end@);
        let ds = parsed_date(trim_seq(service_start@))->0;
        let de = parsed_date(trim_seq(service_end@))->0;
        lemma_parsed_year_range(trim_seq(service_start@));
        lemma_parsed_year_range(trim_seq(service_end@));
        law_date_text_round_trip(ds);
        law_date_text_round_trip(de);
    }
    let start_date = match parse_date_field("serviceStart", start.as_str()) {
        Ok(d) => d,
        Err(e) => {
            return Err(e);
        },
    };
    let end_date = match parse_date_field("serviceEnd", end.as_str()) {
        Ok(d) => d,
        Err(e) => {
            return Err(e);
        },
    };
    if !is_before(start_date, end_date) {
        proof {
            reveal_strlit("serviceEnd must be later than serviceStart.");
        }
        return Err("serviceEnd must be later than serviceStart.".to_owned());
    }
    Ok(SubscriptionDates { paid_at: paid, service_start: start, service_end: end })
}

// ---------------------------------------------------------------------------
// Billing mode, plan and note
// ---------------------------------------------------------------------------

/// The message for a billing mode that is neither of the two.
pub open spec fn billing_mode_message() -> Seq<char> {
    "billingMode must be one_time or monthly_recurring."@
}

/// The trimmed billing mode where it is `one_time` or `monthly_recurring`.
pub open spec fn normalized_billing_mode(value: Seq<char>) -> Result<Seq<char>, Seq<char>> {
    let t = trim_seq(value);
    if t == "one_time"@ || t == "monthly_recurring"@ {
        Ok(t)
    } else {
        Err(billing_mode_message())
    }
}

/// Checks a billing mode.
pub fn normalize_billing_mode(value: &str) -> (r: Result<String, String>)
    ensures
        result_view(r) == normalized_billing_mode(value@),
{
    let t = trim_str(value);
    if crate::text::chars_eq_str(&t, "one_time") {
        proof {
            reveal_strlit("one_time");
        }
        Ok(owned("one_time"))
    } else if crate::text::chars_eq_str(&t, "monthly_recurring") {
        proof {
            reveal_strlit("monthly_recurring");
        }
        Ok(owned("monthly_recurring"))
    } else {
        proof {
            reveal_strlit("billingMode must be one_time or monthly_recurring.");
        }
        Err(owned("billingMode must be one_time or monthly_recurring."))
    }
}

/// The plan of a record: trimmed and cut to 64 characters, `unknown` where
/// it is blank.
pub open spec fn normalized_plan(value: Seq<char>) -> Seq<char> {
    if trim_seq(value).len() == 0 {
        "unknown"@
    } else {
        take_seq(trim_seq(value), 64)
    }
}

/// The note of a record: trimmed and cut to 500 characters, none where it
/// is blank.
pub open spec fn normalized_note(value: Option<Seq<char>>) -> Option<Seq<char>> {
    match value {
        Some(v) => if trim_seq(v).len() == 0 {
            None
        } else {
            Some(take_seq(trim_seq(v), 500))
        },
        None => None,
    }
}

/// The billing mode, plan and note of a record, as stored.
#[derive(Debug, Clone)]
pub struct SubscriptionDetails {
    pub billing_mode: String,
    pub plan_type: String,
    pub note: Option<String>,
}

/// Checks the billing mode of a record and normalizes its plan and note.
pub fn normalize_subscription_details(billing_mode: &str, plan_type: &str, note: &Option<String>) -> (r: Result<SubscriptionDetails, String>)
    ensures
        r is Ok <==> normalized_billing_mode(billing_mode@) is Ok,
        r matches Err(e) ==> e@ == billing_mode_message(),
        r matches Ok(d) ==> {
            &&& d.billing_mode@ == normalized_billing_mode(billing_mode@)->Ok_0
            &&& d.plan_type@ == normalized_plan(plan_type@)
            &&& opt_view(d.note) == normalized_note(opt_view(*note))
        },
{
    let plan = trim_str(plan_type);
    let mode = match normalize_billing_mode(billing_mode) {
        Ok(m) => m,
        Err(e) => {
            return Err(e);
        },
    };
    let plan_text = if plan.len() == 0 {
        proof {
            reveal_strlit("unknown");
        }
        owned("unknown")
    } else {
        string_from_chars(&take_chars(&plan, 64))
    };
    let note_text = match note {
        Some(n) => {
            let t = trim_str(n.as_str());
            if t.len() == 0 {
                None
            } else {
                Some(string_from_chars(&take_chars(&t, 500)))
            }
        },
        None => None,
    };
    Ok(SubscriptionDetails { billing_mode: mode, plan_type: plan_text, note: note_text })
}

// ---------------------------------------------------------------------------
// The profile a record is made from
// ---------------------------------------------------------------------------

/// The billing day a profile is stored with: within 1 to 28.
pub fn stored_billing_anchor_day(day: i64) -> (r: i64)
    ensures
        r == (if day < 1 {
            1
        } else if day > 28 {
            28
        } else {
            day
        }),
{
    if day < 1 {
        1
    } else if day > 28 {
        28
    } else {
        day
    }
}

/// The plan of the record made from a profile: the trimmed plan, or `plus`
/// where it is blank.
pub fn migrated_plan_type(plan_type: &str) -> (r: String)
    ensures
        r@ == (if trim_seq(plan_type@).len() == 0 {
            "plus"@
        } else {
            trim_seq(plan_type@)
        }),
{
    let t = trim_str(plan_type);
    if t.len() == 0 {
        proof {
            reveal_strlit("plus");
        }
        owned("plus")
    } else {
        string_from_chars(&t)
    }
}

/// The service period of the record made from a profile: the billing cycle
/// that `today` falls in, from its start to a month later, as `YYYY-MM-DD`.
/// The billing day is read as the 32-bit value the profile's number wraps
/// to.
pub fn migration_service_period(today: CalendarDate, billing_anchor_day: i64) -> (r: (String, String))
    requires
        inner_date(today),
    ensures
        r.0@ == date_text(cycle_start(today, billing_anchor_day as u32)),
        r.1@ == date_text(months_later(cycle_start(today, billing_anchor_day as u32), 1)),
{
    let anchor: u32 = billing_anchor_day as u32;
    let start = billing_cycle_start(today, anchor);
    let end = add_months_clamped(start, 1);
    (format_date(start), format_date(end))
}

} // verus!
