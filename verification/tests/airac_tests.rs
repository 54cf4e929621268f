use atc_book::airac::AiracCycle;
use atc_book::calendar::CalendarDate;

fn date(y: i32, m: u32, d: u32) -> CalendarDate {
    CalendarDate::from_ymd_opt(y, m, d).unwrap()
}

#[test]
fn test_epoch_cycle() {
    let date = date(2026, 1, 22);
    let cycle = AiracCycle::for_date(date);
    assert_eq!(cycle.code, "2601");
    assert_eq!(cycle.start_date, date);
}

#[test]
fn test_cycle_2602() {
    let date = date(2026, 2, 19);
    let cycle = AiracCycle::for_date(date);
    assert_eq!(cycle.code, "2602");
    assert_eq!(cycle.start_date, date);
}

#[test]
fn test_mid_cycle() {
    let date = date(2026, 2, 1);
    let cycle = AiracCycle::for_date(date);
    assert_eq!(cycle.code, "2601");
}

#[test]
fn test_sia_format() {
    let date = date(2026, 1, 22);
    let cycle = AiracCycle::for_date(date);
    assert_eq!(cycle.sia_cycle_name(), "eAIP_22_JAN_2026");
    assert_eq!(cycle.sia_airac_date(), "AIRAC-2026-01-22");
}

#[test]
fn test_nats_format() {
    let date = date(2026, 1, 22);
    let cycle = AiracCycle::for_date(date);
    assert_eq!(cycle.nats_airac_part(), "2026-01-22-AIRAC");
}

#[test]
fn test_march_5_2026() {
    let d = date(2026, 3, 5);
    let cycle = AiracCycle::for_date(d);
    println!("March 5 cycle: {:?}", cycle);
    println!("sia_cycle_name: {}", cycle.sia_cycle_name());
    println!("sia_airac_date: {}", cycle.sia_airac_date());
    assert_eq!(cycle.code, "2602");
    assert_eq!(cycle.start_date, date(2026, 2, 19));
    assert_eq!(cycle.sia_cycle_name(), "eAIP_19_FEB_2026");
    assert_eq!(cycle.sia_airac_date(), "AIRAC-2026-02-19");
}

#[test]
fn cycle_before_the_epoch() {
    let cycle = AiracCycle::for_date(date(2025, 12, 31));
    assert_eq!(cycle.start_date, date(2025, 12, 25));
    assert_eq!(cycle.end_date, date(2026, 1, 21));
    assert_eq!(cycle.code, "2513");
}

#[test]
fn cycle_end_is_27_days_after_start() {
    let cycle = AiracCycle::for_date(date(2026, 1, 22));
    assert_eq!(cycle.end_date, date(2026, 2, 18));
    assert!(cycle.is_active_on(&date(2026, 2, 18)));
    assert!(!cycle.is_active_on(&date(2026, 2, 19)));
}

#[test]
fn first_cycle_of_a_year() {
    let cycle = AiracCycle::for_date(date(2027, 1, 10));
    assert_eq!(cycle.code, "2613");
    let cycle = AiracCycle::for_date(date(2027, 2, 1));
    assert_eq!(cycle.code, "2701");
}
