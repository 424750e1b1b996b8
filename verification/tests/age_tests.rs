use ecs_core::age::Days;
use ecs_core::age::Years;
use ecs_core::age::is_adult;

#[test]
fn years_to_days() {
    assert_eq!(Years(25).to_days(), Days(9125));
    assert_eq!(Years(0).to_days(), Days(0));
}

#[test]
fn days_to_years_truncates() {
    assert_eq!(Days(9125).to_years(), Years(25));
    assert_eq!(Days(400).to_years(), Years(1));
    assert_eq!(Days(364).to_years(), Years(0));
    assert_eq!(Days(-400).to_years(), Years(-1));
}

#[test]
fn adulthood_threshold() {
    assert!(is_adult(&Years(25)));
    assert!(is_adult(&Years(18)));
    assert!(!is_adult(&Years(17)));
    assert!(is_adult(&Years(25).to_days().to_years()));
}
