use energy_rewards::errors::Error;
use energy_rewards::penalty::PenaltyPercentage;
use energy_rewards::unlock::UnlockWithPenaltyModule;

fn module_with(min: u16, max: u16, burn: u16, max_lock: u64) -> UnlockWithPenaltyModule {
    UnlockWithPenaltyModule::new(min, max, burn, max_lock).unwrap()
}

#[test]
fn penalty_interpolates_linearly() {
    let m = module_with(1000, 5000, 0, 1440);
    // percentage = 1000 + 4000 * 360 / 1440 = 2000 basis points
    assert_eq!(m.calculate_penalty_amount(500_000_000, 360), 100_000_000);
    // percentage = 1000 + 4000 * 720 / 1440 = 3000 basis points
    assert_eq!(m.calculate_penalty_amount(500_000_000, 720), 150_000_000);
    // the full lock pays the maximum percentage
    assert_eq!(m.calculate_penalty_amount(500_000_000, 1440), 250_000_000);
}

#[test]
fn penalty_uses_floor_division_at_each_step() {
    let m = module_with(1000, 5000, 0, 1440);
    // percentage = 1000 + floor(4000 * 30 / 1440) = 1000 + 83 = 1083
    // penalty = floor(1_000_000_000 * 1083 / 10_000)
    assert_eq!(m.calculate_penalty_amount(1_000_000_000, 30), 108_300_000);
    // tiny amounts truncate to zero
    assert_eq!(m.calculate_penalty_amount(1, 30), 0);
}

#[test]
fn penalty_is_monotonic_in_epochs_to_reduce() {
    let m = module_with(250, 9000, 0, 1440);
    let mut last = 0u64;
    let mut e = 1u64;
    while e <= 1440 {
        let p = m.calculate_penalty_amount(987_654_321, e);
        assert!(p >= last);
        last = p;
        e += 97;
    }
}

#[test]
fn penalty_never_exceeds_amount() {
    let m = module_with(10_000, 10_000, 0, 1440);
    assert_eq!(m.calculate_penalty_amount(12_345, 1440), 12_345);
    assert_eq!(m.calculate_penalty_amount(12_345, 1), 12_345);
    let m2 = module_with(1, 1, 0, 1440);
    assert_eq!(m2.calculate_penalty_amount(9_999, 1440), 0);
}

#[test]
fn configuration_is_validated() {
    assert!(matches!(
        UnlockWithPenaltyModule::new(0, 5000, 0, 1440),
        Err(Error::InvalidPercentage)
    ));
    assert!(matches!(
        UnlockWithPenaltyModule::new(6000, 5000, 0, 1440),
        Err(Error::InvalidPercentage)
    ));
    assert!(matches!(
        UnlockWithPenaltyModule::new(1000, 10_001, 0, 1440),
        Err(Error::InvalidPercentage)
    ));
    assert!(matches!(
        UnlockWithPenaltyModule::new(1000, 5000, 10_001, 1440),
        Err(Error::InvalidPercentage)
    ));

    let mut m = module_with(1000, 5000, 0, 1440);
    assert_eq!(
        m.set_penalty_percentage(5000, 1000).unwrap_err(),
        Error::InvalidPercentage
    );
    assert_eq!(m.penalty_percentage, PenaltyPercentage { min: 1000, max: 5000 });
    m.set_penalty_percentage(2000, 2000).unwrap();
    assert_eq!(m.penalty_percentage, PenaltyPercentage { min: 2000, max: 2000 });

    assert_eq!(
        m.set_fees_burn_percentage(10_001).unwrap_err(),
        Error::InvalidPercentage
    );
    m.set_fees_burn_percentage(10_000).unwrap();
    assert_eq!(m.fees_burn_percentage, 10_000);
    m.set_fees_burn_percentage(0).unwrap();
    assert_eq!(m.fees_burn_percentage, 0);

    assert_eq!(
        m.set_fees_collector_address(77, false).unwrap_err(),
        Error::NotContractAddress
    );
    assert_eq!(m.fees_collector_address, None);
    m.set_fees_collector_address(77, true).unwrap();
    assert_eq!(m.fees_collector_address, Some(77));
}
