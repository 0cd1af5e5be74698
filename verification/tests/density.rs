use splotrs::density::{DensityClass, DensityFault, EventScan};

fn scan(classes: &[DensityClass]) -> Result<(), DensityFault> {
    let mut scan = EventScan::new();
    for class in classes {
        scan.observe(*class)?;
    }
    scan.finish()
}

#[test]
fn event_with_a_positive_density_is_accepted() {
    assert_eq!(
        scan(&[DensityClass::Zero, DensityClass::Positive, DensityClass::Zero]),
        Ok(())
    );
    assert_eq!(scan(&[DensityClass::Positive]), Ok(()));
}

#[test]
fn event_with_only_zero_densities_is_refused() {
    assert_eq!(
        scan(&[DensityClass::Zero, DensityClass::Zero]),
        Err(DensityFault::AllZero)
    );
}

#[test]
fn first_invalid_density_is_reported_with_its_component() {
    assert_eq!(
        scan(&[
            DensityClass::Positive,
            DensityClass::Zero,
            DensityClass::Invalid,
            DensityClass::Invalid,
        ]),
        Err(DensityFault::InvalidDensity { component: 2 })
    );
}

#[test]
fn invalid_density_decides_even_after_positive_ones() {
    let mut scan = EventScan::new();
    assert_eq!(scan.observe(DensityClass::Positive), Ok(()));
    assert_eq!(
        scan.observe(DensityClass::Invalid),
        Err(DensityFault::InvalidDensity { component: 1 })
    );
    assert_eq!(scan.finish(), Ok(()));
}

#[test]
fn empty_scan_is_refused_as_all_zero() {
    assert_eq!(EventScan::new().finish(), Err(DensityFault::AllZero));
}
