use block_fir::config::{
    check_decimate_config, check_fir_config, check_interpolate_config, ConfigError,
};
use block_fir::filters::{FirDecimateFilter, FirFilter, FirInterpolateFilter};
use block_fir::instance::{FirDecimateInstance, FirInstance, FirInterpolateInstance};
use block_fir::CMSISType;

#[test]
fn new_filter_has_zeroed_delay_line() {
    let f = FirFilter::<i16, 4, 4>::new(vec![1, 2, 3, 4]).unwrap();
    assert_eq!(f.delay_line(), &[0i16; 7][..]);
    assert_eq!(f.coefficients(), &[1i16, 2, 3, 4][..]);
}

#[test]
fn delay_line_length_is_taps_plus_block_minus_one() {
    let a = FirFilter::<i32, 1, 1>::new(vec![7]).unwrap();
    assert_eq!(a.delay_line().len(), 1);
    let b = FirFilter::<i32, 3, 16>::new(vec![1, 2, 3]).unwrap();
    assert_eq!(b.delay_line().len(), 18);
    assert!(b.delay_line().iter().all(|x| *x == 0));
    let c = FirFilter::<i16, 31, 2>::new(vec![5; 31]).unwrap();
    assert_eq!(c.delay_line().len(), 32);
    assert!(c.delay_line().iter().all(|x| *x == 0));
}

#[test]
fn decimating_and_interpolating_filters_start_zeroed() {
    let d = FirDecimateFilter::<i16, 2, 5, 8>::new(vec![1; 5]).unwrap();
    assert_eq!(d.delay_line(), &[0i16; 12][..]);
    assert_eq!(d.coefficients(), &[1i16; 5][..]);
    let u = FirInterpolateFilter::<i32, 3, 6, 4>::new(vec![2; 6]).unwrap();
    assert_eq!(u.delay_line(), &[0i32; 9][..]);
    assert_eq!(u.coefficients(), &[2i32; 6][..]);
}

#[test]
fn fir_rejects_zero_taps() {
    assert_eq!(FirFilter::<i16, 0, 4>::new(vec![]).err(), Some(ConfigError::ZeroTaps));
}

#[test]
fn fir_rejects_zero_block_size() {
    assert_eq!(FirFilter::<i16, 2, 0>::new(vec![1, 2]).err(), Some(ConfigError::ZeroBlockSize));
}

#[test]
fn fir_rejects_wrong_coefficient_count() {
    assert_eq!(
        FirFilter::<i16, 4, 4>::new(vec![1, 2, 3]).err(),
        Some(ConfigError::CoefficientCount)
    );
    assert_eq!(
        FirFilter::<i16, 4, 4>::new(vec![1, 2, 3, 4, 5]).err(),
        Some(ConfigError::CoefficientCount)
    );
}

#[test]
fn decimate_rejects_block_that_is_no_multiple() {
    assert_eq!(
        FirDecimateFilter::<i16, 3, 2, 4>::new(vec![1, 1]).err(),
        Some(ConfigError::BlockNotMultiple)
    );
    assert_eq!(
        FirDecimateFilter::<i16, 8, 2, 4>::new(vec![1, 1]).err(),
        Some(ConfigError::BlockNotMultiple)
    );
    assert!(FirDecimateFilter::<i16, 4, 2, 4>::new(vec![1, 1]).is_ok());
    assert!(FirDecimateFilter::<i16, 1, 2, 4>::new(vec![1, 1]).is_ok());
}

#[test]
fn decimate_rejects_zero_factor() {
    assert_eq!(
        FirDecimateFilter::<i16, 0, 2, 4>::new(vec![1, 1]).err(),
        Some(ConfigError::ZeroFactor)
    );
}

#[test]
fn decimate_rejects_bad_dimensions_and_coefficients() {
    assert_eq!(
        FirDecimateFilter::<i16, 2, 0, 4>::new(vec![]).err(),
        Some(ConfigError::ZeroTaps)
    );
    assert_eq!(
        FirDecimateFilter::<i16, 2, 2, 0>::new(vec![1, 1]).err(),
        Some(ConfigError::ZeroBlockSize)
    );
    assert_eq!(
        FirDecimateFilter::<i16, 2, 2, 4>::new(vec![1]).err(),
        Some(ConfigError::CoefficientCount)
    );
}

#[test]
fn interpolate_rejects_zero_factor() {
    assert_eq!(
        FirInterpolateFilter::<i16, 0, 4, 4>::new(vec![1; 4]).err(),
        Some(ConfigError::ZeroFactor)
    );
}

#[test]
fn interpolate_rejects_fewer_taps_than_branches() {
    assert_eq!(
        FirInterpolateFilter::<i16, 4, 3, 4>::new(vec![1; 3]).err(),
        Some(ConfigError::TooFewTaps)
    );
    assert!(FirInterpolateFilter::<i16, 4, 4, 4>::new(vec![1; 4]).is_ok());
}

#[test]
fn interpolate_accepts_taps_that_are_no_multiple_of_the_factor() {
    let f = FirInterpolateFilter::<i16, 2, 5, 4>::new(vec![1; 5]).unwrap();
    assert_eq!(f.delay_line().len(), 8);
}

#[test]
fn interpolate_rejects_bad_dimensions_and_coefficients() {
    assert_eq!(
        FirInterpolateFilter::<i16, 2, 0, 4>::new(vec![]).err(),
        Some(ConfigError::ZeroTaps)
    );
    assert_eq!(
        FirInterpolateFilter::<i16, 2, 4, 0>::new(vec![1; 4]).err(),
        Some(ConfigError::ZeroBlockSize)
    );
    assert_eq!(
        FirInterpolateFilter::<i16, 2, 4, 4>::new(vec![1; 5]).err(),
        Some(ConfigError::CoefficientCount)
    );
}

#[test]
fn config_checks_return_the_delay_line_length() {
    assert_eq!(check_fir_config(4, 4, 4), Ok(7));
    assert_eq!(check_fir_config(65535, 1, 65535), Ok(65535));
    assert_eq!(check_decimate_config(2, 3, 8, 3), Ok(10));
    assert_eq!(check_interpolate_config(3, 7, 5, 7), Ok(11));
}

#[test]
fn config_checks_name_the_first_fault() {
    assert_eq!(check_fir_config(0, 0, 0), Err(ConfigError::ZeroTaps));
    assert_eq!(check_fir_config(1, 0, 0), Err(ConfigError::ZeroBlockSize));
    assert_eq!(check_fir_config(1, 1, 0), Err(ConfigError::CoefficientCount));
    assert_eq!(check_decimate_config(0, 1, 1, 0), Err(ConfigError::ZeroFactor));
    assert_eq!(check_decimate_config(2, 1, 3, 0), Err(ConfigError::BlockNotMultiple));
    assert_eq!(check_decimate_config(2, 1, 4, 0), Err(ConfigError::CoefficientCount));
    assert_eq!(check_interpolate_config(0, 1, 1, 1), Err(ConfigError::ZeroFactor));
    assert_eq!(check_interpolate_config(2, 1, 1, 1), Err(ConfigError::TooFewTaps));
    assert_eq!(check_interpolate_config(2, 2, 1, 1), Err(ConfigError::CoefficientCount));
}

#[test]
fn largest_dimensions_pass_the_check_where_addresses_are_wide() {
    if usize::BITS >= 64 {
        assert_eq!(check_fir_config(65535, u32::MAX, 65535), Ok(65535 + 4294967295 - 1));
        assert_eq!(
            check_interpolate_config(255, 65535, u32::MAX, 65535),
            Ok(65535 + 4294967295 - 1)
        );
    } else {
        assert_eq!(check_fir_config(65535, u32::MAX, 65535), Err(ConfigError::TooLarge));
        assert_eq!(
            check_interpolate_config(255, 65535, u32::MAX, 65535),
            Err(ConfigError::TooLarge)
        );
    }
}

#[test]
fn parameter_records_carry_the_dimensions() {
    let mut f = FirFilter::<i16, 4, 8>::new(vec![1; 4]).unwrap();
    assert_eq!(f.as_cmsis_type(), FirInstance { num_taps: 4 });
    let mut d = FirDecimateFilter::<i16, 2, 5, 8>::new(vec![1; 5]).unwrap();
    assert_eq!(d.as_cmsis_type(), FirDecimateInstance { m: 2, num_taps: 5 });
    let mut u = FirInterpolateFilter::<i16, 3, 7, 8>::new(vec![1; 7]).unwrap();
    assert_eq!(u.as_cmsis_type(), FirInterpolateInstance { l: 3, phase_length: 2 });
    assert_eq!(u.coefficients(), &[1i16; 7][..]);
    assert_eq!(u.delay_line(), &[0i16; 14][..]);
}

#[test]
fn output_lengths_follow_from_the_dimensions() {
    let d = FirDecimateFilter::<i16, 4, 3, 12>::new(vec![1; 3]).unwrap();
    assert_eq!(d.output_len(), 3);
    let u = FirInterpolateFilter::<i16, 5, 10, 6>::new(vec![1; 10]).unwrap();
    assert_eq!(u.output_len(), 30);
}
