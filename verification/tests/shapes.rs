use block_fir::instance::{FirDecimateInstance, FirInstance, FirInterpolateInstance};
use block_fir::kernel::{fir_decimate_shape_holds, fir_interpolate_shape_holds, fir_shape_holds};

#[test]
fn plain_shape_wants_exact_lengths() {
    let inst = FirInstance { num_taps: 4 };
    assert!(fir_shape_holds(&inst, 7, 4, 4, 4, 4));
    assert!(!fir_shape_holds(&inst, 6, 4, 4, 4, 4));
    assert!(!fir_shape_holds(&inst, 8, 4, 4, 4, 4));
    assert!(!fir_shape_holds(&inst, 7, 3, 4, 4, 4));
    assert!(!fir_shape_holds(&inst, 7, 4, 3, 4, 4));
    assert!(!fir_shape_holds(&inst, 7, 4, 4, 5, 4));
    assert!(!fir_shape_holds(&inst, 3, 4, 0, 0, 0));
    assert!(!fir_shape_holds(&FirInstance { num_taps: 0 }, 3, 0, 4, 4, 4));
    assert!(fir_shape_holds(&FirInstance { num_taps: 1 }, 1, 1, 1, 1, 1));
}

#[test]
fn decimating_shape_wants_a_divisible_block() {
    let inst = FirDecimateInstance { m: 3, num_taps: 2 };
    assert!(fir_decimate_shape_holds(&inst, 10, 2, 9, 3, 9));
    assert!(!fir_decimate_shape_holds(&inst, 9, 2, 8, 2, 8));
    assert!(!fir_decimate_shape_holds(&inst, 10, 2, 9, 9, 9));
    assert!(!fir_decimate_shape_holds(&inst, 10, 2, 9, 2, 9));
    assert!(!fir_decimate_shape_holds(&inst, 10, 3, 9, 3, 9));
    assert!(!fir_decimate_shape_holds(&inst, 11, 2, 9, 3, 9));
    assert!(!fir_decimate_shape_holds(&FirDecimateInstance { m: 0, num_taps: 2 }, 10, 2, 9, 3, 9));
    assert!(!fir_decimate_shape_holds(&FirDecimateInstance { m: 3, num_taps: 0 }, 8, 0, 9, 3, 9));
    assert!(fir_decimate_shape_holds(&FirDecimateInstance { m: 1, num_taps: 1 }, 2, 1, 2, 2, 2));
}

#[test]
fn interpolating_shape_allows_longer_buffers() {
    let inst = FirInterpolateInstance { l: 2, phase_length: 3 };
    assert!(fir_interpolate_shape_holds(&inst, 6, 6, 4, 8, 4));
    assert!(fir_interpolate_shape_holds(&inst, 10, 7, 4, 8, 4));
    assert!(!fir_interpolate_shape_holds(&inst, 5, 6, 4, 8, 4));
    assert!(!fir_interpolate_shape_holds(&inst, 6, 5, 4, 8, 4));
    assert!(!fir_interpolate_shape_holds(&inst, 6, 6, 3, 8, 4));
    assert!(!fir_interpolate_shape_holds(&inst, 6, 6, 4, 4, 4));
    assert!(!fir_interpolate_shape_holds(&inst, 6, 6, 0, 0, 0));
    assert!(!fir_interpolate_shape_holds(
        &FirInterpolateInstance { l: 0, phase_length: 3 },
        6,
        6,
        4,
        0,
        4
    ));
    assert!(!fir_interpolate_shape_holds(
        &FirInterpolateInstance { l: 2, phase_length: 0 },
        6,
        6,
        4,
        8,
        4
    ));
}
