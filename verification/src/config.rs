//! Validation of a filter's dimensions.
//!
//! The tap count, the block size and the rate-change factor of a filter are
//! fixed when it is built. They decide the length of every buffer, so a filter
//! is only ever built from dimensions that pass the checks in this module.
use vstd::prelude::*;

verus! {

/// Why a filter cannot be built from the given dimensions and coefficients.
#[derive(Clone, Copy, Debug, PartialEq, Eq, Structural)]
pub enum ConfigError {
    /// The filter would have no coefficients.
    ZeroTaps,
    /// The filter would process blocks of no samples.
    ZeroBlockSize,
    /// The decimation or interpolation factor is zero.
    ZeroFactor,
    /// The block size is not a multiple of the decimation factor.
    BlockNotMultiple,
    /// There are fewer coefficients than polyphase branches.
    TooFewTaps,
    /// The number of coefficients supplied is not the tap count.
    CoefficientCount,
    /// A buffer length does not fit the address space.
    TooLarge,
}

/// Length of the delay line of a filter with `taps` coefficients that works on
/// blocks of `block_size` samples.
pub open spec fn delay_line_len(taps: int, block_size: int) -> int {
    taps + block_size - 1
}

/// The reason, if any, for which a plain FIR filter cannot be built.
pub open spec fn fir_config_error(taps: u16, block_size: u32, coefficient_count: nat) -> Option<
    ConfigError,
> {
    if taps == 0 {
        Some(ConfigError::ZeroTaps)
    } else if block_size == 0 {
        Some(ConfigError::ZeroBlockSize)
    } else if coefficient_count != taps {
        Some(ConfigError::CoefficientCount)
    } else if delay_line_len(taps as int, block_size as int) > usize::MAX {
        Some(ConfigError::TooLarge)
    } else {
        None
    }
}

/// The reason, if any, for which a decimating FIR filter cannot be built.
pub open spec fn decimate_config_error(
    m: u8,
    taps: u16,
    block_size: u32,
    coefficient_count: nat,
) -> Option<ConfigError> {
    if taps == 0 {
        Some(ConfigError::ZeroTaps)
    } else if block_size == 0 {
        Some(ConfigError::ZeroBlockSize)
    } else if m == 0 {
        Some(ConfigError::ZeroFactor)
    } else if block_size as int % m as int != 0 {
        Some(ConfigError::BlockNotMultiple)
    } else {
        fir_config_error(taps, block_size, coefficient_count)
    }
}

/// The reason, if any, for which an interpolating FIR filter cannot be built.
///
/// The tap count need not be a multiple of the factor `l`: each polyphase
/// branch has `taps / l` coefficients and the last `taps % l` coefficients
/// take no part. At least one coefficient per branch is required.
pub open spec fn interpolate_config_error(
    l: u8,
    taps: u16,
    block_size: u32,
    coefficient_count: nat,
) -> Option<ConfigError> {
    if taps == 0 {
        Some(ConfigError::ZeroTaps)
    } else if block_size == 0 {
        Some(ConfigError::ZeroBlockSize)
    } else if l == 0 {
        Some(ConfigError::ZeroFactor)
    } else if taps < l {
        Some(ConfigError::TooFewTaps)
    } else if coefficient_count != taps {
        Some(ConfigError::CoefficientCount)
    } else if delay_line_len(taps as int, block_size as int) > usize::MAX || block_size * l
        > usize::MAX {
        Some(ConfigError::TooLarge)
    } else {
        None
    }
}

/// Checks the dimensions of a plain FIR filter and returns the length of its
/// delay line.
pub fn check_fir_config(taps: u16, block_size: u32, coefficient_count: usize) -> (r: Result<
    usize,
    ConfigError,
>)
    ensures
        match fir_config_error(taps, block_size, coefficient_count as nat) {
            Some(e) => r == Err::<usize, ConfigError>(e),
            None => r == Ok::<usize, ConfigError>(
                delay_line_len(taps as int, block_size as int) as usize,
            ),
        },
{
    if taps == 0 {
        return Err(ConfigError::ZeroTaps);
    }
    if block_size == 0 {
        return Err(ConfigError::ZeroBlockSize);
    }
    if coefficient_count != taps as usize {
        return Err(ConfigError::CoefficientCount);
    }
    let len: u64 = taps as u64 + block_size as u64 - 1;
    if len > usize::MAX as u64 {
        return Err(ConfigError::TooLarge);
    }
    Ok(len as usize)
}

/// Checks the dimensions of a decimating FIR filter and returns the length of
/// its delay line.
pub fn check_decimate_config(m: u8, taps: u16, block_size: u32, coefficient_count: usize) -> (r:
    Result<usize, ConfigError>)
    ensures
        match decimate_config_error(m, taps, block_size, coefficient_count as nat) {
            Some(e) => r == Err::<usize, ConfigError>(e),
            None => r == Ok::<usize, ConfigError>(
                delay_line_len(taps as int, block_size as int) as usize,
            ),
        },
{
    if taps == 0 {
        return Err(ConfigError::ZeroTaps);
    }
    if block_size == 0 {
        return Err(ConfigError::ZeroBlockSize);
    }
    if m == 0 {
        return Err(ConfigError::ZeroFactor);
    }
    if block_size % (m as u32) != 0 {
        return Err(ConfigError::BlockNotMultiple);
    }
    check_fir_config(taps, block_size, coefficient_count)
}

/// Checks the dimensions of an interpolating FIR filter and returns the length
/// of its delay line.
pub fn check_interpolate_config(l: u8, taps: u16, block_size: u32, coefficient_count: usize) -> (r:
    Result<usize, ConfigError>)
    ensures
        match interpolate_config_error(l, taps, block_size, coefficient_count as nat) {
            Some(e) => r == Err::<usize, ConfigError>(e),
            None => r == Ok::<usize, ConfigError>(
                delay_line_len(taps as int, block_size as int) as usize,
            ),
        },
{
    if taps == 0 {
        return Err(ConfigError::ZeroTaps);
    }
    if block_size == 0 {
        return Err(ConfigError::ZeroBlockSize);
    }
    if l == 0 {
        return Err(ConfigError::ZeroFactor);
    }
    if taps < l as u16 {
        return Err(ConfigError::TooFewTaps);
    }
    if coefficient_count != taps as usize {
        return Err(ConfigError::CoefficientCount);
    }
    let len: u64 = taps as u64 + block_size as u64 - 1;
    assert(block_size * l <= 0xFFFF_FFFF * 0xFF) by (nonlinear_arith)
        requires
            block_size <= 0xFFFF_FFFF,
            l <= 0xFF,
    ;
    let out: u64 = block_size as u64 * l as u64;
    if len > usize::MAX as u64 || out > usize::MAX as u64 {
        return Err(ConfigError::TooLarge);
    }
    Ok(len as usize)
}

} // verus!
