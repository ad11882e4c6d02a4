//! Identification, validation and masking of payment-card numbers.
//!
//! The library offers four pure core operations over free-form text:
//! extraction of the decimal digits, the Luhn checksum validation,
//! classification of the issuer brand by numeric prefix rules, and a
//! masked display form that reveals only the first and last four digits.
//! A thin scanning layer composes them into one result line per input.

pub mod brand;
pub mod digits;
pub mod luhn;
pub mod mask;
pub mod scan;

pub use brand::Brand;
pub use brand::detect_brand;
pub use digits::extract_digits;
pub use luhn::luhn_check;
pub use mask::mask_number;
pub use scan::format_result;
pub use scan::is_likely_card_line;
pub use scan::scan_line;
