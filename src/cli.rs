use vstd::prelude::*;

verus! {

/// How much damage the printed code should survive, from least to most.
#[derive(Clone, Copy, Debug, PartialEq, Eq, Structural)]
pub enum ErrorCorrection {
    Low,
    Medium,
    High,
    Max,
}

/// The image format the code is rendered in.
#[derive(Clone, Copy, Debug, PartialEq, Eq, Structural)]
pub enum OutputFormat {
    Png,
    Svg,
}

/// The four error correction levels that a QR code defines.
#[derive(Clone, Copy, Debug, PartialEq, Eq, Structural)]
pub enum QrLevel {
    Low,
    Medium,
    Quartile,
    High,
}

/// The options of one run.
#[derive(Debug)]
pub struct Cli {
    /// Name of the output files, without extension.
    pub output_name: String,
    pub format: OutputFormat,
    pub error_correction: ErrorCorrection,
    /// Side of the image, in pixels.
    pub size: usize,
    /// A finished card to render instead of asking for one.
    pub from: Option<String>,
}

/// Each option level names the QR level of the same rank.
pub open spec fn level_of(e: ErrorCorrection) -> QrLevel {
    match e {
        ErrorCorrection::Low => QrLevel::Low,
        ErrorCorrection::Medium => QrLevel::Medium,
        ErrorCorrection::High => QrLevel::Quartile,
        ErrorCorrection::Max => QrLevel::High,
    }
}

impl ErrorCorrection {
    /// The QR level that this option selects.
    pub fn qr_level(&self) -> (r: QrLevel)
        ensures
            r == level_of(*self),
    {
        match self {
            ErrorCorrection::Low => QrLevel::Low,
            ErrorCorrection::Medium => QrLevel::Medium,
            ErrorCorrection::High => QrLevel::Quartile,
            ErrorCorrection::Max => QrLevel::High,
        }
    }
}

} // verus!
