//! Window-content OCR for the cleanup prompt's OCR block. No platform
//! capture is wired yet: every platform answers with an error, and the
//! session runs the cleanup without the block.
use vstd::prelude::*;
use crate::context::AppContext;
use crate::error::BoothError;

verus! {

/// The operating system the app runs on.
#[derive(Debug, Clone, Copy, PartialEq, Eq, Structural)]
pub enum Platform {
    MacOs,
    Windows,
    Other,
}

pub open spec fn ocr_unavailable_spec(platform: Platform) -> Seq<char> {
    match platform {
        Platform::MacOs => "macOS OCR not yet wired — see docs/waves/wave-5-context-aware-cleanup.md"@,
        Platform::Windows => "Windows OCR not yet wired — see docs/waves/wave-5-context-aware-cleanup.md"@,
        Platform::Other => "OCR is not available on this platform"@,
    }
}

/// Captures the focused window's visible text. The context would narrow
/// the capture to that window; with no capture backend on any platform
/// the answer is an internal error saying so.
pub fn capture_focused_window_text(app_context: Option<&AppContext>, platform: Platform) -> (r: Result<String, BoothError>)
    ensures
        r matches Err(BoothError::Internal(m)) && m@ == ocr_unavailable_spec(platform),
{
    let _ = app_context;
    match platform {
        Platform::MacOs => Err(BoothError::internal(
            "macOS OCR not yet wired — see docs/waves/wave-5-context-aware-cleanup.md",
        )),
        Platform::Windows => Err(BoothError::internal(
            "Windows OCR not yet wired — see docs/waves/wave-5-context-aware-cleanup.md",
        )),
        Platform::Other => Err(BoothError::internal("OCR is not available on this platform")),
    }
}

} // verus!
