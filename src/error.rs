use vstd::prelude::*;

verus! {

/// Why an operation on a window did not take effect.
#[derive(Debug)]
pub enum PinError {
    /// No window currently has the input focus.
    NoForegroundWindow,
    /// The handle does not name a live window.
    NoSuchWindow,
    /// The windowing system refused to change the window's z-order.
    SetWindowPosFailed(String),
    /// A query about the window failed.
    GetWindowInfoFailed(String),
    /// The window's pin marker could not be set.
    SetPropertyFailed(String),
    /// The window's alpha could not be applied.
    TransparencyFailed(String),
    /// The window is excluded from pinning by policy.
    WindowExcluded,
    /// Any other failure reported by the windowing system.
    WindowsApiError(String),
}

impl PinError {
    /// Whether the error says that the window to act on does not exist.
    pub open spec fn spec_is_not_found(&self) -> bool {
        self is NoForegroundWindow || self is NoSuchWindow
    }

    /// Whether the error says that the window to act on does not exist.
    pub fn is_not_found(&self) -> (r: bool)
        ensures
            r == self.spec_is_not_found(),
    {
        match self {
            PinError::NoForegroundWindow => true,
            PinError::NoSuchWindow => true,
            _ => false,
        }
    }

    /// The human-readable text of the error.
    pub fn message(&self) -> (r: String)
        ensures
            r@ == self.spec_message(),
    {
        match self {
            PinError::NoForegroundWindow => String::from_str("No foreground window found"),
            PinError::NoSuchWindow => String::from_str("Window no longer exists"),
            PinError::SetWindowPosFailed(s) => String::from_str(
                "Failed to set window position: ",
            ).concat(s.as_str()),
            PinError::GetWindowInfoFailed(s) => String::from_str(
                "Failed to get window info: ",
            ).concat(s.as_str()),
            PinError::SetPropertyFailed(s) => String::from_str("Failed to set property: ").concat(
                s.as_str(),
            ),
            PinError::TransparencyFailed(s) => String::from_str(
                "Failed to set transparency: ",
            ).concat(s.as_str()),
            PinError::WindowExcluded => String::from_str("Window is excluded from pinning"),
            PinError::WindowsApiError(s) => String::from_str("Windows API error: ").concat(
                s.as_str(),
            ),
        }
    }

    /// The text that `message` returns.
    pub open spec fn spec_message(&self) -> Seq<char> {
        match self {
            PinError::NoForegroundWindow => "No foreground window found"@,
            PinError::NoSuchWindow => "Window no longer exists"@,
            PinError::SetWindowPosFailed(s) => "Failed to set window position: "@ + s@,
            PinError::GetWindowInfoFailed(s) => "Failed to get window info: "@ + s@,
            PinError::SetPropertyFailed(s) => "Failed to set property: "@ + s@,
            PinError::TransparencyFailed(s) => "Failed to set transparency: "@ + s@,
            PinError::WindowExcluded => "Window is excluded from pinning"@,
            PinError::WindowsApiError(s) => "Windows API error: "@ + s@,
        }
    }
}

} // verus!
