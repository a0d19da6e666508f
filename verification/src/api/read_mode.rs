//! Read-mode resolution: which read mode a request is served in.

use vstd::prelude::*;
use vstd::string::*;

use crate::domain::types::ReadMode;
use crate::projection::spec::{ProjectionSpec, ReadModePolicy};
use crate::text::{concat2, str_eq};

verus! {

/// Why a read mode cannot be used.
#[derive(Debug, Clone, PartialEq, Eq)]
pub enum ReadModeError {
    UnsupportedMode(String),
    PinRequired,
}

impl ReadModeError {
    /// The text of the error.
    pub fn to_string(&self) -> (r: String)
        ensures
            r@ == match self {
                ReadModeError::UnsupportedMode(m) => "Unsupported read mode: "@ + m@,
                ReadModeError::PinRequired => "academic-pinned mode requires ?pin= parameter"@,
            },
    {
        match self {
            ReadModeError::UnsupportedMode(m) => concat2("Unsupported read mode: ", m.as_str()),
            ReadModeError::PinRequired => String::from_str("academic-pinned mode requires ?pin= parameter"),
        }
    }
}

/// The read mode a request names, in kebab or snake case.
pub open spec fn parsed_mode(s: Seq<char>) -> Option<ReadMode> {
    if s == "operational-latest"@ || s == "operational_latest"@ {
        Some(ReadMode::OperationalLatest)
    } else if s == "academic-pinned"@ || s == "academic_pinned"@ {
        Some(ReadMode::AcademicPinned)
    } else if s == "application-cached"@ || s == "application_cached"@ {
        Some(ReadMode::ApplicationCached)
    } else {
        None
    }
}

/// The `Debug` name of a read mode.
pub open spec fn mode_debug_name(m: ReadMode) -> Seq<char> {
    match m {
        ReadMode::AcademicPinned => "AcademicPinned"@,
        ReadMode::OperationalLatest => "OperationalLatest"@,
        ReadMode::ApplicationCached => "ApplicationCached"@,
    }
}

/// Whether the spec declares a read mode.
pub open spec fn declares(spec: ProjectionSpec, m: ReadMode) -> bool {
    exists|i: int| 0 <= i < spec.read_modes@.len() && (#[trigger] spec.read_modes@[i]).mode == m
}

/// The mode a request is served in: the requested one, else the spec's
/// first declared mode, else operational-latest.
pub open spec fn chosen_mode(spec: ProjectionSpec, requested: Option<Seq<char>>) -> Option<ReadMode> {
    match requested {
        Some(r) => parsed_mode(r),
        None => Some(
            if spec.read_modes@.len() > 0 {
                spec.read_modes@[0].mode
            } else {
                ReadMode::OperationalLatest
            },
        ),
    }
}

pub struct ReadModeResolver;

impl ReadModeResolver {
    /// Resolves the read mode: an unknown requested name is unsupported
    /// (with that name); a mode the spec does not declare is unsupported
    /// (with its `Debug` name); academic-pinned needs a pin.
    pub fn resolve(spec: &ProjectionSpec, requested_mode: Option<&str>, pin: Option<&str>) -> (r: Result<
        ReadMode,
        ReadModeError,
    >)
        ensures
            ({
                let requested = match requested_mode {
                    Some(s) => Some(s@),
                    None => None,
                };
                match chosen_mode(*spec, requested) {
                    None => r matches Err(ReadModeError::UnsupportedMode(m)) && m@ == requested->0,
                    Some(mode) => if !declares(*spec, mode) {
                        r matches Err(ReadModeError::UnsupportedMode(m)) && m@ == mode_debug_name(mode)
                    } else if mode == ReadMode::AcademicPinned && pin is None {
                        r == Err::<ReadMode, ReadModeError>(ReadModeError::PinRequired)
                    } else {
                        r == Ok::<ReadMode, ReadModeError>(mode)
                    },
                }
            }),
    {
        let mode = match requested_mode {
            Some(requested) => match Self::parse_mode(requested) {
                Ok(m) => m,
                Err(e) => {
                    return Err(e);
                },
            },
            None => {
                if spec.read_modes.len() > 0 {
                    spec.read_modes[0].mode
                } else {
                    ReadMode::OperationalLatest
                }
            },
        };
        let mut supported = false;
        let mut i: usize = 0;
        while i < spec.read_modes.len()
            invariant
                i <= spec.read_modes@.len(),
                supported == exists|k: int| 0 <= k < i && (#[trigger] spec.read_modes@[k]).mode == mode,
            decreases spec.read_modes@.len() - i,
        {
            if spec.read_modes[i].mode == mode {
                supported = true;
            }
            i = i + 1;
        }
        if !supported {
            let name = match mode {
                ReadMode::AcademicPinned => "AcademicPinned",
                ReadMode::OperationalLatest => "OperationalLatest",
                ReadMode::ApplicationCached => "ApplicationCached",
            };
            return Err(ReadModeError::UnsupportedMode(String::from_str(name)));
        }
        if mode == ReadMode::AcademicPinned && pin.is_none() {
            return Err(ReadModeError::PinRequired);
        }
        Ok(mode)
    }

    fn parse_mode(s: &str) -> (r: Result<ReadMode, ReadModeError>)
        ensures
            match parsed_mode(s@) {
                Some(m) => r == Ok::<ReadMode, ReadModeError>(m),
                None => r matches Err(ReadModeError::UnsupportedMode(m)) && m@ == s@,
            },
    {
        if str_eq(s, "operational-latest") || str_eq(s, "operational_latest") {
            Ok(ReadMode::OperationalLatest)
        } else if str_eq(s, "academic-pinned") || str_eq(s, "academic_pinned") {
            Ok(ReadMode::AcademicPinned)
        } else if str_eq(s, "application-cached") || str_eq(s, "application_cached") {
            Ok(ReadMode::ApplicationCached)
        } else {
            Err(ReadModeError::UnsupportedMode(String::from_str(s)))
        }
    }
}

} // verus!
