//! The debug messenger: which messages it asks for, and how the callback
//! classifies a message and at which level it logs it.

use vstd::prelude::*;

use crate::PixelEngine;

verus! {

/// `VK_DEBUG_UTILS_MESSAGE_SEVERITY_VERBOSE_BIT_EXT`.
pub const SEVERITY_VERBOSE: u32 = 0x1;

/// `VK_DEBUG_UTILS_MESSAGE_SEVERITY_INFO_BIT_EXT`.
pub const SEVERITY_INFO: u32 = 0x10;

/// `VK_DEBUG_UTILS_MESSAGE_SEVERITY_WARNING_BIT_EXT`.
pub const SEVERITY_WARNING: u32 = 0x100;

/// `VK_DEBUG_UTILS_MESSAGE_SEVERITY_ERROR_BIT_EXT`.
pub const SEVERITY_ERROR: u32 = 0x1000;

/// `VK_DEBUG_UTILS_MESSAGE_TYPE_GENERAL_BIT_EXT`.
pub const MESSAGE_GENERAL: u32 = 0x1;

/// `VK_DEBUG_UTILS_MESSAGE_TYPE_VALIDATION_BIT_EXT`.
pub const MESSAGE_VALIDATION: u32 = 0x2;

/// `VK_DEBUG_UTILS_MESSAGE_TYPE_PERFORMANCE_BIT_EXT`.
pub const MESSAGE_PERFORMANCE: u32 = 0x4;

/// The severity of a debug message, as the callback reads it.
#[derive(Clone, Copy, Debug, PartialEq, Eq, Structural)]
pub enum Severity {
    Verbose,
    Warning,
    Error,
    Info,
    Unknown,
}

/// The type of a debug message, as the callback reads it.
#[derive(Clone, Copy, Debug, PartialEq, Eq, Structural)]
pub enum MessageKind {
    General,
    Performance,
    Validation,
    Unknown,
}

/// The level at which the callback logs a message.
#[derive(Clone, Copy, Debug, PartialEq, Eq, Structural)]
pub enum LogLevel {
    Debug,
    Warn,
    Error,
    Info,
}

/// The severities and types of messages the messenger is created for.
#[derive(Clone, Copy, Debug, PartialEq, Eq, Structural)]
pub struct DebugMessengerMasks {
    pub severities: u32,
    pub message_types: u32,
}

/// The severity named by a raw severity mask: a mask that is exactly one
/// of the four known bits names that severity, any other mask none.
pub open spec fn severity_of(bits: u32) -> Severity {
    if bits == SEVERITY_VERBOSE {
        Severity::Verbose
    } else if bits == SEVERITY_WARNING {
        Severity::Warning
    } else if bits == SEVERITY_ERROR {
        Severity::Error
    } else if bits == SEVERITY_INFO {
        Severity::Info
    } else {
        Severity::Unknown
    }
}

/// The message type named by a raw type mask: a mask that is exactly one
/// of the three known bits names that type, any other mask none.
pub open spec fn message_kind_of(bits: u32) -> MessageKind {
    if bits == MESSAGE_GENERAL {
        MessageKind::General
    } else if bits == MESSAGE_PERFORMANCE {
        MessageKind::Performance
    } else if bits == MESSAGE_VALIDATION {
        MessageKind::Validation
    } else {
        MessageKind::Unknown
    }
}

/// The level a message of severity `s` is logged at; unknown severities
/// are not logged.
pub open spec fn level_of(s: Severity) -> Option<LogLevel> {
    match s {
        Severity::Verbose => Some(LogLevel::Debug),
        Severity::Warning => Some(LogLevel::Warn),
        Severity::Error => Some(LogLevel::Error),
        Severity::Info => Some(LogLevel::Info),
        Severity::Unknown => None,
    }
}

impl PixelEngine {
    /// The messenger takes messages of every severity (verbose, info,
    /// warning, error) and of every type (general, validation, performance).
    pub fn debug_messenger_masks() -> (masks: DebugMessengerMasks)
        ensures
            masks.severities == SEVERITY_WARNING | SEVERITY_VERBOSE | SEVERITY_INFO | SEVERITY_ERROR,
            masks.message_types == MESSAGE_GENERAL | MESSAGE_PERFORMANCE | MESSAGE_VALIDATION,
            masks.severities == 0x1111,
            masks.message_types == 0x7,
    {
        let severities = SEVERITY_WARNING | SEVERITY_VERBOSE | SEVERITY_INFO | SEVERITY_ERROR;
        let message_types = MESSAGE_GENERAL | MESSAGE_PERFORMANCE | MESSAGE_VALIDATION;
        assert(SEVERITY_WARNING | SEVERITY_VERBOSE | SEVERITY_INFO | SEVERITY_ERROR == 0x1111u32)
            by (bit_vector);
        assert(MESSAGE_GENERAL | MESSAGE_PERFORMANCE | MESSAGE_VALIDATION == 0x7u32) by (bit_vector);
        DebugMessengerMasks { severities, message_types }
    }

    /// The severity of a message whose raw severity mask is `bits`.
    pub fn message_severity(bits: u32) -> (s: Severity)
        ensures
            s == severity_of(bits),
    {
        if bits == SEVERITY_VERBOSE {
            Severity::Verbose
        } else if bits == SEVERITY_WARNING {
            Severity::Warning
        } else if bits == SEVERITY_ERROR {
            Severity::Error
        } else if bits == SEVERITY_INFO {
            Severity::Info
        } else {
            Severity::Unknown
        }
    }

    /// The type of a message whose raw type mask is `bits`.
    pub fn message_kind(bits: u32) -> (k: MessageKind)
        ensures
            k == message_kind_of(bits),
    {
        if bits == MESSAGE_GENERAL {
            MessageKind::General
        } else if bits == MESSAGE_PERFORMANCE {
            MessageKind::Performance
        } else if bits == MESSAGE_VALIDATION {
            MessageKind::Validation
        } else {
            MessageKind::Unknown
        }
    }

    /// The label the callback gives a severity.
    pub fn severity_label(s: Severity) -> (label: &'static str)
        ensures
            label@ == match s {
                Severity::Verbose => "[Verbose]"@,
                Severity::Warning => "[Warning]"@,
                Severity::Error => "[Error]"@,
                Severity::Info => "[Info]"@,
                Severity::Unknown => "[Unknown]"@,
            },
    {
        match s {
            Severity::Verbose => "[Verbose]",
            Severity::Warning => "[Warning]",
            Severity::Error => "[Error]",
            Severity::Info => "[Info]",
            Severity::Unknown => "[Unknown]",
        }
    }

    /// The label the callback gives a message type.
    pub fn message_kind_label(k: MessageKind) -> (label: &'static str)
        ensures
            label@ == match k {
                MessageKind::General => "[General]"@,
                MessageKind::Performance => "[Performance]"@,
                MessageKind::Validation => "[Validation]"@,
                MessageKind::Unknown => "[Unknown]"@,
            },
    {
        match k {
            MessageKind::General => "[General]",
            MessageKind::Performance => "[Performance]",
            MessageKind::Validation => "[Validation]",
            MessageKind::Unknown => "[Unknown]",
        }
    }

    /// The level at which the callback logs a message of severity `s`.
    pub fn log_level(s: Severity) -> (level: Option<LogLevel>)
        ensures
            level == level_of(s),
    {
        match s {
            Severity::Verbose => Some(LogLevel::Debug),
            Severity::Warning => Some(LogLevel::Warn),
            Severity::Error => Some(LogLevel::Error),
            Severity::Info => Some(LogLevel::Info),
            Severity::Unknown => None,
        }
    }

    /// The level at which the callback logs a message whose raw severity
    /// mask is `bits`: a message is logged exactly when its mask is one of
    /// the four severity bits.
    pub fn message_log_level(bits: u32) -> (level: Option<LogLevel>)
        ensures
            level == level_of(severity_of(bits)),
            level is Some <==> (bits == SEVERITY_VERBOSE || bits == SEVERITY_INFO || bits
                == SEVERITY_WARNING || bits == SEVERITY_ERROR),
    {
        Self::log_level(Self::message_severity(bits))
    }
}

} // verus!
