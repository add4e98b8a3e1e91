use pixel_engine::debug::{
    DebugMessengerMasks, LogLevel, MessageKind, Severity, MESSAGE_GENERAL, MESSAGE_PERFORMANCE,
    MESSAGE_VALIDATION, SEVERITY_ERROR, SEVERITY_INFO, SEVERITY_VERBOSE, SEVERITY_WARNING,
};
use pixel_engine::frame::{FrameSlots, FRAME_COUNTER_WRAP, SYNC_OBJECT_SETS};
use ash::vk::{DebugUtilsMessageSeverityFlagsEXT as S, DebugUtilsMessageTypeFlagsEXT as T};
use pixel_engine::PixelEngine;

#[test]
fn debug_constants_match_ash() {
    assert_eq!(SEVERITY_VERBOSE, S::VERBOSE.as_raw());
    assert_eq!(SEVERITY_INFO, S::INFO.as_raw());
    assert_eq!(SEVERITY_WARNING, S::WARNING.as_raw());
    assert_eq!(SEVERITY_ERROR, S::ERROR.as_raw());
    assert_eq!(MESSAGE_GENERAL, T::GENERAL.as_raw());
    assert_eq!(MESSAGE_VALIDATION, T::VALIDATION.as_raw());
    assert_eq!(MESSAGE_PERFORMANCE, T::PERFORMANCE.as_raw());
}

#[test]
fn messenger_masks() {
    assert_eq!(
        PixelEngine::debug_messenger_masks(),
        DebugMessengerMasks { severities: 0x1111, message_types: 0x7 }
    );
}

#[test]
fn severity_classification() {
    assert_eq!(PixelEngine::message_severity(0x1), Severity::Verbose);
    assert_eq!(PixelEngine::message_severity(0x10), Severity::Info);
    assert_eq!(PixelEngine::message_severity(0x100), Severity::Warning);
    assert_eq!(PixelEngine::message_severity(0x1000), Severity::Error);
    assert_eq!(PixelEngine::message_severity(0x1001), Severity::Unknown);
    assert_eq!(PixelEngine::message_severity(0), Severity::Unknown);
    assert_eq!(PixelEngine::severity_label(Severity::Warning), "[Warning]");
    assert_eq!(PixelEngine::severity_label(Severity::Unknown), "[Unknown]");
}

#[test]
fn message_kind_classification() {
    assert_eq!(PixelEngine::message_kind(0x1), MessageKind::General);
    assert_eq!(PixelEngine::message_kind(0x2), MessageKind::Validation);
    assert_eq!(PixelEngine::message_kind(0x4), MessageKind::Performance);
    assert_eq!(PixelEngine::message_kind(0x3), MessageKind::Unknown);
    assert_eq!(PixelEngine::message_kind_label(MessageKind::Performance), "[Performance]");
}

#[test]
fn log_levels() {
    assert_eq!(PixelEngine::message_log_level(0x1), Some(LogLevel::Debug));
    assert_eq!(PixelEngine::message_log_level(0x10), Some(LogLevel::Info));
    assert_eq!(PixelEngine::message_log_level(0x100), Some(LogLevel::Warn));
    assert_eq!(PixelEngine::message_log_level(0x1000), Some(LogLevel::Error));
    assert_eq!(PixelEngine::message_log_level(0x110), None);
}

#[test]
fn frame_counter_wraps() {
    assert_eq!(PixelEngine::next_frame(0), 1);
    assert_eq!(PixelEngine::next_frame(58), 59);
    assert_eq!(PixelEngine::next_frame(59), 0);
    assert_eq!(PixelEngine::next_frame(125), 6);
    let mut frame = 17;
    for _ in 0..FRAME_COUNTER_WRAP {
        frame = PixelEngine::next_frame(frame);
    }
    assert_eq!(frame, 17);
}

#[test]
fn frame_slots() {
    assert_eq!(
        PixelEngine::frame_slots(1, 2, SYNC_OBJECT_SETS, SYNC_OBJECT_SETS, SYNC_OBJECT_SETS, 3),
        FrameSlots { in_flight_fence: 1, image_available: 1, render_finished: 1, command_buffer: 2 }
    );
}

#[test]
fn command_buffer_count() {
    assert_eq!(PixelEngine::command_buffer_count(3), 3);
    assert_eq!(PixelEngine::command_buffer_count(0), 0);
}
