use vstd::prelude::*;

verus! {

// The OpenGL debug output enumerants (KHR_debug), as the driver passes
// them to the debug message callback.
pub const DEBUG_SOURCE_API: u32 = 0x8246;
pub const DEBUG_SOURCE_WINDOW_SYSTEM: u32 = 0x8247;
pub const DEBUG_SOURCE_SHADER_COMPILER: u32 = 0x8248;
pub const DEBUG_SOURCE_THIRD_PARTY: u32 = 0x8249;
pub const DEBUG_SOURCE_APPLICATION: u32 = 0x824A;
pub const DEBUG_SOURCE_OTHER: u32 = 0x824B;

pub const DEBUG_TYPE_ERROR: u32 = 0x824C;
pub const DEBUG_TYPE_DEPRECATED_BEHAVIOR: u32 = 0x824D;
pub const DEBUG_TYPE_UNDEFINED_BEHAVIOR: u32 = 0x824E;
pub const DEBUG_TYPE_PORTABILITY: u32 = 0x824F;
pub const DEBUG_TYPE_PERFORMANCE: u32 = 0x8250;
pub const DEBUG_TYPE_OTHER: u32 = 0x8251;
pub const DEBUG_TYPE_MARKER: u32 = 0x8268;

pub const DEBUG_SEVERITY_HIGH: u32 = 0x9146;
pub const DEBUG_SEVERITY_MEDIUM: u32 = 0x9147;
pub const DEBUG_SEVERITY_LOW: u32 = 0x9148;
pub const DEBUG_SEVERITY_NOTIFICATION: u32 = 0x826B;

/// The label printed for the source of a debug message. (The "other"
/// source is printed as unknown.)
pub open spec fn source_label(source: u32) -> Seq<char> {
    if source == DEBUG_SOURCE_API {
        "API"@
    } else if source == DEBUG_SOURCE_WINDOW_SYSTEM {
        "WINDOW SYSTEM"@
    } else if source == DEBUG_SOURCE_SHADER_COMPILER {
        "SHADER COMPILER"@
    } else if source == DEBUG_SOURCE_THIRD_PARTY {
        "THIRD PARTY"@
    } else if source == DEBUG_SOURCE_APPLICATION {
        "APPLICATION"@
    } else {
        "UNKNOWN"@
    }
}

/// The label printed for the type of a debug message.
pub open spec fn type_label(gltype: u32) -> Seq<char> {
    if gltype == DEBUG_TYPE_ERROR {
        "ERROR"@
    } else if gltype == DEBUG_TYPE_DEPRECATED_BEHAVIOR {
        "DEPRECATED BEHAVIOR"@
    } else if gltype == DEBUG_TYPE_UNDEFINED_BEHAVIOR {
        "UDEFINED BEHAVIOR"@
    } else if gltype == DEBUG_TYPE_PORTABILITY {
        "PORTABILITY"@
    } else if gltype == DEBUG_TYPE_PERFORMANCE {
        "PERFORMANCE"@
    } else if gltype == DEBUG_TYPE_OTHER {
        "OTHER"@
    } else if gltype == DEBUG_TYPE_MARKER {
        "MARKER"@
    } else {
        "UNKNOWN"@
    }
}

/// The label printed for the severity of a debug message.
pub open spec fn severity_label(severity: u32) -> Seq<char> {
    if severity == DEBUG_SEVERITY_HIGH {
        "HIGH"@
    } else if severity == DEBUG_SEVERITY_MEDIUM {
        "MEDIUM"@
    } else if severity == DEBUG_SEVERITY_LOW {
        "LOW"@
    } else {
        "UNKNOWN"@
    }
}

fn source_name(source: u32) -> (s: &'static str)
    ensures
        s@ == source_label(source),
{
    if source == DEBUG_SOURCE_API {
        "API"
    } else if source == DEBUG_SOURCE_WINDOW_SYSTEM {
        "WINDOW SYSTEM"
    } else if source == DEBUG_SOURCE_SHADER_COMPILER {
        "SHADER COMPILER"
    } else if source == DEBUG_SOURCE_THIRD_PARTY {
        "THIRD PARTY"
    } else if source == DEBUG_SOURCE_APPLICATION {
        "APPLICATION"
    } else {
        "UNKNOWN"
    }
}

fn kind_name(gltype: u32) -> (s: &'static str)
    ensures
        s@ == type_label(gltype),
{
    if gltype == DEBUG_TYPE_ERROR {
        "ERROR"
    } else if gltype == DEBUG_TYPE_DEPRECATED_BEHAVIOR {
        "DEPRECATED BEHAVIOR"
    } else if gltype == DEBUG_TYPE_UNDEFINED_BEHAVIOR {
        "UDEFINED BEHAVIOR"
    } else if gltype == DEBUG_TYPE_PORTABILITY {
        "PORTABILITY"
    } else if gltype == DEBUG_TYPE_PERFORMANCE {
        "PERFORMANCE"
    } else if gltype == DEBUG_TYPE_OTHER {
        "OTHER"
    } else if gltype == DEBUG_TYPE_MARKER {
        "MARKER"
    } else {
        "UNKNOWN"
    }
}

/// The labels (type, severity, source) a debug message is printed with, or
/// `None` for a notification, which is not printed.
pub fn debug_message_labels(source: u32, gltype: u32, severity: u32) -> (r: Option<(&'static str, &'static str, &'static str)>)
    ensures
        severity == DEBUG_SEVERITY_NOTIFICATION ==> r is None,
        severity != DEBUG_SEVERITY_NOTIFICATION ==> (r matches Some((t, v, s)) && t@ == type_label(gltype)
            && v@ == severity_label(severity) && s@ == source_label(source)),
{
    let sor = source_name(source);
    let ty = kind_name(gltype);
    let ser = if severity == DEBUG_SEVERITY_HIGH {
        "HIGH"
    } else if severity == DEBUG_SEVERITY_MEDIUM {
        "MEDIUM"
    } else if severity == DEBUG_SEVERITY_LOW {
        "LOW"
    } else if severity == DEBUG_SEVERITY_NOTIFICATION {
        return None;
    } else {
        "UNKNOWN"
    };
    Some((ty, ser, sor))
}

} // verus!
