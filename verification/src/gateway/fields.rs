//! Routing of tracing fields into stored log records.
//!
//! A few field names carry record metadata rather than data: the event
//! message and the `log.*` fields of events bridged from the `log` crate.
//! Those are extracted into dedicated record fields and never appear in the
//! stored field map.

use vstd::prelude::*;

use crate::text::str_eq;

verus! {

/// Whether `name` is a field whose value is extracted into a dedicated
/// record field rather than stored in the field map.
pub open spec fn is_consumed_spec(name: Seq<char>) -> bool {
    name == "message"@ || name == "log.target"@ || name == "log.file"@ || name
        == "log.module_path"@ || name == "log.line"@
}

/// Whether `name` is a field whose value is extracted into a dedicated
/// record field rather than stored in the field map.
pub fn is_consumed(name: &str) -> (b: bool)
    ensures
        b == is_consumed_spec(name@),
{
    str_eq(name, "message") || str_eq(name, "log.target") || str_eq(name, "log.file") || str_eq(
        name,
        "log.module_path",
    ) || str_eq(name, "log.line")
}

/// Where a text-valued field goes.
#[derive(Debug, Clone, Copy, PartialEq, Eq, Structural)]
pub enum TextRoute {
    /// The event message.
    Message,
    /// The real target of a `log`-bridged event.
    LogTarget,
    /// The source file of a `log`-bridged event.
    LogFile,
    /// Dropped: `log.module_path`, and a `log.line` given as text.
    Ignored,
    /// Stored in the field map as a string.
    Field,
}

/// The route of a text-valued field named `name`.
pub open spec fn text_route_spec(name: Seq<char>) -> TextRoute {
    if name == "message"@ {
        TextRoute::Message
    } else if name == "log.target"@ {
        TextRoute::LogTarget
    } else if name == "log.file"@ {
        TextRoute::LogFile
    } else if name == "log.module_path"@ || name == "log.line"@ {
        TextRoute::Ignored
    } else {
        TextRoute::Field
    }
}

/// Where a text-valued field named `name` goes.
pub fn text_route(name: &str) -> (r: TextRoute)
    ensures
        r == text_route_spec(name@),
{
    if str_eq(name, "message") {
        TextRoute::Message
    } else if str_eq(name, "log.target") {
        TextRoute::LogTarget
    } else if str_eq(name, "log.file") {
        TextRoute::LogFile
    } else if str_eq(name, "log.module_path") || str_eq(name, "log.line") {
        TextRoute::Ignored
    } else {
        TextRoute::Field
    }
}

/// Where an integer-valued field goes: `log.line` becomes the record's line
/// when it fits in `u32`; any other consumed field, and a `log.line` out of
/// that range, is dropped (a consumed field never reaches the field map);
/// every other field is stored in the field map.
#[derive(Debug, Clone, Copy, PartialEq, Eq, Structural)]
pub enum IntegerRoute {
    LogLine(u32),
    Ignored,
    Field,
}

/// The route of an integer-valued field named `name` with value `value`.
pub open spec fn integer_route_spec(name: Seq<char>, value: int) -> IntegerRoute {
    if name == "log.line"@ {
        if 0 <= value <= u32::MAX {
            IntegerRoute::LogLine(value as u32)
        } else {
            IntegerRoute::Ignored
        }
    } else if is_consumed_spec(name) {
        IntegerRoute::Ignored
    } else {
        IntegerRoute::Field
    }
}

/// Where an integer-valued field named `name` with value `value` goes.
pub fn integer_route(name: &str, value: i128) -> (r: IntegerRoute)
    ensures
        r == integer_route_spec(name@, value as int),
{
    if str_eq(name, "log.line") {
        if 0 <= value && value <= 0xFFFF_FFFF {
            IntegerRoute::LogLine(value as u32)
        } else {
            IntegerRoute::Ignored
        }
    } else if is_consumed(name) {
        IntegerRoute::Ignored
    } else {
        IntegerRoute::Field
    }
}

/// The names of `names` that are not consumed, in order.
pub open spec fn kept_fields(names: Seq<&str>) -> Seq<&str> {
    names.filter(|n: &str| !is_consumed_spec(n@))
}

/// The declared field names a collector starts with (each set to `null`
/// until a value arrives): every name that is not consumed, in order.
pub fn initial_fields<'a>(names: &Vec<&'a str>) -> (kept: Vec<&'a str>)
    ensures
        kept@ == kept_fields(names@),
{
    let mut kept: Vec<&'a str> = Vec::new();
    let mut i: usize = 0;
    while i < names.len()
        invariant
            i <= names@.len(),
            kept@ == names@.take(i as int).filter(|n: &str| !is_consumed_spec(n@)),
        decreases names@.len() - i,
    {
        proof {
            reveal_with_fuel(Seq::<_>::filter, 1);
            assert(names@.take(i + 1).drop_last() =~= names@.take(i as int));
        }
        if !is_consumed(names[i]) {
            kept.push(names[i]);
        }
        i = i + 1;
    }
    assert(names@.take(names@.len() as int) =~= names@);
    kept
}

/// Severity levels of tracing records.
#[derive(Debug, Clone, Copy, PartialEq, Eq, Structural)]
pub enum TraceLevel {
    Trace,
    Debug,
    Info,
    Warn,
    Error,
}

/// Severity levels of stored log records.
#[derive(Debug, Clone, Copy, PartialEq, Eq, Structural)]
pub enum Level {
    Trace,
    Debug,
    Info,
    Warn,
    Error,
}

/// Maps a tracing level to the stored level of the same name.
pub fn tracing_to_db_level(level: TraceLevel) -> (l: Level)
    ensures
        l == (match level {
            TraceLevel::Trace => Level::Trace,
            TraceLevel::Debug => Level::Debug,
            TraceLevel::Info => Level::Info,
            TraceLevel::Warn => Level::Warn,
            TraceLevel::Error => Level::Error,
        }),
{
    match level {
        TraceLevel::Trace => Level::Trace,
        TraceLevel::Debug => Level::Debug,
        TraceLevel::Info => Level::Info,
        TraceLevel::Warn => Level::Warn,
        TraceLevel::Error => Level::Error,
    }
}

/// A consumed field never reaches the field map, whichever way its value
/// arrives: as text or as an integer it is routed to a record field or
/// dropped, and it is not among the initial fields. Every other field is
/// stored in the map.
pub proof fn law_consumed_fields_stay_out_of_the_map(name: Seq<char>, value: int, declared: Seq<&str>)
    ensures
        forall|k: int| 0 <= k < kept_fields(declared).len() ==> !is_consumed_spec((#[trigger] kept_fields(declared)[k])@),
        is_consumed_spec(name) <==> text_route_spec(name) != TextRoute::Field,
        is_consumed_spec(name) ==> integer_route_spec(name, value) != IntegerRoute::Field,
        !is_consumed_spec(name) ==> integer_route_spec(name, value) == IntegerRoute::Field,
{
    declared.filter_lemma(|n: &str| !is_consumed_spec(n@));
}

} // verus!
