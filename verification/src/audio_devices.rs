//! Choosing audio devices by name: the virtual cable when one is installed,
//! otherwise the platform's way of capturing what the speakers play.
use vstd::prelude::*;
use crate::text::{contains_str, has_infix, lowercase_of, to_lowercase};

verus! {

/// The word that marks a virtual-cable device.
pub const CABLE_KEYWORD: &'static str = "cable";

/// The word that marks a PulseAudio/PipeWire monitor source.
pub const MONITOR_KEYWORD: &'static str = "monitor";

/// The device name, ignoring case, contains `keyword`; a device whose name
/// could not be read matches nothing.
pub open spec fn name_has(name: Option<String>, keyword: Seq<char>) -> bool {
    match name {
        Some(n) => has_infix(lowercase_of(n@), keyword),
        None => false,
    }
}

/// The index of the first device whose name contains `keyword` ignoring case.
pub fn first_device_named(names: &[Option<String>], keyword: &str) -> (r: Option<usize>)
    ensures
        match r {
            Some(i) => i < names@.len() && name_has(names@[i as int], keyword@)
                && forall|k: int| 0 <= k < i ==> !name_has(#[trigger] names@[k], keyword@),
            None => forall|k: int| 0 <= k < names@.len() ==> !name_has(#[trigger] names@[k], keyword@),
        },
{
    let mut i: usize = 0;
    while i < names.len()
        invariant
            0 <= i <= names@.len(),
            forall|k: int| 0 <= k < i ==> !name_has(#[trigger] names@[k], keyword@),
        decreases names@.len() - i,
    {
        match &names[i] {
            Some(n) => {
                let lower = to_lowercase(n.as_str());
                if contains_str(lower.as_str(), keyword) {
                    return Some(i);
                }
            },
            None => {},
        }
        i = i + 1;
    }
    None
}

/// The platform the capture runs on.
#[derive(Debug, Clone, Copy, PartialEq, Eq)]
pub enum Platform {
    Windows,
    Linux,
    Other,
}

/// Where desktop audio is captured from.
#[derive(Debug, Clone, Copy, PartialEq, Eq)]
pub enum LoopbackSource {
    /// The input device at this index.
    Input(usize),
    /// The default output device, captured in loopback.
    DefaultOutput,
    /// No suitable device: desktop audio capture is off.
    Unavailable,
}

/// The source of desktop audio among the input devices named `inputs`: the
/// first virtual cable; otherwise on Windows the default output device, on
/// Linux the first monitor source, and nothing elsewhere. A microphone is
/// never chosen.
pub fn loopback_source(inputs: &[Option<String>], platform: Platform) -> (r: LoopbackSource)
    ensures
        match r {
            LoopbackSource::Input(i) => i < inputs@.len() && (name_has(inputs@[i as int], CABLE_KEYWORD@)
                || (platform == Platform::Linux && name_has(inputs@[i as int], MONITOR_KEYWORD@))),
            LoopbackSource::DefaultOutput => platform == Platform::Windows,
            LoopbackSource::Unavailable => platform != Platform::Windows,
        },
        (exists|k: int| 0 <= k < inputs@.len() && name_has(#[trigger] inputs@[k], CABLE_KEYWORD@))
            ==> (r matches LoopbackSource::Input(i) && name_has(inputs@[i as int], CABLE_KEYWORD@)
            && forall|k: int| 0 <= k < i ==> !name_has(#[trigger] inputs@[k], CABLE_KEYWORD@)),
        platform == Platform::Linux && !(exists|k: int| 0 <= k < inputs@.len() && name_has(#[trigger] inputs@[k], CABLE_KEYWORD@))
            ==> match r {
                LoopbackSource::Input(i) => forall|k: int| 0 <= k < i ==> !name_has(#[trigger] inputs@[k], MONITOR_KEYWORD@),
                _ => forall|k: int| 0 <= k < inputs@.len() ==> !name_has(#[trigger] inputs@[k], MONITOR_KEYWORD@),
            },
{
    if let Some(i) = first_device_named(inputs, CABLE_KEYWORD) {
        return LoopbackSource::Input(i);
    }
    match platform {
        Platform::Windows => LoopbackSource::DefaultOutput,
        Platform::Linux => match first_device_named(inputs, MONITOR_KEYWORD) {
            Some(i) => LoopbackSource::Input(i),
            None => LoopbackSource::Unavailable,
        },
        Platform::Other => LoopbackSource::Unavailable,
    }
}

/// The output device of the virtual cable, by index among `outputs`.
pub fn cable_output(outputs: &[Option<String>]) -> (r: Option<usize>)
    ensures
        match r {
            Some(i) => i < outputs@.len() && name_has(outputs@[i as int], CABLE_KEYWORD@)
                && forall|k: int| 0 <= k < i ==> !name_has(#[trigger] outputs@[k], CABLE_KEYWORD@),
            None => forall|k: int| 0 <= k < outputs@.len() ==> !name_has(#[trigger] outputs@[k], CABLE_KEYWORD@),
        },
{
    first_device_named(outputs, CABLE_KEYWORD)
}

} // verus!
