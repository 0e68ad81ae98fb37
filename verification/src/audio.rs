//! Audio capture settings and input-device listing.

use vstd::prelude::*;
use crate::db::opt_view;

verus! {

/// Samples the capture ring buffer holds: one minute at 16 kHz.
pub const RING_BUFFER_SIZE: usize = 960_000;

/// An input device as the settings screen lists it.
#[derive(Debug, Clone)]
pub struct AudioDeviceInfo {
    pub name: String,
    pub is_default: bool,
}

/// What a recording is captured as.
#[derive(Debug, Clone)]
pub struct AudioConfig {
    pub sample_rate: u32,
    pub channels: u16,
    /// The device to record from; `None` is the system default.
    pub device_name: Option<String>,
}

impl Default for AudioConfig {
    /// 16 kHz mono from the default device, what the recogniser expects.
    fn default() -> (r: Self)
        ensures
            r.sample_rate == 16000,
            r.channels == 1,
            r.device_name is None,
    {
        AudioConfig { sample_rate: 16000, channels: 1, device_name: None }
    }
}

/// The device list for the settings screen: every named device, in order,
/// marked default when its name is the default device's.
pub fn device_infos(names: Vec<String>, default_name: Option<String>) -> (r: Vec<AudioDeviceInfo>)
    ensures
        r@.len() == names@.len(),
        forall|i: int|
            0 <= i < names@.len() ==> #[trigger] r@[i].name == names@[i] && r@[i].is_default == (
            opt_view(default_name) == Some(names@[i]@)),
{
    let mut r: Vec<AudioDeviceInfo> = Vec::new();
    let mut i: usize = 0;
    while i < names.len()
        invariant
            0 <= i <= names.len(),
            r@.len() == i,
            forall|j: int|
                0 <= j < i ==> #[trigger] r@[j].name == names@[j] && r@[j].is_default == (opt_view(
                    default_name,
                ) == Some(names@[j]@)),
        decreases names.len() - i,
    {
        let name = names[i].clone();
        let is_default = match &default_name {
            Some(d) => crate::text::str_eq(d.as_str(), name.as_str()),
            None => false,
        };
        assert(name == names@[i as int]);
        assert(is_default == (opt_view(default_name) == Some(names@[i as int]@)));
        let ghost before = r@;
        r.push(AudioDeviceInfo { name, is_default });
        assert(forall|j: int| 0 <= j < i ==> r@[j] == before[j]);
        i = i + 1;
    }
    r
}

/// The capture device to open: the first device whose name (when it could
/// be read) is the requested one; `None` means the system default, which is
/// also used when no device was requested.
pub fn find_device(names: &Vec<Option<String>>, requested: &Option<String>) -> (r: Option<usize>)
    ensures
        match r {
            Some(i) => i < names@.len() && requested is Some && opt_view(names@[i as int]) == opt_view(
                *requested,
            ) && forall|j: int| 0 <= j < i ==> opt_view(names@[j]) != opt_view(*requested),
            None => requested is None || forall|j: int|
                0 <= j < names@.len() ==> opt_view(names@[j]) != opt_view(*requested),
        },
{
    match requested {
        None => None,
        Some(want) => {
            let mut i: usize = 0;
            while i < names.len()
                invariant
                    0 <= i <= names.len(),
                    *requested == Some(*want),
                    forall|j: int| 0 <= j < i ==> opt_view(names@[j]) != opt_view(*requested),
                decreases names.len() - i,
            {
                match &names[i] {
                    Some(n) => {
                        if crate::text::str_eq(n.as_str(), want.as_str()) {
                            return Some(i);
                        }
                    },
                    None => {},
                }
                i = i + 1;
            }
            None
        },
    }
}

} // verus!
