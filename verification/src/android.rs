//! What the controller reads back from Android: whether a Bluetooth media
//! route is connected and carries music, and audioserver's process id.
use vstd::prelude::*;

use crate::text::{
    contains, contains_str, is_ws, lines, owned, parse_u32, parse_u32_spec, split_at_str,
    split_lines, split_once_str, starts_with, trim, trim_start, trim_str, views,
};

verus! {

broadcast use vstd::string::group_string_axioms;

/// Whether a Bluetooth media route is connected.
#[derive(Clone, Copy, Debug, PartialEq, Eq, Structural)]
pub enum A2dpState {
    Connected,
    Disconnected,
    Unknown,
}

impl A2dpState {
    pub open spec fn label_spec(self) -> Seq<char> {
        match self {
            A2dpState::Connected => "connected"@,
            A2dpState::Disconnected => "disconnected"@,
            A2dpState::Unknown => "unknown"@,
        }
    }

    pub fn label(self) -> (r: &'static str)
        ensures
            r@ == self.label_spec(),
    {
        match self {
            A2dpState::Connected => "connected",
            A2dpState::Disconnected => "disconnected",
            A2dpState::Unknown => "unknown",
        }
    }
}

/// The device types that carry Bluetooth media: classic A2DP and LE Audio.
pub const MEDIA_DEVICES: [&'static str; 4] = ["bt_a2dp", "ble_headset", "ble_speaker", "ble_broadcast"];

/// `text` names a media device as `(type)`.
pub open spec fn names_media_device(text: Seq<char>) -> bool {
    exists|i: int| 0 <= i < 4 && contains(text, "("@ + #[trigger] MEDIA_DEVICES[i]@ + ")"@)
}

/// `text` mentions a media device.
pub open spec fn mentions_media_device(text: Seq<char>) -> bool {
    exists|i: int| 0 <= i < 4 && contains(text, #[trigger] MEDIA_DEVICES[i]@)
}

/// The text before `marker`, or all of it when the marker is absent.
pub open spec fn section_before(text: Seq<char>, marker: Seq<char>) -> Seq<char> {
    match split_at_str(text, marker) {
        Some((a, _)) => a,
        None => text,
    }
}

/// A `Devices:` line of the music stream that names a media device.
pub open spec fn music_route_line(line: Seq<char>) -> bool {
    starts_with(trim_start(line), "Devices:"@) && mentions_media_device(line)
}

/// What `dumpsys audio` shows of the media route: a media device among the
/// connected devices (before the APM section), and one among the devices
/// of `STREAM_MUSIC` (before the next stream).
pub open spec fn media_route_in_dump(dump: Seq<char>) -> bool {
    match split_at_str(dump, "Connected devices:"@) {
        None => false,
        Some((_, rest)) => {
            let connected = section_before(rest, "APM Connected device"@);
            names_media_device(connected) && match split_at_str(dump, "- STREAM_MUSIC:"@) {
                None => false,
                Some((_, music_rest)) => {
                    let music = section_before(music_rest, "\n- STREAM_"@);
                    exists|i: int|
                        0 <= i < lines(music).len() && music_route_line(#[trigger] lines(music)[i])
                },
            }
        },
    }
}

fn names_media(text: &str) -> (r: bool)
    ensures
        r == names_media_device(text@),
{
    let devices = MEDIA_DEVICES;
    let mut i: usize = 0;
    while i < 4
        invariant
            i <= 4,
            devices == MEDIA_DEVICES,
            forall|j: int| 0 <= j < i ==> !contains(text@, "("@ + #[trigger] MEDIA_DEVICES[j]@ + ")"@),
        decreases 4 - i,
    {
        let mut needle = owned("(");
        crate::text::push_str(&mut needle, devices[i]);
        crate::text::push_str(&mut needle, ")");
        if contains_str(text, needle.as_str()) {
            return true;
        }
        i += 1;
    }
    false
}

fn mentions_media(text: &str) -> (r: bool)
    ensures
        r == mentions_media_device(text@),
{
    let devices = MEDIA_DEVICES;
    let mut i: usize = 0;
    while i < 4
        invariant
            i <= 4,
            devices == MEDIA_DEVICES,
            forall|j: int| 0 <= j < i ==> !contains(text@, #[trigger] MEDIA_DEVICES[j]@),
        decreases 4 - i,
    {
        if contains_str(text, devices[i]) {
            return true;
        }
        i += 1;
    }
    false
}

fn before_marker(text: String, marker: &str) -> (r: String)
    ensures
        r@ == section_before(text@, marker@),
{
    match split_once_str(text.as_str(), marker) {
        Some((a, _)) => a,
        None => text,
    }
}

/// `str::trim_start`.
fn trim_start_str(s: &str) -> (r: String)
    ensures
        r@ == trim_start(s@),
{
    let v = crate::text::chars_of(s);
    let mut i: usize = 0;
    while i < v.len() && crate::text::is_whitespace(v[i])
        invariant
            i <= v@.len(),
            v@ == s@,
            forall|j: int| 0 <= j < i ==> is_ws(#[trigger] v@[j]),
        decreases v@.len() - i,
    {
        i += 1;
    }
    proof {
        crate::text::lemma_leading_ws(s@, i as int);
    }
    assert(v@.subrange(i as int, v@.len() as int) =~= trim_start(s@));
    crate::text::string_of_range(&v, i, v.len())
}

/// Whether `dumpsys audio` shows a connected Bluetooth media device that
/// carries music.
pub fn bluetooth_a2dp_connected_in_dump(dump: &str) -> (r: bool)
    ensures
        r == media_route_in_dump(dump@),
{
    let rest = match split_once_str(dump, "Connected devices:") {
        None => {
            return false;
        },
        Some((_, rest)) => rest,
    };
    let connected = before_marker(rest, "APM Connected device");
    if !names_media(connected.as_str()) {
        return false;
    }
    let music_rest = match split_once_str(dump, "- STREAM_MUSIC:") {
        None => {
            return false;
        },
        Some((_, m)) => m,
    };
    let music = before_marker(music_rest, "\n- STREAM_");
    let ls = split_lines(music.as_str());
    assert(media_route_in_dump(dump@) == exists|j: int|
        0 <= j < lines(music@).len() && music_route_line(#[trigger] lines(music@)[j]));
    let mut i: usize = 0;
    while i < ls.len()
        invariant
            i <= ls@.len(),
            views(ls@) == lines(music@),
            media_route_in_dump(dump@) == exists|j: int|
                0 <= j < lines(music@).len() && music_route_line(#[trigger] lines(music@)[j]),
            forall|j: int| 0 <= j < i ==> !music_route_line(#[trigger] lines(music@)[j]),
        decreases ls@.len() - i,
    {
        assert(ls@[i as int]@ == lines(music@)[i as int]);
        let trimmed = trim_start_str(ls[i].as_str());
        let stripped = crate::text::strip_prefix_str(trimmed.as_str(), "Devices:");
        let devices_line = stripped.is_some();
        assert(devices_line == starts_with(trim_start(lines(music@)[i as int]), "Devices:"@));
        let mentions = mentions_media(ls[i].as_str());
        if devices_line && mentions {
            assert(music_route_line(lines(music@)[i as int]));
            return true;
        }
        assert(!music_route_line(lines(music@)[i as int]));
        i += 1;
    }
    false
}

/// How a route check ends: verified when the route came back, else why it
/// could not be confirmed.
pub open spec fn route_verdict_spec(state: A2dpState) -> Result<Seq<char>, Seq<char>> {
    match state {
        A2dpState::Connected => Ok("verified"@),
        A2dpState::Unknown => Err(
            "audio policy was applied, but A2DP route verification was unavailable"@,
        ),
        A2dpState::Disconnected => Err(
            "audio policy was applied, but the connected headset must be explicitly disconnected and reconnected before STREAM_MUSIC returns to A2DP"@,
        ),
    }
}

/// The verdict of a route check on the state last seen.
pub fn route_verdict(state: A2dpState) -> (r: Result<&'static str, String>)
    ensures
        match route_verdict_spec(state) {
            Ok(x) => r matches Ok(y) && y@ == x,
            Err(e) => r matches Err(m) && m@ == e,
        },
{
    match state {
        A2dpState::Connected => Ok("verified"),
        A2dpState::Unknown => Err(
            owned("audio policy was applied, but A2DP route verification was unavailable"),
        ),
        A2dpState::Disconnected => Err(
            owned(
                "audio policy was applied, but the connected headset must be explicitly disconnected and reconnected before STREAM_MUSIC returns to A2DP",
            ),
        ),
    }
}

/// One poll of the route: a connection ends the wait; a disconnection is
/// remembered; an unknown reading keeps what was known.
pub open spec fn poll_step_spec(last_known: A2dpState, observed: A2dpState) -> (A2dpState, bool) {
    match observed {
        A2dpState::Connected => (A2dpState::Connected, true),
        A2dpState::Disconnected => (A2dpState::Disconnected, false),
        A2dpState::Unknown => (last_known, false),
    }
}

/// Folds one poll of the route into what is known; the flag says the wait
/// is over.
pub fn poll_step(last_known: A2dpState, observed: A2dpState) -> (r: (A2dpState, bool))
    ensures
        r == poll_step_spec(last_known, observed),
{
    match observed {
        A2dpState::Connected => (A2dpState::Connected, true),
        A2dpState::Disconnected => (A2dpState::Disconnected, false),
        A2dpState::Unknown => (last_known, false),
    }
}

/// The first whitespace-separated word of a text.
pub open spec fn first_word(s: Seq<char>) -> Seq<char> {
    let t = trim_start(s);
    t.take(crate::text::first_ws(t))
}

/// audioserver's pid from `pidof` output: its first word as a number.
pub open spec fn pidof_pid(s: Seq<char>) -> Option<u32> {
    let w = first_word(s);
    if w.len() == 0 {
        None
    } else {
        parse_u32_spec(w)
    }
}

/// Reads audioserver's pid from `pidof` output.
pub fn pid_from_pidof(output: &str) -> (r: Option<u32>)
    ensures
        r == pidof_pid(output@),
{
    let t = trim_start_str(output);
    let v = crate::text::chars_of(t.as_str());
    let mut i: usize = 0;
    while i < v.len() && !crate::text::is_whitespace(v[i])
        invariant
            i <= v@.len(),
            v@ == t@,
            forall|j: int| 0 <= j < i ==> !is_ws(#[trigger] v@[j]),
        decreases v@.len() - i,
    {
        i += 1;
    }
    proof {
        crate::text::lemma_first_ws(t@, i as int);
    }
    if i == 0 {
        return None;
    }
    let w = crate::text::string_of_range(&v, 0, i);
    assert(v@.subrange(0, i as int) =~= t@.take(i as int));
    parse_u32(w.as_str())
}

/// Reads audioserver's pid from the `getprop` value: the whole trimmed
/// text as a number.
pub fn pid_from_property(output: &str) -> (r: Option<u32>)
    ensures
        r == parse_u32_spec(trim(output@)),
{
    let t = trim_str(output);
    parse_u32(t.as_str())
}

} // verus!
