use vstd::prelude::*;

verus! {

/// Text to show where a tag leaves a field out.
pub open spec fn unknown_text() -> Seq<char> {
    "unknown"@
}

/// The text of an optional tag field, or the placeholder where it is absent.
pub open spec fn text_or_unknown(field: Option<String>) -> Seq<char> {
    match field {
        Some(s) => s@,
        None => unknown_text(),
    }
}

/// Metadata for one playable audio file.
#[derive(Debug, Clone)]
pub struct Track {
    pub path: String,
    pub name: String,
    pub artist: String,
    pub album: String,
    /// Duration in milliseconds.
    pub length: u64,
    /// Average bit rate in bits per second.
    pub bitrate: u64,
}

/// The text fields read from a file's primary tag.
#[derive(Debug)]
pub struct TagText {
    pub title: Option<String>,
    pub artist: Option<String>,
    pub album: Option<String>,
}

fn or_unknown(field: Option<String>) -> (r: String)
    ensures
        r@ == text_or_unknown(field),
{
    match field {
        Some(s) => s,
        None => "unknown".to_owned(),
    }
}

impl Track {
    /// Builds the record of a file from its primary tag and its timing. A file
    /// without a primary tag gives no track.
    pub fn new(path: String, tag: Option<TagText>, length: u64, bitrate: u64) -> (r: Option<Track>)
        ensures
            tag.is_none() <==> r.is_none(),
            tag.is_some() ==> ({
                let t = r.unwrap();
                let g = tag.unwrap();
                &&& t.path == path
                &&& t.name@ == text_or_unknown(g.title)
                &&& t.artist@ == text_or_unknown(g.artist)
                &&& t.album@ == text_or_unknown(g.album)
                &&& t.length == length
                &&& t.bitrate == bitrate
            }),
    {
        match tag {
            None => None,
            Some(g) => Some(
                Track {
                    path,
                    name: or_unknown(g.title),
                    artist: or_unknown(g.artist),
                    album: or_unknown(g.album),
                    length,
                    bitrate,
                },
            ),
        }
    }

    /// An identical, independent copy of this record.
    pub fn duplicate(&self) -> (r: Track)
        ensures
            r == *self,
    {
        Track {
            path: self.path.clone(),
            name: self.name.clone(),
            artist: self.artist.clone(),
            album: self.album.clone(),
            length: self.length,
            bitrate: self.bitrate,
        }
    }
}

/// Whole seconds that `ts` ticks of a time base `numer / denom` last: the
/// whole part of `ts * numer / denom`, wrapping at 2^64.
pub open spec fn time_base_seconds(numer: u32, denom: u32, ts: u64) -> u64 {
    (((ts as int * numer as int) / denom as int) % 0x1_0000_0000_0000_0000) as u64
}

/// Relies on symphonia's `TimeBase::new` (which panics on a zero part) and
/// `TimeBase::calc_time`, of whose result only the whole seconds are kept:
/// the quotient is exact, and wraps where it exceeds a `u64`.
#[verifier::external_body]
fn calc_seconds(numer: u32, denom: u32, ts: u64) -> (r: u64)
    requires
        numer != 0,
        denom != 0,
    ensures
        r == time_base_seconds(numer, denom, ts),
{
    symphonia::core::units::TimeBase::new(numer, denom).calc_time(ts).seconds
}

/// Average bit rate of `file_size` bytes played over `seconds` seconds,
/// rounded down and capped at `u64::MAX`. With no duration, any data at all
/// is due at once: the largest rate; no data is the rate zero.
pub open spec fn average_bitrate(file_size: u64, seconds: u64) -> u64 {
    if seconds == 0 {
        if file_size == 0 { 0 } else { u64::MAX }
    } else if (file_size as int * 8) / (seconds as int) > u64::MAX {
        u64::MAX
    } else {
        ((file_size as int * 8) / (seconds as int)) as u64
    }
}

/// Duration in milliseconds and average bit rate of a file of `file_size`
/// bytes that lasts `seconds` seconds; `None` where the duration in
/// milliseconds does not fit in a `u64`.
pub open spec fn timing_spec(file_size: u64, seconds: u64) -> Option<(u64, u64)> {
    if seconds as int * 1000 > u64::MAX {
        None
    } else {
        Some(((seconds * 1000) as u64, average_bitrate(file_size, seconds)))
    }
}

/// Duration (ms) and average bit rate of a file of `file_size` bytes lasting
/// `seconds` whole seconds.
pub fn timing_from_seconds(file_size: u64, seconds: u64) -> (r: Option<(u64, u64)>)
    ensures
        r == timing_spec(file_size, seconds),
{
    if seconds > u64::MAX / 1000 {
        return None;
    }
    let bitrate: u64 = if seconds == 0 {
        if file_size == 0 { 0 } else { u64::MAX }
    } else {
        let bits: u128 = file_size as u128 * 8;
        let q: u128 = bits / (seconds as u128);
        if q > u64::MAX as u128 { u64::MAX } else { q as u64 }
    };
    Some((seconds * 1000, bitrate))
}

/// Duration (ms) and average bit rate of an audio file of `file_size` bytes
/// whose stream holds `n_frames` frames (none known: zero) of time base
/// `time_base` (none known: one frame a second). `None` where the time base
/// has a zero part or the duration does not fit.
pub fn get_length_bitrate(file_size: u64, n_frames: Option<u64>, time_base: Option<(u32, u32)>) -> (r:
    Option<(u64, u64)>)
    ensures
        ({
            let (numer, denom) = match time_base {
                Some(tb) => tb,
                None => (1u32, 1u32),
            };
            let frames = match n_frames {
                Some(n) => n,
                None => 0u64,
            };
            r == if numer == 0 || denom == 0 {
                None
            } else {
                timing_spec(file_size, time_base_seconds(numer, denom, frames))
            }
        }),
{
    let (numer, denom) = match time_base {
        Some(tb) => tb,
        None => (1u32, 1u32),
    };
    let frames: u64 = match n_frames {
        Some(n) => n,
        None => 0,
    };
    if numer == 0 || denom == 0 {
        return None;
    }
    let seconds = calc_seconds(numer, denom, frames);
    timing_from_seconds(file_size, seconds)
}

} // verus!
