//! Export: MIDI encoding, the choice of what an export writes, and the
//! names of stem files.

pub mod midi;

use vstd::prelude::*;

use crate::error::Error;
use crate::text::{chars_of, lowercase, same_chars, spec_lowercase};
use crate::types::{ExportFormat, MidiTrack};

verus! {

/// What an export writes.
#[derive(Debug, Clone, Copy, PartialEq, Eq, Structural)]
pub enum ExportTarget {
    /// A Standard MIDI File of the tune.
    MidiFile,
    /// A WAV file of the rendered audio.
    WavFile,
    /// A directory of WAV files, one per track, each rendered from that
    /// track alone and named by `stem_file_name` of the track's name (see
    /// `stem_file_names`).
    StemFiles,
    /// A GarageBand bundle (with the audio mix when there is one).
    GarageBandBundle,
}

/// Decide what exporting in `format` writes. The stems and mix formats
/// write the rendered audio, so they need it: without audio they fail with
/// an export error that names the format.
pub fn export_plan(format: ExportFormat, has_audio: bool) -> (r: Result<ExportTarget, Error>)
    ensures
        format == ExportFormat::Midi ==> r == Ok::<ExportTarget, Error>(ExportTarget::MidiFile),
        format == ExportFormat::GarageBand ==> r == Ok::<ExportTarget, Error>(
            ExportTarget::GarageBandBundle,
        ),
        format == ExportFormat::Stems && has_audio ==> r == Ok::<ExportTarget, Error>(
            ExportTarget::StemFiles,
        ),
        format == ExportFormat::Mix && has_audio ==> r == Ok::<ExportTarget, Error>(
            ExportTarget::WavFile,
        ),
        format == ExportFormat::Stems && !has_audio ==> (r matches Err(Error::Export(m)) && m@
            == "Audio required for stems export"@),
        format == ExportFormat::Mix && !has_audio ==> (r matches Err(Error::Export(m)) && m@
            == "Audio required for mix export"@),
{
    match format {
        ExportFormat::Midi => Ok(ExportTarget::MidiFile),
        ExportFormat::Stems => {
            if has_audio {
                Ok(ExportTarget::StemFiles)
            } else {
                Err(Error::Export("Audio required for stems export".to_owned()))
            }
        },
        ExportFormat::Mix => {
            if has_audio {
                Ok(ExportTarget::WavFile)
            } else {
                Err(Error::Export("Audio required for mix export".to_owned()))
            }
        },
        ExportFormat::GarageBand => Ok(ExportTarget::GarageBandBundle),
    }
}

/// `s` with every space replaced by an underscore.
pub open spec fn spec_underscored(s: Seq<char>) -> Seq<char> {
    s.map_values(|c: char| if c == ' ' { '_' } else { c })
}

/// `str::replace(s, " ", "_")`: every space replaced by an underscore.
#[verifier::external_body]
fn underscored(s: &str) -> (r: String)
    ensures
        r@ == spec_underscored(s@),
{
    s.replace(" ", "_")
}

/// The file name of a stem called `name`: the name with spaces turned into
/// underscores, lowercased, with the extension ".wav".
pub open spec fn spec_stem_name(name: Seq<char>) -> Seq<char> {
    spec_lowercase(spec_underscored(name)) + ".wav"@
}

/// The file name of a stem: its name with spaces turned into underscores,
/// lowercased, with the extension ".wav".
pub fn stem_file_name(name: &str) -> (r: String)
    ensures
        r@ == spec_stem_name(name@),
{
    let replaced = underscored(name);
    let mut r = lowercase(replaced.as_str());
    r.append(".wav");
    r
}


/// The stem files of a tune's tracks: one per track, in track order, each
/// named by `stem_file_name` of the track's name. Names are not made
/// unique: two tracks whose names agree once spaces become underscores and
/// letters are lowercased (two tracks of the same instrument, say) get the
/// same file name, and the later stem written replaces the earlier.
pub fn stem_file_names(tracks: &Vec<MidiTrack>) -> (r: Vec<String>)
    ensures
        r@.len() == tracks@.len(),
        forall|i: int| 0 <= i < tracks@.len() ==> (#[trigger] r@[i])@ == spec_stem_name(tracks@[i].name@),
{
    let mut r: Vec<String> = Vec::new();
    let mut i: usize = 0;
    while i < tracks.len()
        invariant
            i <= tracks@.len(),
            r@.len() == i,
            forall|k: int| 0 <= k < i ==> (#[trigger] r@[k])@ == spec_stem_name(tracks@[k].name@),
        decreases tracks.len() - i,
    {
        r.push(stem_file_name(tracks[i].name.as_str()));
        i = i + 1;
    }
    r
}

/// The export format that each name stands for.
pub open spec fn spec_export_format(name: Seq<char>) -> Option<ExportFormat> {
    if name == "midi"@ {
        Some(ExportFormat::Midi)
    } else if name == "stems"@ {
        Some(ExportFormat::Stems)
    } else if name == "mix"@ {
        Some(ExportFormat::Mix)
    } else if name == "garageband"@ {
        Some(ExportFormat::GarageBand)
    } else {
        None
    }
}

/// Look up an export format by its exact name.
pub fn parse_export_format(name: &str) -> (r: Option<ExportFormat>)
    ensures
        r == spec_export_format(name@),
{
    let n = chars_of(name);
    if same_chars(&n, &chars_of("midi")) {
        Some(ExportFormat::Midi)
    } else if same_chars(&n, &chars_of("stems")) {
        Some(ExportFormat::Stems)
    } else if same_chars(&n, &chars_of("mix")) {
        Some(ExportFormat::Mix)
    } else if same_chars(&n, &chars_of("garageband")) {
        Some(ExportFormat::GarageBand)
    } else {
        None
    }
}

} // verus!
