//! Impulse-response file discovery and WAV header checks.
use vstd::prelude::*;
use vstd::arithmetic::power2::{
    lemma2_to64, lemma2_to64_rest, lemma_pow2_strictly_increases, lemma_pow2_unfold, pow2,
};
use crate::sorting::{is_stable_sort_by, key_of, stable_sort_by_key};
use crate::text::{
    ascii_lower, chars_of, contains_seq, ends_with, occurs_at, range_ends_with_ignore_ascii_case, wav_suffix,
};

verus! {

/// Loads impulse-response files; its file-system work is done by the
/// application around this library.
pub struct FileLoader;

impl FileLoader {
    pub fn new() -> (r: Self) {
        FileLoader
    }
}

/// One directory entry as seen by a directory listing: whether it is a
/// regular file (following links) and its UTF-8 file name.
pub struct DirEntryInfo {
    pub is_file: bool,
    pub file_name: String,
}

/// Whether `Path::extension` of a file named `name` is `wav` in any ASCII
/// case: the name ends with `.wav` and has at least one character before that
/// dot (a leading dot starts a hidden name, not an extension).
pub open spec fn has_wav_extension(name: Seq<char>) -> bool {
    name.len() > 4 && ends_with(ascii_lower(name), wav_suffix())
}

/// The file name of an entry that is a WAV file.
pub open spec fn wav_entry_name(e: DirEntryInfo) -> Option<String> {
    if e.is_file && has_wav_extension(e.file_name@) {
        Some(e.file_name)
    } else {
        None
    }
}

/// The file name of each WAV file entry.
pub open spec fn wav_entry_names() -> spec_fn(DirEntryInfo) -> Option<String> {
    |e: DirEntryInfo| wav_entry_name(e)
}

/// Whether `name` has a `.wav` extension in any ASCII case.
pub fn is_wav_file_name(name: &str) -> (r: bool)
    ensures
        r == has_wav_extension(name@),
{
    let v = chars_of(name);
    let wav = vec!['.', 'w', 'a', 'v'];
    proof {
        assert(wav@ =~= wav_suffix());
        assert(ascii_lower(wav@) =~= wav@);
        assert(v@.subrange(0, v@.len() as int) =~= v@);
    }
    v.len() > 4 && range_ends_with_ignore_ascii_case(&v, 0, v.len(), &wav)
}

/// The names of the WAV files among `entries`, in name order.
pub fn wav_file_names(entries: &Vec<DirEntryInfo>) -> (names: Vec<String>)
    ensures
        is_stable_sort_by(
            entries@.filter_map(wav_entry_names()),
            names@,
            key_of::<String>(),
        ),
{
    let mut found: Vec<String> = Vec::new();
    let mut i: usize = 0;
    assert(entries@.take(0) =~= Seq::<DirEntryInfo>::empty());
    assert(Seq::<DirEntryInfo>::empty().filter_map(wav_entry_names()) =~= Seq::<String>::empty());
    while i < entries.len()
        invariant
            i <= entries@.len(),
            found@ == entries@.take(i as int).filter_map(wav_entry_names()),
        decreases entries@.len() - i,
    {
        proof {
            entries@.lemma_filter_map_take_succ(wav_entry_names(), i as int);
        }
        let e = &entries[i];
        let ghost before = found@;
        if e.is_file && is_wav_file_name(e.file_name.as_str()) {
            found.push(e.file_name.clone());
            assert(wav_entry_names()(entries@[i as int]) == Some(entries@[i as int].file_name));
            assert(found@ =~= before + seq![entries@[i as int].file_name]);
        } else {
            assert(wav_entry_names()(entries@[i as int]) == None::<String>);
            assert(found@ =~= before + Seq::<String>::empty());
        }
        i = i + 1;
        assert(found@ =~= entries@.take(i as int).filter_map(wav_entry_names()));
    }
    assert(entries@.take(entries@.len() as int) =~= entries@);
    stable_sort_by_key(found)
}

/// How a WAV file stores its samples.
#[derive(PartialEq, Eq, Structural, Clone, Copy, Debug)]
pub enum WavSampleFormat {
    Float,
    Int,
}

/// The header fields of a WAV file.
#[derive(PartialEq, Eq, Structural, Clone, Copy, Debug)]
pub struct WavHeader {
    pub channels: u16,
    pub sample_rate: u32,
    pub bits_per_sample: u16,
    pub sample_format: WavSampleFormat,
}

/// What `hound::WavReader::new` makes of `bytes`: the header, or the text of
/// the error it reports.
pub uninterp spec fn wav_header_of(bytes: Seq<u8>) -> Result<WavHeader, Seq<char>>;

/// A header result, with the error seen through its characters.
pub open spec fn header_result(r: Result<WavHeader, String>) -> Result<WavHeader, Seq<char>> {
    match r {
        Ok(h) => Ok(h),
        Err(e) => Err(e@),
    }
}

/// The reader's error for data that does not start with `RIFF`.
pub open spec fn no_riff_tag() -> Result<WavHeader, Seq<char>> {
    Err("Ill-formed WAVE file: no RIFF tag found"@)
}

/// The four bytes `RIFF` that open every WAVE file.
pub open spec fn riff_tag() -> Seq<u8> {
    seq![0x52u8, 0x49u8, 0x46u8, 0x46u8]
}

/// Reads the WAV header of `bytes` with `hound::WavReader::new` over an
/// in-memory cursor. Claimed: the result is the one `hound` gives for these
/// bytes (an error becomes its `Display` text), and, as `read_wave_header`
/// shows, four or more bytes that do not start with `RIFF` give the format
/// error "no RIFF tag found".
#[verifier::external_body]
fn read_wav_header(bytes: &[u8]) -> (r: Result<WavHeader, String>)
    ensures
        header_result(r) == wav_header_of(bytes@),
        bytes@.len() >= 4 && bytes@.take(4) != riff_tag() ==> header_result(r) == no_riff_tag(),
{
    let spec = match hound::WavReader::new(std::io::Cursor::new(bytes)) {
        Ok(reader) => reader.spec(),
        Err(e) => return Err(e.to_string()),
    };
    let sample_format = match spec.sample_format {
        hound::SampleFormat::Float => WavSampleFormat::Float,
        hound::SampleFormat::Int => WavSampleFormat::Int,
    };
    let (channels, sample_rate, bits_per_sample) = (spec.channels, spec.sample_rate, spec.bits_per_sample);
    Ok(WavHeader { channels, sample_rate, bits_per_sample, sample_format })
}

/// The message shown when an uploaded IR cannot be read as WAV, given the
/// reader's error text `raw`.
pub open spec fn wav_read_error_message(file_name: Seq<char>, raw: Seq<char>) -> Seq<char> {
    if contains_seq(raw, "unexpected fmt chunk size"@) {
        "Unsupported WAV format for '"@ + file_name + "': "@ + raw
            + ". Re-export as PCM 16/24-bit or IEEE float 32-bit WAV."@
    } else {
        "Invalid WAV file '"@ + file_name + "': "@ + raw
    }
}

/// Whether `pat` occurs in `v`.
fn chars_contain(v: &Vec<char>, pat: &Vec<char>) -> (r: bool)
    ensures
        r == contains_seq(v@, pat@),
{
    if pat.len() == 0 {
        assert(v@.subrange(0, 0) =~= pat@);
        assert(occurs_at(v@, pat@, 0));
        return true;
    }
    if pat.len() > v.len() {
        return false;
    }
    let n = v.len();
    let positions = n - pat.len() + 1;
    let mut i: usize = 0;
    while i < positions
        invariant
            n == v@.len(),
            positions + pat@.len() == n + 1,
            i <= positions,
            forall|j: int| 0 <= j < i ==> !occurs_at(v@, pat@, j),
        decreases positions - i,
    {
        let mut k: usize = 0;
        while k < pat.len() && v[i + k] == pat[k]
            invariant
                n == v@.len(),
                i < positions,
                positions + pat@.len() == n + 1,
                k <= pat@.len(),
                forall|m: int| 0 <= m < k ==> v@[i + m] == pat@[m],
            decreases pat@.len() - k,
        {
            k = k + 1;
        }
        if k == pat.len() {
            assert(v@.subrange(i as int, i + pat@.len()) =~= pat@);
            assert(occurs_at(v@, pat@, i as int));
            return true;
        }
        assert(!occurs_at(v@, pat@, i as int)) by {
            if occurs_at(v@, pat@, i as int) {
                assert(v@.subrange(i as int, i + pat@.len())[k as int] == v@[i + k]);
            }
        }
        i = i + 1;
    }
    false
}

/// The message for an IR file `file_name` that could not be read as WAV
/// because of the reader error `raw`.
pub fn wav_read_error(file_name: &str, raw: &str) -> (msg: String)
    ensures
        msg@ == wav_read_error_message(file_name@, raw@),
{
    let raw_chars = chars_of(raw);
    let marker = chars_of("unexpected fmt chunk size");
    if chars_contain(&raw_chars, &marker) {
        let mut msg = String::from_str("Unsupported WAV format for '");
        msg.append(file_name);
        msg.append("': ");
        msg.append(raw);
        msg.append(". Re-export as PCM 16/24-bit or IEEE float 32-bit WAV.");
        msg
    } else {
        let mut msg = String::from_str("Invalid WAV file '");
        msg.append(file_name);
        msg.append("': ");
        msg.append(raw);
        msg
    }
}

/// The header checks on an uploaded IR: a `.wav` name and a readable WAV
/// header.
pub open spec fn ir_wav_header_check(file_name: Seq<char>, bytes: Seq<u8>) -> Result<
    WavHeader,
    Seq<char>,
> {
    if !ends_with(ascii_lower(file_name), wav_suffix()) {
        Err("Only .wav IR files are supported"@)
    } else {
        match wav_header_of(bytes) {
            Ok(h) => Ok(h),
            Err(raw) => Err(wav_read_error_message(file_name, raw)),
        }
    }
}

/// Checks that an uploaded IR has a `.wav` name and a readable WAV header,
/// and returns that header.
pub fn check_ir_wav_header(file_name: &str, file_bytes: &[u8]) -> (r: Result<WavHeader, String>)
    ensures
        header_result(r) == ir_wav_header_check(file_name@, file_bytes@),
{
    let v = chars_of(file_name);
    let wav = vec!['.', 'w', 'a', 'v'];
    proof {
        assert(wav@ =~= wav_suffix());
        assert(ascii_lower(wav@) =~= wav@);
        assert(v@.subrange(0, v@.len() as int) =~= v@);
    }
    if !range_ends_with_ignore_ascii_case(&v, 0, v.len(), &wav) {
        return Err(String::from_str("Only .wav IR files are supported"));
    }
    match read_wav_header(file_bytes) {
        Ok(h) => Ok(h),
        Err(raw) => Err(wav_read_error(file_name, raw.as_str())),
    }
}

/// The header of the WAV file `bytes`, or the text of the error the reader
/// reports for them.
pub fn wav_header(bytes: &[u8]) -> (r: Result<WavHeader, String>)
    ensures
        header_result(r) == wav_header_of(bytes@),
{
    read_wav_header(bytes)
}

/// The sample rate in the header of the WAV file `bytes`, if its header can
/// be read.
pub fn wav_sample_rate(bytes: &[u8]) -> (r: Option<u32>)
    ensures
        r == (match wav_header_of(bytes@) {
            Ok(h) => Some(h.sample_rate),
            Err(_) => None,
        }),
{
    match read_wav_header(bytes) {
        Ok(h) => Some(h.sample_rate),
        Err(_) => None,
    }
}

/// The full-scale value of an integer sample of `bits_per_sample` bits,
/// `2^(bits - 1) - 1` (0 for 0 bits), by which samples are normalized.
pub open spec fn int_full_scale(bits_per_sample: u16) -> int {
    if bits_per_sample == 0 {
        0
    } else {
        pow2((bits_per_sample - 1) as nat) - 1
    }
}

/// The full-scale value of an integer sample of `bits_per_sample` bits.
pub fn int_sample_full_scale(bits_per_sample: u16) -> (r: i64)
    requires
        bits_per_sample <= 63,
    ensures
        r == int_full_scale(bits_per_sample),
{
    let shift: u16 = if bits_per_sample > 0 {
        bits_per_sample - 1
    } else {
        0
    };
    let mut p: i64 = 1;
    let mut i: u16 = 0;
    proof {
        lemma2_to64();
    }
    while i < shift
        invariant
            i <= shift,
            shift <= 62,
            p == pow2(i as nat),
        decreases shift - i,
    {
        proof {
            lemma_pow2_unfold((i + 1) as nat);
            if i + 1 < 63 {
                lemma_pow2_strictly_increases((i + 1) as nat, 63);
            }
            lemma2_to64_rest();
        }
        p = p * 2;
        i = i + 1;
    }
    p - 1
}

} // verus!
