use rustriff_lib::file_loader::{
    check_ir_wav_header, int_sample_full_scale, is_wav_file_name, wav_file_names, wav_read_error,
    DirEntryInfo, FileLoader, WavHeader, WavSampleFormat,
};
use rustriff_lib::file_service::{
    check_custom_file_present, check_default_name_free, check_profile_not_in_use,
    check_profile_removable, choose_default_ir_directory, collect_ir_profiles, mark_profiles_in_use, sanitize_wav_file_name,
    to_readable_label, IrProfileDto,
};

fn wav_bytes(fmt_chunk_len: u32) -> Vec<u8> {
    let mut b = Vec::new();
    let extra = (fmt_chunk_len - 16) as usize;
    b.extend_from_slice(b"RIFF");
    b.extend_from_slice(&(4 + 8 + fmt_chunk_len + 8 + 2).to_le_bytes());
    b.extend_from_slice(b"WAVE");
    b.extend_from_slice(b"fmt ");
    b.extend_from_slice(&fmt_chunk_len.to_le_bytes());
    b.extend_from_slice(&1u16.to_le_bytes());
    b.extend_from_slice(&1u16.to_le_bytes());
    b.extend_from_slice(&48_000u32.to_le_bytes());
    b.extend_from_slice(&96_000u32.to_le_bytes());
    b.extend_from_slice(&2u16.to_le_bytes());
    b.extend_from_slice(&16u16.to_le_bytes());
    b.extend(std::iter::repeat(0u8).take(extra));
    b.extend_from_slice(b"data");
    b.extend_from_slice(&2u32.to_le_bytes());
    b.extend_from_slice(&[0x10, 0x00]);
    b
}

#[test]
fn sanitize_trims_and_accepts_wav_names() {
    assert_eq!(sanitize_wav_file_name("  Room-1.WAV \t"), Ok("Room-1.WAV".to_string()));
    assert_eq!(sanitize_wav_file_name("cab.wav"), Ok("cab.wav".to_string()));
}

#[test]
fn sanitize_rejects_empty_names() {
    assert_eq!(sanitize_wav_file_name("   "), Err("IR file name cannot be empty".to_string()));
    assert_eq!(sanitize_wav_file_name(""), Err("IR file name cannot be empty".to_string()));
}

#[test]
fn sanitize_rejects_paths() {
    let invalid = Err("Invalid IR file name".to_string());
    assert_eq!(sanitize_wav_file_name("dir/cab.wav"), invalid);
    assert_eq!(sanitize_wav_file_name("dir\\cab.wav"), invalid);
    assert_eq!(sanitize_wav_file_name("..wav"), invalid);
    assert_eq!(sanitize_wav_file_name("a..b.wav"), invalid);
}

#[test]
fn sanitize_rejects_other_extensions() {
    assert_eq!(
        sanitize_wav_file_name("cab.mp3"),
        Err("Only .wav IR files are supported".to_string())
    );
}

#[test]
fn sanitize_is_idempotent_on_accepted_names() {
    let once = sanitize_wav_file_name("  \u{3000}My_Cab.Wav  ").unwrap();
    assert_eq!(once, "My_Cab.Wav");
    assert_eq!(sanitize_wav_file_name(&once), Ok(once.clone()));
}

#[test]
fn readable_label_strips_extensions_and_separators() {
    assert_eq!(to_readable_label("info-support_halway.wav"), "info support halway");
    assert_eq!(to_readable_label("LOUD.WAV"), "LOUD");
    assert_eq!(to_readable_label("double.wav.wav"), "double");
    assert_eq!(to_readable_label("mixed.wav.WAV"), "mixed.wav");
    assert_eq!(to_readable_label("plain"), "plain");
}

#[test]
fn profiles_are_sorted_by_label_and_flagged() {
    let defaults = vec!["b_cab.wav".to_string(), "d.wav".to_string()];
    let customs = vec!["a-cab.wav".to_string(), "c.wav".to_string()];
    let profiles = collect_ir_profiles(&defaults, &customs);
    let labels: Vec<&str> = profiles.iter().map(|p| p.label.as_str()).collect();
    assert_eq!(labels, vec!["a cab", "b cab", "c", "d"]);
    let custom: Vec<bool> = profiles.iter().map(|p| p.is_custom).collect();
    assert_eq!(custom, vec![true, false, true, false]);
    assert!(profiles.iter().all(|p| !p.is_in_use));
}

#[test]
fn profiles_with_equal_labels_keep_listing_order() {
    let defaults = vec!["x-y.wav".to_string()];
    let customs = vec!["x_y.wav".to_string()];
    let profiles = collect_ir_profiles(&defaults, &customs);
    assert_eq!(profiles[0].file_name, "x-y.wav");
    assert!(!profiles[0].is_custom);
    assert_eq!(profiles[1].file_name, "x_y.wav");
    assert!(profiles[1].is_custom);
}

fn profile(name: &str, custom: bool) -> IrProfileDto {
    IrProfileDto {
        file_name: name.to_string(),
        label: to_readable_label(name),
        is_custom: custom,
        is_in_use: false,
    }
}

#[test]
fn profiles_in_use_are_marked() {
    let marked = mark_profiles_in_use(
        vec![profile("a.wav", false), profile("b.wav", true)],
        &vec!["b.wav".to_string()],
    );
    assert!(!marked[0].is_in_use);
    assert!(marked[1].is_in_use);
    assert_eq!(marked[1].file_name, "b.wav");
}

#[test]
fn only_listed_custom_profiles_are_removable() {
    let profiles = vec![profile("a.wav", false), profile("b.wav", true)];
    assert_eq!(check_profile_removable(&profiles, "b.wav"), Ok(()));
    assert_eq!(
        check_profile_removable(&profiles, "a.wav"),
        Err("Default IR profiles cannot be removed".to_string())
    );
    assert_eq!(
        check_profile_removable(&profiles, "z.wav"),
        Err("IR profile 'z.wav' not found".to_string())
    );
}

#[test]
fn profiles_in_use_are_not_removable() {
    let used = vec!["b.wav".to_string()];
    assert_eq!(
        check_profile_not_in_use(&used, "b.wav"),
        Err("IR profile 'b.wav' is currently used by an effect chain".to_string())
    );
    assert_eq!(check_profile_not_in_use(&used, "c.wav"), Ok(()));
}

#[test]
fn save_and_remove_checks_report_names() {
    assert_eq!(
        check_default_name_free("cab.wav", true),
        Err("An IR named 'cab.wav' already exists in defaults".to_string())
    );
    assert_eq!(check_default_name_free("cab.wav", false), Ok(()));
    assert_eq!(
        check_custom_file_present("cab.wav", false),
        Err("Custom IR 'cab.wav' does not exist".to_string())
    );
    assert_eq!(check_custom_file_present("cab.wav", true), Ok(()));
}

#[test]
fn wav_listing_keeps_sorted_wav_files_only() {
    let _loader = FileLoader::new();
    let entries = vec![
        DirEntryInfo { is_file: true, file_name: "b.WAV".to_string() },
        DirEntryInfo { is_file: true, file_name: "notes.txt".to_string() },
        DirEntryInfo { is_file: false, file_name: "dir.wav".to_string() },
        DirEntryInfo { is_file: true, file_name: ".wav".to_string() },
        DirEntryInfo { is_file: true, file_name: "a.wav".to_string() },
    ];
    assert_eq!(wav_file_names(&entries), vec!["a.wav".to_string(), "b.WAV".to_string()]);
}

#[test]
fn wav_extension_needs_a_stem() {
    assert!(is_wav_file_name("x.wav"));
    assert!(is_wav_file_name("x.WaV"));
    assert!(!is_wav_file_name(".wav"));
    assert!(!is_wav_file_name("xwav"));
}

#[test]
fn wav_header_is_read() {
    let header = check_ir_wav_header("cab.wav", &wav_bytes(16)).expect("valid WAV");
    assert_eq!(
        header,
        WavHeader {
            channels: 1,
            sample_rate: 48_000,
            bits_per_sample: 16,
            sample_format: WavSampleFormat::Int,
        }
    );
}

#[test]
fn wav_header_requires_wav_name() {
    assert_eq!(
        check_ir_wav_header("cab.aif", &wav_bytes(16)),
        Err("Only .wav IR files are supported".to_string())
    );
}

#[test]
fn wav_header_reports_missing_riff_tag() {
    assert_eq!(
        check_ir_wav_header("cab.wav", b"JUNKJUNKJUNK"),
        Err("Invalid WAV file 'cab.wav': Ill-formed WAVE file: no RIFF tag found".to_string())
    );
}

#[test]
fn wav_header_reports_unsupported_fmt_chunk() {
    let err = check_ir_wav_header("cab.wav", &wav_bytes(20)).unwrap_err();
    assert!(err.starts_with("Unsupported WAV format for 'cab.wav': "), "{err}");
    assert!(err.ends_with(". Re-export as PCM 16/24-bit or IEEE float 32-bit WAV."), "{err}");
}

#[test]
fn wav_read_error_formats_both_messages() {
    assert_eq!(wav_read_error("x.wav", "boom"), "Invalid WAV file 'x.wav': boom");
    assert_eq!(
        wav_read_error("x.wav", "Ill-formed WAVE file: unexpected fmt chunk size"),
        "Unsupported WAV format for 'x.wav': Ill-formed WAVE file: unexpected fmt chunk size. Re-export as PCM 16/24-bit or IEEE float 32-bit WAV."
    );
}

#[test]
fn int_full_scale_values() {
    assert_eq!(int_sample_full_scale(16), 32_767);
    assert_eq!(int_sample_full_scale(24), 8_388_607);
    assert_eq!(int_sample_full_scale(8), 127);
    assert_eq!(int_sample_full_scale(1), 0);
    assert_eq!(int_sample_full_scale(0), 0);
}

#[test]
fn default_ir_directory_is_first_existing_candidate() {
    let candidates = vec!["/app/default_ir".to_string(), "/app/resources/default_ir".to_string()];
    assert_eq!(choose_default_ir_directory(&candidates, &vec![false, true]), Ok(1));
    assert_eq!(choose_default_ir_directory(&candidates, &vec![true, true]), Ok(0));
}

#[test]
fn missing_default_ir_directory_lists_searched_candidates() {
    let candidates = vec!["/app/default_ir".to_string(), "/app/resources/default_ir".to_string()];
    assert_eq!(
        choose_default_ir_directory(&candidates, &vec![false, false]),
        Err("Could not locate default IR directory. Searched: /app/default_ir, /app/resources/default_ir".to_string())
    );
    assert_eq!(
        choose_default_ir_directory(&vec![], &vec![]),
        Err("Could not locate default IR directory. Searched: ".to_string())
    );
}

#[test]
fn wav_sample_rate_reads_the_header() {
    assert_eq!(rustriff_lib::file_loader::wav_sample_rate(&wav_bytes(16)), Some(48_000));
    assert_eq!(rustriff_lib::file_loader::wav_sample_rate(b"not a wav file"), None);
    let header = rustriff_lib::file_loader::wav_header(&wav_bytes(16)).unwrap();
    assert_eq!(header.sample_rate, 48_000);
    assert_eq!(
        rustriff_lib::file_loader::wav_header(b"JUNKJUNK"),
        Err("Ill-formed WAVE file: no RIFF tag found".to_string())
    );
}
