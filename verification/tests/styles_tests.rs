use vidgen_core::file_check::get_audio_duration;
use vidgen_core::file_check::get_file_metadata;
use vidgen_core::file_check::validate_audio_file;
use vidgen_core::styles::assemble_styles;
use vidgen_core::styles::display_name;
use vidgen_core::styles::get_style_details;
use vidgen_core::styles::get_style_thumbnail;
use vidgen_core::styles::list_styles;
use vidgen_core::styles::str_lex_le;

#[test]
fn display_names_are_title_cased() {
    assert_eq!(display_name("neon_dreams"), "Neon Dreams");
    assert_eq!(display_name("vapor"), "Vapor");
    assert_eq!(display_name("deep__space_9"), "Deep Space 9");
    assert_eq!(display_name(""), "");
    assert_eq!(display_name("___"), "");
}

#[test]
fn style_listing_has_default_first_then_sorted_entries() {
    let dirs = vec!["zebra".to_string(), "aurora".to_string(), "neon_dreams".to_string()];
    let today = "2024-06-01".to_string();
    let styles = assemble_styles(&dirs, &today);
    assert_eq!(styles.len(), 4);
    assert_eq!(styles[0].name, "default");
    assert_eq!(styles[0].display_name, "Default");
    assert_eq!(styles[0].thumbnail, "");
    assert_eq!(styles[0].created, "2024-06-01");
    assert_eq!(styles[1].name, "aurora");
    assert_eq!(styles[2].name, "neon_dreams");
    assert_eq!(styles[2].display_name, "Neon Dreams");
    assert_eq!(styles[3].name, "zebra");
    for st in &styles {
        assert_eq!(st.created, today);
    }
}

#[test]
fn empty_styles_root_still_lists_the_default() {
    let styles = list_styles(&Vec::new());
    assert_eq!(styles.len(), 1);
    assert_eq!(styles[0].name, "default");
    assert_eq!(styles[0].display_name, "Default");
}

#[test]
fn string_order_is_lexicographic() {
    assert!(str_lex_le("aurora", "zebra"));
    assert!(!str_lex_le("zebra", "aurora"));
    assert!(str_lex_le("same", "same"));
    assert!(str_lex_le("ab", "abc"));
    assert!(!str_lex_le("abc", "ab"));
}

#[test]
fn default_style_details_are_fixed() {
    let d = get_style_details(&"default".to_string(), false, &"2024-06-01".to_string()).unwrap();
    assert_eq!(d.name, "default");
    assert_eq!(d.display_name, "Default");
    assert_eq!(d.thumbnail, "");
    assert_eq!(d.created, "2024-06-01");
    assert_eq!(d.description, Some("Default CPPN configuration".to_string()));
}

#[test]
fn existing_style_details_are_computed_from_the_name() {
    let d = get_style_details(&"neon_dreams".to_string(), true, &"2024-06-01".to_string()).unwrap();
    assert_eq!(d.name, "neon_dreams");
    assert_eq!(d.display_name, "Neon Dreams");
    assert_eq!(d.description, None);
}

#[test]
fn unknown_style_details_are_an_error() {
    let e = get_style_details(&"missing".to_string(), false, &"2024-06-01".to_string()).unwrap_err();
    assert_eq!(e, "Style not found: missing");
}

#[test]
fn thumbnails_are_not_stored_yet() {
    assert_eq!(get_style_thumbnail(&"any".to_string()).unwrap(), "");
}

#[test]
fn audio_validation_accepts_supported_formats_case_insensitively() {
    let r = validate_audio_file("music/track.mp3", true, Ok(1024));
    assert!(r.valid);
    assert!(r.error.is_none());
    let r = validate_audio_file("music/TRACK.MP3", true, Ok(1024));
    assert!(r.valid);
    let r = validate_audio_file("music/a.FlAc", true, Ok(1024));
    assert!(r.valid);
}

#[test]
fn audio_validation_rejects_each_failure_with_its_text() {
    let r = validate_audio_file("music/track.mp3", false, Ok(1024));
    assert!(!r.valid);
    assert_eq!(r.error.unwrap(), "File does not exist");

    let r = validate_audio_file("music/track.ogg", true, Ok(1024));
    assert!(!r.valid);
    assert_eq!(
        r.error.unwrap(),
        "Unsupported format. Supported: [\"mp3\", \"wav\", \"flac\", \"aiff\", \"m4a\"]"
    );

    let r = validate_audio_file("music/noext", true, Ok(1024));
    assert!(!r.valid);

    let r = validate_audio_file("music/track.wav", true, Ok(500 * 1024 * 1024 + 1));
    assert!(!r.valid);
    assert_eq!(r.error.unwrap(), "File too large. Maximum: 500 MB");

    let r = validate_audio_file("music/track.wav", true, Err("locked".to_string()));
    assert!(!r.valid);
    assert_eq!(r.error.unwrap(), "Cannot read file: locked");
}

#[test]
fn file_size_exactly_at_the_cap_is_accepted() {
    let r = validate_audio_file("track.m4a", true, Ok(500 * 1024 * 1024));
    assert!(r.valid);
}

#[test]
fn metadata_placeholders_are_reported() {
    let m = get_file_metadata("song.wav".to_string(), true).unwrap();
    assert_eq!(m.path, "song.wav");
    assert_eq!(m.duration_ms, 0);
    assert_eq!(m.bitrate, 0);
    assert_eq!(m.sample_rate, 44100);
    assert_eq!(
        get_file_metadata("gone.wav".to_string(), false).unwrap_err(),
        "File not found"
    );
    assert_eq!(get_audio_duration(true).unwrap(), 0);
    assert_eq!(get_audio_duration(false).unwrap_err(), "File not found");
}
