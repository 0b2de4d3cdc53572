use stitch_sync::cache::{FileCache, FileMetadata};
use stitch_sync::dispatch::{
    classify_conversion, contains_text, conversion_outcome, copy_outcome, dispatch, Action,
    ConversionOutcome, ConverterResult, ErrorKind, Inkscape, SkipReason, WatchRequest,
};
use stitch_sync::catalog::machines;
use stitch_sync::machine::{machines_for_format, rank_similar};
use stitch_sync::text::{file_extension, sanitize_filename, sanitize_stem, split_extension};
use stitch_sync::usb::{
    find_embf_directory, find_usb_containing_path, join_path, resolve_target, TargetDecision,
    UsbDrive,
};
use stitch_sync::watch::{
    handle_key_event, may_dispatch, parse_unmount_choice, resolution_step, resolve_formats,
    KeyCommand, Resolution, UnmountChoice,
};

fn converter() -> Inkscape {
    Inkscape::find_app(Some("/usr/bin/inkscape".to_string()), &vec![], true).unwrap()
}

fn request(accepted: &[&str], preferred: &str) -> WatchRequest {
    WatchRequest {
        directory: "/home/user/Downloads".to_string(),
        accepted_formats: accepted.iter().map(|s| s.to_string()).collect(),
        preferred_format: preferred.to_string(),
        usb_relative_path: Some("EMB/Embf".to_string()),
    }
}

fn drive(mount: &str, name: &str) -> UsbDrive {
    UsbDrive { mount_point: mount.to_string(), name: name.to_string() }
}

fn meta(secs: u64, size: u64) -> FileMetadata {
    FileMetadata { modified_secs: secs, modified_nanos: 0, size }
}

#[test]
fn sanitize_collapses_runs_and_trims() {
    assert_eq!(sanitize_stem("Design File"), "design-file");
    assert_eq!(sanitize_stem("  My__Cool -- Design!! "), "my-cool-design");
    assert_eq!(sanitize_stem("a---b"), "a-b");
    assert_eq!(sanitize_stem("***"), "output");
    assert_eq!(sanitize_stem(""), "output");
}

#[test]
fn sanitize_is_idempotent_on_examples() {
    for s in ["Design File", "--x--", "ABC def_123", "***", "already-clean"] {
        let once = sanitize_stem(s);
        assert_eq!(sanitize_stem(&once), once);
    }
}

#[test]
fn sanitize_filename_keeps_extension() {
    assert_eq!(sanitize_filename("Design File.dst"), "design-file.dst");
    assert_eq!(sanitize_filename("Rose (large).PES"), "rose-large.PES");
    assert_eq!(sanitize_filename("README"), "readme");
}

#[test]
fn extension_is_lowercased_and_found_at_last_dot() {
    assert_eq!(file_extension("a.b.DST"), Some("dst".to_string()));
    assert_eq!(file_extension("noext"), None);
    assert_eq!(file_extension(".hidden"), None);
    assert_eq!(
        split_extension("x.tar.gz"),
        Some(("x.tar".to_string(), "gz".to_string()))
    );
}

#[test]
fn repeated_notifications_are_dropped() {
    let mut cache = FileCache::new();
    let p = "/w/a.dst".to_string();
    assert!(cache.observe(&p, Some(meta(10, 100))));
    assert!(!cache.observe(&p, Some(meta(10, 100))));
    assert!(!cache.observe(&p, Some(meta(10, 100))));
    assert!(cache.observe(&p, Some(meta(11, 100))));
    assert!(cache.observe(&p, Some(meta(11, 120))));
    assert!(!cache.observe(&p, None));
}

#[test]
fn batch_filter_keeps_order_and_drops_duplicates() {
    let mut cache = FileCache::new();
    let paths = vec!["/w/a.dst".to_string(), "/w/b.pes".to_string(), "/w/a.dst".to_string(), "/w/gone.dst".to_string()];
    let observed = vec![Some(meta(1, 5)), Some(meta(2, 6)), Some(meta(1, 5)), None];
    let fresh = cache.filter_new_files(&paths, &observed);
    assert_eq!(fresh, vec!["/w/a.dst".to_string(), "/w/b.pes".to_string()]);
    let again = cache.filter_new_files(&paths, &observed);
    assert!(again.is_empty());
}

#[test]
fn accepted_format_is_copied_not_converted() {
    let a = dispatch("Design File.dst", &request(&["dst"], "dst"), &converter());
    assert_eq!(a, Action::Copy { file_name: "design-file.dst".to_string() });
}

#[test]
fn readable_format_is_converted_to_preferred() {
    let a = dispatch("My Rose.PES", &request(&["jef"], "jef"), &converter());
    assert_eq!(a, Action::Convert { output_name: "my-rose.jef".to_string() });
}

#[test]
fn no_extension_is_skipped() {
    let a = dispatch("README", &request(&["dst"], "dst"), &converter());
    assert_eq!(a, Action::Skip(SkipReason::NoExtension));
}

#[test]
fn unsupported_input_and_output_is_skipped() {
    let a = dispatch("photo.png", &request(&["art"], "art"), &converter());
    assert_eq!(a, Action::Skip(SkipReason::UnsupportedFormat));
    let b = dispatch("design.pes", &request(&["art"], "art"), &converter());
    assert_eq!(b, Action::Skip(SkipReason::UnsupportedFormat));
}

#[test]
fn unreadable_format_is_skipped_never_failed() {
    for name in ["x.zip", "y.docx", "z.hus"] {
        match dispatch(name, &request(&["dst"], "dst"), &converter()) {
            Action::Skip(_) => {}
            other => panic!("unexpected action {:?}", other),
        }
    }
}

#[test]
fn created_design_is_copied_to_usb_target() {
    let req = request(&["dst"], "dst");
    let name = match dispatch("Design File.dst", &req, &converter()) {
        Action::Copy { file_name } => file_name,
        other => panic!("unexpected action {:?}", other),
    };
    let drives = vec![drive("/media/usb", "USB")];
    let dest = find_usb_containing_path(&drives, &vec![true], "EMB/Embf");
    assert_eq!(dest.as_deref(), Some("/media/usb/EMB/Embf"));
    let outcome = copy_outcome(&dest, &name, None);
    assert_eq!(
        outcome,
        ConversionOutcome::Copied("/media/usb/EMB/Embf/design-file.dst".to_string())
    );
}

#[test]
fn without_usb_volume_copy_is_skipped() {
    let drives: Vec<UsbDrive> = vec![];
    assert_eq!(resolve_target(&drives, &vec![], "EMB/Embf"), TargetDecision::NoDrives);
    let dest = find_usb_containing_path(&drives, &vec![], "EMB/Embf");
    assert_eq!(dest, None);
    let outcome = copy_outcome(&dest, "design-file.dst", None);
    assert_eq!(outcome, ConversionOutcome::Skipped(SkipReason::NoDestination));
    assert_eq!(SkipReason::NoDestination.message(), "no destination");
}

#[test]
fn unwritable_preferred_and_unreadable_input_is_unsupported() {
    let a = dispatch("logo.abc", &request(&["hus"], "hus"), &converter());
    assert_eq!(a, Action::Skip(SkipReason::UnsupportedFormat));
    assert_eq!(SkipReason::UnsupportedFormat.message(), "unsupported format");
}

#[test]
fn target_resolution_picks_first_and_notes_multiple() {
    let drives = vec![drive("/a", "A"), drive("/b/", "B"), drive("/c", "C")];
    assert_eq!(
        resolve_target(&drives, &vec![false, true, true], "EMB"),
        TargetDecision::Found { drive: 1, path: "/b/EMB".to_string(), multiple: true }
    );
    assert_eq!(
        resolve_target(&drives, &vec![true, false, false], "EMB"),
        TargetDecision::Found { drive: 0, path: "/a/EMB".to_string(), multiple: false }
    );
    assert_eq!(
        resolve_target(&drives, &vec![false, false, false], "EMB"),
        TargetDecision::OfferCreate { drive: 0, path: "/a/EMB".to_string() }
    );
    assert_eq!(find_embf_directory(&drives, &vec![false, false, true]).as_deref(), Some("/c/embf"));
    assert_eq!(join_path("/m", ""), "/m");
}

#[test]
fn converter_output_is_classified() {
    assert_eq!(
        classify_conversion(false, "Error: unknown extension id", "out.jef"),
        ConverterResult::PluginMissing("Error: unknown extension id".to_string())
    );
    assert_eq!(
        classify_conversion(true, "Could not detect file format", "out.jef"),
        ConverterResult::PluginMissing("Could not detect file format".to_string())
    );
    assert_eq!(
        classify_conversion(false, "segfault", "out.jef"),
        ConverterResult::ConversionFailed("segfault".to_string())
    );
    assert_eq!(classify_conversion(true, "", "out.jef"), ConverterResult::Success("out.jef".to_string()));
    assert!(contains_text("abc extension not found xyz", "extension not found"));
    assert!(!contains_text("ext", "extension"));
}

#[test]
fn conversion_outcomes() {
    let dest = Some("/media/usb/EMB/Embf".to_string());
    assert_eq!(
        conversion_outcome(ConverterResult::Success("/w/my-rose.jef".to_string()), "my-rose.jef", &dest, None),
        ConversionOutcome::Converted("/media/usb/EMB/Embf/my-rose.jef".to_string())
    );
    assert_eq!(
        conversion_outcome(ConverterResult::Success("/w/my-rose.jef".to_string()), "my-rose.jef", &None, None),
        ConversionOutcome::Converted("/w/my-rose.jef".to_string())
    );
    assert_eq!(
        conversion_outcome(ConverterResult::Success("/w/r.jef".to_string()), "r.jef", &dest, Some("disk full".to_string())),
        ConversionOutcome::Failed(ErrorKind::CopyFailed, "disk full".to_string())
    );
    assert_eq!(
        conversion_outcome(ConverterResult::PluginMissing("x".to_string()), "r.jef", &dest, None),
        ConversionOutcome::Failed(ErrorKind::PluginMissing, "x".to_string())
    );
    assert_eq!(
        conversion_outcome(ConverterResult::ConversionFailed("boom".to_string()), "r.jef", &dest, None),
        ConversionOutcome::Failed(ErrorKind::ConversionFailed, "boom".to_string())
    );
    assert_eq!(
        copy_outcome(&dest, "a.dst", Some("denied".to_string())),
        ConversionOutcome::Failed(ErrorKind::CopyFailed, "denied".to_string())
    );
}

#[test]
fn ranking_orders_by_best_score_then_catalog_order() {
    let scores = vec![vec![700, 950], vec![950], vec![100], vec![990, 10], vec![]];
    assert_eq!(rank_similar(&scores, 900), vec![3, 0, 1]);
    assert_eq!(rank_similar(&scores, 0), vec![3, 0, 1, 2, 4]);
}

#[test]
fn ranking_is_empty_when_nothing_reaches_threshold() {
    let scores = vec![vec![500, 600], vec![899]];
    assert!(rank_similar(&scores, 900).is_empty());
}

#[test]
fn keys_map_to_commands() {
    assert_eq!(handle_key_event('q', false), KeyCommand::Quit);
    assert_eq!(handle_key_event('c', true), KeyCommand::Quit);
    assert_eq!(handle_key_event('c', false), KeyCommand::Continue);
    assert_eq!(handle_key_event('u', false), KeyCommand::Unmount);
    assert!(may_dispatch(false));
    assert!(!may_dispatch(true));
}

#[test]
fn formats_follow_machine_or_fallback() {
    let writes = converter().supported_write_formats;
    let (acc, pref) = resolve_formats(&Some(vec!["jef".to_string(), "jef+".to_string()]), &None, &writes);
    assert_eq!(acc, vec!["jef".to_string(), "jef+".to_string()]);
    assert_eq!(pref, "jef");
    let (acc, pref) = resolve_formats(&None, &Some("PES".to_string()), &writes);
    assert_eq!(acc, vec!["pes".to_string()]);
    assert_eq!(pref, "pes");
    let (acc, pref) = resolve_formats(&Some(vec![]), &None, &writes);
    assert_eq!(acc, vec!["dst".to_string()]);
    assert_eq!(pref, "dst");
    let (_, pref) = resolve_formats(&Some(vec!["jef+".to_string()]), &None, &writes);
    assert_eq!(pref, "jef");
}

#[test]
fn converter_location_prefers_search_path() {
    let installed = vec!["/opt/inkscape/bin/inkscape".to_string()];
    assert_eq!(Inkscape::find_app(Some("/usr/bin/inkscape".to_string()), &installed, false).unwrap().path, "/usr/bin/inkscape");
    assert_eq!(Inkscape::find_app(None, &installed, false).unwrap().path, "/opt/inkscape/bin/inkscape");
    assert!(Inkscape::find_app(None, &vec![], false).is_none());
}

#[test]
fn resolution_steps() {
    assert_eq!(resolution_step(Some(4), vec![1, 2]), Resolution::Found(4));
    assert_eq!(resolution_step(None, vec![]), Resolution::NotFound);
    assert_eq!(resolution_step(None, vec![7]), Resolution::Confirm(7));
    assert_eq!(resolution_step(None, vec![7, 2]), Resolution::Choose(vec![7, 2]));
}

#[test]
fn unmount_choice_parsing() {
    assert_eq!(parse_unmount_choice("q\n", 3), UnmountChoice::Cancel);
    assert_eq!(parse_unmount_choice("  Q ", 3), UnmountChoice::Cancel);
    assert_eq!(parse_unmount_choice("2\n", 3), UnmountChoice::Drive(1));
    assert_eq!(parse_unmount_choice("+3", 3), UnmountChoice::Drive(2));
    assert_eq!(parse_unmount_choice("0", 3), UnmountChoice::OutOfRange);
    assert_eq!(parse_unmount_choice("4", 3), UnmountChoice::OutOfRange);
    assert_eq!(parse_unmount_choice("abc", 3), UnmountChoice::Invalid);
    assert_eq!(parse_unmount_choice("", 3), UnmountChoice::Invalid);
    assert_eq!(parse_unmount_choice("+", 3), UnmountChoice::Invalid);
    assert_eq!(parse_unmount_choice("99999999999999999999999999", 3), UnmountChoice::Invalid);
}

#[test]
fn machines_filtered_by_format() {
    let catalog = machines();
    let jef = machines_for_format(&catalog, "jef");
    assert!(!jef.is_empty());
    for i in &jef {
        assert!(catalog[*i].formats.iter().any(|f| f == "jef"));
    }
    assert!(machines_for_format(&catalog, "zzz").is_empty());
}
