use drive_sanitizer::catalog::{build_catalog, describe, drive_letters, LabelReport, RawVolume, SpaceReport};
use drive_sanitizer::engine::{
    blocks_per_pass, scratch_path, Action, Event, PassLength, SanitizationRequest, Sanitization, Stage,
    BLOCK_SIZE,
};
use drive_sanitizer::pattern::{Fill, PatternSource, BLOCK_BYTES};
use drive_sanitizer::safety::{check_safety, find_volume};
use drive_sanitizer::text::{decimal_text, greet};
use drive_sanitizer::volume::{SanitizeError, VolumeDescriptor};

fn probe(id: &str, capacity: Option<u64>, label: Option<&str>) -> RawVolume {
    RawVolume {
        identifier: id.to_string(),
        space: capacity.map(|c| SpaceReport { capacity_bytes: c, free_bytes: c / 2 }),
        info: label.map(|l| LabelReport { label: l.to_string(), filesystem_kind: "NTFS".to_string(), serial: 7 }),
    }
}

fn volume(id: &str, capacity: u64, is_system: bool) -> VolumeDescriptor {
    VolumeDescriptor {
        identifier: id.to_string(),
        capacity_bytes: capacity,
        free_bytes: 0,
        label: String::new(),
        filesystem_kind: String::new(),
        serial: 0,
        is_system,
    }
}

fn host() -> Vec<VolumeDescriptor> {
    vec![volume("C:\\", 500_000_000_000, true), volume("E:\\", 10_000_000_000, false)]
}

fn request(id: &str, confirmed: bool, pass_length: PassLength) -> SanitizationRequest {
    SanitizationRequest { identifier: id.to_string(), confirmed, pass_length }
}

/// Drives a sanitization with every file operation succeeding; returns the
/// actions asked for, the last one included.
fn run(req: &SanitizationRequest, volumes: Vec<VolumeDescriptor>, path_exists: bool) -> Vec<Action> {
    let (mut s, mut action) = Sanitization::start(req);
    let mut actions = Vec::new();
    let mut catalog = Some(volumes);
    loop {
        actions.push(action.clone());
        let event = match &action {
            Action::Enumerate => Event::Listed(catalog.take().unwrap()),
            Action::CheckPath(_) => Event::PathChecked(path_exists),
            Action::CreateScratch(_) | Action::Write(_) | Action::Flush | Action::RemoveScratch(_) => Event::Done,
            Action::Complete(_) | Action::Fail(_) => return actions,
        };
        assert!(s.accepts(&event));
        action = s.step(event);
    }
}

fn writes(actions: &[Action]) -> Vec<Fill> {
    actions.iter().filter_map(|a| if let Action::Write(f) = a { Some(*f) } else { None }).collect()
}

#[test]
fn mask_zero_is_enumeration_failure() {
    assert!(matches!(drive_letters(0), Err(SanitizeError::EnumerationFailure)));
}

#[test]
fn mask_decodes_letters_in_order() {
    assert_eq!(drive_letters(0b10101).unwrap(), vec![b'A', b'C', b'E']);
    assert_eq!(drive_letters(1 << 25).unwrap(), vec![b'Z']);
    assert_eq!(drive_letters(1 << 26).unwrap(), Vec::<u8>::new());
    assert_eq!(drive_letters(u32::MAX).unwrap().len(), 26);
}

#[test]
fn describe_fills_defaults_for_failed_queries() {
    let d = describe(&probe("/mnt/usb", None, None), &None);
    assert_eq!(d.identifier, "/mnt/usb");
    assert_eq!((d.capacity_bytes, d.free_bytes, d.serial), (0, 0, 0));
    assert_eq!(d.label, "");
    assert_eq!(d.filesystem_kind, "");
    assert!(!d.is_system);
    let e = describe(&probe("E:\\", Some(1000), Some("USB")), &Some("C:\\".to_string()));
    assert_eq!((e.capacity_bytes, e.free_bytes, e.serial), (1000, 500, 7));
    assert_eq!(e.label, "USB");
    assert_eq!(e.filesystem_kind, "NTFS");
}

#[test]
fn catalog_skips_repeated_identifiers_and_flags_one_system_volume() {
    let raws = vec![
        probe("C:\\", Some(10), Some("OS")),
        probe("E:\\", Some(20), None),
        probe("C:\\", Some(30), Some("again")),
    ];
    let vs = build_catalog(&raws, &Some("C:\\".to_string()));
    assert_eq!(vs.len(), 2);
    assert_eq!(vs[0].identifier, "C:\\");
    assert_eq!(vs[0].capacity_bytes, 10);
    assert_eq!(vs[0].label, "OS");
    assert!(vs[0].is_system);
    assert!(!vs[1].is_system);
    assert_eq!(vs.iter().filter(|v| v.is_system).count(), 1);
}

#[test]
fn catalog_without_system_identifier_has_no_system_volume() {
    let raws = vec![probe("/mnt/a", None, Some("a")), probe("/mnt/b", None, Some("b"))];
    let vs = build_catalog(&raws, &None);
    assert_eq!(vs.len(), 2);
    assert!(vs.iter().all(|v| !v.is_system));
    assert!(build_catalog(&Vec::new(), &None).is_empty());
}

#[test]
fn catalog_built_twice_agrees() {
    let raws = vec![probe("C:\\", Some(1), Some("OS")), probe("E:\\", Some(2), Some("USB"))];
    let sys = Some("C:\\".to_string());
    let a = build_catalog(&raws, &sys);
    let b = build_catalog(&raws, &sys);
    assert_eq!(a.len(), b.len());
    for (x, y) in a.iter().zip(b.iter()) {
        assert_eq!(x.identifier, y.identifier);
        assert_eq!(x.is_system, y.is_system);
        assert_eq!(x.label, y.label);
    }
}

#[test]
fn safety_refuses_system_volume() {
    let vs = host();
    assert!(matches!(check_safety(&vs, &"C:\\".to_string()), Err(SanitizeError::SystemVolumeProtected)));
}

#[test]
fn safety_reports_unknown_volume() {
    assert!(matches!(check_safety(&host(), &"Z:\\".to_string()), Err(SanitizeError::NotFound)));
    assert!(matches!(check_safety(&Vec::new(), &"E:\\".to_string()), Err(SanitizeError::NotFound)));
}

#[test]
fn safety_permits_other_volume() {
    assert!(matches!(check_safety(&host(), &"E:\\".to_string()), Ok(true)));
    assert_eq!(find_volume(&host(), &"E:\\".to_string()), Some(1));
}

#[test]
fn unconfirmed_request_fails_before_any_io() {
    let actions = run(&request("E:\\", false, PassLength::Fixed), host(), true);
    assert_eq!(actions.len(), 1);
    assert!(matches!(actions[0], Action::Fail(SanitizeError::ConfirmationRequired)));
}

#[test]
fn confirmed_request_writes_three_hundred_mebibytes() {
    let actions = run(&request("E:\\", true, PassLength::Fixed), host(), true);
    assert!(matches!(actions[0], Action::Enumerate));
    assert!(matches!(&actions[1], Action::CheckPath(p) if p == "E:\\"));
    assert!(matches!(&actions[2], Action::CreateScratch(p) if p == "E:\\/temp_sanitize_file"));
    let w = writes(&actions);
    assert_eq!(w.len(), 300);
    assert!(w[..100].iter().all(|f| *f == Fill::Zeros));
    assert!(w[100..200].iter().all(|f| *f == Fill::Ones));
    assert!(w[200..].iter().all(|f| *f == Fill::Random));
    assert_eq!(actions.iter().filter(|a| matches!(a, Action::Flush)).count(), 3);
    assert!(matches!(&actions[actions.len() - 2], Action::RemoveScratch(p) if p == "E:\\/temp_sanitize_file"));
    match actions.last().unwrap() {
        Action::Complete(o) => {
            assert_eq!(o.bytes_written, 3 * 100 * 1_048_576);
            assert_eq!(o.passes, 3);
            assert_eq!(o.identifier, "E:\\");
            let summary = o.summary();
            assert!(summary.contains("300 MB"));
            assert!(summary.contains("3-pass"));
            assert!(summary.contains("E:\\"));
        }
        _ => panic!("expected completion"),
    }
}

#[test]
fn system_target_is_refused_before_any_write() {
    let actions = run(&request("C:\\", true, PassLength::Fixed), host(), true);
    assert_eq!(actions.len(), 2);
    assert!(matches!(actions[1], Action::Fail(SanitizeError::SystemVolumeProtected)));
}

#[test]
fn unknown_target_is_not_found() {
    let actions = run(&request("Z:\\", true, PassLength::Fixed), host(), true);
    assert_eq!(actions.len(), 2);
    assert!(matches!(actions[1], Action::Fail(SanitizeError::NotFound)));
}

#[test]
fn vanished_path_is_not_found() {
    let actions = run(&request("E:\\", true, PassLength::Fixed), host(), false);
    assert!(matches!(actions.last().unwrap(), Action::Fail(SanitizeError::NotFound)));
    assert!(writes(&actions).is_empty());
}

#[test]
fn listing_failure_is_reported() {
    let (mut s, _) = Sanitization::start(&request("E:\\", true, PassLength::Fixed));
    assert!(matches!(s.step(Event::ListingFailed), Action::Fail(SanitizeError::EnumerationFailure)));
    assert_eq!(s.stage, Stage::Finished);
}

#[test]
fn io_failure_carries_its_cause() {
    let (mut s, _) = Sanitization::start(&request("E:\\", true, PassLength::Fixed));
    s.step(Event::Listed(host()));
    s.step(Event::PathChecked(true));
    s.step(Event::Done);
    assert_eq!(s.stage, Stage::Writing { pass: 0, block: 0 });
    match s.step(Event::IoFailed("disk full".to_string())) {
        Action::Fail(SanitizeError::IoFailure(d)) => assert_eq!(d, "disk full"),
        _ => panic!("expected an I/O failure"),
    }
    assert!(!s.accepts(&Event::Done));
}

#[test]
fn capacity_bounded_pass_length_follows_small_volumes() {
    assert_eq!(blocks_per_pass(PassLength::Fixed, 0), 100);
    assert_eq!(blocks_per_pass(PassLength::CapacityBounded, 5 * BLOCK_SIZE + 3), 5);
    assert_eq!(blocks_per_pass(PassLength::CapacityBounded, 10_000_000_000), 100);
    let vs = vec![volume("/mnt/tiny", 5 * BLOCK_SIZE, false)];
    let actions = run(&request("/mnt/tiny", true, PassLength::CapacityBounded), vs, true);
    assert_eq!(writes(&actions).len(), 15);
    match actions.last().unwrap() {
        Action::Complete(o) => assert_eq!(o.bytes_written, 15 * BLOCK_SIZE),
        _ => panic!("expected completion"),
    }
}

#[test]
fn empty_volume_under_capacity_bound_writes_nothing() {
    let vs = vec![volume("/mnt/empty", 0, false)];
    let actions = run(&request("/mnt/empty", true, PassLength::CapacityBounded), vs, true);
    assert!(writes(&actions).is_empty());
    assert_eq!(actions.iter().filter(|a| matches!(a, Action::Flush)).count(), 3);
    assert!(matches!(actions.last().unwrap(), Action::Complete(o) if o.bytes_written == 0));
}

#[test]
fn constant_blocks_hold_their_pattern() {
    let mut src = PatternSource::from_seed(1);
    let z = src.block(Fill::Zeros);
    let o = src.block(Fill::Ones);
    assert_eq!(z.len(), BLOCK_BYTES);
    assert_eq!(o.len(), 1_048_576);
    assert!(z.iter().all(|b| *b == 0));
    assert!(o.iter().all(|b| *b == 0xFF));
}

#[test]
fn random_blocks_are_seeded_and_fresh() {
    let mut a = PatternSource::from_seed(42);
    let mut b = PatternSource::from_seed(42);
    let first = a.block(Fill::Random);
    assert_eq!(first.len(), BLOCK_BYTES);
    assert_eq!(first, b.block(Fill::Random));
    assert!(first.iter().any(|x| *x != 0));
    assert!(first.iter().any(|x| *x != 0xFF));
    assert_ne!(first, a.block(Fill::Random));
    let mut c = PatternSource::from_entropy().expect("entropy");
    assert_eq!(c.block(Fill::Random).len(), BLOCK_BYTES);
}

#[test]
fn decimal_and_paths_and_messages() {
    assert_eq!(decimal_text(0), "0");
    assert_eq!(decimal_text(300), "300");
    assert_eq!(decimal_text(u64::MAX), "18446744073709551615");
    assert_eq!(scratch_path(&"/mnt/usb".to_string()), "/mnt/usb/temp_sanitize_file");
    assert_eq!(SanitizeError::SystemVolumeProtected.message(), "Cannot sanitize system drive");
    assert_eq!(SanitizeError::NotFound.message(), "Drive not found");
    assert_eq!(SanitizeError::ConfirmationRequired.message(), "Confirmation required to proceed");
    assert_eq!(SanitizeError::IoFailure("x".to_string()).message(), "I/O failure during overwrite: x");
}

#[test]
fn greeting_needs_a_name() {
    assert_eq!(greet("Ada"), Ok("Hello, Ada! Welcome to Data Sanitizer Pro.".to_string()));
    assert_eq!(greet(""), Err("Name cannot be empty".to_string()));
}
