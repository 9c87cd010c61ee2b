use subsystem_probe::layout::{DirLayout, MarkerUpdate};
use subsystem_probe::subsystem::{check_buffer_cfgload_system, SubSystem};

fn layout_of(entries: &[(&str, bool, bool)]) -> DirLayout {
    let mut layout = DirLayout::new();
    for (name, is_file, is_dir) in entries {
        layout.observe(name.as_bytes(), *is_file, *is_dir);
    }
    layout
}

fn full_image() -> Vec<(&'static str, bool, bool)> {
    vec![
        ("config.ini", true, false),
        ("device_trees", false, true),
        ("kernel.img", true, false),
        ("SYSTEM", true, false),
        ("cfgload", true, false),
    ]
}

#[test]
fn labels_of_each_variant() {
    assert_eq!(SubSystem::OfficialCoreELEC.as_str(), "Official CoreELEC");
    assert_eq!(SubSystem::OfficialEmuELEC.as_str(), "Official EmuELEC");
    assert_eq!(SubSystem::HybridCoreELEC.as_str(), "Hybrid CoreELEC");
    assert_eq!(SubSystem::HybridEmuELEC.as_str(), "Hybrid EmuELEC");
}

#[test]
fn flags_and_priority_order() {
    assert_eq!(SubSystem::OfficialCoreELEC.cfgload_flag(), b"CoreELEC on eMMC".to_vec());
    assert_eq!(SubSystem::OfficialEmuELEC.cfgload_flag(), b"EmuELEC on eMMC".to_vec());
    assert_eq!(SubSystem::HybridCoreELEC.cfgload_flag(), b"HybridELEC (CE) on eMMC".to_vec());
    assert_eq!(SubSystem::HybridEmuELEC.cfgload_flag(), b"HybridELEC (EE) on eMMC".to_vec());
    assert_eq!(
        SubSystem::iterator(),
        vec![
            SubSystem::OfficialCoreELEC,
            SubSystem::OfficialEmuELEC,
            SubSystem::HybridCoreELEC,
            SubSystem::HybridEmuELEC,
        ]
    );
}

#[test]
fn marker_found_amid_other_bytes() {
    let buf = b"setenv x\nHybridELEC (EE) on eMMC\nboot".to_vec();
    assert_eq!(check_buffer_cfgload_system(&buf), Some(SubSystem::HybridEmuELEC));
    assert_eq!(check_buffer_cfgload_system(b"CoreELEC on eMMC"), Some(SubSystem::OfficialCoreELEC));
    assert_eq!(check_buffer_cfgload_system(b"xxEmuELEC on eMMC"), Some(SubSystem::OfficialEmuELEC));
    assert_eq!(check_buffer_cfgload_system(b"HybridELEC (CE) on eMMCyy"), Some(SubSystem::HybridCoreELEC));
}

#[test]
fn marker_match_is_case_sensitive() {
    assert_eq!(check_buffer_cfgload_system(b"coreelec on emmc"), None);
    assert_eq!(check_buffer_cfgload_system(b"HybridELEC (ce) on eMMC"), None);
}

#[test]
fn marker_truncated_does_not_match() {
    assert_eq!(check_buffer_cfgload_system(b"CoreELEC on eMM"), None);
}

#[test]
fn no_known_marker_is_no_class() {
    assert_eq!(check_buffer_cfgload_system(b""), None);
    assert_eq!(check_buffer_cfgload_system(b"some unrelated boot script"), None);
}

#[test]
fn first_variant_in_priority_order_wins() {
    let buf = b"HybridELEC (EE) on eMMC CoreELEC on eMMC".to_vec();
    assert_eq!(check_buffer_cfgload_system(&buf), Some(SubSystem::OfficialCoreELEC));
}

#[test]
fn complete_layout_classifies() {
    let layout = layout_of(&full_image());
    assert!(layout.wants_marker());
    assert_eq!(layout.classify(b"CoreELEC on eMMC\n"), Some(SubSystem::OfficialCoreELEC));
    assert_eq!(layout.classify(b"HybridELEC (CE) on eMMC"), Some(SubSystem::HybridCoreELEC));
}

#[test]
fn official_coreelec_image_reports_its_label() {
    let layout = layout_of(&full_image());
    let class = layout.classify(b"echo CoreELEC on eMMC");
    assert_eq!(class.map(|c| c.as_str()), Some("Official CoreELEC"));
}

#[test]
fn image_without_kernel_is_invalid() {
    let entries: Vec<_> = full_image().into_iter().filter(|e| e.0 != "kernel.img").collect();
    let layout = layout_of(&entries);
    assert!(!layout.wants_marker());
    assert_eq!(layout.classify(b"CoreELEC on eMMC"), None);
}

#[test]
fn each_required_entry_is_needed() {
    for missing in ["config.ini", "device_trees", "kernel.img", "SYSTEM"] {
        let entries: Vec<_> = full_image().into_iter().filter(|e| e.0 != missing).collect();
        assert_eq!(layout_of(&entries).classify(b"HybridELEC (EE) on eMMC"), None);
    }
}

#[test]
fn each_required_entry_must_have_its_kind() {
    for changed in ["config.ini", "device_trees", "kernel.img", "SYSTEM"] {
        let entries: Vec<_> = full_image()
            .into_iter()
            .map(|e| if e.0 == changed { (e.0, !e.1, !e.2) } else { e })
            .collect();
        assert_eq!(layout_of(&entries).classify(b"HybridELEC (EE) on eMMC"), None);
    }
}

#[test]
fn marker_absent_or_directory_is_no_class() {
    let entries: Vec<_> = full_image().into_iter().filter(|e| e.0 != "cfgload").collect();
    let layout = layout_of(&entries);
    assert!(!layout.wants_marker());
    assert_eq!(layout.classify(b"CoreELEC on eMMC"), None);

    let entries: Vec<_> = full_image()
        .into_iter()
        .map(|e| if e.0 == "cfgload" { ("cfgload", false, true) } else { e })
        .collect();
    assert_eq!(layout_of(&entries).classify(b"CoreELEC on eMMC"), None);
}

#[test]
fn entry_order_does_not_matter() {
    let mut entries = full_image();
    entries.reverse();
    assert_eq!(layout_of(&entries).classify(b"EmuELEC on eMMC"), Some(SubSystem::OfficialEmuELEC));
}

#[test]
fn names_are_case_sensitive() {
    let entries: Vec<_> = full_image()
        .into_iter()
        .map(|e| if e.0 == "SYSTEM" { ("system", true, false) } else { e })
        .collect();
    assert_eq!(layout_of(&entries).classify(b"CoreELEC on eMMC"), None);
}

#[test]
fn observe_tells_what_to_do_with_marker() {
    let mut layout = DirLayout::new();
    assert_eq!(layout.observe(b"cfgload", true, false), MarkerUpdate::Capture);
    assert!(layout.marker);
    assert_eq!(layout.observe(b"kernel.img", true, false), MarkerUpdate::Unchanged);
    assert!(layout.kernel_img);
    assert_eq!(layout.observe(b"cfgload", false, true), MarkerUpdate::Release);
    assert!(!layout.marker);
}
