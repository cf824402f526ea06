//! Reading the host's VRAM.
use aivyx_broker::gpu::{
    DrmEntry, MIB, ProbeEvent, ProbeStep, SystemGpuProbe, Vram, VramSource, amd, is_card,
    parse_nvidia_smi, sum_nvidia_smi,
};

fn card(name: &str, total: u64, used: u64) -> DrmEntry {
    DrmEntry {
        name: name.to_string(),
        vram_total: Some(format!("{total}\n")),
        vram_used: Some(format!("{used}\n")),
    }
}

fn bare(name: &str) -> DrmEntry {
    DrmEntry { name: name.to_string(), vram_total: None, vram_used: None }
}

#[test]
fn nvidia_smi_output_sums_every_gpu() {
    assert_eq!(
        parse_nvidia_smi("23028, 689\n"),
        Some(Vram { total_bytes: 23028 * MIB, used_bytes: 689 * MIB })
    );
    assert_eq!(
        parse_nvidia_smi("24564, 1000\n24564, 2000\n\n"),
        Some(Vram { total_bytes: 2 * 24564 * MIB, used_bytes: 3000 * MIB })
    );
    assert_eq!(parse_nvidia_smi(""), None);
    assert_eq!(parse_nvidia_smi("[N/A], [N/A]\n"), None);
}

#[test]
fn odd_nvidia_smi_output() {
    assert_eq!(MIB, 1024 * 1024);
    assert_eq!(
        parse_nvidia_smi("\r\n 8,4 \r\n"),
        Some(Vram { total_bytes: 8 * MIB, used_bytes: 4 * MIB })
    );
    assert_eq!(parse_nvidia_smi("+1,\u{3000}2\u{a0}"), parse_nvidia_smi("1,2"));
    assert_eq!(parse_nvidia_smi("1 2"), None);
    assert_eq!(parse_nvidia_smi("1,2,3"), None);
    assert_eq!(parse_nvidia_smi("-1,2"), None);
    assert_eq!(parse_nvidia_smi("1,2\nx,y"), None);
    assert_eq!(parse_nvidia_smi(" \n\t\n"), None);
}

#[test]
fn more_memory_than_fits_is_reported_as_such() {
    let most = u64::MAX / MIB;
    let line = format!("{most},{most}\n");
    assert!(sum_nvidia_smi(&line).unwrap().is_some());
    assert!(sum_nvidia_smi(&format!("{},0", most + 1)).is_err());
    assert!(sum_nvidia_smi(&format!("{line}1,0")).is_err());
    assert!(sum_nvidia_smi(&format!("{line}0,1")).is_err());
    // A line that makes no sense decides, if it comes first.
    assert_eq!(sum_nvidia_smi(&format!("x\n{line}{line}")), Ok(None));
    assert!(sum_nvidia_smi(&format!("{line}{line}x")).is_err());
    // Too large even for a number.
    assert_eq!(sum_nvidia_smi("18446744073709551616,0"), Ok(None));
}

#[test]
fn amd_sysfs_picks_the_card_with_the_most_vram() {
    // An iGPU beside a discrete card, plus a connector entry to ignore.
    let entries = vec![
        card("card0", 2 << 30, 1 << 30),
        card("card1", 16 << 30, 4 << 30),
        bare("card1-DP-1"),
    ];
    assert_eq!(amd(&entries), Some(Vram { total_bytes: 16 << 30, used_bytes: 4 << 30 }));
}

#[test]
fn amd_sysfs_without_vram_files_is_none() {
    assert_eq!(amd(&vec![bare("card0")]), None);
    let probe = SystemGpuProbe::new(VramSource::Amd);
    assert_eq!(probe.vram(ProbeEvent::Drm(None)), ProbeStep::Done(None));
}

#[test]
fn of_equal_cards_the_last_counts() {
    let entries = vec![card("card0", 8, 1), card("card1", 8, 2), card("card2", 4, 3)];
    assert_eq!(amd(&entries), Some(Vram { total_bytes: 8, used_bytes: 2 }));
}

#[test]
fn entries_that_are_no_cards_do_not_count() {
    assert!(is_card("card0"));
    assert!(is_card("card"));
    assert!(!is_card("card0-HDMI-A-1"));
    assert!(!is_card("renderD128"));
    assert!(!is_card("car"));
    assert!(!is_card(""));
    assert_eq!(amd(&vec![card("renderD128", 8, 1), card("card0-DP-1", 8, 1)]), None);
    let mut spoiled = card("card0", 8, 1);
    spoiled.vram_used = Some("n/a".to_string());
    assert_eq!(amd(&vec![spoiled]), None);
}

#[test]
fn the_none_source_never_probes() {
    assert_eq!(
        SystemGpuProbe::new(VramSource::Off).vram(ProbeEvent::Start),
        ProbeStep::Done(None)
    );
}

#[test]
fn the_auto_source_asks_amd_only_without_nvidia() {
    let probe = SystemGpuProbe::new(VramSource::Auto);
    assert_eq!(probe.drm_root(), "/sys/class/drm");
    assert_eq!(probe.vram(ProbeEvent::Start), ProbeStep::RunNvidiaSmi);
    assert_eq!(
        probe.vram(ProbeEvent::NvidiaSmi(Some("2,1".to_string()))),
        ProbeStep::Done(Some(Vram { total_bytes: 2 * MIB, used_bytes: MIB }))
    );
    assert_eq!(probe.vram(ProbeEvent::NvidiaSmi(None)), ProbeStep::ReadDrm);
    assert_eq!(probe.vram(ProbeEvent::NvidiaSmi(Some("?".to_string()))), ProbeStep::ReadDrm);
    assert_eq!(
        probe.vram(ProbeEvent::Drm(Some(vec![card("card0", 9, 3)]))),
        ProbeStep::Done(Some(Vram { total_bytes: 9, used_bytes: 3 }))
    );
    assert_eq!(
        probe.vram(ProbeEvent::NvidiaSmi(Some("99999999999999999,0".to_string()))),
        ProbeStep::Overflow
    );
}

#[test]
fn a_named_source_asks_nobody_else() {
    let nvidia = SystemGpuProbe::new(VramSource::Nvidia);
    assert_eq!(nvidia.vram(ProbeEvent::Start), ProbeStep::RunNvidiaSmi);
    assert_eq!(nvidia.vram(ProbeEvent::NvidiaSmi(None)), ProbeStep::Done(None));
    let amd = SystemGpuProbe::new(VramSource::Amd);
    assert_eq!(amd.vram(ProbeEvent::Start), ProbeStep::ReadDrm);
}
