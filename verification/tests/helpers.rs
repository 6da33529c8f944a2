use pc_benchmark::gpu::{
    compute_iterations, is_software_renderer, plan_for_adapter, vram_test_buffer_bytes,
    workgroup_count, AdapterPlan,
};
use pc_benchmark::rating::{rating_tier, RatingLabels, RatingTier};
use pc_benchmark::storage::{offset_of_block, random_block_offset};
use pc_benchmark::system_info::SystemInfo;
use pc_benchmark::units::{byte_unit_index, byte_unit_name};

#[test]
fn software_renderers_are_recognised() {
    assert!(is_software_renderer("llvmpipe (LLVM 15.0.7, 256 bits)"));
    assert!(is_software_renderer("Microsoft Basic Render Driver"));
    assert!(is_software_renderer("SOFTWARE rasterizer"));
    assert!(is_software_renderer("LLVMPIPE"));
    assert!(!is_software_renderer("NVIDIA GeForce RTX 3080"));
    assert!(is_software_renderer("Basic Renderer"));
    assert!(!is_software_renderer("Basic Rasterizer"));
    assert!(!is_software_renderer(""));
}

#[test]
fn adapter_plans() {
    assert_eq!(plan_for_adapter("AMD Radeon RX 6800", false), AdapterPlan::Benchmark);
    assert_eq!(plan_for_adapter("AMD Radeon RX 6800", true), AdapterPlan::Benchmark);
    assert_eq!(plan_for_adapter("llvmpipe", false), AdapterPlan::SkipSoftware);
    assert_eq!(plan_for_adapter("llvmpipe", true), AdapterPlan::ForcedSoftware);
}

#[test]
fn vram_buffer_is_clamped() {
    assert_eq!(vram_test_buffer_bytes(0), 1 << 20);
    assert_eq!(vram_test_buffer_bytes(128), 128 << 20);
    assert_eq!(vram_test_buffer_bytes(1024), 1024 << 20);
    assert_eq!(vram_test_buffer_bytes(5000), 1024 << 20);
}

#[test]
fn compute_iterations_are_clamped() {
    assert_eq!(compute_iterations(0), 1);
    assert_eq!(compute_iterations(64), 64);
    assert_eq!(compute_iterations(999), 999);
    assert_eq!(compute_iterations(5000), 999);
}

#[test]
fn workgroups_cover_items() {
    assert_eq!(workgroup_count(5_000_000, 256), 19532);
    assert_eq!(workgroup_count(256, 256), 1);
    assert_eq!(workgroup_count(257, 256), 2);
    assert_eq!(workgroup_count(0, 256), 0);
}

#[test]
fn byte_units() {
    assert_eq!(byte_unit_index(0), 0);
    assert_eq!(byte_unit_index(1023), 0);
    assert_eq!(byte_unit_index(1024), 1);
    assert_eq!(byte_unit_index(1_048_575), 1);
    assert_eq!(byte_unit_index(1_048_576), 2);
    assert_eq!(byte_unit_index(1 << 30), 3);
    assert_eq!(byte_unit_index(1 << 40), 4);
    assert_eq!(byte_unit_index(u64::MAX), 4);
    let names: Vec<&str> = (0..5).map(byte_unit_name).collect();
    assert_eq!(names, vec!["B", "KB", "MB", "GB", "TB"]);
}

#[test]
fn block_offsets_are_aligned_and_inside() {
    for _ in 0..1000 {
        let offset = random_block_offset(500_000_000, 4096);
        assert_eq!(offset % 4096, 0);
        assert!(offset + 4096 <= 500_000_000);
    }
    assert_eq!(random_block_offset(4096, 4096), 0);
    assert_eq!(random_block_offset(8191, 4096), 0);
}

#[test]
fn rating_tiers_cascade() {
    assert_eq!(rating_tier(true, true, true, true), RatingTier::Excellent);
    assert_eq!(rating_tier(false, true, true, true), RatingTier::VeryGood);
    assert_eq!(rating_tier(false, false, true, true), RatingTier::Good);
    assert_eq!(rating_tier(false, false, false, true), RatingTier::Average);
    assert_eq!(rating_tier(false, false, false, false), RatingTier::BelowAverage);
}

#[test]
fn default_rating_labels() {
    let labels = RatingLabels::default();
    assert_eq!(labels.excellent, "Excellent");
    assert_eq!(labels.very_good, "Very Good");
    assert_eq!(labels.good, "Good");
    assert_eq!(labels.average, "Average");
    assert_eq!(labels.below_average, "Below Average");
    assert_eq!(labels.label(RatingTier::VeryGood), "Very Good");
    assert_eq!(labels.label(RatingTier::BelowAverage), "Below Average");
}

#[test]
fn system_info_fallbacks() {
    let unknown = SystemInfo::from_readings(None, 0, 0, None, None);
    assert_eq!(unknown.cpu_name, "Unknown CPU");
    assert_eq!(unknown.os_name, "Unknown OS");
    assert_eq!(unknown.kernel_version, "Unknown");
    let known = SystemInfo::from_readings(
        Some("Ryzen".to_string()),
        16,
        1 << 34,
        Some("Linux".to_string()),
        Some("6.1".to_string()),
    );
    assert_eq!(known.cpu_name, "Ryzen");
    assert_eq!(known.cpu_cores, 16);
    assert_eq!(known.total_ram, 1 << 34);
    assert_eq!(known.os_name, "Linux");
    assert_eq!(known.kernel_version, "6.1");
}

fn rank(tier: RatingTier) -> u8 {
    match tier {
        RatingTier::Excellent => 4,
        RatingTier::VeryGood => 3,
        RatingTier::Good => 2,
        RatingTier::Average => 1,
        RatingTier::BelowAverage => 0,
    }
}

#[test]
fn higher_scores_never_rate_lower() {
    let thresholds = [10000.0f64, 7000.0, 5000.0, 3000.0];
    let tier_of = |score: f64| {
        rating_tier(
            score >= thresholds[0],
            score >= thresholds[1],
            score >= thresholds[2],
            score >= thresholds[3],
        )
    };
    let scores = [0.0f64, 2999.9, 3000.0, 4500.0, 5000.0, 6999.0, 7000.0, 9999.0, 10000.0, 25000.0];
    for pair in scores.windows(2) {
        assert!(rank(tier_of(pair[0])) <= rank(tier_of(pair[1])));
    }
    assert_eq!(tier_of(6999.0), RatingTier::Good);
    assert_eq!(tier_of(7000.0), RatingTier::VeryGood);
}

#[test]
fn block_offsets_by_index() {
    assert_eq!(offset_of_block(0, 4096, 4096), 0);
    assert_eq!(offset_of_block(3, 4096, 500_000_000), 12288);
    assert_eq!(offset_of_block(122069, 4096, 500_000_000), 499_994_624);
}
