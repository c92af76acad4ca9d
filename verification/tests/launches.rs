use objeta::aot::util;
use objeta::cache::{CudaExpertCache, ExpertCacheKey, ExpertTensorKind};
use objeta::launch;
use objeta::launch::LaunchShape;
use objeta::options;
use objeta::options::{RunOptions, Selection};
use objeta::quant::{QGemvShape, QuantFormat};

fn options_of(extra: &[&str]) -> RunOptions {
    let mut args: Vec<String> = Vec::new();
    for a in ["run", "--parse-dir", "p", "--model-dir", "m", "--layer", "4"] {
        args.push(a.to_string());
    }
    for a in extra {
        args.push(a.to_string());
    }
    options::parse_options(&args, &args).unwrap()
}

#[test]
fn element_launches_cover_their_elements() {
    assert_eq!(launch::elementwise(0), LaunchShape { grid_x: 0, grid_y: 1, block_x: 256 });
    assert_eq!(launch::elementwise(1), LaunchShape { grid_x: 1, grid_y: 1, block_x: 256 });
    assert_eq!(launch::elementwise(256), LaunchShape { grid_x: 1, grid_y: 1, block_x: 256 });
    assert_eq!(launch::elementwise(257), LaunchShape { grid_x: 2, grid_y: 1, block_x: 256 });
}

#[test]
fn row_and_activation_launches() {
    assert_eq!(launch::by_rows(7, 32), LaunchShape { grid_x: 7, grid_y: 1, block_x: 32 });
    assert_eq!(
        launch::by_activation_blocks(32, 3),
        LaunchShape { grid_x: 32, grid_y: 3, block_x: 128 }
    );
}

#[test]
fn large_numbers_keep_their_low_half() {
    assert_eq!(launch::to_low32(5), 5);
    assert_eq!(launch::to_low32((1usize << 32) + 9), 9);
}

#[test]
fn quantized_product_launch() {
    let l = launch::gemv_launch(QGemvShape::new(QuantFormat::Q4_0, 16, 64));
    assert_eq!(l.shape, LaunchShape { grid_x: 16, grid_y: 1, block_x: 32 });
    assert_eq!((l.rows, l.cols, l.blocks_per_row, l.row_bytes), (16, 64, 2, 36));
}

#[test]
fn total_size_as_a_number() {
    assert_eq!(util::total_size_number(Some(12), None), Ok(12));
    assert_eq!(util::total_size_number(Some(12), Some(3.0f64.to_bits())), Ok(12));
    assert_eq!(util::total_size_number(None, Some(7.9f64.to_bits())), Ok(7));
    assert_eq!(util::total_size_number(None, Some((-1.0f64).to_bits())), Ok(0));
    assert_eq!(util::total_size_number(None, Some(1.0e30f64.to_bits())), Ok(u64::MAX));
    assert_eq!(
        util::total_size_number(None, None),
        Err("unsupported numeric total_size".to_string())
    );
}

#[test]
fn configuring_a_cache_keeps_what_it_holds() {
    let key = ExpertCacheKey {
        layer_id: 0,
        expert_id: 1,
        tensor_kind: ExpertTensorKind::Gate,
        quant_format: QuantFormat::Q4_0,
    };
    let mut cache: CudaExpertCache<u8> = CudaExpertCache::new(100);
    cache.insert(key, 5, 40);
    assert!(cache.get(&key).is_some());
    cache.configure(64, true);
    assert_eq!(cache.capacity_bytes, 64);
    assert!(cache.bypass_oversized_experts);
    assert_eq!(cache.hit_count, 0);
    assert_eq!(cache.resident_bytes, 40);
    assert_eq!(cache.get(&key).map(|b| *b), Some(5));
}

#[test]
fn selections_follow_the_options() {
    assert_eq!(options_of(&[]).selection(), Selection::Routed);
    assert_eq!(options_of(&["--expert-ids", "1,2"]).selection(), Selection::Manual);
    assert_eq!(options_of(&["--selection-mode", "router"]).selection(), Selection::Gated);
    assert_eq!(
        options_of(&["--selection-mode", "router", "--expert-ids", "1"]).selection(),
        Selection::Gated
    );
}

#[test]
fn weights_are_uniform_unless_listed() {
    assert!(options_of(&["--expert-ids", "1"]).uniform_weights());
    assert!(options_of(&["--expert-weights", "uniform"]).uniform_weights());
    assert!(!options_of(&["--expert-weights", "0.5,0.5"]).uniform_weights());
}
