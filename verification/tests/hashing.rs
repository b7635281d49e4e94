use image_dedup::bits::pack_bits;
use image_dedup::discovery::{sort_paths, WalkEntry};
use image_dedup::perceptual_hash::leading_hash_bits;
use image_dedup::text::decimal;
use image_dedup::image_loader::{
    default_memory_estimate, FileScanner, ImageFormat, ImageLoader, ImageLoaderBackend, StandardImageLoader,
};
use image_dedup::perceptual_hash::{
    average_hash_from_gray, bytes_distance, calculate_hash_distance, dct_hash,
    difference_hash_from_gray, AverageConfig, AverageHasher, DifferenceHasher, HashAlgorithm,
    HashComparisonError, HashConfigError, HashResult, ImageData, PerceptualHasher,
};
use image_dedup::scan::{
    check_scan_input, choose_scan_preset, effective_thread_count, parametric_preset,
    preset_by_name, preset_for_config_path, ScanConfig, ScanPreset, StaticScanConfig,
};

fn image_from_fn(width: u32, height: u32, f: impl Fn(u32, u32) -> [u8; 3]) -> ImageData {
    let mut pixels = Vec::new();
    for y in 0..height {
        for x in 0..width {
            pixels.extend_from_slice(&f(x, y));
        }
    }
    ImageData { width, height, pixels }
}

fn result_with(data: Vec<u8>, algorithm: HashAlgorithm) -> HashResult {
    HashResult {
        hash_data: data,
        hash_size_bits: 16,
        algorithm,
        computation_time_ms: 0,
        source_dimensions: (1, 1),
    }
}

#[test]
fn test_average_config_creation() {
    let config = AverageConfig::default();
    assert_eq!(config.size, 8);
    assert_eq!(config.algorithm_name(), "average");
}

#[test]
fn test_average_config_validation() {
    let valid_config = AverageConfig { size: 16 };
    assert!(valid_config.validate().is_ok());
    let invalid_size = AverageConfig { size: 0 };
    assert!(invalid_size.validate().is_err());
    let too_large_size = AverageConfig { size: 128 };
    assert!(too_large_size.validate().is_err());
}

#[test]
fn average_config_errors_and_hasher() {
    assert_eq!(AverageConfig { size: 0 }.validate(), Err(HashConfigError::ZeroSize));
    assert_eq!(AverageConfig { size: 65 }.validate(), Err(HashConfigError::SizeTooLarge));
    assert_eq!(HashConfigError::ZeroSize.message(), "Size must be greater than 0");
    assert_eq!(AverageConfig { size: 12 }.create_hasher().get_size(), 12);
}

#[test]
fn recommended_thresholds_and_complexity() {
    assert_eq!(HashAlgorithm::DCT { size: 32 }.recommended_threshold(), 8);
    assert_eq!(HashAlgorithm::Average { size: 16 }.recommended_threshold(), 2);
    assert_eq!(HashAlgorithm::Difference { size: 12 }.recommended_threshold(), 2);
    assert_eq!(HashAlgorithm::DCT { size: 8 }.computational_complexity(), 7);
    assert_eq!(AverageHasher::new(8).computational_complexity(), 2);
    assert_eq!(DifferenceHasher::new(8).computational_complexity(), 3);
    assert_eq!(AverageHasher::new(8).algorithm(), &HashAlgorithm::Average { size: 8 });
}

#[test]
fn hash_renderings_are_exact() {
    let r = result_with(vec![0x0f, 0xa0], HashAlgorithm::Average { size: 4 });
    assert_eq!(r.to_hex(), "0fa0");
    assert_eq!(r.to_bits(), "0000111110100000");
    assert_eq!(r.to_base64(), "D6A=");
    let copy = r.clone();
    assert_eq!(copy.hash_data, vec![0x0f, 0xa0]);
}

#[test]
fn bits_are_packed_most_significant_first() {
    assert_eq!(pack_bits(&vec![true, false, true]), vec![0b1010_0000]);
    let nine = vec![true; 9];
    assert_eq!(pack_bits(&nine), vec![0xff, 0x80]);
    assert!(pack_bits(&Vec::new()).is_empty());
}

#[test]
fn byte_distances() {
    assert_eq!(bytes_distance(&vec![0xff, 0x00], &vec![0x00, 0x00]), 8);
    assert_eq!(bytes_distance(&vec![0b1010], &vec![0b0101]), 4);
    let a = result_with(vec![1, 2], HashAlgorithm::Average { size: 4 });
    let b = result_with(vec![1, 3], HashAlgorithm::Average { size: 4 });
    let c = result_with(vec![1, 3], HashAlgorithm::Difference { size: 4 });
    let d = result_with(vec![1], HashAlgorithm::Average { size: 4 });
    assert_eq!(calculate_hash_distance(&a, &b), Ok(1));
    assert_eq!(calculate_hash_distance(&a, &c), Err(HashComparisonError::DifferentAlgorithms));
    assert_eq!(calculate_hash_distance(&a, &d), Err(HashComparisonError::DifferentSizes));
    assert_eq!(AverageHasher::new(4).are_similar(&a, &b, 1), Ok(true));
    assert_eq!(AverageHasher::new(4).are_similar(&a, &b, 0), Ok(false));
    assert_eq!(
        HashComparisonError::DifferentSizes.message(),
        "Cannot compare hashes of different sizes"
    );
}

#[test]
fn average_hash_of_gray_levels() {
    let gray: Vec<u8> = (0..16).map(|i| if i % 4 < 2 { 200 } else { 10 }).collect();
    assert_eq!(average_hash_from_gray(&gray, 4), vec![0b1100_1100, 0b1100_1100]);
}

#[test]
fn difference_hash_of_gray_levels() {
    let gray: Vec<u8> = vec![9, 5, 7, 1, 2, 3];
    assert_eq!(difference_hash_from_gray(&gray, 2), vec![0b1000_0000]);
}

#[test]
fn average_hash_of_half_white_image() {
    let hasher = AverageHasher::new(8);
    let image = image_from_fn(8, 8, |x, _| if x < 4 { [255, 255, 255] } else { [0, 0, 0] });
    let result = hasher.generate_hash(&image);
    assert_eq!(result.hash_data, vec![0xF0; 8]);
    assert_eq!(result.hash_size_bits, 64);
    assert_eq!(result.algorithm, HashAlgorithm::Average { size: 8 });
    assert_eq!(result.source_dimensions, (8, 8));
    assert_eq!(hasher.algorithm_name(), "Average Hash");
}

#[test]
fn average_hash_of_checkerboard() {
    let hasher = AverageHasher::new(8);
    let image = image_from_fn(64, 64, |x, y| if (x + y) % 2 == 0 { [255, 255, 255] } else { [0, 0, 0] });
    let result = hasher.generate_hash(&image);
    assert_eq!(result.hash_size_bits, 64);
    assert_eq!(result.algorithm, HashAlgorithm::Average { size: 8 });
    assert!(!result.hash_data.is_empty());
}

#[test]
fn difference_hash_of_falling_gradient() {
    let hasher = DifferenceHasher::new(8);
    let image = image_from_fn(9, 8, |x, _| {
        let v = 255 - (x * 28) as u8;
        [v, v, v]
    });
    let result = hasher.generate_hash(&image);
    assert_eq!(result.hash_data, vec![0xFF; 8]);
    assert_eq!(result.algorithm, HashAlgorithm::Difference { size: 8 });
    assert_eq!(hasher.algorithm_name(), "Difference Hash");
}

#[test]
fn hash_comparison_between_algorithms() {
    let image = image_from_fn(50, 50, |_, _| [0, 0, 0]);
    let avg_hasher = AverageHasher::new(8);
    let diff_hasher = DifferenceHasher::new(8);
    let avg_hash = avg_hasher.generate_hash(&image);
    let diff_hash = diff_hasher.generate_hash(&image);
    assert_eq!(avg_hasher.calculate_distance(&avg_hash, &avg_hash), Ok(0));
    assert!(avg_hasher.calculate_distance(&avg_hash, &diff_hash).is_err());
}

#[test]
fn dct_hash_is_deterministic() {
    let image = image_from_fn(32, 32, |x, y| [(x * 8) as u8, (y * 8) as u8, 100]);
    let first = dct_hash(&image, 8);
    let second = dct_hash(&image, 8);
    assert_eq!(first.hash_data, second.hash_data);
    assert_eq!(first.hash_data.len(), 8);
    assert_eq!(first.hash_size_bits, 64);
    assert_eq!(first.algorithm, HashAlgorithm::DCT { size: 8 });
    assert_eq!(calculate_hash_distance(&first, &second), Ok(0));
}

#[test]
fn test_is_image_extension() {
    assert!(FileScanner::is_image_extension("jpg"));
    assert!(FileScanner::is_image_extension("png"));
    assert!(!FileScanner::is_image_extension("txt"));
    assert!(FileScanner::is_image_extension("webp"));
    assert!(!FileScanner::is_image_extension("JPG"));
}

struct TestLoader;

impl ImageLoaderBackend for TestLoader {
    fn strategy_name(&self) -> &'static str {
        "test"
    }
}

struct EightByteLoader;

impl ImageLoaderBackend for EightByteLoader {
    fn strategy_name(&self) -> &'static str {
        "test"
    }

    fn estimate_memory_usage(&self, width: u32, height: u32) -> u64 {
        width as u64 * height as u64 * 8
    }
}

#[test]
fn test_default_memory_estimation() {
    let loader = TestLoader;
    assert_eq!(loader.estimate_memory_usage(100, 100), 40000);
    assert_eq!(loader.estimate_memory_usage(1920, 1080), 8294400);
    assert_eq!(loader.max_supported_pixels(), None);
    assert_eq!(default_memory_estimate(3, 5), 60);
}

#[test]
fn test_large_image_memory_calculation() {
    let loader = EightByteLoader;
    assert_eq!(loader.estimate_memory_usage(1000, 1000), 8000000);
}

#[test]
fn standard_loader_limits() {
    let plain = StandardImageLoader::new();
    assert_eq!(plain.strategy_name(), "Standard");
    assert_eq!(plain.max_supported_pixels(), None);
    assert!(!plain.needs_resize(10_000, 10_000));
    assert_eq!(plain.estimate_memory_usage(100, 50), 40000);
    let capped = StandardImageLoader::with_max_dimension(150);
    assert_eq!(capped.strategy_name(), "Standard with size limit");
    assert_eq!(capped.max_supported_pixels(), Some(22500));
    assert!(capped.needs_resize(300, 200));
    assert!(!capped.needs_resize(150, 100));
    assert_eq!(capped.estimate_memory_usage(300, 100), 150 * 100 * 8);
    let image = ImageData { width: 3, height: 2, pixels: vec![0; 18] };
    assert_eq!(ImageLoader::get_image_dimensions(&image), (3, 2));
}

#[test]
fn test_static_scan_config_creation() {
    let config = StaticScanConfig {
        target_directory: "/test".to_string(),
        output: "output.json".to_string(),
        threads: Some(4),
        force: true,
    };
    assert_eq!(config.target_directory, "/test");
    assert_eq!(config.output, "output.json");
    assert_eq!(config.threads, Some(4));
    assert!(config.force);
}

#[test]
fn scan_preset_selection() {
    assert_eq!(choose_scan_preset(None, "dct", 8, None), Ok(ScanPreset::Default));
    assert_eq!(choose_scan_preset(None, "dct", 32, None), Ok(ScanPreset::HighPerformance));
    assert_eq!(choose_scan_preset(None, "average", 8, Some(8)), Ok(ScanPreset::HighPerformance));
    assert_eq!(choose_scan_preset(None, "average", 8, Some(2)), Ok(ScanPreset::Testing));
    assert_eq!(choose_scan_preset(Some("testing"), "dct", 64, None), Ok(ScanPreset::Testing));
    assert_eq!(
        choose_scan_preset(Some("fast"), "dct", 8, None),
        Err("Unknown configuration preset: fast. Available: default, high_performance, testing".to_string())
    );
    assert_eq!(preset_by_name("high_performance"), Ok(ScanPreset::HighPerformance));
    assert!(preset_by_name("x").err().unwrap().starts_with("無効なプリセット: x"));
    assert_eq!(parametric_preset("dct", 32), ScanPreset::HighPerformance);
    assert_eq!(parametric_preset("average", 8), ScanPreset::Testing);
    assert_eq!(parametric_preset("average", 16), ScanPreset::Default);
    assert_eq!(preset_for_config_path("conf/high_performance.json"), ScanPreset::HighPerformance);
    assert_eq!(preset_for_config_path("my_test.json"), ScanPreset::Testing);
    assert_eq!(preset_for_config_path("app.json"), ScanPreset::Default);
    assert_eq!(ScanPreset::HighPerformance.name(), "high_performance");
}

#[test]
fn scan_input_checks() {
    assert_eq!(
        check_scan_input(false, false, false, false, "dir", "out.json"),
        Err("Target directory does not exist: dir".to_string())
    );
    assert_eq!(
        check_scan_input(true, false, false, false, "f.txt", "out.json"),
        Err("Target path is not a directory: f.txt".to_string())
    );
    assert_eq!(
        check_scan_input(true, true, true, false, "dir", "out.json"),
        Err("Output file already exists: out.json. Use --force to overwrite.".to_string())
    );
    assert_eq!(check_scan_input(true, true, true, true, "dir", "out.json"), Ok(()));
    assert_eq!(effective_thread_count(Some(3)), 3);
    assert!(effective_thread_count(None) >= 1);
    let config = ScanConfig {
        target_directory: "d".to_string(),
        output: "o".to_string(),
        threads: None,
        force: false,
    };
    assert!(!config.force);
}

#[test]
fn hash_result_description() {
    let r = HashResult {
        hash_data: vec![0xab, 0x01],
        hash_size_bits: 64,
        algorithm: HashAlgorithm::DCT { size: 8 },
        computation_time_ms: 12,
        source_dimensions: (3, 4),
    };
    assert_eq!(r.describe(), "Hash(DCT { size: 8 }, 64 bits, 12ms): ab01");
    assert_eq!(HashAlgorithm::Difference { size: 120 }.debug_text(), "Difference { size: 120 }");
    assert_eq!(
        HashAlgorithm::Average { size: 16 }.debug_text(),
        format!("{:?}", HashAlgorithm::Average { size: 16 })
    );
}

#[test]
fn leading_hash_bits_are_big_endian() {
    assert_eq!(leading_hash_bits(&vec![0x12, 0x34]), 0x1234);
    assert_eq!(leading_hash_bits(&vec![1, 2, 3, 4, 5, 6, 7, 8, 9]), 0x0102030405060708);
    assert_eq!(leading_hash_bits(&Vec::new()), 0);
}

#[test]
fn decimal_rendering() {
    assert_eq!(decimal(0), "0");
    assert_eq!(decimal(907), "907");
    assert_eq!(decimal(u64::MAX), u64::MAX.to_string());
}

#[test]
fn average_hash_of_downscaled_halves() {
    let hasher = AverageHasher::new(8);
    let image = image_from_fn(16, 16, |x, _| if x < 8 { [255, 255, 255] } else { [0, 0, 0] });
    let result = hasher.generate_hash(&image);
    assert_eq!(result.hash_data, vec![0xF0; 8]);
    assert_eq!(result.source_dimensions, (16, 16));
}

fn uniform_image(side: u32, value: u8) -> ImageData {
    ImageData { width: side, height: side, pixels: vec![value; (side * side * 3) as usize] }
}

#[test]
fn test_generate_hash() {
    let hasher = PerceptualHasher::new();
    let image = uniform_image(100, 0);

    let hash = hasher.generate_hash(&image);
    let encoded = HashResult {
        hash_data: hash,
        hash_size_bits: 64,
        algorithm: HashAlgorithm::DCT { size: 8 },
        computation_time_ms: 0,
        source_dimensions: (100, 100),
    }
    .to_base64();
    assert!(!encoded.is_empty());
}

#[test]
fn test_similar_images() {
    let hasher = PerceptualHasher::new();

    let image1 = uniform_image(100, 0);
    let image2 = uniform_image(100, 10);

    let hash1 = hasher.generate_hash(&image1);
    let hash2 = hasher.generate_hash(&image2);

    let distance = PerceptualHasher::calculate_distance(&hash1, &hash2);
    assert!(distance > 0);

    assert!(PerceptualHasher::are_similar(&hash1, &hash1, 0));
}

#[test]
fn perceptual_hasher_sizes_and_distances() {
    let hasher = PerceptualHasher::new_with_size(16, 16);
    let hash = hasher.generate_hash(&image_from_fn(64, 64, |x, y| {
        let v = ((x * 4) ^ (y * 3)) as u8;
        [v, v, v]
    }));
    assert_eq!(hash.len(), 32);
    assert_eq!(hasher.generate_hash(&uniform_image(64, 7)).len(), 32);
    assert_eq!(PerceptualHasher::default().generate_hash(&uniform_image(40, 3)).len(), 8);

    assert_eq!(PerceptualHasher::calculate_distance(&vec![0xff, 0x00], &vec![0x0f, 0x00]), 4);
    assert_eq!(PerceptualHasher::calculate_distance(&vec![0xff], &vec![0x00, 0xff]), 8);
    assert!(PerceptualHasher::are_similar(&vec![0x01], &vec![0x03], 1));
    assert!(!PerceptualHasher::are_similar(&vec![0x01], &vec![0x06], 1));
}

fn walk_entry(path: &str, is_file: bool, extension: Option<&str>) -> WalkEntry {
    WalkEntry { path: path.to_string(), is_file, extension: extension.map(|e| e.to_string()) }
}

#[test]
fn test_scan_directory() {
    let entries = vec![
        walk_entry("dir", false, None),
        walk_entry("dir/image1.jpg", true, Some("jpg")),
        walk_entry("dir/image2.png", true, Some("png")),
        walk_entry("dir/document.txt", true, Some("txt")),
    ];

    let result = FileScanner::image_paths(&entries);

    assert_eq!(result.len(), 2);
    assert!(result.iter().any(|p| p.ends_with("image1.jpg")));
    assert!(result.iter().any(|p| p.ends_with("image2.png")));
}

#[test]
fn image_paths_skip_directories_and_unknown_extensions() {
    let entries = vec![
        walk_entry("b.webp", true, Some("webp")),
        walk_entry("photos.jpg", false, Some("jpg")),
        walk_entry("noext", true, None),
        walk_entry("a.tiff", true, Some("tiff")),
        walk_entry("c.JPG", true, Some("JPG")),
    ];
    assert_eq!(FileScanner::image_paths(&entries), vec!["b.webp".to_string(), "a.tiff".to_string()]);
}

#[test]
fn sort_paths_orders_by_bytes_and_keeps_every_path() {
    let paths = vec![
        "b/2.png".to_string(),
        "a/10.png".to_string(),
        "a/2.png".to_string(),
        "B.png".to_string(),
        "a/2.png".to_string(),
        "é.png".to_string(),
    ];
    let sorted = sort_paths(paths.clone());
    let mut expected = paths;
    expected.sort();
    assert_eq!(sorted, expected);
    assert_eq!(sort_paths(Vec::new()), Vec::<String>::new());
}

fn png_bytes(width: u32, height: u32) -> Vec<u8> {
    let image = image::RgbImage::from_fn(width, height, |x, y| image::Rgb([x as u8 * 40, y as u8 * 60, 7]));
    let mut bytes = Vec::new();
    image::DynamicImage::ImageRgb8(image)
        .write_to(&mut std::io::Cursor::new(&mut bytes), image::ImageFormat::Png)
        .unwrap();
    bytes
}

#[test]
fn loaders_decode_image_bytes() {
    let bytes = png_bytes(3, 2);
    let loader = StandardImageLoader::new();
    let image = loader.load_from_bytes(&bytes).unwrap();
    assert_eq!((image.width, image.height), (3, 2));
    assert_eq!(image.pixels.len(), 18);
    assert_eq!(&image.pixels[0..6], &[0, 0, 7, 40, 0, 7]);
    assert_eq!(&image.pixels[9..12], &[0, 60, 7]);

    let same = loader.load_with_format(&bytes, ImageFormat::Png).unwrap();
    assert_eq!(same.pixels, image.pixels);
    let by_path = ImageLoader::load_image("photos/picture.PNG", &bytes).unwrap();
    assert_eq!(by_path.pixels, image.pixels);
    let by_path = loader.load_from_path("picture.png", &bytes).unwrap();
    assert_eq!((by_path.width, by_path.height), (3, 2));
    let with_format = ImageLoader::load_with_format("picture.bin", &bytes, ImageFormat::Png).unwrap();
    assert_eq!(with_format.pixels, image.pixels);
}

#[test]
fn loaders_report_undecodable_bytes() {
    let loader = StandardImageLoader::new();
    assert_eq!(loader.load_from_bytes(&vec![1, 2, 3]).err().unwrap(), "Failed to load image from memory");
    let bytes = png_bytes(2, 2);
    assert_eq!(
        loader.load_with_format(&bytes, ImageFormat::Jpeg).err().unwrap(),
        "Failed to load image with format: Jpeg"
    );
    assert_eq!(
        ImageLoader::load_with_format("p.png", &bytes, ImageFormat::Gif).err().unwrap(),
        "Failed to decode image with format Gif: p.png"
    );
    assert_eq!(ImageLoader::load_image("notes.txt", &bytes).err().unwrap(), "Failed to load image from: notes.txt");
    assert_eq!(ImageLoader::load_image("noext", &bytes).err().unwrap(), "Failed to load image from: noext");
    assert_eq!(loader.load_from_path("p.jpg", &bytes).err().unwrap(), "Failed to load image from path: p.jpg");
}

#[test]
fn dct_hash_packs_its_bits_into_bytes() {
    let image = uniform_image(40, 9);
    assert_eq!(dct_hash(&image, 8).hash_data.len(), 8);
    assert_eq!(dct_hash(&image, 3).hash_data.len(), 2);
    assert_eq!(dct_hash(&image, 1).hash_data.len(), 1);
    assert_eq!(PerceptualHasher::new_with_size(5, 3).generate_hash(&image).len(), 2);
}
