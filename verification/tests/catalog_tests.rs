use otvetka::models::complete_image_ids;
use otvetka::models::{
    catalog, choose_gpu, device_list_readable, download_total, find_model, image_catalog,
    image_def, image_grand_total, image_total_mb, is_discrete_gpu, is_model_file,
    is_plain_file_name, is_safe_image_name, parse_devices, recommend_image_model,
    recommend_model, DownloadProgress, GpuDevice, ImageDownloadProgress, MIB,
};

#[test]
fn catalogs_hold_the_models() {
    let c = catalog();
    let ids: Vec<&str> = c.iter().map(|m| m.id).collect();
    assert_eq!(ids, vec!["standard", "light", "big8", "big14", "uncensored"]);
    let big8 = find_model("big8").unwrap();
    assert_eq!(big8.file, "Qwen3-8B-Q4_K_M.gguf");
    assert_eq!(big8.size_mb, 4795);
    assert!(find_model("huge").is_none());
    let ic = image_catalog();
    assert_eq!(ic.len(), 3);
    let chroma = image_def("chroma").unwrap();
    assert_eq!(chroma.kind, "chroma");
    assert_eq!(chroma.files.len(), 3);
    assert_eq!(chroma.cfg_tenths, 40);
    assert_eq!(image_total_mb(&chroma), 9285 + 2762 + 320);
    assert_eq!(image_grand_total(&chroma), (9285 + 2762 + 320) * MIB);
    let kontext = image_def("kontext").unwrap();
    assert_eq!(kontext.steps, 22);
    assert_eq!(image_total_mb(&kontext), 9392 + 234 + 2762 + 320);
    assert!(image_def("flux").is_none());
}

#[test]
fn file_names() {
    assert!(is_model_file("Qwen3-8B-Q4_K_M.gguf"));
    assert!(!is_model_file("Qwen3-8B-Q4_K_M.gguf.part"));
    assert!(!is_model_file("gguf"));
    assert!(is_plain_file_name("a.gguf"));
    assert!(!is_plain_file_name("../a.gguf"));
    assert!(!is_plain_file_name("dir\\a.gguf"));
    assert!(is_safe_image_name("img-1-0.png"));
    assert!(!is_safe_image_name("..png"));
    assert!(!is_safe_image_name("a/b.png"));
}

#[test]
fn discrete_cards_by_name() {
    assert!(is_discrete_gpu("NVIDIA GeForce RTX 5070 Ti"));
    assert!(is_discrete_gpu("AMD Radeon RX 7800 XT"));
    assert!(is_discrete_gpu("Intel(R) Arc(TM) A770"));
    assert!(!is_discrete_gpu("AMD Radeon(TM) Graphics"));
    assert!(!is_discrete_gpu("Intel(R) UHD Graphics 770"));
}

const LIST: &str = "ggml_vulkan: Found 2 Vulkan devices:\nAvailable devices:\n  Vulkan0: AMD Radeon(TM) Graphics (16384 MiB, 15000 MiB free)\n  Vulkan1: NVIDIA GeForce RTX 5070 Ti (15,995 MiB, 15227 MiB free)\n  junk (no memory here)\n";

#[test]
fn device_list_is_read() {
    assert!(device_list_readable(LIST));
    let d = parse_devices(LIST);
    assert_eq!(d.len(), 2);
    // the name ends at the first parenthesis, here the one of "(TM)"
    assert_eq!(d[0].name, "AMD Radeon");
    assert_eq!(d[0].vram_mib, 16384);
    assert_eq!(d[1].name, "NVIDIA GeForce RTX 5070 Ti");
    assert_eq!(d[1].vram_mib, 15995);
    let c = choose_gpu(&d).unwrap();
    assert_eq!(c.name, "NVIDIA GeForce RTX 5070 Ti");
    assert!(c.discrete);
    assert_eq!(c.vram_mib, 15995);
}

#[test]
fn device_without_discrete_takes_last_largest() {
    let d = vec![
        GpuDevice { name: "iGPU A".into(), vram_mib: 2048 },
        GpuDevice { name: "iGPU B".into(), vram_mib: 4096 },
        GpuDevice { name: "iGPU C".into(), vram_mib: 4096 },
    ];
    let c = choose_gpu(&d).unwrap();
    assert_eq!(c.name, "iGPU C");
    assert!(!c.discrete);
    assert!(choose_gpu(&vec![]).is_none());
    let lines = parse_devices("Device: (x MiB)\n(12 MiB)\nName (99999999999999999999 MiB)\n");
    assert!(lines.is_empty());
}

#[test]
fn a_name_after_the_parenthesis_cannot_be_read() {
    assert!(!device_list_readable("GPU (100 MiB): tail"));
    assert!(device_list_readable("GPU: x (100 MiB)"));
}

#[test]
fn recommendations() {
    let gib = 1u64 << 30;
    assert_eq!(recommend_model(true, 12 * 1024, 0), "big14");
    assert_eq!(recommend_model(true, 11 * 1024, 0), "big14");
    assert_eq!(recommend_model(true, 11 * 1024 - 1, 0), "big8");
    assert_eq!(recommend_model(true, 4096, 0), "standard");
    assert_eq!(recommend_model(true, 1024, 0), "light");
    assert_eq!(recommend_model(true, 512, 32 * gib), "standard");
    assert_eq!(recommend_model(false, 20000, 16 * gib), "standard");
    assert_eq!(recommend_model(false, 20000, 16 * gib - 1), "light");
    assert_eq!(recommend_image_model(true, 12288), "chroma");
    assert_eq!(recommend_image_model(true, 12287), "sdxl");
    assert_eq!(recommend_image_model(false, 24000), "sdxl");
}

#[test]
fn download_progress_reports_every_three_mib() {
    assert_eq!(download_total(Some(10), 2440), 10);
    assert_eq!(download_total(None, 2), 2 * MIB);
    let mut p = DownloadProgress::new();
    assert_eq!(p.chunk(MIB), None);
    assert_eq!(p.chunk(2 * MIB), None);
    assert_eq!(p.chunk(1), Some(3 * MIB + 1));
    assert_eq!(p.chunk(3 * MIB), None);
    assert_eq!(p.chunk(1), Some(6 * MIB + 2));
    assert_eq!(p.downloaded, 6 * MIB + 2);
}

#[test]
fn image_download_progress_over_files() {
    let mut p = ImageDownloadProgress::new();
    p.skip_file(10);
    assert_eq!(p.done_bytes, 10 * MIB);
    p.start_file();
    assert_eq!(p.chunk(1), Some(10 * MIB + 1));
    assert_eq!(p.chunk(MIB), None);
    p.finish_file(5 * MIB);
    assert_eq!(p.done_bytes, 15 * MIB);
    p.start_file();
    assert_eq!(p.chunk(4), Some(15 * MIB + 4));
    p.finish_file(1);
    assert_eq!(p.done_bytes, 15 * MIB + 4);
}

#[test]
fn complete_image_models_in_catalog_order() {
    let all = vec![vec![true], vec![true, true, true], vec![true, true, true, true]];
    assert_eq!(complete_image_ids(&all), vec!["sdxl", "chroma", "kontext"]);
    let some = vec![vec![false], vec![true, true, true], vec![true, false, true, true]];
    assert_eq!(complete_image_ids(&some), vec!["chroma"]);
    let short = vec![vec![true], vec![true, true]];
    assert_eq!(complete_image_ids(&short), vec!["sdxl"]);
    assert!(complete_image_ids(&vec![]).is_empty());
}
