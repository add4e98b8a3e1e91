use pixel_engine::PixelEngine;

fn strings(v: &[&str]) -> Vec<String> {
    v.iter().map(|s| s.to_string()).collect()
}

#[test]
fn default_layers() {
    assert_eq!(
        PixelEngine::default_layers(),
        strings(&[
            "VK_LAYER_KHRONOS_profiles",
            "VK_LAYER_KHRONOS_validation",
            "VK_LAYER_AMD_switchable_graphics"
        ])
    );
}

#[test]
fn necessary_surface_extensions() {
    assert_eq!(
        PixelEngine::necessary_surface_extensions(),
        strings(&["VK_KHR_surface", "VK_KHR_win32_surface"])
    );
}

#[test]
fn instance_plan() {
    let plan = PixelEngine::instance_plan();
    assert_eq!(plan.engine_name, "Pixel");
    assert_eq!(plan.api_version, ash::vk::make_api_version(0, 1, 2, 0));
    assert_eq!(plan.api_version, 4202496);
    assert_eq!(ash::vk::api_version_major(plan.api_version), 1);
    assert_eq!(ash::vk::api_version_minor(plan.api_version), 2);
    assert_eq!(plan.layers, PixelEngine::default_layers());
    assert_eq!(
        plan.extensions,
        strings(&[
            "VK_KHR_surface",
            "VK_KHR_win32_surface",
            "VK_EXT_debug_utils",
            "VK_EXT_debug_report",
            "VK_KHR_device_group_creation"
        ])
    );
}

#[test]
fn merged_extensions_keep_globals_and_add_new_layer_ones() {
    let global = strings(&["A", "B", "A"]);
    let per_layer = vec![strings(&["B", "C", "C"]), strings(&[]), strings(&["D", "A", "C"])];
    assert_eq!(
        PixelEngine::available_instance_extensions(&global, &per_layer),
        strings(&["A", "B", "A", "C", "D"])
    );
}

#[test]
fn merged_extensions_edge_cases() {
    assert!(PixelEngine::available_instance_extensions(&vec![], &vec![]).is_empty());
    assert_eq!(
        PixelEngine::available_instance_extensions(&vec![], &vec![strings(&["X", "X"])]),
        strings(&["X"])
    );
}

#[test]
fn merging_twice_changes_nothing() {
    let global = strings(&["A"]);
    let per_layer = vec![strings(&["B", "A"]), strings(&["C"])];
    let once = PixelEngine::available_instance_extensions(&global, &per_layer);
    let twice = PixelEngine::available_instance_extensions(&once, &per_layer);
    assert_eq!(once, twice);
}

#[test]
fn layer_check() {
    let layers = PixelEngine::default_layers();
    assert!(PixelEngine::layers_present(&layers, &layers));
    assert!(PixelEngine::layers_present(&vec![], &vec![]));
    assert!(!PixelEngine::layers_present(&layers, &strings(&["VK_LAYER_KHRONOS_validation"])));
    assert!(PixelEngine::layers_present(&strings(&["b"]), &strings(&["a", "b"])));
}
