use ubuntu_config_scripts::optimize_rust_dev::{
    cargo_config_content, check_root, fstab_needs_swap_entry, swap_size_gb, sysctl_settings, zram_in_use,
    zram_module_missing, fstab_swap_entry, is_intellij_dir,
    swap_needs_resize, target_swap_config, text_contains, vm_options, zram_script_content,
    zram_service_content, OptimizationResult, SwapConfig,
};

#[test]
fn test_swap_config_creation() {
    let config = SwapConfig {
        current_size_gb: 32,
        target_size_gb: 64,
        swappiness: 10,
        cache_pressure: 50,
    };

    assert_eq!(config.target_size_gb, 64);
    assert_eq!(config.swappiness, 10);
}

#[test]
fn test_optimization_result_default() {
    let result = OptimizationResult::default();
    assert!(!result.swap_configured);
    assert!(!result.zram_configured);
    assert!(!result.sysctl_configured);
    assert!(!result.tools_installed);
    assert!(!result.intellij_configured);
}

#[test]
fn test_create_cargo_config_content() {
    let expected_content = r#"[build]
jobs = 8
rustc-wrapper = "sccache"

[target.x86_64-unknown-linux-gnu]
linker = "clang"
rustflags = ["-C", "link-arg=-fuse-ld=mold", "-C", "target-cpu=native"]

[net]
git-fetch-with-cli = true

[profile.dev]
opt-level = 0
debug = 1
lto = false
codegen-units = 256
incremental = true

[profile.release]
opt-level = 3
lto = "thin"
codegen-units = 1
"#;

    assert!(expected_content.contains("rustc-wrapper = \"sccache\""));
    assert!(expected_content.contains("link-arg=-fuse-ld=mold"));
    assert!(expected_content.contains("codegen-units = 256"));
    assert_eq!(cargo_config_content(), expected_content);
}

#[test]
fn test_vm_options_content() {
    let vm_options_text = r#"-Xms2048m
-Xmx8192m
-XX:ReservedCodeCacheSize=512m
-XX:+UseG1GC"#;

    assert!(vm_options_text.contains("-Xmx8192m"));
    assert!(vm_options_text.contains("-XX:+UseG1GC"));
    assert!(vm_options("/home/dev").starts_with(vm_options_text));
}

#[test]
fn test_zram_service_content() {
    let service_content = r#"[Unit]
Description=Configure ZRAM swap device
After=multi-user.target

[Service]
Type=oneshot
RemainAfterExit=yes
ExecStart=/usr/local/bin/setup-zram.sh

[Install]
WantedBy=multi-user.target
"#;

    assert!(service_content.contains("Description=Configure ZRAM swap device"));
    assert!(service_content.contains("ExecStart=/usr/local/bin/setup-zram.sh"));
    assert_eq!(zram_service_content(), service_content);
}

#[test]
fn swap_targets() {
    let config = target_swap_config(16);
    assert_eq!(config.current_size_gb, 16);
    assert_eq!(config.target_size_gb, 64);
    assert_eq!(config.swappiness, 10);
    assert_eq!(config.cache_pressure, 50);
    assert!(swap_needs_resize(&config));
    assert!(!swap_needs_resize(&target_swap_config(64)));
    assert!(!swap_needs_resize(&target_swap_config(128)));
}

#[test]
fn fstab_entry_detection() {
    assert!(fstab_needs_swap_entry("UUID=1 / ext4 defaults 0 1\n"));
    assert!(!fstab_needs_swap_entry("/swapfile none swap sw 0 0\n"));
    assert!(fstab_needs_swap_entry(""));
    assert_eq!(fstab_swap_entry(), "/swapfile none swap sw 0 0");
}

#[test]
fn content_texts() {
    let opts = vm_options("/home/dev");
    assert!(opts.ends_with("-Djb.vmOptionsFile=/home/dev/.config/JetBrains/idea64.vmoptions\n"));
    assert!(zram_script_content().contains("swapon -p 100 /dev/zram0"));
    assert!(is_intellij_dir("IntelliJIdea2024.1"));
    assert!(is_intellij_dir("IdeaIC2023.3"));
    assert!(!is_intellij_dir("PyCharm2024.1"));
    assert!(text_contains("abc", ""));
    assert!(text_contains("abcabd", "abd"));
    assert!(!text_contains("ab", "abc"));
}

#[test]
fn swap_size_reading() {
    // The size is read from the second column of the first line.
    assert_eq!(swap_size_gb(""), 0);
    assert_eq!(swap_size_gb("/swapfile 68719476736 0 -2\n"), 64);
    assert_eq!(swap_size_gb("  /swapfile   2147483648 0\n/dev/zram0 17179869184 0 100\n"), 2);
    assert_eq!(swap_size_gb("/swapfile file 68719476736 0 -2"), 0);
    assert_eq!(swap_size_gb("/swapfile\n/dev/zram0 17179869184"), 0);
    assert_eq!(swap_size_gb("/swapfile +3221225472"), 3);
    assert_eq!(swap_size_gb("/swapfile 1073741823"), 0);
    // 2^62 bytes is 2^32 GiB, whose low 32 bits are 0.
    assert_eq!(swap_size_gb("/swapfile 4611686018427387904"), 0);
    assert_eq!(swap_size_gb("/swapfile 99999999999999999999"), 0);
}

#[test]
fn zram_and_sysctl_decisions() {
    assert!(zram_module_missing("ext4 1 0 - Live\n"));
    assert!(!zram_module_missing("zram 45056 1 - Live\n"));
    assert!(zram_in_use(" 17179869184\n"));
    assert!(!zram_in_use("0\n"));
    assert!(!zram_in_use("garbage"));
    let settings = sysctl_settings(&SwapConfig {
        current_size_gb: 0,
        target_size_gb: 64,
        swappiness: 10,
        cache_pressure: 50,
    });
    let pairs: Vec<(&str, &str)> = settings.iter().map(|(k, v)| (k.as_str(), v.as_str())).collect();
    assert_eq!(
        pairs,
        vec![
            ("vm.swappiness", "10"),
            ("vm.vfs_cache_pressure", "50"),
            ("vm.dirty_ratio", "15"),
            ("vm.dirty_background_ratio", "5"),
        ]
    );
}

#[test]
fn test_check_root_non_root() {
    let result = check_root(1000);
    assert!(result.is_err());
    assert_eq!(result.unwrap_err(), "This script must be run with sudo");
    assert_eq!(check_root(0), Ok(()));
}
