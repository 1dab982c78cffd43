use go_plugin::platform::{arch, platform};

#[test]
fn arch_maps_x86_64_to_amd64() {
    assert_eq!(arch("x86_64"), "amd64");
    assert_eq!(arch("amd64"), "amd64");
}

#[test]
fn arch_maps_aarch64_to_arm64() {
    assert_eq!(arch("aarch64"), "arm64");
    assert_eq!(arch("arm64"), "arm64");
}

#[test]
fn arch_maps_32_bit_aliases() {
    assert_eq!(arch("i686"), "386");
    assert_eq!(arch("i386"), "386");
    assert_eq!(arch("386"), "386");
    assert_eq!(arch("armv6l"), "armv6l");
    assert_eq!(arch("armv7l"), "armv6l");
}

#[test]
fn arch_passes_unknown_through() {
    assert_eq!(arch("riscv64"), "riscv64");
    assert_eq!(arch("powerpc64"), "powerpc64");
    assert_eq!(arch(""), "");
}

#[test]
fn platform_names_macos_darwin() {
    assert_eq!(platform("macos"), "darwin");
    assert_eq!(platform("linux"), "linux");
    assert_eq!(platform("windows"), "windows");
}
