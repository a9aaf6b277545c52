use cargo_wizard::known_options::{parse_target_cpu_list, KnownCargoOptions};

fn options() -> KnownCargoOptions {
    KnownCargoOptions::create(8, vec!["native".to_string(), "znver4".to_string()])
}

/// Every item that the user may set comes with at least one offered value.
#[test]
fn get_profile_id_possible_values() {
    let options = options();
    for id in KnownCargoOptions::get_all_ids() {
        assert!(!options.get_metadata(id).get_possible_values().is_empty());
    }
}

/// The names that `rustc --print target-cpus` lists on an x86-64 machine.
const CPUS: [&str; 121] = [
        "native", "alderlake", "amdfam10", "athlon", "athlon-4", "athlon-fx", "athlon-mp",
        "athlon-tbird", "athlon-xp", "athlon64", "athlon64-sse3", "atom", "atom_sse4_2",
        "atom_sse4_2_movbe", "barcelona", "bdver1", "bdver2", "bdver3", "bdver4", "bonnell",
        "broadwell", "btver1", "btver2", "c3", "c3-2", "cannonlake", "cascadelake",
        "cooperlake", "core-avx-i", "core-avx2", "core2", "core_2_duo_sse4_1",
        "core_2_duo_ssse3", "core_2nd_gen_avx", "core_3rd_gen_avx", "core_4th_gen_avx",
        "core_4th_gen_avx_tsx", "core_5th_gen_avx", "core_5th_gen_avx_tsx",
        "core_aes_pclmulqdq", "core_i7_sse4_2", "corei7", "corei7-avx", "emeraldrapids",
        "generic", "geode", "goldmont", "goldmont-plus", "goldmont_plus", "grandridge",
        "graniterapids", "graniterapids-d", "graniterapids_d", "haswell", "i386", "i486",
        "i586", "i686", "icelake-client", "icelake-server", "icelake_client", "icelake_server",
        "ivybridge", "k6", "k6-2", "k6-3", "k8", "k8-sse3", "knl", "knm", "lakemont",
        "meteorlake", "mic_avx512", "nehalem", "nocona", "opteron", "opteron-sse3", "penryn",
        "pentium", "pentium-m", "pentium-mmx", "pentium2", "pentium3", "pentium3m", "pentium4",
        "pentium4m", "pentium_4", "pentium_4_sse3", "pentium_ii", "pentium_iii",
        "pentium_iii_no_xmm_regs", "pentium_m", "pentium_mmx", "pentium_pro", "pentiumpro",
        "prescott", "raptorlake", "rocketlake", "sandybridge", "sapphirerapids", "sierraforest",
        "silvermont", "skx", "skylake", "skylake-avx512", "skylake_avx512", "slm", "tigerlake",
        "tremont", "westmere", "winchip-c6", "winchip2", "x86-64", "x86-64-v2", "x86-64-v3",
        "x86-64-v4", "yonah", "znver1", "znver2", "znver3", "znver4",
];

/// What `rustc --print target-cpus` prints for [`CPUS`]: a heading, then one
/// name to a line; the host's CPU and the target's default come with a note.
fn printed_cpus() -> String {
    let mut text = String::from("Available CPUs for this target:\n");
    for name in CPUS {
        text.push_str("    ");
        text.push_str(name);
        match name {
            "native" => text.push_str(
                "                  - Select the CPU of the current host (currently icelake-client).",
            ),
            "x86-64" => text.push_str(
                "                  - This is the default target CPU for the current build target (currently x86_64-unknown-linux-gnu).",
            ),
            _ => {}
        }
        text.push('\n');
    }
    text
}

#[test]
fn test_parse_target_cpu_list() {
    let cpu_list = parse_target_cpu_list(&printed_cpus());
    assert_eq!(cpu_list, CPUS);
}
