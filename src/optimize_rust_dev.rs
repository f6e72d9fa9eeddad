//! Memory and tool settings for heavy Rust workloads: the decisions and
//! the file contents; the caller applies them to the system.
use vstd::prelude::*;
use crate::text::{
    after_first_token, chars_of, copy_range, decimal, find_char, find_in, find_seq, find_seq_from,
    first_token, parse_u64, parse_u64_of, push_decimal, push_str, trim, trimmed, two_tokens_of,
};

verus! {

/// Swap sizes in GiB and the kernel's memory knobs.
#[derive(Debug, Clone)]
pub struct SwapConfig {
    pub current_size_gb: u32,
    pub target_size_gb: u32,
    pub swappiness: u8,
    pub cache_pressure: u8,
}

/// Which steps of the optimization changed the system.
#[derive(Debug)]
pub struct OptimizationResult {
    pub swap_configured: bool,
    pub zram_configured: bool,
    pub sysctl_configured: bool,
    pub tools_installed: bool,
    pub intellij_configured: bool,
}

impl Default for OptimizationResult {
    fn default() -> (r: OptimizationResult)
        ensures
            !r.swap_configured && !r.zram_configured && !r.sysctl_configured && !r.tools_installed
                && !r.intellij_configured,
    {
        OptimizationResult {
            swap_configured: false,
            zram_configured: false,
            sysctl_configured: false,
            tools_installed: false,
            intellij_configured: false,
        }
    }
}

/// Succeeds for user id 0 (root); else `This script must be run with sudo`.
pub fn check_root(uid: u32) -> (r: Result<(), String>)
    ensures
        r is Ok <==> uid == 0,
        r matches Err(m) ==> m@ == "This script must be run with sudo"@,
{
    if uid != 0 {
        return Err(String::from_str("This script must be run with sudo"));
    }
    Ok(())
}

/// The swap configuration aimed at, given the current swap size: 64 GiB of
/// swap, swappiness 10, cache pressure 50.
pub fn target_swap_config(current_size_gb: u32) -> (r: SwapConfig)
    ensures
        r.current_size_gb == current_size_gb,
        r.target_size_gb == 64,
        r.swappiness == 10,
        r.cache_pressure == 50,
{
    SwapConfig { current_size_gb, target_size_gb: 64, swappiness: 10, cache_pressure: 50 }
}

/// Whether the swap file must be rebuilt: it is smaller than the target.
pub fn swap_needs_resize(config: &SwapConfig) -> (r: bool)
    ensures
        r == (config.current_size_gb < config.target_size_gb),
{
    config.current_size_gb < config.target_size_gb
}

/// `needle` occurs somewhere in `hay`.
pub open spec fn contains_text(hay: Seq<char>, needle: Seq<char>) -> bool {
    exists|k: int| #[trigger] crate::text::occurs_at(hay, k, needle)
}

proof fn lemma_find_seq_complete(s: Seq<char>, i: int, p: Seq<char>)
    requires
        0 <= i <= s.len(),
        p.len() > 0,
    ensures
        find_seq_from(s, i, p) < s.len() ==> crate::text::occurs_at(s, find_seq_from(s, i, p), p),
        find_seq_from(s, i, p) == s.len() ==> forall|k: int| i <= k < s.len() ==> !crate::text::occurs_at(s, k, p),
        i <= find_seq_from(s, i, p) <= s.len(),
    decreases s.len() - i,
{
    if i + p.len() <= s.len() && !crate::text::occurs_at(s, i, p) {
        lemma_find_seq_complete(s, i + 1, p);
    }
}

/// Whether `needle` occurs in `hay`.
pub fn text_contains(hay: &str, needle: &str) -> (r: bool)
    ensures
        r == (needle@.len() == 0 || contains_text(hay@, needle@)),
{
    let h = chars_of(hay);
    let p = chars_of(needle);
    if p.len() == 0 {
        return true;
    }
    let k = find_seq(&h, 0, &p);
    proof {
        lemma_find_seq_complete(h@, 0, p@);
        if k == h.len() {
            assert forall|j: int| !(#[trigger] crate::text::occurs_at(h@, j, p@)) by {
                if 0 <= j && j < h@.len() {
                } else if j >= h@.len() {
                    assert(j + p@.len() > h@.len());
                }
            }
        }
    }
    k < h.len()
}

/// Whether `/etc/fstab`'s text still lacks the swap file's entry.
pub fn fstab_needs_swap_entry(fstab: &str) -> (r: bool)
    ensures
        r == !contains_text(fstab@, "/swapfile"@),
{
    proof {
        reveal_strlit("/swapfile");
    }
    !text_contains(fstab, "/swapfile")
}

/// The line that `/etc/fstab` gets for the swap file.
pub fn fstab_swap_entry() -> (r: String)
    ensures
        r@ == "/swapfile none swap sw 0 0"@,
{
    String::from_str("/swapfile none swap sw 0 0")
}

/// The systemd unit that sets up compressed swap at boot.
pub fn zram_service_content() -> (r: String)
    ensures
        r@ == "[Unit]\nDescription=Configure ZRAM swap device\nAfter=multi-user.target\n\n[Service]\nType=oneshot\nRemainAfterExit=yes\nExecStart=/usr/local/bin/setup-zram.sh\n\n[Install]\nWantedBy=multi-user.target\n"@,
{
    String::from_str(
        "[Unit]\nDescription=Configure ZRAM swap device\nAfter=multi-user.target\n\n[Service]\nType=oneshot\nRemainAfterExit=yes\nExecStart=/usr/local/bin/setup-zram.sh\n\n[Install]\nWantedBy=multi-user.target\n",
    )
}

/// The script that the unit runs.
pub fn zram_script_content() -> (r: String)
    ensures
        r@ == "#!/bin/bash\nmodprobe zram\necho lz4 > /sys/block/zram0/comp_algorithm 2>/dev/null || echo lzo > /sys/block/zram0/comp_algorithm\necho 17179869184 > /sys/block/zram0/disksize\nmkswap /dev/zram0\nswapon -p 100 /dev/zram0\n"@,
{
    String::from_str(
        "#!/bin/bash\nmodprobe zram\necho lz4 > /sys/block/zram0/comp_algorithm 2>/dev/null || echo lzo > /sys/block/zram0/comp_algorithm\necho 17179869184 > /sys/block/zram0/disksize\nmkswap /dev/zram0\nswapon -p 100 /dev/zram0\n",
    )
}

/// The Cargo configuration written for the user.
pub fn cargo_config_content() -> (r: String)
    ensures
        r@ == "[build]\njobs = 8\nrustc-wrapper = \"sccache\"\n\n[target.x86_64-unknown-linux-gnu]\nlinker = \"clang\"\nrustflags = [\"-C\", \"link-arg=-fuse-ld=mold\", \"-C\", \"target-cpu=native\"]\n\n[net]\ngit-fetch-with-cli = true\n\n[profile.dev]\nopt-level = 0\ndebug = 1\nlto = false\ncodegen-units = 256\nincremental = true\n\n[profile.release]\nopt-level = 3\nlto = \"thin\"\ncodegen-units = 1\n"@,
{
    String::from_str(
        "[build]\njobs = 8\nrustc-wrapper = \"sccache\"\n\n[target.x86_64-unknown-linux-gnu]\nlinker = \"clang\"\nrustflags = [\"-C\", \"link-arg=-fuse-ld=mold\", \"-C\", \"target-cpu=native\"]\n\n[net]\ngit-fetch-with-cli = true\n\n[profile.dev]\nopt-level = 0\ndebug = 1\nlto = false\ncodegen-units = 256\nincremental = true\n\n[profile.release]\nopt-level = 3\nlto = \"thin\"\ncodegen-units = 1\n",
    )
}

/// The IDE's JVM options for a user whose home directory is `home_dir`.
pub fn vm_options(home_dir: &str) -> (r: String)
    ensures
        r@ == "-Xms2048m\n-Xmx8192m\n-XX:ReservedCodeCacheSize=512m\n-XX:+UseG1GC\n-XX:SoftRefLRUPolicyMSPerMB=50\n-XX:+UnlockDiagnosticVMOptions\n-XX:+IgnoreUnrecognizedVMOptions\n-XX:CICompilerCount=2\n-XX:MaxGCPauseMillis=200\n-XX:+DisableExplicitGC\n-Djava.net.preferIPv4Stack=true\n-Dsun.io.useCanonCaches=false\n-Djb.vmOptionsFile="@
            + home_dir@ + "/.config/JetBrains/idea64.vmoptions\n"@,
{
    let mut text = String::from_str(
        "-Xms2048m\n-Xmx8192m\n-XX:ReservedCodeCacheSize=512m\n-XX:+UseG1GC\n-XX:SoftRefLRUPolicyMSPerMB=50\n-XX:+UnlockDiagnosticVMOptions\n-XX:+IgnoreUnrecognizedVMOptions\n-XX:CICompilerCount=2\n-XX:MaxGCPauseMillis=200\n-XX:+DisableExplicitGC\n-Djava.net.preferIPv4Stack=true\n-Dsun.io.useCanonCaches=false\n-Djb.vmOptionsFile=",
    );
    push_str(&mut text, home_dir);
    push_str(&mut text, "/.config/JetBrains/idea64.vmoptions\n");
    text
}

/// Whether a directory name is one of the IDE's configuration directories.
pub fn is_intellij_dir(name: &str) -> (r: bool)
    ensures
        r == (contains_text(name@, "IntelliJIdea"@) || contains_text(name@, "IdeaIC"@)
            || contains_text(name@, "IdeaIU"@)),
{
    proof {
        reveal_strlit("IntelliJIdea");
        reveal_strlit("IdeaIC");
        reveal_strlit("IdeaIU");
    }
    text_contains(name, "IntelliJIdea") || text_contains(name, "IdeaIC") || text_contains(
        name,
        "IdeaIU",
    )
}

/// The swap size in whole GiB that `swapon --show --bytes --noheadings`
/// reports: the second column of its first line, in bytes, divided by
/// 2^30 (as a `u32`, keeping the low 32 bits); 0 when that column is
/// missing or is not a number.
pub open spec fn swap_size_of(output: Seq<char>) -> int {
    let t = trim(output);
    let line = t.subrange(0, find_in(t, 0, t.len() as int, '\n'));
    let size = first_token(after_first_token(line));
    if size.len() == 0 {
        0
    } else {
        match parse_u64(size) {
            Some(bytes) => (bytes / 1073741824) % 4294967296,
            None => 0,
        }
    }
}

/// Reads the current swap size (see `swap_size_of`).
pub fn swap_size_gb(output: &str) -> (r: u32)
    ensures
        r as int == swap_size_of(output@),
{
    let t = trimmed(&chars_of(output));
    let e = find_char(&t, 0, t.len(), '\n');
    let line = copy_range(&t, 0, e);
    let (_, size) = two_tokens_of(&line);
    if size.len() == 0 {
        return 0;
    }
    match parse_u64_of(&size) {
        Some(bytes) => ((bytes / 1073741824) % 4294967296) as u32,
        None => 0,
    }
}

/// Whether the compressed-swap module still has to be loaded: the module
/// list does not mention `zram`.
pub fn zram_module_missing(modules: &str) -> (r: bool)
    ensures
        r == !contains_text(modules@, "zram"@),
{
    proof {
        reveal_strlit("zram");
    }
    !text_contains(modules, "zram")
}

/// Whether the compressed-swap device is in use: its `disksize` reads as a
/// number above zero once trimmed.
pub fn zram_in_use(disksize: &str) -> (r: bool)
    ensures
        r == (parse_u64(trim(disksize@)) matches Some(n) && n > 0),
{
    match parse_u64_of(&trimmed(&chars_of(disksize))) {
        Some(n) => n > 0,
        None => false,
    }
}

/// The kernel settings to apply, as `(key, value)` pairs, in order.
pub fn sysctl_settings(config: &SwapConfig) -> (r: Vec<(String, String)>)
    ensures
        r@.len() == 4,
        r@[0].0@ == "vm.swappiness"@ && r@[0].1@ == decimal(config.swappiness as nat),
        r@[1].0@ == "vm.vfs_cache_pressure"@ && r@[1].1@ == decimal(config.cache_pressure as nat),
        r@[2].0@ == "vm.dirty_ratio"@ && r@[2].1@ == decimal(15),
        r@[3].0@ == "vm.dirty_background_ratio"@ && r@[3].1@ == decimal(5),
{
    let mut swappiness = String::new();
    push_decimal(&mut swappiness, config.swappiness as u64);
    let mut pressure = String::new();
    push_decimal(&mut pressure, config.cache_pressure as u64);
    let mut dirty = String::new();
    push_decimal(&mut dirty, 15);
    let mut background = String::new();
    push_decimal(&mut background, 5);
    proof {
        assert(swappiness@ =~= decimal(config.swappiness as nat));
        assert(pressure@ =~= decimal(config.cache_pressure as nat));
        assert(dirty@ =~= decimal(15));
        assert(background@ =~= decimal(5));
    }
    let mut r: Vec<(String, String)> = Vec::new();
    r.push((String::from_str("vm.swappiness"), swappiness));
    r.push((String::from_str("vm.vfs_cache_pressure"), pressure));
    r.push((String::from_str("vm.dirty_ratio"), dirty));
    r.push((String::from_str("vm.dirty_background_ratio"), background));
    r
}

} // verus!
