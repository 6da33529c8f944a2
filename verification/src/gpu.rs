use vstd::prelude::*;

verus! {

/// What `str::to_lowercase` gives for a string, as a sequence of chars.
pub uninterp spec fn lowercase(s: Seq<char>) -> Seq<char>;

/// The chars of `s.to_lowercase()`.
///
/// Trusted: the contract only names the result of `str::to_lowercase`
/// (Unicode lowercase mapping, which depends on the string alone); the
/// Unicode tables themselves are not restated.
#[verifier::external_body]
fn lowercase_chars(s: &str) -> (chars: Vec<char>)
    ensures
        chars@ == lowercase(s@),
{
    s.to_lowercase().chars().collect()
}

/// `needle` occurs in `haystack` as a run of consecutive chars.
pub open spec fn contains_run(haystack: Seq<char>, needle: Seq<char>) -> bool {
    exists|start: int|
        0 <= start && start + needle.len() <= haystack.len() && #[trigger] haystack.subrange(
            start,
            start + needle.len(),
        ) == needle
}

/// Whether `needle` occurs in `haystack` as a run of consecutive chars.
pub fn contains_chars(haystack: &Vec<char>, needle: &[char]) -> (found: bool)
    ensures
        found == contains_run(haystack@, needle@),
{
    let n = haystack.len();
    let m = needle.len();
    if m > n {
        return false;
    }
    let mut start: usize = 0;
    while start <= n - m
        invariant
            m <= n,
            n == haystack@.len(),
            m == needle@.len(),
            forall|s: int| 0 <= s < start ==> #[trigger] haystack@.subrange(s, s + m) != needle@,
        decreases n - m + 1 - start,
    {
        let mut k: usize = 0;
        let mut matched = true;
        while k < m
            invariant
                0 <= k <= m,
                start + m <= n,
                n == haystack@.len(),
                m == needle@.len(),
                matched <==> forall|t: int| 0 <= t < k ==> haystack@[start + t] == needle@[t],
            decreases m - k,
        {
            if haystack[start + k] != needle[k] {
                matched = false;
            }
            k = k + 1;
        }
        if matched {
            assert(haystack@.subrange(start as int, start + m) =~= needle@);
            return true;
        }
        assert(haystack@.subrange(start as int, start + m) != needle@) by {
            let t = choose|t: int| 0 <= t < m && haystack@[start + t] != needle@[t];
            assert(haystack@.subrange(start as int, start + m)[t] == haystack@[start + t]);
        }
        start = start + 1;
    }
    false
}

/// The chars of `llvmpipe`.
pub open spec fn llvmpipe_text() -> Seq<char> {
    seq!['l', 'l', 'v', 'm', 'p', 'i', 'p', 'e']
}

/// The chars of `software`.
pub open spec fn software_text() -> Seq<char> {
    seq!['s', 'o', 'f', 't', 'w', 'a', 'r', 'e']
}

/// The chars of `basic render`.
pub open spec fn basic_render_text() -> Seq<char> {
    seq!['b', 'a', 's', 'i', 'c', ' ', 'r', 'e', 'n', 'd', 'e', 'r']
}

/// An adapter name marks a software renderer when its lowercase form
/// contains `llvmpipe`, `software` or `basic render`.
pub open spec fn names_software_renderer(name: Seq<char>) -> bool {
    ||| contains_run(lowercase(name), llvmpipe_text())
    ||| contains_run(lowercase(name), software_text())
    ||| contains_run(lowercase(name), basic_render_text())
}

/// Whether the adapter `name` is that of a software renderer.
pub fn is_software_renderer(name: &str) -> (software: bool)
    ensures
        software == names_software_renderer(name@),
{
    let lower = lowercase_chars(name);
    let llvmpipe: [char; 8] = ['l', 'l', 'v', 'm', 'p', 'i', 'p', 'e'];
    let software: [char; 8] = ['s', 'o', 'f', 't', 'w', 'a', 'r', 'e'];
    let basic_render: [char; 12] = ['b', 'a', 's', 'i', 'c', ' ', 'r', 'e', 'n', 'd', 'e', 'r'];
    let llvmpipe_chars = llvmpipe.as_slice();
    let software_chars = software.as_slice();
    let basic_render_chars = basic_render.as_slice();
    assert(llvmpipe_chars@ =~= llvmpipe_text());
    assert(software_chars@ =~= software_text());
    assert(basic_render_chars@ =~= basic_render_text());
    contains_chars(&lower, llvmpipe_chars) || contains_chars(&lower, software_chars)
        || contains_chars(&lower, basic_render_chars)
}

/// What to do with one GPU adapter.
#[derive(PartialEq, Eq, Structural, Debug, Clone, Copy)]
pub enum AdapterPlan {
    /// A hardware adapter: benchmark it.
    Benchmark,
    /// A software renderer that the configuration forces to be benchmarked anyway.
    ForcedSoftware,
    /// A software renderer that is skipped.
    SkipSoftware,
}

/// Software renderers are skipped unless the configuration forces them;
/// every other adapter is benchmarked.
pub open spec fn adapter_plan_spec(software: bool, force_software: bool) -> AdapterPlan {
    if !software {
        AdapterPlan::Benchmark
    } else if force_software {
        AdapterPlan::ForcedSoftware
    } else {
        AdapterPlan::SkipSoftware
    }
}

/// Decides, from the adapter's name and the force setting, whether to
/// benchmark the adapter.
pub fn plan_for_adapter(name: &str, force_software: bool) -> (plan: AdapterPlan)
    ensures
        plan == adapter_plan_spec(names_software_renderer(name@), force_software),
{
    let software = is_software_renderer(name);
    if !software {
        AdapterPlan::Benchmark
    } else if force_software {
        AdapterPlan::ForcedSoftware
    } else {
        AdapterPlan::SkipSoftware
    }
}

/// Bytes in a mebibyte.
pub const MIB: u64 = 1_048_576;

/// The size in bytes of each buffer of the VRAM bandwidth test: the
/// configured size in MiB, clamped to `1..=1024`, in bytes.
pub fn vram_test_buffer_bytes(size_mb: usize) -> (bytes: u64)
    ensures
        bytes == (if size_mb < 1 { 1 } else if size_mb > 1024 { 1024 } else { size_mb as int }) * MIB,
        MIB <= bytes <= 1024 * MIB,
{
    let clamped: u64 = if size_mb < 1 {
        1
    } else if size_mb > 1024 {
        1024
    } else {
        size_mb as u64
    };
    clamped * MIB
}

/// The number of timed compute dispatches: the configured count clamped to `1..=999`.
pub fn compute_iterations(iteration: u32) -> (count: u32)
    ensures
        count == (if iteration < 1 { 1 } else if iteration > 999 { 999 } else { iteration }),
        1 <= count <= 999,
{
    if iteration > 999 {
        999
    } else if iteration < 1 {
        1
    } else {
        iteration
    }
}

/// The number of workgroups of `group_size` invocations that cover `items`
/// items, one invocation each.
pub fn workgroup_count(items: u32, group_size: u32) -> (groups: u32)
    requires
        group_size > 0,
        items + group_size <= u32::MAX,
    ensures
        groups == (items + group_size - 1) / (group_size as int),
        groups * group_size >= items,
        groups * group_size < items + group_size,
{
    let groups = (items + group_size - 1) / group_size;
    assert(groups * group_size >= items && groups * group_size < items + group_size) by (nonlinear_arith)
        requires
            group_size > 0,
            groups == (items + group_size - 1) / (group_size as int),
    ;
    groups
}

} // verus!
