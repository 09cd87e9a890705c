//! Host inspection for the address-translation unit: which CPU vendor the
//! machine has and whether its kernel was booted with the parameters that
//! switch the unit on. The reads of `/proc` stay in the unverified shell;
//! the classification of their contents happens here.

use vstd::prelude::*;
use crate::error::VfioError;
use crate::strings::{
    contains_str, is_space, is_space_char, join_lines, join_spaces, lemma_drop_leading_at,
    spec_contains_str, spec_drop_leading, spec_join_lines, spec_join_spaces, spec_lines,
    spec_starts_with, split_lines, starts_with,
};

verus! {

/// The CPU vendor, as far as the isolation-unit parameters care.
#[derive(Debug, Clone, Copy, PartialEq, Eq, Structural)]
pub enum CpuVendor {
    Intel,
    AMD,
    Unknown,
}

/// The vendor named in the given `cpuinfo` contents.
pub open spec fn spec_cpu_vendor(cpuinfo: Seq<char>) -> CpuVendor {
    if spec_contains_str(cpuinfo, "GenuineIntel"@) {
        CpuVendor::Intel
    } else if spec_contains_str(cpuinfo, "AuthenticAMD"@) {
        CpuVendor::AMD
    } else {
        CpuVendor::Unknown
    }
}

/// Classify the CPU vendor from the contents of the `cpuinfo` pseudo-file.
pub fn detect_cpu_vendor(cpuinfo: &str) -> (r: CpuVendor)
    ensures
        r == spec_cpu_vendor(cpuinfo@),
{
    if contains_str(cpuinfo, "GenuineIntel") {
        CpuVendor::Intel
    } else if contains_str(cpuinfo, "AuthenticAMD") {
        CpuVendor::AMD
    } else {
        CpuVendor::Unknown
    }
}

/// The kernel command line switches the isolation unit on: a vendor
/// enabling parameter together with passthrough mode.
pub open spec fn spec_iommu_enabled(cmdline: Seq<char>) -> bool {
    (spec_contains_str(cmdline, "intel_iommu=on"@) || spec_contains_str(cmdline, "amd_iommu=on"@))
        && spec_contains_str(cmdline, "iommu=pt"@)
}

/// Is the isolation unit enabled in the given kernel command line?
pub fn is_iommu_enabled(cmdline: &str) -> (r: bool)
    ensures
        r == spec_iommu_enabled(cmdline@),
{
    let has_iommu = contains_str(cmdline, "intel_iommu=on") || contains_str(
        cmdline,
        "amd_iommu=on",
    );
    let has_passthrough = contains_str(cmdline, "iommu=pt");
    has_iommu && has_passthrough
}

/// The boot parameters the given vendor needs for the isolation unit; an
/// unknown vendor cannot be served.
pub fn get_required_iommu_params(vendor: CpuVendor) -> (r: Result<Vec<String>, VfioError>)
    ensures
        match r {
            Ok(params) => {
                &&& vendor != CpuVendor::Unknown
                &&& params.deep_view() == (if vendor == CpuVendor::Intel {
                    seq!["intel_iommu=on"@, "iommu=pt"@]
                } else {
                    seq!["amd_iommu=on"@, "iommu=pt"@]
                })
            },
            Err(e) => {
                &&& vendor == CpuVendor::Unknown
                &&& e matches VfioError::GrubError(m) && m@
                    == "Unknown CPU vendor. Cannot determine IOMMU parameters."@
            },
        },
{
    match vendor {
        CpuVendor::Intel => {
            let mut v: Vec<String> = Vec::new();
            v.push("intel_iommu=on".to_owned());
            v.push("iommu=pt".to_owned());
            proof {
                assert(v.deep_view() =~= seq!["intel_iommu=on"@, "iommu=pt"@]);
            }
            Ok(v)
        },
        CpuVendor::AMD => {
            let mut v: Vec<String> = Vec::new();
            v.push("amd_iommu=on".to_owned());
            v.push("iommu=pt".to_owned());
            proof {
                assert(v.deep_view() =~= seq!["amd_iommu=on"@, "iommu=pt"@]);
            }
            Ok(v)
        },
        CpuVendor::Unknown => Err(
            VfioError::GrubError(
                "Unknown CPU vendor. Cannot determine IOMMU parameters.".to_owned(),
            ),
        ),
    }
}

/// `f` is the position of the first quote in `l`.
pub open spec fn is_first_quote(l: Seq<char>, f: int) -> bool {
    0 <= f < l.len() && l[f] == '"' && forall|j: int| 0 <= j < f ==> l[j] != '"'
}

/// `g` is the position of the last quote in `l`.
pub open spec fn is_last_quote(l: Seq<char>, g: int) -> bool {
    0 <= g < l.len() && l[g] == '"' && forall|j: int| g < j < l.len() ==> l[j] != '"'
}

/// There is at most one first-quote position.
proof fn lemma_first_quote_unique(l: Seq<char>, f1: int, f2: int)
    requires
        is_first_quote(l, f1),
        is_first_quote(l, f2),
    ensures
        f1 == f2,
{
}

/// There is at most one last-quote position.
proof fn lemma_last_quote_unique(l: Seq<char>, g1: int, g2: int)
    requires
        is_last_quote(l, g1),
        is_last_quote(l, g2),
    ensures
        g1 == g2,
{
}

/// The line a patch rewrites: its leading whitespace is followed by the
/// default-command-line key, and it carries an opening and a closing quote.
pub open spec fn spec_is_cmdline_target(l: Seq<char>) -> bool {
    &&& spec_starts_with(spec_drop_leading(l), "GRUB_CMDLINE_LINUX_DEFAULT"@)
    &&& exists|f: int, g: int| is_first_quote(l, f) && is_last_quote(l, g) && f < g
}

/// The rewritten line: the key with the quoted value, which is the old
/// value followed by the new parameters — or the parameters alone when the
/// old value was empty.
pub open spec fn spec_rewrite_line(l: Seq<char>, params: Seq<char>) -> Seq<char> {
    let f = choose|f: int| is_first_quote(l, f);
    let g = choose|g: int| is_last_quote(l, g);
    let inner = l.subrange(f + 1, g);
    let merged = if inner.len() == 0 {
        params
    } else {
        inner + " "@ + params
    };
    "GRUB_CMDLINE_LINUX_DEFAULT=\""@ + merged + "\""@
}

/// The line list with the first rewritable default-command-line entry
/// rewritten; every other line is kept as it stands.
pub open spec fn spec_patch_lines(lines: Seq<Seq<char>>, params: Seq<char>) -> Seq<Seq<char>>
    decreases lines.len(),
{
    if lines.len() == 0 {
        Seq::empty()
    } else if spec_is_cmdline_target(lines[0]) {
        seq![spec_rewrite_line(lines[0], params)] + lines.drop_first()
    } else {
        seq![lines[0]] + spec_patch_lines(lines.drop_first(), params)
    }
}

/// The position of the first quote in `l`, if any.
fn find_first_quote(l: &str) -> (r: Option<usize>)
    ensures
        match r {
            Some(f) => is_first_quote(l@, f as int),
            None => forall|j: int| 0 <= j < l@.len() ==> l@[j] != '"',
        },
{
    let len: usize = l.unicode_len();
    let mut i: usize = 0;
    while i < len
        invariant
            i <= len,
            len == l@.len(),
            forall|j: int| 0 <= j < i ==> l@[j] != '"',
        decreases len - i,
    {
        if l.get_char(i) == '"' {
            return Some(i);
        }
        assert(l@[i as int] != '"');
        i = i + 1;
    }
    None
}

/// The position of the last quote in `l`, if any.
fn find_last_quote(l: &str) -> (r: Option<usize>)
    ensures
        match r {
            Some(g) => is_last_quote(l@, g as int),
            None => forall|j: int| 0 <= j < l@.len() ==> l@[j] != '"',
        },
{
    let len: usize = l.unicode_len();
    let mut i: usize = len;
    while i > 0
        invariant
            i <= len,
            len == l@.len(),
            forall|j: int| i <= j < len ==> l@[j] != '"',
        decreases i,
    {
        if l.get_char(i - 1) == '"' {
            return Some(i - 1);
        }
        assert(l@[i - 1] != '"');
        i = i - 1;
    }
    None
}

/// Is `l` the line a patch rewrites?
fn is_cmdline_target_line(l: &str) -> (r: bool)
    ensures
        r == spec_is_cmdline_target(l@),
{
    let len: usize = l.unicode_len();
    let mut f0: usize = 0;
    while f0 < len && is_space_char(l.get_char(f0))
        invariant
            f0 <= len,
            len == l@.len(),
            forall|j: int| 0 <= j < f0 ==> is_space(l@[j]),
        decreases len - f0,
    {
        f0 = f0 + 1;
    }
    proof {
        lemma_drop_leading_at(l@, f0 as int);
    }
    let trimmed = l.substring_char(f0, len);
    if !starts_with(trimmed, "GRUB_CMDLINE_LINUX_DEFAULT") {
        return false;
    }
    match (find_first_quote(l), find_last_quote(l)) {
        (Some(f), Some(g)) => {
            if f < g {
                assert(is_first_quote(l@, f as int) && is_last_quote(l@, g as int));
                true
            } else {
                proof {
                    if exists|f2: int, g2: int|
                        is_first_quote(l@, f2) && is_last_quote(l@, g2) && f2 < g2 {
                        let (f2, g2) = choose|f2: int, g2: int|
                            is_first_quote(l@, f2) && is_last_quote(l@, g2) && f2 < g2;
                        lemma_first_quote_unique(l@, f2, f as int);
                        lemma_last_quote_unique(l@, g2, g as int);
                    }
                }
                false
            }
        },
        _ => {
            proof {
                if exists|f2: int, g2: int|
                    is_first_quote(l@, f2) && is_last_quote(l@, g2) && f2 < g2 {
                    let (f2, g2) = choose|f2: int, g2: int|
                        is_first_quote(l@, f2) && is_last_quote(l@, g2) && f2 < g2;
                    assert(l@[f2] == '"');
                }
            }
            false
        },
    }
}

/// Rewrite the default-command-line entry with the parameters appended to
/// its quoted value.
fn rewrite_cmdline_line(l: &str, params_str: &str) -> (r: String)
    requires
        spec_is_cmdline_target(l@),
    ensures
        r@ == spec_rewrite_line(l@, params_str@),
{
    let len: usize = l.unicode_len();
    let f = match find_first_quote(l) {
        Some(f) => f,
        None => {
            proof {
                let (f2, g2) = choose|f2: int, g2: int|
                    is_first_quote(l@, f2) && is_last_quote(l@, g2) && f2 < g2;
                assert(l@[f2] == '"');
            }
            unreached()
        },
    };
    let g = match find_last_quote(l) {
        Some(g) => g,
        None => {
            proof {
                let (f2, g2) = choose|f2: int, g2: int|
                    is_first_quote(l@, f2) && is_last_quote(l@, g2) && f2 < g2;
                assert(l@[f2] == '"');
            }
            unreached()
        },
    };
    proof {
        let cf = choose|cf: int| is_first_quote(l@, cf);
        let cg = choose|cg: int| is_last_quote(l@, cg);
        lemma_first_quote_unique(l@, cf, f as int);
        lemma_last_quote_unique(l@, cg, g as int);
        let (f2, g2) = choose|f2: int, g2: int|
            is_first_quote(l@, f2) && is_last_quote(l@, g2) && f2 < g2;
        lemma_first_quote_unique(l@, f2, f as int);
        lemma_last_quote_unique(l@, g2, g as int);
    }
    let inner = l.substring_char(f + 1, g);
    let mut out = String::new();
    out.append("GRUB_CMDLINE_LINUX_DEFAULT=\"");
    if inner.unicode_len() == 0 {
        out.append(params_str);
    } else {
        out.append(inner);
        out.append(" ");
        out.append(params_str);
    }
    out.append("\"");
    proof {
        assert(out@ =~= spec_rewrite_line(l@, params_str@));
    }
    out
}

/// Apply the rewrite to the first matching line, keeping every other line.
fn patch_lines(lines: &Vec<String>, params_str: &str) -> (r: Vec<String>)
    ensures
        r.deep_view() == spec_patch_lines(lines.deep_view(), params_str@),
{
    let n: usize = lines.len();
    let mut out: Vec<String> = Vec::new();
    let mut done = false;
    let mut i: usize = 0;
    proof {
        assert(lines.deep_view().skip(0) =~= lines.deep_view());
        assert(out.deep_view() + spec_patch_lines(lines.deep_view(), params_str@)
            =~= spec_patch_lines(lines.deep_view(), params_str@));
    }
    while i < n
        invariant
            i <= n,
            n == lines@.len(),
            !done ==> spec_patch_lines(lines.deep_view(), params_str@) == out.deep_view()
                + spec_patch_lines(lines.deep_view().skip(i as int), params_str@),
            done ==> spec_patch_lines(lines.deep_view(), params_str@) == out.deep_view()
                + lines.deep_view().skip(i as int),
        decreases n - i,
    {
        let ghost rest = lines.deep_view().skip(i as int);
        let ghost before = out.deep_view();
        proof {
            assert(rest[0] == lines.deep_view()[i as int]);
            assert(rest.drop_first() =~= lines.deep_view().skip(i + 1));
            assert(lines.deep_view()[i as int] == lines@[i as int]@);
        }
        if !done && is_cmdline_target_line(lines[i].as_str()) {
            let rewritten = rewrite_cmdline_line(lines[i].as_str(), params_str);
            out.push(rewritten);
            done = true;
            proof {
                assert(out.deep_view() =~= before.push(
                    spec_rewrite_line(lines@[i as int]@, params_str@),
                ));
                assert(spec_patch_lines(rest, params_str@) == seq![
                    spec_rewrite_line(lines@[i as int]@, params_str@),
                ] + rest.drop_first());
                assert(before + spec_patch_lines(rest, params_str@) =~= out.deep_view()
                    + lines.deep_view().skip(i + 1));
            }
        } else {
            out.push(lines[i].clone());
            proof {
                assert(out.deep_view() =~= before.push(lines@[i as int]@));
                if done {
                    assert(before + rest =~= out.deep_view() + lines.deep_view().skip(i + 1));
                } else {
                    assert(spec_patch_lines(rest, params_str@) == seq![lines@[i as int]@]
                        + spec_patch_lines(rest.drop_first(), params_str@));
                    assert(before + spec_patch_lines(rest, params_str@) =~= out.deep_view()
                        + spec_patch_lines(lines.deep_view().skip(i + 1), params_str@));
                }
            }
        }
        i = i + 1;
    }
    proof {
        let tail = lines.deep_view().skip(n as int);
        assert(tail.len() == 0);
        if done {
            assert(out.deep_view() + tail =~= out.deep_view());
        } else {
            assert(spec_patch_lines(tail, params_str@).len() == 0);
            assert(out.deep_view() + spec_patch_lines(tail, params_str@) =~= out.deep_view());
        }
    }
    out
}

/// Add the isolation-unit parameters to the boot-loader configuration text:
/// the first default-command-line entry with a quoted value takes them at
/// the end of that value; the text comes back line-normalized with a
/// trailing newline, as the patcher rewrites it whole.
pub fn add_iommu_params(grub_content: &str, params: &Vec<String>) -> (r: String)
    ensures
        r@ == spec_join_lines(
            spec_patch_lines(
                spec_lines(grub_content@),
                spec_join_spaces(params.deep_view()),
            ),
        ),
{
    let params_str = join_spaces(params);
    let lines = split_lines(grub_content);
    let patched = patch_lines(&lines, params_str.as_str());
    join_lines(&patched)
}

} // verus!
