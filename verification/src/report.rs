//! The information lines: which are shown, their labels, and how each value
//! read from the machine is rendered.

use vstd::prelude::*;

use crate::config::DisplayConfig;
use crate::text::{
    after_last_slash, center, centered, dashes, decimal, decimal_is_plain, decimal_text,
    is_plain_numeral, last_slash_piece, numeral_value, occurs_at, owned, remove_all,
    removal_takes_out_occurrences, remove_occurrences, repeat_char, trim,
    trim_takes_only_outer_white_space, trimmed,
};

verus! {

// ------------------------------------------------------------------ fields

/// An information line.
#[derive(Clone, Copy, Debug, PartialEq, Eq, Structural)]
pub enum InfoField {
    Username,
    Host,
    Os,
    Kernel,
    Uptime,
    Cpu,
    Memory,
    Gpu,
    Shell,
    Rust,
}

/// `s`, with `f` after it where `shown` holds.
pub open spec fn then_if(s: Seq<InfoField>, shown: bool, f: InfoField) -> Seq<InfoField> {
    if shown {
        s.push(f)
    } else {
        s
    }
}

/// The information lines shown, in order. The host line is always shown,
/// whatever `show_host` says.
pub open spec fn shown_fields_of(d: DisplayConfig) -> Seq<InfoField> {
    let s = then_if(seq![], d.show_username, InfoField::Username).push(InfoField::Host);
    let s = then_if(s, d.show_os, InfoField::Os);
    let s = then_if(s, d.show_kernel, InfoField::Kernel);
    let s = then_if(s, d.show_uptime, InfoField::Uptime);
    let s = then_if(s, d.show_cpu, InfoField::Cpu);
    let s = then_if(s, d.show_memory, InfoField::Memory);
    let s = then_if(s, d.show_gpu, InfoField::Gpu);
    let s = then_if(s, d.show_shell, InfoField::Shell);
    then_if(s, d.show_rust, InfoField::Rust)
}

fn push_if(v: &mut Vec<InfoField>, shown: bool, f: InfoField)
    ensures
        final(v)@ == then_if(old(v)@, shown, f),
{
    if shown {
        v.push(f);
    }
}

/// The information lines shown, in order.
pub fn shown_fields(display: &DisplayConfig) -> (r: Vec<InfoField>)
    ensures
        r@ == shown_fields_of(*display),
{
    let mut v: Vec<InfoField> = Vec::new();
    push_if(&mut v, display.show_username, InfoField::Username);
    v.push(InfoField::Host);
    push_if(&mut v, display.show_os, InfoField::Os);
    push_if(&mut v, display.show_kernel, InfoField::Kernel);
    push_if(&mut v, display.show_uptime, InfoField::Uptime);
    push_if(&mut v, display.show_cpu, InfoField::Cpu);
    push_if(&mut v, display.show_memory, InfoField::Memory);
    push_if(&mut v, display.show_gpu, InfoField::Gpu);
    push_if(&mut v, display.show_shell, InfoField::Shell);
    push_if(&mut v, display.show_rust, InfoField::Rust);
    v
}

/// The label of an information line.
pub open spec fn label_of(f: InfoField) -> Seq<char> {
    match f {
        InfoField::Username => "Username"@,
        InfoField::Host => "Host"@,
        InfoField::Os => "OS"@,
        InfoField::Kernel => "Kernel"@,
        InfoField::Uptime => "Uptime"@,
        InfoField::Cpu => "CPU"@,
        InfoField::Memory => "Memory"@,
        InfoField::Gpu => "GPU"@,
        InfoField::Shell => "Shell"@,
        InfoField::Rust => "Rust"@,
    }
}

impl InfoField {
    /// The label of this information line.
    pub fn label(&self) -> (r: &'static str)
        ensures
            r@ == label_of(*self),
    {
        match self {
            InfoField::Username => "Username",
            InfoField::Host => "Host",
            InfoField::Os => "OS",
            InfoField::Kernel => "Kernel",
            InfoField::Uptime => "Uptime",
            InfoField::Cpu => "CPU",
            InfoField::Memory => "Memory",
            InfoField::Gpu => "GPU",
            InfoField::Shell => "Shell",
            InfoField::Rust => "Rust",
        }
    }
}

// ------------------------------------------------------------------- title

/// The title of the report.
pub open spec fn title_text() -> Seq<char> {
    "RsFetch - System Information"@
}

/// The title centred in the report's width.
pub fn title_line(max_width: usize) -> (r: String)
    ensures
        r@ == centered(title_text(), max_width as nat),
{
    center("RsFetch - System Information", max_width)
}

/// The rule under the title: a dash for each column of the report's width.
pub fn rule_line(max_width: usize) -> (r: String)
    ensures
        r@ == repeat_char('-', max_width as nat),
{
    dashes(max_width)
}

// ------------------------------------------------------------------ uptime

/// The uptime as whole days, hours and minutes: `"{d}d {h}h {m}m"` where at
/// least a day has passed, `"{h}h {m}m"` otherwise.
pub open spec fn uptime_text(secs: u64) -> Seq<char> {
    let days = secs / 86400;
    let hours = (secs % 86400) / 3600;
    let minutes = (secs % 3600) / 60;
    if days > 0 {
        decimal(days as nat) + seq!['d', ' '] + decimal(hours as nat) + seq!['h', ' '] + decimal(
            minutes as nat,
        ) + seq!['m']
    } else {
        decimal(hours as nat) + seq!['h', ' '] + decimal(minutes as nat) + seq!['m']
    }
}

/// The uptime, given in seconds, as text.
pub fn format_uptime(uptime_seconds: u64) -> (r: String)
    ensures
        r@ == uptime_text(uptime_seconds),
{
    proof {
        reveal_strlit("d ");
        reveal_strlit("h ");
        reveal_strlit("m");
    }
    let days = uptime_seconds / 86400;
    let hours = (uptime_seconds % 86400) / 3600;
    let minutes = (uptime_seconds % 3600) / 60;
    let mut out = String::new();
    if days > 0 {
        let d = decimal_text(days);
        out.append(d.as_str());
        out.append("d ");
    }
    let h = decimal_text(hours);
    out.append(h.as_str());
    out.append("h ");
    let m = decimal_text(minutes);
    out.append(m.as_str());
    out.append("m");
    assert(out@ =~= uptime_text(uptime_seconds));
    out
}

/// The parts of the uptime text tell the time up to the minute: the hours
/// are below a day, the minutes below an hour, and days, hours and minutes
/// together leave less than a minute of the uptime over.
pub proof fn uptime_parts_cover(secs: u64)
    ensures
        (secs % 86400) / 3600 < 24,
        (secs % 3600) / 60 < 60,
        (secs / 86400) * 86400 + ((secs % 86400) / 3600) * 3600 + ((secs % 3600) / 60) * 60
            <= secs,
        secs < (secs / 86400) * 86400 + ((secs % 86400) / 3600) * 3600 + ((secs % 3600) / 60)
            * 60 + 60,
{
    let s = secs as int;
    assert(s == (s / 86400) * 86400 + s % 86400) by (nonlinear_arith);
    assert(s % 86400 == ((s % 86400) / 3600) * 3600 + (s % 86400) % 3600) by (nonlinear_arith);
    assert((s % 86400) % 3600 == s % 3600) by (nonlinear_arith);
    assert(s % 3600 == ((s % 3600) / 60) * 60 + s % 60) by (nonlinear_arith);
    assert(0 <= s % 60 < 60) by (nonlinear_arith);
    assert((s % 86400) / 3600 < 24) by (nonlinear_arith);
    assert((s % 3600) / 60 < 60) by (nonlinear_arith);
}

/// The numbers in the uptime text read back to the uptime. From a day on,
/// the text is `{d}d {h}h {m}m` with plain numerals whose days, hours and
/// minutes make up the uptime to the minute, with fewer than 24 hours and 60
/// minutes; below a day it is `{h}h {m}m` likewise.
pub proof fn uptime_text_reads_back(secs: u64)
    ensures
        secs >= 86400 ==> exists|a: Seq<char>, b: Seq<char>, c: Seq<char>|
            #![trigger numeral_value(a), numeral_value(b), numeral_value(c)]
            {
                &&& is_plain_numeral(a) && is_plain_numeral(b) && is_plain_numeral(c)
                &&& uptime_text(secs) == a + seq!['d', ' '] + b + seq!['h', ' '] + c + seq!['m']
                &&& numeral_value(b) < 24 && numeral_value(c) < 60
                &&& numeral_value(a) * 86400 + numeral_value(b) * 3600 + numeral_value(c) * 60 <= secs
                &&& secs < numeral_value(a) * 86400 + numeral_value(b) * 3600 + numeral_value(c) * 60 + 60
            },
        secs < 86400 ==> exists|b: Seq<char>, c: Seq<char>|
            #![trigger numeral_value(b), numeral_value(c)]
            {
                &&& is_plain_numeral(b) && is_plain_numeral(c)
                &&& uptime_text(secs) == b + seq!['h', ' '] + c + seq!['m']
                &&& numeral_value(c) < 60
                &&& numeral_value(b) * 3600 + numeral_value(c) * 60 <= secs
                &&& secs < numeral_value(b) * 3600 + numeral_value(c) * 60 + 60
            },
{
    uptime_parts_cover(secs);
    let days = secs / 86400;
    let hours = (secs % 86400) / 3600;
    let minutes = (secs % 3600) / 60;
    decimal_is_plain(days as nat);
    decimal_is_plain(hours as nat);
    decimal_is_plain(minutes as nat);
    let a = decimal(days as nat);
    let b = decimal(hours as nat);
    let c = decimal(minutes as nat);
    if secs >= 86400 {
        assert(days > 0);
        assert(uptime_text(secs) == a + seq!['d', ' '] + b + seq!['h', ' '] + c + seq!['m']);
    } else {
        assert(days == 0);
        assert(uptime_text(secs) == b + seq!['h', ' '] + c + seq!['m']);
    }
}

// --------------------------------------------------------------------- CPU

/// A CPU brand name without the marks `(R)`, `(TM)` and the word `CPU`,
/// removed in that order, and without surrounding white space.
pub open spec fn cpu_name_of(brand: Seq<char>) -> Seq<char> {
    trimmed(remove_all(remove_all(remove_all(brand, "(R)"@), "(TM)"@), "CPU"@))
}

/// The CPU name takes the marks out of the brand and nothing else: a brand
/// without `(R)`, `(TM)` and `CPU` is only trimmed; a brand with `(R)` loses
/// at least its three characters; one without `(R)` but with `(TM)` at least
/// four; one with neither but with `CPU` at least three.
pub proof fn cpu_name_drops_the_marks(brand: Seq<char>)
    ensures
        !(exists|i: int| occurs_at(brand, "(R)"@, i)) && !(exists|i: int| occurs_at(brand, "(TM)"@, i))
            && !(exists|i: int| occurs_at(brand, "CPU"@, i)) ==> cpu_name_of(brand) == trimmed(brand),
        (exists|i: int| occurs_at(brand, "(R)"@, i)) ==> cpu_name_of(brand).len() + 3 <= brand.len(),
        !(exists|i: int| occurs_at(brand, "(R)"@, i)) && (exists|i: int| occurs_at(brand, "(TM)"@, i))
            ==> cpu_name_of(brand).len() + 4 <= brand.len(),
        !(exists|i: int| occurs_at(brand, "(R)"@, i)) && !(exists|i: int| occurs_at(brand, "(TM)"@, i))
            && (exists|i: int| occurs_at(brand, "CPU"@, i)) ==> cpu_name_of(brand).len() + 3 <= brand.len(),
{
    reveal_strlit("(R)");
    reveal_strlit("(TM)");
    reveal_strlit("CPU");
    let a = remove_all(brand, "(R)"@);
    let b = remove_all(a, "(TM)"@);
    let c = remove_all(b, "CPU"@);
    removal_takes_out_occurrences(brand, "(R)"@);
    removal_takes_out_occurrences(a, "(TM)"@);
    removal_takes_out_occurrences(b, "CPU"@);
    trim_takes_only_outer_white_space(c);
}

/// The CPU line: the cleaned brand name of the first processor, or
/// `"Unknown"` where there is none.
pub fn cpu_label(first_brand: Option<&str>) -> (r: String)
    ensures
        r@ == match first_brand {
            Some(b) => cpu_name_of(b@),
            None => "Unknown"@,
        },
{
    proof {
        reveal_strlit("(R)");
        reveal_strlit("(TM)");
        reveal_strlit("CPU");
    }
    match first_brand {
        Some(brand) => {
            let a = remove_occurrences(brand, "(R)");
            let b = remove_occurrences(a.as_str(), "(TM)");
            let c = remove_occurrences(b.as_str(), "CPU");
            trim(c.as_str())
        },
        None => owned("Unknown"),
    }
}

// --------------------------------------------------------- kernel and host

/// The kernel line: the kernel version, or `"Unknown"`.
pub fn kernel_label(version: Option<&str>) -> (r: String)
    ensures
        r@ == match version {
            Some(v) => v@,
            None => "Unknown"@,
        },
{
    match version {
        Some(v) => owned(v),
        None => owned("Unknown"),
    }
}

/// The host line: the host name, or `"Unknown"` where it could not be read.
pub fn host_label(hostname: Option<&str>) -> (r: String)
    ensures
        r@ == match hostname {
            Some(h) => h@,
            None => "Unknown"@,
        },
{
    match hostname {
        Some(h) => owned(h),
        None => owned("Unknown"),
    }
}

// ------------------------------------------------------------------- shell

/// The shell line: the last path component of `$SHELL`, or `"unknown"`
/// where the variable is not set or is not Unicode.
pub fn shell_label(shell_var: Option<&str>) -> (r: String)
    ensures
        r@ == match shell_var {
            Some(s) => after_last_slash(s@),
            None => "unknown"@,
        },
{
    match shell_var {
        Some(s) => last_slash_piece(s),
        None => owned("unknown"),
    }
}

// --------------------------------------------------------------------- GPU

/// What the GPU line reads of the first graphics card.
pub struct GpuInfo {
    pub vendor: Option<String>,
    pub name: Option<String>,
}

/// The characters of an optional string, or none.
pub open spec fn or_empty(s: Option<String>) -> Seq<char> {
    match s {
        Some(t) => t@,
        None => seq![],
    }
}

/// The GPU line of a card is its vendor, then one space, then its model,
/// each as known (nothing where unknown).
pub proof fn gpu_line_is_vendor_then_model(vendor: Option<String>, name: Option<String>)
    ensures
        ({
            let v = match vendor {
                Some(t) => t@,
                None => Seq::<char>::empty(),
            };
            let n = match name {
                Some(t) => t@,
                None => Seq::<char>::empty(),
            };
            let line = or_empty(vendor) + seq![' '] + or_empty(name);
            &&& line.len() == v.len() + 1 + n.len()
            &&& line.take(v.len() as int) == v
            &&& line[v.len() as int] == ' '
            &&& line.skip(v.len() as int + 1) == n
        }),
{
    let line = or_empty(vendor) + seq![' '] + or_empty(name);
    assert(line.take(or_empty(vendor).len() as int) =~= or_empty(vendor));
    assert(line.skip(or_empty(vendor).len() as int + 1) =~= or_empty(name));
}

/// The GPU line: vendor and model of the first graphics card, joined by a
/// space, each empty where unknown; `"Unknown GPU"` where there is no card.
pub fn gpu_label(first: Option<GpuInfo>) -> (r: String)
    ensures
        r@ == match first {
            Some(g) => or_empty(g.vendor) + seq![' '] + or_empty(g.name),
            None => "Unknown GPU"@,
        },
{
    proof {
        reveal_strlit(" ");
    }
    match first {
        Some(g) => {
            let mut out = match g.vendor {
                Some(v) => v,
                None => String::new(),
            };
            out.append(" ");
            match g.name {
                Some(n) => out.append(n.as_str()),
                None => {},
            }
            out
        },
        None => owned("Unknown GPU"),
    }
}

// -------------------------------------------------------------------- Rust

/// The text that `String::from_utf8_lossy` decodes from bytes, each invalid
/// sequence replaced by U+FFFD.
pub uninterp spec fn lossy_text(bytes: Seq<u8>) -> Seq<char>;

/// `String::from_utf8_lossy`. Claimed: its result is `lossy_text` of the
/// bytes, which is their decoding where they are valid UTF-8, as the
/// documentation of the function says; how invalid sequences are replaced
/// is left unstated.
#[verifier::external_body]
fn utf8_lossy(bytes: &[u8]) -> (r: String)
    ensures
        r@ == lossy_text(bytes@),
        vstd::utf8::valid_utf8(bytes@) ==> r@ == vstd::utf8::decode_utf8(bytes@),
{
    String::from_utf8_lossy(bytes).into_owned()
}

/// The Rust line: the output of `rustc --version`, decoded and trimmed, or
/// `"Rust not found"` where the command could not run or failed (`None`).
pub fn rust_label(version_output: Option<&[u8]>) -> (r: String)
    ensures
        r@ == match version_output {
            Some(b) => trimmed(lossy_text(b@)),
            None => "Rust not found"@,
        },
        version_output is Some && vstd::utf8::valid_utf8(version_output->0@) ==> r@ == trimmed(
            vstd::utf8::decode_utf8(version_output->0@),
        ),
{
    match version_output {
        Some(bytes) => {
            let text = utf8_lossy(bytes);
            trim(text.as_str())
        },
        None => owned("Rust not found"),
    }
}

/// Whether the display settings show an information line; the host line is
/// always shown.
pub open spec fn is_shown(d: DisplayConfig, f: InfoField) -> bool {
    match f {
        InfoField::Username => d.show_username,
        InfoField::Host => true,
        InfoField::Os => d.show_os,
        InfoField::Kernel => d.show_kernel,
        InfoField::Uptime => d.show_uptime,
        InfoField::Cpu => d.show_cpu,
        InfoField::Memory => d.show_memory,
        InfoField::Gpu => d.show_gpu,
        InfoField::Shell => d.show_shell,
        InfoField::Rust => d.show_rust,
    }
}

/// The place of an information line in the report.
pub open spec fn rank(f: InfoField) -> int {
    match f {
        InfoField::Username => 0,
        InfoField::Host => 1,
        InfoField::Os => 2,
        InfoField::Kernel => 3,
        InfoField::Uptime => 4,
        InfoField::Cpu => 5,
        InfoField::Memory => 6,
        InfoField::Gpu => 7,
        InfoField::Shell => 8,
        InfoField::Rust => 9,
    }
}

/// Lines in report order whose places are below `bound`.
pub open spec fn in_order_below(s: Seq<InfoField>, bound: int) -> bool {
    &&& forall|i: int, j: int| 0 <= i < j < s.len() ==> rank(s[i]) < rank(s[j])
    &&& forall|i: int| 0 <= i < s.len() ==> rank(#[trigger] s[i]) < bound
}

proof fn then_if_keeps_order(s: Seq<InfoField>, shown: bool, f: InfoField, bound: int)
    requires
        in_order_below(s, rank(f)),
        rank(f) < bound,
    ensures
        in_order_below(then_if(s, shown, f), bound),
        forall|g: InfoField| then_if(s, shown, f).contains(g) <==> (s.contains(g) || (shown && g == f)),
{
    if shown {
        let t = s.push(f);
        assert forall|g: InfoField| t.contains(g) <==> (s.contains(g) || g == f) by {
            if s.contains(g) {
                let k = choose|k: int| 0 <= k < s.len() && s[k] == g;
                assert(t[k] == g);
            }
            if g == f {
                assert(t[s.len() as int] == f);
            }
            if t.contains(g) {
                let k = choose|k: int| 0 <= k < t.len() && t[k] == g;
                if k < s.len() {
                    assert(s[k] == g);
                }
            }
        }
    }
}

/// Each information line is shown exactly where its setting says so (the
/// host line always), and the lines come in a fixed order, each at most once.
pub proof fn shown_fields_follow_settings(d: DisplayConfig)
    ensures
        forall|f: InfoField| shown_fields_of(d).contains(f) <==> is_shown(d, f),
        forall|i: int, j: int|
            0 <= i < j < shown_fields_of(d).len() ==> rank(shown_fields_of(d)[i]) < rank(
                shown_fields_of(d)[j],
            ),
{
    let s0: Seq<InfoField> = seq![];
    then_if_keeps_order(s0, d.show_username, InfoField::Username, 1);
    let s1 = then_if(s0, d.show_username, InfoField::Username);
    then_if_keeps_order(s1, true, InfoField::Host, 2);
    let s2 = s1.push(InfoField::Host);
    assert(then_if(s1, true, InfoField::Host) == s2);
    then_if_keeps_order(s2, d.show_os, InfoField::Os, 3);
    let s3 = then_if(s2, d.show_os, InfoField::Os);
    then_if_keeps_order(s3, d.show_kernel, InfoField::Kernel, 4);
    let s4 = then_if(s3, d.show_kernel, InfoField::Kernel);
    then_if_keeps_order(s4, d.show_uptime, InfoField::Uptime, 5);
    let s5 = then_if(s4, d.show_uptime, InfoField::Uptime);
    then_if_keeps_order(s5, d.show_cpu, InfoField::Cpu, 6);
    let s6 = then_if(s5, d.show_cpu, InfoField::Cpu);
    then_if_keeps_order(s6, d.show_memory, InfoField::Memory, 7);
    let s7 = then_if(s6, d.show_memory, InfoField::Memory);
    then_if_keeps_order(s7, d.show_gpu, InfoField::Gpu, 8);
    let s8 = then_if(s7, d.show_gpu, InfoField::Gpu);
    then_if_keeps_order(s8, d.show_shell, InfoField::Shell, 9);
    let s9 = then_if(s8, d.show_shell, InfoField::Shell);
    then_if_keeps_order(s9, d.show_rust, InfoField::Rust, 10);
    let s10 = then_if(s9, d.show_rust, InfoField::Rust);
    assert(s10 == shown_fields_of(d));
    assert forall|f: InfoField| s10.contains(f) <==> is_shown(d, f) by {
        assert(!s0.contains(f));
    }
}

} // verus!
