//! What the machine offers: CUDA GPU, CPU, memory, and the device the models
//! run on. The probes themselves (`nvidia-smi`, `wmic`) run outside; their
//! text output, when a probe ran, is read here.
use vstd::prelude::*;
use crate::text::{
    chars_of, string_of, trim, trim_chars, split_on, split_chars, lines, lines_of, views,
    starts_with, strip_leading, strip_leading_chars, occurs_at_exec, contains, contains_text,
    first_word, first_word_chars, parse_u32, parse_u32_chars, parse_u64, parse_u64_chars,
    is_white_space, is_ascii_digit, all_ascii_digits, digits_value, trim_start, trim_end, leading_word,
    lemma_trim_start_skip, lemma_trim_end_take, lemma_trim_end_keeps, lemma_leading_word_take,
    lemma_split_on_no_sep, lemma_split_on_sep, lemma_split_on_extend,
};

verus! {

/// CPU name reported when the probe gives none.
pub const UNKNOWN_CPU: &'static str = "Unknown CPU";

/// Memory size, in GB, assumed when the probe gives none.
pub const DEFAULT_RAM_GB: u32 = 16;

/// Number of CPU cores assumed when the system does not tell.
pub const DEFAULT_CPU_CORES: u32 = 4;

/// The hardware the application runs on.
#[derive(Clone, Debug)]
pub struct HardwareInfo {
    pub has_cuda: bool,
    pub gpu_name: Option<String>,
    pub vram_gb: Option<u32>,
    pub cpu_name: String,
    pub cpu_cores: u32,
    pub ram_gb: u32,
    /// "GPU: <name>" or "CPU: <name>".
    pub active_device: String,
}

/// The views of an optional string.
pub open spec fn opt_view(s: Option<String>) -> Option<Seq<char>> {
    match s {
        Some(x) => Some(x@),
        None => None,
    }
}

/// The views of an optional string slice.
pub open spec fn opt_str_view(s: Option<&str>) -> Option<Seq<char>> {
    match s {
        Some(x) => Some(x@),
        None => None,
    }
}

/// A CUDA GPU is present when `nvidia-smi -L` ran and its output names an
/// NVIDIA device.
pub open spec fn cuda_listed(list_output: Option<Seq<char>>) -> bool {
    match list_output {
        Some(o) => contains(o, "NVIDIA"@),
        None => false,
    }
}

/// The megabytes of GPU memory in the second field, as GB (integer part).
pub open spec fn vram_field_gb(field: Seq<char>) -> Option<u32> {
    match first_word(trim(field)) {
        Some(w) => match parse_u32(w) {
            Some(mb) => Some(mb / 1024),
            None => None,
        },
        None => None,
    }
}

/// Name and memory read from the CSV line of
/// `nvidia-smi --query-gpu=name,memory.total --format=csv,noheader`: the
/// trimmed output split at commas; with at least two fields, the first
/// (trimmed) is the name and the first word of the second, read as MB, gives
/// the GB; with fewer, nothing.
pub open spec fn gpu_fields(query_output: Option<Seq<char>>) -> (Option<Seq<char>>, Option<u32>) {
    match query_output {
        Some(o) => {
            let parts = split_on(trim(o), ',');
            if parts.len() >= 2 {
                (Some(trim(parts[0])), vram_field_gb(parts[1]))
            } else {
                (None, None)
            }
        },
        None => (None, None),
    }
}

/// The first of `ls` that starts with `prefix`, by index.
pub open spec fn first_with_prefix(ls: Seq<Seq<char>>, prefix: Seq<char>) -> Option<int>
    decreases ls.len(),
{
    if ls.len() == 0 {
        None
    } else if starts_with(ls[0], prefix) {
        Some(0)
    } else {
        match first_with_prefix(ls.drop_first(), prefix) {
            Some(i) => Some(i + 1),
            None => None,
        }
    }
}

/// The CPU name in the output of `wmic cpu get name /value`: the first line
/// that starts with "Name=" and still has text once the leading "Name="
/// repetitions and surrounding whitespace are removed gives that text.
pub open spec fn cpu_name_in(ls: Seq<Seq<char>>) -> Option<Seq<char>>
    decreases ls.len(),
{
    if ls.len() == 0 {
        None
    } else {
        let name = trim(strip_leading(ls[0], "Name="@));
        if starts_with(ls[0], "Name="@) && name.len() > 0 {
            Some(name)
        } else {
            cpu_name_in(ls.drop_first())
        }
    }
}

/// The CPU name for a probe output, "Unknown CPU" when none is found.
pub open spec fn cpu_name_of(wmic_output: Option<Seq<char>>) -> Seq<char> {
    match wmic_output {
        Some(o) => match cpu_name_in(lines(o)) {
            Some(n) => n,
            None => UNKNOWN_CPU@,
        },
        None => UNKNOWN_CPU@,
    }
}

/// Kilobytes read from a `TotalVisibleMemorySize=<kB>` line: the second
/// `=`-separated field, trimmed and read as `u64`; zero when absent or not a
/// number.
pub open spec fn memory_kb(line: Seq<char>) -> u64 {
    let parts = split_on(line, '=');
    if parts.len() >= 2 {
        match parse_u64(trim(parts[1])) {
            Some(v) => v,
            None => 0,
        }
    } else {
        0
    }
}

/// The memory size in GB for the output of
/// `wmic OS get TotalVisibleMemorySize /Value`: from the first line that
/// starts with "TotalVisibleMemorySize=", kB / 1024 / 1024 (as `u32`);
/// 16 when no such line is there or the probe did not run.
pub open spec fn ram_gb_of(wmic_output: Option<Seq<char>>) -> u32 {
    match wmic_output {
        Some(o) => {
            let ls = lines(o);
            match first_with_prefix(ls, "TotalVisibleMemorySize="@) {
                Some(i) => (memory_kb(ls[i]) / 1024 / 1024) as u32,
                None => DEFAULT_RAM_GB,
            }
        },
        None => DEFAULT_RAM_GB,
    }
}

/// The label of the device the models run on.
pub open spec fn device_label(has_cuda: bool, gpu_name: Option<Seq<char>>, cpu_name: Seq<char>) -> Seq<
    char,
> {
    if has_cuda {
        match gpu_name {
            Some(n) => "GPU: "@ + n,
            None => "GPU: NVIDIA (unknown)"@,
        }
    } else {
        "CPU: "@ + cpu_name
    }
}

/// The optional string with the given characters.
fn opt_string(v: Option<Vec<char>>) -> (r: Option<String>)
    ensures
        opt_view(r) == match v {
            Some(x) => Some(x@),
            None => None::<Seq<char>>,
        },
{
    match v {
        Some(x) => Some(string_of(&x)),
        None => None,
    }
}

proof fn lemma_first_with_prefix(ls: Seq<Seq<char>>, prefix: Seq<char>, i: int)
    requires
        0 <= i <= ls.len(),
        forall|j: int| 0 <= j < i ==> !starts_with(#[trigger] ls[j], prefix),
        i < ls.len() ==> starts_with(ls[i], prefix),
    ensures
        first_with_prefix(ls, prefix) == (if i < ls.len() {
            Some(i)
        } else {
            None
        }),
    decreases i,
{
    if i > 0 {
        let rest = ls.drop_first();
        assert forall|j: int| 0 <= j < i - 1 implies !starts_with(#[trigger] rest[j], prefix) by {
            assert(rest[j] == ls[j + 1]);
        }
        if i < ls.len() {
            assert(rest[i - 1] == ls[i]);
        }
        lemma_first_with_prefix(rest, prefix, i - 1);
    }
}

fn find_prefix(ls: &Vec<Vec<char>>, prefix: &Vec<char>) -> (r: Option<usize>)
    ensures
        match r {
            Some(i) => first_with_prefix(views(ls@), prefix@) == Some(i as int) && i < ls.len(),
            None => first_with_prefix(views(ls@), prefix@) is None,
        },
{
    let ghost all = views(ls@);
    let mut i: usize = 0;
    while i < ls.len()
        invariant
            i <= ls.len(),
            all == views(ls@),
            forall|j: int| 0 <= j < i ==> !starts_with(#[trigger] all[j], prefix@),
        decreases ls.len() - i,
    {
        proof {
            assert(all[i as int] == ls@[i as int]@);
        }
        if occurs_at_exec(&ls[i], prefix, 0) {
            proof {
                lemma_first_with_prefix(all, prefix@, i as int);
            }
            return Some(i);
        }
        i = i + 1;
    }
    proof {
        lemma_first_with_prefix(all, prefix@, i as int);
    }
    None
}

impl HardwareInfo {
    /// Whether a CUDA GPU is present, from the output of `nvidia-smi -L`
    /// (`None` when the probe could not run).
    pub fn detect_cuda(list_output: Option<&str>) -> (r: bool)
        ensures
            r == cuda_listed(opt_str_view(list_output)),
    {
        match list_output {
            Some(o) => contains_text(o, "NVIDIA"),
            None => false,
        }
    }

    /// GPU name and memory (GB) from the output of
    /// `nvidia-smi --query-gpu=name,memory.total --format=csv,noheader`.
    pub fn get_gpu_info(query_output: Option<&str>) -> (r: (Option<String>, Option<u32>))
        ensures
            (opt_view(r.0), r.1) == gpu_fields(opt_str_view(query_output)),
    {
        match query_output {
            Some(o) => {
                let text = chars_of(o);
                let parts = split_chars(&trim_chars(&text), ',');
                if parts.len() >= 2 {
                    proof {
                        assert(views(parts@)[0] == parts@[0]@);
                        assert(views(parts@)[1] == parts@[1]@);
                    }
                    let name = string_of(&trim_chars(&parts[0]));
                    let field = trim_chars(&parts[1]);
                    let vram = match first_word_chars(&field) {
                        Some(w) => match parse_u32_chars(&w) {
                            Some(mb) => Some(mb / 1024),
                            None => None,
                        },
                        None => None,
                    };
                    (Some(name), vram)
                } else {
                    (None, None)
                }
            },
            None => (None, None),
        }
    }

    /// The CPU name from the output of `wmic cpu get name /value`
    /// (`None` when the probe could not run).
    pub fn detect_cpu_name(wmic_output: Option<&str>) -> (r: String)
        ensures
            r@ == cpu_name_of(opt_str_view(wmic_output)),
    {
        match wmic_output {
            Some(o) => {
                let text = chars_of(o);
                let ls = lines_of(&text);
                let prefix = chars_of("Name=");
                let ghost all = views(ls@);
                let mut i: usize = 0;
                assert(all.skip(0) =~= all);
                while i < ls.len()
                    invariant
                        i <= ls.len(),
                        all == views(ls@),
                        all == lines(o@),
                        opt_str_view(wmic_output) == Some(o@),
                        prefix@ == "Name="@,
                        cpu_name_in(all) == cpu_name_in(all.skip(i as int)),
                    decreases ls.len() - i,
                {
                    let line = &ls[i];
                    let name = trim_chars(&strip_leading_chars(line, &prefix));
                    proof {
                        let t = all.skip(i as int);
                        assert(all[i as int] == ls@[i as int]@);
                        assert(t[0] == line@);
                        assert(t.drop_first() =~= all.skip(i + 1));
                    }
                    if occurs_at_exec(line, &prefix, 0) && name.len() > 0 {
                        return string_of(&name);
                    }
                    i = i + 1;
                }
                proof {
                    assert(all.skip(i as int).len() == 0);
                }
                String::from_str(UNKNOWN_CPU)
            },
            None => String::from_str(UNKNOWN_CPU),
        }
    }

    /// The memory size in GB from the output of
    /// `wmic OS get TotalVisibleMemorySize /Value` (`None` when the probe
    /// could not run).
    pub fn get_ram_gb(wmic_output: Option<&str>) -> (r: u32)
        ensures
            r == ram_gb_of(opt_str_view(wmic_output)),
    {
        match wmic_output {
            Some(o) => {
                let text = chars_of(o);
                let ls = lines_of(&text);
                let prefix = chars_of("TotalVisibleMemorySize=");
                match find_prefix(&ls, &prefix) {
                    Some(i) => {
                        let line = &ls[i];
                        proof {
                            assert(views(ls@)[i as int] == line@);
                        }
                        let parts = split_chars(line, '=');
                        let kb: u64 = if parts.len() >= 2 {
                            proof {
                                assert(views(parts@)[1] == parts@[1]@);
                            }
                            match parse_u64_chars(&trim_chars(&parts[1])) {
                                Some(v) => v,
                                None => 0,
                            }
                        } else {
                            0
                        };
                        (kb / 1024 / 1024) as u32
                    },
                    None => DEFAULT_RAM_GB,
                }
            },
            None => DEFAULT_RAM_GB,
        }
    }

    /// The label of the device the models run on: "GPU: <name>" (or
    /// "GPU: NVIDIA (unknown)") with CUDA, "CPU: <cpu name>" without.
    pub fn active_device_label(has_cuda: bool, gpu_name: &Option<String>, cpu_name: &str) -> (r:
        String)
        ensures
            r@ == device_label(has_cuda, opt_view(*gpu_name), cpu_name@),
    {
        if has_cuda {
            match gpu_name {
                Some(n) => String::from_str("GPU: ").concat(n.as_str()),
                None => String::from_str("GPU: NVIDIA (unknown)"),
            }
        } else {
            String::from_str("CPU: ").concat(cpu_name)
        }
    }

    /// The hardware description from the probes' outputs (`None` for a
    /// probe that could not run) and the parallelism the system reports:
    /// the GPU is only queried when CUDA is present; cores default to 4.
    pub fn detect_from(
        cuda_list: Option<&str>,
        gpu_query: Option<&str>,
        parallelism: Option<usize>,
        ram_query: Option<&str>,
        cpu_query: Option<&str>,
    ) -> (r: HardwareInfo)
        ensures
            r.has_cuda == cuda_listed(opt_str_view(cuda_list)),
            (opt_view(r.gpu_name), r.vram_gb) == (if r.has_cuda {
                gpu_fields(opt_str_view(gpu_query))
            } else {
                (None, None)
            }),
            r.cpu_cores == match parallelism {
                Some(p) => p as u32,
                None => DEFAULT_CPU_CORES,
            },
            r.ram_gb == ram_gb_of(opt_str_view(ram_query)),
            r.cpu_name@ == cpu_name_of(opt_str_view(cpu_query)),
            r.active_device@ == device_label(r.has_cuda, opt_view(r.gpu_name), r.cpu_name@),
    {
        let has_cuda = HardwareInfo::detect_cuda(cuda_list);
        let (gpu_name, vram_gb) = if has_cuda {
            HardwareInfo::get_gpu_info(gpu_query)
        } else {
            (None, None)
        };
        let cpu_cores = match parallelism {
            Some(p) => p as u32,
            None => DEFAULT_CPU_CORES,
        };
        let ram_gb = HardwareInfo::get_ram_gb(ram_query);
        let cpu_name = HardwareInfo::detect_cpu_name(cpu_query);
        let active_device = HardwareInfo::active_device_label(has_cuda, &gpu_name, cpu_name.as_str());
        HardwareInfo { has_cuda, gpu_name, vram_gb, cpu_name, cpu_cores, ram_gb, active_device }
    }
}

/// The GPU reported is the first one listed: for an output whose first
/// entry is `<name>, <mb>` (followed by anything that starts with
/// whitespace, such as " MiB" and the lines of further GPUs), the name is
/// that name and the memory is that entry's megabytes, in whole GB.
pub proof fn lemma_gpu_info_first_entry(name: Seq<char>, mb: Seq<char>, rest: Seq<char>)
    requires
        name.len() > 0,
        !is_white_space(name[0]),
        !is_white_space(name.last()),
        forall|i: int| 0 <= i < name.len() ==> #[trigger] name[i] != ',',
        mb.len() > 0,
        all_ascii_digits(mb),
        digits_value(mb) <= u32::MAX,
        rest.len() == 0 || is_white_space(rest[0]),
    ensures
        gpu_fields(Some(name + ", "@ + mb + rest)) == (
            Some(name),
            Some((digits_value(mb) / 1024) as u32),
        ),
{
    reveal_strlit(", ");
    let o = name + ", "@ + mb + rest;
    let b = seq![' '] + mb;
    let x = name.push(',') + b;
    assert(o =~= x + rest);
    let l = x.len() as int;
    // The whole output, trimmed.
    lemma_trim_start_skip(o, 0);
    assert(o.skip(0) =~= o);
    assert(x[l - 1] == mb.last());
    assert(o[l - 1] == x[l - 1]);
    let k = lemma_trim_end_keeps(o, l);
    let rest2 = rest.take(k - l);
    let t = o.take(k);
    assert(t =~= x + rest2);
    assert(trim(o) == t);
    // Its pieces.
    assert(Seq::<char>::empty() + name =~= name);
    lemma_split_on_no_sep(Seq::<char>::empty(), name, ',');
    assert(split_on(Seq::<char>::empty(), ',') == seq![Seq::<char>::empty()]);
    assert(split_on(name, ',') =~= seq![name]);
    lemma_split_on_sep(name, ',');
    assert forall|i: int| 0 <= i < b.len() implies #[trigger] b[i] != ',' by {
        if i > 0 {
            assert(b[i] == mb[i - 1]);
        }
    }
    lemma_split_on_no_sep(name.push(','), b, ',');
    assert(Seq::<char>::empty() + b =~= b);
    let p = split_on(x, ',');
    assert(p =~= seq![name, b]);
    lemma_split_on_extend(x, rest2, ',');
    let q = split_on(t, ',');
    assert(q.len() >= 2);
    assert(q[0] == name);
    let f = q[1];
    assert(f == (b + rest2).take(f.len() as int));
    assert(f.len() >= b.len());
    let z = rest2.take(f.len() - b.len());
    assert(f =~= b + z);
    // The name field.
    lemma_trim_start_skip(name, 0);
    assert(name.skip(0) =~= name);
    lemma_trim_end_take(name, name.len() as int);
    assert(name.take(name.len() as int) =~= name);
    assert(trim(q[0]) == name);
    // The memory field.
    assert(f[0] == ' ');
    assert(f[1] == mb[0]);
    lemma_trim_start_skip(f, 1);
    let m = mb + z;
    assert(f.skip(1) =~= m);
    assert(m[mb.len() - 1] == mb.last());
    let k2 = lemma_trim_end_keeps(m, mb.len() as int);
    let z2 = z.take(k2 - mb.len());
    let tm = m.take(k2);
    assert(tm =~= mb + z2);
    assert(trim(f) == tm);
    lemma_trim_start_skip(tm, 0);
    assert(tm.skip(0) =~= tm);
    assert(tm[0] == mb[0]);
    assert forall|j: int| 0 <= j < mb.len() implies !is_white_space(#[trigger] tm[j]) by {
        assert(tm[j] == mb[j]);
    }
    if z2.len() > 0 {
        assert(z2[0] == rest[0]);
        assert(tm[mb.len() as int] == z2[0]);
    }
    lemma_leading_word_take(tm, mb.len() as int);
    assert(tm.take(mb.len() as int) =~= mb);
    assert(first_word(trim(f)) == Some(mb));
    assert(mb[0] != '+');
    assert(parse_u32(mb) == Some(digits_value(mb) as u32));
}

/// The memory size comes from the first line that starts with
/// "TotalVisibleMemorySize=": when that line is the key followed by the
/// number of kilobytes, the size is that number divided by 1024 twice.
pub proof fn lemma_ram_first_entry(o: Seq<char>, i: int, kb: Seq<char>)
    requires
        0 <= i < lines(o).len(),
        forall|j: int| 0 <= j < i ==> !starts_with(#[trigger] lines(o)[j], "TotalVisibleMemorySize="@),
        lines(o)[i] == "TotalVisibleMemorySize="@ + kb,
        kb.len() > 0,
        all_ascii_digits(kb),
        digits_value(kb) <= u64::MAX,
    ensures
        ram_gb_of(Some(o)) == (digits_value(kb) / 1024 / 1024) as u32,
{
    reveal_strlit("TotalVisibleMemorySize=");
    let key = "TotalVisibleMemorySize="@;
    let line = key + kb;
    assert(starts_with(line, key)) by {
        assert(line.subrange(0, key.len() as int) =~= key);
    }
    lemma_first_with_prefix(lines(o), key, i);
    // The line splits at its one '='.
    let name = key.drop_last();
    assert(key =~= name.push('='));
    assert forall|j: int| 0 <= j < name.len() implies #[trigger] name[j] != '=' by {}
    assert(Seq::<char>::empty() + name =~= name);
    lemma_split_on_no_sep(Seq::<char>::empty(), name, '=');
    assert(split_on(Seq::<char>::empty(), '=') == seq![Seq::<char>::empty()]);
    assert(split_on(name, '=') =~= seq![name]);
    lemma_split_on_sep(name, '=');
    assert forall|j: int| 0 <= j < kb.len() implies #[trigger] kb[j] != '=' by {
        assert(is_ascii_digit(kb[j]));
    }
    lemma_split_on_no_sep(name.push('='), kb, '=');
    assert(Seq::<char>::empty() + kb =~= kb);
    assert(split_on(line, '=') =~= seq![name, kb]);
    // The number of kilobytes, already trimmed.
    assert(is_ascii_digit(kb[0]));
    assert(is_ascii_digit(kb.last()));
    lemma_trim_start_skip(kb, 0);
    assert(kb.skip(0) =~= kb);
    lemma_trim_end_take(kb, kb.len() as int);
    assert(kb.take(kb.len() as int) =~= kb);
    assert(trim(kb) == kb);
    assert(kb[0] != '+');
    assert(parse_u64(kb) == Some(digits_value(kb) as u64));
    assert(memory_kb(line) == digits_value(kb) as u64);
}

proof fn lemma_cpu_name_in_skip(ls: Seq<Seq<char>>, i: int)
    requires
        0 <= i <= ls.len(),
        forall|j: int| 0 <= j < i ==> !starts_with(#[trigger] ls[j], "Name="@),
    ensures
        cpu_name_in(ls) == cpu_name_in(ls.skip(i)),
    decreases i,
{
    if i == 0 {
        assert(ls.skip(0) =~= ls);
    } else {
        let r = ls.drop_first();
        assert forall|j: int| 0 <= j < i - 1 implies !starts_with(#[trigger] r[j], "Name="@) by {
            assert(r[j] == ls[j + 1]);
        }
        assert(!starts_with(ls[0], "Name="@));
        lemma_cpu_name_in_skip(r, i - 1);
        assert(r.skip(i - 1) =~= ls.skip(i));
    }
}

/// The CPU name comes from the first line that starts with "Name=": when
/// that line is "Name=" followed by a name with no whitespace at its ends,
/// that name is reported.
pub proof fn lemma_cpu_name_first_entry(o: Seq<char>, i: int, name: Seq<char>)
    requires
        0 <= i < lines(o).len(),
        forall|j: int| 0 <= j < i ==> !starts_with(#[trigger] lines(o)[j], "Name="@),
        lines(o)[i] == "Name="@ + name,
        name.len() > 0,
        !is_white_space(name[0]),
        !is_white_space(name.last()),
        !starts_with(name, "Name="@),
    ensures
        cpu_name_of(Some(o)) == name,
{
    reveal_strlit("Name=");
    let key = "Name="@;
    let ls = lines(o);
    let line = key + name;
    lemma_cpu_name_in_skip(ls, i);
    let t = ls.skip(i);
    assert(t[0] == line);
    assert(starts_with(line, key)) by {
        assert(line.subrange(0, key.len() as int) =~= key);
    }
    assert(line.skip(key.len() as int) =~= name);
    assert(strip_leading(line, key) == strip_leading(name, key));
    assert(strip_leading(name, key) == name);
    lemma_trim_start_skip(name, 0);
    assert(name.skip(0) =~= name);
    lemma_trim_end_take(name, name.len() as int);
    assert(name.take(name.len() as int) =~= name);
    assert(trim(strip_leading(line, key)) == name);
}

/// The models run on the GPU exactly when CUDA is present: the label then
/// names the GPU ("NVIDIA (unknown)" when its name is not known), else it
/// names the CPU. CUDA is present exactly when the device list mentions
/// "NVIDIA".
pub proof fn lemma_device_choice(
    list_output: Option<Seq<char>>,
    gpu_name: Option<Seq<char>>,
    cpu_name: Seq<char>,
)
    ensures
        cuda_listed(list_output) <==> (list_output matches Some(o) && contains(o, "NVIDIA"@)),
        cuda_listed(list_output) ==> device_label(cuda_listed(list_output), gpu_name, cpu_name)
            == match gpu_name {
            Some(n) => "GPU: "@ + n,
            None => "GPU: NVIDIA (unknown)"@,
        },
        !cuda_listed(list_output) ==> device_label(cuda_listed(list_output), gpu_name, cpu_name)
            == "CPU: "@ + cpu_name,
{
}

} // verus!
