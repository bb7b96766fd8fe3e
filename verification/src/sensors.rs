//! The hardware facts gathered once at start-up and merged from the system's
//! video-controller and GPU-engine reports.
use vstd::prelude::*;
use crate::text::{chars_of, contains, contains_str, lowercase, lowercase_chars, string_from_chars, trim, trim_chars};

verus! {

/// The vendor guessed from a GPU's name (judged on its lower-cased form).
pub open spec fn vendor_of(lower: Seq<char>) -> Seq<char> {
    if contains(lower, "nvidia"@) || contains(lower, "geforce"@) || contains(lower, "rtx"@)
        || contains(lower, "gtx"@) {
        "NVIDIA"@
    } else if contains(lower, "amd"@) || contains(lower, "radeon"@) {
        "AMD"@
    } else if contains(lower, "intel"@) {
        "Intel"@
    } else {
        Seq::<char>::empty()
    }
}

/// The vendor guessed from a GPU's name: none for an empty name, else judged
/// on the name's lower-cased form.
pub open spec fn vendor_guess(name: Seq<char>) -> Seq<char> {
    if name.len() == 0 {
        Seq::<char>::empty()
    } else {
        vendor_of(lowercase(name))
    }
}

/// Guesses the GPU vendor from the adapter name; empty when it cannot tell.
pub fn guess_gpu_vendor(name: &str) -> (v: String)
    ensures
        v@ == vendor_guess(name@),
{
    if name.is_empty() {
        return String::new();
    }
    let lower = lowercase_chars(&chars_of(name));
    if contains_str(&lower, "nvidia") || contains_str(&lower, "geforce") || contains_str(
        &lower,
        "rtx",
    ) || contains_str(&lower, "gtx") {
        String::from_str("NVIDIA")
    } else if contains_str(&lower, "amd") || contains_str(&lower, "radeon") {
        String::from_str("AMD")
    } else if contains_str(&lower, "intel") {
        String::from_str("Intel")
    } else {
        String::new()
    }
}

/// Facts about the processor and graphics adapter that do not change while
/// the program runs.
pub struct SensorInfo {
    pub gpu_name: String,
    pub gpu_vendor: String,
    pub gpu_freq_mhz: u64,
    pub gpu_cores: u64,
    pub cpu_brand: String,
    pub cpu_physical_cores: u64,
    pub cpu_logical_cores: u64,
}

impl SensorInfo {
    /// The processor facts as the system reports them; the graphics adapter is
    /// unknown until the first video-controller report.
    pub fn new(cpu_brand: String, cpu_physical_cores: u64, cpu_logical_cores: u64) -> (s: SensorInfo)
        ensures
            s.gpu_name@ == Seq::<char>::empty(),
            s.gpu_vendor@ == Seq::<char>::empty(),
            s.gpu_freq_mhz == 0,
            s.gpu_cores == 0,
            s.cpu_brand == cpu_brand,
            s.cpu_physical_cores == cpu_physical_cores,
            s.cpu_logical_cores == cpu_logical_cores,
    {
        SensorInfo {
            gpu_name: String::new(),
            gpu_vendor: String::new(),
            gpu_freq_mhz: 0,
            gpu_cores: 0,
            cpu_brand,
            cpu_physical_cores,
            cpu_logical_cores,
        }
    }

    /// Takes in one video controller's name: the first name reported sticks,
    /// and the vendor is guessed from it unless already known.
    pub fn note_controller_name(&mut self, name: &Option<String>)
        ensures
            old(self).gpu_name@.len() == 0 && name.is_some() ==> final(self).gpu_name@ == name.unwrap()@
                && final(self).gpu_vendor@ == if old(self).gpu_vendor@.len() == 0 {
                vendor_guess(name.unwrap()@)
            } else {
                old(self).gpu_vendor@
            },
            !(old(self).gpu_name@.len() == 0 && name.is_some()) ==> final(self).gpu_name@ == old(
                self,
            ).gpu_name@ && final(self).gpu_vendor@ == old(self).gpu_vendor@,
            final(self).gpu_freq_mhz == old(self).gpu_freq_mhz,
            final(self).gpu_cores == old(self).gpu_cores,
            final(self).cpu_brand == old(self).cpu_brand,
            final(self).cpu_physical_cores == old(self).cpu_physical_cores,
            final(self).cpu_logical_cores == old(self).cpu_logical_cores,
    {
        if self.gpu_name.as_str().is_empty() {
            match name {
                Some(n) => {
                    self.gpu_name = n.clone();
                    if self.gpu_vendor.as_str().is_empty() {
                        self.gpu_vendor = guess_gpu_vendor(n.as_str());
                    }
                },
                None => {},
            }
        }
    }
}

pub fn get_cpu_brand(info: &SensorInfo) -> (s: String)
    ensures
        s@ == info.cpu_brand@,
{
    info.cpu_brand.clone()
}

pub fn get_cpu_physical_cores(info: &SensorInfo) -> (n: u64)
    ensures
        n == info.cpu_physical_cores,
{
    info.cpu_physical_cores
}

pub fn get_cpu_logical_cores(info: &SensorInfo) -> (n: u64)
    ensures
        n == info.cpu_logical_cores,
{
    info.cpu_logical_cores
}

pub fn get_gpu_name(info: &SensorInfo) -> (s: String)
    ensures
        s@ == info.gpu_name@,
{
    info.gpu_name.clone()
}

pub fn get_gpu_vendor(info: &SensorInfo) -> (s: String)
    ensures
        s@ == info.gpu_vendor@,
{
    info.gpu_vendor.clone()
}

pub fn get_gpu_frequency_mhz(info: &SensorInfo) -> (n: u64)
    ensures
        n == info.gpu_freq_mhz,
{
    info.gpu_freq_mhz
}

pub fn get_gpu_cores(info: &SensorInfo) -> (n: u64)
    ensures
        n == info.gpu_cores,
{
    info.gpu_cores
}

/// Per-thread processor clocks; no source for them is wired up, so the list is
/// empty and callers fall back to the system's own reading.
pub fn get_cpu_frequencies() -> (v: Vec<i64>)
    ensures
        v@.len() == 0,
{
    Vec::new()
}

/// One GPU engine of the system's performance counters.
pub struct GpuEngine {
    pub name: Option<String>,
    pub utilization: Option<u64>,
}

/// The 3D engines' utilisation counts towards the GPU load.
pub open spec fn counts_3d(e: GpuEngine) -> bool {
    e.utilization is Some && (e.name matches Some(n) && contains(n@, "engtype_3D"@))
}

/// Sum of the utilisation of the 3D engines.
pub open spec fn load_3d_total(es: Seq<GpuEngine>) -> int
    decreases es.len(),
{
    if es.len() == 0 {
        0
    } else {
        load_3d_total(es.drop_last()) + if counts_3d(es.last()) {
            es.last().utilization.unwrap() as int
        } else {
            0
        }
    }
}

proof fn lemma_load_3d_total_monotone(es: Seq<GpuEngine>, i: int)
    requires
        0 <= i <= es.len(),
    ensures
        load_3d_total(es.take(i)) <= load_3d_total(es),
        load_3d_total(es.take(i)) >= 0,
    decreases es.len() - i,
{
    if i < es.len() {
        lemma_load_3d_total_monotone(es, i + 1);
        assert(es.take(i + 1).drop_last() =~= es.take(i));
        lemma_load_3d_total_nonneg(es.take(i));
    } else {
        assert(es.take(i) =~= es);
        lemma_load_3d_total_nonneg(es);
    }
}

proof fn lemma_load_3d_total_nonneg(es: Seq<GpuEngine>)
    ensures
        load_3d_total(es) >= 0,
    decreases es.len(),
{
    if es.len() > 0 {
        lemma_load_3d_total_nonneg(es.drop_last());
    }
}

/// The GPU load percentage: the 3D engines' total utilisation, capped at 100.
pub fn gpu_3d_load(engines: &Vec<GpuEngine>) -> (load: u64)
    requires
        load_3d_total(engines@) <= u64::MAX,
    ensures
        load == if load_3d_total(engines@) < 100 { load_3d_total(engines@) } else { 100 },
{
    let mut total: u64 = 0;
    let mut i: usize = 0;
    assert(engines@.take(0) =~= Seq::<GpuEngine>::empty());
    while i < engines.len()
        invariant
            i <= engines@.len(),
            load_3d_total(engines@) <= u64::MAX,
            total == load_3d_total(engines@.take(i as int)),
        decreases engines@.len() - i,
    {
        let e = &engines[i];
        assert(engines@.take(i + 1).drop_last() =~= engines@.take(i as int));
        proof {
            lemma_load_3d_total_monotone(engines@, i + 1);
        }
        let hit = match (&e.name, e.utilization) {
            (Some(n), Some(u)) => {
                if contains_str(&chars_of(n.as_str()), "engtype_3D") {
                    Some(u)
                } else {
                    None
                }
            },
            _ => None,
        };
        match hit {
            Some(u) => {
                total = total + u;
            },
            None => {},
        }
        i += 1;
    }
    assert(engines@.take(engines@.len() as int) =~= engines@);
    if total < 100 {
        total
    } else {
        100
    }
}

/// One video controller as the system's management interface reports it.
pub struct VideoController {
    pub adapter_ram: Option<u64>,
    pub name: Option<String>,
    pub video_processor: Option<String>,
    pub driver_version: Option<String>,
}

/// The adapter memory to show: the last positive one reported, if any.
pub open spec fn last_adapter_ram(cs: Seq<VideoController>) -> Option<u64>
    decreases cs.len(),
{
    if cs.len() == 0 {
        None
    } else {
        match cs.last().adapter_ram {
            Some(r) => if r > 0 {
                Some(r)
            } else {
                last_adapter_ram(cs.drop_last())
            },
            None => last_adapter_ram(cs.drop_last()),
        }
    }
}

/// The name and vendor known after taking in the controllers' names one by
/// one, as `note_controller_name` does.
pub open spec fn names_after(name: Seq<char>, vendor: Seq<char>, cs: Seq<VideoController>) -> (Seq<char>, Seq<char>)
    decreases cs.len(),
{
    if cs.len() == 0 {
        (name, vendor)
    } else {
        let (n, v) = names_after(name, vendor, cs.drop_last());
        if n.len() == 0 && cs.last().name is Some {
            let m = cs.last().name.unwrap()@;
            (m, if v.len() == 0 { vendor_guess(m) } else { v })
        } else {
            (n, v)
        }
    }
}

/// The GPU vendor is always the guess from the GPU name: it holds of the
/// empty name and vendor a `SensorInfo` starts with, and taking in any
/// video-controller report keeps it.
pub proof fn vendor_follows_name(name: Seq<char>, vendor: Seq<char>, cs: Seq<VideoController>)
    requires
        vendor == vendor_guess(name),
    ensures
        names_after(name, vendor, cs).1 == vendor_guess(names_after(name, vendor, cs).0),
    decreases cs.len(),
{
    if cs.len() > 0 {
        vendor_follows_name(name, vendor, cs.drop_last());
    }
}

impl SensorInfo {
    /// Takes in a video-controller report: the GPU name and vendor as for each
    /// controller's name in turn, and returns the adapter memory to show.
    pub fn note_controllers(&mut self, cs: &Vec<VideoController>) -> (ram: Option<u64>)
        ensures
            ram == last_adapter_ram(cs@),
            (final(self).gpu_name@, final(self).gpu_vendor@) == names_after(
                old(self).gpu_name@,
                old(self).gpu_vendor@,
                cs@,
            ),
            final(self).gpu_freq_mhz == old(self).gpu_freq_mhz,
            final(self).gpu_cores == old(self).gpu_cores,
            final(self).cpu_brand == old(self).cpu_brand,
            final(self).cpu_physical_cores == old(self).cpu_physical_cores,
            final(self).cpu_logical_cores == old(self).cpu_logical_cores,
    {
        let mut ram: Option<u64> = None;
        let mut i: usize = 0;
        while i < cs.len()
            invariant
                i <= cs@.len(),
                ram == last_adapter_ram(cs@.take(i as int)),
                (self.gpu_name@, self.gpu_vendor@) == names_after(
                    old(self).gpu_name@,
                    old(self).gpu_vendor@,
                    cs@.take(i as int),
                ),
                self.gpu_freq_mhz == old(self).gpu_freq_mhz,
                self.gpu_cores == old(self).gpu_cores,
                self.cpu_brand == old(self).cpu_brand,
                self.cpu_physical_cores == old(self).cpu_physical_cores,
                self.cpu_logical_cores == old(self).cpu_logical_cores,
            decreases cs@.len() - i,
        {
            assert(cs@.take(i + 1).drop_last() =~= cs@.take(i as int));
            assert(cs@.take(i + 1).last() == cs@[i as int]);
            match cs[i].adapter_ram {
                Some(r) => {
                    if r > 0 {
                        ram = Some(r);
                    }
                },
                None => {},
            }
            self.note_controller_name(&cs[i].name);
            i += 1;
        }
        assert(cs@.take(i as int) =~= cs@);
        ram
    }
}

/// The GPU memory in use: the first positive dedicated usage reported.
pub open spec fn first_positive(us: Seq<Option<u64>>) -> Option<u64>
    decreases us.len(),
{
    if us.len() == 0 {
        None
    } else {
        match us[0] {
            Some(u) => if u > 0 {
                Some(u)
            } else {
                first_positive(us.drop_first())
            },
            None => first_positive(us.drop_first()),
        }
    }
}

pub fn first_dedicated_usage(us: &Vec<Option<u64>>) -> (r: Option<u64>)
    ensures
        r == first_positive(us@),
{
    let mut i: usize = 0;
    assert(us@.skip(0) =~= us@);
    while i < us.len()
        invariant
            i <= us@.len(),
            first_positive(us@) == first_positive(us@.skip(i as int)),
        decreases us@.len() - i,
    {
        assert(us@.skip(i as int)[0] == us@[i as int]);
        assert(us@.skip(i as int).drop_first() =~= us@.skip(i + 1));
        match us[i] {
            Some(u) => {
                if u > 0 {
                    return Some(u);
                }
            },
            None => {},
        }
        i += 1;
    }
    None
}

/// A processor as the hardware-information library describes it.
pub struct Cpu {
    pub vendor: String,
    pub model_name: String,
    pub physical_cores: u64,
    pub logical_cores: u64,
    pub max_frequency_hz: i64,
}

/// A graphics adapter as the hardware-information library describes it.
pub struct Gpu {
    pub vendor: String,
    pub name: String,
    pub vendor_id: String,
    pub device_id: String,
    pub driver_version: String,
    pub dedicated_memory_bytes: u64,
    pub shared_memory_bytes: u64,
    pub frequency_hz: u64,
    pub num_cores: u64,
}

/// Memory totals as the hardware-information library reports them.
pub struct Ram {
    pub total_bytes: u64,
    pub free_bytes: u64,
    pub available_bytes: u64,
}

/// A disk as the hardware-information library describes it.
pub struct Disk {
    pub vendor: String,
    pub model: String,
    pub serial_number: String,
    pub size_bytes: u64,
    pub mount_point: String,
    pub interface_type: i32,
}

/// A processor brand as reported, without surrounding white space; empty when
/// there is none.
pub open spec fn brand_text(brand: Option<String>) -> Seq<char> {
    match brand {
        Some(b) => trim(b@),
        None => seq![],
    }
}

/// The processor facts read once at start-up: the first processor's brand,
/// the number of logical processors, and the number of physical cores (the
/// logical count when the system does not say).
pub fn cpu_static(first_brand: Option<String>, logical: u64, physical: Option<u64>) -> (r: (String, u64, u64))
    ensures
        r.0@ == brand_text(first_brand),
        r.1 == match physical {
            Some(p) => p,
            None => logical,
        },
        r.2 == logical,
{
    let brand = match first_brand {
        Some(b) => string_from_chars(&trim_chars(&chars_of(b.as_str()))),
        None => String::new(),
    };
    let phys = match physical {
        Some(p) => p,
        None => logical,
    };
    (brand, phys, logical)
}

/// The brand shown: the one gathered at start-up, or else the system's own.
pub fn cpu_brand_or(hw: String, fallback: Option<String>) -> (b: String)
    ensures
        hw@.len() > 0 ==> b@ == hw@,
        hw@.len() == 0 ==> b@ == brand_text(fallback),
{
    if !hw.as_str().is_empty() {
        hw
    } else {
        match fallback {
            Some(f) => string_from_chars(&trim_chars(&chars_of(f.as_str()))),
            None => String::new(),
        }
    }
}

} // verus!
