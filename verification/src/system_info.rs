use vstd::prelude::*;

verus! {

broadcast use vstd::string::group_string_axioms;

/// What the benchmark reports about the machine it runs on.
pub struct SystemInfo {
    pub cpu_name: String,
    pub cpu_cores: usize,
    pub total_ram: u64,
    pub os_name: String,
    pub kernel_version: String,
}

/// `reading` when the system reported it, and `fallback` when it did not.
pub open spec fn reading_or(reading: Option<String>, fallback: Seq<char>) -> Seq<char> {
    match reading {
        Some(text) => text@,
        None => fallback,
    }
}

impl SystemInfo {
    /// Assembles the report from what the system gave: the brand of the first
    /// CPU, the number of CPUs, the total memory in bytes, the OS name and the
    /// kernel version. A reading that is missing is shown as `Unknown CPU`,
    /// `Unknown OS` or `Unknown`.
    pub fn from_readings(
        first_cpu_brand: Option<String>,
        cpu_cores: usize,
        total_ram: u64,
        os_name: Option<String>,
        kernel_version: Option<String>,
    ) -> (info: SystemInfo)
        ensures
            info.cpu_name@ == reading_or(first_cpu_brand, "Unknown CPU"@),
            info.cpu_cores == cpu_cores,
            info.total_ram == total_ram,
            info.os_name@ == reading_or(os_name, "Unknown OS"@),
            info.kernel_version@ == reading_or(kernel_version, "Unknown"@),
    {
        let cpu_name = match first_cpu_brand {
            Some(brand) => brand,
            None => "Unknown CPU".to_string(),
        };
        let os_name = match os_name {
            Some(name) => name,
            None => "Unknown OS".to_string(),
        };
        let kernel_version = match kernel_version {
            Some(version) => version,
            None => "Unknown".to_string(),
        };
        SystemInfo { cpu_name, cpu_cores, total_ram, os_name, kernel_version }
    }
}

} // verus!
