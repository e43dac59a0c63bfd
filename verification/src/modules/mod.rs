//! The fact table and the modules that fill it.

use crate::config::Config;
use crate::modules::bios_info::{bios_facts, load_bios_info, BiosInfo};
use crate::modules::cpu_info::{cpu_facts, load_cpu_info, CpuInfo};
use crate::modules::disk_info::load_disk_info;
use crate::modules::env_info::{env_facts, load_env_info, EnvInfo};
use crate::modules::gpu_info::{gpu_facts, load_gpu_info, GpuInfo};
use crate::modules::kernel_info::{kernel_facts, load_kernel_info, KernelInfo};
use crate::modules::memory_info::{load_memory_info, memory_facts, MemoryText};
use crate::modules::net_info::{load_net_info, net_facts, NetInfo};
use crate::modules::os_info::{load_os_info, os_facts, OsInfo};
use crate::modules::packages_info::{load_packages_info, packages_facts, PackagesInfo};
use crate::modules::screen_info::{load_screen_info, screen_facts, ScreenInfo};
use crate::modules::uptime_info::{load_uptime_info, uptime_facts};
use crate::text::{joined, text_eq, texts, trim_text, trimmed};
use crate::utils::{size_facts, SizeText};
use vstd::hash_map::StringHashMap;
use vstd::prelude::*;

pub mod bios_info;
pub mod cpu_info;
pub mod disk_info;
pub mod env_info;
pub mod gpu_info;
pub mod kernel_info;
pub mod memory_info;
pub mod net_info;
pub mod os_info;
pub mod packages_info;
pub mod screen_info;
pub mod uptime_info;

verus! {

/// The fact table: named text values, one value per name, the last write winning.
pub struct SystemInfo {
    info: StringHashMap<String>,
}

impl View for SystemInfo {
    type V = Map<Seq<char>, Seq<char>>;

    /// The table as a map from a fact's name to its value.
    closed spec fn view(&self) -> Map<Seq<char>, Seq<char>> {
        self.info@.map_values(|value: String| value@)
    }
}

impl SystemInfo {
    /// A table without facts.
    pub fn new() -> (table: SystemInfo)
        ensures
            table@ == Map::<Seq<char>, Seq<char>>::empty(),
    {
        let table = SystemInfo { info: StringHashMap::new() };
        assert(table@ =~= Map::<Seq<char>, Seq<char>>::empty());
        table
    }

    /// Looks a fact up by its name.
    pub fn get(&self, key: &str) -> (found: Option<&String>)
        ensures
            match found {
                Some(value) => self@.contains_key(key@) && value@ == self@[key@],
                None => !self@.contains_key(key@),
            },
    {
        self.info.get(key)
    }

    /// Sets a fact, replacing the value that the name had before.
    pub fn insert(&mut self, key: String, value: String)
        ensures
            final(self)@ == old(self)@.insert(key@, value@),
    {
        self.info.insert(key, value);
        assert(self@ =~= old(self)@.insert(key@, value@));
    }
}

/// The built-in modules.
#[derive(Clone, Copy, Debug, PartialEq, Eq, Structural)]
pub enum Module {
    Os,
    Kernel,
    Uptime,
    Packages,
    Env,
    Cpu,
    Gpu,
    Memory,
    Screen,
    Bios,
    Disk,
    Net,
}

/// The module that a name of the configuration stands for, if it is one.
pub open spec fn module_named(name: Seq<char>) -> Option<Module> {
    if name == "os"@ {
        Some(Module::Os)
    } else if name == "kernel"@ {
        Some(Module::Kernel)
    } else if name == "uptime"@ {
        Some(Module::Uptime)
    } else if name == "packages"@ {
        Some(Module::Packages)
    } else if name == "env"@ {
        Some(Module::Env)
    } else if name == "cpu"@ {
        Some(Module::Cpu)
    } else if name == "gpu"@ {
        Some(Module::Gpu)
    } else if name == "memory"@ {
        Some(Module::Memory)
    } else if name == "screen"@ {
        Some(Module::Screen)
    } else if name == "bios"@ {
        Some(Module::Bios)
    } else if name == "disk"@ {
        Some(Module::Disk)
    } else if name == "net"@ {
        Some(Module::Net)
    } else {
        None
    }
}

/// Looks a module up by its name.
pub fn find_module(name: &str) -> (found: Option<Module>)
    ensures
        found == module_named(name@),
{
    if text_eq(name, "os") {
        Some(Module::Os)
    } else if text_eq(name, "kernel") {
        Some(Module::Kernel)
    } else if text_eq(name, "uptime") {
        Some(Module::Uptime)
    } else if text_eq(name, "packages") {
        Some(Module::Packages)
    } else if text_eq(name, "env") {
        Some(Module::Env)
    } else if text_eq(name, "cpu") {
        Some(Module::Cpu)
    } else if text_eq(name, "gpu") {
        Some(Module::Gpu)
    } else if text_eq(name, "memory") {
        Some(Module::Memory)
    } else if text_eq(name, "screen") {
        Some(Module::Screen)
    } else if text_eq(name, "bios") {
        Some(Module::Bios)
    } else if text_eq(name, "disk") {
        Some(Module::Disk)
    } else if text_eq(name, "net") {
        Some(Module::Net)
    } else {
        None
    }
}

/// The modules that a list of names stands for, in the order of the names;
/// a name that stands for none is passed over.
pub open spec fn known_modules(names: Seq<Seq<char>>) -> Seq<Module>
    decreases names.len(),
{
    if names.len() == 0 {
        Seq::empty()
    } else {
        match module_named(names.last()) {
            Some(module) => known_modules(names.drop_last()).push(module),
            None => known_modules(names.drop_last()),
        }
    }
}

/// The modules to run: those that the configuration enables, in its order.
pub fn enabled_modules(config: &Config) -> (modules: Vec<Module>)
    ensures
        modules@ == known_modules(texts(config.modules.enabled@)),
{
    let ghost names = texts(config.modules.enabled@);
    let mut modules: Vec<Module> = Vec::new();
    let mut i: usize = 0;
    while i < config.modules.enabled.len()
        invariant
            i <= config.modules.enabled@.len(),
            names == texts(config.modules.enabled@),
            modules@ == known_modules(names.take(i as int)),
        decreases config.modules.enabled@.len() - i,
    {
        proof {
            let upto = names.take(i + 1);
            assert(upto.drop_last() =~= names.take(i as int));
            assert(upto.last() == config.modules.enabled@[i as int]@);
        }
        match find_module(config.modules.enabled[i].as_str()) {
            Some(module) => {
                modules.push(module);
            },
            None => {},
        }
        i += 1;
    }
    assert(names.take(i as int) =~= names);
    modules
}

/// What a module has read of the system.
pub enum Reading {
    Os(OsInfo),
    Kernel(KernelInfo),
    Uptime(u64),
    Packages(PackagesInfo),
    Env(EnvInfo),
    Cpu(CpuInfo),
    Gpu(GpuInfo),
    Memory(MemoryText),
    Screen(ScreenInfo),
    Bios(BiosInfo),
    Disk(SizeText),
    Net(NetInfo),
}

/// The table after the facts of one reading were set.
pub open spec fn reading_facts(
    table: Map<Seq<char>, Seq<char>>,
    reading: Reading,
) -> Map<Seq<char>, Seq<char>> {
    match reading {
        Reading::Os(os) => os_facts(table, os),
        Reading::Kernel(kernel) => kernel_facts(table, kernel),
        Reading::Uptime(uptime) => uptime_facts(table, uptime),
        Reading::Packages(packages) => packages_facts(table, packages),
        Reading::Env(env) => env_facts(table, env),
        Reading::Cpu(cpu) => cpu_facts(table, cpu),
        Reading::Gpu(gpu) => gpu_facts(table, gpu),
        Reading::Memory(memory) => memory_facts(table, memory),
        Reading::Screen(screen) => screen_facts(table, screen),
        Reading::Bios(bios) => bios_facts(table, bios),
        Reading::Disk(disk) => size_facts(table, "disk"@, disk),
        Reading::Net(net) => net_facts(table, net),
    }
}

/// Sets the facts of one reading.
pub fn load_reading(info: &mut SystemInfo, reading: &Reading)
    ensures
        final(info)@ == reading_facts(old(info)@, *reading),
{
    match reading {
        Reading::Os(os) => load_os_info(info, os),
        Reading::Kernel(kernel) => load_kernel_info(info, kernel),
        Reading::Uptime(uptime) => load_uptime_info(info, *uptime),
        Reading::Packages(packages) => load_packages_info(info, packages),
        Reading::Env(env) => load_env_info(info, env),
        Reading::Cpu(cpu) => load_cpu_info(info, cpu),
        Reading::Gpu(gpu) => load_gpu_info(info, gpu),
        Reading::Memory(memory) => load_memory_info(info, memory),
        Reading::Screen(screen) => load_screen_info(info, screen),
        Reading::Bios(bios) => load_bios_info(info, bios),
        Reading::Disk(disk) => load_disk_info(info, disk),
        Reading::Net(net) => load_net_info(info, net),
    }
}

/// How the command of a custom module ended: whether it could be started,
/// whether it then exited with status zero, and what it printed.
pub struct CustomOutput {
    pub key: String,
    pub started: bool,
    pub succeeded: bool,
    pub stdout: String,
}

/// The table after one custom module: a command that ran and exited with
/// status zero sets `custom_<key>` to what it printed, without the white space
/// at either end. Any other leaves the table as it was.
pub open spec fn custom_facts(
    table: Map<Seq<char>, Seq<char>>,
    output: CustomOutput,
) -> Map<Seq<char>, Seq<char>> {
    if output.started && output.succeeded {
        table.insert("custom_"@ + output.key@, trimmed(output.stdout@))
    } else {
        table
    }
}

/// Sets the fact of one custom module, if its command succeeded.
pub fn load_custom_info(info: &mut SystemInfo, output: &CustomOutput)
    ensures
        final(info)@ == custom_facts(old(info)@, *output),
{
    if output.started && output.succeeded {
        info.insert(joined("custom_", output.key.as_str()), trim_text(output.stdout.as_str()));
    }
}

/// The table after the facts of each reading were set, in order.
pub open spec fn all_reading_facts(
    table: Map<Seq<char>, Seq<char>>,
    readings: Seq<Reading>,
) -> Map<Seq<char>, Seq<char>>
    decreases readings.len(),
{
    if readings.len() == 0 {
        table
    } else {
        reading_facts(all_reading_facts(table, readings.drop_last()), readings.last())
    }
}

/// The table after each custom module, in order.
pub open spec fn all_custom_facts(
    table: Map<Seq<char>, Seq<char>>,
    outputs: Seq<CustomOutput>,
) -> Map<Seq<char>, Seq<char>>
    decreases outputs.len(),
{
    if outputs.len() == 0 {
        table
    } else {
        custom_facts(all_custom_facts(table, outputs.drop_last()), outputs.last())
    }
}

/// Builds the fact table of a run: the facts of the readings in their order, a
/// later one replacing an earlier one of the same name, and then the facts of
/// the custom modules.
pub fn get_system_info(readings: &[Reading], outputs: &[CustomOutput]) -> (info: SystemInfo)
    ensures
        info@ == all_custom_facts(
            all_reading_facts(Map::<Seq<char>, Seq<char>>::empty(), readings@),
            outputs@,
        ),
{
    let mut info = SystemInfo::new();
    let ghost empty = info@;
    let mut i: usize = 0;
    while i < readings.len()
        invariant
            i <= readings@.len(),
            info@ == all_reading_facts(empty, readings@.take(i as int)),
        decreases readings@.len() - i,
    {
        proof {
            let upto = readings@.take(i + 1);
            assert(upto.drop_last() =~= readings@.take(i as int));
            assert(upto.last() == readings@[i as int]);
        }
        load_reading(&mut info, &readings[i]);
        i += 1;
    }
    assert(readings@.take(i as int) =~= readings@);
    let ghost read = info@;
    let mut j: usize = 0;
    while j < outputs.len()
        invariant
            j <= outputs@.len(),
            info@ == all_custom_facts(read, outputs@.take(j as int)),
        decreases outputs@.len() - j,
    {
        proof {
            let upto = outputs@.take(j + 1);
            assert(upto.drop_last() =~= outputs@.take(j as int));
            assert(upto.last() == outputs@[j as int]);
        }
        load_custom_info(&mut info, &outputs[j]);
        j += 1;
    }
    assert(outputs@.take(j as int) =~= outputs@);
    info
}

/// A custom module whose command did not start, or did not exit with status
/// zero, leaves every fact as it was and adds none.
pub proof fn lemma_failed_custom_adds_nothing(
    table: Map<Seq<char>, Seq<char>>,
    output: CustomOutput,
)
    requires
        !output.started || !output.succeeded,
    ensures
        custom_facts(table, output) == table,
{
}

/// A module that is run later replaces the facts of the same name that an
/// earlier one has set, and leaves the others.
pub proof fn lemma_last_write_wins(
    table: Map<Seq<char>, Seq<char>>,
    key: Seq<char>,
    first: Seq<char>,
    second: Seq<char>,
)
    ensures
        table.insert(key, first).insert(key, second) == table.insert(key, second),
{
    assert(table.insert(key, first).insert(key, second) =~= table.insert(key, second));
}

/// A name that stands for no module changes nothing in what is run.
pub proof fn lemma_unknown_module_ignored(names: Seq<Seq<char>>, name: Seq<char>)
    requires
        module_named(name) is None,
    ensures
        known_modules(names.push(name)) == known_modules(names),
{
    assert(names.push(name).drop_last() =~= names);
}

} // verus!
