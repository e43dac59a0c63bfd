//! The configuration that a run is made with, and its built-in defaults.

use crate::text::{text_eq, texts};
use vstd::prelude::*;

verus! {

/// One color name with the keyword of the color that it stands for.
#[derive(Debug, Clone)]
pub struct ColorEntry {
    pub name: String,
    pub keyword: String,
}

/// The color names that templates may use, each with the keyword of the color
/// that it stands for. The entries are kept in the order in which they were
/// made; of two entries with one name the later one counts.
#[derive(Debug, Clone)]
pub struct Palette {
    entries: Vec<ColorEntry>,
}

/// The map that a list of entries stands for.
pub open spec fn palette_map(entries: Seq<ColorEntry>) -> Map<Seq<char>, Seq<char>>
    decreases entries.len(),
{
    if entries.len() == 0 {
        Map::empty()
    } else {
        palette_map(entries.drop_last()).insert(entries.last().name@, entries.last().keyword@)
    }
}

/// Entries behind the `k`-th that have another name do not change what `name` stands for.
proof fn lemma_palette_map_tail(entries: Seq<ColorEntry>, k: int, name: Seq<char>)
    requires
        0 <= k <= entries.len(),
        forall|j: int| k <= j < entries.len() ==> (#[trigger] entries[j]).name@ != name,
    ensures
        palette_map(entries).contains_key(name) == palette_map(entries.take(k)).contains_key(name),
        palette_map(entries).contains_key(name) ==> palette_map(entries)[name] == palette_map(
            entries.take(k),
        )[name],
    decreases entries.len() - k,
{
    if k == entries.len() {
        assert(entries.take(k) =~= entries);
    } else {
        assert(entries.last() == entries[entries.len() - 1]);
        lemma_palette_map_tail(entries.drop_last(), k, name);
        assert(entries.drop_last().take(k) =~= entries.take(k));
    }
}

impl View for Palette {
    type V = Map<Seq<char>, Seq<char>>;

    /// The palette as a map from a color name to its keyword.
    closed spec fn view(&self) -> Map<Seq<char>, Seq<char>> {
        palette_map(self.entries@)
    }
}

impl Palette {
    /// A palette without names.
    pub fn new() -> (palette: Palette)
        ensures
            palette@ == Map::<Seq<char>, Seq<char>>::empty(),
            palette.entries_view() == Seq::<ColorEntry>::empty(),
    {
        Palette { entries: Vec::new() }
    }

    /// The entries in the order in which they were made.
    pub closed spec fn entries_view(&self) -> Seq<ColorEntry> {
        self.entries@
    }

    /// The palette is the map that its entries stand for.
    pub proof fn lemma_view_of_entries(&self)
        ensures
            self@ == palette_map(self.entries_view()),
    {
    }

    /// The entries in the order in which they were made.
    pub fn entries(&self) -> (entries: &Vec<ColorEntry>)
        ensures
            entries@ == self.entries_view(),
    {
        &self.entries
    }

    /// The keyword that a color name stands for.
    pub fn get(&self, name: &str) -> (found: Option<&String>)
        ensures
            match found {
                Some(keyword) => self@.contains_key(name@) && keyword@ == self@[name@],
                None => !self@.contains_key(name@),
            },
    {
        let mut i: usize = self.entries.len();
        while i > 0
            invariant
                i <= self.entries@.len(),
                forall|j: int|
                    i <= j < self.entries@.len() ==> (#[trigger] self.entries@[j]).name@ != name@,
            decreases i,
        {
            i -= 1;
            if text_eq(self.entries[i].name.as_str(), name) {
                proof {
                    lemma_palette_map_tail(self.entries@, i + 1, name@);
                    let upto = self.entries@.take(i + 1);
                    assert(upto.last() == self.entries@[i as int]);
                }
                return Some(&self.entries[i].keyword);
            }
        }
        proof {
            lemma_palette_map_tail(self.entries@, 0, name@);
        }
        None
    }

    /// Binds a color name to a keyword, replacing the keyword that it had before.
    pub fn insert(&mut self, name: String, keyword: String)
        ensures
            final(self)@ == old(self)@.insert(name@, keyword@),
            final(self).entries_view() == old(self).entries_view().push(
                (ColorEntry { name, keyword }),
            ),
    {
        self.entries.push(ColorEntry { name, keyword });
        assert(self.entries@.drop_last() =~= old(self).entries@);
    }
}

/// General settings: which logo to show and how lines are laid out beside it.
#[derive(Debug, Clone)]
pub struct GeneralConfig {
    pub logo: String,
    pub logo_path: Option<String>,
    pub separator: String,
    pub padding: usize,
}

/// A user-defined module: the fact `custom_<key>` is what `command` prints.
#[derive(Debug, Clone)]
pub struct CustomModule {
    pub key: String,
    pub command: String,
}

/// The modules to run: built-in ones by name, and custom commands.
#[derive(Debug, Clone)]
pub struct ModulesConfig {
    pub enabled: Vec<String>,
    pub custom: Vec<CustomModule>,
}

/// The template lines of the output, one per row.
#[derive(Debug, Clone)]
pub struct LayoutConfig {
    pub lines: Vec<String>,
}

/// Everything a run is configured with.
#[derive(Debug, Clone)]
pub struct Config {
    pub general: GeneralConfig,
    pub colors: Palette,
    pub modules: ModulesConfig,
    pub layout: LayoutConfig,
}

/// The colors of the built-in configuration.
pub open spec fn default_colors() -> Map<Seq<char>, Seq<char>> {
    Map::<Seq<char>, Seq<char>>::empty().insert(
        "color_1"@,
        "bright_red"@,
    ).insert(
        "color_2"@,
        "bright_green"@,
    ).insert(
        "color_3"@,
        "bright_yellow"@,
    ).insert(
        "color_4"@,
        "bright_blue"@,
    ).insert(
        "color_5"@,
        "bright_magenta"@,
    ).insert(
        "color_6"@,
        "bright_cyan"@,
    ).insert(
        "color_reset"@,
        "reset"@,
    )
}

/// The module names that the built-in configuration enables.
pub open spec fn default_modules() -> Seq<Seq<char>> {
    seq!["os"@, "kernel"@, "uptime"@, "packages"@, "shell"@, "cpu"@, "gpu"@, "memory"@]
}

/// The template lines of the built-in configuration.
pub open spec fn default_layout() -> Seq<Seq<char>> {
    seq![
        "{color_1}{os_name}{color_reset}"@,
        "{color_2}Kernel{color_reset}{separator}{kernel_version}"@,
        "{color_3}Host{color_reset}{separator}{os_hostname}"@,
        "{color_4}Uptime{color_reset}{separator}{uptime}"@,
        "{color_5}CPU{color_reset}{separator}{cpu_model}"@,
        "{color_6}Memory{color_reset}{separator}{memory_used}/{memory_total}"@,
    ]
}

impl Config {
    /// The built-in configuration, which is used where no file gives one.
    pub fn default() -> (config: Config)
        ensures
            config.general.logo@ == "linux"@,
            config.general.logo_path is None,
            config.general.separator@ == ": "@,
            config.general.padding == 2,
            config.colors@ == default_colors(),
            texts(config.modules.enabled@) == default_modules(),
            config.modules.custom@.len() == 0,
            texts(config.layout.lines@) == default_layout(),
    {
        let mut colors = Palette::new();
        colors.insert(String::from_str("color_1"), String::from_str("bright_red"));
        colors.insert(String::from_str("color_2"), String::from_str("bright_green"));
        colors.insert(String::from_str("color_3"), String::from_str("bright_yellow"));
        colors.insert(String::from_str("color_4"), String::from_str("bright_blue"));
        colors.insert(String::from_str("color_5"), String::from_str("bright_magenta"));
        colors.insert(String::from_str("color_6"), String::from_str("bright_cyan"));
        colors.insert(String::from_str("color_reset"), String::from_str("reset"));
        let enabled = vec![
            String::from_str("os"),
            String::from_str("kernel"),
            String::from_str("uptime"),
            String::from_str("packages"),
            String::from_str("shell"),
            String::from_str("cpu"),
            String::from_str("gpu"),
            String::from_str("memory"),
        ];
        let lines = vec![
            String::from_str("{color_1}{os_name}{color_reset}"),
            String::from_str("{color_2}Kernel{color_reset}{separator}{kernel_version}"),
            String::from_str("{color_3}Host{color_reset}{separator}{os_hostname}"),
            String::from_str("{color_4}Uptime{color_reset}{separator}{uptime}"),
            String::from_str("{color_5}CPU{color_reset}{separator}{cpu_model}"),
            String::from_str("{color_6}Memory{color_reset}{separator}{memory_used}/{memory_total}"),
        ];
        assert(texts(enabled@) =~= default_modules());
        assert(texts(lines@) =~= default_layout());
        Config {
            general: GeneralConfig {
                logo: String::from_str("linux"),
                logo_path: None,
                separator: String::from_str(": "),
                padding: 2,
            },
            colors,
            modules: ModulesConfig { enabled, custom: Vec::new() },
            layout: LayoutConfig { lines },
        }
    }
}

} // verus!
