//! The configuration: its defaults, how a TOML document overrides them, how
//! the configuration files are searched, and how imported art is written
//! into a configuration document.

use vstd::prelude::*;

use crate::document::{
    new_table, parse_table, table_contains_key, table_get, table_insert, table_items,
    table_remove, table_value, value_as_bool, value_as_integer, value_as_str, value_as_table,
    value_into_table, string_value, write_table, no_items, parsed_items, written_text, TomlItem,
};
use crate::text::owned;

verus! {

/// Which information lines are shown.
#[derive(Clone, Copy, Debug, PartialEq, Eq)]
pub struct DisplayConfig {
    pub show_username: bool,
    pub show_host: bool,
    pub show_os: bool,
    pub show_kernel: bool,
    pub show_uptime: bool,
    pub show_cpu: bool,
    pub show_memory: bool,
    pub show_gpu: bool,
    pub show_shell: bool,
    pub show_rust: bool,
}

/// The ASCII art beside the information.
#[derive(Clone, Debug)]
pub struct AsciiConfig {
    pub art_style: String,
    pub color: String,
    pub art_width: usize,
    pub custom_art: Option<String>,
    pub custom_art_path: Option<String>,
}

/// How the information lines are written.
#[derive(Clone, Debug)]
pub struct FormatConfig {
    pub info_prefix: String,
    pub info_color: String,
    pub label_color: String,
    pub title_color: String,
    pub max_width: usize,
}

/// The whole configuration.
#[derive(Clone, Debug)]
pub struct Config {
    pub display: DisplayConfig,
    pub ascii: AsciiConfig,
    pub format: FormatConfig,
}

/// An `AsciiConfig` with its strings seen as character sequences.
pub struct AsciiView {
    pub art_style: Seq<char>,
    pub color: Seq<char>,
    pub art_width: usize,
    pub custom_art: Option<Seq<char>>,
    pub custom_art_path: Option<Seq<char>>,
}

/// A `FormatConfig` with its strings seen as character sequences.
pub struct FormatView {
    pub info_prefix: Seq<char>,
    pub info_color: Seq<char>,
    pub label_color: Seq<char>,
    pub title_color: Seq<char>,
    pub max_width: usize,
}

/// A `Config` with its strings seen as character sequences.
pub struct ConfigView {
    pub display: DisplayConfig,
    pub ascii: AsciiView,
    pub format: FormatView,
}

/// The characters of an optional string.
pub open spec fn opt_view(s: Option<String>) -> Option<Seq<char>> {
    match s {
        Some(t) => Some(t@),
        None => None,
    }
}

impl View for AsciiConfig {
    type V = AsciiView;

    open spec fn view(&self) -> AsciiView {
        AsciiView {
            art_style: self.art_style@,
            color: self.color@,
            art_width: self.art_width,
            custom_art: opt_view(self.custom_art),
            custom_art_path: opt_view(self.custom_art_path),
        }
    }
}

impl View for FormatConfig {
    type V = FormatView;

    open spec fn view(&self) -> FormatView {
        FormatView {
            info_prefix: self.info_prefix@,
            info_color: self.info_color@,
            label_color: self.label_color@,
            title_color: self.title_color@,
            max_width: self.max_width,
        }
    }
}

impl View for Config {
    type V = ConfigView;

    open spec fn view(&self) -> ConfigView {
        ConfigView { display: self.display, ascii: self.ascii@, format: self.format@ }
    }
}

// ------------------------------------------------------------------ defaults

/// The configuration used where no configuration file is read.
pub open spec fn default_view() -> ConfigView {
    ConfigView {
        display: DisplayConfig {
            show_username: true,
            show_host: true,
            show_os: true,
            show_kernel: true,
            show_uptime: true,
            show_cpu: true,
            show_memory: true,
            show_gpu: true,
            show_shell: true,
            show_rust: true,
        },
        ascii: AsciiView {
            art_style: seq!['c', 'r', 'a', 'b'],
            color: seq!['r', 'e', 'd'],
            art_width: 16,
            custom_art: None,
            custom_art_path: None,
        },
        format: FormatView {
            info_prefix: seq![],
            info_color: seq!['w', 'h', 'i', 't', 'e'],
            label_color: seq!['y', 'e', 'l', 'l', 'o', 'w'],
            title_color: seq!['r', 'e', 'd'],
            max_width: 60,
        },
    }
}

/// The default configuration.
pub fn default_config() -> (r: Config)
    ensures
        r@ == default_view(),
{
    proof {
        reveal_strlit("crab");
        reveal_strlit("red");
        reveal_strlit("");
        reveal_strlit("white");
        reveal_strlit("yellow");
    }
    let r = Config {
        display: DisplayConfig {
            show_username: true,
            show_host: true,
            show_os: true,
            show_kernel: true,
            show_uptime: true,
            show_cpu: true,
            show_memory: true,
            show_gpu: true,
            show_shell: true,
            show_rust: true,
        },
        ascii: AsciiConfig {
            art_style: owned("crab"),
            color: owned("red"),
            art_width: 16,
            custom_art: None,
            custom_art_path: None,
        },
        format: FormatConfig {
            info_prefix: owned(""),
            info_color: owned("white"),
            label_color: owned("yellow"),
            title_color: owned("red"),
            max_width: 60,
        },
    };
    assert(r@.ascii.art_style =~= seq!['c', 'r', 'a', 'b']);
    assert(r@.ascii.color =~= seq!['r', 'e', 'd']);
    assert(r@.format.info_prefix =~= Seq::<char>::empty());
    assert(r@.format.info_color =~= seq!['w', 'h', 'i', 't', 'e']);
    assert(r@.format.label_color =~= seq!['y', 'e', 'l', 'l', 'o', 'w']);
    assert(r@.format.title_color =~= seq!['r', 'e', 'd']);
    r
}

// ------------------------------------------------- reading a TOML document

/// The table stored under `key`, if the entry there is a table.
pub open spec fn table_entry(m: Map<Seq<char>, TomlItem>, key: Seq<char>) -> Option<
    Map<Seq<char>, TomlItem>,
> {
    if m.contains_key(key) {
        match m[key] {
            TomlItem::Table(t) => Some(t),
            _ => None,
        }
    } else {
        None
    }
}

/// The boolean stored under `key`, if the entry there is a boolean.
pub open spec fn bool_entry(m: Map<Seq<char>, TomlItem>, key: Seq<char>) -> Option<bool> {
    if m.contains_key(key) {
        match m[key] {
            TomlItem::Boolean(b) => Some(b),
            _ => None,
        }
    } else {
        None
    }
}

/// The string stored under `key`, if the entry there is a string.
pub open spec fn text_entry(m: Map<Seq<char>, TomlItem>, key: Seq<char>) -> Option<Seq<char>> {
    if m.contains_key(key) {
        match m[key] {
            TomlItem::Text(s) => Some(s),
            _ => None,
        }
    } else {
        None
    }
}

/// The integer stored under `key`, if the entry there is an integer.
pub open spec fn integer_entry(m: Map<Seq<char>, TomlItem>, key: Seq<char>) -> Option<i64> {
    if m.contains_key(key) {
        match m[key] {
            TomlItem::Integer(i) => Some(i),
            _ => None,
        }
    } else {
        None
    }
}

/// The value that an entry gives, or the default where it gives none.
pub open spec fn or_else<T>(o: Option<T>, default: T) -> T {
    match o {
        Some(v) => v,
        None => default,
    }
}

/// A width from an integer entry: the integer converted to `usize` as `as`
/// does, or the default where the entry gives none.
pub open spec fn width_or(o: Option<i64>, default: usize) -> usize {
    match o {
        Some(i) => i as usize,
        None => default,
    }
}

/// The `[display]` settings of a section over the defaults.
pub open spec fn display_over(s: Map<Seq<char>, TomlItem>, d: DisplayConfig) -> DisplayConfig {
    DisplayConfig {
        show_username: or_else(bool_entry(s, "show_username"@), d.show_username),
        show_host: or_else(bool_entry(s, "show_host"@), d.show_host),
        show_os: or_else(bool_entry(s, "show_os"@), d.show_os),
        show_kernel: or_else(bool_entry(s, "show_kernel"@), d.show_kernel),
        show_uptime: or_else(bool_entry(s, "show_uptime"@), d.show_uptime),
        show_cpu: or_else(bool_entry(s, "show_cpu"@), d.show_cpu),
        show_memory: or_else(bool_entry(s, "show_memory"@), d.show_memory),
        show_gpu: or_else(bool_entry(s, "show_gpu"@), d.show_gpu),
        show_shell: or_else(bool_entry(s, "show_shell"@), d.show_shell),
        show_rust: or_else(bool_entry(s, "show_rust"@), d.show_rust),
    }
}

/// The `[ascii]` settings of a section over the defaults. The two custom art
/// settings take no default: where the section gives none, there is none.
pub open spec fn ascii_over(s: Map<Seq<char>, TomlItem>, d: AsciiView) -> AsciiView {
    AsciiView {
        art_style: or_else(text_entry(s, "art_style"@), d.art_style),
        color: or_else(text_entry(s, "color"@), d.color),
        art_width: width_or(integer_entry(s, "art_width"@), d.art_width),
        custom_art: text_entry(s, "custom_art"@),
        custom_art_path: text_entry(s, "custom_art_path"@),
    }
}

/// The `[format]` settings of a section over the defaults.
pub open spec fn format_over(s: Map<Seq<char>, TomlItem>, d: FormatView) -> FormatView {
    FormatView {
        info_prefix: or_else(text_entry(s, "info_prefix"@), d.info_prefix),
        info_color: or_else(text_entry(s, "info_color"@), d.info_color),
        label_color: or_else(text_entry(s, "label_color"@), d.label_color),
        title_color: or_else(text_entry(s, "title_color"@), d.title_color),
        max_width: width_or(integer_entry(s, "max_width"@), d.max_width),
    }
}

/// The configuration that a document's entries give over the defaults: each
/// of the sections `display`, `ascii` and `format` that is a table overrides
/// its part; a part whose section is missing keeps the defaults whole.
pub open spec fn config_over(m: Map<Seq<char>, TomlItem>, d: ConfigView) -> ConfigView {
    ConfigView {
        display: match table_entry(m, "display"@) {
            Some(s) => display_over(s, d.display),
            None => d.display,
        },
        ascii: match table_entry(m, "ascii"@) {
            Some(s) => ascii_over(s, d.ascii),
            None => d.ascii,
        },
        format: match table_entry(m, "format"@) {
            Some(s) => format_over(s, d.format),
            None => d.format,
        },
    }
}

fn section<'a>(t: &'a toml::Table, key: &str) -> (r: Option<&'a toml::Table>)
    ensures
        r is Some <==> table_entry(table_items(*t), key@) is Some,
        r matches Some(s) ==> table_entry(table_items(*t), key@) == Some(table_items(*s)),
{
    match table_get(t, key) {
        Some(v) => value_as_table(v),
        None => None,
    }
}

fn bool_or(t: &toml::Table, key: &str, default: bool) -> (r: bool)
    ensures
        r == or_else(bool_entry(table_items(*t), key@), default),
{
    match table_get(t, key) {
        Some(v) => match value_as_bool(v) {
            Some(b) => b,
            None => default,
        },
        None => default,
    }
}

fn text_of(t: &toml::Table, key: &str) -> (r: Option<String>)
    ensures
        opt_view(r) == text_entry(table_items(*t), key@),
{
    match table_get(t, key) {
        Some(v) => match value_as_str(v) {
            Some(s) => Some(owned(s)),
            None => None,
        },
        None => None,
    }
}

fn text_or(t: &toml::Table, key: &str, default: &String) -> (r: String)
    ensures
        r@ == or_else(text_entry(table_items(*t), key@), default@),
{
    match text_of(t, key) {
        Some(s) => s,
        None => default.clone(),
    }
}

fn width_of(t: &toml::Table, key: &str, default: usize) -> (r: usize)
    ensures
        r == width_or(integer_entry(table_items(*t), key@), default),
{
    match table_get(t, key) {
        Some(v) => match value_as_integer(v) {
            Some(i) => i as usize,
            None => default,
        },
        None => default,
    }
}

fn display_from(s: &toml::Table, d: &DisplayConfig) -> (r: DisplayConfig)
    ensures
        r == display_over(table_items(*s), *d),
{
    DisplayConfig {
        show_username: bool_or(s, "show_username", d.show_username),
        show_host: bool_or(s, "show_host", d.show_host),
        show_os: bool_or(s, "show_os", d.show_os),
        show_kernel: bool_or(s, "show_kernel", d.show_kernel),
        show_uptime: bool_or(s, "show_uptime", d.show_uptime),
        show_cpu: bool_or(s, "show_cpu", d.show_cpu),
        show_memory: bool_or(s, "show_memory", d.show_memory),
        show_gpu: bool_or(s, "show_gpu", d.show_gpu),
        show_shell: bool_or(s, "show_shell", d.show_shell),
        show_rust: bool_or(s, "show_rust", d.show_rust),
    }
}

fn ascii_from(s: &toml::Table, d: &AsciiConfig) -> (r: AsciiConfig)
    ensures
        r@ == ascii_over(table_items(*s), d@),
{
    AsciiConfig {
        art_style: text_or(s, "art_style", &d.art_style),
        color: text_or(s, "color", &d.color),
        art_width: width_of(s, "art_width", d.art_width),
        custom_art: text_of(s, "custom_art"),
        custom_art_path: text_of(s, "custom_art_path"),
    }
}

fn format_from(s: &toml::Table, d: &FormatConfig) -> (r: FormatConfig)
    ensures
        r@ == format_over(table_items(*s), d@),
{
    FormatConfig {
        info_prefix: text_or(s, "info_prefix", &d.info_prefix),
        info_color: text_or(s, "info_color", &d.info_color),
        label_color: text_or(s, "label_color", &d.label_color),
        title_color: text_or(s, "title_color", &d.title_color),
        max_width: width_of(s, "max_width", d.max_width),
    }
}

fn clone_ascii(a: &AsciiConfig) -> (r: AsciiConfig)
    ensures
        r@ == a@,
{
    AsciiConfig {
        art_style: a.art_style.clone(),
        color: a.color.clone(),
        art_width: a.art_width,
        custom_art: match &a.custom_art {
            Some(s) => Some(s.clone()),
            None => None,
        },
        custom_art_path: match &a.custom_art_path {
            Some(s) => Some(s.clone()),
            None => None,
        },
    }
}

fn clone_format(f: &FormatConfig) -> (r: FormatConfig)
    ensures
        r@ == f@,
{
    FormatConfig {
        info_prefix: f.info_prefix.clone(),
        info_color: f.info_color.clone(),
        label_color: f.label_color.clone(),
        title_color: f.title_color.clone(),
        max_width: f.max_width,
    }
}

/// The configuration that a parsed TOML document gives over the defaults.
pub fn parse_config(toml_table: &toml::Table, default_config: &Config) -> (r: Config)
    ensures
        r@ == config_over(table_items(*toml_table), default_config@),
{
    let display = match section(toml_table, "display") {
        Some(s) => display_from(s, &default_config.display),
        None => default_config.display,
    };
    let ascii = match section(toml_table, "ascii") {
        Some(s) => ascii_from(s, &default_config.ascii),
        None => clone_ascii(&default_config.ascii),
    };
    let format = match section(toml_table, "format") {
        Some(s) => format_from(s, &default_config.format),
        None => clone_format(&default_config.format),
    };
    Config { display, ascii, format }
}

/// The configuration that a configuration file's text gives over the
/// defaults, or `None` where the text is no TOML document.
pub fn config_from_text(content: &str, default_config: &Config) -> (r: Option<Config>)
    ensures
        r is None <==> parsed_items(content@) is None,
        r matches Some(c) ==> c@ == config_over(parsed_items(content@)->0, default_config@),
{
    match parse_table(content) {
        Some(t) => Some(parse_config(&t, default_config)),
        None => None,
    }
}

// -------------------------------------------------- searching config files

/// What reading one candidate configuration file gave.
pub enum CandidateRead {
    /// No file stands at the candidate path.
    Missing,
    /// A file stands there but could not be read.
    Unreadable,
    /// The file's text.
    Text(String),
}

/// What the search does after a candidate.
pub enum SearchStep {
    /// Stop: this is the configuration.
    Use(Config),
    /// Report that the file could not be read, then try the next candidate.
    ReportAndContinue,
    /// Try the next candidate.
    Continue,
}

/// The decision after one candidate configuration file: the first file
/// that holds a TOML document gives the configuration; a file that cannot be
/// read is reported; a missing file, or one that holds no TOML document, is
/// passed over in silence. When no candidate is left, the defaults stand.
pub fn after_candidate(read: CandidateRead, default_config: &Config) -> (r: SearchStep)
    ensures
        match read {
            CandidateRead::Missing => r is Continue,
            CandidateRead::Unreadable => r is ReportAndContinue,
            CandidateRead::Text(s) => match parsed_items(s@) {
                Some(m) => r matches SearchStep::Use(c) && c@ == config_over(m, default_config@),
                None => r is Continue,
            },
        },
{
    match read {
        CandidateRead::Missing => SearchStep::Continue,
        CandidateRead::Unreadable => SearchStep::ReportAndContinue,
        CandidateRead::Text(s) => match config_from_text(s.as_str(), default_config) {
            Some(c) => SearchStep::Use(c),
            None => SearchStep::Continue,
        },
    }
}

// ------------------------------------------------------------ importing art

/// An `ascii` section with imported art: its `art_style` becomes `"custom"`
/// and its `custom_art` the art; its other entries stay.
pub open spec fn section_with_art(s: Map<Seq<char>, TomlItem>, art: Seq<char>) -> Map<
    Seq<char>,
    TomlItem,
> {
    s.insert("art_style"@, TomlItem::Text("custom"@)).insert("custom_art"@, TomlItem::Text(art))
}

/// The entries of a configuration document after art is imported into it:
/// the `ascii` entry becomes a table with the imported art. Where the
/// `ascii` entry was a table, its other entries stay; where it was missing
/// or was no table, the new table holds the imported art alone. Every other
/// entry stays as it was.
pub open spec fn imported_items(m: Map<Seq<char>, TomlItem>, art: Seq<char>) -> Map<
    Seq<char>,
    TomlItem,
> {
    let section = match table_entry(m, "ascii"@) {
        Some(s) => s,
        None => no_items(),
    };
    m.insert("ascii"@, TomlItem::Table(section_with_art(section, art)))
}

/// Writes imported art into a configuration document.
pub fn import_art_into(doc: &mut toml::Table, art: String)
    ensures
        table_items(*final(doc)) == imported_items(table_items(*old(doc)), art@),
{
    let mut section = match table_remove(doc, "ascii") {
        Some(v) => match value_into_table(v) {
            Ok(s) => s,
            Err(_) => new_table(),
        },
        None => new_table(),
    };
    table_insert(&mut section, owned("art_style"), string_value(owned("custom")));
    table_insert(&mut section, owned("custom_art"), string_value(art));
    table_insert(doc, owned("ascii"), table_value(section));
    assert(table_items(*doc) =~= imported_items(table_items(*old(doc)), art@));
}

/// The characters of an optional string slice.
pub open spec fn opt_str_view(s: Option<&str>) -> Option<Seq<char>> {
    match s {
        Some(t) => Some(t@),
        None => None,
    }
}

/// The entries of the configuration document that art is imported into:
/// those of the existing file where it holds a TOML document, and none where
/// there is no file or its text is no TOML document.
pub open spec fn import_base(existing: Option<Seq<char>>) -> Map<Seq<char>, TomlItem> {
    match existing {
        Some(text) => match parsed_items(text) {
            Some(m) => m,
            None => no_items(),
        },
        None => no_items(),
    }
}

/// Why imported art could not be written.
#[derive(Debug)]
pub enum ImportError {
    /// The updated document could not be written as TOML text; the error is
    /// the one `toml` gave.
    Unwritable(toml::ser::Error),
}

/// The new text of the configuration file after art is imported, from the
/// text of the existing file (`None` where there is none).
pub fn imported_config_text(existing: Option<&str>, art: String) -> (r: Result<
    String,
    ImportError,
>)
    ensures
        exists|doc: toml::Table|
            {
                &&& table_items(doc) == imported_items(import_base(opt_str_view(existing)), art@)
                &&& match r {
                    Ok(s) => written_text(doc) == Some(s@),
                    Err(e) => e is Unwritable && written_text(doc) is None,
                }
            },
{
    let mut doc = match existing {
        Some(text) => match parse_table(text) {
            Some(t) => t,
            None => new_table(),
        },
        None => new_table(),
    };
    assert(table_items(doc) == import_base(opt_str_view(existing)));
    import_art_into(&mut doc, art);
    let r = match write_table(&doc) {
        Ok(s) => Ok(s),
        Err(e) => Err(ImportError::Unwritable(e)),
    };
    assert(table_items(doc) == imported_items(import_base(opt_str_view(existing)), art@)
        && match r {
        Ok(s) => written_text(doc) == Some(s@),
        Err(e) => e is Unwritable && written_text(doc) is None,
    });
    r
}

/// Art imported into a configuration document is what the configuration read
/// back from that document shows: its custom art is the art and its art
/// style is `"custom"`, while its display and format settings, its art
/// colour and its art width are those the document gave before.
pub proof fn imported_art_is_read_back(m: Map<Seq<char>, TomlItem>, art: Seq<char>, d: ConfigView)
    ensures
        config_over(imported_items(m, art), d).ascii.custom_art == Some(art),
        config_over(imported_items(m, art), d).ascii.art_style == "custom"@,
        config_over(imported_items(m, art), d).ascii.color == config_over(m, d).ascii.color,
        config_over(imported_items(m, art), d).ascii.art_width == config_over(m, d).ascii.art_width,
        config_over(imported_items(m, art), d).display == config_over(m, d).display,
        config_over(imported_items(m, art), d).format == config_over(m, d).format,
{
    key_facts();
    let m2 = imported_items(m, art);
    assert(m2.contains_key("ascii"@));
    assert(table_entry(m2, "display"@) == table_entry(m, "display"@));
    assert(table_entry(m2, "format"@) == table_entry(m, "format"@));
}

/// Importing art changes nothing but the art: every entry other than `ascii`
/// keeps its key and value, and where `ascii` was a table, each of its
/// entries other than `art_style` and `custom_art` keeps its value, and it
/// gains no others.
pub proof fn import_keeps_other_entries(m: Map<Seq<char>, TomlItem>, art: Seq<char>)
    ensures
        forall|k: Seq<char>|
            k != "ascii"@ ==> (#[trigger] imported_items(m, art).contains_key(k) <==> m.contains_key(k)),
        forall|k: Seq<char>|
            k != "ascii"@ && m.contains_key(k) ==> #[trigger] imported_items(m, art)[k] == m[k],
        forall|s: Map<Seq<char>, TomlItem>, k: Seq<char>|
            table_entry(m, "ascii"@) == Some(s) && k != "art_style"@ && k != "custom_art"@ ==> (
            #[trigger] section_with_art(s, art).contains_key(k) <==> s.contains_key(k)),
        forall|s: Map<Seq<char>, TomlItem>, k: Seq<char>|
            table_entry(m, "ascii"@) == Some(s) && k != "art_style"@ && k != "custom_art"@
                && s.contains_key(k) ==> #[trigger] section_with_art(s, art)[k] == s[k],
        imported_items(m, art)["ascii"@] == TomlItem::Table(
            section_with_art(
                match table_entry(m, "ascii"@) {
                    Some(s) => s,
                    None => no_items(),
                },
                art,
            ),
        ),
{
}

/// Importing the same art twice leaves the document as importing it once.
pub proof fn import_is_idempotent(m: Map<Seq<char>, TomlItem>, art: Seq<char>)
    ensures
        imported_items(imported_items(m, art), art) == imported_items(m, art),
{
    key_facts();
    let m1 = imported_items(m, art);
    let s = match table_entry(m, "ascii"@) {
        Some(s) => s,
        None => no_items(),
    };
    assert(table_entry(m1, "ascii"@) == Some(section_with_art(s, art)));
    assert(section_with_art(section_with_art(s, art), art) =~= section_with_art(s, art));
    assert(imported_items(m1, art) =~= m1);
}

/// Art imported into an existing configuration file builds on what that file
/// holds: where its text is a TOML document, every entry of the document
/// other than `ascii` is kept with its value, and where its `ascii` entry is
/// a table, every entry of that table other than `art_style` and
/// `custom_art` is kept too. Where there is no file, or its text is no TOML
/// document, the result holds the `ascii` table alone. Either way the
/// `ascii` entry is a table whose `art_style` is `"custom"` and whose
/// `custom_art` is the art.
pub proof fn import_builds_on_the_existing_file(existing: Option<Seq<char>>, art: Seq<char>)
    ensures
        ({
            let r = imported_items(import_base(existing), art);
            &&& r.contains_key("ascii"@)
            &&& r["ascii"@] is Table
            &&& r["ascii"@]->Table_0.contains_key("art_style"@)
            &&& r["ascii"@]->Table_0["art_style"@] == TomlItem::Text("custom"@)
            &&& r["ascii"@]->Table_0.contains_key("custom_art"@)
            &&& r["ascii"@]->Table_0["custom_art"@] == TomlItem::Text(art)
        }),
        existing is Some && parsed_items(existing->0) is Some ==> {
            let m = parsed_items(existing->0)->0;
            let r = imported_items(import_base(existing), art);
            &&& forall|k: Seq<char>|
                k != "ascii"@ ==> (#[trigger] r.contains_key(k) <==> m.contains_key(k))
            &&& forall|k: Seq<char>| k != "ascii"@ && m.contains_key(k) ==> #[trigger] r[k] == m[k]
            &&& (m.contains_key("ascii"@) && m["ascii"@] is Table) ==> forall|k: Seq<char>|
                k != "art_style"@ && k != "custom_art"@ && #[trigger] m["ascii"@]->Table_0.contains_key(k)
                    ==> r["ascii"@]->Table_0.contains_key(k) && r["ascii"@]->Table_0[k]
                    == m["ascii"@]->Table_0[k]
        },
        existing is None || parsed_items(existing->0) is None ==> imported_items(
            import_base(existing),
            art,
        ).dom() == set!["ascii"@],
{
    key_facts();
    let r = imported_items(import_base(existing), art);
    if existing is None || parsed_items(existing->0) is None {
        assert(r.dom() =~= set!["ascii"@]);
    }
}

proof fn key_facts()
    ensures
        "ascii"@.len() != "display"@.len(),
        "ascii"@.len() != "format"@.len(),
        "custom_art"@.len() != "art_style"@.len(),
        "color"@.len() != "art_style"@.len() && "color"@.len() != "custom_art"@.len(),
        "art_width"@[4] != "art_style"@[4] && "art_width"@.len() != "custom_art"@.len(),
        "display"@.len() != "format"@.len(),
{
    reveal_strlit("ascii");
    reveal_strlit("display");
    reveal_strlit("format");
    reveal_strlit("art_style");
    reveal_strlit("custom_art");
    reveal_strlit("color");
    reveal_strlit("art_width");
}

/// The keys that the configuration reads in a section.
pub open spec fn read_keys(section: Seq<char>) -> Set<Seq<char>> {
    if section == "display"@ {
        set![
            "show_username"@,
            "show_host"@,
            "show_os"@,
            "show_kernel"@,
            "show_uptime"@,
            "show_cpu"@,
            "show_memory"@,
            "show_gpu"@,
            "show_shell"@,
            "show_rust"@,
        ]
    } else if section == "ascii"@ {
        set!["art_style"@, "color"@, "art_width"@, "custom_art"@, "custom_art_path"@]
    } else if section == "format"@ {
        set!["info_prefix"@, "info_color"@, "label_color"@, "title_color"@, "max_width"@]
    } else {
        Set::empty()
    }
}

/// The names of the sections that the configuration reads.
pub open spec fn is_section_name(k: Seq<char>) -> bool {
    k == "display"@ || k == "ascii"@ || k == "format"@
}

/// `s2` holds the entries of `s1` and, beyond them, only entries under keys
/// outside `known`.
pub open spec fn adds_unread(s1: Map<Seq<char>, TomlItem>, s2: Map<Seq<char>, TomlItem>, known: Set<Seq<char>>) -> bool {
    &&& forall|k: Seq<char>| #[trigger] s1.contains_key(k) ==> s2.contains_key(k) && s2[k] == s1[k]
    &&& forall|k: Seq<char>| #[trigger] s2.contains_key(k) && !s1.contains_key(k) ==> !known.contains(k)
}

/// `m2` is the document `m1` with entries added that the configuration does
/// not read: top-level entries under other names than the sections, and,
/// inside a section table that `m1` has, entries under keys the section
/// does not read.
pub open spec fn extends_unread(m1: Map<Seq<char>, TomlItem>, m2: Map<Seq<char>, TomlItem>) -> bool {
    &&& forall|k: Seq<char>| #[trigger] m2.contains_key(k) && !m1.contains_key(k) ==> !is_section_name(k)
    &&& forall|k: Seq<char>|
        #[trigger] m1.contains_key(k) ==> m2.contains_key(k) && match m1[k] {
            TomlItem::Table(s1) => if is_section_name(k) {
                m2[k] matches TomlItem::Table(s2) && adds_unread(s1, s2, read_keys(k))
            } else {
                m2[k] == m1[k]
            },
            _ => m2[k] == m1[k],
        }
}

proof fn same_at(s1: Map<Seq<char>, TomlItem>, s2: Map<Seq<char>, TomlItem>, known: Set<Seq<char>>, r: Seq<char>)
    requires
        adds_unread(s1, s2, known),
        known.contains(r),
    ensures
        bool_entry(s2, r) == bool_entry(s1, r),
        text_entry(s2, r) == text_entry(s1, r),
        integer_entry(s2, r) == integer_entry(s1, r),
{
    if s2.contains_key(r) && !s1.contains_key(r) {
        assert(!known.contains(r));
    }
    if s1.contains_key(r) {
        assert(s2[r] == s1[r]);
    }
}

proof fn section_read_alike(m1: Map<Seq<char>, TomlItem>, m2: Map<Seq<char>, TomlItem>, k: Seq<char>)
    requires
        extends_unread(m1, m2),
        is_section_name(k),
    ensures
        table_entry(m1, k) is Some <==> table_entry(m2, k) is Some,
        table_entry(m1, k) is Some ==> adds_unread(table_entry(m1, k)->0, table_entry(m2, k)->0, read_keys(k)),
{
    if m1.contains_key(k) {
        assert(m2.contains_key(k));
    } else if m2.contains_key(k) {
        assert(!is_section_name(k));
    }
}

/// Entries that the configuration does not read change nothing: a document
/// with such entries added gives the same configuration.
pub proof fn unread_entries_change_nothing(m1: Map<Seq<char>, TomlItem>, m2: Map<Seq<char>, TomlItem>, d: ConfigView)
    requires
        extends_unread(m1, m2),
    ensures
        config_over(m2, d) == config_over(m1, d),
{
    key_facts();
    section_read_alike(m1, m2, "display"@);
    section_read_alike(m1, m2, "ascii"@);
    section_read_alike(m1, m2, "format"@);
    if table_entry(m1, "display"@) is Some {
        let s1 = table_entry(m1, "display"@)->0;
        let s2 = table_entry(m2, "display"@)->0;
        let known = read_keys("display"@);
        same_at(s1, s2, known, "show_username"@);
        same_at(s1, s2, known, "show_host"@);
        same_at(s1, s2, known, "show_os"@);
        same_at(s1, s2, known, "show_kernel"@);
        same_at(s1, s2, known, "show_uptime"@);
        same_at(s1, s2, known, "show_cpu"@);
        same_at(s1, s2, known, "show_memory"@);
        same_at(s1, s2, known, "show_gpu"@);
        same_at(s1, s2, known, "show_shell"@);
        same_at(s1, s2, known, "show_rust"@);
        assert(display_over(s2, d.display) == display_over(s1, d.display));
    }
    if table_entry(m1, "ascii"@) is Some {
        let s1 = table_entry(m1, "ascii"@)->0;
        let s2 = table_entry(m2, "ascii"@)->0;
        let known = read_keys("ascii"@);
        same_at(s1, s2, known, "art_style"@);
        same_at(s1, s2, known, "color"@);
        same_at(s1, s2, known, "art_width"@);
        same_at(s1, s2, known, "custom_art"@);
        same_at(s1, s2, known, "custom_art_path"@);
        assert(ascii_over(s2, d.ascii) == ascii_over(s1, d.ascii));
    }
    if table_entry(m1, "format"@) is Some {
        let s1 = table_entry(m1, "format"@)->0;
        let s2 = table_entry(m2, "format"@)->0;
        let known = read_keys("format"@);
        same_at(s1, s2, known, "info_prefix"@);
        same_at(s1, s2, known, "info_color"@);
        same_at(s1, s2, known, "label_color"@);
        same_at(s1, s2, known, "title_color"@);
        same_at(s1, s2, known, "max_width"@);
        assert(format_over(s2, d.format) == format_over(s1, d.format));
    }
}

/// Where the document's `display` entry is a table, each display setting is the
/// boolean stored under its name there, or the default where no boolean is;
/// where it is no table, the display settings are the defaults.
pub proof fn display_settings_are_read(m: Map<Seq<char>, TomlItem>, d: ConfigView)
    ensures
        m.contains_key("display"@) && m["display"@] is Table ==> {
            let s = m["display"@]->Table_0;
            &&& config_over(m, d).display.show_username == if s.contains_key("show_username"@) && s["show_username"@] is Boolean {
                s["show_username"@]->Boolean_0
            } else {
                d.display.show_username
            }
            &&& config_over(m, d).display.show_host == if s.contains_key("show_host"@) && s["show_host"@] is Boolean {
                s["show_host"@]->Boolean_0
            } else {
                d.display.show_host
            }
            &&& config_over(m, d).display.show_os == if s.contains_key("show_os"@) && s["show_os"@] is Boolean {
                s["show_os"@]->Boolean_0
            } else {
                d.display.show_os
            }
            &&& config_over(m, d).display.show_kernel == if s.contains_key("show_kernel"@) && s["show_kernel"@] is Boolean {
                s["show_kernel"@]->Boolean_0
            } else {
                d.display.show_kernel
            }
            &&& config_over(m, d).display.show_uptime == if s.contains_key("show_uptime"@) && s["show_uptime"@] is Boolean {
                s["show_uptime"@]->Boolean_0
            } else {
                d.display.show_uptime
            }
            &&& config_over(m, d).display.show_cpu == if s.contains_key("show_cpu"@) && s["show_cpu"@] is Boolean {
                s["show_cpu"@]->Boolean_0
            } else {
                d.display.show_cpu
            }
            &&& config_over(m, d).display.show_memory == if s.contains_key("show_memory"@) && s["show_memory"@] is Boolean {
                s["show_memory"@]->Boolean_0
            } else {
                d.display.show_memory
            }
            &&& config_over(m, d).display.show_gpu == if s.contains_key("show_gpu"@) && s["show_gpu"@] is Boolean {
                s["show_gpu"@]->Boolean_0
            } else {
                d.display.show_gpu
            }
            &&& config_over(m, d).display.show_shell == if s.contains_key("show_shell"@) && s["show_shell"@] is Boolean {
                s["show_shell"@]->Boolean_0
            } else {
                d.display.show_shell
            }
            &&& config_over(m, d).display.show_rust == if s.contains_key("show_rust"@) && s["show_rust"@] is Boolean {
                s["show_rust"@]->Boolean_0
            } else {
                d.display.show_rust
            }
        },
        !(m.contains_key("display"@) && m["display"@] is Table) ==> config_over(m, d).display == d.display,
{
}

/// Where the document's `ascii` entry is a table, the art style and colour are
/// the strings stored under their names there, or the defaults; the art width
/// is the integer stored there cast to `usize`, or the default; the custom art
/// and its path are the strings stored there, or none. Where it is no table,
/// the art settings are the defaults.
pub proof fn ascii_settings_are_read(m: Map<Seq<char>, TomlItem>, d: ConfigView)
    ensures
        m.contains_key("ascii"@) && m["ascii"@] is Table ==> {
            let s = m["ascii"@]->Table_0;
            &&& config_over(m, d).ascii.art_style == if s.contains_key("art_style"@) && s["art_style"@] is Text {
                s["art_style"@]->Text_0
            } else {
                d.ascii.art_style
            }
            &&& config_over(m, d).ascii.color == if s.contains_key("color"@) && s["color"@] is Text {
                s["color"@]->Text_0
            } else {
                d.ascii.color
            }
            &&& config_over(m, d).ascii.art_width == if s.contains_key("art_width"@) && s["art_width"@] is Integer {
                s["art_width"@]->Integer_0 as usize
            } else {
                d.ascii.art_width
            }
            &&& config_over(m, d).ascii.custom_art == if s.contains_key("custom_art"@) && s["custom_art"@] is Text {
                Some(s["custom_art"@]->Text_0)
            } else {
                None::<Seq<char>>
            }
            &&& config_over(m, d).ascii.custom_art_path == if s.contains_key("custom_art_path"@) && s["custom_art_path"@] is Text {
                Some(s["custom_art_path"@]->Text_0)
            } else {
                None::<Seq<char>>
            }
        },
        !(m.contains_key("ascii"@) && m["ascii"@] is Table) ==> config_over(m, d).ascii == d.ascii,
{
}

/// Where the document's `format` entry is a table, each format setting is the
/// string (or, for the width, the integer cast to `usize`) stored under its
/// name there, or the default where none is; where it is no table, the format
/// settings are the defaults.
pub proof fn format_settings_are_read(m: Map<Seq<char>, TomlItem>, d: ConfigView)
    ensures
        m.contains_key("format"@) && m["format"@] is Table ==> {
            let s = m["format"@]->Table_0;
            &&& config_over(m, d).format.info_prefix == if s.contains_key("info_prefix"@) && s["info_prefix"@] is Text {
                s["info_prefix"@]->Text_0
            } else {
                d.format.info_prefix
            }
            &&& config_over(m, d).format.info_color == if s.contains_key("info_color"@) && s["info_color"@] is Text {
                s["info_color"@]->Text_0
            } else {
                d.format.info_color
            }
            &&& config_over(m, d).format.label_color == if s.contains_key("label_color"@) && s["label_color"@] is Text {
                s["label_color"@]->Text_0
            } else {
                d.format.label_color
            }
            &&& config_over(m, d).format.title_color == if s.contains_key("title_color"@) && s["title_color"@] is Text {
                s["title_color"@]->Text_0
            } else {
                d.format.title_color
            }
            &&& config_over(m, d).format.max_width == if s.contains_key("max_width"@) && s["max_width"@] is Integer {
                s["max_width"@]->Integer_0 as usize
            } else {
                d.format.max_width
            }
        },
        !(m.contains_key("format"@) && m["format"@] is Table) ==> config_over(m, d).format == d.format,
{
}

/// A document without `display`, `ascii` and `format` tables leaves the
/// defaults whole; the empty document is one.
pub proof fn no_sections_keep_defaults(m: Map<Seq<char>, TomlItem>, d: ConfigView)
    requires
        table_entry(m, "display"@) is None,
        table_entry(m, "ascii"@) is None,
        table_entry(m, "format"@) is None,
    ensures
        config_over(m, d) == d,
        config_over(no_items(), d) == d,
{
}

} // verus!
