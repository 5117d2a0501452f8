//! The configuration: which paths are managed, and where the manager
//! directory lies.
use vstd::prelude::*;

use crate::path::{join_path, path_join, same_text};

verus! {

/// A value inside a record of the configuration.
#[derive(Debug)]
pub enum ConfigLeaf {
    Text(String),
    Other,
}

/// An element of a list in the configuration.
#[derive(Debug)]
pub enum ConfigItem {
    /// A table of named values.
    Table(Vec<(String, ConfigLeaf)>),
    Other,
}

/// A top-level value of the configuration.
#[derive(Debug)]
pub enum ConfigValue {
    Text(String),
    List(Vec<ConfigItem>),
    Other,
}

/// The mathematical form of a top-level value.
pub enum ValueView {
    Text(Seq<char>),
    /// Each element: its named values where it is a table (a value being
    /// its text where it is text).
    List(Seq<Option<Seq<(Seq<char>, Option<Seq<char>>)>>>),
    Other,
}

impl View for ConfigLeaf {
    type V = Option<Seq<char>>;

    open spec fn view(&self) -> Option<Seq<char>> {
        match self {
            ConfigLeaf::Text(s) => Some(s@),
            ConfigLeaf::Other => None,
        }
    }
}

impl View for ConfigItem {
    type V = Option<Seq<(Seq<char>, Option<Seq<char>>)>>;

    open spec fn view(&self) -> Self::V {
        match self {
            ConfigItem::Table(fields) => Some(fields@.map_values(|p: (String, ConfigLeaf)| (p.0@, p.1@))),
            ConfigItem::Other => None,
        }
    }
}

impl View for ConfigValue {
    type V = ValueView;

    open spec fn view(&self) -> ValueView {
        match self {
            ConfigValue::Text(s) => ValueView::Text(s@),
            ConfigValue::List(items) => ValueView::List(items@.map_values(|i: ConfigItem| i@)),
            ConfigValue::Other => ValueView::Other,
        }
    }
}

pub open spec fn document_view(doc: Seq<(String, ConfigValue)>) -> Seq<(Seq<char>, ValueView)> {
    doc.map_values(|p: (String, ConfigValue)| (p.0@, p.1@))
}

/// What parsing a configuration text as TOML gives: its top-level entries,
/// or nothing where the text is not valid TOML.
pub uninterp spec fn parsed_config(text: Seq<char>) -> Option<Seq<(Seq<char>, ValueView)>>;

#[verifier::external_type_specification]
#[verifier::external_body]
pub struct ExTomlValue(toml::Value);

/// Carries a value inside a record over from `toml::Value`: a string as
/// text, anything else as other.
#[verifier::external_body]
fn leaf_of(v: &toml::Value) -> ConfigLeaf {
    match v {
        toml::Value::String(s) => ConfigLeaf::Text(s.clone()),
        _ => ConfigLeaf::Other,
    }
}

/// Carries a list element over from `toml::Value`: a table as its named
/// values, anything else as other.
#[verifier::external_body]
fn item_of(v: &toml::Value) -> ConfigItem {
    match v {
        toml::Value::Table(t) => ConfigItem::Table(t.iter().map(|(k, x)| (k.clone(), leaf_of(x))).collect()),
        _ => ConfigItem::Other,
    }
}

/// Carries a top-level value over from `toml::Value`: a string as text, an
/// array as its elements, anything else as other.
#[verifier::external_body]
fn value_of(v: toml::Value) -> ConfigValue {
    match v {
        toml::Value::String(s) => ConfigValue::Text(s),
        toml::Value::Array(a) => ConfigValue::List(a.iter().map(item_of).collect()),
        _ => ConfigValue::Other,
    }
}

/// Relies on `toml::Table`'s `FromStr` (`toml::from_str`): the top-level
/// entries of a TOML document, or the parser's message for invalid text.
#[verifier::external_body]
fn parse_toml(text: &str) -> (r: Result<Vec<(String, ConfigValue)>, String>)
    ensures
        r is Ok <==> parsed_config(text@) is Some,
        r is Ok ==> document_view(r->Ok_0@) == parsed_config(text@)->Some_0,
{
    let table: toml::Table = text.parse().map_err(|e: toml::de::Error| e.to_string())?;
    Ok(table.into_iter().map(|(k, v)| (k, value_of(v))).collect())
}

#[derive(Debug, PartialEq, Eq)]
pub enum ConfigParseError {
    /// The configuration file could not be read.
    FileReadError(String),
    /// The configuration file is not valid UTF-8; the decoder's message.
    FromUtfError(String),
    /// The configuration is not valid TOML; the parser's message.
    TomlParseError(String),
    /// The home directory is not known.
    ConfigEnvVariableError,
    /// No `dotfiles` entry, or a record of it that is not a table.
    DotfilesParseError,
    /// `dotfiles` is not a list.
    DotfilesArrayParseError,
    /// A record without a text `manager_path` or `system_path`.
    DotfilesTableParseError,
    /// `manager_directory` is not text.
    InvalidManagerDirectoryError,
}

impl Clone for ConfigParseError {
    fn clone(&self) -> (r: Self)
        ensures
            r == *self,
    {
        match self {
            ConfigParseError::FileReadError(m) => ConfigParseError::FileReadError(m.clone()),
            ConfigParseError::FromUtfError(m) => ConfigParseError::FromUtfError(m.clone()),
            ConfigParseError::TomlParseError(m) => ConfigParseError::TomlParseError(m.clone()),
            ConfigParseError::ConfigEnvVariableError => ConfigParseError::ConfigEnvVariableError,
            ConfigParseError::DotfilesParseError => ConfigParseError::DotfilesParseError,
            ConfigParseError::DotfilesArrayParseError => ConfigParseError::DotfilesArrayParseError,
            ConfigParseError::DotfilesTableParseError => ConfigParseError::DotfilesTableParseError,
            ConfigParseError::InvalidManagerDirectoryError => ConfigParseError::InvalidManagerDirectoryError,
        }
    }
}

impl ConfigParseError {
    pub open spec fn text(&self) -> Seq<char> {
        match self {
            ConfigParseError::FileReadError(m) => m@,
            ConfigParseError::FromUtfError(m) => m@,
            ConfigParseError::TomlParseError(m) => m@,
            ConfigParseError::ConfigEnvVariableError => "environment variable not found"@,
            ConfigParseError::DotfilesParseError => "Dotfiles section not found in config file"@,
            ConfigParseError::DotfilesArrayParseError => "Dotfiles is not a valid array, Hint: use [[dotfiles]]"@,
            ConfigParseError::DotfilesTableParseError => "Dotfile table is not valid"@,
            ConfigParseError::InvalidManagerDirectoryError => "Manager directory setting in config is not valid"@,
        }
    }

    /// The error as text.
    pub fn describe(&self) -> (r: String)
        ensures
            r@ == self.text(),
    {
        match self {
            ConfigParseError::FileReadError(m) => m.clone(),
            ConfigParseError::FromUtfError(m) => m.clone(),
            ConfigParseError::TomlParseError(m) => m.clone(),
            ConfigParseError::ConfigEnvVariableError => "environment variable not found".to_owned(),
            ConfigParseError::DotfilesParseError => "Dotfiles section not found in config file".to_owned(),
            ConfigParseError::DotfilesArrayParseError => "Dotfiles is not a valid array, Hint: use [[dotfiles]]".to_owned(),
            ConfigParseError::DotfilesTableParseError => "Dotfile table is not valid".to_owned(),
            ConfigParseError::InvalidManagerDirectoryError => "Manager directory setting in config is not valid".to_owned(),
        }
    }
}

/// One configured mapping: a path under the manager directory and the
/// path of the live copy.
#[derive(Debug)]
pub struct Mapping {
    pub manager_path: String,
    pub system_path: String,
}

/// The configuration as the library uses it.
#[derive(Debug)]
pub struct Config {
    pub manager_dir: String,
    /// One entry per record, in order: the mapping, or why the record is
    /// malformed.
    pub dotfiles: Vec<Result<Mapping, ConfigParseError>>,
}

/// `i` is the first position holding key `k`.
pub open spec fn first_at<V>(s: Seq<(Seq<char>, V)>, k: Seq<char>, i: int) -> bool {
    &&& 0 <= i < s.len()
    &&& s[i].0 == k
    &&& forall|j: int| 0 <= j < i ==> s[j].0 != k
}

/// The value of the first entry with key `k`.
pub open spec fn lookup<V>(s: Seq<(Seq<char>, V)>, k: Seq<char>) -> Option<V> {
    if exists|i: int| first_at(s, k, i) {
        Some(s[choose|i: int| first_at(s, k, i)].1)
    } else {
        None
    }
}

proof fn lemma_first_unique<V>(s: Seq<(Seq<char>, V)>, k: Seq<char>, i: int)
    requires
        first_at(s, k, i),
    ensures
        lookup(s, k) == Some(s[i].1),
{
    let c = choose|c: int| first_at(s, k, c);
    assert(first_at(s, k, c));
    if c < i {
        assert(s[c].0 != k);
    }
    if i < c {
        assert(s[i].0 != k);
    }
}

/// A path that starts at the root.
pub open spec fn is_rooted(p: Seq<char>) -> bool {
    p.len() > 0 && p[0] == '/'
}

pub open spec fn mapping_view(r: Result<Mapping, ConfigParseError>) -> Result<(Seq<char>, Seq<char>), ConfigParseError> {
    match r {
        Ok(m) => Ok((m.manager_path@, m.system_path@)),
        Err(e) => Err(e),
    }
}

/// A record of the `dotfiles` list: a table with text `manager_path` and
/// `system_path`.
pub open spec fn record_spec(item: Option<Seq<(Seq<char>, Option<Seq<char>>)>>) -> Result<
    (Seq<char>, Seq<char>),
    ConfigParseError,
> {
    match item {
        None => Err(ConfigParseError::DotfilesParseError),
        Some(fields) => match (lookup(fields, "manager_path"@), lookup(fields, "system_path"@)) {
            (Some(Some(m)), Some(Some(s))) => Ok((m, s)),
            _ => Err(ConfigParseError::DotfilesTableParseError),
        },
    }
}

/// The records of the configuration, each read on its own.
pub open spec fn dotfiles_spec(doc: Seq<(Seq<char>, ValueView)>) -> Result<
    Seq<Result<(Seq<char>, Seq<char>), ConfigParseError>>,
    ConfigParseError,
> {
    match lookup(doc, "dotfiles"@) {
        None => Err(ConfigParseError::DotfilesParseError),
        Some(ValueView::List(items)) => Ok(items.map_values(|i| record_spec(i))),
        Some(_) => Err(ConfigParseError::DotfilesArrayParseError),
    }
}

/// The manager directory: `manager_directory` where it is given (under
/// `home` unless it starts at the root), else `.dotfiles` under `home`.
pub open spec fn manager_dir_spec(doc: Seq<(Seq<char>, ValueView)>, home: Seq<char>) -> Result<
    Seq<char>,
    ConfigParseError,
> {
    match lookup(doc, "manager_directory"@) {
        None => Ok(path_join(home, ".dotfiles"@)),
        Some(ValueView::Text(d)) => if is_rooted(d) {
            Ok(d)
        } else {
            Ok(path_join(home, d))
        },
        Some(_) => Err(ConfigParseError::InvalidManagerDirectoryError),
    }
}

pub open spec fn config_spec(doc: Seq<(Seq<char>, ValueView)>, home: Seq<char>) -> Result<
    (Seq<char>, Seq<Result<(Seq<char>, Seq<char>), ConfigParseError>>),
    ConfigParseError,
> {
    match dotfiles_spec(doc) {
        Err(e) => Err(e),
        Ok(records) => match manager_dir_spec(doc, home) {
            Err(e) => Err(e),
            Ok(dir) => Ok((dir, records)),
        },
    }
}

pub open spec fn config_view(r: Result<Config, ConfigParseError>) -> Result<
    (Seq<char>, Seq<Result<(Seq<char>, Seq<char>), ConfigParseError>>),
    ConfigParseError,
> {
    match r {
        Ok(c) => Ok((c.manager_dir@, c.dotfiles@.map_values(|m| mapping_view(m)))),
        Err(e) => Err(e),
    }
}

/// The position of the first entry with key `key`.
fn position<V>(entries: &Vec<(String, V)>, key: &str) -> (r: Option<usize>)
    ensures
        match r {
            Some(i) => first_at(entries@.map_values(|p: (String, V)| (p.0@, p.1)), key@, i as int),
            None => forall|j: int| 0 <= j < entries@.len() ==> entries@[j].0@ != key@,
        },
{
    let ghost s = entries@.map_values(|p: (String, V)| (p.0@, p.1));
    let mut i: usize = 0;
    while i < entries.len()
        invariant
            i <= entries@.len(),
            s == entries@.map_values(|p: (String, V)| (p.0@, p.1)),
            forall|j: int| 0 <= j < i ==> entries@[j].0@ != key@,
        decreases entries@.len() - i,
    {
        if same_text(entries[i].0.as_str(), key) {
            assert forall|j: int| 0 <= j < i implies s[j].0 != key@ by {
                assert(s[j].0 == entries@[j].0@);
            }
            return Some(i);
        }
        i = i + 1;
    }
    None
}

/// Looks up `key` among named entries: the position of the first entry
/// with that key, agreeing with `lookup` on any view that keeps the keys.
proof fn lemma_position_lookup<V, W>(entries: Seq<(String, V)>, view: Seq<(Seq<char>, W)>, key: Seq<char>, r: Option<usize>)
    requires
        view.len() == entries.len(),
        forall|j: int| 0 <= j < entries.len() ==> #[trigger] view[j].0 == entries[j].0@,
        match r {
            Some(i) => first_at(entries.map_values(|p: (String, V)| (p.0@, p.1)), key, i as int),
            None => forall|j: int| 0 <= j < entries.len() ==> entries[j].0@ != key,
        },
    ensures
        match r {
            Some(i) => i < view.len() && lookup(view, key) == Some(view[i as int].1),
            None => lookup(view, key) is None,
        },
{
    match r {
        Some(i) => {
            let s = entries.map_values(|p: (String, V)| (p.0@, p.1));
            assert(s[i as int].0 == entries[i as int].0@);
            assert forall|j: int| 0 <= j < i implies view[j].0 != key by {
                assert(s[j].0 == entries[j].0@);
            }
            assert(first_at(view, key, i as int));
            lemma_first_unique(view, key, i as int);
        },
        None => {
            if exists|i: int| first_at(view, key, i) {
                let i = choose|i: int| first_at(view, key, i);
                assert(view[i].0 == entries[i].0@);
            }
        },
    }
}

/// Reads one record of the `dotfiles` list.
fn read_record(item: &ConfigItem) -> (r: Result<Mapping, ConfigParseError>)
    ensures
        mapping_view(r) == record_spec(item@),
{
    match item {
        ConfigItem::Other => Err(ConfigParseError::DotfilesParseError),
        ConfigItem::Table(fields) => {
            let ghost view = fields@.map_values(|p: (String, ConfigLeaf)| (p.0@, p.1@));
            let m = position(fields, "manager_path");
            let s = position(fields, "system_path");
            proof {
                lemma_position_lookup(fields@, view, "manager_path"@, m);
                lemma_position_lookup(fields@, view, "system_path"@, s);
            }
            match (m, s) {
                (Some(i), Some(j)) => match (&fields[i].1, &fields[j].1) {
                    (ConfigLeaf::Text(a), ConfigLeaf::Text(b)) => Ok(
                        Mapping { manager_path: a.clone(), system_path: b.clone() },
                    ),
                    _ => Err(ConfigParseError::DotfilesTableParseError),
                },
                _ => Err(ConfigParseError::DotfilesTableParseError),
            }
        },
    }
}

/// Whether a path starts at the root.
fn starts_at_root(p: &str) -> (r: bool)
    ensures
        r == is_rooted(p@),
{
    p.unicode_len() > 0 && p.get_char(0) == '/'
}

impl Config {
    /// The configuration from the top-level entries of its document, with
    /// `home` as the home directory. A malformed record is an error of its
    /// own and does not keep the others from being read.
    pub fn from_document(doc: &Vec<(String, ConfigValue)>, home: &str) -> (r: Result<Config, ConfigParseError>)
        ensures
            config_view(r) == config_spec(document_view(doc@), home@),
    {
        let ghost dv = document_view(doc@);
        let d = position(doc, "dotfiles");
        proof {
            lemma_position_lookup(doc@, dv, "dotfiles"@, d);
        }
        let mut dotfiles: Vec<Result<Mapping, ConfigParseError>> = Vec::new();
        match d {
            None => {
                return Err(ConfigParseError::DotfilesParseError);
            },
            Some(i) => match &doc[i].1 {
                ConfigValue::List(items) => {
                    let ghost iv = items@.map_values(|x: ConfigItem| x@);
                    let mut k: usize = 0;
                    while k < items.len()
                        invariant
                            k <= items@.len(),
                            iv == items@.map_values(|x: ConfigItem| x@),
                            dotfiles@.map_values(|m| mapping_view(m)) == iv.subrange(0, k as int).map_values(
                                |x| record_spec(x),
                            ),
                        decreases items@.len() - k,
                    {
                        let rec = read_record(&items[k]);
                        let ghost before = dotfiles@;
                        dotfiles.push(rec);
                        proof {
                            assert(iv[k as int] == items@[k as int]@);
                            assert(dotfiles@.map_values(|m| mapping_view(m)) =~= before.map_values(
                                |m| mapping_view(m),
                            ).push(mapping_view(rec)));
                            assert(dotfiles@.map_values(|m| mapping_view(m)) =~= iv.subrange(
                                0,
                                k + 1,
                            ).map_values(|x| record_spec(x)));
                        }
                        k = k + 1;
                    }
                    proof {
                        assert(iv.subrange(0, k as int) =~= iv);
                    }
                },
                _ => {
                    return Err(ConfigParseError::DotfilesArrayParseError);
                },
            },
        }
        let md = position(doc, "manager_directory");
        proof {
            lemma_position_lookup(doc@, dv, "manager_directory"@, md);
        }
        let manager_dir = match md {
            None => join_path(home, ".dotfiles"),
            Some(i) => match &doc[i].1 {
                ConfigValue::Text(t) => {
                    if starts_at_root(t.as_str()) {
                        t.clone()
                    } else {
                        join_path(home, t.as_str())
                    }
                },
                _ => {
                    return Err(ConfigParseError::InvalidManagerDirectoryError);
                },
            },
        };
        Ok(Config { manager_dir, dotfiles })
    }

    /// The configuration from its text, with `home` as the home directory.
    pub fn parse(text: &str, home: &str) -> (r: Result<Config, ConfigParseError>)
        ensures
            parsed_config(text@) is None ==> r matches Err(ConfigParseError::TomlParseError(_)),
            parsed_config(text@) is Some ==> config_view(r) == config_spec(parsed_config(text@)->Some_0, home@),
    {
        match parse_toml(text) {
            Err(message) => Err(ConfigParseError::TomlParseError(message)),
            Ok(doc) => Config::from_document(&doc, home),
        }
    }
}

} // verus!
