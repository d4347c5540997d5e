//! The supported currencies and the persisted configuration.

use crate::failure::Failure;
use crate::text::same_text;
use crate::toml::Entry;
use crate::toml::Field;
use crate::toml::document_entries;
use crate::toml::document_field;
use crate::toml::document_text;
use crate::toml::new_document;
use crate::toml::no_entries;
use crate::toml::parse_document;
use crate::toml::parsed_entries;
use crate::toml::render_document;
use crate::toml::set_integer;
use crate::toml::set_text;
use toml_edit::DocumentMut;
use vstd::prelude::*;
use vstd::string::StringExecFns;

verus! {

/// A supported currency. Its identity is its code.
#[derive(Clone, Copy, Debug, PartialEq, Eq)]
pub struct Currency {
    pub code: &'static str,
    pub name: &'static str,
    pub symbol: &'static str,
}

/// The supported currencies, in the order in which they are offered.
pub open spec fn registry() -> Seq<Currency> {
    seq![
        Currency { code: "EUR", name: "Euro", symbol: "€" },
        Currency { code: "GBP", name: "British Pound Sterling", symbol: "£" },
        Currency { code: "JPY", name: "Japanese Yen", symbol: "¥" },
        Currency { code: "USD", name: "US Dollar", symbol: "$" },
    ]
}

/// The first currency at or after position `from` that has the given code.
pub open spec fn code_from(code: Seq<char>, from: nat) -> Option<Currency>
    decreases registry().len() - from,
{
    if from >= registry().len() {
        None
    } else if registry()[from as int].code@ == code {
        Some(registry()[from as int])
    } else {
        code_from(code, from + 1)
    }
}

/// The first currency at or after position `from` that has the given name.
pub open spec fn name_from(name: Seq<char>, from: nat) -> Option<Currency>
    decreases registry().len() - from,
{
    if from >= registry().len() {
        None
    } else if registry()[from as int].name@ == name {
        Some(registry()[from as int])
    } else {
        name_from(name, from + 1)
    }
}

/// The currency with the given code, if the registry holds one.
pub open spec fn currency_by_code(code: Seq<char>) -> Option<Currency> {
    code_from(code, 0)
}

/// The currency with the given display name, if the registry holds one.
pub open spec fn currency_by_name(name: Seq<char>) -> Option<Currency> {
    name_from(name, 0)
}

/// The supported currencies, in the order in which they are offered.
pub fn supported_currencies() -> (list: Vec<Currency>)
    ensures
        list@ == registry(),
{
    let mut list: Vec<Currency> = Vec::new();
    list.push(Currency { code: "EUR", name: "Euro", symbol: "€" });
    list.push(Currency { code: "GBP", name: "British Pound Sterling", symbol: "£" });
    list.push(Currency { code: "JPY", name: "Japanese Yen", symbol: "¥" });
    list.push(Currency { code: "USD", name: "US Dollar", symbol: "$" });
    assert(list@ =~= registry());
    list
}

/// Looks a currency up by its code.
pub fn find_by_code(code: &str) -> (found: Option<Currency>)
    ensures
        found == currency_by_code(code@),
{
    let list = supported_currencies();
    let mut i: usize = 0;
    while i < list.len()
        invariant
            i <= list.len(),
            list@ == registry(),
            currency_by_code(code@) == code_from(code@, i as nat),
        decreases list.len() - i,
    {
        if same_text(list[i].code, code) {
            return Some(list[i]);
        }
        i = i + 1;
    }
    None
}

/// Looks a currency up by its display name.
pub fn find_by_name(name: &str) -> (found: Option<Currency>)
    ensures
        found == currency_by_name(name@),
{
    let list = supported_currencies();
    let mut i: usize = 0;
    while i < list.len()
        invariant
            i <= list.len(),
            list@ == registry(),
            currency_by_name(name@) == name_from(name@, i as nat),
        decreases list.len() - i,
    {
        if same_text(list[i].name, name) {
            return Some(list[i]);
        }
        i = i + 1;
    }
    None
}

/// A currency that a search by code finds has that code.
proof fn lemma_code_from_has_code(code: Seq<char>, from: nat)
    ensures
        code_from(code, from) matches Some(c) ==> c.code@ == code && registry().contains(c),
    decreases registry().len() - from,
{
    if from < registry().len() && registry()[from as int].code@ != code {
        lemma_code_from_has_code(code, from + 1);
    }
}

/// A currency that a search by name finds has that name.
proof fn lemma_name_from_has_name(name: Seq<char>, from: nat)
    ensures
        name_from(name, from) matches Some(c) ==> c.name@ == name && registry().contains(c),
    decreases registry().len() - from,
{
    if from < registry().len() && registry()[from as int].name@ != name {
        lemma_name_from_has_name(name, from + 1);
    }
}

/// Looking up the code of a currency that was found by code finds the same
/// currency again.
pub proof fn lemma_find_by_code_round_trip(code: Seq<char>)
    ensures
        currency_by_code(code) matches Some(c) ==> currency_by_code(c.code@) == Some(c),
        currency_by_code(code) matches Some(c) ==> c.code@ == code && registry().contains(c),
{
    lemma_code_from_has_code(code, 0);
}

/// The two searches agree: a currency that is found by name is the one that
/// is found by its code, and a currency that is found by code is the one
/// that is found by its name.
pub proof fn lemma_lookups_agree(text: Seq<char>)
    ensures
        currency_by_name(text) matches Some(c) ==> c.name@ == text && currency_by_code(c.code@)
            == Some(c),
        currency_by_code(text) matches Some(c) ==> c.code@ == text && currency_by_name(c.name@)
            == Some(c),
{
    lemma_name_from_has_name(text, 0);
    lemma_code_from_has_code(text, 0);
    if currency_by_name(text) is Some {
        let c = currency_by_name(text)->0;
        let i = choose|i: int| 0 <= i < registry().len() && registry()[i] == c;
        lemma_registry_lookups_agree(i);
    }
    if currency_by_code(text) is Some {
        let c = currency_by_code(text)->0;
        let i = choose|i: int| 0 <= i < registry().len() && registry()[i] == c;
        lemma_registry_lookups_agree(i);
    }
}

/// No code and no name occurs twice in the registry.
pub proof fn lemma_registry_is_unique(i: int, j: int)
    requires
        0 <= i < registry().len(),
        0 <= j < registry().len(),
        registry()[i].code@ == registry()[j].code@ || registry()[i].name@ == registry()[j].name@,
    ensures
        i == j,
{
    lemma_registry_lookups_agree(i);
    lemma_registry_lookups_agree(j);
}

/// Every currency of the registry is found by its own code and by its own
/// name.
pub proof fn lemma_registry_lookups_agree(i: int)
    requires
        0 <= i < registry().len(),
    ensures
        currency_by_code(registry()[i].code@) == Some(registry()[i]),
        currency_by_name(registry()[i].name@) == Some(registry()[i]),
{
    reveal_strlit("EUR");
    reveal_strlit("GBP");
    reveal_strlit("JPY");
    reveal_strlit("USD");
    reveal_strlit("Euro");
    reveal_strlit("British Pound Sterling");
    reveal_strlit("Japanese Yen");
    reveal_strlit("US Dollar");
    reveal_with_fuel(code_from, 5);
    reveal_with_fuel(name_from, 5);
    assert("EUR"@[0] == 'E' && "GBP"@[0] == 'G' && "JPY"@[0] == 'J' && "USD"@[0] == 'U');
    assert("Euro"@[0] == 'E' && "British Pound Sterling"@[0] == 'B' && "Japanese Yen"@[0] == 'J'
        && "US Dollar"@[0] == 'U');
}

/// The schema version that a configuration has when its file names none,
/// and the one that a new configuration is written with.
pub const CONFIG_VERSION: i64 = 1;

/// The persisted settings.
#[derive(Clone, Debug, PartialEq, Eq)]
pub struct Config {
    pub version: i64,
    pub default_input_currency: Option<String>,
    pub fca_api_key: Option<String>,
}

/// The mathematical value of a [`Config`].
pub struct ConfigView {
    pub version: i64,
    pub default_input_currency: Option<Seq<char>>,
    pub fca_api_key: Option<Seq<char>>,
}

/// The characters of an optional string.
pub open spec fn text_view(text: Option<String>) -> Option<Seq<char>> {
    match text {
        Some(s) => Some(s@),
        None => None,
    }
}

impl View for Config {
    type V = ConfigView;

    open spec fn view(&self) -> ConfigView {
        ConfigView {
            version: self.version,
            default_input_currency: text_view(self.default_input_currency),
            fca_api_key: text_view(self.fca_api_key),
        }
    }
}

/// The key of the schema version in the configuration file.
pub open spec fn version_key() -> Seq<char> {
    "version"@
}

/// The key of the default input currency in the configuration file.
pub open spec fn currency_key() -> Seq<char> {
    "default_input_currency"@
}

/// The key of the API credential in the configuration file.
pub open spec fn credential_key() -> Seq<char> {
    "fca_api_key"@
}

/// The configuration that three fields of a document stand for. A missing
/// version is the current one, a missing string is absent, and a field of
/// the wrong kind makes the document malformed.
pub open spec fn config_of_fields(
    version: Option<Entry>,
    currency: Option<Entry>,
    credential: Option<Entry>,
) -> Result<ConfigView, Failure> {
    let version_ok = version is None || version->0 is Integer;
    let currency_ok = currency is None || currency->0 is Text;
    let credential_ok = credential is None || credential->0 is Text;
    if version_ok && currency_ok && credential_ok {
        Ok(
            ConfigView {
                version: match version {
                    Some(Entry::Integer(v)) => v,
                    _ => CONFIG_VERSION,
                },
                default_input_currency: match currency {
                    Some(Entry::Text(t)) => Some(t),
                    _ => None,
                },
                fca_api_key: match credential {
                    Some(Entry::Text(t)) => Some(t),
                    _ => None,
                },
            },
        )
    } else {
        Err(Failure::ConfigParse)
    }
}

/// What a document holds under a key, if anything.
pub open spec fn entry_at(entries: Map<Seq<char>, Entry>, key: Seq<char>) -> Option<Entry> {
    if entries.contains_key(key) {
        Some(entries[key])
    } else {
        None
    }
}

/// The configuration that a parsed text stands for.
pub open spec fn config_of_entries(parsed: Option<Map<Seq<char>, Entry>>) -> Result<
    ConfigView,
    Failure,
> {
    match parsed {
        None => Err(Failure::ConfigParse),
        Some(entries) => config_of_fields(
            entry_at(entries, version_key()),
            entry_at(entries, currency_key()),
            entry_at(entries, credential_key()),
        ),
    }
}

/// The entries that a configuration is written as: always the version, and
/// each of the two strings only where it is present.
pub open spec fn config_entries(config: ConfigView) -> Map<Seq<char>, Entry> {
    let with_version = no_entries().insert(version_key(), Entry::Integer(config.version));
    let with_currency = match config.default_input_currency {
        Some(code) => with_version.insert(currency_key(), Entry::Text(code)),
        None => with_version,
    };
    match config.fca_api_key {
        Some(key) => with_currency.insert(credential_key(), Entry::Text(key)),
        None => with_currency,
    }
}

/// The mathematical value of a field that may be missing.
pub open spec fn field_view(field: Option<Field>) -> Option<Entry> {
    match field {
        Some(f) => Some(f@),
        None => None,
    }
}

/// Whether a result holds the configuration or the error that `expected` names.
pub open spec fn agrees(res: Result<Config, Failure>, expected: Result<ConfigView, Failure>) -> bool {
    match res {
        Ok(config) => expected == Ok::<ConfigView, Failure>(config@),
        Err(e) => expected == Err::<ConfigView, Failure>(e),
    }
}

/// The optional string that a field stands for: absent where the field is,
/// and no string at all where the field holds something else.
fn optional_text(field: Option<Field>) -> (res: Result<Option<String>, Failure>)
    ensures
        match res {
            Ok(text) => (field is None || field->0@ is Text) && text_view(text) == (match field {
                Some(f) => Some(f@->Text_0),
                None => None,
            }),
            Err(e) => e == Failure::ConfigParse && field is Some && !(field->0@ is Text),
        },
{
    match field {
        None => Ok(None),
        Some(Field::Text(text)) => Ok(Some(text)),
        Some(_) => Err(Failure::ConfigParse),
    }
}

/// Builds the configuration from the three fields that a document holds
/// under the configuration's keys.
pub fn config_from_fields(
    version: Option<Field>,
    currency: Option<Field>,
    credential: Option<Field>,
) -> (res: Result<Config, Failure>)
    ensures
        agrees(
            res,
            config_of_fields(
                field_view(version),
                field_view(currency),
                field_view(credential),
            ),
        ),
{
    let number = match version {
        None => CONFIG_VERSION,
        Some(Field::Integer(v)) => v,
        Some(_) => {
            return Err(Failure::ConfigParse);
        },
    };
    let code = match optional_text(currency) {
        Ok(code) => code,
        Err(e) => {
            return Err(e);
        },
    };
    let key = match optional_text(credential) {
        Ok(key) => key,
        Err(e) => {
            return Err(e);
        },
    };
    Ok(Config { version: number, default_input_currency: code, fca_api_key: key })
}

/// Reads a configuration from the text of its file. The text is parsed by
/// `toml_edit`; a text that it refuses, or one that holds something of the
/// wrong kind under one of the three keys, is malformed.
pub fn parse_config(text: &str) -> (res: Result<Config, Failure>)
    ensures
        agrees(res, config_of_entries(parsed_entries(text@))),
{
    match parse_document(text) {
        Err(_) => Err(Failure::ConfigParse),
        Ok(doc) => {
            let version = document_field(&doc, "version");
            let currency = document_field(&doc, "default_input_currency");
            let credential = document_field(&doc, "fca_api_key");
            config_from_fields(version, currency, credential)
        },
    }
}

/// What is known of the configuration file when a run starts.
#[derive(Clone, Debug, PartialEq, Eq)]
pub enum ConfigFile {
    /// There is no such file.
    Missing,
    /// The file could not be looked for or read.
    Unreadable,
    /// The file's text.
    Contents(String),
}

/// The stored configuration for a calculation. A missing file means that
/// nothing was configured yet, and is a failure of its own; there is no
/// falling back to defaults.
pub fn get_config(file: ConfigFile) -> (res: Result<Config, Failure>)
    ensures
        file is Missing ==> res matches Err(Failure::ConfigMissing),
        file is Unreadable ==> res matches Err(Failure::ConfigIo),
        file is Contents ==> agrees(res, config_of_entries(parsed_entries(file->0@))),
{
    match file {
        ConfigFile::Missing => Err(Failure::ConfigMissing),
        ConfigFile::Unreadable => Err(Failure::ConfigIo),
        ConfigFile::Contents(text) => parse_config(text.as_str()),
    }
}

/// The stored configuration to start configuring from, if there is one. A
/// missing file means that there is none yet.
pub fn load_existing(file: ConfigFile) -> (res: Result<Option<Config>, Failure>)
    ensures
        file is Missing ==> res matches Ok(None),
        file is Unreadable ==> res matches Err(Failure::ConfigIo),
        file is Contents ==> match res {
            Ok(Some(config)) => agrees(Ok(config), config_of_entries(parsed_entries(file->0@))),
            Ok(None) => false,
            Err(e) => agrees(Err(e), config_of_entries(parsed_entries(file->0@))),
        },
{
    match file {
        ConfigFile::Missing => Ok(None),
        ConfigFile::Unreadable => Err(Failure::ConfigIo),
        ConfigFile::Contents(text) => match parse_config(text.as_str()) {
            Ok(config) => Ok(Some(config)),
            Err(e) => Err(e),
        },
    }
}

/// A path with one more component: the component follows a `/`, which is
/// added unless the path is empty or ends in one already.
pub open spec fn joined(base: Seq<char>, component: Seq<char>) -> Seq<char> {
    if base.len() == 0 || base.last() == '/' {
        base + component
    } else {
        base.push('/') + component
    }
}

/// The configuration file below a user's configuration directory.
pub open spec fn default_config_file(config_dir: Seq<char>) -> Seq<char> {
    joined(joined(config_dir, "fbarcalc"@), "config.toml"@)
}

/// Appends a component to a path.
fn join(base: String, component: &str) -> (path: String)
    ensures
        path@ == joined(base@, component@),
{
    let mut path = base;
    let n = path.as_str().unicode_len();
    if n > 0 && path.as_str().get_char(n - 1) != '/' {
        proof {
            reveal_strlit("/");
        }
        path.append("/");
        assert(path@ =~= base@.push('/'));
    }
    path.append(component);
    path
}

/// The path of the configuration file: the path given on the command line
/// as it stands, or else `fbarcalc/config.toml` below the user's
/// configuration directory. Where neither is known there is no file to read
/// or write.
pub fn resolve_config_file(cli_config: Option<String>, config_dir: Option<String>) -> (res: Result<
    String,
    Failure,
>)
    ensures
        cli_config is Some ==> (res matches Ok(path) && path == cli_config->0),
        cli_config is None && config_dir is None ==> res matches Err(Failure::ConfigIo),
        cli_config is None && config_dir is Some ==> {
            &&& res matches Ok(path)
            &&& path@ == default_config_file(config_dir->0@)
        },
{
    match cli_config {
        Some(path) => Ok(path),
        None => match config_dir {
            Some(dir) => Ok(join(join(dir, "fbarcalc"), "config.toml")),
            None => Err(Failure::ConfigIo),
        },
    }
}

/// The path of the configuration file: the path given on the command line
/// as it stands, or else the default below the user's configuration
/// directory, which is asked of the system.
pub fn get_config_file(cli_config: Option<String>) -> (res: Result<String, Failure>)
    ensures
        cli_config is Some ==> (res matches Ok(path) && path == cli_config->0),
        cli_config is None ==> match res {
            Ok(path) => exists|dir: Seq<char>| path@ == #[trigger] default_config_file(dir),
            Err(e) => e == Failure::ConfigIo,
        },
{
    match cli_config {
        Some(path) => Ok(path),
        None => {
            let dir = user_config_dir();
            resolve_config_file(None, dir)
        },
    }
}

/// `dirs::config_dir`: the user's configuration directory, where the system
/// names one and its path is text. What comes back depends on the process's
/// environment, so nothing is said of it.
#[verifier::external_body]
fn user_config_dir() -> Option<String> {
    dirs::config_dir().and_then(|dir| dir.into_os_string().into_string().ok())
}

/// What to do about the directory of the configuration file before writing.
#[derive(Clone, Debug, PartialEq, Eq)]
pub enum DirectoryStep {
    /// Nothing: go on and write the file.
    Proceed,
    /// Find out whether this directory exists.
    Probe(String),
    /// Create this directory.
    Create(String),
}

/// Whether a parent path stands for the place where the process already is:
/// the empty path, `.` or `..`.
pub open spec fn is_here(parent: Seq<char>) -> bool {
    parent == ""@ || parent == "."@ || parent == ".."@
}

/// Decides the first step towards the directory of the configuration file,
/// from the file's parent path. A path without a parent cannot hold a file;
/// the empty path, `.` and `..` need nothing; any other directory has to be
/// looked for.
pub fn create_config_directory(parent: Option<&str>) -> (res: Result<DirectoryStep, Failure>)
    ensures
        parent is None ==> res matches Err(Failure::ConfigIo),
        parent is Some && is_here(parent->0@) ==> res matches Ok(DirectoryStep::Proceed),
        parent is Some && !is_here(parent->0@) ==> {
            &&& res matches Ok(DirectoryStep::Probe(dir))
            &&& dir@ == parent->0@
        },
{
    match parent {
        None => Err(Failure::ConfigIo),
        Some(dir) => {
            if same_text(dir, "") || same_text(dir, ".") || same_text(dir, "..") {
                Ok(DirectoryStep::Proceed)
            } else {
                Ok(DirectoryStep::Probe(String::from_str(dir)))
            }
        },
    }
}

/// Decides the step after the directory was looked for: `found` says
/// whether it exists, or nothing where that could not be found out. A
/// directory that is there needs nothing, one that is not is created, and a
/// failed look is a failure to save.
pub fn after_directory_probe(dir: String, found: Option<bool>) -> (res: Result<
    DirectoryStep,
    Failure,
>)
    ensures
        found is None ==> res matches Err(Failure::ConfigIo),
        found == Some(true) ==> res matches Ok(DirectoryStep::Proceed),
        found == Some(false) ==> (res matches Ok(DirectoryStep::Create(created)) && created == dir),
{
    match found {
        None => Err(Failure::ConfigIo),
        Some(true) => Ok(DirectoryStep::Proceed),
        Some(false) => Ok(DirectoryStep::Create(dir)),
    }
}

/// Decides the step after the directory was to be created: it is there
/// now, or the configuration could not be saved.
pub fn after_directory_creation(created: bool) -> (res: Result<DirectoryStep, Failure>)
    ensures
        created ==> res matches Ok(DirectoryStep::Proceed),
        !created ==> res matches Err(Failure::ConfigIo),
{
    if created {
        Ok(DirectoryStep::Proceed)
    } else {
        Err(Failure::ConfigIo)
    }
}

/// The outcome of saving, from whether the file was written: a file that
/// could not be opened, limited to its owner or written in full means that
/// the configuration could not be saved.
pub fn after_write(written: bool) -> (res: Result<(), Failure>)
    ensures
        written ==> res is Ok,
        !written ==> res matches Err(Failure::ConfigIo),
{
    if written {
        Ok(())
    } else {
        Err(Failure::ConfigIo)
    }
}

/// The permissions that the configuration file is written with: read and
/// write for its owner, nothing for anyone else.
pub const CONFIG_FILE_MODE: u32 = 0o600;

/// What to put to the user who selects a currency.
#[derive(Clone, Debug, PartialEq, Eq)]
pub struct Selection {
    /// The question.
    pub message: &'static str,
    /// The names to choose from, in the registry's order.
    pub options: Vec<&'static str>,
    /// The position that the cursor starts at.
    pub starting_cursor: usize,
}

/// The question that a selection asks.
pub open spec fn selection_message(is_default: bool) -> Seq<char> {
    if is_default {
        "What is the default input currency?"@
    } else {
        "What is the input currency?"@
    }
}

/// Prepares the selection of a currency: the question, the registry's names
/// in order, and the cursor on the currency whose code is `default`, or on
/// the first where there is no default. A default that the registry does
/// not hold is refused.
pub fn select_input_currency(default: Option<&str>, is_default: bool) -> (res: Result<
    Selection,
    Failure,
>)
    ensures
        default is Some && currency_by_code(default->0@) is None ==> res matches Err(
            Failure::InvalidCurrencyCode,
        ),
        default is None || currency_by_code(default->0@) is Some ==> {
            &&& res matches Ok(selection)
            &&& selection.message@ == selection_message(is_default)
            &&& selection.options@.len() == registry().len()
            &&& forall|i: int|
                0 <= i < registry().len() ==> (#[trigger] selection.options@[i])@
                    == registry()[i].name@
            &&& default is None ==> selection.starting_cursor == 0
            &&& default is Some ==> {
                &&& selection.starting_cursor < registry().len()
                &&& registry()[selection.starting_cursor as int].code@ == default->0@
                &&& forall|j: int|
                    0 <= j < selection.starting_cursor ==> (#[trigger] registry()[j]).code@
                        != default->0@
            }
        },
{
    let list = supported_currencies();
    let mut options: Vec<&'static str> = Vec::new();
    let mut cursor: Option<usize> = None;
    let mut i: usize = 0;
    while i < list.len()
        invariant
            i <= list.len(),
            list@ == registry(),
            options@.len() == i,
            forall|k: int| 0 <= k < i ==> (#[trigger] options@[k])@ == registry()[k].name@,
            default is None ==> cursor is None,
            default is Some && cursor is None ==> {
                &&& currency_by_code(default->0@) == code_from(default->0@, i as nat)
                &&& forall|j: int| 0 <= j < i ==> (#[trigger] registry()[j]).code@ != default->0@
            },
            cursor matches Some(at) ==> {
                &&& default is Some
                &&& at < i
                &&& registry()[at as int].code@ == default->0@
                &&& forall|j: int| 0 <= j < at ==> (#[trigger] registry()[j]).code@ != default->0@
                &&& currency_by_code(default->0@) is Some
            },
        decreases list.len() - i,
    {
        options.push(list[i].name);
        if cursor.is_none() {
            match default {
                Some(code) => {
                    if same_text(list[i].code, code) {
                        cursor = Some(i);
                    }
                },
                None => {},
            }
        }
        i = i + 1;
    }
    let message = if is_default {
        "What is the default input currency?"
    } else {
        "What is the input currency?"
    };
    match default {
        None => Ok(Selection { message, options, starting_cursor: 0 }),
        Some(_) => match cursor {
            Some(at) => Ok(Selection { message, options, starting_cursor: at }),
            None => Err(Failure::InvalidCurrencyCode),
        },
    }
}

/// The stored default currency of a configuration that may be missing.
pub open spec fn stored_default(existing: Option<Config>) -> Option<Seq<char>> {
    match existing {
        Some(config) => text_view(config.default_input_currency),
        None => None,
    }
}

/// Whether a selection is the one to put for a default that is in the
/// registry or absent: the question, the registry's names in order, and the
/// cursor on the first currency with the default's code, or on the first
/// currency where there is no default.
pub open spec fn selection_for(selection: Selection, default: Option<Seq<char>>, is_default: bool) -> bool {
    &&& selection.message@ == selection_message(is_default)
    &&& selection.options@.len() == registry().len()
    &&& forall|i: int|
        0 <= i < registry().len() ==> (#[trigger] selection.options@[i])@ == registry()[i].name@
    &&& default is None ==> selection.starting_cursor == 0
    &&& default is Some ==> {
        &&& selection.starting_cursor < registry().len()
        &&& registry()[selection.starting_cursor as int].code@ == default->0
        &&& forall|j: int|
            0 <= j < selection.starting_cursor ==> (#[trigger] registry()[j]).code@ != default->0
    }
}

/// The selection that configuring starts with: the question for the
/// default input currency, with the cursor on the stored default. A stored
/// default that the registry does not hold is refused.
pub fn configure_selection(existing: &Option<Config>) -> (res: Result<Selection, Failure>)
    ensures
        stored_default(*existing) is Some && currency_by_code(stored_default(*existing)->0)
            is None ==> res matches Err(Failure::InvalidCurrencyCode),
        stored_default(*existing) is None || currency_by_code(stored_default(*existing)->0)
            is Some ==> (res matches Ok(selection) && selection_for(
            selection,
            stored_default(*existing),
            true,
        )),
{
    match existing {
        Some(config) => match &config.default_input_currency {
            Some(code) => select_input_currency(Some(code.as_str()), true),
            None => select_input_currency(None, true),
        },
        None => select_input_currency(None, true),
    }
}

/// The selection that a calculation starts with: the question for the
/// input currency, with the cursor on the stored default. A stored default
/// that the registry does not hold is refused.
pub fn calculation_selection(config: &Config) -> (res: Result<Selection, Failure>)
    ensures
        config.default_input_currency is Some && currency_by_code(
            config.default_input_currency->0@,
        ) is None ==> res matches Err(Failure::InvalidCurrencyCode),
        config.default_input_currency is None || currency_by_code(
            config.default_input_currency->0@,
        ) is Some ==> (res matches Ok(selection) && selection_for(
            selection,
            text_view(config.default_input_currency),
            false,
        )),
{
    match &config.default_input_currency {
        Some(code) => select_input_currency(Some(code.as_str()), false),
        None => select_input_currency(None, false),
    }
}

/// The credential that is stored in a configuration that may be missing.
pub open spec fn stored_credential(existing: Option<Config>) -> Option<Seq<char>> {
    match existing {
        Some(config) => text_view(config.fca_api_key),
        None => None,
    }
}

/// The credential as it is shown while it is asked for when configuring:
/// masked against the credential that is stored, if there is one.
pub fn configure_mask(existing: &Option<Config>, typed: &str) -> (mask: String)
    ensures
        typed@.len() > 0 ==> mask@ == stars(typed@.len()),
        typed@.len() == 0 && stored_credential(*existing) is Some ==> mask@ == stars(
            stored_credential(*existing)->0.len(),
        ),
        typed@.len() == 0 && stored_credential(*existing) is None ==> mask@ == stars(0),
{
    match existing {
        Some(config) => match &config.fca_api_key {
            Some(key) => credential_mask(typed, Some(key.as_str())),
            None => credential_mask(typed, None),
        },
        None => credential_mask(typed, None),
    }
}

/// The currency that was selected, from the name that came back; no name
/// means that the selection was aborted.
pub fn selected_currency(choice: Option<&str>) -> (res: Result<Currency, Failure>)
    ensures
        choice is None ==> res matches Err(Failure::UserCancelled),
        choice is Some && currency_by_name(choice->0@) is None ==> res matches Err(
            Failure::InvalidCurrencyCode,
        ),
        choice is Some && currency_by_name(choice->0@) is Some ==> (res matches Ok(currency)
            && Some(currency) == currency_by_name(choice->0@)),
{
    match choice {
        None => Err(Failure::UserCancelled),
        Some(name) => match find_by_name(name) {
            Some(currency) => Ok(currency),
            None => Err(Failure::InvalidCurrencyCode),
        },
    }
}

/// `n` asterisks.
pub open spec fn stars(n: nat) -> Seq<char> {
    Seq::new(n, |i: int| '*')
}

/// The credential as it is shown while it is asked for: one asterisk for
/// each character typed, or, while nothing is typed, one for each character
/// of the stored credential.
pub fn credential_mask(typed: &str, stored: Option<&str>) -> (mask: String)
    ensures
        typed@.len() > 0 ==> mask@ == stars(typed@.len()),
        typed@.len() == 0 && stored is Some ==> mask@ == stars(stored->0@.len()),
        typed@.len() == 0 && stored is None ==> mask@ == stars(0),
{
    let typed_length = typed.unicode_len();
    let length = if typed_length > 0 {
        typed_length
    } else {
        match stored {
            Some(old) => old.unicode_len(),
            None => 0,
        }
    };
    let mut mask = String::new();
    let mut i: usize = 0;
    while i < length
        invariant
            i <= length,
            mask@ == stars(i as nat),
        decreases length - i,
    {
        proof {
            reveal_strlit("*");
        }
        mask.append("*");
        i = i + 1;
        assert(mask@ =~= stars(i as nat));
    }
    assert(mask@ =~= stars(length as nat));
    mask
}

/// The credential to store after configuring: the one that was typed, or
/// the stored one where nothing was typed.
pub open spec fn kept_credential(existing: Option<Config>, typed: Seq<char>) -> Option<Seq<char>> {
    if typed.len() > 0 {
        Some(typed)
    } else {
        match existing {
            Some(config) => text_view(config.fca_api_key),
            None => None,
        }
    }
}

/// The question that the credential is asked for with.
pub const CREDENTIAL_MESSAGE: &'static str = "Freecurrency.com API key:";

/// The configuration after configuring: the current schema version, the
/// code of the currency that was chosen by name, and the credential. A
/// credential that was typed replaces the stored one; where nothing was
/// typed the stored one stays as it is. No name or no credential at all
/// means that the prompt was aborted, and a name that the registry does not
/// hold is refused.
pub fn configure(existing: Option<Config>, choice: Option<&str>, typed: Option<&str>) -> (res:
    Result<Config, Failure>)
    ensures
        choice is None ==> res matches Err(Failure::UserCancelled),
        choice is Some && currency_by_name(choice->0@) is None ==> res matches Err(
            Failure::InvalidCurrencyCode,
        ),
        choice is Some && currency_by_name(choice->0@) is Some && typed is None ==> res matches Err(
            Failure::UserCancelled,
        ),
        choice is Some && currency_by_name(choice->0@) is Some && typed is Some ==> {
            &&& res matches Ok(config)
            &&& config.version == CONFIG_VERSION
            &&& text_view(config.default_input_currency) == Some(
                currency_by_name(choice->0@)->0.code@,
            )
            &&& text_view(config.fca_api_key) == kept_credential(existing, typed->0@)
        },
{
    let currency = match selected_currency(choice) {
        Ok(currency) => currency,
        Err(e) => {
            return Err(e);
        },
    };
    let typed = match typed {
        Some(typed) => typed,
        None => {
            return Err(Failure::UserCancelled);
        },
    };
    let credential = if typed.unicode_len() > 0 {
        Some(String::from_str(typed))
    } else {
        match existing {
            Some(config) => config.fca_api_key,
            None => None,
        }
    };
    Ok(
        Config {
            version: CONFIG_VERSION,
            default_input_currency: Some(String::from_str(currency.code)),
            fca_api_key: credential,
        },
    )
}

/// The document that a configuration is written as: it holds the version,
/// and each of the two strings only where the configuration has it.
pub fn config_document(config: &Config) -> (doc: DocumentMut)
    ensures
        document_entries(doc) == config_entries(config@),
{
    let mut doc = new_document();
    set_integer(&mut doc, "version", config.version);
    match &config.default_input_currency {
        Some(code) => {
            set_text(&mut doc, "default_input_currency", code.as_str());
        },
        None => {},
    }
    match &config.fca_api_key {
        Some(key) => {
            set_text(&mut doc, "fca_api_key", key.as_str());
        },
        None => {},
    }
    doc
}

/// The text of the configuration file for a configuration: what
/// `toml_edit` writes out for a new document that holds the
/// configuration's entries and nothing else. It replaces the file's old
/// text as a whole.
pub fn render_config(config: &Config) -> (text: String)
    ensures
        exists|doc: DocumentMut|
            document_entries(doc) == config_entries(config@) && text@ == #[trigger] document_text(
                doc,
            ),
{
    let doc = config_document(config);
    render_document(&doc)
}

/// The three keys of the configuration file differ from one another.
proof fn lemma_keys_differ()
    ensures
        version_key() != currency_key(),
        version_key() != credential_key(),
        currency_key() != credential_key(),
{
    reveal_strlit("version");
    reveal_strlit("default_input_currency");
    reveal_strlit("fca_api_key");
    assert(version_key()[0] == 'v');
    assert(currency_key()[0] == 'd');
    assert(credential_key()[0] == 'f');
}

/// Reading back the entries that a configuration is written as gives the
/// same configuration, whichever of its two strings are present.
pub proof fn lemma_entries_round_trip(config: ConfigView)
    ensures
        config_of_entries(Some(config_entries(config))) matches Ok(read) && read == config,
{
    lemma_keys_differ();
}

} // verus!
