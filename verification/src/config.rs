//! Configuration: where the settings come from, which one wins, and what makes
//! a combination of them usable.
//!
//! A setting is looked up in the process environment, then in the `.env` file
//! under `%APPDATA%`, then in the one beside the executable. The working
//! directory is never consulted.

use crate::text;
use vstd::prelude::*;

verus! {

pub const KEY_BACKEND: &'static str = "BACKEND";

pub const KEY_GROQ: &'static str = "GROQ_API_KEY";

pub const KEY_MODEL: &'static str = "WHISPER_MODEL_PATH";

pub const KEY_HOTKEY: &'static str = "HOTKEY";

/// The push-to-talk combination used when `HOTKEY` is not set.
pub const DEFAULT_HOTKEY: &'static str = "Ctrl+Alt+Space";

/// Which transcription backend is selected.
#[derive(Debug, Clone, Copy, PartialEq, Eq, Structural)]
pub enum Backend {
    Local,
    Groq,
}

/// The backend used when `BACKEND` is not set: the one that needs no model.
pub open spec fn default_backend() -> Backend {
    Backend::Groq
}

/// The backend that a `BACKEND` value names, in any letter case and with white
/// space around it.
pub open spec fn backend_of(value: Seq<char>) -> Option<Backend> {
    let name = text::lower(text::trimmed(value));
    if name == "local"@ {
        Some(Backend::Local)
    } else if name == "groq"@ {
        Some(Backend::Groq)
    } else {
        None
    }
}

impl Backend {
    pub open spec fn spec_name(self) -> Seq<char> {
        match self {
            Backend::Local => "Local"@,
            Backend::Groq => "Groq"@,
        }
    }

    /// The backend's name as menus and notices show it.
    pub fn name(&self) -> (res: &'static str)
        ensures
            res@ == self.spec_name(),
    {
        match self {
            Backend::Local => "Local",
            Backend::Groq => "Groq",
        }
    }

    /// Parses a `BACKEND` value.
    pub fn from_str(s: &str) -> (res: Result<Backend, ConfigError>)
        ensures
            match res {
                Ok(b) => backend_of(s@) == Some(b),
                Err(e) => {
                    &&& backend_of(s@) is None
                    &&& e matches ConfigError::UnknownBackend(v) && v@ == text::lower(text::trimmed(s@))
                },
            },
    {
        let name = text::to_ascii_lowercase(text::trim(s).as_str());
        if text::same_text(name.as_str(), "local") {
            Ok(Backend::Local)
        } else if text::same_text(name.as_str(), "groq") {
            Ok(Backend::Groq)
        } else {
            Err(ConfigError::UnknownBackend(name))
        }
    }
}

impl std::str::FromStr for Backend {
    type Err = ConfigError;

    fn from_str(s: &str) -> (res: Result<Self, ConfigError>)
        ensures
            match res {
                Ok(b) => backend_of(s@) == Some(b),
                Err(e) => {
                    &&& backend_of(s@) is None
                    &&& e matches ConfigError::UnknownBackend(v) && v@ == text::lower(text::trimmed(s@))
                },
            },
    {
        Backend::from_str(s)
    }
}

/// A credential. It has no `Debug` and no `Display`; what may be shown of it is
/// [`Secret::debug_text`] and [`Secret::display_text`], and the only way to
/// read it is [`Secret::expose`].
pub struct Secret {
    value: String,
}

impl View for Secret {
    type V = Seq<char>;

    closed spec fn view(&self) -> Seq<char> {
        self.value@
    }
}

impl Clone for Secret {
    fn clone(&self) -> (res: Self)
        ensures
            res@ == self@,
    {
        Secret { value: self.value.clone() }
    }
}

impl Secret {
    pub fn new(value: String) -> (res: Secret)
        ensures
            res@ == value@,
    {
        Secret { value }
    }

    /// Reveals the credential.
    pub fn expose(&self) -> (res: &str)
        ensures
            res@ == self@,
    {
        self.value.as_str()
    }

    /// What a debug rendering shows.
    pub fn debug_text(&self) -> (res: &'static str)
        ensures
            res@ == "Secret(***)"@,
    {
        "Secret(***)"
    }

    /// What a display rendering shows.
    pub fn display_text(&self) -> (res: &'static str)
        ensures
            res@ == "***"@,
    {
        "***"
    }
}

#[derive(Debug)]
pub enum ConfigError {
    /// `BACKEND` names no backend; holds the trimmed, lower-case value.
    UnknownBackend(String),
    MissingGroqKey,
    MissingModelPath,
    /// The model path names no existing file; holds the path.
    ModelFileMissing(String),
}

impl ConfigError {
    pub open spec fn spec_message(self) -> Seq<char> {
        match self {
            ConfigError::UnknownBackend(v) => "unknown BACKEND value '"@ + v@
                + "' (expected 'local' or 'groq')"@,
            ConfigError::MissingGroqKey => "BACKEND=groq requires GROQ_API_KEY to be set"@,
            ConfigError::MissingModelPath =>
                "BACKEND=local requires WHISPER_MODEL_PATH to be set"@,
            ConfigError::ModelFileMissing(p) =>
                "WHISPER_MODEL_PATH does not point to an existing file: "@ + p@,
        }
    }

    /// The error in words.
    pub fn message(&self) -> (res: String)
        ensures
            res@ == self.spec_message(),
    {
        match self {
            ConfigError::UnknownBackend(v) => {
                let mut m = "unknown BACKEND value '".to_owned();
                m.append(v.as_str());
                m.append("' (expected 'local' or 'groq')");
                m
            },
            ConfigError::MissingGroqKey => "BACKEND=groq requires GROQ_API_KEY to be set".to_owned(),
            ConfigError::MissingModelPath =>
                "BACKEND=local requires WHISPER_MODEL_PATH to be set".to_owned(),
            ConfigError::ModelFileMissing(p) => {
                let mut m =
                    "WHISPER_MODEL_PATH does not point to an existing file: ".to_owned();
                m.append(p.as_str());
                m
            },
        }
    }
}

/// The entries of one source of settings: a later entry hides an earlier one of
/// the same name.
pub struct EnvMap {
    entries: Vec<(String, String)>,
}

/// The map that a list of entries amounts to.
pub open spec fn env_of(entries: Seq<(String, String)>) -> Map<Seq<char>, Seq<char>>
    decreases entries.len(),
{
    if entries.len() == 0 {
        Map::empty()
    } else {
        env_of(entries.drop_last()).insert(entries.last().0@, entries.last().1@)
    }
}

impl View for EnvMap {
    type V = Map<Seq<char>, Seq<char>>;

    closed spec fn view(&self) -> Map<Seq<char>, Seq<char>> {
        env_of(self.entries@)
    }
}

impl EnvMap {
    pub fn new() -> (res: EnvMap)
        ensures
            res@ == Map::<Seq<char>, Seq<char>>::empty(),
    {
        EnvMap { entries: Vec::new() }
    }

    /// Sets `key` to `value`, whatever it was before.
    pub fn insert(&mut self, key: String, value: String)
        ensures
            final(self)@ == old(self)@.insert(key@, value@),
    {
        self.entries.push((key, value));
        proof {
            assert(self.entries@.drop_last() =~= old(self).entries@);
        }
    }

    pub fn get(&self, key: &str) -> (res: Option<&String>)
        ensures
            match res {
                Some(v) => self@.contains_key(key@) && v@ == self@[key@],
                None => !self@.contains_key(key@),
            },
    {
        let mut i: usize = self.entries.len();
        proof {
            assert(self.entries@.take(i as int) =~= self.entries@);
        }
        while i > 0
            invariant
                i <= self.entries@.len(),
                self@.contains_key(key@) == env_of(self.entries@.take(i as int)).contains_key(key@),
                self@.contains_key(key@) ==> self@[key@] == env_of(
                    self.entries@.take(i as int),
                )[key@],
            decreases i,
        {
            proof {
                assert(self.entries@.take(i as int).drop_last() =~= self.entries@.take(i - 1));
            }
            i = i - 1;
            if text::same_text(self.entries[i].0.as_str(), key) {
                return Some(&self.entries[i].1);
            }
        }
        None
    }

    pub fn is_empty(&self) -> (res: bool)
        ensures
            res == (self@ == Map::<Seq<char>, Seq<char>>::empty()),
    {
        proof {
            if self.entries@.len() > 0 {
                assert(self@.contains_key(self.entries@.last().0@));
            }
        }
        self.entries.len() == 0
    }
}

/// The value that a source gives `key`, trimmed; a value with nothing but white
/// space counts as none.
pub open spec fn given(source: Map<Seq<char>, Seq<char>>, key: Seq<char>) -> Option<Seq<char>> {
    if source.contains_key(key) && text::trimmed(source[key]).len() > 0 {
        Some(text::trimmed(source[key]))
    } else {
        None
    }
}

/// The value of `key` in the first of the three sources that gives it one.
pub open spec fn picked(
    env: Map<Seq<char>, Seq<char>>,
    appdata: Map<Seq<char>, Seq<char>>,
    exedir: Map<Seq<char>, Seq<char>>,
    key: Seq<char>,
) -> Option<Seq<char>> {
    if given(env, key) is Some {
        given(env, key)
    } else if given(appdata, key) is Some {
        given(appdata, key)
    } else {
        given(exedir, key)
    }
}

fn lookup(source: &EnvMap, key: &str) -> (res: Option<String>)
    ensures
        text::opt_view(res) == given(source@, key@),
{
    match source.get(key) {
        Some(v) => {
            let t = text::trim(v.as_str());
            if t.as_str().is_empty() {
                None
            } else {
                Some(t)
            }
        },
        None => None,
    }
}

fn pick(env: &EnvMap, appdata: &EnvMap, exedir: &EnvMap, key: &str) -> (res: Option<String>)
    ensures
        text::opt_view(res) == picked(env@, appdata@, exedir@, key@),
{
    match lookup(env, key) {
        Some(v) => Some(v),
        None => match lookup(appdata, key) {
            Some(v) => Some(v),
            None => lookup(exedir, key),
        },
    }
}

/// The settings, before it is known which backends can be had.
pub struct RawConfig {
    pub backend: Backend,
    pub groq_api_key: Option<Secret>,
    pub whisper_model_path: Option<String>,
    /// The push-to-talk combination, not yet parsed.
    pub hotkey: String,
}

/// What a [`RawConfig`] holds.
pub struct ConfigView {
    pub backend: Backend,
    pub groq_api_key: Option<Seq<char>>,
    pub whisper_model_path: Option<Seq<char>>,
    pub hotkey: Seq<char>,
}

impl View for RawConfig {
    type V = ConfigView;

    open spec fn view(&self) -> ConfigView {
        ConfigView {
            backend: self.backend,
            groq_api_key: match self.groq_api_key {
                Some(s) => Some(s@),
                None => None,
            },
            whisper_model_path: text::opt_view(self.whisper_model_path),
            hotkey: self.hotkey@,
        }
    }
}

impl Clone for RawConfig {
    fn clone(&self) -> (res: Self)
        ensures
            res@ == self@,
    {
        RawConfig {
            backend: self.backend,
            groq_api_key: match &self.groq_api_key {
                Some(s) => Some(s.clone()),
                None => None,
            },
            whisper_model_path: self.whisper_model_path.clone(),
            hotkey: self.hotkey.clone(),
        }
    }
}

/// The settings that three sources amount to, or the `BACKEND` value that names
/// no backend.
pub open spec fn resolved(
    env: Map<Seq<char>, Seq<char>>,
    appdata: Map<Seq<char>, Seq<char>>,
    exedir: Map<Seq<char>, Seq<char>>,
) -> Result<ConfigView, Seq<char>> {
    let named = picked(env, appdata, exedir, KEY_BACKEND@);
    let backend = match named {
        Some(v) => backend_of(v),
        None => Some(default_backend()),
    };
    match backend {
        Some(b) => Ok(
            ConfigView {
                backend: b,
                groq_api_key: picked(env, appdata, exedir, KEY_GROQ@),
                whisper_model_path: picked(env, appdata, exedir, KEY_MODEL@),
                hotkey: match picked(env, appdata, exedir, KEY_HOTKEY@) {
                    Some(h) => h,
                    None => DEFAULT_HOTKEY@,
                },
            },
        ),
        None => Err(text::lower(text::trimmed(named->0))),
    }
}

/// Resolves the settings from three sources, the first of them the strongest.
/// The one way to fail is a `BACKEND` value that names no backend.
pub fn resolve(env: &EnvMap, appdata: &EnvMap, exedir: &EnvMap) -> (res: Result<
    RawConfig,
    ConfigError,
>)
    ensures
        match resolved(env@, appdata@, exedir@) {
            Ok(view) => res matches Ok(cfg) && cfg@ == view,
            Err(value) => res matches Err(e) && e matches ConfigError::UnknownBackend(v)
                && v@ == value,
        },
{
    let backend = match pick(env, appdata, exedir, KEY_BACKEND) {
        Some(v) => match Backend::from_str(v.as_str()) {
            Ok(b) => b,
            Err(e) => return Err(e),
        },
        None => Backend::Groq,
    };
    let groq_api_key = match pick(env, appdata, exedir, KEY_GROQ) {
        Some(k) => Some(Secret::new(k)),
        None => None,
    };
    let hotkey = match pick(env, appdata, exedir, KEY_HOTKEY) {
        Some(h) => h,
        None => DEFAULT_HOTKEY.to_owned(),
    };
    Ok(
        RawConfig {
            backend,
            groq_api_key,
            whisper_model_path: pick(env, appdata, exedir, KEY_MODEL),
            hotkey,
        },
    )
}

/// What validation says of a configuration, given whether the model path names
/// an existing file.
pub open spec fn usable(cfg: ConfigView, model_is_file: bool) -> bool {
    match cfg.backend {
        Backend::Groq => cfg.groq_api_key is Some,
        Backend::Local => cfg.whisper_model_path is Some && model_is_file,
    }
}

impl RawConfig {
    /// Strict validation: the selected backend must have what it needs.
    /// `model_is_file` says whether `whisper_model_path` names an existing file;
    /// it plays no part where no path is set or another backend is selected.
    pub fn validate(&self, model_is_file: bool) -> (res: Result<(), ConfigError>)
        ensures
            res is Ok <==> usable(self@, model_is_file),
            res matches Err(e) ==> match self.backend {
                Backend::Groq => e is MissingGroqKey,
                Backend::Local => match self.whisper_model_path {
                    None => e is MissingModelPath,
                    Some(path) => e matches ConfigError::ModelFileMissing(p) && p@ == path@,
                },
            },
    {
        match self.backend {
            Backend::Groq => {
                if self.groq_api_key.is_none() {
                    return Err(ConfigError::MissingGroqKey);
                }
            },
            Backend::Local => {
                match &self.whisper_model_path {
                    None => return Err(ConfigError::MissingModelPath),
                    Some(path) => {
                        if !model_is_file {
                            return Err(ConfigError::ModelFileMissing(path.clone()));
                        }
                    },
                }
            },
        }
        Ok(())
    }

    /// A debug rendering in which the key is masked.
    pub fn debug_text(&self) -> (res: String)
        ensures
            res@ == debug_of(self@),
    {
        let mut m = "RawConfig { backend: ".to_owned();
        m.append(self.backend.name());
        m.append(", groq_api_key: ");
        match &self.groq_api_key {
            Some(key) => {
                m.append("Some(");
                m.append(key.debug_text());
                m.append(")");
            },
            None => m.append("None"),
        }
        m.append(", whisper_model_path: ");
        match &self.whisper_model_path {
            Some(path) => {
                m.append("Some(");
                m.append(quote_debug(path.as_str()).as_str());
                m.append(")");
            },
            None => m.append("None"),
        }
        m.append(", hotkey: ");
        m.append(quote_debug(self.hotkey.as_str()).as_str());
        m.append(" }");
        m
    }
}

/// The rendering of a configuration in which the key shows as `Secret(***)`.
pub open spec fn debug_of(cfg: ConfigView) -> Seq<char> {
    "RawConfig { backend: "@ + cfg.backend.spec_name() + ", groq_api_key: "@ + (
    match cfg.groq_api_key {
        Some(_) => "Some("@ + "Secret(***)"@ + ")"@,
        None => "None"@,
    }) + ", whisper_model_path: "@ + (match cfg.whisper_model_path {
        Some(path) => "Some("@ + debug_quoted(path) + ")"@,
        None => "None"@,
    }) + ", hotkey: "@ + debug_quoted(cfg.hotkey) + " }"@
}

/// The text as `Debug` for `str` prints it: in double quotes, with escapes.
pub uninterp spec fn debug_quoted(text: Seq<char>) -> Seq<char>;

/// Calls `Debug` for `str` from the standard library. The claim is that what it
/// prints is a function of the text; which characters it escapes, and how, is
/// left to the name [`debug_quoted`].
#[verifier::external_body]
fn quote_debug(text: &str) -> (res: String)
    ensures
        res@ == debug_quoted(text@),
{
    format!("{:?}", text)
}

/// The known settings as the process environment has them.
pub fn env_map(
    backend: Option<String>,
    groq_api_key: Option<String>,
    whisper_model_path: Option<String>,
    hotkey: Option<String>,
) -> (res: EnvMap)
    ensures
        res@ == with_entry(
            with_entry(
                with_entry(
                    with_entry(Map::empty(), KEY_BACKEND@, text::opt_view(backend)),
                    KEY_GROQ@,
                    text::opt_view(groq_api_key),
                ),
                KEY_MODEL@,
                text::opt_view(whisper_model_path),
            ),
            KEY_HOTKEY@,
            text::opt_view(hotkey),
        ),
        forall|name: Seq<char>| #[trigger]
            res@.contains_key(name) ==> name == "BACKEND"@ || name == "GROQ_API_KEY"@ || name
                == "WHISPER_MODEL_PATH"@ || name == "HOTKEY"@,
        backend is Some <==> res@.contains_key("BACKEND"@),
        backend matches Some(v) ==> res@["BACKEND"@] == v@,
        groq_api_key is Some <==> res@.contains_key("GROQ_API_KEY"@),
        groq_api_key matches Some(v) ==> res@["GROQ_API_KEY"@] == v@,
        whisper_model_path is Some <==> res@.contains_key("WHISPER_MODEL_PATH"@),
        whisper_model_path matches Some(v) ==> res@["WHISPER_MODEL_PATH"@] == v@,
        hotkey is Some <==> res@.contains_key("HOTKEY"@),
        hotkey matches Some(v) ==> res@["HOTKEY"@] == v@,
{
    proof {
        reveal_strlit("BACKEND");
        reveal_strlit("GROQ_API_KEY");
        reveal_strlit("WHISPER_MODEL_PATH");
        reveal_strlit("HOTKEY");
        assert("BACKEND"@.len() == 7 && "GROQ_API_KEY"@.len() == 12 && "WHISPER_MODEL_PATH"@.len()
            == 18 && "HOTKEY"@.len() == 6);
    }
    let mut map = EnvMap::new();
    if let Some(v) = backend {
        map.insert(KEY_BACKEND.to_owned(), v);
    }
    if let Some(v) = groq_api_key {
        map.insert(KEY_GROQ.to_owned(), v);
    }
    if let Some(v) = whisper_model_path {
        map.insert(KEY_MODEL.to_owned(), v);
    }
    if let Some(v) = hotkey {
        map.insert(KEY_HOTKEY.to_owned(), v);
    }
    map
}

/// `map` with `key` set to `value`, if there is a value.
pub open spec fn with_entry(
    map: Map<Seq<char>, Seq<char>>,
    key: Seq<char>,
    value: Option<Seq<char>>,
) -> Map<Seq<char>, Seq<char>> {
    match value {
        Some(v) => map.insert(key, v),
        None => map,
    }
}

/// The rows of a `.env` file: name and value, or nothing for a row that is no
/// assignment.
pub open spec fn row_views(rows: Seq<Option<(String, String)>>) -> Seq<
    Option<(Seq<char>, Seq<char>)>,
> {
    rows.map_values(
        |row: Option<(String, String)>|
            match row {
                Some((k, v)) => Some((k@, v@)),
                None => None,
            },
    )
}

/// The map that the rows of a `.env` file amount to: rows that are no assignment
/// are passed over, and of two rows for one name the later counts.
pub open spec fn rows_env<V>(rows: Seq<Option<(Seq<char>, V)>>) -> Map<Seq<char>, V>
    decreases rows.len(),
{
    if rows.len() == 0 {
        Map::empty()
    } else {
        match rows.last() {
            Some((k, v)) => rows_env(rows.drop_last()).insert(k, v),
            None => rows_env(rows.drop_last()),
        }
    }
}

/// The names a `.env` row can have: a letter or an underscore, then letters,
/// digits, underscores and dots.
pub open spec fn is_env_name(name: Seq<char>) -> bool {
    &&& name.len() > 0
    &&& is_env_letter(name[0])
    &&& forall|i: int|
        0 <= i < name.len() ==> (#[trigger] is_env_letter(name[i]) || '0' <= name[i] <= '9'
            || name[i] == '.')
}

pub open spec fn is_env_letter(c: char) -> bool {
    'a' <= c <= 'z' || 'A' <= c <= 'Z' || c == '_'
}

/// The rows that `dotenvy` reads from a file: name and value, or nothing for a row
/// that is no assignment. There is no value where the row writes a name after `$`
/// that is looked up in the process environment.
pub uninterp spec fn dotenv_rows(bytes: Seq<u8>) -> Seq<
    Option<(Seq<char>, Option<Seq<char>>)>,
>;

/// Whether a row that was read is the expected one, with any value where none is
/// expected.
pub open spec fn is_row(
    row: Option<(Seq<char>, Seq<char>)>,
    expected: Option<(Seq<char>, Option<Seq<char>>)>,
) -> bool {
    match expected {
        None => row is None,
        Some((name, value)) => row matches Some((k, v)) && k == name && (value is Some ==> value
            == Some(v)),
    }
}

/// Calls `dotenvy::from_read_iter` and takes every item it yields, an error as
/// `None`. Which rows there are, which of them are assignments and to which names
/// is a function of the bytes, and so is the value of a row in which no `$` asks for
/// a variable of the process environment; [`dotenv_rows`] names all that. (At the
/// end of a value the empty name is looked up too, which no variable has.) Nothing
/// is claimed of the values that are looked up. A file without `$` has none of them,
/// the names are of the form [`is_env_name`], and an empty file has no rows.
#[verifier::external_body]
fn env_rows(bytes: &[u8]) -> (rows: Vec<Option<(String, String)>>)
    ensures
        rows@.len() == dotenv_rows(bytes@).len(),
        forall|i: int|
            0 <= i < rows@.len() ==> is_row(
                #[trigger] row_views(rows@)[i],
                dotenv_rows(bytes@)[i],
            ),
        !bytes@.contains(0x24) ==> forall|i: int|
            0 <= i < rows@.len() ==> (#[trigger] dotenv_rows(bytes@)[i] matches Some((_, v)) ==> v
                is Some),
        bytes@.len() == 0 ==> rows@.len() == 0,
        forall|i: int|
            0 <= i < rows@.len() ==> (#[trigger] rows@[i] matches Some((k, _)) ==> is_env_name(k@)),
{
    dotenvy::from_read_iter(bytes).map(|row| row.ok()).collect()
}

/// The entries that a list of `.env` rows amounts to.
pub fn env_from_rows(rows: &Vec<Option<(String, String)>>) -> (res: EnvMap)
    ensures
        res@ == rows_env(row_views(rows@)),
{
    let mut map = EnvMap::new();
    let mut i: usize = 0;
    while i < rows.len()
        invariant
            i <= rows@.len(),
            map@ == rows_env(row_views(rows@.take(i as int))),
        decreases rows@.len() - i,
    {
        proof {
            let next = row_views(rows@.take(i + 1));
            assert(next.drop_last() =~= row_views(rows@.take(i as int)));
        }
        match &rows[i] {
            Some((k, v)) => map.insert(k.clone(), v.clone()),
            None => {},
        }
        i = i + 1;
    }
    proof {
        assert(rows@.take(i as int) =~= rows@);
    }
    map
}

/// The entries of a `.env` file, given its contents. The process environment is
/// not changed; a name that the file writes after `$` is looked up in it.
pub fn parse_env_file(bytes: &[u8]) -> (res: EnvMap)
    ensures
        res@.dom() == rows_env(dotenv_rows(bytes@)).dom(),
        forall|name: Seq<char>| #[trigger]
            res@.contains_key(name) ==> (rows_env(dotenv_rows(bytes@))[name] matches Some(v) ==> v
                == res@[name]),
        !bytes@.contains(0x24) ==> forall|name: Seq<char>| #[trigger]
            res@.contains_key(name) ==> rows_env(dotenv_rows(bytes@))[name] is Some,
        bytes@.len() == 0 ==> res@ == Map::<Seq<char>, Seq<char>>::empty(),
        forall|name: Seq<char>| #[trigger] res@.contains_key(name) ==> is_env_name(name),
{
    let rows = env_rows(bytes);
    proof {
        assert forall|i: int| 0 <= i < row_views(rows@).len() implies (
        #[trigger] row_views(rows@)[i] matches Some((k, _)) ==> is_env_name(k)) by {
            let row = rows@[i];
        }
        lemma_rows_names(row_views(rows@));
        lemma_rows_agree(row_views(rows@), dotenv_rows(bytes@));
        if !bytes@.contains(0x24) {
            lemma_rows_known(dotenv_rows(bytes@));
        }
    }
    env_from_rows(&rows)
}

proof fn lemma_rows_agree(
    rows: Seq<Option<(Seq<char>, Seq<char>)>>,
    expected: Seq<Option<(Seq<char>, Option<Seq<char>>)>>,
)
    requires
        rows.len() == expected.len(),
        forall|i: int| 0 <= i < rows.len() ==> is_row(#[trigger] rows[i], expected[i]),
    ensures
        rows_env(rows).dom() == rows_env(expected).dom(),
        forall|name: Seq<char>| #[trigger]
            rows_env(rows).contains_key(name) ==> (rows_env(expected)[name] matches Some(v) ==> v
                == rows_env(rows)[name]),
    decreases rows.len(),
{
    if rows.len() > 0 {
        let init = rows.drop_last();
        assert forall|i: int| 0 <= i < init.len() implies is_row(
            #[trigger] init[i],
            expected.drop_last()[i],
        ) by {
            assert(init[i] == rows[i]);
        }
        lemma_rows_agree(init, expected.drop_last());
        assert(is_row(rows[rows.len() - 1], expected[rows.len() - 1]));
        assert(rows_env(rows).dom() =~= rows_env(expected).dom());
        assert forall|name: Seq<char>| #[trigger] rows_env(rows).contains_key(name) implies (
        rows_env(expected)[name] matches Some(v) ==> v == rows_env(rows)[name]) by {
            if rows.last() matches Some((k, _)) && name == k {
            } else {
                assert(rows_env(init).contains_key(name));
            }
        }
    } else {
        assert(rows_env(rows).dom() =~= rows_env(expected).dom());
    }
}

proof fn lemma_rows_known(rows: Seq<Option<(Seq<char>, Option<Seq<char>>)>>)
    requires
        forall|i: int|
            0 <= i < rows.len() ==> (#[trigger] rows[i] matches Some((_, v)) ==> v is Some),
    ensures
        forall|name: Seq<char>| #[trigger]
            rows_env(rows).contains_key(name) ==> rows_env(rows)[name] is Some,
    decreases rows.len(),
{
    if rows.len() > 0 {
        let init = rows.drop_last();
        assert forall|i: int| 0 <= i < init.len() implies (#[trigger] init[i] matches Some((_, v))
            ==> v is Some) by {
            assert(init[i] == rows[i]);
        }
        lemma_rows_known(init);
        assert(rows.last() matches Some((_, v)) ==> v is Some);
        assert forall|name: Seq<char>| #[trigger] rows_env(rows).contains_key(
            name,
        ) implies rows_env(rows)[name] is Some by {
            if rows.last() matches Some((k, _)) && name == k {
            } else {
                assert(rows_env(init).contains_key(name));
            }
        }
    }
}

proof fn lemma_rows_names(rows: Seq<Option<(Seq<char>, Seq<char>)>>)
    requires
        forall|i: int|
            0 <= i < rows.len() ==> (#[trigger] rows[i] matches Some((k, _)) ==> is_env_name(k)),
    ensures
        forall|name: Seq<char>| #[trigger] rows_env(rows).contains_key(name) ==> is_env_name(name),
    decreases rows.len(),
{
    if rows.len() > 0 {
        let init = rows.drop_last();
        assert forall|i: int| 0 <= i < init.len() implies (#[trigger] init[i] matches Some((k, _))
            ==> is_env_name(k)) by {
            assert(init[i] == rows[i]);
        }
        lemma_rows_names(init);
        assert(rows.last() matches Some((k, _)) ==> is_env_name(k));
        assert forall|name: Seq<char>| #[trigger] rows_env(rows).contains_key(
            name,
        ) implies is_env_name(name) by {
            if rows.last() matches Some((k, _)) && name == k {
            } else {
                assert(rows_env(init).contains_key(name));
            }
        }
    }
}

/// Where a source gives a setting, it decides, and the weaker sources have no say
/// in it.
pub proof fn law_stronger_source_decides(
    env: Map<Seq<char>, Seq<char>>,
    appdata: Map<Seq<char>, Seq<char>>,
    exedir: Map<Seq<char>, Seq<char>>,
    key: Seq<char>,
)
    ensures
        given(env, key) is Some ==> picked(env, appdata, exedir, key) == given(env, key),
        given(env, key) is None && given(appdata, key) is Some ==> picked(env, appdata, exedir, key)
            == given(appdata, key),
        given(env, key) is None && given(appdata, key) is None ==> picked(env, appdata, exedir, key)
            == given(exedir, key),
{
}

/// A blank value counts as absent: the settings are those without it, so that the
/// next source is asked.
pub proof fn law_blank_counts_as_absent(
    env: Map<Seq<char>, Seq<char>>,
    appdata: Map<Seq<char>, Seq<char>>,
    exedir: Map<Seq<char>, Seq<char>>,
    key: Seq<char>,
    blank: Seq<char>,
)
    requires
        text::trimmed(blank).len() == 0,
    ensures
        resolved(env.insert(key, blank), appdata, exedir) == resolved(
            env.remove(key),
            appdata,
            exedir,
        ),
        resolved(env, appdata.insert(key, blank), exedir) == resolved(
            env,
            appdata.remove(key),
            exedir,
        ),
        resolved(env, appdata, exedir.insert(key, blank)) == resolved(
            env,
            appdata,
            exedir.remove(key),
        ),
{
    assert forall|source: Map<Seq<char>, Seq<char>>, k: Seq<char>| #[trigger]
        given(source.insert(key, blank), k) == given(source.remove(key), k) by {}
}

/// A setting that is found is never blank and has no white space at its ends.
pub proof fn law_settings_are_trimmed(
    env: Map<Seq<char>, Seq<char>>,
    appdata: Map<Seq<char>, Seq<char>>,
    exedir: Map<Seq<char>, Seq<char>>,
    key: Seq<char>,
)
    ensures
        picked(env, appdata, exedir, key) matches Some(v) ==> v.len() > 0 && text::trimmed(v) == v,
{
    if given(env, key) is Some {
        text::law_trim_is_idempotent(env[key]);
    } else if given(appdata, key) is Some {
        text::law_trim_is_idempotent(appdata[key]);
    } else if given(exedir, key) is Some {
        text::law_trim_is_idempotent(exedir[key]);
    }
}

/// The letter case of a `BACKEND` value does not matter.
pub proof fn law_backend_ignores_case(a: Seq<char>, b: Seq<char>)
    requires
        text::lower(a) == text::lower(b),
    ensures
        backend_of(a) == backend_of(b),
{
    text::law_trim_commutes_with_lower(a);
    text::law_trim_commutes_with_lower(b);
}

/// The debug rendering is the same whatever the key is: it shows only that there
/// is one.
pub proof fn law_debug_text_hides_the_key(a: ConfigView, b: ConfigView)
    requires
        a.backend == b.backend,
        a.groq_api_key is Some == b.groq_api_key is Some,
        a.whisper_model_path == b.whisper_model_path,
        a.hotkey == b.hotkey,
    ensures
        debug_of(a) == debug_of(b),
{
}

/// Where none of the sources has a setting, the backend is Groq, there is no key
/// and no model, and the hotkey is the default one.
pub proof fn law_unset_means_default(
    env: Map<Seq<char>, Seq<char>>,
    appdata: Map<Seq<char>, Seq<char>>,
    exedir: Map<Seq<char>, Seq<char>>,
)
    ensures
        picked(env, appdata, exedir, KEY_BACKEND@) is None ==> (resolved(
            env,
            appdata,
            exedir,
        ) matches Ok(cfg) && cfg.backend == Backend::Groq),
        resolved(env, appdata, exedir) matches Ok(cfg) ==> {
            &&& picked(env, appdata, exedir, KEY_GROQ@) is None ==> cfg.groq_api_key is None
            &&& picked(env, appdata, exedir, KEY_MODEL@) is None ==> cfg.whisper_model_path is None
            &&& picked(env, appdata, exedir, KEY_HOTKEY@) is None ==> cfg.hotkey
                == "Ctrl+Alt+Space"@
        },
{
}

/// A setting is, character for character, the trimmed value of its variable in the
/// strongest source that has one that is not blank. The sources are given from the
/// strongest to the weakest.
pub proof fn law_settings_are_as_written(
    sources: Seq<Map<Seq<char>, Seq<char>>>,
    i: int,
    key: Seq<char>,
)
    requires
        sources.len() == 3,
        0 <= i < 3,
        sources[i].contains_key(key),
        text::trimmed(sources[i][key]).len() > 0,
        forall|j: int|
            0 <= j < i && (#[trigger] sources[j]).contains_key(key) ==> text::trimmed(
                sources[j][key],
            ).len() == 0,
    ensures
        resolved(sources[0], sources[1], sources[2]) matches Ok(cfg) ==> {
            &&& key == "GROQ_API_KEY"@ ==> cfg.groq_api_key == Some(text::trimmed(sources[i][key]))
            &&& key == "WHISPER_MODEL_PATH"@ ==> cfg.whisper_model_path == Some(
                text::trimmed(sources[i][key]),
            )
            &&& key == "HOTKEY"@ ==> cfg.hotkey == text::trimmed(sources[i][key])
            &&& key == "BACKEND"@ && cfg.backend is Local ==> text::lower(
                text::trimmed(sources[i][key]),
            ) == "local"@
            &&& key == "BACKEND"@ && cfg.backend is Groq ==> text::lower(
                text::trimmed(sources[i][key]),
            ) == "groq"@
        },
        key == "BACKEND"@ && text::lower(text::trimmed(sources[i][key])) != "local"@ && text::lower(
            text::trimmed(sources[i][key]),
        ) != "groq"@ ==> resolved(sources[0], sources[1], sources[2]) == Err::<
            ConfigView,
            Seq<char>,
        >(text::lower(text::trimmed(sources[i][key]))),
        key == "BACKEND"@ && (text::lower(text::trimmed(sources[i][key])) == "local"@ || text::lower(
            text::trimmed(sources[i][key]),
        ) == "groq"@) ==> resolved(sources[0], sources[1], sources[2]) is Ok,
{
    let value = text::trimmed(sources[i][key]);
    assert(picked(sources[0], sources[1], sources[2], key) == Some(value)) by {
        if i > 0 {
            assert(given(sources[0], key) is None);
        }
        if i > 1 {
            assert(given(sources[1], key) is None);
        }
    }
    text::law_trim_is_idempotent(sources[i][key]);
}

/// A setting that no source has, or that all leave blank, is the default: the
/// backend Groq, no key, no model, and the hotkey `Ctrl+Alt+Space`.
pub proof fn law_missing_settings_are_default(
    sources: Seq<Map<Seq<char>, Seq<char>>>,
    key: Seq<char>,
)
    requires
        sources.len() == 3,
        forall|j: int|
            0 <= j < 3 && (#[trigger] sources[j]).contains_key(key) ==> text::trimmed(
                sources[j][key],
            ).len() == 0,
    ensures
        key == "BACKEND"@ ==> (resolved(sources[0], sources[1], sources[2]) matches Ok(cfg)
            && cfg.backend is Groq),
        resolved(sources[0], sources[1], sources[2]) matches Ok(cfg) ==> {
            &&& key == "GROQ_API_KEY"@ ==> cfg.groq_api_key is None
            &&& key == "WHISPER_MODEL_PATH"@ ==> cfg.whisper_model_path is None
            &&& key == "HOTKEY"@ ==> cfg.hotkey == "Ctrl+Alt+Space"@
        },
{
    assert(given(sources[0], key) is None);
    assert(given(sources[1], key) is None);
    assert(given(sources[2], key) is None);
}

/// A `BACKEND` value names a backend if and only if it is the backend's name, but for
/// white space around it and the case of its letters.
pub proof fn law_backend_by_name(value: Seq<char>)
    ensures
        backend_of(value) == Some(Backend::Local) <==> text::lower(text::trimmed(value))
            == "local"@,
        backend_of(value) == Some(Backend::Groq) <==> text::lower(text::trimmed(value)) == "groq"@,
        backend_of(value) is None <==> text::lower(text::trimmed(value)) != "local"@
            && text::lower(text::trimmed(value)) != "groq"@,
{
    reveal_strlit("local");
    reveal_strlit("groq");
    assert("local"@.len() != "groq"@.len());
}

/// A configuration is valid if and only if the selected backend has what it needs:
/// Groq a key, the local backend a path that names a file. What only the other
/// backend needs plays no part.
pub proof fn law_validation_asks_for_what_is_needed(cfg: ConfigView, model_is_file: bool)
    ensures
        cfg.backend is Groq ==> (usable(cfg, model_is_file) <==> cfg.groq_api_key is Some),
        cfg.backend is Local ==> (usable(cfg, model_is_file) <==> model_is_file
            && cfg.whisper_model_path is Some),
{
}

/// A configuration is seen as it is.
pub proof fn law_configurations_are_seen_whole(raw: RawConfig)
    ensures
        raw@.backend == raw.backend,
        raw.groq_api_key is None ==> raw@.groq_api_key is None,
        raw.groq_api_key matches Some(key) ==> raw@.groq_api_key == Some(key@),
        raw.whisper_model_path is None ==> raw@.whisper_model_path is None,
        raw.whisper_model_path matches Some(path) ==> raw@.whisper_model_path == Some(path@),
        raw@.hotkey == raw.hotkey@,
{
}

/// The rows of a file amount to the rows of its first part and then those of the
/// rest, which hide earlier ones of the same name. A row that is an assignment sets
/// its name to its value and nothing else; any other row sets nothing.
pub proof fn law_rows_count_in_order<V>(
    a: Seq<Option<(Seq<char>, V)>>,
    b: Seq<Option<(Seq<char>, V)>>,
    name: Seq<char>,
    value: V,
)
    ensures
        rows_env(a + b) == rows_env(a).union_prefer_right(rows_env(b)),
        rows_env(seq![Some((name, value))]) == Map::<Seq<char>, V>::empty().insert(name, value),
        rows_env(seq![None::<(Seq<char>, V)>]) == Map::<Seq<char>, V>::empty(),
        rows_env(Seq::<Option<(Seq<char>, V)>>::empty()) == Map::<Seq<char>, V>::empty(),
    decreases b.len(),
{
    let none = Seq::<Option<(Seq<char>, V)>>::empty();
    assert(seq![Some((name, value))].drop_last() =~= none);
    assert(seq![None::<(Seq<char>, V)>].drop_last() =~= none);
    assert(rows_env(none) =~= Map::empty());
    if b.len() == 0 {
        assert(a + b =~= a);
        assert(rows_env(a).union_prefer_right(rows_env(b)) =~= rows_env(a));
    } else {
        law_rows_count_in_order(a, b.drop_last(), name, value);
        assert((a + b).drop_last() =~= a + b.drop_last());
        assert(rows_env(a + b) =~= rows_env(a).union_prefer_right(rows_env(b)));
    }
}

/// Rows are seen as they are, each in its place.
pub proof fn law_rows_are_seen_whole(rows: Seq<Option<(String, String)>>, i: int)
    requires
        0 <= i < rows.len(),
    ensures
        row_views(rows).len() == rows.len(),
        rows[i] is None ==> row_views(rows)[i] is None,
        rows[i] matches Some((k, v)) ==> row_views(rows)[i] == Some((k@, v@)),
{
}

/// An error in words quotes the value or the path it is about, whole, between words
/// that do not depend on it.
pub proof fn law_config_errors_tell_the_value(value: String, other: String)
    ensures
        ConfigError::UnknownBackend(value).spec_message().subrange(23, 23 + value@.len() as int)
            == value@,
        ConfigError::UnknownBackend(value).spec_message().take(23) == ConfigError::UnknownBackend(
            other,
        ).spec_message().take(23),
        ConfigError::UnknownBackend(value).spec_message().skip(23 + value@.len() as int)
            == ConfigError::UnknownBackend(other).spec_message().skip(23 + other@.len() as int),
        ConfigError::ModelFileMissing(value).spec_message().skip(55) == value@,
        ConfigError::ModelFileMissing(value).spec_message().take(55)
            == ConfigError::ModelFileMissing(other).spec_message().take(55),
{
    reveal_strlit("unknown BACKEND value '");
    reveal_strlit("WHISPER_MODEL_PATH does not point to an existing file: ");
    let a = ConfigError::UnknownBackend(value).spec_message();
    let b = ConfigError::UnknownBackend(other).spec_message();
    let c = ConfigError::ModelFileMissing(value).spec_message();
    let d = ConfigError::ModelFileMissing(other).spec_message();
    assert(a.subrange(23, 23 + value@.len() as int) =~= value@);
    assert(a.take(23) =~= b.take(23));
    assert(a.skip(23 + value@.len() as int) =~= b.skip(23 + other@.len() as int));
    assert(c.skip(55) =~= value@);
    assert(c.take(55) =~= d.take(55));
}

/// The rendering of a configuration shows a key only as `Secret(***)`, and ends with
/// the hotkey as it is.
pub proof fn law_debug_text_shows_the_rest(cfg: ConfigView) -> (at: int)
    ensures
        cfg.groq_api_key is Some ==> 0 <= at && at + 11 <= debug_of(cfg).len() && debug_of(
            cfg,
        ).subrange(at, at + 11) == "Secret(***)"@,
        debug_of(cfg).len() >= debug_quoted(cfg.hotkey).len() + 2,
        debug_of(cfg).subrange(
            debug_of(cfg).len() - 2 - debug_quoted(cfg.hotkey).len(),
            debug_of(cfg).len() - 2,
        ) == debug_quoted(cfg.hotkey),
{
    reveal_strlit("Secret(***)");
    reveal_strlit("Some(");
    reveal_strlit(" }");
    let all = debug_of(cfg);
    let before = "RawConfig { backend: "@ + cfg.backend.spec_name() + ", groq_api_key: "@;
    let at = before.len() as int + 5;
    let hotkey = debug_quoted(cfg.hotkey);
    assert(all.subrange(all.len() - 2 - hotkey.len(), all.len() - 2) =~= hotkey);
    if cfg.groq_api_key is Some {
        assert(all.subrange(at, at + 11) =~= "Secret(***)"@);
    }
    at
}

}
