//! Project settings, kept in `.bmo/config.toml`, and the keys by which the
//! command line reads and writes them. Reading and writing the file is left
//! to the program around the library.

use vstd::prelude::*;

use crate::model::issue::opt_text;
use crate::text::{concat, decimal, decimal_text, decimal_u16, owned, parse_u16, split_once, str_eq};

verus! {

/// The settings of one project.
#[derive(Debug)]
pub struct Config {
    pub project_name: Option<String>,
    pub default_assignee: Option<String>,
    pub web_port: Option<u16>,
    pub web_host: Option<String>,
}

/// The value of the settings, with texts as character sequences.
pub struct ConfigView {
    pub project_name: Option<Seq<char>>,
    pub default_assignee: Option<Seq<char>>,
    pub web_port: Option<u16>,
    pub web_host: Option<Seq<char>>,
}

impl View for Config {
    type V = ConfigView;

    open spec fn view(&self) -> ConfigView {
        ConfigView {
            project_name: opt_text(self.project_name),
            default_assignee: opt_text(self.default_assignee),
            web_port: self.web_port,
            web_host: opt_text(self.web_host),
        }
    }
}

impl Default for Config {
    /// No setting made.
    fn default() -> (r: Config)
        ensures
            r@ == (ConfigView { project_name: None, default_assignee: None, web_port: None, web_host: None }),
    {
        Config { project_name: None, default_assignee: None, web_port: None, web_host: None }
    }
}

/// Why a setting could not be read or written.
#[derive(Debug)]
pub enum ConfigError {
    /// `--set` was given text without `=`.
    MissingEquals,
    /// The value given for `web_port` is not a port number.
    BadPort,
    /// No setting has this key.
    UnknownKey(String),
}

impl ConfigError {
    pub open spec fn spec_message(&self) -> Seq<char> {
        match self {
            ConfigError::MissingEquals => "--set requires key=value format"@,
            ConfigError::BadPort => "web_port must be a number"@,
            ConfigError::UnknownKey(k) => "unknown config key: "@ + k@,
        }
    }

    pub fn message(&self) -> (r: String)
        ensures
            r@ == self.spec_message(),
    {
        match self {
            ConfigError::MissingEquals => owned("--set requires key=value format"),
            ConfigError::BadPort => owned("web_port must be a number"),
            ConfigError::UnknownKey(k) => concat("unknown config key: ", k.as_str()),
        }
    }
}

/// The text of `s` before its first `c` (all of `s` when it has none).
pub open spec fn before_first(s: Seq<char>, c: char) -> Seq<char>
    decreases s.len(),
{
    if s.len() == 0 {
        s
    } else if s[0] == c {
        seq![]
    } else {
        seq![s[0]] + before_first(s.drop_first(), c)
    }
}

/// The text of `s` after its first `c` (empty when it has none).
pub open spec fn after_first(s: Seq<char>, c: char) -> Seq<char>
    decreases s.len(),
{
    if s.len() == 0 {
        s
    } else if s[0] == c {
        s.drop_first()
    } else {
        after_first(s.drop_first(), c)
    }
}

/// Text cut at a `c` that nothing before it holds is cut at its first `c`.
pub proof fn lemma_first_split(a: Seq<char>, c: char, b: Seq<char>)
    requires
        !a.contains(c),
    ensures
        before_first(a + seq![c] + b, c) == a,
        after_first(a + seq![c] + b, c) == b,
    decreases a.len(),
{
    let s = a + seq![c] + b;
    if a.len() == 0 {
        assert(s[0] == c);
        assert(s.drop_first() =~= b);
    } else {
        assert(s[0] == a[0]);
        assert(a[0] != c) by {
            assert(a.contains(a[0]));
        }
        assert(!a.drop_first().contains(c)) by {
            if a.drop_first().contains(c) {
                let j = choose|j: int| 0 <= j < a.drop_first().len() && a.drop_first()[j] == c;
                assert(a[j + 1] == c);
            }
        }
        lemma_first_split(a.drop_first(), c, b);
        assert(s.drop_first() =~= a.drop_first() + seq![c] + b);
        assert(seq![a[0]] + a.drop_first() =~= a);
    }
}

/// The port served on: the one set, else 7777.
pub open spec fn spec_web_port(c: ConfigView) -> u16 {
    match c.web_port {
        Some(p) => p,
        None => 7777,
    }
}

/// The host served on: the one set, else `127.0.0.1`.
pub open spec fn spec_web_host(c: ConfigView) -> Seq<char> {
    match c.web_host {
        Some(h) => h,
        None => "127.0.0.1"@,
    }
}

/// What `--set key=value` makes of the settings: the new settings, or why
/// there are none.
pub open spec fn settings_after(c: ConfigView, kv: Seq<char>) -> Result<ConfigView, ConfigError> {
    let key = before_first(kv, '=');
    let value = after_first(kv, '=');
    if !kv.contains('=') {
        Err(ConfigError::MissingEquals)
    } else if key == "project_name"@ {
        Ok(ConfigView { project_name: Some(value), ..c })
    } else if key == "default_assignee"@ {
        Ok(ConfigView { default_assignee: Some(value), ..c })
    } else if key == "web_port"@ {
        match decimal_u16(value) {
            Some(p) => Ok(ConfigView { web_port: Some(p), ..c }),
            None => Err(ConfigError::BadPort),
        }
    } else if key == "web_host"@ {
        Ok(ConfigView { web_host: Some(value), ..c })
    } else {
        Err(ConfigError::UnknownKey(arbitrary()))
    }
}

/// What `--get key` shows: the value under the key, or why there is none.
pub open spec fn setting_shown(c: ConfigView, key: Seq<char>) -> Option<Seq<char>> {
    if key == "project_name"@ {
        Some(
            match c.project_name {
                Some(v) => v,
                None => seq![],
            },
        )
    } else if key == "default_assignee"@ {
        Some(
            match c.default_assignee {
                Some(v) => v,
                None => seq![],
            },
        )
    } else if key == "web_port"@ {
        Some(decimal_text(spec_web_port(c) as int))
    } else if key == "web_host"@ {
        Some(spec_web_host(c))
    } else {
        None
    }
}

impl Config {
    pub fn web_port(&self) -> (r: u16)
        ensures
            r == spec_web_port(self@),
    {
        match self.web_port {
            Some(p) => p,
            None => 7777,
        }
    }

    pub fn web_host(&self) -> (r: &str)
        ensures
            r@ == spec_web_host(self@),
    {
        match &self.web_host {
            Some(h) => h.as_str(),
            None => "127.0.0.1",
        }
    }

    /// Applies `key=value`. The text is cut at its first `=`; an unknown key,
    /// a text without `=`, or a `web_port` that is not a port number leaves
    /// the settings as they were.
    pub fn set(&mut self, kv: &str) -> (r: Result<(), ConfigError>)
        ensures
            match settings_after(old(self)@, kv@) {
                Ok(c) => r is Ok && final(self)@ == c,
                Err(e) => final(self)@ == old(self)@ && match e {
                    ConfigError::UnknownKey(_) => r matches Err(ConfigError::UnknownKey(k)) && k@ == before_first(kv@, '='),
                    ConfigError::MissingEquals => r matches Err(ConfigError::MissingEquals),
                    ConfigError::BadPort => r matches Err(ConfigError::BadPort),
                },
            },
    {
        let (key, value) = match split_once(kv, '=') {
            Some(p) => p,
            None => {
                return Err(ConfigError::MissingEquals);
            },
        };
        proof {
            lemma_first_split(key@, '=', value@);
            assert(kv@.contains('=')) by {
                assert(kv@[key@.len() as int] == '=');
            }
        }
        if str_eq(key, "project_name") {
            self.project_name = Some(owned(value));
            Ok(())
        } else if str_eq(key, "default_assignee") {
            self.default_assignee = Some(owned(value));
            Ok(())
        } else if str_eq(key, "web_port") {
            match parse_u16(value) {
                Some(p) => {
                    self.web_port = Some(p);
                    Ok(())
                },
                None => Err(ConfigError::BadPort),
            }
        } else if str_eq(key, "web_host") {
            self.web_host = Some(owned(value));
            Ok(())
        } else {
            Err(ConfigError::UnknownKey(owned(key)))
        }
    }

    /// The value under a key, as `--get` shows it: an unset name shows as
    /// empty text, the web port and host as the ones served on.
    pub fn get(&self, key: &str) -> (r: Result<String, ConfigError>)
        ensures
            match setting_shown(self@, key@) {
                Some(v) => r matches Ok(t) && t@ == v,
                None => r matches Err(ConfigError::UnknownKey(k)) && k@ == key@,
            },
    {
        if str_eq(key, "project_name") {
            Ok(
                match &self.project_name {
                    Some(v) => v.clone(),
                    None => String::new(),
                },
            )
        } else if str_eq(key, "default_assignee") {
            Ok(
                match &self.default_assignee {
                    Some(v) => v.clone(),
                    None => String::new(),
                },
            )
        } else if str_eq(key, "web_port") {
            Ok(decimal(self.web_port() as i64))
        } else if str_eq(key, "web_host") {
            Ok(owned(self.web_host()))
        } else {
            Err(ConfigError::UnknownKey(owned(key)))
        }
    }
}

/// What `--set` writes, `--get` reads back: under the key before the first
/// `=`, the text after it (for the web port, the decimal form of the port it
/// names). Every other key shows what it showed before.
pub proof fn lemma_set_then_get(c: ConfigView, kv: Seq<char>)
    ensures
        settings_after(c, kv) matches Ok(c2) ==> setting_shown(c2, before_first(kv, '=')) == Some(
            if before_first(kv, '=') == "web_port"@ {
                decimal_text(decimal_u16(after_first(kv, '='))->0 as int)
            } else {
                after_first(kv, '=')
            },
        ),
        settings_after(c, kv) matches Ok(c2) ==> forall|k: Seq<char>| k != before_first(kv, '=') ==> #[trigger] setting_shown(c2, k)
            == setting_shown(c, k),
{
    reveal_strlit("project_name");
    reveal_strlit("default_assignee");
    reveal_strlit("web_port");
    reveal_strlit("web_host");
    assert("project_name"@.len() == 12 && "default_assignee"@.len() == 16);
    assert("web_port"@.len() == 8 && "web_host"@.len() == 8 && "web_port"@[4] != "web_host"@[4]);
}

} // verus!
