//! The settings of an npm client: what `.npmrc` files and the environment
//! say of the registry to ask and the token to send.

use vstd::prelude::*;
use vstd::hash_map::StringHashMap;
use crate::scan::{
    split_once, split_once_at, strip_prefix, strip_prefix_of, trim, trim_end_char, trim_end_matches,
    trim_space, trim_start_matches, trim_start_text,
};
use crate::text::{glue, glue3, split, split_on, to_chars, views};

verus! {

/// Settings by key, as text.
pub type Settings = Map<Seq<char>, Seq<char>>;

/// The text of `s` in lower case.
pub uninterp spec fn lowercased(s: Seq<char>) -> Seq<char>;

/// `s` with `-` in place of each `_`.
pub open spec fn dashed(s: Seq<char>) -> Seq<char> {
    Seq::new(
        s.len(),
        |i: int|
            if s[i] == '_' {
                '-'
            } else {
                s[i]
            },
    )
}

/// The setting that a line of an `.npmrc` file makes: key and value around
/// the first `=`, each without white space around it. Empty lines, lines
/// that start with `#` or `;`, and lines without `=` make none.
pub open spec fn line_entry(line: Seq<char>) -> Option<(Seq<char>, Seq<char>)> {
    let t = trim(line);
    if t.len() == 0 || t[0] == '#' || t[0] == ';' {
        None
    } else {
        match split_once(t, '=') {
            Some((key, value)) => Some((trim(key), trim(value))),
            None => None,
        }
    }
}

/// The settings that the lines make, in order.
pub open spec fn lines_entries(lines: Seq<Seq<char>>) -> Seq<(Seq<char>, Seq<char>)>
    decreases lines.len(),
{
    if lines.len() == 0 {
        Seq::<(Seq<char>, Seq<char>)>::empty()
    } else {
        let before = lines_entries(lines.drop_last());
        match line_entry(lines.last()) {
            Some(entry) => before.push(entry),
            None => before,
        }
    }
}

/// The settings that the text of an `.npmrc` file makes, in order.
pub open spec fn file_entries(content: Seq<char>) -> Seq<(Seq<char>, Seq<char>)> {
    lines_entries(split(content, '\n'))
}

/// The key of the setting that an environment variable makes: what follows
/// `NPM_CONFIG_` or `npm_config_` in its name, in lower case and with `-` for
/// `_`. Other variables make none.
pub open spec fn env_key(name: Seq<char>) -> Option<Seq<char>> {
    match strip_prefix(name, "NPM_CONFIG_"@) {
        Some(key) => Some(dashed(lowercased(key))),
        None => match strip_prefix(name, "npm_config_"@) {
            Some(key) => Some(dashed(lowercased(key))),
            None => None,
        },
    }
}

/// The settings that the variables of an environment make, in order.
pub open spec fn env_entries(variables: Seq<(Seq<char>, Seq<char>)>) -> Seq<(Seq<char>, Seq<char>)>
    decreases variables.len(),
{
    if variables.len() == 0 {
        Seq::<(Seq<char>, Seq<char>)>::empty()
    } else {
        let before = env_entries(variables.drop_last());
        match env_key(variables.last().0) {
            Some(key) => before.push((key, variables.last().1)),
            None => before,
        }
    }
}

/// The settings after `entries` were made one after another; a later one
/// replaces an earlier one with the same key.
pub open spec fn with_entries(settings: Settings, entries: Seq<(Seq<char>, Seq<char>)>) -> Settings
    decreases entries.len(),
{
    if entries.len() == 0 {
        settings
    } else {
        with_entries(settings, entries.drop_last()).insert(entries.last().0, entries.last().1)
    }
}

/// The texts of a map of strings.
pub open spec fn texts(m: Map<Seq<char>, String>) -> Settings {
    Map::new(|k: Seq<char>| m.contains_key(k), |k: Seq<char>| m[k]@)
}

/// The views of a sequence of pairs of strings.
pub open spec fn pair_views(pairs: Seq<(String, String)>) -> Seq<(Seq<char>, Seq<char>)> {
    Seq::new(pairs.len(), |i: int| (pairs[i].0@, pairs[i].1@))
}

/// The name of the environment variable that a value refers to: what stands
/// between `${` and `}` where the value has that form.
pub open spec fn env_reference(value: Seq<char>) -> Option<Seq<char>> {
    if value.len() >= 3 && value[0] == '$' && value[1] == '{' && value.last() == '}' {
        Some(value.subrange(2, value.len() - 1))
    } else {
        None
    }
}

/// A value with its reference to the environment resolved: the variable's
/// value, or nothing where the variable is not set.
pub open spec fn resolved(value: Seq<char>, environment: Settings) -> Seq<char> {
    match env_reference(value) {
        Some(name) => if environment.contains_key(name) {
            environment[name]
        } else {
            Seq::<char>::empty()
        },
        None => value,
    }
}

/// The address of a registry without slashes at its end.
pub open spec fn normalized_url(url: Seq<char>) -> Seq<char> {
    trim_end_char(url, '/')
}

/// The host part of a registry's address: without `https://` and `http://`
/// at its start and slashes at its end.
pub open spec fn host_of(url: Seq<char>) -> Seq<char> {
    trim_end_char(trim_start_text(trim_start_text(url, "https://"@), "http://"@), '/')
}

/// The registry to ask for a package of `scope`: the scope's own registry
/// where one is set, else the default one that is set, else the public one.
pub open spec fn registry_for(settings: Settings, scope: Option<Seq<char>>) -> Seq<char> {
    if scope is Some && settings.contains_key(scope->0 + ":registry"@) {
        normalized_url(settings[scope->0 + ":registry"@])
    } else if settings.contains_key("registry"@) {
        normalized_url(settings["registry"@])
    } else {
        "https://registry.npmjs.org"@
    }
}

/// The token to send to a registry: the one set for its host, else the one
/// set for all, each with its reference to the environment resolved.
pub open spec fn token_for(settings: Settings, environment: Settings, registry_url: Seq<char>)
    -> Option<Seq<char>> {
    let key = "//"@ + host_of(registry_url) + "/:_authToken"@;
    if settings.contains_key(key) {
        Some(resolved(settings[key], environment))
    } else if settings.contains_key("_authToken"@) {
        Some(resolved(settings["_authToken"@], environment))
    } else {
        None
    }
}

/// The text in lower case, by `str::to_lowercase`.
///
/// Not proved: that the outcome depends on the text alone, which is what
/// gives `lowercased` its meaning.
#[verifier::external_body]
fn lowercase(s: &str) -> (r: String)
    ensures
        r@ == lowercased(s@),
{
    s.to_lowercase()
}

/// `s` with `-` in place of each `_`.
pub fn with_dashes(s: &str) -> (r: String)
    ensures
        r@ == dashed(s@),
{
    let x = to_chars(s);
    let mut r = String::new();
    let mut i: usize = 0;
    proof {
        reveal_strlit("-");
    }
    while i < x.len()
        invariant
            i <= x.len(),
            x@ == s@,
            "-"@ == seq!['-'],
            r@ == dashed(s@).take(i as int),
        decreases x.len() - i,
    {
        if x[i] == '_' {
            r.append("-");
        } else {
            r.append(s.substring_char(i, i + 1));
            assert(s@.subrange(i as int, i + 1) == seq![s@[i as int]]);
        }
        assert(r@ == dashed(s@).take(i + 1));
        i += 1;
    }
    assert(dashed(s@).take(i as int) == dashed(s@));
    r
}

/// The address of a registry without slashes at its end.
pub fn normalize_registry_url(url: &str) -> (r: String)
    ensures
        r@ == normalized_url(url@),
{
    trim_end_matches(url, '/').to_owned()
}

/// The key of the setting that an environment variable makes, if it makes one.
pub fn env_setting_key(name: &str) -> (r: Option<String>)
    ensures
        match r {
            Some(key) => env_key(name@) == Some(key@),
            None => env_key(name@) is None,
        },
{
    let rest = match strip_prefix_of(name, "NPM_CONFIG_") {
        Some(rest) => Some(rest),
        None => strip_prefix_of(name, "npm_config_"),
    };
    match rest {
        Some(rest) => {
            let lower = lowercase(rest);
            Some(with_dashes(lower.as_str()))
        },
        None => None,
    }
}

/// The name of the environment variable that a value refers to, if it has
/// the form `${NAME}`.
pub fn env_reference_of<'a>(value: &'a str) -> (r: Option<&'a str>)
    ensures
        match r {
            Some(name) => env_reference(value@) == Some(name@),
            None => env_reference(value@) is None,
        },
{
    let x = to_chars(value);
    let n = x.len();
    if n >= 3 && x[0] == '$' && x[1] == '{' && x[n - 1] == '}' {
        Some(value.substring_char(2, n - 1))
    } else {
        None
    }
}

/// Makes the settings of the text of an `.npmrc` file, line by line.
pub fn parse_npmrc(content: &str, entries: &mut StringHashMap<String>)
    ensures
        texts(final(entries)@) == with_entries(texts(old(entries)@), file_entries(content@)),
{
    let lines = split_on(content, '\n');
    let ghost all = split(content@, '\n');
    let ghost start = texts(entries@);
    let mut i: usize = 0;
    assert(all.take(0) == Seq::<Seq<char>>::empty());
    while i < lines.len()
        invariant
            i <= lines.len(),
            views(lines@) == all,
            texts(entries@) == with_entries(start, lines_entries(all.take(i as int))),
        decreases lines.len() - i,
    {
        proof {
            let here = all.take(i + 1);
            assert(here.drop_last() == all.take(i as int));
            assert(here.last() == lines@[i as int]@);
        }
        let line = trim_space(lines[i]);
        let t = to_chars(line);
        if !(t.len() == 0 || t[0] == '#' || t[0] == ';') {
            match split_once_at(line, '=') {
                Some((key, value)) => {
                    let k = trim_space(key).to_owned();
                    let v = trim_space(value).to_owned();
                    let ghost before = entries@;
                    let ghost done = lines_entries(all.take(i as int));
                    entries.insert(k, v);
                    assert(texts(entries@) == texts(before).insert(k@, v@));
                    assert(done.push((k@, v@)).drop_last() == done);
                },
                None => {},
            }
        }
        i += 1;
    }
    assert(all.take(i as int) == all);
}

/// The settings of an npm client, and the environment they were read in.
pub struct NpmrcConfig {
    entries: StringHashMap<String>,
    env: StringHashMap<String>,
}

impl NpmrcConfig {
    /// The settings, by key.
    pub closed spec fn settings(&self) -> Settings {
        texts(self.entries@)
    }

    /// The variables of the environment, by name.
    pub closed spec fn environment(&self) -> Settings {
        texts(self.env@)
    }

    /// Loads the settings from the text of the user's `.npmrc`, the text of
    /// the project's, and the variables of the environment, where each is
    /// there. The project's file goes before the user's, and the environment
    /// before both.
    pub fn load(
        user: Option<&str>,
        project: Option<&str>,
        variables: &Vec<(String, String)>,
    ) -> (config: Self)
        ensures
            config.settings() == with_entries(
                with_entries(
                    with_entries(
                        Map::<Seq<char>, Seq<char>>::empty(),
                        match user {
                            Some(text) => file_entries(text@),
                            None => Seq::<(Seq<char>, Seq<char>)>::empty(),
                        },
                    ),
                    match project {
                        Some(text) => file_entries(text@),
                        None => Seq::<(Seq<char>, Seq<char>)>::empty(),
                    },
                ),
                env_entries(pair_views(variables@)),
            ),
            config.environment() == with_entries(
                Map::<Seq<char>, Seq<char>>::empty(),
                pair_views(variables@),
            ),
    {
        let mut entries: StringHashMap<String> = StringHashMap::new();
        assert(texts(entries@) == Map::<Seq<char>, Seq<char>>::empty());
        match user {
            Some(text) => {
                parse_npmrc(text, &mut entries);
            },
            None => {},
        }
        match project {
            Some(text) => {
                parse_npmrc(text, &mut entries);
            },
            None => {},
        }
        let mut env: StringHashMap<String> = StringHashMap::new();
        assert(texts(env@) == Map::<Seq<char>, Seq<char>>::empty());
        let ghost files = texts(entries@);
        let ghost all = pair_views(variables@);
        let mut i: usize = 0;
        assert(all.take(0) == Seq::<(Seq<char>, Seq<char>)>::empty());
        while i < variables.len()
            invariant
                i <= variables.len(),
                all == pair_views(variables@),
                texts(entries@) == with_entries(files, env_entries(all.take(i as int))),
                texts(env@) == with_entries(
                    Map::<Seq<char>, Seq<char>>::empty(),
                    all.take(i as int),
                ),
            decreases variables.len() - i,
        {
            proof {
                let here = all.take(i + 1);
                assert(here.drop_last() == all.take(i as int));
                assert(here.last() == (variables@[i as int].0@, variables@[i as int].1@));
            }
            let name = &variables[i].0;
            let value = &variables[i].1;
            match env_setting_key(name.as_str()) {
                Some(key) => {
                    let ghost before = entries@;
                    let ghost done = env_entries(all.take(i as int));
                    let v = value.clone();
                    entries.insert(key, v);
                    assert(texts(entries@) == texts(before).insert(key@, value@));
                    assert(done.push((key@, value@)).drop_last() == done);
                },
                None => {},
            }
            let ghost before = env@;
            env.insert(name.clone(), value.clone());
            assert(texts(env@) == texts(before).insert(name@, value@));
            i += 1;
        }
        assert(all.take(i as int) == all);
        NpmrcConfig { entries, env }
    }

    /// The registry to ask for a package of `scope`, such as `@myorg`, or for
    /// a package without scope.
    pub fn registry_url(&self, scope: Option<&str>) -> (url: String)
        ensures
            url@ == registry_for(
                self.settings(),
                match scope {
                    Some(s) => Some(s@),
                    None => None,
                },
            ),
    {
        match scope {
            Some(scope) => {
                let key = glue(scope, ":registry");
                match self.entries.get(key.as_str()) {
                    Some(url) => {
                        return normalize_registry_url(url.as_str());
                    },
                    None => {},
                }
            },
            None => {},
        }
        match self.entries.get("registry") {
            Some(url) => normalize_registry_url(url.as_str()),
            None => "https://registry.npmjs.org".to_owned(),
        }
    }

    /// A value with its reference to the environment resolved.
    pub fn resolve_env_var(&self, value: &str) -> (r: String)
        ensures
            r@ == resolved(value@, self.environment()),
    {
        match env_reference_of(value) {
            Some(name) => match self.env.get(name) {
                Some(v) => v.clone(),
                None => String::new(),
            },
            None => value.to_owned(),
        }
    }

    /// The token to send to the registry at `registry_url`, if one is set.
    pub fn auth_token(&self, registry_url: &str) -> (token: Option<String>)
        ensures
            match token {
                Some(t) => token_for(self.settings(), self.environment(), registry_url@) == Some(t@),
                None => token_for(self.settings(), self.environment(), registry_url@) is None,
            },
    {
        let host = trim_end_matches(
            trim_start_matches(trim_start_matches(registry_url, "https://"), "http://"),
            '/',
        );
        let key = glue3("//", host, "/:_authToken");
        match self.entries.get(key.as_str()) {
            Some(token) => {
                return Some(self.resolve_env_var(token.as_str()));
            },
            None => {},
        }
        match self.entries.get("_authToken") {
            Some(token) => Some(self.resolve_env_var(token.as_str())),
            None => None,
        }
    }
}

} // verus!
