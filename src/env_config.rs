//! Configuration values by name, with their defaults.

use vstd::prelude::*;
use vstd::string::*;

verus! {

/// The port the service is served on.
pub const LS_SVC_PORT: &'static str = "LS_SVC_PORT";

/// The `host:port` of the watermark cache.
pub const REDIS_URL: &'static str = "REDIS_URL";

/// The cache key the watermark is stored under.
pub const REDIS_KEY_NAME: &'static str = "REDIS_KEY_NAME";

/// The schedule on which syncs run.
pub const LS_POLL_SCHEDULE: &'static str = "LS_POLL_SCHEDULE";

/// The log source account.
pub const NRLS_ACCOUNT_ID: &'static str = "NRLS_ACCOUNT_ID";

/// The key for the log source's query API.
pub const NRLS_API_KEY: &'static str = "NRLS_API_KEY";

/// The directory log files are kept in.
pub const LOG_DIRECTORY: &'static str = "LOG_DIRECTORY";

/// The prefix of log file names.
pub const LOG_FILE_PREFIX: &'static str = "LOG_FILE_PREFIX";

/// The extension of log file names.
pub const LOG_FILE_EXTENSION: &'static str = "LOG_FILE_EXTENSION";

/// The value of the first entry named `name`, if any.
pub open spec fn lookup(entries: Seq<(Seq<char>, Seq<char>)>, name: Seq<char>) -> Option<Seq<char>>
    decreases entries.len(),
{
    if entries.len() == 0 {
        None
    } else if entries[0].0 == name {
        Some(entries[0].1)
    } else {
        lookup(entries.drop_first(), name)
    }
}

/// The entries a configuration starts with, in this order.
pub open spec fn default_entries() -> Seq<(Seq<char>, Seq<char>)> {
    seq![
        (LOG_DIRECTORY@, "./"@),
        (LOG_FILE_PREFIX@, "app"@),
        (LOG_FILE_EXTENSION@, "log"@),
        (LS_POLL_SCHEDULE@, "0 1/5 * * * *"@),
        (LS_SVC_PORT@, "3333"@),
        (NRLS_ACCOUNT_ID@, ""@),
        (NRLS_API_KEY@, ""@),
        (REDIS_URL@, "127.0.0.1:6379"@),
        (REDIS_KEY_NAME@, "last_seen_timestamp"@),
    ]
}

proof fn lemma_lookup_at(entries: Seq<(Seq<char>, Seq<char>)>, name: Seq<char>, i: int)
    requires
        0 <= i <= entries.len(),
        forall|j: int| 0 <= j < i ==> #[trigger] entries[j].0 != name,
    ensures
        lookup(entries, name) == lookup(entries.subrange(i, entries.len() as int), name),
    decreases i,
{
    if i > 0 {
        let rest = entries.drop_first();
        assert forall|j: int| 0 <= j < i - 1 implies #[trigger] rest[j].0 != name by {
            assert(rest[j] == entries[j + 1]);
        }
        lemma_lookup_at(rest, name, i - 1);
        assert(rest.subrange(i - 1, rest.len() as int) =~= entries.subrange(i, entries.len() as int));
    } else {
        assert(entries.subrange(0, entries.len() as int) =~= entries);
    }
}

proof fn lemma_lookup_update(
    entries: Seq<(Seq<char>, Seq<char>)>,
    name: Seq<char>,
    i: int,
    value: Seq<char>,
    other: Seq<char>,
)
    requires
        0 <= i < entries.len(),
        entries[i].0 == name,
        forall|j: int| 0 <= j < i ==> #[trigger] entries[j].0 != name,
    ensures
        lookup(entries.update(i, (name, value)), name) == Some(value),
        other != name ==> lookup(entries.update(i, (name, value)), other) == lookup(entries, other),
    decreases i,
{
    let updated = entries.update(i, (name, value));
    if i > 0 {
        let rest = entries.drop_first();
        assert forall|j: int| 0 <= j < i - 1 implies #[trigger] rest[j].0 != name by {
            assert(rest[j] == entries[j + 1]);
        }
        lemma_lookup_update(rest, name, i - 1, value, other);
        assert(updated.drop_first() =~= rest.update(i - 1, (name, value)));
        assert(updated[0] == entries[0]);
    } else {
        assert(updated.drop_first() =~= entries.drop_first());
    }
}

/// Configuration values by name.
#[derive(Debug)]
pub struct EnvConfig {
    config: Vec<(String, String)>,
}

impl EnvConfig {
    /// The entries, in order.
    pub closed spec fn entries(&self) -> Seq<(Seq<char>, Seq<char>)> {
        self.config@.map_values(|p: (String, String)| (p.0@, p.1@))
    }

    /// The value configured for `name`, if it is a known name.
    pub open spec fn value(&self, name: Seq<char>) -> Option<Seq<char>> {
        lookup(self.entries(), name)
    }

    /// A configuration holding the default of every known name.
    pub fn new() -> (r: EnvConfig)
        ensures
            r.entries() == default_entries(),
    {
        let mut config: Vec<(String, String)> = Vec::new();
        config.push((String::from_str(LOG_DIRECTORY), String::from_str("./")));
        config.push((String::from_str(LOG_FILE_PREFIX), String::from_str("app")));
        config.push((String::from_str(LOG_FILE_EXTENSION), String::from_str("log")));
        config.push((String::from_str(LS_POLL_SCHEDULE), String::from_str("0 1/5 * * * *")));
        config.push((String::from_str(LS_SVC_PORT), String::from_str("3333")));
        config.push((String::from_str(NRLS_ACCOUNT_ID), String::from_str("")));
        config.push((String::from_str(NRLS_API_KEY), String::from_str("")));
        config.push((String::from_str(REDIS_URL), String::from_str("127.0.0.1:6379")));
        config.push((String::from_str(REDIS_KEY_NAME), String::from_str("last_seen_timestamp")));
        let r = EnvConfig { config };
        assert(r.entries() =~= default_entries());
        r
    }

    fn position(&self, name: &str) -> (r: Option<usize>)
        ensures
            r is None ==> self.value(name@) is None,
            r matches Some(i) ==> i < self.entries().len() && self.entries()[i as int].0 == name@
                && forall|j: int| 0 <= j < i ==> #[trigger] self.entries()[j].0 != name@,
    {
        let key = String::from_str(name);
        let mut i: usize = 0;
        while i < self.config.len()
            invariant
                i <= self.config.len(),
                key@ == name@,
                forall|j: int| 0 <= j < i ==> #[trigger] self.entries()[j].0 != name@,
            decreases self.config.len() - i,
        {
            if self.config[i].0 == key {
                return Some(i);
            }
            i = i + 1;
        }
        proof {
            lemma_lookup_at(self.entries(), name@, i as int);
        }
        None
    }

    /// Whether `name` is a known name.
    pub fn contains_key(&self, name: &str) -> (r: bool)
        ensures
            r == self.value(name@) is Some,
    {
        match self.position(name) {
            Some(i) => {
                proof {
                    lemma_lookup_at(self.entries(), name@, i as int);
                }
                true
            },
            None => false,
        }
    }

    /// The value configured for a known name.
    pub fn get_val(&self, env_var: &str) -> (r: String)
        requires
            self.value(env_var@) is Some,
        ensures
            Some(r@) == self.value(env_var@),
    {
        let i = self.position(env_var).unwrap();
        proof {
            lemma_lookup_at(self.entries(), env_var@, i as int);
        }
        self.config[i].1.clone()
    }

    /// Replaces the value of a known name; other names keep theirs, and an
    /// unknown name changes nothing.
    pub fn set_val(&mut self, env_var: &str, value: String)
        ensures
            old(self).value(env_var@) is Some ==> final(self).value(env_var@) == Some(value@),
            old(self).value(env_var@) is None ==> final(self).entries() == old(self).entries(),
            forall|other: Seq<char>|
                other != env_var@ ==> #[trigger] final(self).value(other) == old(self).value(other),
    {
        match self.position(env_var) {
            Some(i) => {
                let ghost before = self.entries();
                let name = String::from_str(env_var);
                self.config.set(i, (name, value));
                proof {
                    lemma_lookup_at(before, env_var@, i as int);
                    assert(self.entries() =~= before.update(i as int, (env_var@, value@)));
                    lemma_lookup_update(before, env_var@, i as int, value@, env_var@);
                    assert forall|other: Seq<char>| other != env_var@ implies #[trigger] self.value(
                        other,
                    ) == lookup(before, other) by {
                        lemma_lookup_update(before, env_var@, i as int, value@, other);
                    }
                }
            },
            None => {},
        }
    }

    /// The known names, in order.
    pub fn keys(&self) -> (r: Vec<String>)
        ensures
            r@.len() == self.entries().len(),
            forall|i: int| 0 <= i < r@.len() ==> #[trigger] r@[i]@ == self.entries()[i].0,
    {
        let mut r: Vec<String> = Vec::new();
        let mut i: usize = 0;
        while i < self.config.len()
            invariant
                i <= self.config.len(),
                r@.len() == i,
                forall|j: int| 0 <= j < i ==> #[trigger] r@[j]@ == self.entries()[j].0,
            decreases self.config.len() - i,
        {
            r.push(self.config[i].0.clone());
            i = i + 1;
        }
        r
    }
}

} // verus!
