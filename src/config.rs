//! The preprocessor's raw configuration table, as plain values.
use vstd::prelude::*;

verus! {

/// A value of the configuration table: a string, or anything else.
pub enum ConfigValue {
    Str(String),
    Other,
}

/// One key of the configuration table and its value.
pub struct ConfigEntry {
    pub key: String,
    pub value: ConfigValue,
}

/// The table of settings given to this preprocessor.
pub struct ConfigTable {
    pub entries: Vec<ConfigEntry>,
}

/// The value of the first entry whose key is `key`.
pub open spec fn lookup(entries: Seq<ConfigEntry>, key: Seq<char>) -> Option<ConfigValue>
    decreases entries.len(),
{
    if entries.len() == 0 {
        None
    } else if entries[0].key@ == key {
        Some(entries[0].value)
    } else {
        lookup(entries.drop_first(), key)
    }
}

/// The string stored under `key`, if the value there is a string.
pub open spec fn lookup_str(entries: Seq<ConfigEntry>, key: Seq<char>) -> Option<Seq<char>> {
    match lookup(entries, key) {
        Some(ConfigValue::Str(s)) => Some(s@),
        _ => None,
    }
}

proof fn lemma_lookup_from(entries: Seq<ConfigEntry>, key: Seq<char>, i: int)
    requires
        0 <= i < entries.len(),
        entries[i].key@ != key,
    ensures
        lookup(entries.subrange(i, entries.len() as int), key) == lookup(
            entries.subrange(i + 1, entries.len() as int),
            key,
        ),
{
    let s = entries.subrange(i, entries.len() as int);
    assert(s.drop_first() =~= entries.subrange(i + 1, entries.len() as int));
}

impl ConfigTable {
    /// An empty table.
    pub fn new() -> (r: ConfigTable)
        ensures
            r.entries@.len() == 0,
    {
        ConfigTable { entries: Vec::new() }
    }

    /// Index of the first entry whose key is `key`.
    fn position(&self, key: &str) -> (r: Option<usize>)
        ensures
            match r {
                Some(i) => i < self.entries@.len() && self.entries@[i as int].key@ == key@
                    && lookup(self.entries@, key@) == Some(self.entries@[i as int].value),
                None => lookup(self.entries@, key@) is None,
            },
    {
        let target = key.to_owned();
        let mut i: usize = 0;
        assert(self.entries@.subrange(0, self.entries@.len() as int) =~= self.entries@);
        while i < self.entries.len()
            invariant
                i <= self.entries@.len(),
                target@ == key@,
                lookup(self.entries@, key@) == lookup(
                    self.entries@.subrange(i as int, self.entries@.len() as int),
                    key@,
                ),
            decreases self.entries@.len() - i,
        {
            if self.entries[i].key == target {
                assert(self.entries@.subrange(i as int, self.entries@.len() as int)[0]
                    == self.entries@[i as int]);
                return Some(i);
            }
            proof {
                lemma_lookup_from(self.entries@, key@, i as int);
            }
            i = i + 1;
        }
        assert(self.entries@.subrange(i as int, self.entries@.len() as int).len() == 0);
        None
    }

    /// The value stored under `key`.
    pub fn get(&self, key: &str) -> (r: Option<&ConfigValue>)
        ensures
            match r {
                Some(v) => lookup(self.entries@, key@) == Some(*v),
                None => lookup(self.entries@, key@) is None,
            },
    {
        match self.position(key) {
            Some(i) => Some(&self.entries[i].value),
            None => None,
        }
    }

    /// Whether the table holds `key`.
    pub fn contains_key(&self, key: &str) -> (r: bool)
        ensures
            r == (lookup(self.entries@, key@) is Some),
    {
        self.position(key).is_some()
    }

    /// The string stored under `key`; `None` when the key is absent or its
    /// value is not a string.
    pub fn get_str(&self, key: &str) -> (r: Option<String>)
        ensures
            match r {
                Some(s) => lookup_str(self.entries@, key@) == Some(s@),
                None => lookup_str(self.entries@, key@) is None,
            },
    {
        match self.position(key) {
            Some(i) => match &self.entries[i].value {
                ConfigValue::Str(s) => Some(s.clone()),
                ConfigValue::Other => None,
            },
            None => None,
        }
    }

    /// Sets `key` to `value`, replacing the value it had.
    pub fn insert(&mut self, key: String, value: ConfigValue)
        ensures
            lookup(final(self).entries@, key@) == Some(value),
            forall|k: Seq<char>|
                k != key@ ==> lookup(final(self).entries@, k) == lookup(old(self).entries@, k),
    {
        let ghost k0 = key@;
        let e = ConfigEntry { key, value };
        let mut rest = Vec::new();
        rest.push(e);
        let ghost old_entries = self.entries@;
        rest.append(&mut self.entries);
        self.entries = rest;
        assert(self.entries@.drop_first() =~= old_entries);
    }
}

} // verus!
