//! How a postprocessor is asked for: by name, with settings.

use vstd::prelude::*;
use vstd::utf8::{encode_utf8, encode_utf8_decode_utf8};

verus! {

/// The value of one setting.
#[derive(Debug)]
pub enum ConfigValue {
    /// A switch.
    Flag(bool),
    /// A count or a size.
    Number(u64),
    /// A text.
    Text(String),
}

/// One setting: a key and its value.
#[derive(Debug)]
pub struct ConfigEntry {
    /// The name of the setting.
    pub key: String,
    /// The value of the setting.
    pub value: ConfigValue,
}

/// The name of a postprocessor and the settings it is to be made with.
#[derive(Debug)]
pub struct PostprocessorConfig {
    /// The name under which the postprocessor is registered.
    pub name: String,
    /// The settings, of which a postprocessor reads those it knows.
    pub config: Vec<ConfigEntry>,
}

/// The value under `key` in `entries`: that of the first entry with this key.
pub open spec fn setting(entries: Seq<ConfigEntry>, key: Seq<char>) -> Option<ConfigValue>
    decreases entries.len(),
{
    if entries.len() == 0 {
        None
    } else if entries[0].key@ == key {
        Some(entries[0].value)
    } else {
        setting(entries.skip(1), key)
    }
}

/// The text under `key` as bytes, where the setting is there and is a text.
pub open spec fn text_setting(entries: Seq<ConfigEntry>, key: Seq<char>) -> Option<Seq<u8>> {
    match setting(entries, key) {
        Some(ConfigValue::Text(text)) => Some(encode_utf8(text@)),
        _ => None,
    }
}

/// The switch under `key`, where the setting is there and is a switch.
pub open spec fn flag_setting(entries: Seq<ConfigEntry>, key: Seq<char>) -> Option<bool> {
    match setting(entries, key) {
        Some(ConfigValue::Flag(on)) => Some(on),
        _ => None,
    }
}

/// Whether two texts are the same.
pub fn str_eq(a: &str, b: &str) -> (r: bool)
    ensures
        r == (a@ == b@),
{
    let x = a.as_bytes();
    let y = b.as_bytes();
    if x.len() != y.len() {
        return false;
    }
    let mut i: usize = 0;
    while i < x.len()
        invariant
            x@ == encode_utf8(a@),
            y@ == encode_utf8(b@),
            x@.len() == y@.len(),
            i <= x@.len(),
            forall|j: int| 0 <= j < i ==> x@[j] == y@[j],
        decreases x@.len() - i,
    {
        if x[i] != y[i] {
            return false;
        }
        i = i + 1;
    }
    proof {
        assert(x@ =~= y@);
        encode_utf8_decode_utf8(a@);
        encode_utf8_decode_utf8(b@);
    }
    true
}

impl PostprocessorConfig {
    /// The request for the postprocessor `name` with no settings.
    pub fn from_name(name: &str) -> (r: Self)
        ensures
            r.name@ == name@,
            r.config@.len() == 0,
    {
        PostprocessorConfig { name: name.to_owned(), config: Vec::new() }
    }

    /// This request with one more setting, which counts only where the key
    /// is not set already.
    pub fn with(self, key: &str, value: ConfigValue) -> (r: Self)
        ensures
            r.name@ == self.name@,
            r.config@.len() == self.config@.len() + 1,
            forall|i: int| 0 <= i < self.config@.len() ==> r.config@[i] == self.config@[i],
            r.config@.last().key@ == key@,
            r.config@.last().value == value,
    {
        let mut r = self;
        r.config.push(ConfigEntry { key: key.to_owned(), value });
        r
    }

    /// The value of the setting `key`, if it is set.
    pub fn get(&self, key: &str) -> (r: Option<&ConfigValue>)
        ensures
            match r {
                Some(value) => setting(self.config@, key@) == Some(*value),
                None => setting(self.config@, key@) is None,
            },
    {
        let mut i: usize = 0;
        assert(self.config@.skip(0) =~= self.config@);
        while i < self.config.len()
            invariant
                i <= self.config@.len(),
                setting(self.config@, key@) == setting(self.config@.skip(i as int), key@),
            decreases self.config@.len() - i,
        {
            if str_eq(self.config[i].key.as_str(), key) {
                return Some(&self.config[i].value);
            }
            proof {
                assert(self.config@.skip(i as int).skip(1) =~= self.config@.skip(i + 1));
            }
            i = i + 1;
        }
        None
    }

    /// The text of the setting `key` as bytes, if it is set and is a text.
    pub fn text(&self, key: &str) -> (r: Option<Vec<u8>>)
        ensures
            match r {
                Some(bytes) => text_setting(self.config@, key@) == Some(bytes@),
                None => text_setting(self.config@, key@) is None,
            },
    {
        match self.get(key) {
            Some(ConfigValue::Text(text)) => Some(vstd::slice::slice_to_vec(text.as_str().as_bytes())),
            _ => None,
        }
    }

    /// The switch of the setting `key`, if it is set and is a switch.
    pub fn flag(&self, key: &str) -> (r: Option<bool>)
        ensures
            r == flag_setting(self.config@, key@),
    {
        match self.get(key) {
            Some(ConfigValue::Flag(on)) => Some(*on),
            _ => None,
        }
    }
}

} // verus!
