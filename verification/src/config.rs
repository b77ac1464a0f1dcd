use vstd::prelude::*;

use crate::text;

verus! {

/// Where and how to connect to a database. `extra` holds dialect-specific settings as
/// key/value pairs; a later pair overrides an earlier one with the same key.
#[derive(Debug, Clone)]
pub struct ConnectionConfig {
    pub host: Option<String>,
    pub port: Option<u16>,
    pub user: Option<String>,
    pub password: Option<String>,
    pub database: String,
    pub socket: Option<String>,
    pub extra: Vec<(String, String)>,
}

/// The key/value pairs of `extra` as text.
pub open spec fn entry_views(extra: Seq<(String, String)>) -> Seq<(Seq<char>, Seq<char>)> {
    extra.map_values(|p: (String, String)| (p.0@, p.1@))
}

/// The value set for `key`: that of the last pair with this key.
pub open spec fn setting(entries: Seq<(Seq<char>, Seq<char>)>, key: Seq<char>) -> Option<Seq<char>>
    decreases entries.len(),
{
    if entries.len() == 0 {
        None
    } else if entries.last().0 == key {
        Some(entries.last().1)
    } else {
        setting(entries.drop_last(), key)
    }
}

impl ConnectionConfig {
    /// The value of a dialect-specific setting.
    pub open spec fn setting_of(&self, key: Seq<char>) -> Option<Seq<char>> {
        setting(entry_views(self.extra@), key)
    }

    /// The value of a dialect-specific setting, if one is given.
    pub fn extra_value(&self, key: &str) -> (r: Option<String>)
        ensures
            r matches Some(v) ==> self.setting_of(key@) == Some(v@),
            r is None ==> self.setting_of(key@) is None,
    {
        let mut i: usize = self.extra.len();
        assert(entry_views(self.extra@).take(i as int) =~= entry_views(self.extra@));
        while i > 0
            invariant
                i <= self.extra.len(),
                setting(entry_views(self.extra@), key@) == setting(
                    entry_views(self.extra@).take(i as int),
                    key@,
                ),
            decreases i,
        {
            let ghost entries = entry_views(self.extra@);
            assert(entries.take(i as int).drop_last() =~= entries.take(i - 1));
            let k = text::chars_of(self.extra[i - 1].0.as_str());
            if text::eq_str(k.as_slice(), key) {
                return Some(text::owned(self.extra[i - 1].1.as_str()));
            }
            i = i - 1;
        }
        assert(entry_views(self.extra@).take(0) =~= Seq::<(Seq<char>, Seq<char>)>::empty());
        None
    }
}

} // verus!
