use vstd::prelude::*;

verus! {

/// A settings value that is not an object, as far as the migration reads it.
#[derive(Debug, PartialEq, Eq)]
pub enum SettingValue {
    Flag(bool),
    Text(String),
    /// Any other JSON value, objects included.
    Other,
}

/// The value of a top-level settings key: an object, whose values are read
/// one level deep, or any other value.
#[derive(Debug, PartialEq, Eq)]
pub enum SettingsEntry {
    Object(Vec<(String, SettingValue)>),
    Value(SettingValue),
}

/// Writing the string `value` at the key path `path` of the settings.
#[derive(Debug, PartialEq, Eq)]
pub struct SettingWrite {
    pub path: Vec<String>,
    pub value: String,
}

/// Why a settings file could not be migrated.
#[derive(Clone, Copy, Debug, PartialEq, Eq, Structural)]
pub enum MigrationError {
    /// `agent.expand_terminal_card` is neither a boolean nor a display mode.
    InvalidExpandTerminalCard,
}

impl MigrationError {
    /// The message that reports the error.
    pub fn message(&self) -> (message: &'static str)
        ensures
            message@ == "Expected expand_terminal_card to be a boolean or valid enum value"@,
    {
        "Expected expand_terminal_card to be a boolean or valid enum value"
    }
}

/// The value of the first entry with key `key`, if any.
pub open spec fn entry_for<V>(entries: Seq<(String, V)>, key: Seq<char>) -> Option<V>
    decreases entries.len(),
{
    if entries.len() == 0 {
        None
    } else if entries[0].0@ == key {
        Some(entries[0].1)
    } else {
        entry_for(entries.drop_first(), key)
    }
}

/// The value at `agent.expand_terminal_card`, when `agent` is an object that
/// holds that key.
pub open spec fn expand_terminal_card_setting(settings: Seq<(String, SettingsEntry)>) -> Option<
    SettingValue,
> {
    match entry_for(settings, "agent"@) {
        Some(SettingsEntry::Object(agent)) => entry_for(agent@, "expand_terminal_card"@),
        _ => None,
    }
}

/// The display modes that `agent.expand_terminal_card` takes.
pub open spec fn is_display_mode(text: Seq<char>) -> bool {
    text == "auto"@ || text == "always_expanded"@ || text == "always_collapsed"@
}

/// The migration of `agent.expand_terminal_card` holding `current`: the
/// display mode to write in its place, or nothing to change, or an error.
pub open spec fn expand_terminal_card_migration(current: Option<SettingValue>) -> Result<
    Option<Seq<char>>,
    MigrationError,
> {
    match current {
        None => Ok(None),
        Some(SettingValue::Flag(true)) => Ok(Some("always_expanded"@)),
        Some(SettingValue::Flag(false)) => Ok(Some("always_collapsed"@)),
        Some(SettingValue::Text(text)) => if is_display_mode(text@) {
            Ok(None)
        } else {
            Err(MigrationError::InvalidExpandTerminalCard)
        },
        Some(SettingValue::Other) => Err(MigrationError::InvalidExpandTerminalCard),
    }
}

proof fn lemma_entry_for_skip<V>(entries: Seq<(String, V)>, key: Seq<char>, i: int)
    requires
        0 <= i < entries.len(),
        entries[i].0@ != key,
    ensures
        entry_for(entries.skip(i), key) == entry_for(entries.skip(i + 1), key),
{
    assert(entries.skip(i).drop_first() =~= entries.skip(i + 1));
}

/// The value of the first entry of `entries` with key `key`.
pub fn find_entry<'a, V>(entries: &'a [(String, V)], key: &str) -> (found: Option<&'a V>)
    ensures
        match found {
            Some(v) => entry_for(entries@, key@) == Some(*v),
            None => entry_for(entries@, key@) is None,
        },
{
    let wanted = String::from_str(key);
    let n = entries.len();
    let mut i: usize = 0;
    assert(entries@.skip(0) =~= entries@);
    while i < n
        invariant
            n == entries@.len(),
            i <= n,
            wanted@ == key@,
            entry_for(entries@, key@) == entry_for(entries@.skip(i as int), key@),
        decreases n - i,
    {
        let entry = &entries[i];
        if entry.0 == wanted {
            assert(entries@.skip(i as int)[0] == entries@[i as int]);
            return Some(&entry.1);
        }
        proof {
            lemma_entry_for_skip(entries@, key@, i as int);
        }
        i = i + 1;
    }
    assert(entries@.skip(n as int).len() == 0);
    None
}

/// The display mode that `agent.expand_terminal_card` holding `current`
/// migrates to: a boolean becomes a display mode, a display mode and an
/// absent setting stay, and anything else is refused.
pub fn expand_terminal_card_display_mode(current: Option<&SettingValue>) -> (result: Result<
    Option<String>,
    MigrationError,
>)
    ensures
        match (result, expand_terminal_card_migration(
            match current {
                Some(c) => Some(*c),
                None => None,
            },
        )) {
            (Ok(Some(mode)), Ok(Some(expected))) => mode@ == expected,
            (Ok(None), Ok(None)) => true,
            (Err(e), Err(expected)) => e == expected,
            _ => false,
        },
{
    match current {
        None => Ok(None),
        Some(SettingValue::Flag(true)) => Ok(Some(String::from_str("always_expanded"))),
        Some(SettingValue::Flag(false)) => Ok(Some(String::from_str("always_collapsed"))),
        Some(SettingValue::Text(text)) => {
            if *text == String::from_str("auto") || *text == String::from_str("always_expanded")
                || *text == String::from_str("always_collapsed") {
                Ok(None)
            } else {
                Err(MigrationError::InvalidExpandTerminalCard)
            }
        },
        Some(SettingValue::Other) => Err(MigrationError::InvalidExpandTerminalCard),
    }
}

/// Migrates `agent.expand_terminal_card` of the settings object `settings`
/// from a boolean to a display mode: the result is the write to make at that
/// key path, or nothing when the setting is absent or already a display mode;
/// anything else is refused.
pub fn make_expand_terminal_card_an_enum(settings: &[(String, SettingsEntry)]) -> (result: Result<
    Option<SettingWrite>,
    MigrationError,
>)
    ensures
        match (result, expand_terminal_card_migration(expand_terminal_card_setting(settings@))) {
            (Ok(Some(write)), Ok(Some(mode))) => write.value@ == mode && write.path@.len() == 2
                && write.path@[0]@ == "agent"@ && write.path@[1]@ == "expand_terminal_card"@,
            (Ok(None), Ok(None)) => true,
            (Err(e), Err(expected)) => e == expected,
            _ => false,
        },
{
    let current = match find_entry(settings, "agent") {
        Some(SettingsEntry::Object(agent)) => find_entry(agent.as_slice(), "expand_terminal_card"),
        _ => None,
    };
    match expand_terminal_card_display_mode(current) {
        Ok(Some(mode)) => {
            let mut path: Vec<String> = Vec::new();
            path.push(String::from_str("agent"));
            path.push(String::from_str("expand_terminal_card"));
            Ok(Some(SettingWrite { path, value: mode }))
        },
        Ok(None) => Ok(None),
        Err(e) => Err(e),
    }
}

} // verus!
