//! The key-value editor: what is being typed, the entries saved so far, and
//! which screen is shown. The entries can be written out as one JSON object.

use vstd::prelude::*;

verus! {

/// The screen that the editor shows.
#[derive(Clone, Copy, Debug, PartialEq, Eq, Structural)]
pub enum CurrentScreen {
    Main,
    Editing,
    Exiting,
}

/// The input being typed into while editing.
#[derive(Clone, Copy, Debug, PartialEq, Eq, Structural)]
pub enum CurrentlyEditing {
    Key,
    Value,
}

/// The entries could not be written as JSON.
#[derive(Clone, Copy, Debug, PartialEq, Eq, Structural)]
pub struct EncodeError;

#[verifier::external_type_specification]
#[verifier::external_body]
pub struct ExJsonError(serde_json::Error);

/// The map that a list of entries stands for: a later entry for a key
/// replaces an earlier one.
pub open spec fn pairs_map(s: Seq<(String, String)>) -> Map<Seq<char>, Seq<char>>
    decreases s.len(),
{
    if s.len() == 0 {
        Map::empty()
    } else {
        pairs_map(s.drop_last()).insert(s.last().0@, s.last().1@)
    }
}

/// No two entries have the same key.
pub open spec fn keys_unique(s: Seq<(String, String)>) -> bool {
    forall|i: int, j: int|
        0 <= i < s.len() && 0 <= j < s.len() && i != j ==> #[trigger] s[i].0@ != #[trigger] s[j].0@
}

/// The text of the JSON object whose members are the entries of the map,
/// each value a JSON string.
pub uninterp spec fn json_object_text(m: Map<Seq<char>, Seq<char>>) -> Seq<char>;

/// Relies on serde_json::to_string on a `BTreeMap<&str, &str>`: it writes one
/// JSON object with a member for each entry. A `BTreeMap` is walked in key
/// order, so the text depends on the entries alone.
#[verifier::external_body]
fn entries_to_json(pairs: &Vec<(String, String)>) -> (r: Result<String, serde_json::Error>)
    requires
        keys_unique(pairs@),
    ensures
        r matches Ok(text) ==> text@ == json_object_text(pairs_map(pairs@)),
{
    let object: std::collections::BTreeMap<&str, &str> = pairs.iter().map(
        |p| (p.0.as_str(), p.1.as_str()),
    ).collect();
    serde_json::to_string(&object)
}

/// Writing a pushed entry is inserting it into the map.
proof fn lemma_pairs_map_push(s: Seq<(String, String)>, p: (String, String))
    ensures
        pairs_map(s.push(p)) == pairs_map(s).insert(p.0@, p.1@),
{
    assert(s.push(p).drop_last() =~= s);
}

/// Overwriting the entry of a key is inserting it into the map.
proof fn lemma_pairs_map_update(s: Seq<(String, String)>, i: int, p: (String, String))
    requires
        keys_unique(s),
        0 <= i < s.len(),
        s[i].0@ == p.0@,
    ensures
        pairs_map(s.update(i, p)) == pairs_map(s).insert(p.0@, p.1@),
    decreases s.len(),
{
    let t = s.update(i, p);
    let d = s.drop_last();
    if i == s.len() - 1 {
        assert(t.drop_last() =~= d);
        assert(pairs_map(t) =~= pairs_map(s).insert(p.0@, p.1@));
    } else {
        assert(t.drop_last() =~= d.update(i, p));
        assert(keys_unique(d)) by {
            assert forall|a: int, b: int|
                0 <= a < d.len() && 0 <= b < d.len() && a != b implies #[trigger] d[a].0@
                != #[trigger] d[b].0@ by {
                assert(d[a] == s[a] && d[b] == s[b]);
            }
        }
        lemma_pairs_map_update(d, i, p);
        assert(s[s.len() - 1].0@ != s[i].0@);
        assert(t.last() == s.last());
        assert(pairs_map(t) =~= pairs_map(s).insert(p.0@, p.1@));
    }
}

/// Where the key stands among the entries, if it does.
fn position_of(pairs: &Vec<(String, String)>, key: &String) -> (r: Option<usize>)
    ensures
        r matches Some(i) ==> i < pairs@.len() && pairs@[i as int].0@ == key@,
        r is None ==> forall|j: int| 0 <= j < pairs@.len() ==> pairs@[j].0@ != key@,
{
    let mut i: usize = 0;
    while i < pairs.len()
        invariant
            i <= pairs@.len(),
            forall|j: int| 0 <= j < i ==> pairs@[j].0@ != key@,
        decreases pairs@.len() - i,
    {
        if pairs[i].0 == *key {
            return Some(i);
        }
        i = i + 1;
    }
    None
}

/// The editor's state.
#[derive(Debug)]
pub struct App {
    pub key_input: String,
    pub value_input: String,
    /// The saved entries, in the order their keys were first saved.
    pub pairs: Vec<(String, String)>,
    pub current_screen: CurrentScreen,
    pub currently_editing: Option<CurrentlyEditing>,
}

impl App {
    /// The entries kept, one per key.
    pub open spec fn wf(&self) -> bool {
        keys_unique(self.pairs@)
    }

    /// The entries saved so far, from key to value.
    pub open spec fn entries(&self) -> Map<Seq<char>, Seq<char>> {
        pairs_map(self.pairs@)
    }

    /// An editor on the main screen, with empty inputs and no entries.
    pub fn new() -> (r: App)
        ensures
            r.wf(),
            r.entries() == Map::<Seq<char>, Seq<char>>::empty(),
            r.key_input@ == Seq::<char>::empty(),
            r.value_input@ == Seq::<char>::empty(),
            r.current_screen == CurrentScreen::Main,
            r.currently_editing is None,
    {
        App {
            key_input: String::new(),
            value_input: String::new(),
            pairs: Vec::new(),
            current_screen: CurrentScreen::Main,
            currently_editing: None,
        }
    }

    /// Saves the typed key with the typed value, replacing the value that
    /// the key had, then empties both inputs and stops editing.
    pub fn save_key_value(&mut self)
        requires
            old(self).wf(),
        ensures
            final(self).wf(),
            final(self).entries() == old(self).entries().insert(
                old(self).key_input@,
                old(self).value_input@,
            ),
            final(self).key_input@ == Seq::<char>::empty(),
            final(self).value_input@ == Seq::<char>::empty(),
            final(self).currently_editing is None,
            final(self).current_screen == old(self).current_screen,
    {
        let key = self.key_input.clone();
        let value = self.value_input.clone();
        match position_of(&self.pairs, &key) {
            Some(i) => {
                proof {
                    lemma_pairs_map_update(self.pairs@, i as int, (key, value));
                }
                self.pairs.set(i, (key, value));
            },
            None => {
                proof {
                    lemma_pairs_map_push(self.pairs@, (key, value));
                }
                self.pairs.push((key, value));
            },
        }
        self.key_input = String::new();
        self.value_input = String::new();
        self.currently_editing = None;
    }

    /// Starts editing the key, or moves between key and value.
    pub fn toggle_editing(&mut self)
        ensures
            final(self).currently_editing == match old(self).currently_editing {
                None => Some(CurrentlyEditing::Key),
                Some(CurrentlyEditing::Key) => Some(CurrentlyEditing::Value),
                Some(CurrentlyEditing::Value) => Some(CurrentlyEditing::Key),
            },
            final(self).key_input == old(self).key_input,
            final(self).value_input == old(self).value_input,
            final(self).pairs == old(self).pairs,
            final(self).current_screen == old(self).current_screen,
    {
        if let Some(edit_mode) = &self.currently_editing {
            match edit_mode {
                CurrentlyEditing::Key => self.currently_editing = Some(CurrentlyEditing::Value),
                CurrentlyEditing::Value => self.currently_editing = Some(CurrentlyEditing::Key),
            };
        } else {
            self.currently_editing = Some(CurrentlyEditing::Key);
        }
    }

    /// The entries as the text of one JSON object, each value a JSON string.
    pub fn json_text(&self) -> (r: Result<String, EncodeError>)
        requires
            self.wf(),
        ensures
            r matches Ok(text) ==> text@ == json_object_text(self.entries()),
    {
        encoded_or_error(entries_to_json(&self.pairs))
    }
}

/// Keeps the text of a successful encoding, and reports a failed one as
/// `EncodeError`.
pub fn encoded_or_error(r: Result<String, serde_json::Error>) -> (out: Result<String, EncodeError>)
    ensures
        r matches Ok(text) ==> out == Ok::<String, EncodeError>(text),
        r is Err <==> out is Err,
{
    match r {
        Ok(text) => Ok(text),
        Err(_) => Err(EncodeError),
    }
}

} // verus!
