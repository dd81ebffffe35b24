//! Flash messages: short notes for the next page a user sees, kept in the
//! session under `_flash` as one text with the notes joined by commas.
use vstd::prelude::*;
use crate::text::{split_commas, split_on_commas, comma_free, lemma_split_append, lemma_split_comma_free};

verus! {

/// The notes that were waiting in the session.
pub struct FlashMessages {
    pub messages: Vec<String>,
}

impl Default for FlashMessages {
    fn default() -> (r: Self)
        ensures
            r.messages@ == Seq::<String>::empty(),
    {
        FlashMessages { messages: Vec::new() }
    }
}

/// The notes that a stored `_flash` text holds.
pub open spec fn flash_notes(stored: Seq<char>) -> Seq<Seq<char>> {
    split_commas(stored)
}

/// The views of a list of strings.
pub open spec fn views(v: Seq<String>) -> Seq<Seq<char>> {
    v.map_values(|p: String| p@)
}

impl FlashMessages {
    /// Takes the notes out of the session: the `_flash` entry is removed and
    /// its text split at the commas. Where there is no entry there are no
    /// notes to give.
    pub fn from_session(session: &mut Option<String>) -> (r: Option<FlashMessages>)
        ensures
            *final(session) == None::<String>,
            match *old(session) {
                Some(stored) => r matches Some(f) && views(f.messages@) == flash_notes(stored@),
                None => r is None,
            },
    {
        match session.take() {
            Some(stored) => Some(FlashMessages { messages: split_on_commas(stored.as_str()) }),
            None => None,
        }
    }
}

/// The notes of an optional `FlashMessages`, none where it is absent.
pub fn flashes_or_default(flash: Option<FlashMessages>) -> (r: Vec<String>)
    ensures
        match flash {
            Some(f) => r@ == f.messages@,
            None => r@ == Seq::<String>::empty(),
        },
{
    flash.unwrap_or_default().messages
}

/// The `_flash` text after `message` is added to `stored`: the message
/// alone, or appended after a comma.
pub open spec fn flash_added(stored: Option<String>, message: Seq<char>) -> Seq<char> {
    match stored {
        Some(s) => s@ + seq![','] + message,
        None => message,
    }
}

/// Adds a note to the session.
pub fn add_flash(session: &mut Option<String>, message: &str)
    ensures
        *final(session) matches Some(s) && s@ == flash_added(*old(session), message@),
{
    let next = match session.take() {
        Some(messages) => {
            let mut joined = messages;
            let comma = ",";
            proof {
                reveal_strlit(",");
            }
            joined.append(comma);
            joined.append(message);
            joined
        },
        None => message.to_owned(),
    };
    *session = Some(next);
}

/// A note added to the session is the last one taken out of it, after those
/// that were already waiting; a note has to be free of commas for this, as
/// the notes are joined by commas.
pub proof fn lemma_flash_roundtrip(stored: Option<String>, message: Seq<char>)
    requires
        comma_free(message),
    ensures
        flash_notes(flash_added(stored, message)) == match stored {
            Some(s) => flash_notes(s@).push(message),
            None => seq![message],
        },
{
    match stored {
        Some(s) => lemma_split_append(s@, message),
        None => lemma_split_comma_free(message),
    }
}


/// The `_flash` text once the notes have been added one by one to a
/// session that held none.
pub open spec fn joined_notes(notes: Seq<Seq<char>>) -> Seq<char>
    decreases notes.len(),
{
    if notes.len() == 0 {
        Seq::empty()
    } else if notes.len() == 1 {
        notes[0]
    } else {
        joined_notes(notes.drop_last()) + seq![','] + notes.last()
    }
}

/// Adding a note to a session that holds the earlier notes gives the text
/// of all of them.
pub proof fn law_flash_notes_accumulate(stored: Option<String>, notes: Seq<Seq<char>>, message: Seq<char>)
    requires
        notes.len() == 0 ==> stored is None,
        notes.len() > 0 ==> (stored matches Some(s) && s@ == joined_notes(notes)),
    ensures
        flash_added(stored, message) == joined_notes(notes.push(message)),
{
    assert(notes.push(message).drop_last() =~= notes);
}

/// Notes without commas, added one by one to a session that held none,
/// are taken out together, in the order they were added; the session is
/// then empty, so a second reading gives nothing (`from_session`).
pub proof fn law_flash_notes_come_back(notes: Seq<Seq<char>>)
    requires
        notes.len() >= 1,
        forall|i: int| 0 <= i < notes.len() ==> comma_free(#[trigger] notes[i]),
    ensures
        flash_notes(joined_notes(notes)) == notes,
    decreases notes.len(),
{
    if notes.len() == 1 {
        lemma_split_comma_free(notes[0]);
        assert(seq![notes[0]] =~= notes);
    } else {
        let pre = notes.drop_last();
        assert forall|i: int| 0 <= i < pre.len() implies comma_free(#[trigger] pre[i]) by {
            assert(pre[i] == notes[i]);
        }
        law_flash_notes_come_back(pre);
        assert(comma_free(notes[notes.len() - 1]));
        lemma_split_append(joined_notes(pre), notes.last());
        assert(pre.push(notes.last()) =~= notes);
    }
}

} // verus!
