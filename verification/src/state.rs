//! The application state: the preferred dictionary, the word being looked
//! up, and the entries fetched last, together with the operations the
//! interface drives and the saved form of the state.
//!
//! The saved form holds the dictionary choice and the current word only:
//! fetched entries live for the session and are not saved.

use vstd::prelude::*;
use vstd::string::StringExecFns;
use crate::dictionary::{Dictionary, url_of, request_url};
use crate::entry::{Entry, entries_of, entries_view, decode_entries, opt_view};
use crate::json::{chars_of, range_string};

verus! {

/// Why a fetch produced no entries: the request itself failed, or the
/// response body did not decode as an entry list.
#[derive(Debug, PartialEq)]
pub enum FetchError {
    /// The transport failed before any body arrived; carries its report.
    Transport(String),
    /// The body was not a JSON array of well-formed entry objects.
    Decode,
}

/// The application state.
#[derive(Debug, PartialEq)]
pub struct VocabTrainer {
    /// The dictionary that requests are sent to.
    pub prefered_dictionary: Dictionary,
    /// The word in the input box, once one was typed.
    pub current_word: Option<String>,
    /// The entries of the last successful fetch.
    pub entries: Vec<Entry>,
}

/// The character that stands for a dictionary in the saved state.
pub open spec fn dictionary_mark(d: Dictionary) -> Seq<char> {
    match d {
        Dictionary::Learners => seq!['L'],
        Dictionary::Collegiate => seq!['C'],
    }
}

/// The saved form of a state: the dictionary mark, then `+` and the
/// current word where one is set.
pub open spec fn encode_state(d: Dictionary, w: Option<Seq<char>>) -> Seq<char> {
    dictionary_mark(d) + match w {
        None => Seq::<char>::empty(),
        Some(t) => seq!['+'] + t,
    }
}

/// What a saved blob denotes, or nothing where it is not a saved state.
pub open spec fn decode_state(s: Seq<char>) -> Option<(Dictionary, Option<Seq<char>>)> {
    if s.len() == 0 {
        None
    } else {
        let d = if s[0] == 'L' {
            Some(Dictionary::Learners)
        } else if s[0] == 'C' {
            Some(Dictionary::Collegiate)
        } else {
            None
        };
        match d {
            None => None,
            Some(d) => {
                if s.len() == 1 {
                    Some((d, None))
                } else if s[1] == '+' {
                    Some((d, Some(s.subrange(2, s.len() as int))))
                } else {
                    None
                }
            },
        }
    }
}

/// Saving a state and restoring it reproduces the dictionary choice and
/// the current word exactly, for every choice and every word.
pub proof fn lemma_persist_round_trip(d: Dictionary, w: Option<Seq<char>>)
    ensures
        decode_state(encode_state(d, w)) == Some((d, w)),
{
    let e = encode_state(d, w);
    match w {
        None => {
            assert(e.len() == 1);
        },
        Some(t) => {
            assert(e.len() == 2 + t.len());
            assert(e[1] == '+');
            assert(e.subrange(2, e.len() as int) =~= t);
        },
    }
}

/// Reads a saved blob back into its parts, as `decode_state` fixes them.
pub fn restore_state(blob: &str) -> (r: Option<(Dictionary, Option<String>)>)
    ensures
        match r {
            Some(p) => decode_state(blob@) matches Some(q) && p.0 == q.0 && opt_view(p.1) == q.1,
            None => decode_state(blob@) is None,
        },
{
    let s = chars_of(blob);
    if s.len() == 0 {
        return None;
    }
    let d = if s[0] == 'L' {
        Dictionary::Learners
    } else if s[0] == 'C' {
        Dictionary::Collegiate
    } else {
        return None;
    };
    if s.len() == 1 {
        Some((d, None))
    } else if s[1] == '+' {
        Some((d, Some(range_string(&s, 2, s.len()))))
    } else {
        None
    }
}

impl Default for VocabTrainer {
    /// The state before anything was typed or fetched: the Learners
    /// dictionary, no current word, no entries.
    fn default() -> (s: Self)
        ensures
            s.prefered_dictionary == Dictionary::Learners,
            s.current_word is None,
            s.entries@.len() == 0,
    {
        VocabTrainer {
            prefered_dictionary: Dictionary::Learners,
            current_word: None,
            entries: Vec::new(),
        }
    }
}

impl VocabTrainer {
    /// The state at startup: the saved state where one is present and
    /// readable, and the default state otherwise.
    pub fn initialize(saved: Option<&str>) -> (s: Self)
        ensures
            s.entries@.len() == 0,
            match saved {
                Some(blob) => match decode_state(blob@) {
                    Some(p) => s.prefered_dictionary == p.0 && opt_view(s.current_word) == p.1,
                    None => s.prefered_dictionary == Dictionary::Learners && s.current_word
                        is None,
                },
                None => s.prefered_dictionary == Dictionary::Learners && s.current_word is None,
            },
    {
        match saved {
            None => Default::default(),
            Some(blob) => match restore_state(blob) {
                None => Default::default(),
                Some(p) => VocabTrainer {
                    prefered_dictionary: p.0,
                    current_word: p.1,
                    entries: Vec::new(),
                },
            },
        }
    }

    /// Replaces the current word with `text`, unconditionally.
    pub fn set_current_word(&mut self, text: String)
        ensures
            final(self).current_word == Some(text),
            final(self).prefered_dictionary == old(self).prefered_dictionary,
            final(self).entries == old(self).entries,
    {
        self.current_word = Some(text);
    }

    /// The text the input box shows: the current word, or the placeholder
    /// before any word was typed.
    pub fn display_word(&self) -> (t: String)
        ensures
            match self.current_word {
                Some(w) => t@ == w@,
                None => t@ == "Enter a word to look up"@,
            },
    {
        match &self.current_word {
            Some(w) => w.clone(),
            None => "Enter a word to look up".to_owned(),
        }
    }

    /// The URL a fetch for `word` would request from the preferred
    /// dictionary.
    pub fn request_url(&self, word: &str) -> (url: String)
        ensures
            url@ == url_of(self.prefered_dictionary, word@),
    {
        request_url(self.prefered_dictionary, word)
    }

    /// Applies the outcome of a fetch: on a transport failure or a body
    /// that does not decode, reports the error and leaves the entries as
    /// they were; on a body that decodes, replaces the entries with the
    /// decoded ones, in the order the service sent them.
    pub fn fetch_definition(&mut self, response: Result<String, String>) -> (r: Result<
        (),
        FetchError,
    >)
        ensures
            final(self).prefered_dictionary == old(self).prefered_dictionary,
            final(self).current_word == old(self).current_word,
            match response {
                Err(m) => r == Err::<(), FetchError>(FetchError::Transport(m))
                    && final(self).entries == old(self).entries,
                Ok(body) => match entries_of(body@) {
                    Some(models) => r == Ok::<(), FetchError>(())
                        && entries_view(final(self).entries@) == models,
                    None => r == Err::<(), FetchError>(FetchError::Decode)
                        && final(self).entries == old(self).entries,
                },
            },
    {
        match response {
            Err(m) => Err(FetchError::Transport(m)),
            Ok(body) => match decode_entries(body.as_str()) {
                Some(v) => {
                    self.entries = v;
                    Ok(())
                },
                None => Err(FetchError::Decode),
            },
        }
    }

    /// The saved form of this state, as `encode_state` fixes it. Entries
    /// are session state and are not part of it.
    pub fn persist(&self) -> (blob: String)
        ensures
            blob@ == encode_state(self.prefered_dictionary, opt_view(self.current_word)),
    {
        let mut blob = String::new();
        match self.prefered_dictionary {
            Dictionary::Learners => blob.push('L'),
            Dictionary::Collegiate => blob.push('C'),
        }
        match &self.current_word {
            None => {},
            Some(w) => {
                blob.push('+');
                blob.append(w.as_str());
            },
        }
        proof {
            assert(blob@ =~= encode_state(self.prefered_dictionary, opt_view(self.current_word)));
        }
        blob
    }
}

} // verus!
