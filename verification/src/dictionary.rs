//! The choice of remote dictionary and the request URL built from it.

use vstd::prelude::*;
use vstd::string::StringExecFns;

verus! {

/// Which remote dictionary the application queries.
#[derive(Clone, Copy, PartialEq, Eq, Structural, Debug)]
pub enum Dictionary {
    Learners,
    Collegiate,
}

/// The common prefix of every request URL.
pub open spec fn base_url() -> Seq<char> {
    "https://dictionaryapi.com/api/v3/references/"@
}

/// The path segment that the chosen dictionary contributes.
pub open spec fn segment_of(d: Dictionary) -> Seq<char> {
    match d {
        Dictionary::Learners => "learners"@,
        Dictionary::Collegiate => "collegiate"@,
    }
}

/// Everything after the dictionary segment: the format segment, the word,
/// and the static API credential.
pub open spec fn word_and_key(word: Seq<char>) -> Seq<char> {
    "/json/"@ + word + "?key=a677e0ca-3c64-49e3-8366-ffaed5d8979a"@
}

/// The full request URL for looking `word` up in dictionary `d`.
pub open spec fn url_of(d: Dictionary, word: Seq<char>) -> Seq<char> {
    base_url() + segment_of(d) + word_and_key(word)
}

/// Builds the request URL for looking `word` up in dictionary `d`.
pub fn request_url(d: Dictionary, word: &str) -> (url: String)
    ensures
        url@ == url_of(d, word@),
{
    let mut url = "https://dictionaryapi.com/api/v3/references/".to_owned();
    match d {
        Dictionary::Learners => url.append("learners"),
        Dictionary::Collegiate => url.append("collegiate"),
    }
    url.append("/json/");
    url.append(word);
    url.append("?key=a677e0ca-3c64-49e3-8366-ffaed5d8979a");
    proof {
        assert(url@ =~= url_of(d, word@));
    }
    url
}

/// Switching the dictionary changes only the dictionary segment of the URL:
/// both URLs share the base, the word and the API-key suffix, and the two
/// segments themselves differ.
pub proof fn lemma_url_dictionary_switch(word: Seq<char>)
    ensures
        url_of(Dictionary::Learners, word) == base_url() + segment_of(Dictionary::Learners)
            + word_and_key(word),
        url_of(Dictionary::Collegiate, word) == base_url() + segment_of(Dictionary::Collegiate)
            + word_and_key(word),
        segment_of(Dictionary::Learners) != segment_of(Dictionary::Collegiate),
{
    reveal_strlit("learners");
    reveal_strlit("collegiate");
    assert(segment_of(Dictionary::Learners).len() == 8);
    assert(segment_of(Dictionary::Collegiate).len() == 10);
}

} // verus!
