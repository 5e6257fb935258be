//! Dictionary entries and the decoder that reads them out of a JSON
//! response body.
//!
//! An entry is one record for a headword: the headword itself (the member
//! `value` of the member `hwi`), an optional functional label (the member
//! `fl`, a string), and an optional ordered list of definition sections
//! (the member `def`, an array). The inner shape of a definition section
//! is deliberately left open: each section is kept as its raw JSON text.
//! Every other member of an entry object is ignored. The response body
//! must be a single JSON array of such objects.

use vstd::prelude::*;
use crate::json::{
    ws_end, step_pos, string_body, value_end, scan_ws, scan_string_body, scan_value,
    chars_to_string, range_string, chars_of, lemma_ws_end, lemma_string_body_end, lemma_value_end,
};

verus! {

/// One dictionary entry, as the decoder returns it.
#[derive(Debug, Clone, PartialEq)]
pub struct Entry {
    /// The canonical spelled form of the looked-up word.
    pub headword: String,
    /// The functional label (part of speech), when the service sends one.
    pub functional_label: Option<String>,
    /// The definition sections, each kept as its raw JSON text, when the
    /// service sends any.
    pub defs: Option<Vec<String>>,
}

/// The mathematical content of an `Entry`.
pub struct EntryModel {
    pub headword: Seq<char>,
    pub functional_label: Option<Seq<char>>,
    pub defs: Option<Seq<Seq<char>>>,
}

/// The view of an optional string.
pub open spec fn opt_view(o: Option<String>) -> Option<Seq<char>> {
    match o {
        Some(t) => Some(t@),
        None => None,
    }
}

/// The views of a list of strings.
pub open spec fn strs_view(v: Seq<String>) -> Seq<Seq<char>> {
    v.map_values(|t: String| t@)
}

/// The view of an optional list of strings.
pub open spec fn opt_strs_view(o: Option<Vec<String>>) -> Option<Seq<Seq<char>>> {
    match o {
        Some(v) => Some(strs_view(v@)),
        None => None,
    }
}

impl View for Entry {
    type V = EntryModel;

    open spec fn view(&self) -> EntryModel {
        EntryModel {
            headword: self.headword@,
            functional_label: opt_view(self.functional_label),
            defs: opt_strs_view(self.defs),
        }
    }
}

/// The models of a list of entries.
pub open spec fn entries_view(v: Seq<Entry>) -> Seq<EntryModel> {
    v.map_values(|e: Entry| e@)
}

/// The member that holds the headword information object.
pub open spec fn hwi_key() -> Seq<char> {
    seq!['h', 'w', 'i']
}

/// The member of the headword information object that holds the headword.
pub open spec fn value_key() -> Seq<char> {
    seq!['v', 'a', 'l', 'u', 'e']
}

/// The member that holds the functional label.
pub open spec fn fl_key() -> Seq<char> {
    seq!['f', 'l']
}

/// The member that holds the definition sections.
pub open spec fn def_key() -> Seq<char> {
    seq!['d', 'e', 'f']
}

/// The fields gathered while reading one entry object.
pub struct EntryAcc {
    pub hw: Option<Seq<char>>,
    pub fl: Option<Seq<char>>,
    pub defs: Option<Seq<Seq<char>>>,
}

/// Parses the headword information object at `i`: an object that must
/// hold a string member `value`, whose text is the result.
pub open spec fn hwi_value(s: Seq<char>, i: int) -> Option<(Seq<char>, int)>
    decreases s.len() - i, 0int,
{
    if i < 0 || i >= s.len() || s[i] != '{' {
        None
    } else {
        let k = step_pos(s, i, ws_end(s, i + 1));
        if k < s.len() && s[k] == '}' {
            None
        } else {
            match hwi_members(s, k, None) {
                None => None,
                Some(r) => match r.0 {
                    None => None,
                    Some(h) => Some((h, r.1)),
                },
            }
        }
    }
}

/// Parses the member list of a headword information object, gathering the
/// text of the `value` member.
pub open spec fn hwi_members(s: Seq<char>, i: int, found: Option<Seq<char>>) -> Option<
    (Option<Seq<char>>, int),
>
    decreases s.len() - i, 2int,
{
    if i < 0 || i >= s.len() || s[i] != '"' {
        None
    } else {
        match string_body(s, i + 1) {
            None => None,
            Some(key) => {
                let k = step_pos(s, i, ws_end(s, step_pos(s, i, key.1)));
                if !(k < s.len() && s[k] == ':') {
                    None
                } else {
                    let vs = step_pos(s, k, ws_end(s, k + 1));
                    let after = if key.0 == value_key() {
                        if found is Some {
                            None
                        } else if vs < s.len() && s[vs] == '"' {
                            match string_body(s, vs + 1) {
                                None => None,
                                Some(t) => Some((Some(t.0), t.1)),
                            }
                        } else {
                            None
                        }
                    } else {
                        match value_end(s, vs) {
                            None => None,
                            Some(e) => Some((found, e)),
                        }
                    };
                    match after {
                        None => None,
                        Some(f) => {
                            let k2 = step_pos(s, vs, ws_end(s, step_pos(s, vs, f.1)));
                            if k2 < s.len() && s[k2] == ',' {
                                hwi_members(s, step_pos(s, k2, ws_end(s, k2 + 1)), f.0)
                            } else if k2 < s.len() && s[k2] == '}' {
                                Some((f.0, k2 + 1))
                            } else {
                                None
                            }
                        },
                    }
                }
            },
        }
    }
}

/// Parses the definition sections at `i`: an array whose elements are kept
/// as their raw JSON text.
pub open spec fn def_value(s: Seq<char>, i: int) -> Option<(Seq<Seq<char>>, int)>
    decreases s.len() - i, 0int,
{
    if i < 0 || i >= s.len() || s[i] != '[' {
        None
    } else {
        let k = step_pos(s, i, ws_end(s, i + 1));
        if k < s.len() && s[k] == ']' {
            Some((Seq::empty(), k + 1))
        } else {
            def_items(s, k, Seq::empty())
        }
    }
}

/// Parses the elements of the definition array, keeping each element's raw
/// text, in order.
pub open spec fn def_items(s: Seq<char>, i: int, acc: Seq<Seq<char>>) -> Option<
    (Seq<Seq<char>>, int),
>
    decreases s.len() - i, 2int,
{
    if i < 0 || i >= s.len() {
        None
    } else {
        match value_end(s, i) {
            None => None,
            Some(e0) => {
                let e = step_pos(s, i, e0);
                let raw = s.subrange(i, e);
                let k = step_pos(s, i, ws_end(s, e));
                if k < s.len() && s[k] == ',' {
                    def_items(s, step_pos(s, k, ws_end(s, k + 1)), acc.push(raw))
                } else if k < s.len() && s[k] == ']' {
                    Some((acc.push(raw), k + 1))
                } else {
                    None
                }
            },
        }
    }
}

/// Parses the value of one entry member named `key`, folding it into the
/// gathered fields: `hwi` must be a headword information object, `fl` a
/// string, `def` an array; a repeated one of these is refused, and any
/// other member is skipped as an arbitrary JSON value.
pub open spec fn member_value(s: Seq<char>, i: int, key: Seq<char>, acc: EntryAcc) -> Option<
    (EntryAcc, int),
>
    decreases s.len() - i, 1int,
{
    if key == hwi_key() {
        if acc.hw is Some {
            None
        } else {
            match hwi_value(s, i) {
                None => None,
                Some(h) => Some(
                    (EntryAcc { hw: Some(h.0), fl: acc.fl, defs: acc.defs }, h.1),
                ),
            }
        }
    } else if key == fl_key() {
        if acc.fl is Some {
            None
        } else if 0 <= i < s.len() && s[i] == '"' {
            match string_body(s, i + 1) {
                None => None,
                Some(t) => Some((EntryAcc { hw: acc.hw, fl: Some(t.0), defs: acc.defs }, t.1)),
            }
        } else {
            None
        }
    } else if key == def_key() {
        if acc.defs is Some {
            None
        } else {
            match def_value(s, i) {
                None => None,
                Some(d) => Some(
                    (EntryAcc { hw: acc.hw, fl: acc.fl, defs: Some(d.0) }, d.1),
                ),
            }
        }
    } else {
        match value_end(s, i) {
            None => None,
            Some(e) => Some((acc, e)),
        }
    }
}

/// Parses the member list of one entry object, gathering its fields.
pub open spec fn entry_members(s: Seq<char>, i: int, acc: EntryAcc) -> Option<(EntryAcc, int)>
    decreases s.len() - i, 2int,
{
    if i < 0 || i >= s.len() || s[i] != '"' {
        None
    } else {
        match string_body(s, i + 1) {
            None => None,
            Some(key) => {
                let k = step_pos(s, i, ws_end(s, step_pos(s, i, key.1)));
                if !(k < s.len() && s[k] == ':') {
                    None
                } else {
                    let vs = step_pos(s, k, ws_end(s, k + 1));
                    match member_value(s, vs, key.0, acc) {
                        None => None,
                        Some(mv) => {
                            let k2 = step_pos(s, vs, ws_end(s, step_pos(s, vs, mv.1)));
                            if k2 < s.len() && s[k2] == ',' {
                                entry_members(s, step_pos(s, k2, ws_end(s, k2 + 1)), mv.0)
                            } else if k2 < s.len() && s[k2] == '}' {
                                Some((mv.0, k2 + 1))
                            } else {
                                None
                            }
                        },
                    }
                }
            },
        }
    }
}

/// Parses one entry at `i`: an object whose `hwi` member must yield a
/// headword.
pub open spec fn parse_entry(s: Seq<char>, i: int) -> Option<(EntryModel, int)>
    decreases s.len() - i, 2int,
{
    if i < 0 || i >= s.len() || s[i] != '{' {
        None
    } else {
        let k = step_pos(s, i, ws_end(s, i + 1));
        if k < s.len() && s[k] == '}' {
            None
        } else {
            match entry_members(s, k, EntryAcc { hw: None, fl: None, defs: None }) {
                None => None,
                Some(r) => match r.0.hw {
                    None => None,
                    Some(h) => Some(
                        (
                            EntryModel {
                                headword: h,
                                functional_label: r.0.fl,
                                defs: r.0.defs,
                            },
                            r.1,
                        ),
                    ),
                },
            }
        }
    }
}

/// Parses the comma-separated entries of the top-level array, in order.
pub open spec fn entry_list(s: Seq<char>, i: int, acc: Seq<EntryModel>) -> Option<
    (Seq<EntryModel>, int),
>
    decreases s.len() - i,
{
    if i < 0 || i >= s.len() {
        None
    } else {
        match parse_entry(s, i) {
            None => None,
            Some(r) => {
                let e = step_pos(s, i, r.1);
                let k = step_pos(s, i, ws_end(s, e));
                if k < s.len() && s[k] == ',' {
                    entry_list(s, step_pos(s, k, ws_end(s, k + 1)), acc.push(r.0))
                } else if k < s.len() && s[k] == ']' {
                    Some((acc.push(r.0), k + 1))
                } else {
                    None
                }
            },
        }
    }
}

/// What the whole response body denotes: the entry models, in the order
/// the service sent them, or nothing where the body is not a JSON array
/// of well-formed entry objects.
pub open spec fn entries_of(s: Seq<char>) -> Option<Seq<EntryModel>> {
    let k = ws_end(s, 0);
    if !(0 <= k < s.len()) {
        None
    } else if s[k] != '[' {
        None
    } else {
        let k2 = step_pos(s, k, ws_end(s, k + 1));
        if k2 < s.len() && s[k2] == ']' {
            if ws_end(s, k2 + 1) == s.len() {
                Some(Seq::empty())
            } else {
                None
            }
        } else {
            match entry_list(s, k2, Seq::empty()) {
                None => None,
                Some(r) => {
                    if ws_end(s, step_pos(s, k2, r.1)) == s.len() {
                        Some(r.0)
                    } else {
                        None
                    }
                },
            }
        }
    }
}

/// A successful headword-information parse ends after its start and
/// within the text.
pub proof fn lemma_hwi_value_end(s: Seq<char>, i: int)
    ensures
        hwi_value(s, i) matches Some(r) ==> i < r.1 <= s.len(),
    decreases s.len() - i, 0int,
{
    if 0 <= i < s.len() && s[i] == '{' {
        lemma_ws_end(s, i + 1);
        lemma_hwi_members_end(s, step_pos(s, i, ws_end(s, i + 1)), None);
    }
}

/// A successful headword-information member-list parse ends after its
/// start and within the text.
pub proof fn lemma_hwi_members_end(s: Seq<char>, i: int, found: Option<Seq<char>>)
    ensures
        hwi_members(s, i, found) matches Some(r) ==> i < r.1 <= s.len(),
    decreases s.len() - i, 2int,
{
    if 0 <= i < s.len() && s[i] == '"' {
        lemma_string_body_end(s, i + 1);
        match string_body(s, i + 1) {
            None => {},
            Some(key) => {
                lemma_ws_end(s, step_pos(s, i, key.1));
                let k = step_pos(s, i, ws_end(s, step_pos(s, i, key.1)));
                if k < s.len() && s[k] == ':' {
                    lemma_ws_end(s, k + 1);
                    let vs = step_pos(s, k, ws_end(s, k + 1));
                    if vs + 1 <= s.len() {
                        lemma_string_body_end(s, vs + 1);
                    }
                    lemma_value_end(s, vs);
                    let after = if key.0 == value_key() {
                        if found is Some {
                            None
                        } else if vs < s.len() && s[vs] == '"' {
                            match string_body(s, vs + 1) {
                                None => None,
                                Some(t) => Some((Some(t.0), t.1)),
                            }
                        } else {
                            None
                        }
                    } else {
                        match value_end(s, vs) {
                            None => None,
                            Some(e) => Some((found, e)),
                        }
                    };
                    match after {
                        None => {},
                        Some(f) => {
                            lemma_ws_end(s, step_pos(s, vs, f.1));
                            let k2 = step_pos(s, vs, ws_end(s, step_pos(s, vs, f.1)));
                            if k2 < s.len() && s[k2] == ',' {
                                lemma_ws_end(s, k2 + 1);
                                lemma_hwi_members_end(s, step_pos(s, k2, ws_end(s, k2 + 1)), f.0);
                            }
                        },
                    }
                }
            },
        }
    }
}

/// A successful definition-array parse ends after its start and within
/// the text.
pub proof fn lemma_def_value_end(s: Seq<char>, i: int)
    ensures
        def_value(s, i) matches Some(r) ==> i < r.1 <= s.len(),
    decreases s.len() - i, 0int,
{
    if 0 <= i < s.len() && s[i] == '[' {
        lemma_ws_end(s, i + 1);
        lemma_def_items_end(s, step_pos(s, i, ws_end(s, i + 1)), Seq::empty());
    }
}

/// A successful definition-item parse ends after its start and within
/// the text.
pub proof fn lemma_def_items_end(s: Seq<char>, i: int, acc: Seq<Seq<char>>)
    ensures
        def_items(s, i, acc) matches Some(r) ==> i < r.1 <= s.len(),
    decreases s.len() - i, 2int,
{
    if 0 <= i < s.len() {
        lemma_value_end(s, i);
        match value_end(s, i) {
            None => {},
            Some(e0) => {
                let e = step_pos(s, i, e0);
                let raw = s.subrange(i, e);
                lemma_ws_end(s, e);
                let k = step_pos(s, i, ws_end(s, e));
                if k < s.len() && s[k] == ',' {
                    lemma_ws_end(s, k + 1);
                    lemma_def_items_end(s, step_pos(s, k, ws_end(s, k + 1)), acc.push(raw));
                }
            },
        }
    }
}

/// A successful member-value parse ends after its start and within the
/// text.
pub proof fn lemma_member_value_end(s: Seq<char>, i: int, key: Seq<char>, acc: EntryAcc)
    ensures
        member_value(s, i, key, acc) matches Some(r) ==> i < r.1 <= s.len(),
    decreases s.len() - i, 1int,
{
    lemma_hwi_value_end(s, i);
    lemma_def_value_end(s, i);
    lemma_value_end(s, i);
    if 0 <= i + 1 <= s.len() {
        lemma_string_body_end(s, i + 1);
    }
}

/// A successful entry member-list parse ends after its start and within
/// the text.
pub proof fn lemma_entry_members_end(s: Seq<char>, i: int, acc: EntryAcc)
    ensures
        entry_members(s, i, acc) matches Some(r) ==> i < r.1 <= s.len(),
    decreases s.len() - i, 2int,
{
    if 0 <= i < s.len() && s[i] == '"' {
        lemma_string_body_end(s, i + 1);
        match string_body(s, i + 1) {
            None => {},
            Some(key) => {
                lemma_ws_end(s, step_pos(s, i, key.1));
                let k = step_pos(s, i, ws_end(s, step_pos(s, i, key.1)));
                if k < s.len() && s[k] == ':' {
                    lemma_ws_end(s, k + 1);
                    let vs = step_pos(s, k, ws_end(s, k + 1));
                    lemma_member_value_end(s, vs, key.0, acc);
                    match member_value(s, vs, key.0, acc) {
                        None => {},
                        Some(mv) => {
                            lemma_ws_end(s, step_pos(s, vs, mv.1));
                            let k2 = step_pos(s, vs, ws_end(s, step_pos(s, vs, mv.1)));
                            if k2 < s.len() && s[k2] == ',' {
                                lemma_ws_end(s, k2 + 1);
                                lemma_entry_members_end(s, step_pos(s, k2, ws_end(s, k2 + 1)), mv.0);
                            }
                        },
                    }
                }
            },
        }
    }
}

/// A successful entry parse ends after its start and within the text.
pub proof fn lemma_parse_entry_end(s: Seq<char>, i: int)
    ensures
        parse_entry(s, i) matches Some(r) ==> i < r.1 <= s.len(),
    decreases s.len() - i, 2int,
{
    if 0 <= i < s.len() && s[i] == '{' {
        lemma_ws_end(s, i + 1);
        lemma_entry_members_end(
            s,
            step_pos(s, i, ws_end(s, i + 1)),
            EntryAcc { hw: None, fl: None, defs: None },
        );
    }
}

/// A successful entry-list parse ends after its start and within the text.
pub proof fn lemma_entry_list_end(s: Seq<char>, i: int, acc: Seq<EntryModel>)
    ensures
        entry_list(s, i, acc) matches Some(r) ==> i < r.1 <= s.len(),
    decreases s.len() - i,
{
    if 0 <= i < s.len() {
        lemma_parse_entry_end(s, i);
        match parse_entry(s, i) {
            None => {},
            Some(r) => {
                let e = step_pos(s, i, r.1);
                lemma_ws_end(s, e);
                let k = step_pos(s, i, ws_end(s, e));
                if k < s.len() && s[k] == ',' {
                    lemma_ws_end(s, k + 1);
                    lemma_entry_list_end(s, step_pos(s, k, ws_end(s, k + 1)), acc.push(r.0));
                }
            },
        }
    }
}

/// Whether `k` spells `hwi`.
fn is_hwi_key(k: &Vec<char>) -> (b: bool)
    ensures
        b == (k@ == hwi_key()),
{
    let b = k.len() == 3 && k[0] == 'h' && k[1] == 'w' && k[2] == 'i';
    proof {
        if b {
            assert(k@ =~= hwi_key());
        }
    }
    b
}

/// Whether `k` spells `value`.
fn is_value_key(k: &Vec<char>) -> (b: bool)
    ensures
        b == (k@ == value_key()),
{
    let b = k.len() == 5 && k[0] == 'v' && k[1] == 'a' && k[2] == 'l' && k[3] == 'u' && k[4] == 'e';
    proof {
        if b {
            assert(k@ =~= value_key());
        }
    }
    b
}

/// Whether `k` spells `fl`.
fn is_fl_key(k: &Vec<char>) -> (b: bool)
    ensures
        b == (k@ == fl_key()),
{
    let b = k.len() == 2 && k[0] == 'f' && k[1] == 'l';
    proof {
        if b {
            assert(k@ =~= fl_key());
        }
    }
    b
}

/// Whether `k` spells `def`.
fn is_def_key(k: &Vec<char>) -> (b: bool)
    ensures
        b == (k@ == def_key()),
{
    let b = k.len() == 3 && k[0] == 'd' && k[1] == 'e' && k[2] == 'f';
    proof {
        if b {
            assert(k@ =~= def_key());
        }
    }
    b
}

/// The fields gathered so far while reading one entry object.
struct EntryPartial {
    hw: Option<String>,
    fl: Option<String>,
    defs: Option<Vec<String>>,
}

impl View for EntryPartial {
    type V = EntryAcc;

    closed spec fn view(&self) -> EntryAcc {
        EntryAcc { hw: opt_view(self.hw), fl: opt_view(self.fl), defs: opt_strs_view(self.defs) }
    }
}

/// Reads the headword information object at `i`, as `hwi_value` fixes it.
fn scan_hwi_value(s: &Vec<char>, i: usize) -> (r: Option<(String, usize)>)
    requires
        i <= s.len(),
    ensures
        match r {
            Some(p) => hwi_value(s@, i as int) matches Some(q) && p.0@ == q.0 && p.1 as int == q.1,
            None => hwi_value(s@, i as int) is None,
        },
{
    if i >= s.len() || s[i] != '{' {
        return None;
    }
    let k = scan_ws(s, i + 1);
    if k < s.len() && s[k] == '}' {
        return None;
    }
    match scan_hwi_members(s, k, None) {
        None => None,
        Some(r) => match r.0 {
            None => None,
            Some(h) => Some((h, r.1)),
        },
    }
}

/// Reads the member list of a headword information object, as
/// `hwi_members` fixes it.
fn scan_hwi_members(s: &Vec<char>, i: usize, found: Option<String>) -> (r: Option<
    (Option<String>, usize),
>)
    requires
        i <= s.len(),
    ensures
        match r {
            Some(p) => hwi_members(s@, i as int, opt_view(found)) matches Some(q) && opt_view(p.0)
                == q.0 && p.1 as int == q.1,
            None => hwi_members(s@, i as int, opt_view(found)) is None,
        },
    decreases s.len() - i, 2int,
{
    if i >= s.len() || s[i] != '"' {
        return None;
    }
    match scan_string_body(s, i + 1) {
        None => None,
        Some(key) => {
            proof {
                lemma_string_body_end(s@, i as int + 1);
            }
            let k = scan_ws(s, key.1);
            if !(k < s.len() && s[k] == ':') {
                return None;
            }
            let vs = scan_ws(s, k + 1);
            let after: Option<(Option<String>, usize)> = if is_value_key(&key.0) {
                if found.is_some() {
                    None
                } else if vs < s.len() && s[vs] == '"' {
                    match scan_string_body(s, vs + 1) {
                        None => None,
                        Some(t) => {
                            proof {
                                lemma_string_body_end(s@, vs as int + 1);
                            }
                            Some((Some(chars_to_string(&t.0)), t.1))
                        },
                    }
                } else {
                    None
                }
            } else {
                match scan_value(s, vs) {
                    None => None,
                    Some(e) => {
                        proof {
                            lemma_value_end(s@, vs as int);
                        }
                        Some((found, e))
                    },
                }
            };
            match after {
                None => None,
                Some(f) => {
                    let k2 = scan_ws(s, f.1);
                    if k2 < s.len() && s[k2] == ',' {
                        let n = scan_ws(s, k2 + 1);
                        scan_hwi_members(s, n, f.0)
                    } else if k2 < s.len() && s[k2] == '}' {
                        Some((f.0, k2 + 1))
                    } else {
                        None
                    }
                },
            }
        },
    }
}

/// Reads the definition array at `i`, as `def_value` fixes it.
fn scan_def_value(s: &Vec<char>, i: usize) -> (r: Option<(Vec<String>, usize)>)
    requires
        i <= s.len(),
    ensures
        match r {
            Some(p) => def_value(s@, i as int) matches Some(q) && strs_view(p.0@) == q.0 && p.1
                as int == q.1,
            None => def_value(s@, i as int) is None,
        },
{
    if i >= s.len() || s[i] != '[' {
        return None;
    }
    let k = scan_ws(s, i + 1);
    if k < s.len() && s[k] == ']' {
        proof {
            assert(strs_view(Seq::<String>::empty()) =~= Seq::<Seq<char>>::empty());
        }
        return Some((Vec::new(), k + 1));
    }
    proof {
        assert(strs_view(Seq::<String>::empty()) =~= Seq::<Seq<char>>::empty());
    }
    scan_def_items(s, k, Vec::new())
}

/// Reads the elements of the definition array, as `def_items` fixes it.
fn scan_def_items(s: &Vec<char>, i: usize, acc: Vec<String>) -> (r: Option<(Vec<String>, usize)>)
    requires
        i <= s.len(),
    ensures
        match r {
            Some(p) => def_items(s@, i as int, strs_view(acc@)) matches Some(q) && strs_view(p.0@)
                == q.0 && p.1 as int == q.1,
            None => def_items(s@, i as int, strs_view(acc@)) is None,
        },
    decreases s.len() - i, 2int,
{
    if i >= s.len() {
        return None;
    }
    match scan_value(s, i) {
        None => None,
        Some(e) => {
            proof {
                lemma_value_end(s@, i as int);
            }
            let raw = range_string(s, i, e);
            let ghost acc0: Seq<Seq<char>> = strs_view(acc@);
            let mut acc2 = acc;
            acc2.push(raw);
            proof {
                assert(strs_view(acc2@) =~= acc0.push(s@.subrange(i as int, e as int)));
            }
            let k = scan_ws(s, e);
            if k < s.len() && s[k] == ',' {
                let n = scan_ws(s, k + 1);
                scan_def_items(s, n, acc2)
            } else if k < s.len() && s[k] == ']' {
                Some((acc2, k + 1))
            } else {
                None
            }
        },
    }
}

/// Reads the value of one entry member, as `member_value` fixes it.
fn scan_member_value(s: &Vec<char>, i: usize, key: &Vec<char>, acc: EntryPartial) -> (r: Option<
    (EntryPartial, usize),
>)
    requires
        i <= s.len(),
    ensures
        match r {
            Some(p) => member_value(s@, i as int, key@, acc@) matches Some(q) && p.0@ == q.0 && p.1
                as int == q.1,
            None => member_value(s@, i as int, key@, acc@) is None,
        },
{
    if is_hwi_key(key) {
        if acc.hw.is_some() {
            None
        } else {
            match scan_hwi_value(s, i) {
                None => None,
                Some(h) => Some((EntryPartial { hw: Some(h.0), fl: acc.fl, defs: acc.defs }, h.1)),
            }
        }
    } else if is_fl_key(key) {
        if acc.fl.is_some() {
            None
        } else if i < s.len() && s[i] == '"' {
            match scan_string_body(s, i + 1) {
                None => None,
                Some(t) => Some(
                    (
                        EntryPartial {
                            hw: acc.hw,
                            fl: Some(chars_to_string(&t.0)),
                            defs: acc.defs,
                        },
                        t.1,
                    ),
                ),
            }
        } else {
            None
        }
    } else if is_def_key(key) {
        if acc.defs.is_some() {
            None
        } else {
            match scan_def_value(s, i) {
                None => None,
                Some(d) => Some((EntryPartial { hw: acc.hw, fl: acc.fl, defs: Some(d.0) }, d.1)),
            }
        }
    } else {
        match scan_value(s, i) {
            None => None,
            Some(e) => Some((acc, e)),
        }
    }
}

/// Reads the member list of one entry object, as `entry_members` fixes it.
#[verifier::rlimit(100)]
fn scan_entry_members(s: &Vec<char>, i: usize, acc: EntryPartial) -> (r: Option<
    (EntryPartial, usize),
>)
    requires
        i <= s.len(),
    ensures
        match r {
            Some(p) => entry_members(s@, i as int, acc@) matches Some(q) && p.0@ == q.0 && p.1
                as int == q.1,
            None => entry_members(s@, i as int, acc@) is None,
        },
    decreases s.len() - i, 2int,
{
    if i >= s.len() || s[i] != '"' {
        return None;
    }
    match scan_string_body(s, i + 1) {
        None => None,
        Some(key) => {
            proof {
                lemma_string_body_end(s@, i as int + 1);
            }
            let k = scan_ws(s, key.1);
            if !(k < s.len() && s[k] == ':') {
                return None;
            }
            let vs = scan_ws(s, k + 1);
            let ghost acc0: EntryAcc = acc@;
            match scan_member_value(s, vs, &key.0, acc) {
                None => None,
                Some(mv) => {
                    proof {
                        lemma_member_value_end(s@, vs as int, key.0@, acc0);
                    }
                    let k2 = scan_ws(s, mv.1);
                    if k2 < s.len() && s[k2] == ',' {
                        let n = scan_ws(s, k2 + 1);
                        scan_entry_members(s, n, mv.0)
                    } else if k2 < s.len() && s[k2] == '}' {
                        Some((mv.0, k2 + 1))
                    } else {
                        None
                    }
                },
            }
        },
    }
}

/// Reads one entry object at `i`, as `parse_entry` fixes it.
fn scan_entry(s: &Vec<char>, i: usize) -> (r: Option<(Entry, usize)>)
    requires
        i <= s.len(),
    ensures
        match r {
            Some(p) => parse_entry(s@, i as int) matches Some(q) && p.0@ == q.0 && p.1 as int
                == q.1,
            None => parse_entry(s@, i as int) is None,
        },
{
    if i >= s.len() || s[i] != '{' {
        return None;
    }
    let k = scan_ws(s, i + 1);
    if k < s.len() && s[k] == '}' {
        return None;
    }
    match scan_entry_members(s, k, EntryPartial { hw: None, fl: None, defs: None }) {
        None => None,
        Some(r) => match r.0.hw {
            None => None,
            Some(h) => Some(
                (
                    Entry { headword: h, functional_label: r.0.fl, defs: r.0.defs },
                    r.1,
                ),
            ),
        },
    }
}

/// Reads the comma-separated entries of the top-level array, as
/// `entry_list` fixes it.
fn scan_entry_list(s: &Vec<char>, i: usize, acc: Vec<Entry>) -> (r: Option<(Vec<Entry>, usize)>)
    requires
        i <= s.len(),
    ensures
        match r {
            Some(p) => entry_list(s@, i as int, entries_view(acc@)) matches Some(q) && entries_view(
                p.0@,
            ) == q.0 && p.1 as int == q.1,
            None => entry_list(s@, i as int, entries_view(acc@)) is None,
        },
    decreases s.len() - i,
{
    if i >= s.len() {
        return None;
    }
    match scan_entry(s, i) {
        None => None,
        Some(r) => {
            proof {
                lemma_parse_entry_end(s@, i as int);
            }
            let ghost acc0: Seq<EntryModel> = entries_view(acc@);
            let ghost model: EntryModel = r.0@;
            let mut acc2 = acc;
            acc2.push(r.0);
            proof {
                assert(entries_view(acc2@) =~= acc0.push(model));
            }
            let k = scan_ws(s, r.1);
            if k < s.len() && s[k] == ',' {
                let n = scan_ws(s, k + 1);
                scan_entry_list(s, n, acc2)
            } else if k < s.len() && s[k] == ']' {
                Some((acc2, k + 1))
            } else {
                None
            }
        },
    }
}

/// Decodes a response body into the entry list it denotes, or `None`
/// where the body is not a JSON array of well-formed entry objects.
pub fn decode_entries(body: &str) -> (r: Option<Vec<Entry>>)
    ensures
        match r {
            Some(v) => entries_of(body@) matches Some(m) && entries_view(v@) == m,
            None => entries_of(body@) is None,
        },
{
    let s = chars_of(body);
    let k = scan_ws(&s, 0);
    if k >= s.len() || s[k] != '[' {
        return None;
    }
    let k2 = scan_ws(&s, k + 1);
    if k2 < s.len() && s[k2] == ']' {
        if scan_ws(&s, k2 + 1) == s.len() {
            proof {
                assert(entries_view(Seq::<Entry>::empty()) =~= Seq::<EntryModel>::empty());
            }
            Some(Vec::new())
        } else {
            None
        }
    } else {
        proof {
            assert(entries_view(Seq::<Entry>::empty()) =~= Seq::<EntryModel>::empty());
        }
        match scan_entry_list(&s, k2, Vec::new()) {
            None => None,
            Some(r) => {
                proof {
                    lemma_entry_list_end(s@, k2 as int, Seq::empty());
                }
                if scan_ws(&s, r.1) == s.len() {
                    Some(r.0)
                } else {
                    None
                }
            },
        }
    }
}

} // verus!
