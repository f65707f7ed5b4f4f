//! Kernel command line parameters.
//!
//! The command line is a space-separated list of tokens; a token is a bare
//! flag or `key=value`, cut at the first `=`. A key given several times
//! collects its values in order; a key first seen bare stays bare. The
//! parser here is pure; reading the command line itself is the embedding
//! binary's work.

use vstd::prelude::*;
use vstd::string::*;
use crate::text::{find_char, spec_find, spec_split, spec_trim, split_char, trim};
use crate::text::lemma_find_character;

verus! {

/// View of one stored value list: `None` for a bare flag.
pub open spec fn spec_val_view(v: Option<Vec<String>>) -> Option<Seq<Seq<char>>> {
    match v {
        None => None,
        Some(l) => Some(l.deep_view()),
    }
}

/// The map an entry list denotes, entries inserted first to last.
pub open spec fn spec_entries_map(es: Seq<(String, Option<Vec<String>>)>) -> Map<
    Seq<char>,
    Option<Seq<Seq<char>>>,
>
    decreases es.len(),
{
    if es.len() == 0 {
        Map::empty()
    } else {
        spec_entries_map(es.drop_last()).insert(es.last().0@, spec_val_view(es.last().1))
    }
}

/// No key repeats in the entry list.
pub open spec fn spec_unique_keys(es: Seq<(String, Option<Vec<String>>)>) -> bool {
    forall|i: int, j: int| 0 <= i < j < es.len() ==> es[i].0@ != es[j].0@
}

/// An entry the list holds is in the map, with its own value.
proof fn lemma_map_of_entries(es: Seq<(String, Option<Vec<String>>)>, i: int)
    requires
        spec_unique_keys(es),
        0 <= i < es.len(),
    ensures
        spec_entries_map(es).contains_key(es[i].0@),
        spec_entries_map(es)[es[i].0@] == spec_val_view(es[i].1),
    decreases es.len(),
{
    if i < es.len() - 1 {
        assert(spec_unique_keys(es.drop_last()));
        assert(es.drop_last()[i] == es[i]);
        lemma_map_of_entries(es.drop_last(), i);
        assert(es.last().0@ != es[i].0@);
    }
}

/// A key no entry holds is not in the map.
proof fn lemma_map_absent(es: Seq<(String, Option<Vec<String>>)>, k: Seq<char>)
    requires
        forall|i: int| 0 <= i < es.len() ==> (#[trigger] es[i]).0@ != k,
    ensures
        !spec_entries_map(es).contains_key(k),
    decreases es.len(),
{
    if es.len() > 0 {
        lemma_map_absent(es.drop_last(), k);
    }
}

/// Replacing the entry that holds a key rewrites that key in the map and
/// nothing else.
proof fn lemma_map_update(
    es: Seq<(String, Option<Vec<String>>)>,
    i: int,
    pair: (String, Option<Vec<String>>),
)
    requires
        spec_unique_keys(es),
        0 <= i < es.len(),
        pair.0@ == es[i].0@,
    ensures
        spec_entries_map(es.update(i, pair)) == spec_entries_map(es).insert(
            pair.0@,
            spec_val_view(pair.1),
        ),
    decreases es.len(),
{
    let es2 = es.update(i, pair);
    if i == es.len() - 1 {
        assert(es2.drop_last() =~= es.drop_last());
        assert(es2.last() == pair);
        assert(spec_entries_map(es2) =~= spec_entries_map(es).insert(
            pair.0@,
            spec_val_view(pair.1),
        ));
    } else {
        assert(spec_unique_keys(es.drop_last()));
        assert(es.drop_last()[i] == es[i]);
        lemma_map_update(es.drop_last(), i, pair);
        assert(es2.drop_last() =~= es.drop_last().update(i, pair));
        assert(es2.last() == es.last());
        assert(es.last().0@ != pair.0@);
        assert(spec_entries_map(es2) =~= spec_entries_map(es).insert(
            pair.0@,
            spec_val_view(pair.1),
        ));
    }
}

/// The parsed command line: each key with its values, or with `None` for
/// a key that first appeared bare.
pub struct Params {
    entries: Vec<(String, Option<Vec<String>>)>,
}

impl View for Params {
    type V = Map<Seq<char>, Option<Seq<Seq<char>>>>;

    closed spec fn view(&self) -> Map<Seq<char>, Option<Seq<Seq<char>>>> {
        spec_entries_map(self.entries@)
    }
}

/// One token folded into the map: a new key is inserted with its value
/// (or bare); a known key collects one more value, unless it is bare or
/// the token brings no value, which changes nothing.
pub open spec fn spec_insert_token(
    m: Map<Seq<char>, Option<Seq<Seq<char>>>>,
    k: Seq<char>,
    v: Option<Seq<char>>,
) -> Map<Seq<char>, Option<Seq<Seq<char>>>> {
    if !m.contains_key(k) {
        m.insert(
            k,
            match v {
                None => None,
                Some(x) => Some(seq![x]),
            },
        )
    } else {
        match (m[k], v) {
            (Some(list), Some(x)) => m.insert(k, Some(list.push(x))),
            _ => m,
        }
    }
}

/// The key part of a token: everything before the first `=`, or the whole
/// token without one.
pub open spec fn spec_token_key(tok: Seq<char>) -> Seq<char> {
    if spec_find(tok, '=') == -1 {
        tok
    } else {
        tok.take(spec_find(tok, '='))
    }
}

/// The value part of a token: everything after the first `=`, if any.
pub open spec fn spec_token_val(tok: Seq<char>) -> Option<Seq<char>> {
    if spec_find(tok, '=') == -1 {
        None
    } else {
        Some(tok.skip(spec_find(tok, '=') + 1))
    }
}

/// The map a token list denotes, tokens folded first to last.
pub open spec fn spec_params_map(toks: Seq<Seq<char>>) -> Map<Seq<char>, Option<Seq<Seq<char>>>>
    decreases toks.len(),
{
    if toks.len() == 0 {
        Map::empty()
    } else {
        spec_insert_token(
            spec_params_map(toks.drop_last()),
            spec_token_key(toks.last()),
            spec_token_val(toks.last()),
        )
    }
}

impl Params {
    /// Keys never repeat in the entry list.
    pub closed spec fn wf(&self) -> bool {
        spec_unique_keys(self.entries@)
    }

    /// Index of the entry holding `key`, if any.
    fn find_index(&self, key: &String) -> (r: Option<usize>)
        ensures
            r matches Some(i) ==> i < self.entries@.len() && self.entries@[i as int].0@ == key@,
            r is None ==> forall|i: int|
                0 <= i < self.entries@.len() ==> (#[trigger] self.entries@[i]).0@ != key@,
    {
        let n = self.entries.len();
        let mut i: usize = 0;
        while i < n
            invariant
                0 <= i <= n,
                n == self.entries@.len(),
                forall|j: int| 0 <= j < i ==> (#[trigger] self.entries@[j]).0@ != key@,
            decreases n - i,
        {
            if self.entries[i].0.eq(key) {
                return Some(i);
            }
            i = i + 1;
        }
        None
    }

    /// The key was given on the command line, with or without values.
    pub fn contains(&self, s: &str) -> (r: bool)
        requires
            self.wf(),
        ensures
            r == self@.contains_key(s@),
    {
        let key = s.to_owned();
        match self.find_index(&key) {
            Some(i) => {
                proof {
                    lemma_map_of_entries(self.entries@, i as int);
                }
                true
            },
            None => {
                proof {
                    lemma_map_absent(self.entries@, key@);
                }
                false
            },
        }
    }

    /// The values a key collected, in the order given; `None` for an
    /// absent key and for a bare flag.
    pub fn values(&self, k: &str) -> (r: Option<&Vec<String>>)
        requires
            self.wf(),
        ensures
            r matches Some(v) ==> self@.contains_key(k@) && self@[k@] == Some(v.deep_view()),
            r is None ==> !self@.contains_key(k@) || self@[k@] is None,
    {
        let key = k.to_owned();
        match self.find_index(&key) {
            Some(i) => {
                proof {
                    lemma_map_of_entries(self.entries@, i as int);
                }
                match &self.entries[i].1 {
                    Some(v) => Some(v),
                    None => None,
                }
            },
            None => {
                proof {
                    lemma_map_absent(self.entries@, key@);
                }
                None
            },
        }
    }

    /// The last value a key collected, if it collected any.
    pub fn value(&self, k: &str) -> (r: Option<&str>)
        requires
            self.wf(),
        ensures
            r matches Some(s) ==> self@.contains_key(k@) && (self@[k@] matches Some(l) && l.len()
                > 0 && s@ == l.last()),
            r is None ==> !self@.contains_key(k@) || self@[k@] is None || (self@[k@] matches Some(
                l,
            ) && l.len() == 0),
    {
        match self.values(k) {
            Some(v) => {
                if v.len() > 0 {
                    let s = v[v.len() - 1].as_str();
                    proof {
                        assert(v.deep_view()[v@.len() - 1] == v@[v@.len() - 1]@);
                    }
                    Some(s)
                } else {
                    None
                }
            },
            None => None,
        }
    }

    /// Folds one token's key and value into the entries.
    fn insert_token(&mut self, key: String, val: Option<String>)
        requires
            old(self).wf(),
        ensures
            final(self).wf(),
            final(self)@ == spec_insert_token(
                old(self)@,
                key@,
                match val {
                    None => None,
                    Some(v) => Some(v@),
                },
            ),
    {
        let idx = self.find_index(&key);
        match idx {
            None => {
                proof {
                    lemma_map_absent(self.entries@, key@);
                }
                let ghost prev = self.entries@;
                let entry_val: Option<Vec<String>> = match val {
                    None => None,
                    Some(v) => {
                        let mut l: Vec<String> = Vec::new();
                        l.push(v);
                        Some(l)
                    },
                };
                proof {
                    match &entry_val {
                        None => {},
                        Some(l) => {
                            assert(l.deep_view() =~= seq![l@[0]@]);
                        },
                    }
                }
                self.entries.push((key, entry_val));
                proof {
                    assert(self.entries@.drop_last() =~= prev);
                }
            },
            Some(i) => {
                proof {
                    lemma_map_of_entries(self.entries@, i as int);
                }
                match val {
                    None => {},
                    Some(v) => {
                        let ghost oldval = spec_val_view(self.entries@[i as int].1);
                        let mut nl: Vec<String> = Vec::new();
                        let mut found = false;
                        match &self.entries[i].1 {
                            Some(list) => {
                                found = true;
                                let m = list.len();
                                let mut j: usize = 0;
                                while j < m
                                    invariant
                                        0 <= j <= m,
                                        m == list@.len(),
                                        nl.deep_view() =~= list.deep_view().take(j as int),
                                    decreases m - j,
                                {
                                    let ghost dv = nl.deep_view();
                                    nl.push(list[j].clone());
                                    proof {
                                        assert(nl.deep_view() =~= dv.push(list.deep_view()[
                                            j as int
                                        ]));
                                        assert(list.deep_view().take(j as int + 1) =~= list
                                            .deep_view().take(j as int).push(list.deep_view()[
                                            j as int
                                        ]));
                                    }
                                    j = j + 1;
                                }
                                proof {
                                    assert(nl.deep_view() =~= list.deep_view());
                                }
                            },
                            None => {},
                        }
                        if found {
                            let ghost copydv = nl.deep_view();
                            nl.push(v);
                            let ghost nldv = nl.deep_view();
                            proof {
                                assert(nldv =~= copydv.push(v@));
                            }
                            let nk = self.entries[i].0.clone();
                            let ghost prev = self.entries@;
                            let pair = (nk, Some(nl));
                            proof {
                                lemma_map_update(prev, i as int, pair);
                            }
                            self.entries[i] = pair;
                            proof {
                                assert(spec_unique_keys(self.entries@));
                            }
                        }
                    },
                }
            },
        }
    }
}

/// Parses a whole command line: trim, cut into space-separated tokens,
/// fold each token in.
pub fn parse_params(content: &str) -> (r: Params)
    ensures
        r.wf(),
        r@ == spec_params_map(spec_split(spec_trim(content@), ' ')),
{
    let trimmed = trim(content);
    let toks = split_char(trimmed.as_str(), ' ');
    let ghost tv = toks.deep_view();
    let mut p = Params { entries: Vec::new() };
    let mut i: usize = 0;
    proof {
        assert(p@ =~= spec_params_map(tv.take(0)));
    }
    while i < toks.len()
        invariant
            0 <= i <= toks@.len(),
            tv == toks.deep_view(),
            tv == spec_split(spec_trim(content@), ' '),
            p.wf(),
            p@ == spec_params_map(tv.take(i as int)),
        decreases toks@.len() - i,
    {
        let tok = &toks[i];
        proof {
            assert(tv[i as int] == tok@);
        }
        match find_char(tok.as_str(), '=') {
            Some(pos) => {
                proof {
                    lemma_find_character(tok@, '=');
                }
                let n = tok.as_str().unicode_len();
                let key = tok.as_str().substring_char(0, pos).to_owned();
                let v = tok.as_str().substring_char(pos + 1, n).to_owned();
                proof {
                    assert(key@ =~= spec_token_key(tok@));
                    assert(v@ =~= tok@.skip(pos + 1));
                }
                p.insert_token(key, Some(v));
            },
            None => {
                let key = tok.clone();
                p.insert_token(key, None);
            },
        }
        proof {
            assert(tv.take(i as int + 1).drop_last() =~= tv.take(i as int));
            assert(tv.take(i as int + 1).last() == tv[i as int]);
        }
        i = i + 1;
    }
    proof {
        assert(tv.take(toks@.len() as int) =~= tv);
    }
    p
}

} // verus!
