//! A second reading of the kernel command line, as the packaged kernel
//! helper does it: a token is cut at every `=`, a key keeps a value only
//! when the cut gives exactly two parts, and a key without a value starts
//! with an empty value list rather than staying bare.

use vstd::prelude::*;
use vstd::string::*;
use crate::text::{spec_split, spec_trim, split_char, trim};

verus! {

/// The map an entry list denotes, entries inserted first to last.
pub open spec fn spec_arg_entries_map(es: Seq<(String, Vec<String>)>) -> Map<
    Seq<char>,
    Seq<Seq<char>>,
>
    decreases es.len(),
{
    if es.len() == 0 {
        Map::empty()
    } else {
        spec_arg_entries_map(es.drop_last()).insert(es.last().0@, es.last().1.deep_view())
    }
}

/// No key repeats in the entry list.
pub open spec fn spec_arg_unique_keys(es: Seq<(String, Vec<String>)>) -> bool {
    forall|i: int, j: int| 0 <= i < j < es.len() ==> es[i].0@ != es[j].0@
}

/// An entry the list holds is in the map, with its own value list.
proof fn lemma_arg_map_of_entries(es: Seq<(String, Vec<String>)>, i: int)
    requires
        spec_arg_unique_keys(es),
        0 <= i < es.len(),
    ensures
        spec_arg_entries_map(es).contains_key(es[i].0@),
        spec_arg_entries_map(es)[es[i].0@] == es[i].1.deep_view(),
    decreases es.len(),
{
    if i < es.len() - 1 {
        assert(spec_arg_unique_keys(es.drop_last()));
        assert(es.drop_last()[i] == es[i]);
        lemma_arg_map_of_entries(es.drop_last(), i);
        assert(es.last().0@ != es[i].0@);
    }
}

/// A key no entry holds is not in the map.
proof fn lemma_arg_map_absent(es: Seq<(String, Vec<String>)>, k: Seq<char>)
    requires
        forall|i: int| 0 <= i < es.len() ==> (#[trigger] es[i]).0@ != k,
    ensures
        !spec_arg_entries_map(es).contains_key(k),
    decreases es.len(),
{
    if es.len() > 0 {
        lemma_arg_map_absent(es.drop_last(), k);
    }
}

/// Replacing the entry that holds a key rewrites that key in the map and
/// nothing else.
proof fn lemma_arg_map_update(es: Seq<(String, Vec<String>)>, i: int, pair: (String, Vec<String>))
    requires
        spec_arg_unique_keys(es),
        0 <= i < es.len(),
        pair.0@ == es[i].0@,
    ensures
        spec_arg_entries_map(es.update(i, pair)) == spec_arg_entries_map(es).insert(
            pair.0@,
            pair.1.deep_view(),
        ),
    decreases es.len(),
{
    let es2 = es.update(i, pair);
    if i == es.len() - 1 {
        assert(es2.drop_last() =~= es.drop_last());
        assert(es2.last() == pair);
        assert(spec_arg_entries_map(es2) =~= spec_arg_entries_map(es).insert(
            pair.0@,
            pair.1.deep_view(),
        ));
    } else {
        assert(spec_arg_unique_keys(es.drop_last()));
        assert(es.drop_last()[i] == es[i]);
        lemma_arg_map_update(es.drop_last(), i, pair);
        assert(es2.drop_last() =~= es.drop_last().update(i, pair));
        assert(es2.last() == es.last());
        assert(es.last().0@ != pair.0@);
        assert(spec_arg_entries_map(es2) =~= spec_arg_entries_map(es).insert(
            pair.0@,
            pair.1.deep_view(),
        ));
    }
}

/// One token folded into the map: the first `=`-cut part is the key, and
/// a value is kept only when the cut gives exactly two parts. A new key
/// starts its list (empty without a value); a known key collects the
/// value, when there is one.
pub open spec fn spec_insert_arg(
    m: Map<Seq<char>, Seq<Seq<char>>>,
    parts: Seq<Seq<char>>,
) -> Map<Seq<char>, Seq<Seq<char>>> {
    let k = parts[0];
    if !m.contains_key(k) {
        m.insert(k, if parts.len() == 2 {
            seq![parts[1]]
        } else {
            Seq::empty()
        })
    } else {
        if parts.len() == 2 {
            m.insert(k, m[k].push(parts[1]))
        } else {
            m
        }
    }
}

/// The map a token list denotes, tokens folded first to last, each cut at
/// every `=`.
pub open spec fn spec_args_map(toks: Seq<Seq<char>>) -> Map<Seq<char>, Seq<Seq<char>>>
    decreases toks.len(),
{
    if toks.len() == 0 {
        Map::empty()
    } else {
        spec_insert_arg(spec_args_map(toks.drop_last()), spec_split(toks.last(), '='))
    }
}

/// The parsed command line: every key with the values it collected.
pub struct ArgMap {
    entries: Vec<(String, Vec<String>)>,
}

impl View for ArgMap {
    type V = Map<Seq<char>, Seq<Seq<char>>>;

    closed spec fn view(&self) -> Map<Seq<char>, Seq<Seq<char>>> {
        spec_arg_entries_map(self.entries@)
    }
}

impl ArgMap {
    /// Keys never repeat in the entry list.
    pub closed spec fn wf(&self) -> bool {
        spec_arg_unique_keys(self.entries@)
    }

    /// Index of the entry holding `key`, if any.
    fn find_index(&self, key: &String) -> (r: Option<usize>)
        ensures
            r matches Some(i) ==> i < self.entries@.len() && self.entries@[i as int].0@ == key@,
            r is None ==> forall|i: int|
                0 <= i < self.entries@.len() ==> (#[trigger] self.entries@[i]).0@ != key@,
    {
        let n = self.entries.len();
        let mut i: usize = 0;
        while i < n
            invariant
                0 <= i <= n,
                n == self.entries@.len(),
                forall|j: int| 0 <= j < i ==> (#[trigger] self.entries@[j]).0@ != key@,
            decreases n - i,
        {
            if self.entries[i].0.eq(key) {
                return Some(i);
            }
            i = i + 1;
        }
        None
    }

    /// The values a key collected, in order, if the key was given at all.
    pub fn get(&self, k: &str) -> (r: Option<&Vec<String>>)
        requires
            self.wf(),
        ensures
            r matches Some(v) ==> self@.contains_key(k@) && self@[k@] == v.deep_view(),
            r is None ==> !self@.contains_key(k@),
    {
        let key = k.to_owned();
        match self.find_index(&key) {
            Some(i) => {
                proof {
                    lemma_arg_map_of_entries(self.entries@, i as int);
                }
                Some(&self.entries[i].1)
            },
            None => {
                proof {
                    lemma_arg_map_absent(self.entries@, key@);
                }
                None
            },
        }
    }

    /// Folds one token's key and optional value into the entries.
    fn insert_arg(&mut self, key: String, val: Option<String>)
        requires
            old(self).wf(),
        ensures
            final(self).wf(),
            ({
                let parts = match val {
                    None => seq![key@],
                    Some(v) => seq![key@, v@],
                };
                final(self)@ == spec_insert_arg(old(self)@, parts)
            }),
    {
        let idx = self.find_index(&key);
        match idx {
            None => {
                proof {
                    lemma_arg_map_absent(self.entries@, key@);
                }
                let ghost prev = self.entries@;
                let entry_val: Vec<String> = match val {
                    None => Vec::new(),
                    Some(v) => {
                        let mut l: Vec<String> = Vec::new();
                        l.push(v);
                        l
                    },
                };
                proof {
                    if entry_val@.len() == 1 {
                        assert(entry_val.deep_view() =~= seq![entry_val@[0]@]);
                    } else {
                        assert(entry_val.deep_view() =~= Seq::<Seq<char>>::empty());
                    }
                }
                self.entries.push((key, entry_val));
                proof {
                    assert(self.entries@.drop_last() =~= prev);
                }
            },
            Some(i) => {
                proof {
                    lemma_arg_map_of_entries(self.entries@, i as int);
                }
                match val {
                    None => {},
                    Some(v) => {
                        let mut nl: Vec<String> = Vec::new();
                        let list = &self.entries[i].1;
                        let m = list.len();
                        let mut j: usize = 0;
                        while j < m
                            invariant
                                0 <= j <= m,
                                m == list@.len(),
                                nl.deep_view() =~= list.deep_view().take(j as int),
                            decreases m - j,
                        {
                            let ghost dv = nl.deep_view();
                            nl.push(list[j].clone());
                            proof {
                                assert(nl.deep_view() =~= dv.push(list.deep_view()[j as int]));
                                assert(list.deep_view().take(j as int + 1) =~= list.deep_view()
                                    .take(j as int).push(list.deep_view()[j as int]));
                            }
                            j = j + 1;
                        }
                        proof {
                            assert(nl.deep_view() =~= list.deep_view());
                        }
                        let ghost copydv = nl.deep_view();
                        nl.push(v);
                        proof {
                            assert(nl.deep_view() =~= copydv.push(v@));
                        }
                        let nk = self.entries[i].0.clone();
                        let ghost prev = self.entries@;
                        let pair = (nk, nl);
                        proof {
                            lemma_arg_map_update(prev, i as int, pair);
                        }
                        self.entries[i] = pair;
                        proof {
                            assert(spec_arg_unique_keys(self.entries@));
                        }
                    },
                }
            },
        }
    }
}

/// Every split has at least its running token.
proof fn lemma_split_len(s: Seq<char>, sep: char, cur: Seq<char>)
    ensures
        crate::text::spec_tokens_acc(s, sep, cur).len() >= 1,
    decreases s.len(),
{
    if s.len() > 0 && s[0] != sep {
        lemma_split_len(s.skip(1), sep, cur.push(s[0]));
    }
}

/// Parses a whole command line in the packaged helper's way: trim, cut
/// into space-separated tokens, cut each token at every `=`, fold in.
pub fn parse_params(content: &str) -> (r: ArgMap)
    ensures
        r.wf(),
        r@ == spec_args_map(spec_split(spec_trim(content@), ' ')),
{
    let trimmed = trim(content);
    let toks = split_char(trimmed.as_str(), ' ');
    let ghost tv = toks.deep_view();
    let mut p = ArgMap { entries: Vec::new() };
    let mut i: usize = 0;
    proof {
        assert(p@ =~= spec_args_map(tv.take(0)));
    }
    while i < toks.len()
        invariant
            0 <= i <= toks@.len(),
            tv == toks.deep_view(),
            tv == spec_split(spec_trim(content@), ' '),
            p.wf(),
            p@ == spec_args_map(tv.take(i as int)),
        decreases toks@.len() - i,
    {
        let tok = &toks[i];
        proof {
            assert(tv[i as int] == tok@);
        }
        let parts = split_char(tok.as_str(), '=');
        proof {
            lemma_split_len(tok@, '=', Seq::<char>::empty());
            assert(parts.deep_view()[0] == parts@[0]@);
        }
        let key = parts[0].clone();
        let val: Option<String> = if parts.len() == 2 {
            proof {
                assert(parts.deep_view()[1] == parts@[1]@);
            }
            Some(parts[1].clone())
        } else {
            None
        };
        proof {
            let pv = parts.deep_view();
            match &val {
                None => {
                    assert(pv.len() != 2);
                },
                Some(v) => {
                    assert(pv =~= seq![key@, v@]);
                },
            }
        }
        p.insert_arg(key, val);
        proof {
            assert(tv.take(i as int + 1).drop_last() =~= tv.take(i as int));
            assert(tv.take(i as int + 1).last() == tv[i as int]);
        }
        i = i + 1;
    }
    proof {
        assert(tv.take(toks@.len() as int) =~= tv);
    }
    p
}

} // verus!
