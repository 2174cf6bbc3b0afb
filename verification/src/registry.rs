use vstd::prelude::*;
use vstd::string::*;

use crate::order::{
    lemma_lex_asymmetric, lemma_lex_irreflexive, lemma_lex_total, lemma_lex_transitive, lex_lt,
    text_less,
};

verus! {

/// Each text of `s` comes strictly before every later one.
pub open spec fn strictly_sorted(s: Seq<Seq<char>>) -> bool {
    forall|a: int, b: int| 0 <= a < b < s.len() ==> lex_lt(#[trigger] s[a], #[trigger] s[b])
}

/// The texts that a list of strings holds.
pub open spec fn texts(v: Seq<String>) -> Seq<Seq<char>> {
    v.map_values(|s: String| s@)
}

/// The map from names to games that parallel lists of names and games give.
pub open spec fn entries_map<G>(keys: Seq<Seq<char>>, games: Seq<G>) -> Map<Seq<char>, G> {
    Map::new(|k: Seq<char>| keys.contains(k), |k: Seq<char>| games[keys.index_of(k)])
}

proof fn lemma_entries_at<G>(keys: Seq<Seq<char>>, games: Seq<G>, i: int)
    requires
        keys.no_duplicates(),
        0 <= i < keys.len(),
    ensures
        entries_map(keys, games).dom().contains(keys[i]),
        entries_map(keys, games)[keys[i]] == games[i],
{
    assert(keys.contains(keys[i]));
    let j = keys.index_of(keys[i]);
    assert(keys[j] == keys[i]);
}

/// Putting `x` at the first place where it comes before the text already
/// there keeps a strictly sorted list strictly sorted.
proof fn lemma_insert_sorted(s: Seq<Seq<char>>, x: Seq<char>, j: int)
    requires
        strictly_sorted(s),
        0 <= j <= s.len(),
        forall|m: int| 0 <= m < j ==> !lex_lt(x, #[trigger] s[m]),
        !s.contains(x),
        j < s.len() ==> lex_lt(x, s[j]),
    ensures
        strictly_sorted(s.insert(j, x)),
{
    let t = s.insert(j, x);
    assert forall|a: int, b: int| 0 <= a < b < t.len() implies lex_lt(#[trigger] t[a], #[trigger] t[b]) by {
        if a < j && b < j {
            assert(t[a] == s[a] && t[b] == s[b]);
        } else if a < j && b == j {
            assert(t[a] == s[a]);
            lemma_lex_total(s[a], x);
            assert(s[a] != x);
        } else if a < j {
            assert(t[a] == s[a] && t[b] == s[b - 1]);
        } else if a == j {
            assert(t[b] == s[b - 1]);
            if b - 1 > j {
                lemma_lex_transitive(x, s[j], s[b - 1]);
            }
        } else {
            assert(t[a] == s[a - 1] && t[b] == s[b - 1]);
        }
    }
}

/// A strictly sorted list is determined by the texts it holds: whatever
/// order names were registered in, listing them sorted gives one answer.
pub proof fn lemma_sorted_unique(a: Seq<Seq<char>>, b: Seq<Seq<char>>)
    requires
        strictly_sorted(a),
        strictly_sorted(b),
        forall|k: Seq<char>| a.contains(k) <==> b.contains(k),
    ensures
        a == b,
    decreases a.len(),
{
    if a.len() == 0 {
        if b.len() > 0 {
            assert(b.contains(b[0]));
        }
        assert(a =~= b);
    } else {
        assert(a.contains(a[0]));
        assert(b.contains(b[0]));
        let p = choose|p: int| 0 <= p < b.len() && b[p] == a[0];
        let q = choose|q: int| 0 <= q < a.len() && a[q] == b[0];
        if p > 0 {
            assert(lex_lt(b[0], b[p]));
            if q > 0 {
                assert(lex_lt(a[0], a[q]));
                lemma_lex_asymmetric(a[0], b[0]);
            } else {
                lemma_lex_irreflexive(a[0]);
            }
        }
        assert(a[0] == b[0]);
        let a1 = a.drop_first();
        let b1 = b.drop_first();
        assert forall|k: Seq<char>| a1.contains(k) <==> b1.contains(k) by {
            if a1.contains(k) {
                let i = choose|i: int| 0 <= i < a1.len() && a1[i] == k;
                assert(a[i + 1] == k);
                assert(lex_lt(a[0], a[i + 1]));
                lemma_lex_irreflexive(k);
                assert(b.contains(k));
                let j = choose|j: int| 0 <= j < b.len() && b[j] == k;
                assert(j != 0);
                assert(b1[j - 1] == k);
            }
            if b1.contains(k) {
                let i = choose|i: int| 0 <= i < b1.len() && b1[i] == k;
                assert(b[i + 1] == k);
                assert(lex_lt(b[0], b[i + 1]));
                lemma_lex_irreflexive(k);
                assert(a.contains(k));
                let j = choose|j: int| 0 <= j < a.len() && a[j] == k;
                assert(j != 0);
                assert(a1[j - 1] == k);
            }
        }
        lemma_sorted_unique(a1, b1);
        assert(a =~= seq![a[0]] + a1);
        assert(b =~= seq![b[0]] + b1);
    }
}

/// The games that can be farmed, each under a distinct name.
pub struct GameRegistry<G> {
    names: Vec<String>,
    games: Vec<G>,
}

impl<G> GameRegistry<G> {
    /// The registered names, in the order they were first registered.
    pub closed spec fn keys(&self) -> Seq<Seq<char>> {
        texts(self.names@)
    }

    /// Names and games pair up and no name occurs twice.
    pub closed spec fn wf(&self) -> bool {
        &&& self.names@.len() == self.games@.len()
        &&& self.keys().no_duplicates()
    }

    /// The registry as a map from names to games.
    pub closed spec fn view(&self) -> Map<Seq<char>, G> {
        entries_map(self.keys(), self.games@)
    }

    /// An empty registry.
    pub fn new() -> (r: Self)
        ensures
            r.wf(),
            r@ == Map::<Seq<char>, G>::empty(),
    {
        let r = GameRegistry { names: Vec::new(), games: Vec::new() };
        assert(r@ =~= Map::<Seq<char>, G>::empty());
        r
    }

    /// Where `name` stands among the registered names, if it is registered.
    fn find(&self, name: &str) -> (r: Option<usize>)
        requires
            self.wf(),
        ensures
            r matches Some(i) ==> i < self.keys().len() && self.keys()[i as int] == name@,
            r is None ==> !self.keys().contains(name@),
    {
        let key = String::from_str(name);
        let n = self.names.len();
        let mut i: usize = 0;
        while i < n
            invariant
                n == self.names@.len(),
                i <= n,
                key@ == name@,
                forall|k: int| 0 <= k < i ==> self.keys()[k] != name@,
            decreases n - i,
        {
            if self.names[i] == key {
                return Some(i);
            }
            i = i + 1;
        }
        None
    }

    /// Registers `game` under `name`, in place of any game already there,
    /// and hands back the game it replaces.
    pub fn insert(&mut self, name: &str, game: G) -> (replaced: Option<G>)
        requires
            old(self).wf(),
        ensures
            final(self).wf(),
            final(self)@ == old(self)@.insert(name@, game),
            replaced == (if old(self)@.dom().contains(name@) {
                Some(old(self)@[name@])
            } else {
                None
            }),
    {
        match self.find(name) {
            Some(i) => {
                let ghost before = *self;
                proof {
                    lemma_entries_at(before.keys(), before.games@, i as int);
                }
                let prev = self.games.remove(i);
                self.games.insert(i, game);
                assert(self.keys() == before.keys());
                assert(self.games@ == before.games@.update(i as int, game));
                assert forall|k: Seq<char>| #[trigger] self@.dom().contains(k) implies self@[k]
                    == before@.insert(name@, game)[k] by {
                    let j = self.keys().index_of(k);
                    lemma_entries_at(self.keys(), self.games@, j);
                    lemma_entries_at(before.keys(), before.games@, j);
                    if j == i {
                    } else {
                        assert(self.keys()[j] != self.keys()[i as int]);
                    }
                }
                assert(self@ =~= before@.insert(name@, game));
                Some(prev)
            },
            None => {
                let ghost before = *self;
                self.names.push(String::from_str(name));
                self.games.push(game);
                assert(self.keys() =~= before.keys().push(name@));
                assert forall|k: Seq<char>| #[trigger] self@.dom().contains(k) implies self@[k]
                    == before@.insert(name@, game)[k] by {
                    let j = self.keys().index_of(k);
                    lemma_entries_at(self.keys(), self.games@, j);
                    if j < before.keys().len() {
                        lemma_entries_at(before.keys(), before.games@, j);
                    }
                }
                assert forall|k: Seq<char>| #[trigger]
                    before@.insert(name@, game).dom().contains(k) implies self@.dom().contains(k) by {
                    if k == name@ {
                        assert(self.keys()[before.keys().len() as int] == k);
                    } else {
                        let j = before.keys().index_of(k);
                        assert(self.keys()[j] == k);
                    }
                }
                assert(self@ =~= before@.insert(name@, game));
                None
            },
        }
    }

    /// The registered names in ascending order, as sorting the keys of the
    /// registry gives them.
    pub fn sorted_names(&self) -> (sorted: Vec<String>)
        requires
            self.wf(),
        ensures
            strictly_sorted(texts(sorted@)),
            forall|k: Seq<char>| self@.dom().contains(k) <==> texts(sorted@).contains(k),
    {
        let n = self.names.len();
        let mut out: Vec<String> = Vec::new();
        let mut i: usize = 0;
        while i < n
            invariant
                self.wf(),
                n == self.names@.len(),
                i <= n,
                strictly_sorted(texts(out@)),
                forall|k: Seq<char>|
                    texts(out@).contains(k) <==> self.keys().subrange(0, i as int).contains(k),
            decreases n - i,
        {
            let name = &self.names[i];
            let ghost x = self.keys()[i as int];
            assert(name@ == x);
            let len = out.len();
            let mut j: usize = 0;
            while j < len
                invariant
                    len == out@.len(),
                    j <= len,
                    name@ == x,
                    forall|m: int| 0 <= m < j ==> !lex_lt(x, #[trigger] texts(out@)[m]),
                ensures
                    j <= len,
                    forall|m: int| 0 <= m < j ==> !lex_lt(x, #[trigger] texts(out@)[m]),
                    j < len ==> lex_lt(x, texts(out@)[j as int]),
                decreases len - j,
            {
                if text_less(name.as_str(), out[j].as_str()) {
                    break;
                }
                j = j + 1;
            }
            let ghost before = texts(out@);
            assert(!before.contains(x)) by {
                if before.contains(x) {
                    let q = choose|q: int| 0 <= q < i && self.keys().subrange(0, i as int)[q] == x;
                    assert(self.keys()[q] == self.keys()[i as int]);
                }
            }
            proof {
                lemma_insert_sorted(before, x, j as int);
            }
            out.insert(j, name.clone());
            assert(texts(out@) =~= before.insert(j as int, x));
            assert forall|k: Seq<char>|
                texts(out@).contains(k) <==> self.keys().subrange(0, i + 1).contains(k) by {
                if texts(out@).contains(k) {
                    let q = choose|q: int| 0 <= q < texts(out@).len() && texts(out@)[q] == k;
                    if q < j {
                        assert(before[q] == k);
                    } else if q > j {
                        assert(before[q - 1] == k);
                    }
                    if k == x {
                        assert(self.keys().subrange(0, i + 1)[i as int] == k);
                    } else {
                        assert(before.contains(k));
                        let r = choose|r: int| 0 <= r < i && self.keys().subrange(0, i as int)[r] == k;
                        assert(self.keys().subrange(0, i + 1)[r] == k);
                    }
                }
                if self.keys().subrange(0, i + 1).contains(k) {
                    let r = choose|r: int| 0 <= r < i + 1 && #[trigger] self.keys().subrange(0, i + 1)[r] == k;
                    if r == i {
                        assert(texts(out@)[j as int] == k);
                    } else {
                        assert(self.keys().subrange(0, i as int)[r] == k);
                        assert(before.contains(k));
                        let q = choose|q: int| 0 <= q < before.len() && before[q] == k;
                        if q < j {
                            assert(texts(out@)[q] == k);
                        } else {
                            assert(texts(out@)[q + 1] == k);
                        }
                    }
                }
            }
            i = i + 1;
        }
        assert(self.keys().subrange(0, n as int) =~= self.keys());
        out
    }

    /// Takes the game registered under `name` out of the registry.
    pub fn remove(&mut self, name: &str) -> (taken: Option<G>)
        requires
            old(self).wf(),
        ensures
            final(self).wf(),
            final(self)@ == old(self)@.remove(name@),
            taken == (if old(self)@.dom().contains(name@) {
                Some(old(self)@[name@])
            } else {
                None
            }),
    {
        match self.find(name) {
            Some(i) => {
                let ghost before = *self;
                proof {
                    lemma_entries_at(before.keys(), before.games@, i as int);
                }
                let _ = self.names.remove(i);
                let game = self.games.remove(i);
                assert(self.keys() =~= before.keys().remove(i as int));
                assert forall|k: Seq<char>| #[trigger] self@.dom().contains(k) implies self@[k]
                    == before@.remove(name@)[k] && k != name@ by {
                    let j = self.keys().index_of(k);
                    lemma_entries_at(self.keys(), self.games@, j);
                    if j < i {
                        lemma_entries_at(before.keys(), before.games@, j);
                    } else {
                        lemma_entries_at(before.keys(), before.games@, j + 1);
                    }
                }
                assert forall|k: Seq<char>| #[trigger]
                    before@.remove(name@).dom().contains(k) implies self@.dom().contains(k) by {
                    let j = before.keys().index_of(k);
                    if j < i {
                        assert(self.keys()[j] == k);
                    } else {
                        assert(self.keys()[j - 1] == k);
                    }
                }
                assert(self@ =~= before@.remove(name@));
                Some(game)
            },
            None => {
                assert(self@ =~= self@.remove(name@));
                None
            },
        }
    }
}

} // verus!
