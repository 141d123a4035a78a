//! Per-document state, keyed by document identifier: the latest full text
//! and version of every tracked document, and the most recent successfully
//! parsed syntax tree of each. Both stores replace whole values and never
//! patch in place, so a reader always sees one consistent snapshot.

use vstd::prelude::*;

use crate::ast::{Ast, MacroDefV};

verus! {

/// The mapping an association list denotes: later entries win.
pub open spec fn pairs_map<V>(s: Seq<(Seq<char>, V)>) -> Map<Seq<char>, V>
    decreases s.len(),
{
    if s.len() == 0 {
        Map::empty()
    } else {
        pairs_map(s.drop_last()).insert(s.last().0, s.last().1)
    }
}

/// No two entries share a key.
pub open spec fn unique_keys<V>(s: Seq<(Seq<char>, V)>) -> bool {
    forall|i: int, j: int| 0 <= i < j < s.len() ==> (#[trigger] s[i]).0 != (#[trigger] s[j]).0
}

/// A key is in the denoted mapping exactly when some entry carries it.
pub proof fn lemma_pairs_map_dom<V>(s: Seq<(Seq<char>, V)>, k: Seq<char>)
    ensures
        pairs_map(s).dom().contains(k) <==> exists|i: int| 0 <= i < s.len() && (#[trigger] s[i]).0
            == k,
    decreases s.len(),
{
    if s.len() > 0 {
        lemma_pairs_map_dom(s.drop_last(), k);
        if s.last().0 == k {
            assert(s[s.len() - 1].0 == k);
        } else if pairs_map(s).dom().contains(k) {
            let i = choose|i: int| 0 <= i < s.drop_last().len() && (#[trigger] s.drop_last()[i]).0
                == k;
            assert(s[i].0 == k);
        } else {
            assert forall|i: int| 0 <= i < s.len() implies (#[trigger] s[i]).0 != k by {
                if i < s.len() - 1 {
                    assert(s.drop_last()[i] == s[i]);
                }
            }
        }
    }
}

/// With unique keys, the mapping sends an entry's key to that entry's value.
pub proof fn lemma_pairs_map_index<V>(s: Seq<(Seq<char>, V)>, i: int)
    requires
        unique_keys(s),
        0 <= i < s.len(),
    ensures
        pairs_map(s).dom().contains(s[i].0),
        pairs_map(s)[s[i].0] == s[i].1,
    decreases s.len(),
{
    if i == s.len() - 1 {
    } else {
        assert(s.drop_last()[i] == s[i]);
        lemma_pairs_map_index(s.drop_last(), i);
        assert(s[i].0 != s[s.len() - 1].0);
    }
}

/// Replacing the value of the entry that carries a key updates the denoted
/// mapping at that key alone.
pub proof fn lemma_pairs_map_update<V>(s: Seq<(Seq<char>, V)>, i: int, v: V)
    requires
        unique_keys(s),
        0 <= i < s.len(),
    ensures
        pairs_map(s.update(i, (s[i].0, v))) =~= pairs_map(s).insert(s[i].0, v),
    decreases s.len(),
{
    let t = s.update(i, (s[i].0, v));
    if i == s.len() - 1 {
        assert(t.drop_last() =~= s.drop_last());
    } else {
        assert(t.drop_last() =~= s.drop_last().update(i, (s[i].0, v)));
        assert(s.drop_last()[i] == s[i]);
        lemma_pairs_map_update(s.drop_last(), i, v);
        assert(s[i].0 != s[s.len() - 1].0);
    }
}

/// Appending an entry inserts its key/value into the denoted mapping.
pub proof fn lemma_pairs_map_push<V>(s: Seq<(Seq<char>, V)>, k: Seq<char>, v: V)
    ensures
        pairs_map(s.push((k, v))) =~= pairs_map(s).insert(k, v),
{
    assert(s.push((k, v)).drop_last() =~= s);
}

/// What the document store records per document: the latest full text and
/// its version.
pub struct DocV {
    pub text: Seq<char>,
    pub version: int,
}

/// One tracked document.
pub struct DocEntry {
    pub id: String,
    pub text: String,
    pub version: i32,
}

/// Holds the latest full text and version per document identifier.
pub struct DocumentStore {
    pub entries: Vec<DocEntry>,
}

impl DocumentStore {
    /// The entries as key/value pairs.
    pub open spec fn pairs(self) -> Seq<(Seq<char>, DocV)> {
        self.entries@.map_values(
            |e: DocEntry| (e.id@, DocV { text: e.text@, version: e.version as int }),
        )
    }

    /// Each document identifier occurs at most once.
    pub open spec fn wf(self) -> bool {
        unique_keys(self.pairs())
    }

    /// An empty store.
    pub fn new() -> (r: DocumentStore)
        ensures
            r.wf(),
            r@ =~= Map::<Seq<char>, DocV>::empty(),
    {
        let r = DocumentStore { entries: Vec::new() };
        proof {
            assert(r.pairs() =~= Seq::<(Seq<char>, DocV)>::empty());
        }
        r
    }

    /// Inserts or wholesale-overwrites the stored text and version of a
    /// document.
    pub fn open_or_replace(&mut self, id: String, text: String, version: i32)
        requires
            old(self).wf(),
        ensures
            final(self).wf(),
            final(self)@ =~= old(self)@.insert(id@, DocV { text: text@, version: version as int }),
    {
        let ghost old_pairs = self.pairs();
        let ghost v = DocV { text: text@, version: version as int };
        let n = self.entries.len();
        let mut i: usize = 0;
        while i < n
            invariant
                self.entries@ == old(self).entries@,
                unique_keys(old_pairs),
                old_pairs == old(self).pairs(),
                v == (DocV { text: text@, version: version as int }),
                n == self.entries@.len(),
                i <= n,
                forall|j: int| 0 <= j < i ==> (#[trigger] self.entries@[j]).id@ != id@,
            decreases n - i,
        {
            if self.entries[i].id.eq(&id) {
                let e = DocEntry { id, text, version };
                proof {
                    assert(old_pairs[i as int].0 == id@);
                    lemma_pairs_map_update(old_pairs, i as int, v);
                }
                self.entries[i] = e;
                proof {
                    assert forall|j: int| 0 <= j < self.pairs().len() implies self.pairs()[j]
                        == old_pairs.update(i as int, (id@, v))[j] by {
                        if j != i {
                            assert(self.entries@[j] == old(self).entries@[j]);
                        } else {
                            assert(self.entries@[j] == e);
                        }
                    }
                    assert(self.pairs() =~= old_pairs.update(i as int, (id@, v)));
                    assert forall|a: int, b: int|
                        0 <= a < b < self.pairs().len() implies (#[trigger] self.pairs()[a]).0 != (
                    #[trigger] self.pairs()[b]).0 by {
                        if a != i && b != i {
                            assert(old_pairs[a].0 != old_pairs[b].0);
                        } else if a == i {
                            assert(old_pairs[b].0 == self.pairs()[b].0);
                            assert(old_pairs[a].0 == id@);
                        } else {
                            assert(old_pairs[a].0 == self.pairs()[a].0);
                            assert(old_pairs[b].0 == id@);
                        }
                    }
                }
                return ;
            }
            i = i + 1;
        }
        let e = DocEntry { id, text, version };
        self.entries.push(e);
        proof {
            assert forall|j: int| 0 <= j < self.pairs().len() implies self.pairs()[j]
                == old_pairs.push((id@, v))[j] by {
                if j < old_pairs.len() {
                    assert(self.entries@[j] == old(self).entries@[j]);
                }
            }
            assert(self.pairs() =~= old_pairs.push((id@, v)));
            lemma_pairs_map_push(old_pairs, id@, v);
            assert forall|a: int, b: int|
                0 <= a < b < self.pairs().len() implies (#[trigger] self.pairs()[a]).0 != (
            #[trigger] self.pairs()[b]).0 by {
                if b < old_pairs.len() {
                    assert(old_pairs[a].0 != old_pairs[b].0);
                } else {
                    assert(self.pairs()[a].0 == old_pairs[a].0);
                    assert(old_pairs[a].0 == self.entries@[a].id@);
                }
            }
        }
    }

    /// Read-only lookup of the most recent stored value.
    pub fn get(&self, id: &String) -> (r: Option<&DocEntry>)
        requires
            self.wf(),
        ensures
            match r {
                Some(e) => self@.dom().contains(id@) && self@[id@] == (DocV {
                    text: e.text@,
                    version: e.version as int,
                }) && e.id@ == id@,
                None => !self@.dom().contains(id@),
            },
    {
        let n = self.entries.len();
        let mut i: usize = 0;
        while i < n
            invariant
                self.wf(),
                n == self.entries@.len(),
                i <= n,
                forall|j: int| 0 <= j < i ==> (#[trigger] self.entries@[j]).id@ != id@,
            decreases n - i,
        {
            if self.entries[i].id.eq(id) {
                proof {
                    lemma_pairs_map_index(self.pairs(), i as int);
                }
                return Some(&self.entries[i]);
            }
            i = i + 1;
        }
        proof {
            lemma_pairs_map_dom(self.pairs(), id@);
        }
        None
    }
}

impl View for DocumentStore {
    type V = Map<Seq<char>, DocV>;

    open spec fn view(&self) -> Map<Seq<char>, DocV> {
        pairs_map(self.pairs())
    }
}

/// One cached syntax tree.
pub struct AstEntry {
    pub id: String,
    pub ast: Ast,
}

/// Holds, per document identifier, the most recent successfully parsed
/// syntax tree. A failed reparse leaves the entry untouched, so the cache
/// may lag behind the document store's current text.
pub struct AstCache {
    pub entries: Vec<AstEntry>,
}

impl AstCache {
    /// The entries as key/value pairs.
    pub open spec fn pairs(self) -> Seq<(Seq<char>, Seq<MacroDefV>)> {
        self.entries@.map_values(|e: AstEntry| (e.id@, e.ast@))
    }

    /// Each document identifier occurs at most once.
    pub open spec fn wf(self) -> bool {
        unique_keys(self.pairs())
    }

    /// An empty cache.
    pub fn new() -> (r: AstCache)
        ensures
            r.wf(),
            r@ =~= Map::<Seq<char>, Seq<MacroDefV>>::empty(),
    {
        let r = AstCache { entries: Vec::new() };
        proof {
            assert(r.pairs() =~= Seq::<(Seq<char>, Seq<MacroDefV>)>::empty());
        }
        r
    }

    /// Unconditionally replaces the cached syntax tree of a document after
    /// a successful parse.
    pub fn on_parse_success(&mut self, id: String, ast: Ast)
        requires
            old(self).wf(),
        ensures
            final(self).wf(),
            final(self)@ =~= old(self)@.insert(id@, ast@),
    {
        let ghost old_pairs = self.pairs();
        let ghost v = ast@;
        let n = self.entries.len();
        let mut i: usize = 0;
        while i < n
            invariant
                self.entries@ == old(self).entries@,
                unique_keys(old_pairs),
                old_pairs == old(self).pairs(),
                v == ast@,
                n == self.entries@.len(),
                i <= n,
                forall|j: int| 0 <= j < i ==> (#[trigger] self.entries@[j]).id@ != id@,
            decreases n - i,
        {
            if self.entries[i].id.eq(&id) {
                let e = AstEntry { id, ast };
                proof {
                    assert(old_pairs[i as int].0 == id@);
                    lemma_pairs_map_update(old_pairs, i as int, v);
                }
                self.entries[i] = e;
                proof {
                    assert forall|j: int| 0 <= j < self.pairs().len() implies self.pairs()[j]
                        == old_pairs.update(i as int, (id@, v))[j] by {
                        if j != i {
                            assert(self.entries@[j] == old(self).entries@[j]);
                        }
                    }
                    assert(self.pairs() =~= old_pairs.update(i as int, (id@, v)));
                    assert forall|a: int, b: int|
                        0 <= a < b < self.pairs().len() implies (#[trigger] self.pairs()[a]).0 != (
                    #[trigger] self.pairs()[b]).0 by {
                        if a != i && b != i {
                            assert(old_pairs[a].0 != old_pairs[b].0);
                        } else if a == i {
                            assert(old_pairs[b].0 == self.pairs()[b].0);
                            assert(old_pairs[a].0 == id@);
                        } else {
                            assert(old_pairs[a].0 == self.pairs()[a].0);
                            assert(old_pairs[b].0 == id@);
                        }
                    }
                }
                return ;
            }
            i = i + 1;
        }
        let e = AstEntry { id, ast };
        self.entries.push(e);
        proof {
            assert forall|j: int| 0 <= j < self.pairs().len() implies self.pairs()[j]
                == old_pairs.push((id@, v))[j] by {
                if j < old_pairs.len() {
                    assert(self.entries@[j] == old(self).entries@[j]);
                }
            }
            assert(self.pairs() =~= old_pairs.push((id@, v)));
            lemma_pairs_map_push(old_pairs, id@, v);
            assert forall|a: int, b: int|
                0 <= a < b < self.pairs().len() implies (#[trigger] self.pairs()[a]).0 != (
            #[trigger] self.pairs()[b]).0 by {
                if b < old_pairs.len() {
                    assert(old_pairs[a].0 != old_pairs[b].0);
                } else {
                    assert(self.pairs()[a].0 == old_pairs[a].0);
                    assert(old_pairs[a].0 == self.entries@[a].id@);
                }
            }
        }
    }

    /// Read-only lookup: the last successfully parsed syntax tree, or
    /// nothing when no parse of this document ever succeeded.
    pub fn get(&self, id: &String) -> (r: Option<&Ast>)
        requires
            self.wf(),
        ensures
            match r {
                Some(a) => self@.dom().contains(id@) && self@[id@] == a@,
                None => !self@.dom().contains(id@),
            },
    {
        let n = self.entries.len();
        let mut i: usize = 0;
        while i < n
            invariant
                self.wf(),
                n == self.entries@.len(),
                i <= n,
                forall|j: int| 0 <= j < i ==> (#[trigger] self.entries@[j]).id@ != id@,
            decreases n - i,
        {
            if self.entries[i].id.eq(id) {
                proof {
                    lemma_pairs_map_index(self.pairs(), i as int);
                }
                return Some(&self.entries[i].ast);
            }
            i = i + 1;
        }
        proof {
            lemma_pairs_map_dom(self.pairs(), id@);
        }
        None
    }
}

impl View for AstCache {
    type V = Map<Seq<char>, Seq<MacroDefV>>;

    open spec fn view(&self) -> Map<Seq<char>, Seq<MacroDefV>> {
        pairs_map(self.pairs())
    }
}

} // verus!
