use vstd::prelude::*;
use crate::id::{StrID, IdCounter, empty_id};
use crate::text_map::{TextMap, text_pairs, text_map_new, text_map_get_by_id, text_map_get_by_text,
    text_map_insert, leak_text};

verus! {

broadcast use vstd::string::group_string_axioms;

/// The two-way cache between identifiers and interned text, together with the
/// counter that hands out fresh identifiers.
///
/// Entries are only ever added. Each text value is paired with one identifier
/// and each identifier with one text value.
pub struct StrCache {
    map: TextMap,
    counter: IdCounter,
}

impl View for StrCache {
    /// The interned text of each identifier, keyed by the identifier's integer.
    type V = Map<usize, Seq<char>>;

    closed spec fn view(&self) -> Map<usize, Seq<char>> {
        text_pairs(self.map)
    }
}

impl StrCache {
    /// The identifier the cache hands out next; 0 once every value is used.
    pub closed spec fn next_id(self) -> usize {
        self.counter.next_id()
    }

    /// No two identifiers hold the same text.
    pub open spec fn is_injective(self) -> bool {
        forall|a: usize, b: usize|
            #![trigger self@[a], self@[b]]
            self@.contains_key(a) && self@.contains_key(b) && self@[a] == self@[b] ==> a == b
    }

    /// Every identifier in use was handed out before: it is non-zero and
    /// below the next one to come, unless the counter is exhausted.
    pub open spec fn ids_issued(self) -> bool {
        forall|k: usize|
            #[trigger] self@.contains_key(k) ==> k != 0 && (self.next_id() == 0 || k < self.next_id())
    }

    /// The invariant of the cache.
    pub open spec fn wf(self) -> bool {
        &&& self.is_injective()
        &&& self.ids_issued()
        &&& self@.contains_key(empty_id())
        &&& self@[empty_id()] == Seq::<char>::empty()
    }

    /// The text that `id` resolves to: the empty text for an identifier the
    /// cache does not hold.
    pub open spec fn text_of(self, id: StrID) -> Seq<char> {
        if self@.contains_key(id@) {
            self@[id@]
        } else {
            Seq::empty()
        }
    }

    /// A new cache, holding only the empty text under its identifier.
    pub fn new() -> (c: StrCache)
        ensures
            c.wf(),
            c@ == map![empty_id() => Seq::<char>::empty()],
            c.next_id() == 2,
    {
        let mut counter = IdCounter::new();
        let mut map = text_map_new();
        let id = StrID::new(&mut counter);
        text_map_insert(&mut map, id, leak_text(String::new()));
        let c = StrCache { map, counter };
        assert(c@ =~= map![empty_id() => Seq::<char>::empty()]);
        c
    }

    /// Looks `s` up without changing the cache: the read path of interning.
    pub fn lookup(&self, s: &str) -> (r: Option<StrID>)
        ensures
            r is Some <==> self@.contains_value(s@),
            r matches Some(id) ==> self@.contains_key(id@) && self@[id@] == s@,
    {
        text_map_get_by_text(&self.map, s)
    }

    /// Pairs `text`, which the cache does not hold yet, with a fresh identifier.
    fn insert_fresh(&mut self, text: &'static str) -> (id: StrID)
        requires
            old(self).wf(),
            !old(self)@.contains_value(text@),
            old(self).next_id() != 0,
        ensures
            final(self).wf(),
            id@ == old(self).next_id(),
            !old(self)@.contains_key(id@),
            final(self)@ == old(self)@.insert(id@, text@),
            final(self).next_id() == IdCounter::successor(old(self).next_id()),
    {
        let ghost before = *old(self);
        let id = StrID::new(&mut self.counter);
        text_map_insert(&mut self.map, id, text);
        assert(self@ =~= before@.insert(id@, text@));
        assert(self.is_injective()) by {
            assert forall|a: usize, b: usize|
                self@.contains_key(a) && self@.contains_key(b) && #[trigger] self@[a]
                    == #[trigger] self@[b] implies a == b by {
                if a != id@ && b != id@ {
                    assert(before@[a] == before@[b]);
                } else if a != id@ {
                    assert(before@.contains_value(before@[a]));
                } else if b != id@ {
                    assert(before@.contains_value(before@[b]));
                }
            }
        }
        id
    }

    fn counter_exhausted(&self) -> (r: bool)
        ensures
            r == (self.next_id() == 0),
    {
        self.counter.is_exhausted_exec()
    }

    /// Interns the borrowed text `s`, copying it if it is new: the write path
    /// of interning, which checks for `s` again before adding it.
    ///
    /// `None` only when `s` is new and every identifier has been handed out.
    pub fn try_intern_str(&mut self, s: &str) -> (r: Option<StrID>)
        requires
            old(self).wf(),
        ensures
            intern_post(*old(self), *final(self), s@, r),
    {
        match text_map_get_by_text(&self.map, s) {
            Some(id) => Some(id),
            None => {
                if self.counter_exhausted() {
                    None
                } else {
                    Some(self.insert_fresh(leak_text(s.to_string())))
                }
            },
        }
    }

    /// Interns the owned text `s`, keeping its buffer if it is new: the write
    /// path of interning, which checks for `s` again before adding it.
    ///
    /// `None` only when `s` is new and every identifier has been handed out.
    pub fn try_intern_string(&mut self, s: String) -> (r: Option<StrID>)
        requires
            old(self).wf(),
        ensures
            intern_post(*old(self), *final(self), s@, r),
    {
        match text_map_get_by_text(&self.map, s.as_str()) {
            Some(id) => Some(id),
            None => {
                if self.counter_exhausted() {
                    None
                } else {
                    Some(self.insert_fresh(leak_text(s)))
                }
            },
        }
    }
}

/// What interning the text `s` does to the cache `before`, leaving `after`
/// and returning `r`.
///
/// Known text keeps its identifier and leaves the cache as it was. New text is
/// paired with the next identifier, and the counter moves on; if the counter
/// is exhausted nothing changes and the result is `None`.
pub open spec fn intern_post(before: StrCache, after: StrCache, s: Seq<char>, r: Option<StrID>) -> bool {
    &&& after.wf()
    &&& if before@.contains_value(s) {
        &&& after@ == before@
        &&& after.next_id() == before.next_id()
        &&& r matches Some(id) && before@.contains_key(id@) && before@[id@] == s
    } else if before.next_id() == 0 {
        &&& after@ == before@
        &&& after.next_id() == before.next_id()
        &&& r is None
    } else {
        &&& r matches Some(id) && id@ == before.next_id()
        &&& !before@.contains_key(before.next_id())
        &&& after@ == before@.insert(before.next_id(), s)
        &&& after.next_id() == IdCounter::successor(before.next_id())
    }
}

impl StrID {
    /// The text this identifier was interned from, or the empty text if
    /// `cache` does not hold it.
    pub fn as_str(self, cache: &StrCache) -> (r: &'static str)
        ensures
            r@ == cache.text_of(self),
    {
        match text_map_get_by_id(&cache.map, self) {
            Some(t) => t,
            None => {
                proof {
                    reveal_strlit("");
                }
                ""
            },
        }
    }
}

} // verus!
