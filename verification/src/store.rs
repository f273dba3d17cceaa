use vstd::prelude::*;

verus! {

/// The mathematical content of a sequence of key/value pairs: a map in which
/// a later pair for the same key wins.
pub open spec fn map_of(entries: Seq<(String, String)>) -> Map<Seq<char>, Seq<char>>
    decreases entries.len(),
{
    if entries.len() == 0 {
        Map::empty()
    } else {
        map_of(entries.drop_last()).insert(entries.last().0@, entries.last().1@)
    }
}

/// A deterministic key/value source standing in for the process environment:
/// the same read-only lookup interface, but populated by the caller, so that
/// results can be pinned down per call. Viewed as a map from variable name to
/// value.
pub struct Env {
    entries: Vec<(String, String)>,
}

impl View for Env {
    type V = Map<Seq<char>, Seq<char>>;

    closed spec fn view(&self) -> Map<Seq<char>, Seq<char>> {
        map_of(self.entries@)
    }
}

impl Env {
    /// An environment with nothing set.
    pub fn new() -> (r: Env)
        ensures
            r@ == Map::<Seq<char>, Seq<char>>::empty(),
    {
        Env { entries: Vec::new() }
    }

    /// Sets `key` to `value`, replacing any earlier value.
    pub fn set(&mut self, key: String, value: String)
        ensures
            final(self)@ == old(self)@.insert(key@, value@),
    {
        let ghost before = self.entries@;
        self.entries.push((key, value));
        proof {
            assert(self.entries@.drop_last() =~= before);
        }
    }

    /// Reads the value currently set for `key`, or `None` when it is unset.
    pub fn lookup(&self, key: &str) -> (r: Option<String>)
        ensures
            match r {
                Some(v) => self@.contains_key(key@) && v@ == self@[key@],
                None => !self@.contains_key(key@),
            },
    {
        let needle: String = key.to_owned();
        let mut i: usize = self.entries.len();
        proof {
            assert(self.entries@.subrange(0, i as int) =~= self.entries@);
        }
        while i > 0
            invariant
                i <= self.entries.len(),
                needle@ == key@,
                map_of(self.entries@).contains_key(key@) == map_of(
                    self.entries@.subrange(0, i as int),
                ).contains_key(key@),
                map_of(self.entries@).contains_key(key@) ==> map_of(self.entries@)[key@]
                    == map_of(self.entries@.subrange(0, i as int))[key@],
            decreases i,
        {
            i = i - 1;
            let ghost shorter = self.entries@.subrange(0, i as int);
            let ghost longer = self.entries@.subrange(0, i + 1);
            proof {
                assert(longer.drop_last() =~= shorter);
                assert(longer.last() == self.entries@[i as int]);
            }
            let hit = self.entries[i].0 == needle;
            if hit {
                return Some(self.entries[i].1.clone());
            }
        }
        proof {
            assert(self.entries@.subrange(0, 0) =~= Seq::<(String, String)>::empty());
        }
        None
    }
}

} // verus!
