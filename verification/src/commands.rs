//! The command catalog: descriptors keyed by logical command name.

use vstd::prelude::*;

verus! {

/// A command descriptor: the remote shell text to execute and, optionally,
/// the output the operator said to expect.  The expected output is carried
/// for the caller to compare against; execution itself never consults it.
#[derive(Debug)]
pub struct CommandData {
    pub command: String,
    pub expected: Option<String>,
}

impl CommandData {
    /// Compare captured output against the descriptor's optional expected
    /// output: nothing is decided when none was configured.  Whether a
    /// mismatch should fail the command is the caller's policy; execution
    /// itself never consults the expected output.
    pub fn expected_matches(&self, output: &String) -> (r: Option<bool>)
        ensures
            self@.1 is None ==> r is None,
            self@.1 matches Some(e) ==> r == Some(e == output@),
    {
        match &self.expected {
            None => None,
            Some(e) => Some(*e == *output),
        }
    }
}

impl View for CommandData {
    type V = (Seq<char>, Option<Seq<char>>);

    open spec fn view(&self) -> Self::V {
        (
            self.command@,
            match self.expected {
                Some(s) => Some(s@),
                None => None,
            },
        )
    }
}

/// The mathematical contents of a list of catalog entries: a map from the
/// name of each entry to its descriptor, a later entry overriding an
/// earlier one with the same name.
pub open spec fn map_of(entries: Seq<(String, CommandData)>) -> Map<
    Seq<char>,
    (Seq<char>, Option<Seq<char>>),
>
    decreases entries.len(),
{
    if entries.len() == 0 {
        Map::empty()
    } else {
        map_of(entries.drop_last()).insert(entries.last().0@, entries.last().1@)
    }
}

/// The command catalog: a mapping from command name to descriptor.
/// Inserting an existing name replaces its descriptor, so the catalog
/// behaves as the map `map_of` describes.
#[derive(Debug)]
pub struct CommandMap {
    entries: Vec<(String, CommandData)>,
}

impl View for CommandMap {
    type V = Map<Seq<char>, (Seq<char>, Option<Seq<char>>)>;

    closed spec fn view(&self) -> Self::V {
        map_of(self.entries@)
    }
}

proof fn lemma_map_of_dom(entries: Seq<(String, CommandData)>, name: Seq<char>)
    ensures
        map_of(entries).dom().contains(name) <==> exists|i: int|
            0 <= i < entries.len() && #[trigger] entries[i].0@ == name,
    decreases entries.len(),
{
    if entries.len() > 0 {
        lemma_map_of_dom(entries.drop_last(), name);
        if entries.last().0@ == name {
            assert(entries[entries.len() - 1].0@ == name);
        } else {
            if exists|i: int| 0 <= i < entries.len() && #[trigger] entries[i].0@ == name {
                let i = choose|i: int|
                    0 <= i < entries.len() && #[trigger] entries[i].0@ == name;
                assert(entries.drop_last()[i].0@ == name);
            }
        }
    }
}

proof fn lemma_map_of_last_match(
    entries: Seq<(String, CommandData)>,
    name: Seq<char>,
    i: int,
)
    requires
        0 <= i < entries.len(),
        entries[i].0@ == name,
        forall|t: int| i < t < entries.len() ==> #[trigger] entries[t].0@ != name,
    ensures
        map_of(entries).dom().contains(name),
        map_of(entries)[name] == entries[i].1@,
    decreases entries.len(),
{
    if i == entries.len() - 1 {
    } else {
        assert(entries.drop_last()[i].0@ == name);
        lemma_map_of_last_match(entries.drop_last(), name, i);
        assert(entries.last().0@ != name);
    }
}

impl CommandMap {
    /// An empty catalog.
    pub fn new() -> (r: CommandMap)
        ensures
            r@ == Map::<Seq<char>, (Seq<char>, Option<Seq<char>>)>::empty(),
    {
        CommandMap { entries: Vec::new() }
    }

    /// Add a descriptor under a name, replacing any earlier descriptor
    /// recorded under the same name.
    pub fn insert(&mut self, name: String, data: CommandData)
        ensures
            final(self)@ == old(self)@.insert(name@, data@),
    {
        let ghost before = self.entries@;
        self.entries.push((name, data));
        proof {
            assert(self.entries@.drop_last() =~= before);
        }
    }

    /// Whether a descriptor is recorded under this name.
    pub fn contains_key(&self, name: &String) -> (r: bool)
        ensures
            r == self@.dom().contains(name@),
    {
        let n = self.entries.len();
        let mut i: usize = 0;
        while i < n
            invariant
                n == self.entries.len(),
                0 <= i <= n,
                forall|t: int| 0 <= t < i ==> #[trigger] self.entries@[t].0@ != name@,
            decreases n - i,
        {
            if self.entries[i].0 == *name {
                proof {
                    lemma_map_of_dom(self.entries@, name@);
                }
                return true;
            }
            i += 1;
        }
        proof {
            lemma_map_of_dom(self.entries@, name@);
        }
        false
    }

    /// The descriptor recorded under this name, if there is one.
    pub fn get(&self, name: &String) -> (r: Option<&CommandData>)
        ensures
            r matches Some(d) ==> self@.dom().contains(name@) && d@ == self@[name@],
            r is None ==> !self@.dom().contains(name@),
    {
        let mut i: usize = self.entries.len();
        while i > 0
            invariant
                i <= self.entries.len(),
                forall|t: int|
                    i <= t < self.entries@.len() ==> #[trigger] self.entries@[t].0@ != name@,
            decreases i,
        {
            i -= 1;
            if self.entries[i].0 == *name {
                proof {
                    lemma_map_of_last_match(self.entries@, name@, i as int);
                }
                return Some(&self.entries[i].1);
            }
        }
        proof {
            lemma_map_of_dom(self.entries@, name@);
        }
        None
    }
}

} // verus!
