//! The table of macros and constants that a parse builds up.

use vstd::prelude::*;
use crate::value::{copy_program, instructions, Instruction, Stack};

verus! {

/// A name and the program that it stands for.
pub struct Definition {
    pub name: String,
    pub body: Vec<Stack>,
}

/// The user's definitions: each name with the program that it stands for.
///
/// A name is looked up by its characters. Defining a name again replaces what it
/// stood for; what was spliced in before is not touched.
pub struct Definitions {
    entries: Vec<Definition>,
}

/// The map that a list of definitions amounts to, a later one taking the place of an
/// earlier one of the same name.
pub open spec fn table(entries: Seq<Definition>) -> Map<Seq<char>, Seq<Instruction>>
    decreases entries.len(),
{
    if entries.len() == 0 {
        Map::empty()
    } else {
        table(entries.drop_last()).insert(entries.last().name@, instructions(entries.last().body@))
    }
}

impl View for Definitions {
    type V = Map<Seq<char>, Seq<Instruction>>;

    closed spec fn view(&self) -> Map<Seq<char>, Seq<Instruction>> {
        table(self.entries@)
    }
}

impl Definitions {
    /// A table without any definition.
    pub fn new() -> (table: Definitions)
        ensures
            table@ == Map::<Seq<char>, Seq<Instruction>>::empty(),
    {
        Definitions { entries: Vec::new() }
    }

    /// Makes `name` stand for `body`, whatever it stood for before.
    pub fn insert(&mut self, name: String, body: Vec<Stack>)
        ensures
            final(self)@ == old(self)@.insert(name@, instructions(body@)),
    {
        let entry = Definition { name, body };
        self.entries.push(entry);
        proof {
            assert(self.entries@.drop_last() =~= old(self).entries@);
        }
    }

    /// The program that `name` stands for, if it is defined.
    pub fn get(&self, name: &String) -> (found: Option<&Vec<Stack>>)
        ensures
            match found {
                Some(body) => self@.contains_key(name@) && self@[name@] == instructions(body@),
                None => !self@.contains_key(name@),
            },
    {
        let mut k: usize = self.entries.len();
        proof {
            assert(self.entries@.take(k as int) =~= self.entries@);
        }
        while k > 0
            invariant
                k <= self.entries@.len(),
                table(self.entries@).contains_key(name@) <==> table(
                    self.entries@.take(k as int),
                ).contains_key(name@),
                table(self.entries@).contains_key(name@) ==> table(self.entries@)[name@] == table(
                    self.entries@.take(k as int),
                )[name@],
            decreases k,
        {
            proof {
                assert(self.entries@.take(k as int).drop_last() =~= self.entries@.take(k - 1));
            }
            k -= 1;
            if self.entries[k].name == *name {
                return Some(&self.entries[k].body);
            }
        }
        None
    }

    /// Whether `name` is defined.
    pub fn contains_key(&self, name: &String) -> (found: bool)
        ensures
            found == self@.contains_key(name@),
    {
        self.get(name).is_some()
    }

    /// A copy of the program that `name` stands for, if it is defined.
    pub fn body_of(&self, name: &String) -> (found: Option<Vec<Stack>>)
        ensures
            match found {
                Some(body) => self@.contains_key(name@) && self@[name@] == instructions(body@),
                None => !self@.contains_key(name@),
            },
    {
        match self.get(name) {
            Some(body) => Some(copy_program(body)),
            None => None,
        }
    }
}

} // verus!
