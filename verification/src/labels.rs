//! The label table: names bound to addresses in the compiled image.

use vstd::prelude::*;
use crate::error::ErrorKind;
use crate::text::same_text;

verus! {

/// A label name with the address it is bound to.
#[derive(Clone, Debug, PartialEq, Eq)]
struct Label {
    name: Vec<char>,
    address: u16,
}

/// The bindings that the first `upto` entries make.
spec fn bindings(entries: Seq<Label>, upto: nat) -> Map<Seq<char>, u16>
    decreases upto,
{
    if upto == 0 {
        Map::empty()
    } else {
        bindings(entries, (upto - 1) as nat).insert(
            entries[upto - 1].name@,
            entries[upto - 1].address,
        )
    }
}

/// The bindings of the first entries do not depend on the entries behind
/// them.
proof fn lemma_bindings_prefix(entries: Seq<Label>, longer: Seq<Label>, upto: nat)
    requires
        upto <= entries.len() <= longer.len(),
        forall|i: int| 0 <= i < entries.len() ==> entries[i] == longer[i],
    ensures
        bindings(entries, upto) == bindings(longer, upto),
    decreases upto,
{
    if upto > 0 {
        lemma_bindings_prefix(entries, longer, (upto - 1) as nat);
    }
}

/// A table of labels. Its view is the map from each name to its address.
#[derive(Clone, Debug, PartialEq, Eq)]
pub struct LabelTable {
    entries: Vec<Label>,
}

impl View for LabelTable {
    type V = Map<Seq<char>, u16>;

    closed spec fn view(&self) -> Map<Seq<char>, u16> {
        bindings(self.entries@, self.entries@.len())
    }
}

impl LabelTable {
    /// A table without labels.
    pub fn new() -> (table: Self)
        ensures
            table@ == Map::<Seq<char>, u16>::empty(),
    {
        LabelTable { entries: Vec::new() }
    }

    /// The address that `name` is bound to, if it is bound.
    pub fn lookup(&self, name: &[char]) -> (address: Option<u16>)
        ensures
            address == if self@.contains_key(name@) {
                Some(self@[name@])
            } else {
                None
            },
    {
        let mut i: usize = self.entries.len();
        while i > 0
            invariant
                i <= self.entries@.len(),
                self@.contains_key(name@) == bindings(self.entries@, i as nat).contains_key(name@),
                self@.contains_key(name@) ==> self@[name@] == bindings(self.entries@, i as nat)[name@],
            decreases i,
        {
            i -= 1;
            if same_text(self.entries[i].name.as_slice(), name) {
                return Some(self.entries[i].address);
            }
        }
        None
    }

    /// Binds `name` to `address`, unless the name is bound already.
    pub fn insert(&mut self, name: Vec<char>, address: u16) -> (result: Result<(), ErrorKind>)
        ensures
            old(self)@.contains_key(name@) ==> result == Err::<(), ErrorKind>(
                ErrorKind::DuplicateLabel,
            ) && final(self)@ == old(self)@,
            !old(self)@.contains_key(name@) ==> result == Ok::<(), ErrorKind>(()) && final(self)@
                == old(self)@.insert(name@, address),
    {
        if self.lookup(name.as_slice()).is_some() {
            return Err(ErrorKind::DuplicateLabel);
        }
        proof {
            lemma_bindings_prefix(
                self.entries@,
                self.entries@.push(Label { name, address }),
                self.entries@.len(),
            );
        }
        self.entries.push(Label { name, address });
        Ok(())
    }
}

} // verus!
