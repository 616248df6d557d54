//! Schema snapshots and the store that holds the current one.

use vstd::prelude::*;
use std::sync::Arc;
use crate::schema::{Block, BlockView};
use crate::text::texts;

verus! {

/// One complete version of the schema: the blocks by name.
#[derive(Debug)]
pub struct SchemaSnapshot {
    blocks: Vec<Block>,
}

/// The names of `blocks`, in order.
pub open spec fn names_of(blocks: Seq<Block>) -> Seq<Seq<char>> {
    blocks.map_values(|b: Block| b.name@)
}

/// The contents of a list of blocks.
pub open spec fn block_views(blocks: Seq<Block>) -> Seq<BlockView> {
    blocks.map_values(|b: Block| b@)
}

/// The mapping that results from entering `blocks` one after another, a later
/// block replacing an earlier one of the same name.
pub open spec fn collected(blocks: Seq<BlockView>) -> Map<Seq<char>, BlockView>
    decreases blocks.len(),
{
    if blocks.len() == 0 {
        Map::empty()
    } else {
        collected(blocks.drop_last()).insert(blocks.last().name, blocks.last())
    }
}

impl View for SchemaSnapshot {
    type V = Map<Seq<char>, BlockView>;

    closed spec fn view(&self) -> Map<Seq<char>, BlockView> {
        Map::new(
            |name: Seq<char>| names_of(self.blocks@).contains(name),
            |name: Seq<char>| self.blocks@[names_of(self.blocks@).index_of(name)]@,
        )
    }
}

impl SchemaSnapshot {
    #[verifier::type_invariant]
    spec fn names_are_unique(&self) -> bool {
        names_of(self.blocks@).no_duplicates()
    }

    /// Every block is filed under its own name.
    pub proof fn lemma_filed_by_name(&self, name: Seq<char>)
        requires
            self@.contains_key(name),
        ensures
            self@[name].name == name,
    {
        let names = names_of(self.blocks@);
        let i = names.index_of(name);
        assert(names[i] == name);
    }

    /// A snapshot without blocks.
    pub fn new() -> (snapshot: Self)
        ensures
            snapshot@ == Map::<Seq<char>, BlockView>::empty(),
    {
        let snapshot = SchemaSnapshot { blocks: Vec::new() };
        assert(snapshot@ =~= Map::<Seq<char>, BlockView>::empty());
        snapshot
    }

    /// The position of the block called `name`.
    fn position(&self, name: &String) -> (found: Option<usize>)
        ensures
            match found {
                Some(i) => i < self.blocks.len() && self.blocks[i as int].name@ == name@,
                None => !names_of(self.blocks@).contains(name@),
            },
    {
        let mut i: usize = 0;
        while i < self.blocks.len()
            invariant
                i <= self.blocks.len(),
                forall|j: int| 0 <= j < i ==> names_of(self.blocks@)[j] != name@,
            decreases self.blocks.len() - i,
        {
            if self.blocks[i].name == *name {
                return Some(i);
            }
            i = i + 1;
        }
        None
    }

    /// The block called `name`.
    pub fn get(&self, name: &str) -> (found: Option<&Block>)
        ensures
            match found {
                Some(block) => self@.contains_key(name@) && self@[name@] == block@,
                None => !self@.contains_key(name@),
            },
    {
        proof {
            use_type_invariant(self);
        }
        let wanted = String::from_str(name);
        match self.position(&wanted) {
            Some(i) => {
                proof {
                    let names = names_of(self.blocks@);
                    assert(names[i as int] == name@);
                    assert(names.index_of(name@) == i);
                }
                Some(&self.blocks[i])
            },
            None => None,
        }
    }

    /// Enters `block` under its name, replacing the block of that name if
    /// there is one.
    pub fn insert(&mut self, block: Block)
        ensures
            final(self)@ == old(self)@.insert(block@.name, block@),
    {
        proof {
            use_type_invariant(&*self);
        }
        let ghost before = self.blocks@;
        let ghost names = names_of(before);
        let ghost entered = block@;
        let place = self.position(&block.name);
        let mut taken = SchemaSnapshot { blocks: Vec::new() };
        std::mem::swap(self, &mut taken);
        let SchemaSnapshot { blocks } = taken;
        let mut blocks = blocks;
        match place {
            Some(i) => {
                blocks.set(i, block);
                proof {
                    assert(names_of(blocks@) =~= names);
                }
                *self = SchemaSnapshot { blocks };
                proof {
                    let after = self.blocks@;
                    assert(names_of(after) =~= names);
                    assert forall|name: Seq<char>| names.contains(name) implies (if name
                        == entered.name {
                        after[names.index_of(name)]@ == entered
                    } else {
                        after[names.index_of(name)]@ == before[names.index_of(name)]@
                    }) by {
                        let k = names.index_of(name);
                        assert(names[k] == name);
                        assert(names[i as int] == entered.name);
                    }
                    assert(names.contains(entered.name)) by {
                        assert(names[i as int] == entered.name);
                    }
                    assert(self@ =~= old(self)@.insert(entered.name, entered));
                }
            },
            None => {
                blocks.push(block);
                proof {
                    assert(names_of(blocks@) =~= names.push(entered.name));
                }
                *self = SchemaSnapshot { blocks };
                proof {
                    let after = self.blocks@;
                    let longer = names_of(after);
                    assert(longer =~= names.push(entered.name));
                    assert forall|name: Seq<char>| longer.contains(name) implies (if name
                        == entered.name {
                        after[longer.index_of(name)]@ == entered
                    } else {
                        names.contains(name) && after[longer.index_of(name)]@
                            == before[names.index_of(name)]@
                    }) by {
                        let k = longer.index_of(name);
                        assert(longer[k] == name);
                        if name != entered.name {
                            assert(k < names.len());
                            assert(names[k] == name);
                            assert(names.index_of(name) == k);
                        } else {
                            assert(k == names.len());
                        }
                    }
                    assert forall|name: Seq<char>| names.contains(name) implies longer.contains(
                        name,
                    ) by {
                        let k = names.index_of(name);
                        assert(longer[k] == name);
                    }
                    assert(longer.contains(entered.name)) by {
                        assert(longer[names.len() as int] == entered.name);
                    }
                    assert(self@ =~= old(self)@.insert(entered.name, entered));
                }
            },
        }
    }

    /// The snapshot that holds `blocks`, a later block replacing an earlier
    /// one of the same name.
    pub fn from_blocks(blocks: Vec<Block>) -> (snapshot: Self)
        ensures
            snapshot@ == collected(block_views(blocks@)),
    {
        let ghost all = block_views(blocks@);
        let mut snapshot = SchemaSnapshot::new();
        for block in it: blocks.into_iter()
            invariant
                it.seq() == blocks@,
                all == block_views(blocks@),
                snapshot@ == collected(all.take(it.index() as int)),
        {
            proof {
                let n = it.index() as int;
                assert(all.take(n + 1).drop_last() =~= all.take(n));
                assert(all.take(n + 1).last() == block@);
            }
            snapshot.insert(block);
        }
        assert(all.take(blocks@.len() as int) =~= all);
        snapshot
    }

    /// The blocks, each under a name of its own.
    pub fn blocks(&self) -> (blocks: &Vec<Block>)
        ensures
            names_of(blocks@).no_duplicates(),
            forall|i: int|
                0 <= i < blocks.len() ==> self@.contains_key(#[trigger] blocks[i].name@)
                    && self@[blocks[i].name@] == blocks[i]@,
            forall|name: Seq<char>|
                self@.contains_key(name) ==> #[trigger] names_of(blocks@).contains(name),
    {
        proof {
            use_type_invariant(self);
            let names = names_of(self.blocks@);
            assert forall|i: int| 0 <= i < self.blocks.len() implies self@.contains_key(
                #[trigger] self.blocks[i].name@,
            ) && self@[self.blocks[i].name@] == self.blocks[i]@ by {
                assert(names[i] == self.blocks[i].name@);
                assert(names.index_of(names[i]) == i);
            }
        }
        &self.blocks
    }

    /// The names of the blocks, each once.
    pub fn block_names(&self) -> (names: Vec<String>)
        ensures
            texts(names@).no_duplicates(),
            forall|name: Seq<char>| self@.contains_key(name) <==> texts(names@).contains(name),
    {
        proof {
            use_type_invariant(self);
        }
        let mut names: Vec<String> = Vec::new();
        let mut i: usize = 0;
        while i < self.blocks.len()
            invariant
                i <= self.blocks.len(),
                texts(names@) =~= names_of(self.blocks@).take(i as int),
            decreases self.blocks.len() - i,
        {
            let name = self.blocks[i].name.clone();
            proof {
                let n = i as int;
                assert(texts(names@.push(name)) =~= texts(names@).push(name@));
                assert(names_of(self.blocks@).take(n + 1) =~= names_of(self.blocks@).take(
                    n,
                ).push(name@));
            }
            names.push(name);
            i = i + 1;
        }
        assert(texts(names@) =~= names_of(self.blocks@));
        names
    }
}

/// The configuration could not be read or parsed.
#[derive(Debug, PartialEq, Eq)]
pub struct ConfigParseError {
    pub message: String,
}

/// Holds the current snapshot. Readers take a handle to it; a writer swaps in
/// a whole new snapshot, so no reader ever sees part of an update.
#[derive(Debug)]
pub struct SchemaStore {
    current: Arc<SchemaSnapshot>,
}

impl View for SchemaStore {
    type V = Map<Seq<char>, BlockView>;

    closed spec fn view(&self) -> Map<Seq<char>, BlockView> {
        (*self.current)@
    }
}

impl SchemaStore {
    /// A store whose current snapshot is `initial`.
    pub fn new(initial: SchemaSnapshot) -> (store: Self)
        ensures
            store@ == initial@,
    {
        SchemaStore { current: Arc::new(initial) }
    }

    /// A handle to the current snapshot; it stays valid and unchanged whatever
    /// is installed later.
    pub fn get_snapshot(&self) -> (snapshot: Arc<SchemaSnapshot>)
        ensures
            (*snapshot)@ == self@,
    {
        self.current.clone()
    }

    /// Installs `new` as the current snapshot.
    pub fn replace(&mut self, new: SchemaSnapshot)
        ensures
            final(self)@ == new@,
    {
        self.current = Arc::new(new);
    }

    /// Installs the outcome of re-reading the configuration: a snapshot that
    /// parsed replaces the current one, a failure leaves it in place and is
    /// handed back.
    pub fn reload(&mut self, parsed: Result<SchemaSnapshot, ConfigParseError>) -> (outcome: Result<
        (),
        ConfigParseError,
    >)
        ensures
            match parsed {
                Ok(new) => outcome is Ok && final(self)@ == new@,
                Err(error) => outcome == Err::<(), ConfigParseError>(error) && final(self)@ == old(
                    self,
                )@,
            },
    {
        match parsed {
            Ok(new) => {
                self.replace(new);
                Ok(())
            },
            Err(error) => Err(error),
        }
    }
}

} // verus!
