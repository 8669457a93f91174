//! The execution engine: chains drive their blocks in order, modes group
//! chains, the manager switches the one active mode together with the
//! memory mode, and the engine is a flat block registry for out-of-band
//! operations.

use vstd::prelude::*;
use crate::memory_manager::MemoryManager;
use crate::memory_manager::MemoryMode;
use crate::registry::IndexMap;
use crate::registry::NamedMap;
use crate::streaming_data::StreamErrCode;
use crate::streaming_data::StreamingState;
use crate::stream_processor::StreamProcessor;

verus! {

/// Every block in the sequence is well-formed.
pub open spec fn blocks_inv<P: StreamProcessor>(s: Seq<P>) -> bool {
    forall|j: int| 0 <= j < s.len() ==> (#[trigger] s[j]).inv()
}

/// Every block in the sequence is `Stopped`.
pub open spec fn blocks_stopped<P: StreamProcessor>(s: Seq<P>) -> bool {
    forall|j: int|
        0 <= j < s.len() ==> (#[trigger] s[j]).state_spec() == StreamingState::Stopped
}

/// The blocks of `b` are those of `a` with unchanged lifecycle states.
pub open spec fn states_preserved<P: StreamProcessor>(a: Seq<P>, b: Seq<P>) -> bool {
    &&& a.len() == b.len()
    &&& forall|j: int|
        0 <= j < a.len() ==> (#[trigger] b[j]).state_spec() == (#[trigger] a[j]).state_spec()
}

/// An ordered pipeline of blocks: one `process` call drives every block
/// once, in insertion order, stopping at the first failure.
pub struct ProcessorChain<P> {
    name: String,
    blocks: Vec<P>,
}

impl<P: StreamProcessor> ProcessorChain<P> {
    pub closed spec fn name_spec(&self) -> Seq<char> {
        self.name@
    }

    pub closed spec fn blocks_seq(&self) -> Seq<P> {
        self.blocks@
    }

    pub open spec fn inv(&self) -> bool {
        blocks_inv(self.blocks_seq())
    }

    pub fn new(name: String) -> (r: Self)
        ensures
            r.name_spec() == name@,
            r.blocks_seq() =~= Seq::<P>::empty(),
            r.inv(),
    {
        ProcessorChain { name, blocks: Vec::new() }
    }

    pub fn name(&self) -> (r: &str)
        ensures
            r@ == self.name_spec(),
    {
        self.name.as_str()
    }

    /// Append a block to the end of the pipeline.
    pub fn add_processor(&mut self, processor: P)
        requires
            old(self).inv(),
            processor.inv(),
        ensures
            final(self).inv(),
            final(self).name_spec() == old(self).name_spec(),
            final(self).blocks_seq() =~= old(self).blocks_seq().push(processor),
    {
        self.blocks.push(processor);
    }

    /// Drive every block once, in order; the first failure aborts the
    /// iteration and is propagated. No block changes lifecycle state.
    pub fn process(&mut self) -> (r: Result<(), StreamErrCode>)
        requires
            old(self).inv(),
        ensures
            final(self).inv(),
            final(self).name_spec() == old(self).name_spec(),
            states_preserved(old(self).blocks_seq(), final(self).blocks_seq()),
            old(self).blocks_seq().len() == 0 ==> r is Ok,
    {
        let n = self.blocks.len();
        let mut i: usize = 0;
        while i < n
            invariant
                i <= n,
                n == self.blocks@.len(),
                self.name@ == old(self).name@,
                blocks_inv(self.blocks@),
                states_preserved(old(self).blocks@, self.blocks@),
            decreases n - i,
        {
            let blk = &mut self.blocks[i];
            let r = blk.process();
            if let Err(e) = r {
                return Err(e);
            }
            i = i + 1;
        }
        Ok(())
    }

    /// Shared access to one block of the pipeline.
    pub fn block_at(&self, i: usize) -> (r: &P)
        requires
            i < self.blocks_seq().len(),
        ensures
            *r == self.blocks_seq()[i as int],
    {
        &self.blocks[i]
    }

    /// Stop every block unconditionally; the last failure, if any, is
    /// propagated after the sweep.
    pub fn stop(&mut self) -> (r: Result<(), StreamErrCode>)
        requires
            old(self).inv(),
        ensures
            final(self).inv(),
            final(self).name_spec() == old(self).name_spec(),
            final(self).blocks_seq().len() == old(self).blocks_seq().len(),
            blocks_stopped(final(self).blocks_seq()),
    {
        let n = self.blocks.len();
        let mut result: Result<(), StreamErrCode> = Ok(());
        let mut i: usize = 0;
        while i < n
            invariant
                i <= n,
                n == self.blocks@.len(),
                self.name@ == old(self).name@,
                blocks_inv(self.blocks@),
                forall|j: int|
                    0 <= j < i ==> (#[trigger] self.blocks@[j]).state_spec()
                        == StreamingState::Stopped,
            decreases n - i,
        {
            let blk = &mut self.blocks[i];
            let r = blk.stop();
            if let Err(e) = r {
                result = Err(e);
            }
            i = i + 1;
        }
        result
    }
}

/// Every chain of the sequence is well-formed.
pub open spec fn chains_inv<P: StreamProcessor>(s: Seq<ProcessorChain<P>>) -> bool {
    forall|j: int| 0 <= j < s.len() ==> (#[trigger] s[j]).inv()
}

/// Every block of every chain in the sequence is `Stopped`.
pub open spec fn chains_stopped<P: StreamProcessor>(s: Seq<ProcessorChain<P>>) -> bool {
    forall|j: int| 0 <= j < s.len() ==> blocks_stopped((#[trigger] s[j]).blocks_seq())
}

/// A named parallel set of chains; a driver task per chain runs them.
pub struct ProcessorMode<P> {
    name: String,
    chains: Vec<ProcessorChain<P>>,
}

/// Every chain of the mode is well-formed.
pub open spec fn mode_inv<P: StreamProcessor>(m: ProcessorMode<P>) -> bool {
    chains_inv(m.chains_seq())
}

/// Every block of the mode is `Stopped`: the mode is quiescent.
pub open spec fn mode_stopped<P: StreamProcessor>(m: ProcessorMode<P>) -> bool {
    chains_stopped(m.chains_seq())
}

impl<P: StreamProcessor> ProcessorMode<P> {
    pub closed spec fn name_spec(&self) -> Seq<char> {
        self.name@
    }

    pub closed spec fn chains_seq(&self) -> Seq<ProcessorChain<P>> {
        self.chains@
    }

    pub fn new(name: &str) -> (r: Self)
        ensures
            r.name_spec() == name@,
            r.chains_seq() =~= Seq::<ProcessorChain<P>>::empty(),
            mode_inv(r),
    {
        ProcessorMode { name: name.to_owned(), chains: Vec::new() }
    }

    pub fn name(&self) -> (r: &str)
        ensures
            r@ == self.name_spec(),
    {
        self.name.as_str()
    }

    /// Add one chain to the mode.
    pub fn add_chain(&mut self, chain: ProcessorChain<P>)
        requires
            mode_inv(*old(self)),
            chain.inv(),
        ensures
            mode_inv(*final(self)),
            final(self).name_spec() == old(self).name_spec(),
            final(self).chains_seq() =~= old(self).chains_seq().push(chain),
    {
        self.chains.push(chain);
    }

    /// How many chains the mode holds, and so how many drivers it needs.
    pub fn chain_count(&self) -> (r: usize)
        ensures
            r == self.chains_seq().len(),
    {
        self.chains.len()
    }

    /// Shared access to one chain of the mode.
    pub fn chain_at(&self, i: usize) -> (r: &ProcessorChain<P>)
        requires
            i < self.chains_seq().len(),
        ensures
            *r == self.chains_seq()[i as int],
    {
        &self.chains[i]
    }

    /// Drive every chain once, in order: the single-threaded stand-in for
    /// one scheduling round of the mode's drivers.
    pub fn process_all(&mut self) -> (r: Result<(), StreamErrCode>)
        requires
            mode_inv(*old(self)),
        ensures
            mode_inv(*final(self)),
            final(self).name_spec() == old(self).name_spec(),
            final(self).chains_seq().len() == old(self).chains_seq().len(),
            old(self).chains_seq().len() == 0 ==> r is Ok,
    {
        let n = self.chains.len();
        let mut result: Result<(), StreamErrCode> = Ok(());
        let mut i: usize = 0;
        while i < n
            invariant
                i <= n,
                n == self.chains@.len(),
                self.name@ == old(self).name@,
                chains_inv(self.chains@),
                n == 0 ==> result is Ok,
            decreases n - i,
        {
            let chain = &mut self.chains[i];
            let r = chain.process();
            if let Err(e) = r {
                result = Err(e);
            }
            i = i + 1;
        }
        result
    }

    /// Quiesce the mode: stop every block of every chain; the last failure
    /// is propagated after the sweep.
    pub fn stop(&mut self) -> (r: Result<(), StreamErrCode>)
        requires
            mode_inv(*old(self)),
        ensures
            mode_inv(*final(self)),
            final(self).name_spec() == old(self).name_spec(),
            final(self).chains_seq().len() == old(self).chains_seq().len(),
            mode_stopped(*final(self)),
    {
        let n = self.chains.len();
        let mut result: Result<(), StreamErrCode> = Ok(());
        let mut i: usize = 0;
        while i < n
            invariant
                i <= n,
                n == self.chains@.len(),
                self.name@ == old(self).name@,
                chains_inv(self.chains@),
                forall|j: int| 0 <= j < i ==> blocks_stopped((#[trigger] self.chains@[j]).blocks_seq()),
            decreases n - i,
        {
            let chain = &mut self.chains[i];
            let r = chain.stop();
            if let Err(e) = r {
                result = Err(e);
            }
            i = i + 1;
        }
        result
    }
}

/// Every registered mode is well-formed.
pub open spec fn manager_modes_inv<P: StreamProcessor>(m: Map<int, ProcessorMode<P>>) -> bool {
    forall|i: int| m.dom().contains(i) ==> mode_inv(#[trigger] m[i])
}

/// The owner of the modes: it keeps the processor-mode index and the
/// memory-mode index moving together, and quiesces the old mode before the
/// switch completes.
pub struct ProcessorManager<P> {
    modes: IndexMap<ProcessorMode<P>>,
    memory: MemoryManager,
    current_mode_index: usize,
}

impl<P: StreamProcessor> ProcessorManager<P> {
    pub closed spec fn modes_view(&self) -> Map<int, ProcessorMode<P>> {
        self.modes@
    }

    pub closed spec fn count_spec(&self) -> nat {
        self.modes.len_spec()
    }

    pub closed spec fn current_spec(&self) -> usize {
        self.current_mode_index
    }

    pub closed spec fn memory_spec(&self) -> MemoryManager {
        self.memory
    }

    /// Registries are well-formed and the two mode indices agree.
    pub closed spec fn inv_spec(&self) -> bool {
        &&& self.modes.wf()
        &&& self.memory.wf()
        &&& manager_modes_inv(self.modes@)
        &&& self.memory.current_spec() == self.current_mode_index
    }

    pub fn new() -> (r: Self)
        ensures
            r.inv_spec(),
            r.modes_view() =~= Map::<int, ProcessorMode<P>>::empty(),
            r.count_spec() == 0,
            r.current_spec() == 0,
    {
        ProcessorManager {
            modes: IndexMap::new(),
            memory: MemoryManager::new(),
            current_mode_index: 0,
        }
    }

    pub fn current_mode_index(&self) -> (r: usize)
        ensures
            r == self.current_spec(),
    {
        self.current_mode_index
    }

    /// Register a mode under the next free index, and give the Memory
    /// Manager a fresh memory mode under the same index.
    pub fn add_mode(&mut self, mode: ProcessorMode<P>)
        requires
            old(self).inv_spec(),
            mode_inv(mode),
        ensures
            final(self).inv_spec(),
            final(self).current_spec() == old(self).current_spec(),
            final(self).modes_view() =~= old(self).modes_view().insert(
                old(self).count_spec() as int,
                mode,
            ),
            final(self).memory_spec().modes_view().dom() =~= old(self).memory_spec().modes_view().dom().insert(old(self).count_spec() as int),
    {
        let index = self.modes.len();
        self.modes.upsert(index, mode);
        self.memory.add_mode(index);
    }

    /// Shared access to the mode registered under an index.
    pub fn mode_at(&self, index: usize) -> (r: Option<&ProcessorMode<P>>)
        requires
            self.inv_spec(),
        ensures
            match r {
                Some(m) => self.modes_view().dom().contains(index as int) && *m
                    == self.modes_view()[index as int],
                None => !self.modes_view().dom().contains(index as int),
            },
    {
        self.modes.get(index)
    }

    /// Read access to the memory manager, for snapshots.
    pub fn memory(&self) -> (r: &MemoryManager)
        ensures
            *r == self.memory_spec(),
    {
        &self.memory
    }

    /// Mutable access to one memory mode, for registrations and updates;
    /// the mode indices stay aligned.
    pub fn memory_mode_mut(&mut self, index: usize) -> (m: &mut MemoryMode)
        requires
            old(self).inv_spec(),
            old(self).memory_spec().modes_view().dom().contains(index as int),
        ensures
            *m == old(self).memory_spec().modes_view()[index as int],
            m.wf(),
            final(m).wf() ==> final(self).inv_spec(),
            final(self).current_spec() == old(self).current_spec(),
            final(self).modes_view() == old(self).modes_view(),
            final(self).memory_spec().modes_view() =~= old(self).memory_spec().modes_view().insert(
                index as int,
                *final(m),
            ),
            final(self).memory_spec().current_spec() == old(self).memory_spec().current_spec(),
    {
        self.memory.mode_at_mut(index)
    }

    /// Switch the active mode: a no-op on the current index, an error on
    /// an unknown one; otherwise the old mode is quiesced, then the
    /// processor-mode and memory-mode indices move to the new index
    /// together. The old mode's registry entry survives the switch.
    pub fn switch_mode(&mut self, index: usize) -> (r: Result<(), StreamErrCode>)
        requires
            old(self).inv_spec(),
        ensures
            final(self).inv_spec(),
            old(self).current_spec() == index ==> r is Ok && *final(self) == *old(self),
            old(self).current_spec() != index && !old(self).modes_view().dom().contains(
                index as int,
            ) ==> r == Err::<(), StreamErrCode>(StreamErrCode::InvalidParameter) && *final(self)
                == *old(self),
            r is Err ==> final(self).current_spec() == old(self).current_spec(),
            r is Ok && old(self).current_spec() != index ==> final(self).current_spec() == index
                && final(self).memory_spec().current_spec() == index,
            r is Ok && old(self).current_spec() != index && old(self).modes_view().dom().contains(
                old(self).current_spec() as int,
            ) ==> mode_stopped(final(self).modes_view()[old(self).current_spec() as int]),
            old(self).current_spec() != index && old(self).modes_view().dom().contains(
                index as int,
            ) && !old(self).modes_view().dom().contains(old(self).current_spec() as int) ==> r
                is Ok,
            final(self).modes_view().dom() =~= old(self).modes_view().dom(),
            final(self).memory_spec().modes_view() == old(self).memory_spec().modes_view(),
    {
        if self.current_mode_index == index {
            return Ok(());
        }
        if !self.modes.contains_key(index) {
            return Err(StreamErrCode::InvalidParameter);
        }
        if self.modes.contains_key(self.current_mode_index) {
            let current = self.modes.get_mut(self.current_mode_index);
            let r = current.stop();
            if let Err(e) = r {
                return Err(e);
            }
        }
        self.current_mode_index = index;
        self.memory.set_mode(index);
        Ok(())
    }
}

/// Every registered block is well-formed.
pub open spec fn engine_seq_inv<P: StreamProcessor>(s: Seq<(Seq<char>, P)>) -> bool {
    forall|j: int| 0 <= j < s.len() ==> (#[trigger] s[j]).1.inv()
}

/// Every registered block is in the given lifecycle state.
pub open spec fn engine_seq_state<P: StreamProcessor>(
    s: Seq<(Seq<char>, P)>,
    state: StreamingState,
) -> bool {
    forall|j: int| 0 <= j < s.len() ==> (#[trigger] s[j]).1.state_spec() == state
}

/// A flat name-to-block registry for bulk init/stop and command dispatch,
/// orthogonal to chains and modes.
pub struct ProcessorEngine<P> {
    processor_map: NamedMap<P>,
}

impl<P: StreamProcessor> ProcessorEngine<P> {
    pub closed spec fn view_spec(&self) -> Map<Seq<char>, P> {
        self.processor_map@
    }

    pub closed spec fn seq_spec(&self) -> Seq<(Seq<char>, P)> {
        self.processor_map.seq_spec()
    }

    pub closed spec fn inv_spec(&self) -> bool {
        self.processor_map.wf() && engine_seq_inv(self.processor_map.seq_spec())
    }

    pub fn new() -> (r: Self)
        ensures
            r.inv_spec(),
            r.view_spec() =~= Map::<Seq<char>, P>::empty(),
            r.seq_spec() =~= Seq::<(Seq<char>, P)>::empty(),
    {
        ProcessorEngine { processor_map: NamedMap::new() }
    }

    /// Register a block under its name; duplicates are refused.
    pub fn register_processor(&mut self, name: &str, processor: P) -> (r: Result<
        (),
        StreamErrCode,
    >)
        requires
            old(self).inv_spec(),
            processor.inv(),
        ensures
            final(self).inv_spec(),
            r is Ok <==> !old(self).view_spec().dom().contains(name@),
            r is Ok ==> final(self).view_spec() =~= old(self).view_spec().insert(name@, processor)
                && final(self).seq_spec() =~= old(self).seq_spec().push((name@, processor)),
            r is Err ==> r == Err::<(), StreamErrCode>(StreamErrCode::AlreadyDefined) && *final(self) == *old(self),
    {
        if self.processor_map.insert_new(name.to_owned(), processor) {
            Ok(())
        } else {
            Err(StreamErrCode::AlreadyDefined)
        }
    }

    /// Stop every registered block, ignoring individual failures.
    pub fn stop(&mut self) -> (r: Result<(), StreamErrCode>)
        requires
            old(self).inv_spec(),
        ensures
            final(self).inv_spec(),
            r is Ok,
            final(self).seq_spec().len() == old(self).seq_spec().len(),
            final(self).view_spec().dom() =~= old(self).view_spec().dom(),
            engine_seq_state(final(self).seq_spec(), StreamingState::Stopped),
    {
        let n = self.processor_map.len();
        let mut i: usize = 0;
        while i < n
            invariant
                i <= n,
                n == self.processor_map.seq_spec().len(),
                self.processor_map.wf(),
                engine_seq_inv(self.processor_map.seq_spec()),
                self.processor_map@.dom() =~= old(self).processor_map@.dom(),
                forall|j: int|
                    0 <= j < i ==> (#[trigger] self.processor_map.seq_spec()[j]).1.state_spec()
                        == StreamingState::Stopped,
                forall|j: int|
                    0 <= j < n ==> (#[trigger] self.processor_map.seq_spec()[j]).0 == old(self).processor_map.seq_spec()[j].0,
            decreases n - i,
        {
            proof {
                self.processor_map.lemma_seq_view(i as int);
            }
            let blk = self.processor_map.at_mut(i);
            let _ = blk.stop();
            i = i + 1;
        }
        Ok(())
    }

    /// Initialise every registered block; at the first failure, stop every
    /// block and propagate that failure.
    pub fn init(&mut self) -> (r: Result<(), StreamErrCode>)
        requires
            old(self).inv_spec(),
        ensures
            final(self).inv_spec(),
            final(self).seq_spec().len() == old(self).seq_spec().len(),
            final(self).view_spec().dom() =~= old(self).view_spec().dom(),
            r is Ok ==> engine_seq_state(final(self).seq_spec(), StreamingState::Initial),
            r is Err ==> engine_seq_state(final(self).seq_spec(), StreamingState::Stopped),
            old(self).seq_spec().len() == 0 ==> r is Ok,
    {
        let n = self.processor_map.len();
        let mut i: usize = 0;
        while i < n
            invariant
                i <= n,
                n == self.processor_map.seq_spec().len(),
                n == old(self).processor_map.seq_spec().len(),
                self.processor_map.wf(),
                engine_seq_inv(self.processor_map.seq_spec()),
                self.processor_map@.dom() =~= old(self).processor_map@.dom(),
                forall|j: int|
                    0 <= j < i ==> (#[trigger] self.processor_map.seq_spec()[j]).1.state_spec()
                        == StreamingState::Initial,
                forall|j: int|
                    0 <= j < n ==> (#[trigger] self.processor_map.seq_spec()[j]).0 == old(self).processor_map.seq_spec()[j].0,
            decreases n - i,
        {
            proof {
                self.processor_map.lemma_seq_view(i as int);
            }
            let blk = self.processor_map.at_mut(i);
            let r = blk.init();
            if let Err(e) = r {
                let _ = self.stop();
                return Err(e);
            }
            i = i + 1;
        }
        Ok(())
    }

    /// Dispatch a command to the named block; unknown names are refused
    /// with `InvalidInput`.
    pub fn execute_command(&mut self, processor_name: &str, command: &str, args: &Vec<String>)
        -> (r: Result<String, StreamErrCode>)
        requires
            old(self).inv_spec(),
        ensures
            final(self).inv_spec(),
            final(self).seq_spec().len() == old(self).seq_spec().len(),
            final(self).view_spec().dom() =~= old(self).view_spec().dom(),
            !old(self).view_spec().dom().contains(processor_name@) ==> r == Err::<
                String,
                StreamErrCode,
            >(StreamErrCode::InvalidInput) && *final(self) == *old(self),
    {
        let key = processor_name.to_owned();
        match self.processor_map.index_of(&key) {
            None => Err(StreamErrCode::InvalidInput),
            Some(i) => {
                proof {
                    self.processor_map.lemma_seq_view(i as int);
                }
                let blk = self.processor_map.at_mut(i);
                blk.execute_command(command, args)
            },
        }
    }
}

} // verus!
