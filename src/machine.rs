use vstd::prelude::*;
use crate::blockstore::{load_spec, Blockstore};
use crate::call_manager::Engine;
use crate::config::Config;
use crate::content_id::state_root_of;
use crate::gas::{price_list_by_network_version, standard_prices, PriceList};
use crate::state_tree::{ids_unique, ActorState, StateTree};

verus! {

/// Why a machine could not be built.
#[derive(Clone, Copy, Debug, PartialEq, Eq, Structural)]
pub enum InitializationError {
    /// The store holds no state under the given root.
    StateRootNotFound,
    /// The state under the given root lists an ID twice.
    CorruptState,
}

/// The execution context of one block.
pub struct Machine {
    pub config: Config,
    pub engine: Engine,
    pub epoch: i64,
    pub base_fee: u64,
    pub circ_supply: u64,
    pub network_version: u32,
    pub prices: PriceList,
    pub tree: StateTree,
    pub store: Blockstore,
}

impl Machine {
    pub open spec fn wf(&self) -> bool {
        self.tree.wf() && self.store.wf()
    }

    /// The current actor states.
    pub open spec fn state(&self) -> Seq<ActorState> {
        self.tree@
    }

    /// Loads the state stored under `state_root`.
    pub fn new(
        config: Config,
        engine: Engine,
        epoch: i64,
        base_fee: u64,
        circ_supply: u64,
        network_version: u32,
        state_root: &Vec<u8>,
        store: Blockstore,
    ) -> (r: Result<Machine, InitializationError>)
        requires
            store.wf(),
        ensures
            match load_spec(store.blocks(), state_root@) {
                None => r == Err::<Machine, InitializationError>(
                    InitializationError::StateRootNotFound,
                ),
                Some(s) => if ids_unique(s) {
                    r matches Ok(m) && m.wf() && m.state() == s && m.tree.mark() == 0
                        && m.store == store && m.config == config && m.engine == engine && m.epoch
                        == epoch && m.base_fee == base_fee && m.circ_supply == circ_supply
                        && m.network_version == network_version && m.prices == standard_prices()
                } else {
                    r == Err::<Machine, InitializationError>(InitializationError::CorruptState)
                },
            },
    {
        let actors = match store.get(state_root) {
            None => return Err(InitializationError::StateRootNotFound),
            Some(v) => v,
        };
        let tree = match StateTree::from_actors(actors) {
            None => return Err(InitializationError::CorruptState),
            Some(t) => t,
        };
        let prices = price_list_by_network_version(network_version);
        Ok(
            Machine {
                config,
                engine,
                epoch,
                base_fee,
                circ_supply,
                network_version,
                prices,
                tree,
                store,
            },
        )
    }

    /// Stores the current state and returns its root.
    pub fn flush(&mut self) -> (r: Vec<u8>)
        requires
            old(self).wf(),
        ensures
            final(self).wf(),
            r@ == state_root_of(old(self).state()),
            final(self).state() == old(self).state(),
            final(self).store.blocks().drop_last() == old(self).store.blocks(),
            final(self).store.blocks().last().key@ == r@,
            final(self).store.blocks().last().actors@ == old(self).state(),
            final(self).store.blocks().len() == old(self).store.blocks().len() + 1,
            final(self).tree.mark() == 0,
            final(self).config == old(self).config,
            final(self).engine == old(self).engine,
            final(self).epoch == old(self).epoch,
            final(self).base_fee == old(self).base_fee,
            final(self).circ_supply == old(self).circ_supply,
            final(self).network_version == old(self).network_version,
            final(self).prices == old(self).prices,
    {
        self.tree.flush(&mut self.store)
    }

    /// Ends the machine, handing back its store.
    pub fn consume(self) -> (r: Blockstore)
        requires
            self.wf(),
        ensures
            r.wf(),
            r == self.store,
    {
        self.store
    }
}

impl StateTree {
    /// Forgets the journal, stores the current state in `store` and returns
    /// its root.
    pub fn flush(&mut self, store: &mut Blockstore) -> (r: Vec<u8>)
        requires
            old(self).wf(),
            old(store).wf(),
        ensures
            final(self).wf(),
            final(store).wf(),
            final(self)@ == old(self)@,
            final(self).mark() == 0,
            r@ == state_root_of(old(self)@),
            final(store).blocks().drop_last() == old(store).blocks(),
            final(store).blocks().last().key@ == r@,
            final(store).blocks().last().actors@ == old(self)@,
            final(store).blocks().len() == old(store).blocks().len() + 1,
    {
        self.discard_journal();
        let actors = self.actors();
        store.put(actors)
    }
}

} // verus!
