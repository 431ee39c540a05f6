//! The network directory: user-owned networks, their owners, coin
//! configuration and derived treasury accounts.
//!
//! The access controller consults this component for network existence,
//! ownership and the per-network treasury account.

use vstd::prelude::*;

use crate::table::Table;

verus! {

/// Largest accepted metadata URI, in bytes.
pub const MAX_METADATA_URI_LEN: usize = 256;

/// Tag under which per-network treasury accounts are derived
/// (the bytes `navifact` read as a big-endian integer).
pub const TREASURY_TAG: u64 = 0x6e61766966616374;

/// The type of coin a network uses.
#[derive(Clone, Copy, PartialEq, Eq, Structural, Debug)]
pub enum CoinKind {
    /// Use the native token.
    UseNavi,
    /// Mint a custom asset for this network.
    MintAsset,
}

/// Information about a network.
pub struct NetworkInfo {
    /// The owner of the network.
    pub owner: u64,
    /// The type of coin this network uses.
    pub coin_kind: CoinKind,
    /// The asset ID if a custom asset is minted.
    pub asset_id: Option<u32>,
    /// The treasury account for this network.
    pub treasury: u64,
    /// Metadata URI for the network, at most [`MAX_METADATA_URI_LEN`] bytes.
    pub metadata_uri: Vec<u8>,
}

/// One record per successful state-changing call, in order.
#[derive(Clone, Copy, PartialEq, Eq, Debug)]
pub enum Event {
    /// A network was created.
    NetworkCreated { network_id: u64, owner: u64, use_navi: bool, asset_id: Option<u32> },
}

/// Why a directory operation was refused.  A refused operation has no effect.
#[derive(Clone, Copy, PartialEq, Eq, Debug)]
pub enum Error {
    /// The network-id space is exhausted.
    NetworkIdOverflow,
    /// The metadata URI exceeds [`MAX_METADATA_URI_LEN`] bytes.
    MetadataUriTooLong,
    /// Minting the network's asset failed.  Never returned here: asset
    /// custody is a collaborator's concern and recording the id cannot fail.
    AssetCreationFailed,
}

/// The treasury account derived for a network: the derivation tags the
/// network id so that treasuries of distinct networks are distinct accounts.
pub open spec fn spec_treasury_account(network_id: u64) -> u64 {
    TREASURY_TAG ^ network_id
}

/// Owns network records and allocates network ids from a counter that starts
/// at 0 and never reuses or decrements an id.
pub struct NetworkDirectory {
    networks: Table<NetworkInfo>,
    next_network_id: u64,
    events: Vec<Event>,
}

impl NetworkDirectory {
    /// Networks by id.
    pub closed spec fn network_map(self) -> Map<u64, NetworkInfo> {
        self.networks@
    }

    /// The id the next successful creation will be given.
    pub closed spec fn spec_next_network_id(self) -> u64 {
        self.next_network_id
    }

    /// The event log, oldest first.
    pub closed spec fn events_log(self) -> Seq<Event> {
        self.events@
    }

    pub open spec fn network_of(self, network_id: u64) -> Option<NetworkInfo> {
        if self.network_map().contains_key(network_id) {
            Some(self.network_map()[network_id])
        } else {
            None
        }
    }

    /// Every stored id precedes the counter, every stored URI is bounded, and
    /// every stored treasury is the derived one.
    pub closed spec fn wf(self) -> bool {
        &&& self.networks.wf()
        &&& forall|n: u64|
            #[trigger] self.network_map().contains_key(n) ==> {
                &&& n < self.next_network_id
                &&& self.network_map()[n].metadata_uri@.len() <= MAX_METADATA_URI_LEN
                &&& self.network_map()[n].treasury == spec_treasury_account(n)
            }
    }

    pub fn new() -> (d: NetworkDirectory)
        ensures
            d.wf(),
            d.network_map() == Map::<u64, NetworkInfo>::empty(),
            d.spec_next_network_id() == 0,
            d.events_log() == Seq::<Event>::empty(),
    {
        NetworkDirectory { networks: Table::new(), next_network_id: 0, events: Vec::new() }
    }

    /// Derive the treasury account for a network.
    pub fn treasury_account(network_id: u64) -> (r: u64)
        ensures
            r == spec_treasury_account(network_id),
    {
        TREASURY_TAG ^ network_id
    }

    /// Creates a network owned by `who`: allocates the next network id,
    /// derives the treasury, records the coin configuration and appends a
    /// `NetworkCreated` event.
    pub fn create_network(&mut self, who: u64, use_navi: bool, metadata_uri: Vec<u8>) -> (r:
        Result<(), Error>)
        requires
            old(self).wf(),
        ensures
            final(self).wf(),
            match r {
                Ok(()) => {
                    &&& old(self).spec_next_network_id() < u64::MAX
                    &&& metadata_uri@.len() <= MAX_METADATA_URI_LEN
                    &&& {
                        let id = old(self).spec_next_network_id();
                        let asset_id: Option<u32> = if use_navi {
                            None
                        } else {
                            Some(id as u32)
                        };
                        &&& final(self).spec_next_network_id() == id + 1
                        &&& final(self).network_of(id) matches Some(info)
                        &&& info.owner == who
                        &&& info.coin_kind == (if use_navi {
                            CoinKind::UseNavi
                        } else {
                            CoinKind::MintAsset
                        })
                        &&& info.asset_id == asset_id
                        &&& info.treasury == spec_treasury_account(id)
                        &&& info.metadata_uri@ == metadata_uri@
                        &&& forall|n: u64|
                            n != id ==> final(self).network_of(n) == old(self).network_of(n)
                        &&& final(self).events_log() == old(self).events_log().push(
                            Event::NetworkCreated { network_id: id, owner: who, use_navi, asset_id },
                        )
                    }
                },
                Err(e) => {
                    &&& *final(self) == *old(self)
                    &&& match e {
                        Error::NetworkIdOverflow => old(self).spec_next_network_id() == u64::MAX,
                        Error::MetadataUriTooLong => {
                            &&& old(self).spec_next_network_id() < u64::MAX
                            &&& metadata_uri@.len() > MAX_METADATA_URI_LEN
                        },
                        Error::AssetCreationFailed => false,
                    }
                },
            },
    {
        let network_id = self.next_network_id;
        if network_id == u64::MAX {
            return Err(Error::NetworkIdOverflow);
        }
        if metadata_uri.len() > MAX_METADATA_URI_LEN {
            return Err(Error::MetadataUriTooLong);
        }
        let treasury = Self::treasury_account(network_id);
        let (coin_kind, asset_id): (CoinKind, Option<u32>) = if use_navi {
            (CoinKind::UseNavi, None)
        } else {
            (CoinKind::MintAsset, Some(#[verifier::truncate] (network_id as u32)))
        };
        let info = NetworkInfo { owner: who, coin_kind, asset_id, treasury, metadata_uri };
        self.networks.upsert(network_id, info);
        self.next_network_id = network_id + 1;
        self.events.push(Event::NetworkCreated { network_id, owner: who, use_navi, asset_id });
        Ok(())
    }

    /// The network record under `network_id`, if one exists.
    pub fn networks(&self, network_id: u64) -> (r: Option<&NetworkInfo>)
        requires
            self.wf(),
        ensures
            match r {
                Some(info) => self.network_of(network_id) == Some(*info),
                None => self.network_of(network_id) is None,
            },
    {
        self.networks.get(network_id)
    }

    /// The id the next successful creation will be given.
    pub fn next_network_id(&self) -> (r: u64)
        ensures
            r == self.spec_next_network_id(),
    {
        self.next_network_id
    }

    /// Whether a network exists under `network_id`.
    pub fn has_network(&self, network_id: u64) -> (r: bool)
        requires
            self.wf(),
        ensures
            r == (self.network_of(network_id) is Some),
    {
        self.networks.contains(network_id)
    }

    /// The owner of the network under `network_id`, if one exists.
    pub fn owner_of(&self, network_id: u64) -> (r: Option<u64>)
        requires
            self.wf(),
        ensures
            match r {
                Some(owner) => self.network_of(network_id) matches Some(info) && info.owner
                    == owner,
                None => self.network_of(network_id) is None,
            },
    {
        match self.networks.get(network_id) {
            Some(info) => Some(info.owner),
            None => None,
        }
    }

    /// The event log, oldest first.
    pub fn events(&self) -> (r: &Vec<Event>)
        ensures
            r@ == self.events_log(),
    {
        &self.events
    }
}

} // verus!
