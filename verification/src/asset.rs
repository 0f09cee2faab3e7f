//! The asset manager: device and asset records kept by id.

use vstd::prelude::*;

use crate::base::{BaseManager, ManagerError, ManagerResult, ManagerState};
use crate::strutil::str_eq;
use crate::token::{clone_opt_string, clone_pairs};

verus! {

/// One tracked asset.
#[derive(Debug)]
pub struct Asset {
    pub id: String,
    pub name: String,
    pub asset_type: String,
    pub location: Option<String>,
    pub purchase_date: Option<String>,
    pub warranty: Option<String>,
    pub status: String,
    pub metadata: Option<Vec<(String, String)>>,
}

/// The metadata pairs as a mathematical value.
pub open spec fn metadata_view(m: Option<Vec<(String, String)>>) -> Option<Seq<(String, String)>> {
    match m {
        Some(v) => Some(v@),
        None => None,
    }
}

/// Field-for-field sameness of two assets. The metadata list is
/// compared by contents: a clone carries the same pairs.
pub open spec fn asset_eq(a: Asset, b: Asset) -> bool {
    &&& a.id == b.id
    &&& a.name == b.name
    &&& a.asset_type == b.asset_type
    &&& a.location == b.location
    &&& a.purchase_date == b.purchase_date
    &&& a.warranty == b.warranty
    &&& a.status == b.status
    &&& metadata_view(a.metadata) == metadata_view(b.metadata)
}

impl Clone for Asset {
    fn clone(&self) -> (r: Self)
        ensures
            asset_eq(r, *self),
    {
        Asset {
            id: self.id.clone(),
            name: self.name.clone(),
            asset_type: self.asset_type.clone(),
            location: clone_opt_string(&self.location),
            purchase_date: clone_opt_string(&self.purchase_date),
            warranty: clone_opt_string(&self.warranty),
            status: self.status.clone(),
            metadata: match &self.metadata {
                Some(pairs) => Some(clone_pairs(pairs)),
                None => None,
            },
        }
    }
}

/// Index of the first asset with this id, or the sequence's length if
/// there is none.
pub open spec fn asset_idx(s: Seq<Asset>, id: Seq<char>) -> int
    decreases s.len(),
{
    if s.len() == 0 {
        0
    } else if s[0].id@ == id {
        0
    } else {
        1 + asset_idx(s.drop_first(), id)
    }
}

/// Basic facts about [`asset_idx`].
pub proof fn lemma_asset_idx(s: Seq<Asset>, id: Seq<char>)
    ensures
        0 <= asset_idx(s, id) <= s.len(),
        asset_idx(s, id) < s.len() ==> s[asset_idx(s, id)].id@ == id,
        forall|j: int| 0 <= j < asset_idx(s, id) ==> s[j].id@ != id,
    decreases s.len(),
{
    if s.len() > 0 && s[0].id@ != id {
        lemma_asset_idx(s.drop_first(), id);
        assert forall|j: int| 0 <= j < asset_idx(s, id) implies s[j].id@ != id by {
            if j > 0 {
                assert(s[j] == s.drop_first()[j - 1]);
            }
        }
    }
}

/// [`asset_idx`] is determined by a scan's findings.
pub proof fn lemma_asset_idx_is(s: Seq<Asset>, id: Seq<char>, i: int)
    requires
        0 <= i <= s.len(),
        forall|j: int| 0 <= j < i ==> s[j].id@ != id,
        i < s.len() ==> s[i].id@ == id,
    ensures
        asset_idx(s, id) == i,
    decreases s.len(),
{
    if s.len() == 0 {
    } else if i == 0 {
    } else {
        lemma_asset_idx_is(s.drop_first(), id, i - 1);
    }
}

/// Is some asset stored under this id?
pub open spec fn has_asset(s: Seq<Asset>, id: Seq<char>) -> bool {
    exists|i: int| 0 <= i < s.len() && #[trigger] s[i].id@ == id
}

/// The two spellings of presence agree.
pub proof fn lemma_has_asset_idx(s: Seq<Asset>, id: Seq<char>)
    ensures
        has_asset(s, id) <==> asset_idx(s, id) < s.len(),
{
    lemma_asset_idx(s, id);
    if asset_idx(s, id) < s.len() {
        assert(s[asset_idx(s, id)].id@ == id);
    }
    if has_asset(s, id) {
        let w = choose|i: int| 0 <= i < s.len() && #[trigger] s[i].id@ == id;
        assert(!(w < asset_idx(s, id)));
    }
}

/// How many assets carry this status.
pub open spec fn count_status(s: Seq<Asset>, status: Seq<char>) -> nat
    decreases s.len(),
{
    if s.len() == 0 {
        0
    } else {
        count_status(s.drop_last(), status) + if s.last().status@ == status {
            1nat
        } else {
            0nat
        }
    }
}

/// Manages the asset records.
#[derive(Debug)]
pub struct AssetManager {
    pub state: ManagerState,
    pub assets: Vec<Asset>,
}

impl AssetManager {
    /// An empty manager.
    pub fn new() -> (r: AssetManager)
        ensures
            r.state == ManagerState::Uninitialized,
            r.assets@.len() == 0,
    {
        AssetManager { state: ManagerState::Uninitialized, assets: Vec::new() }
    }

    /// Find the first stored asset with this id.
    fn position_of(&self, id: &str) -> (r: usize)
        ensures
            r == asset_idx(self.assets@, id@),
            r <= self.assets@.len(),
    {
        let n = self.assets.len();
        let mut i: usize = 0;
        while i < n
            invariant
                n == self.assets@.len(),
                i <= n,
                forall|j: int| 0 <= j < i ==> self.assets@[j].id@ != id@,
            decreases n - i,
        {
            if str_eq(self.assets[i].id.as_str(), id) {
                proof {
                    lemma_asset_idx_is(self.assets@, id@, i as int);
                }
                return i;
            }
            i = i + 1;
        }
        proof {
            lemma_asset_idx_is(self.assets@, id@, n as int);
        }
        n
    }

    /// Add a new asset; an id already in use is rejected.
    pub fn add_asset(&mut self, asset: Asset) -> (r: ManagerResult<()>)
        ensures
            match r {
                Ok(()) => {
                    &&& !has_asset(old(self).assets@, asset.id@)
                    &&& final(self).assets@ == old(self).assets@.push(asset)
                    &&& final(self).state == old(self).state
                },
                Err(e) => {
                    &&& has_asset(old(self).assets@, asset.id@)
                    &&& *final(self) == *old(self)
                    &&& e.error_type@ == "DuplicateId"@
                },
            },
    {
        let pos = self.position_of(asset.id.as_str());
        proof {
            lemma_has_asset_idx(self.assets@, asset.id@);
        }
        if pos < self.assets.len() {
            let mut message = String::from_str("Asset with ID ");
            message.append(asset.id.as_str());
            message.append(" already exists");
            return Err(ManagerError::new(
                "AssetManager",
                "add_asset",
                message.as_str(),
                "DuplicateId",
            ));
        }
        self.assets.push(asset);
        Ok(())
    }

    /// Fetch the asset stored under this id.
    pub fn get_asset(&self, id: &str) -> (r: ManagerResult<Asset>)
        ensures
            match r {
                Ok(a) => asset_idx(self.assets@, id@) < self.assets@.len() && asset_eq(
                    a,
                    self.assets@[asset_idx(self.assets@, id@)],
                ),
                Err(e) => !has_asset(self.assets@, id@) && e.error_type@ == "NotFound"@,
            },
    {
        let pos = self.position_of(id);
        proof {
            lemma_has_asset_idx(self.assets@, id@);
        }
        if pos < self.assets.len() {
            Ok(self.assets[pos].clone())
        } else {
            let mut message = String::from_str("Asset with ID ");
            message.append(id);
            message.append(" not found");
            Err(ManagerError::new("AssetManager", "get_asset", message.as_str(), "NotFound"))
        }
    }

    /// All stored assets, in insertion order.
    pub fn get_all_assets(&self) -> (r: Vec<Asset>)
        ensures
            r@.len() == self.assets@.len(),
            forall|j: int| 0 <= j < r@.len() ==> asset_eq(#[trigger] r@[j], self.assets@[j]),
    {
        let mut out: Vec<Asset> = Vec::new();
        let mut i: usize = 0;
        while i < self.assets.len()
            invariant
                i <= self.assets@.len(),
                out@.len() == i,
                forall|j: int| 0 <= j < i ==> asset_eq(#[trigger] out@[j], self.assets@[j]),
            decreases self.assets@.len() - i,
        {
            out.push(self.assets[i].clone());
            i = i + 1;
        }
        out
    }

    /// Replace the asset stored under this id; an unknown id is
    /// rejected.
    pub fn update_asset(&mut self, id: &str, asset: Asset) -> (r: ManagerResult<()>)
        ensures
            match r {
                Ok(()) => {
                    &&& asset_idx(old(self).assets@, id@) < old(self).assets@.len()
                    &&& final(self).assets@ == old(self).assets@.update(
                        asset_idx(old(self).assets@, id@),
                        asset,
                    )
                    &&& final(self).state == old(self).state
                },
                Err(e) => {
                    &&& !has_asset(old(self).assets@, id@)
                    &&& *final(self) == *old(self)
                    &&& e.error_type@ == "NotFound"@
                },
            },
    {
        let pos = self.position_of(id);
        proof {
            lemma_has_asset_idx(self.assets@, id@);
        }
        if pos < self.assets.len() {
            self.assets.set(pos, asset);
            Ok(())
        } else {
            let mut message = String::from_str("Asset with ID ");
            message.append(id);
            message.append(" not found");
            Err(ManagerError::new("AssetManager", "update_asset", message.as_str(), "NotFound"))
        }
    }

    /// Remove the asset stored under this id; an unknown id is
    /// rejected.
    pub fn delete_asset(&mut self, id: &str) -> (r: ManagerResult<()>)
        ensures
            match r {
                Ok(()) => {
                    &&& asset_idx(old(self).assets@, id@) < old(self).assets@.len()
                    &&& final(self).assets@ == old(self).assets@.remove(
                        asset_idx(old(self).assets@, id@),
                    )
                    &&& final(self).state == old(self).state
                },
                Err(e) => {
                    &&& !has_asset(old(self).assets@, id@)
                    &&& *final(self) == *old(self)
                    &&& e.error_type@ == "NotFound"@
                },
            },
    {
        let pos = self.position_of(id);
        proof {
            lemma_has_asset_idx(self.assets@, id@);
        }
        if pos < self.assets.len() {
            self.assets.remove(pos);
            Ok(())
        } else {
            let mut message = String::from_str("Asset with ID ");
            message.append(id);
            message.append(" not found");
            Err(ManagerError::new("AssetManager", "delete_asset", message.as_str(), "NotFound"))
        }
    }

    /// How many assets are stored.
    pub fn count_assets(&self) -> (r: usize)
        ensures
            r == self.assets@.len(),
    {
        self.assets.len()
    }

    /// How many stored assets carry this status.
    pub fn count_by_status(&self, status: &str) -> (r: usize)
        ensures
            r == count_status(self.assets@, status@),
    {
        let n = self.assets.len();
        let mut count: usize = 0;
        let mut i: usize = 0;
        proof {
            assert(self.assets@.subrange(0, 0) =~= Seq::<Asset>::empty());
        }
        while i < n
            invariant
                n == self.assets@.len(),
                i <= n,
                count <= i,
                count == count_status(self.assets@.subrange(0, i as int), status@),
            decreases n - i,
        {
            proof {
                assert(self.assets@.subrange(0, i + 1).drop_last() =~= self.assets@.subrange(
                    0,
                    i as int,
                ));
                assert(self.assets@.subrange(0, i + 1).last() == self.assets@[i as int]);
            }
            if str_eq(self.assets[i].status.as_str(), status) {
                count = count + 1;
            }
            i = i + 1;
        }
        proof {
            assert(self.assets@.subrange(0, n as int) =~= self.assets@);
        }
        count
    }
}

impl BaseManager for AssetManager {
    fn name(&self) -> &'static str {
        "AssetManager"
    }

    fn initialize(&mut self) -> ManagerResult<()> {
        self.state = ManagerState::Initializing;
        self.state = ManagerState::Ready;
        Ok(())
    }

    fn shutdown(&mut self) -> ManagerResult<()> {
        self.state = ManagerState::Shutdown;
        Ok(())
    }

    fn health_check(&self) -> ManagerResult<()> {
        if self.state != ManagerState::Ready {
            return Err(ManagerError::new(
                "AssetManager",
                "health_check",
                "Manager not in Ready state",
                "NotReady",
            ));
        }
        Ok(())
    }
}

} // verus!
