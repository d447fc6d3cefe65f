//! The registry that catalogs (token ledger, governance engine) pairs. DAO
//! `id` is stored at position `id - 1`, so ids run from 1 with no gaps.
use vstd::prelude::*;

use crate::Address;

verus! {

/// A registered organization.
#[derive(Debug, Clone, Copy, PartialEq, Eq, Structural)]
pub struct DaoInfo {
    pub token_address: Address,
    pub governance_address: Address,
    pub creator: Address,
    pub created_at: u64,
}

/// The records of `s` whose creator is `creator`, in order.
pub open spec fn created_by(s: Seq<DaoInfo>, creator: Address) -> Seq<DaoInfo>
    decreases s.len(),
{
    if s.len() == 0 {
        s
    } else if s.last().creator == creator {
        created_by(s.drop_last(), creator).push(s.last())
    } else {
        created_by(s.drop_last(), creator)
    }
}

/// The catalog of registered organizations, in order of registration.
pub struct DaoRegistry {
    daos: Vec<DaoInfo>,
}

impl DaoRegistry {
    /// The records in order of registration; id `i` is at position `i - 1`.
    pub closed spec fn spec_daos(&self) -> Seq<DaoInfo> {
        self.daos@
    }

    pub open spec fn spec_count(&self) -> nat {
        self.spec_daos().len()
    }

    pub open spec fn has_dao(&self, id: u64) -> bool {
        1 <= id <= self.spec_count()
    }

    pub open spec fn wf(&self) -> bool {
        self.spec_count() <= u64::MAX
    }

    pub fn new() -> (r: DaoRegistry)
        ensures
            r.wf(),
            r.spec_count() == 0,
    {
        DaoRegistry { daos: Vec::new() }
    }

    /// Removes every record.
    pub fn init(&mut self)
        ensures
            final(self).wf(),
            final(self).spec_count() == 0,
    {
        self.daos = Vec::new();
    }

    /// Records the pair under the next id, one more than the number of
    /// records before, with `caller` as creator and `now` as time.
    pub fn register_dao(
        &mut self,
        caller: Address,
        now: u64,
        token_address: Address,
        governance_address: Address,
    ) -> (r: u64)
        requires
            old(self).spec_count() < u64::MAX,
        ensures
            final(self).wf(),
            r == old(self).spec_count() + 1,
            final(self).spec_daos() == old(self).spec_daos().push(
                DaoInfo { token_address, governance_address, creator: caller, created_at: now },
            ),
    {
        self.daos.push(
            DaoInfo { token_address, governance_address, creator: caller, created_at: now },
        );
        self.daos.len() as u64
    }

    pub fn get_all_daos(&self) -> (r: Vec<DaoInfo>)
        ensures
            r@ == self.spec_daos(),
    {
        let mut r: Vec<DaoInfo> = Vec::new();
        let mut i: usize = 0;
        while i < self.daos.len()
            invariant
                i <= self.daos@.len(),
                r@ == self.daos@.take(i as int),
            decreases self.daos@.len() - i,
        {
            r.push(self.daos[i]);
            i = i + 1;
            proof {
                assert(r@ =~= self.daos@.take(i as int));
            }
        }
        proof {
            assert(self.daos@.take(i as int) =~= self.daos@);
        }
        r
    }

    pub fn get_dao(&self, dao_id: u64) -> (r: Option<DaoInfo>)
        ensures
            r == if self.has_dao(dao_id) {
                Some(self.spec_daos()[dao_id - 1])
            } else {
                None::<DaoInfo>
            },
    {
        if dao_id == 0 || dao_id as u128 > self.daos.len() as u128 {
            None
        } else {
            Some(self.daos[(dao_id - 1) as usize])
        }
    }

    pub fn get_dao_count(&self) -> (r: u64)
        requires
            self.wf(),
        ensures
            r == self.spec_count(),
    {
        self.daos.len() as u64
    }

    /// The records whose creator is `creator`, in order of registration.
    pub fn get_daos_by_creator(&self, creator: Address) -> (r: Vec<DaoInfo>)
        ensures
            r@ == created_by(self.spec_daos(), creator),
    {
        let mut r: Vec<DaoInfo> = Vec::new();
        let mut i: usize = 0;
        while i < self.daos.len()
            invariant
                i <= self.daos@.len(),
                r@ == created_by(self.daos@.take(i as int), creator),
            decreases self.daos@.len() - i,
        {
            proof {
                assert(self.daos@.take(i as int + 1).drop_last() =~= self.daos@.take(i as int));
            }
            if self.daos[i].creator == creator {
                r.push(self.daos[i]);
            }
            i = i + 1;
        }
        proof {
            assert(self.daos@.take(i as int) =~= self.daos@);
        }
        r
    }

    /// Registering gives the record the id one above the largest id in
    /// use: ids start at 1, rise by one, and are never reused; every earlier
    /// record keeps its id.
    pub proof fn lemma_dao_ids(before: &Self, after: &Self, d: DaoInfo)
        requires
            before.spec_count() < u64::MAX,
            after.spec_daos() == before.spec_daos().push(d),
        ensures
            !before.has_dao((before.spec_count() + 1) as u64),
            after.has_dao((before.spec_count() + 1) as u64)
                && after.spec_daos()[before.spec_count() as int] == d,
            forall|i: u64| #[trigger]
                before.has_dao(i) ==> i < before.spec_count() + 1 && after.has_dao(i)
                    && after.spec_daos()[i - 1] == before.spec_daos()[i - 1],
            before.spec_count() == 0 ==> after.has_dao(1) && after.spec_count() == 1,
    {
    }
}

/// Sets up the shared infrastructure: the registry. Token ledgers and
/// governance engines are created by their own users.
pub struct InfrastructureDeployer;

impl InfrastructureDeployer {
    /// A freshly initialized, empty registry.
    pub fn deploy(&self) -> (r: DaoRegistry)
        ensures
            r.wf(),
            r.spec_count() == 0,
    {
        let mut registry = DaoRegistry::new();
        registry.init();
        registry
    }
}

} // verus!
