//! Provisioning functions on the node's OpenFaaS instance.
use vstd::prelude::*;

use std::collections::HashMap;

use crate::ids::{uuid_hyphenated, uuid_text, BidId};
use crate::map_updates::{after_updates, lemma_last_update_wins, lookup, never_updates};

verus! {

broadcast use vstd::std_specs::hash::group_hash_axioms;

/// The part of a service level agreement that provisioning reads.
#[derive(Debug)]
pub struct Sla {
    /// The identifier of the agreement.
    pub id: u128,
    /// The name under which the function is deployed.
    pub function_live_name: String,
    /// The container image of the function.
    pub function_image: String,
    /// The memory limit, as a quantity understood by OpenFaaS.
    pub memory: String,
    /// The CPU limit, as a quantity understood by OpenFaaS.
    pub cpu: String,
}

impl Clone for Sla {
    fn clone(&self) -> (res: Self)
        ensures
            res == *self,
    {
        Sla {
            id: self.id,
            function_live_name: self.function_live_name.clone(),
            function_image: self.function_image.clone(),
            memory: self.memory.clone(),
            cpu: self.cpu.clone(),
        }
    }
}

/// A bid this node won, with the agreement it was made for.
#[derive(Debug)]
pub struct BidRecord {
    pub sla: Sla,
}

impl Clone for BidRecord {
    fn clone(&self) -> (res: Self)
        ensures
            res == *self,
    {
        BidRecord { sla: self.sla.clone() }
    }
}

/// A function provisioned on this node.
#[derive(Debug)]
pub struct ProvisionedRecord {
    pub bid: BidRecord,
    pub function_name: String,
}

impl Clone for ProvisionedRecord {
    fn clone(&self) -> (res: Self)
        ensures
            res == *self,
    {
        ProvisionedRecord { bid: self.bid.clone(), function_name: self.function_name.clone() }
    }
}

/// The resource limits of a function deployment.
#[derive(Debug)]
pub struct Limits {
    pub memory: String,
    pub cpu: String,
}

/// The deployment request sent to OpenFaaS.
#[derive(Debug)]
pub struct FunctionDefinition {
    pub image: String,
    pub service: String,
    pub limits: Option<Limits>,
}

/// Errors of the function backend.
#[derive(Debug)]
pub enum Error {
    /// OpenFaaS refused the deployment; its message.
    OpenFaaS(String),
}

/// The name a function is deployed under: its live name, a hyphen, and the
/// bid's identifier.
pub open spec fn function_name_of(id: BidId, bid: BidRecord) -> Seq<char> {
    bid.sla.function_live_name@ + seq!['-'] + uuid_hyphenated(id)
}

/// Once the function of bid `id` is recorded as provisioned under the name
/// `name`, looking `id` up finds that bid and that name, whatever functions of
/// other bids are provisioned after it.
pub proof fn lemma_provisioned_function_found(
    provisioned: Map<BidId, ProvisionedRecord>,
    id: BidId,
    bid: BidRecord,
    name: String,
    later: Seq<(BidId, ProvisionedRecord)>,
)
    requires
        never_updates(later, id),
    ensures
        lookup(
            after_updates(
                provisioned.insert(id, (ProvisionedRecord { bid, function_name: name })),
                later,
            ),
            id,
        ) == Some((ProvisionedRecord { bid, function_name: name })),
{
    lemma_last_update_wins(provisioned, id, ProvisionedRecord { bid, function_name: name }, later);
}

/// The functions provisioned on this node's OpenFaaS instance.
#[derive(Debug)]
pub struct OpenFaaSBackend {
    provisioned_functions: HashMap<BidId, ProvisionedRecord>,
}

/// A backend that provisions functions.
pub trait FaaSBackend {
    /// The provisioned functions, by bid.
    spec fn provisioned(&self) -> Map<BidId, ProvisionedRecord>;

    /// Records the function of bid `id` once OpenFaaS answered the deployment
    /// request of [`Self::function_definition`]: on success the function is
    /// recorded as provisioned and its name returned; on failure nothing is
    /// recorded and OpenFaaS's error is returned.
    fn provision_function(&mut self, id: BidId, bid: BidRecord, deployed: Result<(), String>) -> (res:
        Result<String, Error>)
        ensures
            match deployed {
                Ok(()) => {
                    &&& res matches Ok(name) && name@ == function_name_of(id, bid)
                    &&& final(self).provisioned() == old(self).provisioned().insert(
                        id,
                        ProvisionedRecord { bid, function_name: res->Ok_0 },
                    )
                },
                Err(e) => {
                    &&& res == Err::<String, Error>(Error::OpenFaaS(e))
                    &&& final(self).provisioned() == old(self).provisioned()
                },
            },
    ;

    /// The function provisioned for bid `id`, if any.
    fn get_provisioned_function(&self, id: &BidId) -> (res: Option<ProvisionedRecord>)
        ensures
            res == lookup(self.provisioned(), *id),
    ;
}

impl OpenFaaSBackend {
    /// A backend on which nothing is provisioned yet.
    pub fn new() -> (res: Self)
        ensures
            res.provisioned().dom() == Set::<BidId>::empty(),
    {
        OpenFaaSBackend { provisioned_functions: HashMap::new() }
    }

    /// The name the function of bid `id` is deployed under.
    pub fn function_name(id: BidId, bid: &BidRecord) -> (res: String)
        ensures
            res@ == function_name_of(id, *bid),
    {
        let mut name = bid.sla.function_live_name.clone();
        let hyphen = "-";
        proof {
            reveal_strlit("-");
        }
        name.append(hyphen);
        let id_text = uuid_text(id);
        name.append(id_text.as_str());
        name
    }

    /// The deployment request for the function of bid `id`: its image, its
    /// name, and the memory and CPU limits of its agreement.
    pub fn function_definition(id: BidId, bid: &BidRecord) -> (res: FunctionDefinition)
        ensures
            res.image == bid.sla.function_image,
            res.service@ == function_name_of(id, *bid),
            res.limits matches Some(l) && l.memory == bid.sla.memory && l.cpu == bid.sla.cpu,
    {
        FunctionDefinition {
            image: bid.sla.function_image.clone(),
            service: Self::function_name(id, bid),
            limits: Some(Limits { memory: bid.sla.memory.clone(), cpu: bid.sla.cpu.clone() }),
        }
    }
}

impl FaaSBackend for OpenFaaSBackend {
    closed spec fn provisioned(&self) -> Map<BidId, ProvisionedRecord> {
        self.provisioned_functions@
    }

    fn provision_function(
        &mut self,
        id: BidId,
        bid: BidRecord,
        deployed: Result<(), String>,
    ) -> Result<String, Error> {
        match deployed {
            Err(e) => Err(Error::OpenFaaS(e)),
            Ok(()) => {
                let function_name = Self::function_name(id, &bid);
                let record = ProvisionedRecord { bid, function_name: function_name.clone() };
                self.provisioned_functions.insert(id, record);
                Ok(function_name)
            },
        }
    }

    fn get_provisioned_function(&self, id: &BidId) -> Option<ProvisionedRecord> {
        match self.provisioned_functions.get(id) {
            Some(r) => Some(r.clone()),
            None => None,
        }
    }
}

} // verus!
