//! A choice among several egresses, weighted by how each has fared.

use vstd::prelude::*;
use rand::seq::IndexedRandom;
use crate::stats_outbound::{spec_record, Stat, StatsOutbound};

verus! {

/// Why no selector can be made.
#[derive(Debug, Clone, Copy, PartialEq, Eq, Structural)]
pub enum SelectorError {
    /// There is nothing to select from.
    NoOutbounds,
}

/// Several egresses, each with its record.
pub struct SelectorOutbound<O> {
    outbounds: Vec<StatsOutbound<O>>,
}

/// `IndexedRandom::choose_weighted` of `rand` on the places of `weights`,
/// each weighted by its entry, with the thread-local generator: one of the
/// places, or none where the weights allow no choice.
#[verifier::external_body]
fn choose_weighted_index(weights: &Vec<i64>) -> (index: Option<usize>)
    ensures
        index matches Some(i) ==> i < weights@.len(),
{
    let places: Vec<usize> = (0..weights.len()).collect();
    places.choose_weighted(&mut rand::rng(), |i| weights[*i]).ok().copied()
}

impl<O> SelectorOutbound<O> {
    /// The egresses to select from.
    pub closed spec fn outbounds(&self) -> Seq<StatsOutbound<O>> {
        self.outbounds@
    }

    /// There is always an egress to select.
    #[verifier::type_invariant]
    spec fn is_not_empty(self) -> bool {
        self.outbounds@.len() > 0
    }

    /// A selector over `outbounds`, none of which has a record yet. It
    /// takes at least one.
    pub fn new(outbounds: Vec<O>) -> (res: Result<Self, SelectorError>)
        ensures
            res is Err <==> outbounds@.len() == 0,
            res matches Ok(s) ==> {
                &&& s.outbounds().len() == outbounds@.len()
                &&& forall|i: int|
                    0 <= i < outbounds@.len() ==> (#[trigger] s.outbounds()[i]).outbound()
                        == outbounds@[i] && s.outbounds()[i].stats().len() == 0
            },
    {
        if outbounds.len() == 0 {
            return Err(SelectorError::NoOutbounds);
        }
        let ghost given = outbounds@;
        let mut rest = outbounds;
        let mut wrapped: Vec<StatsOutbound<O>> = Vec::new();
        while rest.len() > 0
            invariant
                wrapped@.len() + rest@.len() == given.len(),
                rest@ == given.skip(wrapped@.len() as int),
                forall|i: int|
                    0 <= i < wrapped@.len() ==> (#[trigger] wrapped@[i]).outbound() == given[i]
                        && wrapped@[i].stats().len() == 0,
            decreases rest@.len(),
        {
            let outbound = rest.remove(0);
            wrapped.push(StatsOutbound::new(outbound));
            assert(rest@ =~= given.skip(wrapped@.len() as int));
        }
        Ok(SelectorOutbound { outbounds: wrapped })
    }

    /// How many egresses there are.
    pub fn len(&self) -> (n: usize)
        ensures
            n == self.outbounds().len(),
            n > 0,
    {
        proof {
            use_type_invariant(self);
        }
        self.outbounds.len()
    }

    /// The egress at place `index`.
    pub fn get(&self, index: usize) -> (outbound: &StatsOutbound<O>)
        requires
            index < self.outbounds().len(),
        ensures
            *outbound == self.outbounds()[index as int],
    {
        &self.outbounds[index]
    }

    /// Remembers how a connection through the egress at place `index` went.
    /// A place that does not exist changes nothing.
    pub fn record(self, index: usize, delay_ms: u64, error: bool) -> (out: Self)
        ensures
            out.outbounds().len() == self.outbounds().len(),
            forall|i: int|
                0 <= i < self.outbounds().len() && i != index ==> out.outbounds()[i]
                    == self.outbounds()[i],
            index < self.outbounds().len() ==> {
                &&& out.outbounds()[index as int].outbound() == self.outbounds()[index as int].outbound()
                &&& out.outbounds()[index as int].stats() == spec_record(
                    self.outbounds()[index as int].stats(),
                    Stat { delay_ms, error },
                )
            },
    {
        proof {
            use_type_invariant(&self);
        }
        let SelectorOutbound { outbounds } = self;
        let mut outbounds = outbounds;
        if index < outbounds.len() {
            let mut entry = outbounds.remove(index);
            entry.record(delay_ms, error);
            outbounds.insert(index, entry);
        }
        SelectorOutbound { outbounds }
    }

    /// The place of the egress to use, given the weight of each: the only
    /// one where there is one; else one drawn by weight, and the first
    /// where the weights allow no draw.
    pub fn select(&self, weights: &Vec<i64>) -> (index: usize)
        ensures
            index < self.outbounds().len(),
            self.outbounds().len() == 1 ==> index == 0,
    {
        proof {
            use_type_invariant(self);
        }
        if self.outbounds.len() == 1 {
            return 0;
        }
        match choose_weighted_index(weights) {
            Some(i) => if i < self.outbounds.len() { i } else { 0 },
            None => 0,
        }
    }
}

} // verus!
