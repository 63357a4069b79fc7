//! The per-session accumulator and the per-datagram step of a discovery
//! session.
//!
//! A session owns one [`DedupeCollector`]; every received datagram is parsed
//! and decoded, and a record whose identity was already seen is discarded —
//! the first response for an `id` wins.  Parse and decode failures discard
//! only the offending datagram.

use vstd::prelude::*;

use crate::addr::Endpoint;
use crate::err::YeeError;
use crate::light::Light;
use crate::light::LightModel;
use crate::light::decode_error;
use crate::light::decode_model;
use crate::light::reports;
use crate::parser::datagram_headers;
use crate::parser::parse_response;

verus! {

/// The records of a sequence of lights.
pub open spec fn models_of(v: Seq<Light>) -> Seq<LightModel> {
    Seq::new(v.len(), |i: int| v[i]@)
}

/// Whether some record in `models` carries the identity `id`.
pub open spec fn has_id(models: Seq<LightModel>, id: Seq<char>) -> bool {
    exists|i: int| 0 <= i < models.len() && models[i].id == id
}

/// No two records carry the same identity.
pub open spec fn distinct_ids(models: Seq<LightModel>) -> bool {
    forall|i: int, j: int| 0 <= i < j < models.len() ==> models[i].id != models[j].id
}

/// The accumulator of one discovery session: the decoded records so far,
/// in arrival order, at most one per device identity.
pub struct DedupeCollector {
    pub lights: Vec<Light>,
}

impl View for DedupeCollector {
    type V = Seq<LightModel>;

    open spec fn view(&self) -> Seq<LightModel> {
        models_of(self.lights@)
    }
}

impl DedupeCollector {
    /// Every held record is well formed and no identity repeats.
    pub open spec fn wf(self) -> bool {
        &&& distinct_ids(self@)
        &&& forall|i: int| 0 <= i < self.lights@.len() ==> self.lights@[i].wf()
    }

    /// An empty accumulator.
    pub fn new() -> (c: DedupeCollector)
        ensures
            c@ == Seq::<LightModel>::empty(),
            c.wf(),
    {
        let c = DedupeCollector { lights: Vec::new() };
        proof {
            assert(c@ =~= Seq::<LightModel>::empty());
        }
        c
    }

    /// Whether a record with this identity was already collected.
    pub fn contains_id(&self, id: &String) -> (r: bool)
        ensures
            r == has_id(self@, id@),
    {
        let n = self.lights.len();
        let mut i: usize = 0;
        while i < n
            invariant
                n == self.lights@.len(),
                i <= n,
                forall|k: int| 0 <= k < i as int ==> self@[k].id != id@,
            decreases n - i,
        {
            if self.lights[i].id.eq(id) {
                proof {
                    assert(self@[i as int].id == id@);
                }
                return true;
            }
            i += 1;
        }
        false
    }

    /// Offers a record: kept exactly when its identity is new; a duplicate
    /// is discarded whatever its other fields hold.
    pub fn offer(&mut self, light: Light) -> (added: bool)
        requires
            old(self).wf(),
            light.wf(),
        ensures
            final(self).wf(),
            added == !has_id(old(self)@, light@.id),
            added ==> final(self)@ == old(self)@.push(light@),
            !added ==> final(self)@ == old(self)@,
    {
        if self.contains_id(&light.id) {
            false
        } else {
            let ghost old_lights = self.lights@;
            self.lights.push(light);
            proof {
                assert(models_of(self.lights@) =~= models_of(old_lights).push(
                    self.lights@.last()@,
                ));
            }
            true
        }
    }

    /// Hands the collected records out, in arrival order, no identity twice.
    pub fn finish(self) -> (v: Vec<Light>)
        ensures
            models_of(v@) == self@,
            self.wf() ==> distinct_ids(models_of(v@)),
    {
        self.lights
    }
}

/// The record one received buffer yields, given the datagram's source
/// address: `None` when the framing is malformed or any required field is
/// missing or malformed.
pub open spec fn datagram_device(bytes: Seq<u8>, origin: Endpoint) -> Option<LightModel> {
    match datagram_headers(bytes) {
        Some(m) => if decode_error(m) is None {
            Some(decode_model(m, origin))
        } else {
            None
        },
        None => None,
    }
}

/// Runs one received datagram through the parse–decode–collect pipeline.
///
/// A malformed datagram is reported and leaves the collector unchanged; a
/// decoded record is kept exactly when its identity is new, `Ok(true)`
/// saying it was kept and `Ok(false)` that it duplicated an earlier one.
pub fn process_datagram(collector: &mut DedupeCollector, buf: &[u8], origin: Endpoint) -> (r:
    Result<bool, YeeError>)
    requires
        old(collector).wf(),
    ensures
        final(collector).wf(),
        match datagram_headers(buf@) {
            None => final(collector)@ == old(collector)@ && (r matches Err(e) && e is Parse),
            Some(m) => match decode_error(m) {
                Some(d) => final(collector)@ == old(collector)@ && (r matches Err(e) && reports(
                    e,
                    d,
                )),
                None => {
                    let dev = decode_model(m, origin);
                    &&& r matches Ok(added)
                    &&& added == !has_id(old(collector)@, dev.id)
                    &&& added ==> final(collector)@ == old(collector)@.push(dev)
                    &&& !added ==> final(collector)@ == old(collector)@
                },
            },
        },
{
    let headers = match parse_response(buf) {
        Ok(h) => h,
        Err(e) => {
            return Err(e);
        },
    };
    let light = match Light::from_fields(&headers, origin) {
        Ok(l) => l,
        Err(e) => {
            return Err(e);
        },
    };
    let added = collector.offer(light);
    Ok(added)
}

} // verus!
