//! The presence prober: is at least one monitored device in the host's
//! device inventory?
//!
//! The inventory is handed in by the caller as the identifiers of the devices
//! that the host lists, or as `None` where the host's device backend could
//! not be reached. Probing reads its arguments and changes nothing.

use vstd::prelude::*;
use crate::identifier::{identifier_of, parse_vid_pid, DeviceIdentifier};

verus! {

/// The devices being watched for. Presence is a disjunction over them, so
/// their order carries no meaning.
#[derive(Clone, Debug, PartialEq, Eq)]
pub struct MonitoredSet {
    devices: Vec<DeviceIdentifier>,
}

impl View for MonitoredSet {
    type V = Seq<DeviceIdentifier>;

    closed spec fn view(&self) -> Seq<DeviceIdentifier> {
        self.devices@
    }
}

/// The identifier that a token writes, if it writes one.
pub open spec fn readable(token: Seq<char>) -> Option<DeviceIdentifier> {
    match identifier_of(token) {
        Ok(id) => Some(id),
        Err(_) => None,
    }
}

/// The identifiers that a list of tokens writes, in order, the malformed
/// tokens left out.
pub open spec fn identifiers_in(tokens: Seq<Seq<char>>) -> Seq<DeviceIdentifier> {
    tokens.filter_map(|token: Seq<char>| readable(token))
}

/// Whether some device of the inventory is a monitored one.
pub open spec fn any_match(
    monitored: Seq<DeviceIdentifier>,
    inventory: Seq<DeviceIdentifier>,
) -> bool {
    exists|i: int, j: int|
        0 <= i < inventory.len() && 0 <= j < monitored.len() && #[trigger] inventory[i]
            == #[trigger] monitored[j]
}

/// An inventory as a sequence of identifiers, where there is one.
pub open spec fn listed(inventory: Option<Vec<DeviceIdentifier>>) -> Option<Seq<DeviceIdentifier>> {
    match inventory {
        Some(devices) => Some(devices@),
        None => None,
    }
}

/// What a probe answers: with no inventory to be had, nothing is present.
pub open spec fn probed(
    monitored: Seq<DeviceIdentifier>,
    inventory: Option<Seq<DeviceIdentifier>>,
) -> bool {
    match inventory {
        Some(devices) => any_match(monitored, devices),
        None => false,
    }
}

impl MonitoredSet {
    /// The set that a configuration's tokens name. A malformed token is
    /// skipped; the others still count.
    pub fn from_tokens(tokens: &Vec<String>) -> (set: MonitoredSet)
        ensures
            set@ == identifiers_in(tokens.deep_view()),
    {
        let mut devices: Vec<DeviceIdentifier> = Vec::new();
        let ghost all = tokens.deep_view();
        let mut i: usize = 0;
        while i < tokens.len()
            invariant
                i <= tokens.len(),
                all == tokens.deep_view(),
                devices@ == identifiers_in(all.take(i as int)),
            decreases tokens.len() - i,
        {
            proof {
                all.lemma_filter_map_take_succ(|token: Seq<char>| readable(token), i as int);
                assert(all[i as int] == tokens[i as int]@);
            }
            match parse_vid_pid(tokens[i].as_str()) {
                Ok(id) => {
                    devices.push(id);
                },
                Err(_) => {},
            }
            i += 1;
        }
        assert(all.take(tokens.len() as int) =~= all);
        MonitoredSet { devices }
    }

    /// The set of the given devices.
    pub fn from_identifiers(devices: Vec<DeviceIdentifier>) -> (set: MonitoredSet)
        ensures
            set@ == devices@,
    {
        MonitoredSet { devices }
    }

    /// The monitored devices, in the order in which they were given.
    pub fn devices(&self) -> (devices: &Vec<DeviceIdentifier>)
        ensures
            devices@ == self@,
    {
        &self.devices
    }

    /// Whether `device` is one of the monitored ones.
    pub fn contains(&self, device: DeviceIdentifier) -> (found: bool)
        ensures
            found == self@.contains(device),
    {
        let mut j: usize = 0;
        while j < self.devices.len()
            invariant
                j <= self.devices.len(),
                forall|k: int| 0 <= k < j ==> self.devices@[k] != device,
            decreases self.devices.len() - j,
        {
            let candidate = self.devices[j];
            if candidate.vendor_id == device.vendor_id && candidate.product_id
                == device.product_id {
                return true;
            }
            j += 1;
        }
        false
    }
}

/// Answers whether at least one monitored device is present. Returns `true`
/// at the first device of the inventory that matches a monitored one in both
/// ids, `false` when the inventory holds none, and `false` when there is no
/// inventory: the probe fails closed.
pub fn probe(monitored: &MonitoredSet, inventory: &Option<Vec<DeviceIdentifier>>) -> (present: bool)
    ensures
        present == probed(monitored@, listed(*inventory)),
{
    match inventory {
        None => false,
        Some(devices) => {
            let mut i: usize = 0;
            while i < devices.len()
                invariant
                    i <= devices.len(),
                    listed(*inventory) == Some(devices@),
                    forall|a: int, b: int|
                        0 <= a < i && 0 <= b < monitored@.len() ==> #[trigger] devices@[a]
                            != #[trigger] monitored@[b],
                decreases devices.len() - i,
            {
                if monitored.contains(devices[i]) {
                    proof {
                        let j = monitored@.index_of(devices@[i as int]);
                        assert(devices@[i as int] == monitored@[j]);
                    }
                    return true;
                }
                i += 1;
            }
            false
        },
    }
}

/// A probe's answer depends only on which devices are monitored and which
/// are listed, not on the order or the number of times in which either list
/// names them.
pub proof fn lemma_probe_ignores_order(
    monitored: Seq<DeviceIdentifier>,
    reordered: Seq<DeviceIdentifier>,
    inventory: Seq<DeviceIdentifier>,
    relisted: Seq<DeviceIdentifier>,
)
    requires
        monitored.to_set() == reordered.to_set(),
        inventory.to_set() == relisted.to_set(),
    ensures
        any_match(monitored, inventory) == any_match(reordered, relisted),
{
    lemma_any_match_by_sets(monitored, inventory);
    lemma_any_match_by_sets(reordered, relisted);
}

/// Two lists match exactly if some device is in both.
proof fn lemma_any_match_by_sets(monitored: Seq<DeviceIdentifier>, inventory: Seq<DeviceIdentifier>)
    ensures
        any_match(monitored, inventory) <==> exists|d: DeviceIdentifier|
            #[trigger] monitored.to_set().contains(d) && inventory.to_set().contains(d),
{
    if any_match(monitored, inventory) {
        let (i, j) = choose|i: int, j: int|
            0 <= i < inventory.len() && 0 <= j < monitored.len() && #[trigger] inventory[i]
                == #[trigger] monitored[j];
        assert(monitored.contains(monitored[j]));
        assert(inventory.contains(inventory[i]));
        assert(monitored.to_set().contains(monitored[j]));
        assert(inventory.to_set().contains(monitored[j]));
    }
    if exists|d: DeviceIdentifier|
        #[trigger] monitored.to_set().contains(d) && inventory.to_set().contains(d) {
        let d = choose|d: DeviceIdentifier|
            #[trigger] monitored.to_set().contains(d) && inventory.to_set().contains(d);
        assert(monitored.contains(d));
        assert(inventory.contains(d));
        let j = choose|j: int| 0 <= j < monitored.len() && monitored[j] == d;
        let i = choose|i: int| 0 <= i < inventory.len() && inventory[i] == d;
        assert(inventory[i] == monitored[j]);
    }
}

} // verus!
