//! Discovery of Cast devices on the local network.
//!
//! The host asks the network for the service `_googlecast._tcp.local` and
//! hands each response that it gets to a [`Discovery`], which says whether the
//! response shows a device that was not seen before.

use vstd::prelude::*;

use crate::back::protocol::uuids::{parse_uuid, uuid_parse};

verus! {

/// Where a Cast device is, and which one it is.
#[derive(Clone, Copy, Debug, PartialEq, Eq, Structural)]
pub struct DeviceInfo {
    /// The IPv4 address, as a number: the first octet is the most significant
    /// byte.
    pub ip_addr: u32,
    /// The UUID of the device, as a 128-bit number.
    pub uuid: u128,
}

/// What a record of an mDNS response holds, as far as discovery reads it.
#[derive(Clone, Copy, Debug, PartialEq, Eq, Structural)]
pub enum RecordKind {
    /// An IPv4 address, as a number: the first octet is the most significant
    /// byte.
    A(u32),
    /// Anything else.
    Other,
}

/// A record of an mDNS response.
#[derive(Clone, Debug, PartialEq, Eq)]
pub struct Record {
    /// The name that the record is about.
    pub name: String,
    /// What the record holds.
    pub kind: RecordKind,
}

/// The mathematical value of a [`Record`].
pub struct RecordModel {
    pub name: Seq<char>,
    pub kind: RecordKind,
}

impl View for Record {
    type V = RecordModel;

    open spec fn view(&self) -> RecordModel {
        RecordModel { name: self.name@, kind: self.kind }
    }
}

/// The mathematical values of a list of records.
pub open spec fn record_models(records: Seq<Record>) -> Seq<RecordModel> {
    Seq::new(records.len(), |i: int| records[i]@)
}

/// Whether `text` ends with `suffix`.
pub open spec fn ends_with(text: Seq<char>, suffix: Seq<char>) -> bool {
    text.len() >= suffix.len() && text.skip(text.len() - suffix.len()) == suffix
}

/// The name of a device: the name of its record without `.local` at its end.
pub open spec fn device_name(name: Seq<char>) -> Seq<char> {
    if ends_with(name, ".local"@) {
        name.take(name.len() - ".local"@.len())
    } else {
        name
    }
}

/// The address and the name of the last address record of a response.
pub open spec fn last_address(records: Seq<RecordModel>) -> Option<(u32, Seq<char>)>
    decreases records.len(),
{
    if records.len() == 0 {
        None
    } else {
        match records.last().kind {
            RecordKind::A(address) => Some((address, records.last().name)),
            RecordKind::Other => last_address(records.drop_last()),
        }
    }
}

/// The device that a response shows: the address of its last address record,
/// and the UUID that the name of that record holds. A response without an
/// address record, or whose name holds no UUID, shows none.
pub open spec fn shown(records: Seq<RecordModel>) -> Option<DeviceInfo> {
    match last_address(records) {
        Some((ip_addr, name)) => match uuid_parse(device_name(name)) {
            Some(uuid) => Some(DeviceInfo { ip_addr, uuid }),
            None => None,
        },
        None => None,
    }
}

/// The device that a response makes known, where `seen` are the addresses
/// that are known already: the device that the response shows, unless its
/// address is among them.
pub open spec fn found(seen: Seq<u32>, records: Seq<RecordModel>) -> Option<DeviceInfo> {
    match shown(records) {
        Some(device) => if seen.contains(device.ip_addr) {
            None
        } else {
            Some(device)
        },
        None => None,
    }
}

/// The addresses that are known after a response.
pub open spec fn seen_after(seen: Seq<u32>, records: Seq<RecordModel>) -> Seq<u32> {
    match found(seen, records) {
        Some(device) => seen.push(device.ip_addr),
        None => seen,
    }
}

/// The addresses that are known after a run of responses.
pub open spec fn seen_in_run(seen: Seq<u32>, responses: Seq<Seq<RecordModel>>) -> Seq<u32>
    decreases responses.len(),
{
    if responses.len() == 0 {
        seen
    } else {
        seen_after(seen_in_run(seen, responses.drop_last()), responses.last())
    }
}

/// The devices that a run of responses makes known, in order.
pub open spec fn found_in_run(seen: Seq<u32>, responses: Seq<Seq<RecordModel>>) -> Seq<
    DeviceInfo,
>
    decreases responses.len(),
{
    if responses.len() == 0 {
        Seq::empty()
    } else {
        let before = found_in_run(seen, responses.drop_last());
        match found(seen_in_run(seen, responses.drop_last()), responses.last()) {
            Some(device) => before.push(device),
            None => before,
        }
    }
}

/// An address that is known stays known, and the address of each device that
/// a run finds is known after the run.
pub proof fn lemma_run_keeps_addresses(seen: Seq<u32>, responses: Seq<Seq<RecordModel>>)
    ensures
        forall|address: u32|
            seen.contains(address) ==> #[trigger] seen_in_run(seen, responses).contains(address),
        forall|i: int|
            0 <= i < found_in_run(seen, responses).len() ==> seen_in_run(
                seen,
                responses,
            ).contains((#[trigger] found_in_run(seen, responses)[i]).ip_addr),
    decreases responses.len(),
{
    if responses.len() > 0 {
        let earlier = responses.drop_last();
        let before = seen_in_run(seen, earlier);
        let after = seen_in_run(seen, responses);
        let found_before = found_in_run(seen, earlier);
        let found_after = found_in_run(seen, responses);
        lemma_run_keeps_addresses(seen, earlier);
        assert forall|address: u32| before.contains(address) implies after.contains(address) by {
            let at = choose|k: int| 0 <= k < before.len() && before[k] == address;
            assert(after[at] == address);
        }
        assert forall|address: u32| seen.contains(address) implies after.contains(address) by {
            assert(before.contains(address));
        }
        assert forall|i: int| 0 <= i < found_after.len() implies after.contains(
            (#[trigger] found_after[i]).ip_addr,
        ) by {
            if i < found_before.len() {
                assert(found_after[i] == found_before[i]);
                assert(before.contains(found_before[i].ip_addr));
            } else {
                assert(after.last() == found_after[i].ip_addr);
            }
        }
    }
}

/// No device of a run has an address that was known before the run.
pub proof fn lemma_run_finds_new_addresses(seen: Seq<u32>, responses: Seq<Seq<RecordModel>>)
    ensures
        forall|i: int|
            0 <= i < found_in_run(seen, responses).len() ==> !seen.contains(
                (#[trigger] found_in_run(seen, responses)[i]).ip_addr,
            ),
    decreases responses.len(),
{
    if responses.len() > 0 {
        let earlier = responses.drop_last();
        let before = seen_in_run(seen, earlier);
        let found_before = found_in_run(seen, earlier);
        let found_after = found_in_run(seen, responses);
        lemma_run_finds_new_addresses(seen, earlier);
        lemma_run_keeps_addresses(seen, earlier);
        assert forall|i: int| 0 <= i < found_after.len() implies !seen.contains(
            (#[trigger] found_after[i]).ip_addr,
        ) by {
            if i < found_before.len() {
                assert(found_after[i] == found_before[i]);
            } else {
                let address = found_after[i].ip_addr;
                assert(!before.contains(address));
                if seen.contains(address) {
                    assert(seen_in_run(seen, earlier).contains(address));
                }
            }
        }
    }
}

/// A run makes no address known twice.
pub proof fn lemma_run_finds_each_address_once(seen: Seq<u32>, responses: Seq<Seq<RecordModel>>)
    ensures
        forall|i: int, j: int|
            0 <= i < j < found_in_run(seen, responses).len() ==> (#[trigger] found_in_run(
                seen,
                responses,
            )[i]).ip_addr != (#[trigger] found_in_run(seen, responses)[j]).ip_addr,
    decreases responses.len(),
{
    if responses.len() > 0 {
        let earlier = responses.drop_last();
        let before = seen_in_run(seen, earlier);
        let found_before = found_in_run(seen, earlier);
        let found_after = found_in_run(seen, responses);
        lemma_run_finds_each_address_once(seen, earlier);
        lemma_run_keeps_addresses(seen, earlier);
        assert forall|i: int, j: int| 0 <= i < j < found_after.len() implies (
        #[trigger] found_after[i]).ip_addr != (#[trigger] found_after[j]).ip_addr by {
            assert(found_after[i] == found_before[i]);
            if j < found_before.len() {
                assert(found_after[j] == found_before[j]);
            } else {
                assert(before.contains(found_before[i].ip_addr));
                assert(!before.contains(found_after[j].ip_addr));
            }
        }
    }
}

/// The mathematical values of a list of responses.
pub open spec fn response_models(responses: Seq<Vec<Record>>) -> Seq<Seq<RecordModel>> {
    Seq::new(responses.len(), |i: int| record_models(responses[i]@))
}

/// `str::strip_suffix` with a string as the pattern: the text without the
/// suffix, or `None` where the text does not end with it.
#[verifier::external_body]
fn strip_suffix<'a>(text: &'a str, suffix: &str) -> (head: Option<&'a str>)
    ensures
        match head {
            Some(head) => text@ == head@ + suffix@,
            None => !ends_with(text@, suffix@),
        },
{
    text.strip_suffix(suffix)
}

/// Keeps the addresses of the devices that a run of discovery has found.
pub struct Discovery {
    discovered_addresses: Vec<u32>,
}

impl View for Discovery {
    type V = Seq<u32>;

    /// The addresses that are known, in the order in which they were found.
    closed spec fn view(&self) -> Seq<u32> {
        self.discovered_addresses@
    }
}

impl Discovery {
    /// A run that has found nothing yet.
    pub fn new() -> (discovery: Self)
        ensures
            discovery@ == Seq::<u32>::empty(),
    {
        Discovery { discovered_addresses: Vec::new() }
    }

    /// Takes in a response: the device that it makes known, if any, whose
    /// address is known from then on.
    pub fn observe(&mut self, records: &Vec<Record>) -> (device: Option<DeviceInfo>)
        ensures
            device == found(old(self)@, record_models(records@)),
            final(self)@ == seen_after(old(self)@, record_models(records@)),
    {
        let ghost all = record_models(records@);
        let mut latest: Option<usize> = None;
        let mut i: usize = 0;
        assert(all.take(0) == Seq::<RecordModel>::empty());
        while i < records.len()
            invariant
                i <= records.len(),
                all == record_models(records@),
                match latest {
                    Some(at) => at < i && records@[at as int].kind is A && last_address(
                        all.take(i as int),
                    ) == Some((records@[at as int].kind->A_0, records@[at as int].name@)),
                    None => last_address(all.take(i as int)) is None,
                },
            decreases records.len() - i,
        {
            assert(all.take(i + 1).drop_last() == all.take(i as int));
            assert(all.take(i + 1).last() == records@[i as int]@);
            match records[i].kind {
                RecordKind::A(_) => {
                    latest = Some(i);
                },
                RecordKind::Other => {},
            }
            i += 1;
        }
        assert(all.take(records.len() as int) == all);
        let at = match latest {
            Some(at) => at,
            None => return None,
        };
        let address = match records[at].kind {
            RecordKind::A(address) => address,
            RecordKind::Other => return None,
        };
        let name = records[at].name.as_str();
        let uuid_text = match strip_suffix(name, ".local") {
            Some(head) => {
                proof {
                    let suffix = ".local"@;
                    assert(name@.skip(name@.len() - suffix.len()) == suffix);
                    assert(name@.take(name@.len() - suffix.len()) == head@);
                }
                head
            },
            None => name,
        };
        let uuid = match parse_uuid(uuid_text) {
            Some(uuid) => uuid,
            None => return None,
        };
        // Do not discover the same Cast IP address more than once.
        if self.knows(address) {
            None
        } else {
            self.discovered_addresses.push(address);
            Some(DeviceInfo { ip_addr: address, uuid })
        }
    }

    /// Whether `address` is known.
    pub fn knows(&self, address: u32) -> (known: bool)
        ensures
            known == self@.contains(address),
    {
        let mut i: usize = 0;
        while i < self.discovered_addresses.len()
            invariant
                i <= self.discovered_addresses.len(),
                forall|k: int| 0 <= k < i ==> self.discovered_addresses@[k] != address,
            decreases self.discovered_addresses.len() - i,
        {
            if self.discovered_addresses[i] == address {
                return true;
            }
            i += 1;
        }
        false
    }
}

/// Performs Cast discovery on the responses of a run, in the order in which
/// they came: the devices that the run has found, each address once.
pub fn run(responses: &Vec<Vec<Record>>) -> (devices: Vec<DeviceInfo>)
    ensures
        devices@ == found_in_run(Seq::empty(), response_models(responses@)),
{
    let ghost all = response_models(responses@);
    let mut discovery = Discovery::new();
    let mut devices: Vec<DeviceInfo> = Vec::new();
    let mut i: usize = 0;
    assert(all.take(0) == Seq::<Seq<RecordModel>>::empty());
    while i < responses.len()
        invariant
            i <= responses.len(),
            all == response_models(responses@),
            devices@ == found_in_run(Seq::empty(), all.take(i as int)),
            discovery@ == seen_in_run(Seq::empty(), all.take(i as int)),
        decreases responses.len() - i,
    {
        assert(all.take(i + 1).drop_last() == all.take(i as int));
        assert(all.take(i + 1).last() == record_models(responses@[i as int]@));
        match discovery.observe(&responses[i]) {
            Some(device) => {
                devices.push(device);
            },
            None => {},
        }
        i += 1;
    }
    assert(all.take(responses.len() as int) == all);
    devices
}

} // verus!
