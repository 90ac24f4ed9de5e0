//! The device registry: every device the kernel knows, and the driver
//! attached to each.

use vstd::prelude::*;
use vstd::string::*;
use crate::driver_framework::device::{
    Capability, Device, DeviceHandle, DeviceInfo, DeviceInfoView, Resource,
};
use crate::driver_framework::driver::DriverBox;
use crate::text::{contains_text, decimal_digits, push_decimal};

verus! {

/// One registered device and the driver attached to it, if any.
pub struct RegistryEntry {
    pub device: DeviceHandle,
    pub driver: Option<DriverBox>,
}

/// The registry. Devices are never removed, and a device's identity is its
/// position in the registry counted from one: identities are handed out in
/// rising order and never used twice.
pub struct DeviceManager {
    pub devices: Vec<RegistryEntry>,
}

/// The position of the device with identity `device_id` among `entries`.
pub open spec fn position_of(entries: Seq<RegistryEntry>, device_id: usize) -> Option<int> {
    if 1 <= device_id <= entries.len() {
        Some(device_id - 1)
    } else {
        None
    }
}

/// Text of the error for an identity that no device has.
pub open spec fn no_device_message(device_id: usize) -> Seq<char> {
    "no device with id "@ + decimal_digits(device_id as nat)
}

/// Text of the error for attaching to a device that has a driver.
pub open spec fn already_attached_message(device_id: usize) -> Seq<char> {
    "device "@ + decimal_digits(device_id as nat) + " already has a driver"@
}

/// Text of the error for detaching from a device that has no driver.
pub open spec fn not_attached_message(device_id: usize) -> Seq<char> {
    "device "@ + decimal_digits(device_id as nat) + " has no driver"@
}

/// Text of the error for a driver that declined the device.
pub open spec fn probe_failed_message(reason: Seq<char>) -> Seq<char> {
    "probe failed: "@ + reason
}

/// Text of the error for a driver that could not start the device.
pub open spec fn start_failed_message(reason: Seq<char>) -> Seq<char> {
    "start failed: "@ + reason
}

/// What attaching comes to, given what the driver answered: `start` is
/// `None` where the driver was not asked to start.
pub open spec fn attach_outcome_text(
    probe: Result<(), &'static str>,
    start: Option<Result<(), &'static str>>,
) -> Result<(), Seq<char>> {
    match probe {
        Err(reason) => Err(probe_failed_message(reason@)),
        Ok(()) => match start {
            Some(Err(reason)) => Err(start_failed_message(reason@)),
            _ => Ok(()),
        },
    }
}

/// The view of an attach result: the error as its text.
pub open spec fn result_text(r: Result<(), String>) -> Result<(), Seq<char>> {
    match r {
        Ok(()) => Ok(()),
        Err(e) => Err(e@),
    }
}

/// What attaching comes to, given what the driver answered to `probe` and,
/// where it was asked, to `start`.
pub fn attach_outcome(
    probe: Result<(), &'static str>,
    start: Option<Result<(), &'static str>>,
) -> (r: Result<(), String>)
    ensures
        result_text(r) == attach_outcome_text(probe, start),
{
    match probe {
        Err(reason) => {
            let mut e = String::from_str("probe failed: ");
            e.append(reason);
            Err(e)
        },
        Ok(()) => match start {
            Some(Err(reason)) => {
                let mut e = String::from_str("start failed: ");
                e.append(reason);
                Err(e)
            },
            _ => Ok(()),
        },
    }
}

/// The first line of the listing of a registry of `count` devices.
pub open spec fn listing_head(count: nat) -> Seq<char> {
    "DeviceManager: "@ + decimal_digits(count) + " devices registered"@
}

/// The line of the listing for the entry `e`: its identity, right-aligned
/// in three characters, vendor and device number as four hexadecimal
/// digits each, and the short name of its kind.
pub open spec fn listing_line(e: RegistryEntry) -> Seq<char> {
    " - id="@ + crate::text::right_aligned(decimal_digits(e.device.id as nat), 3) + " "@
        + crate::text::hex_word(e.device.info.vendor_id) + ":"@ + crate::text::hex_word(
        e.device.info.device_id,
    ) + " "@ + crate::driver_framework::device::concise_type(
        e.device.info.class,
        e.device.info.subclass,
        e.device.info.prog_if,
    )
}

/// Whether the entry's device carries this vendor and device number.
pub open spec fn same_ids(e: RegistryEntry, vendor: u16, device: u16) -> bool {
    e.device.info.vendor_id == vendor && e.device.info.device_id == device
}

/// The identities of the entries that carry this vendor and device number,
/// in the order of the entries.
pub open spec fn matching_ids(entries: Seq<RegistryEntry>, vendor: u16, device: u16) -> Seq<usize>
    decreases entries.len(),
{
    if entries.len() == 0 {
        Seq::empty()
    } else if same_ids(entries.last(), vendor, device) {
        matching_ids(entries.drop_last(), vendor, device).push(entries.last().device.id)
    } else {
        matching_ids(entries.drop_last(), vendor, device)
    }
}

/// Whether `s` holds a resource of the kind and address of `r`.
pub open spec fn has_resource(s: Seq<Resource>, r: Resource) -> bool {
    exists|i: int| 0 <= i < s.len() && (#[trigger] s[i]).kind == r.kind && s[i].addr == r.addr
}

/// `existing` followed by those of `incoming`, in order, whose kind and
/// address are not yet present when their turn comes.
pub open spec fn merge_resources(existing: Seq<Resource>, incoming: Seq<Resource>) -> Seq<
    Resource,
>
    decreases incoming.len(),
{
    if incoming.len() == 0 {
        existing
    } else {
        let merged = merge_resources(existing, incoming.drop_last());
        if has_resource(merged, incoming.last()) {
            merged
        } else {
            merged.push(incoming.last())
        }
    }
}

/// `existing` followed by those of `incoming`, in order, that are not yet
/// present when their turn comes.
pub open spec fn merge_capabilities(
    existing: Seq<Capability>,
    incoming: Seq<Capability>,
) -> Seq<Capability>
    decreases incoming.len(),
{
    if incoming.len() == 0 {
        existing
    } else {
        let merged = merge_capabilities(existing, incoming.drop_last());
        if merged.contains(incoming.last()) {
            merged
        } else {
            merged.push(incoming.last())
        }
    }
}

/// `existing`, with `incoming` appended behind "; " unless it already
/// occurs in it.
pub open spec fn merge_description(existing: Seq<char>, incoming: Seq<char>) -> Seq<char> {
    if contains_text(existing, incoming) {
        existing
    } else {
        existing + "; "@ + incoming
    }
}

/// What is known of a device after a later discovery of it is merged in.
pub open spec fn merged_info(existing: DeviceInfoView, incoming: DeviceInfoView) -> DeviceInfoView {
    DeviceInfoView {
        resources: merge_resources(existing.resources, incoming.resources),
        capabilities: merge_capabilities(existing.capabilities, incoming.capabilities),
        description: merge_description(existing.description, incoming.description),
        ..existing
    }
}

/// Adds to `existing` the resources of `incoming` that it lacks.
pub fn merge_resources_into(existing: &mut Vec<Resource>, incoming: &Vec<Resource>)
    ensures
        final(existing)@ == merge_resources(old(existing)@, incoming@),
{
    let mut i: usize = 0;
    while i < incoming.len()
        invariant
            i <= incoming.len(),
            existing@ == merge_resources(old(existing)@, incoming@.take(i as int)),
        decreases incoming.len() - i,
    {
        let r = incoming[i];
        let mut found = false;
        let mut j: usize = 0;
        while j < existing.len()
            invariant
                j <= existing.len(),
                found <==> has_resource(existing@.take(j as int), r),
            decreases existing.len() - j,
        {
            let er = existing[j];
            proof {
                let before = existing@.take(j as int);
                let after = existing@.take(j as int + 1);
                assert(after =~= before.push(existing@[j as int]));
                if has_resource(before, r) {
                    let k = choose|k: int|
                        0 <= k < before.len() && (#[trigger] before[k]).kind == r.kind
                            && before[k].addr == r.addr;
                    assert(after[k] == before[k]);
                }
                if er.kind == r.kind && er.addr == r.addr {
                    assert(after[j as int] == er);
                }
                if has_resource(after, r) && !(er.kind == r.kind && er.addr == r.addr) {
                    let k = choose|k: int|
                        0 <= k < after.len() && (#[trigger] after[k]).kind == r.kind
                            && after[k].addr == r.addr;
                    assert(before[k] == after[k]);
                }
            }
            if er.kind == r.kind && er.addr == r.addr {
                found = true;
            }
            j += 1;
        }
        proof {
            assert(existing@.take(j as int) =~= existing@);
            assert(incoming@.take(i as int + 1).drop_last() =~= incoming@.take(i as int));
        }
        if !found {
            existing.push(r);
        }
        i += 1;
    }
    assert(incoming@.take(i as int) =~= incoming@);
}

/// Adds to `existing` the capabilities of `incoming` that it lacks.
pub fn merge_capabilities_into(existing: &mut Vec<Capability>, incoming: &Vec<Capability>)
    ensures
        final(existing)@ == merge_capabilities(old(existing)@, incoming@),
{
    let mut i: usize = 0;
    while i < incoming.len()
        invariant
            i <= incoming.len(),
            existing@ == merge_capabilities(old(existing)@, incoming@.take(i as int)),
        decreases incoming.len() - i,
    {
        let c = incoming[i];
        let mut found = false;
        let mut j: usize = 0;
        while j < existing.len()
            invariant
                j <= existing.len(),
                found <==> existing@.take(j as int).contains(c),
            decreases existing.len() - j,
        {
            let ec = existing[j];
            proof {
                let before = existing@.take(j as int);
                let after = existing@.take(j as int + 1);
                assert(after =~= before.push(existing@[j as int]));
                if before.contains(c) {
                    let k = choose|k: int| 0 <= k < before.len() && before[k] == c;
                    assert(after[k] == c);
                }
                if ec == c {
                    assert(after[j as int] == c);
                }
                if after.contains(c) && ec != c {
                    let k = choose|k: int| 0 <= k < after.len() && after[k] == c;
                    assert(before[k] == c);
                }
            }
            if ec == c {
                found = true;
            }
            j += 1;
        }
        proof {
            assert(existing@.take(j as int) =~= existing@);
            assert(incoming@.take(i as int + 1).drop_last() =~= incoming@.take(i as int));
        }
        if !found {
            existing.push(c);
        }
        i += 1;
    }
    assert(incoming@.take(i as int) =~= incoming@);
}

/// Appends `incoming` to `existing` behind "; " unless it already occurs in
/// it.
pub fn merge_description_into(existing: &mut String, incoming: &str)
    ensures
        final(existing)@ == merge_description(old(existing)@, incoming@),
{
    if !crate::text::text_contains(existing.as_str(), incoming) {
        existing.append("; ");
        existing.append(incoming);
    }
}

/// Merging the same discovery a second time changes nothing: no resource
/// and no capability is added twice, and the description is not repeated.
pub proof fn lemma_merge_idempotent(existing: DeviceInfoView, incoming: DeviceInfoView)
    ensures
        merged_info(merged_info(existing, incoming), incoming) == merged_info(existing, incoming),
{
    let once = merged_info(existing, incoming);
    assert(incoming.resources.take(incoming.resources.len() as int) =~= incoming.resources);
    assert(incoming.capabilities.take(incoming.capabilities.len() as int)
        =~= incoming.capabilities);
    lemma_merge_resources_holds_all(
        existing.resources,
        incoming.resources,
        incoming.resources.len() as int,
    );
    lemma_merge_resources_again(once.resources, incoming.resources);
    lemma_merge_capabilities_holds_all(
        existing.capabilities,
        incoming.capabilities,
        incoming.capabilities.len() as int,
    );
    lemma_merge_capabilities_again(once.capabilities, incoming.capabilities);
    if !contains_text(existing.description, incoming.description) {
        crate::text::lemma_contains_suffix(existing.description + "; "@, incoming.description);
    }
}

/// After a merge, each merged-in resource has its kind and address present.
pub proof fn lemma_merge_resources_holds_all(
    existing: Seq<Resource>,
    incoming: Seq<Resource>,
    n: int,
)
    requires
        0 <= n <= incoming.len(),
    ensures
        forall|k: int|
            0 <= k < n ==> has_resource(
                merge_resources(existing, incoming.take(n)),
                #[trigger] incoming[k],
            ),
        forall|r: Resource|
            has_resource(existing, r) ==> has_resource(
                merge_resources(existing, incoming.take(n)),
                r,
            ),
    decreases n,
{
    let merged = merge_resources(existing, incoming.take(n));
    if n > 0 {
        let prev = merge_resources(existing, incoming.take(n - 1));
        lemma_merge_resources_holds_all(existing, incoming, n - 1);
        assert(incoming.take(n).drop_last() =~= incoming.take(n - 1));
        assert(incoming.take(n).last() == incoming[n - 1]);
        assert forall|r: Resource| has_resource(prev, r) implies has_resource(merged, r) by {
            let i = choose|i: int|
                0 <= i < prev.len() && (#[trigger] prev[i]).kind == r.kind && prev[i].addr
                    == r.addr;
            assert(merged[i] == prev[i]);
        }
        if !has_resource(prev, incoming[n - 1]) {
            assert(merged[prev.len() as int] == incoming[n - 1]);
        }
    } else {
        assert(incoming.take(0) =~= Seq::<Resource>::empty());
    }
}

/// Merging in resources that are all present adds nothing.
pub proof fn lemma_merge_resources_again(merged: Seq<Resource>, incoming: Seq<Resource>)
    requires
        forall|k: int| 0 <= k < incoming.len() ==> has_resource(merged, #[trigger] incoming[k]),
    ensures
        merge_resources(merged, incoming) == merged,
    decreases incoming.len(),
{
    if incoming.len() > 0 {
        assert forall|k: int| 0 <= k < incoming.drop_last().len() implies has_resource(
            merged,
            #[trigger] incoming.drop_last()[k],
        ) by {
            assert(incoming.drop_last()[k] == incoming[k]);
        }
        lemma_merge_resources_again(merged, incoming.drop_last());
        assert(incoming.last() == incoming[incoming.len() - 1]);
    }
}

/// After a merge, each merged-in capability is present.
pub proof fn lemma_merge_capabilities_holds_all(
    existing: Seq<Capability>,
    incoming: Seq<Capability>,
    n: int,
)
    requires
        0 <= n <= incoming.len(),
    ensures
        forall|k: int|
            0 <= k < n ==> merge_capabilities(existing, incoming.take(n)).contains(
                #[trigger] incoming[k],
            ),
        forall|c: Capability|
            existing.contains(c) ==> merge_capabilities(existing, incoming.take(n)).contains(c),
    decreases n,
{
    let merged = merge_capabilities(existing, incoming.take(n));
    if n > 0 {
        let prev = merge_capabilities(existing, incoming.take(n - 1));
        lemma_merge_capabilities_holds_all(existing, incoming, n - 1);
        assert(incoming.take(n).drop_last() =~= incoming.take(n - 1));
        assert(incoming.take(n).last() == incoming[n - 1]);
        assert forall|c: Capability| prev.contains(c) implies merged.contains(c) by {
            let i = choose|i: int| 0 <= i < prev.len() && prev[i] == c;
            assert(merged[i] == c);
        }
        if !prev.contains(incoming[n - 1]) {
            assert(merged[prev.len() as int] == incoming[n - 1]);
        }
    } else {
        assert(incoming.take(0) =~= Seq::<Capability>::empty());
    }
}

/// Merging in capabilities that are all present adds nothing.
pub proof fn lemma_merge_capabilities_again(merged: Seq<Capability>, incoming: Seq<Capability>)
    requires
        forall|k: int| 0 <= k < incoming.len() ==> merged.contains(#[trigger] incoming[k]),
    ensures
        merge_capabilities(merged, incoming) == merged,
    decreases incoming.len(),
{
    if incoming.len() > 0 {
        assert forall|k: int| 0 <= k < incoming.drop_last().len() implies merged.contains(
            #[trigger] incoming.drop_last()[k],
        ) by {
            assert(incoming.drop_last()[k] == incoming[k]);
        }
        lemma_merge_capabilities_again(merged, incoming.drop_last());
        assert(incoming.last() == incoming[incoming.len() - 1]);
    }
}

/// Identities rise with the order of registration and are never shared:
/// of two devices in a registry, the one registered later has the greater
/// identity.
pub proof fn lemma_identities_rise(m: DeviceManager, i: int, j: int)
    requires
        m.wf(),
        0 <= i < j < m.devices@.len(),
    ensures
        m.devices@[i].device.id < m.devices@[j].device.id,
{
}

/// Whether the registry went from `before` to `after` by registering
/// devices with the descriptions `infos`, in that order, each without a
/// driver and under the next free identity.
pub open spec fn registered_all(
    before: Seq<RegistryEntry>,
    after: Seq<RegistryEntry>,
    infos: Seq<DeviceInfoView>,
) -> bool {
    &&& after.len() == before.len() + infos.len()
    &&& after.take(before.len() as int) == before
    &&& forall|k: int|
        0 <= k < infos.len() ==> {
            &&& (#[trigger] after[before.len() + k]).device.id == before.len() + k + 1
            &&& after[before.len() + k].device.info@ == infos[k]
            &&& after[before.len() + k].driver is None
        }
}

/// Registering one run of devices and then another registers the two runs
/// one behind the other.
pub proof fn lemma_registered_all_chain(
    before: Seq<RegistryEntry>,
    between: Seq<RegistryEntry>,
    after: Seq<RegistryEntry>,
    first: Seq<DeviceInfoView>,
    second: Seq<DeviceInfoView>,
)
    requires
        registered_all(before, between, first),
        registered_all(between, after, second),
    ensures
        registered_all(before, after, first + second),
{
    assert(after.take(before.len() as int) =~= after.take(between.len() as int).take(
        before.len() as int,
    ));
    assert forall|k: int| 0 <= k < (first + second).len() implies {
        &&& (#[trigger] after[before.len() + k]).device.id == before.len() + k + 1
        &&& after[before.len() + k].device.info@ == (first + second)[k]
        &&& after[before.len() + k].driver is None
    } by {
        if k < first.len() {
            assert(after.take(between.len() as int)[before.len() + k] == after[before.len() + k]);
            assert(between[before.len() + k].device.info@ == first[k]);
        } else {
            let j = k - first.len();
            assert(after[between.len() + j].device.info@ == second[j]);
        }
    }
}

/// Registering nothing leaves the registry as it was.
pub proof fn lemma_registered_none(before: Seq<RegistryEntry>)
    ensures
        registered_all(before, before, Seq::empty()),
{
    assert(before.take(before.len() as int) =~= before);
}

impl DeviceManager {
    /// Every device's identity is its position counted from one.
    pub open spec fn wf(&self) -> bool {
        forall|i: int|
            0 <= i < self.devices@.len() ==> (#[trigger] self.devices@[i]).device.id == i + 1
    }

    /// Whether every device's identity is its position counted from one.
    pub fn is_wf(&self) -> (ok: bool)
        ensures
            ok == self.wf(),
    {
        let mut i: usize = 0;
        while i < self.devices.len()
            invariant
                i <= self.devices@.len(),
                forall|k: int| 0 <= k < i ==> (#[trigger] self.devices@[k]).device.id == k + 1,
            decreases self.devices@.len() - i,
        {
            if self.devices[i].device.id != i + 1 {
                return false;
            }
            i += 1;
        }
        true
    }

    /// An empty registry.
    pub fn new() -> (m: DeviceManager)
        ensures
            m.wf(),
            m.devices@.len() == 0,
    {
        DeviceManager { devices: Vec::new() }
    }

    /// Registers a device without a driver and returns its identity: one
    /// more than the number of devices registered before it.
    pub fn register_device(&mut self, info: DeviceInfo) -> (id: usize)
        requires
            old(self).wf(),
        ensures
            final(self).wf(),
            id == old(self).devices@.len() + 1,
            final(self).devices@.len() == old(self).devices@.len() + 1,
            final(self).devices@.take(old(self).devices@.len() as int) == old(self).devices@,
            final(self).devices@.last().device.id == id,
            final(self).devices@.last().device.info == info,
            final(self).devices@.last().driver is None,
            registered_all(old(self).devices@, final(self).devices@, seq![info@]),
    {
        let ghost before = self.devices@;
        // The identity is the number of devices once this one is among them:
        // a number that the length of the vector has shown to fit.
        self.devices.push(RegistryEntry { device: Box::new(Device::new(0, info)), driver: None });
        let id = self.devices.len();
        self.devices[id - 1].device.id = id;
        assert(self.devices@.take(before.len() as int) =~= before);
        id
    }

    /// Attaches `driver` to the device `device_id`: the driver is asked to
    /// probe the device and, if it accepts, to start it. The driver is kept
    /// only if both succeed; on any error the registry is left as it was.
    pub fn attach_driver(&mut self, device_id: usize, driver: DriverBox) -> (r: Result<(), String>)
        requires
            old(self).wf(),
        ensures
            final(self).wf(),
            final(self).devices@.len() == old(self).devices@.len(),
            r is Err ==> final(self).devices@ == old(self).devices@,
            position_of(old(self).devices@, device_id) is None ==> result_text(r) == Err::<
                (),
                Seq<char>,
            >(no_device_message(device_id)),
            forall|i: int|
                position_of(old(self).devices@, device_id) == Some(i)
                    && old(self).devices@[i].driver is Some ==> result_text(r) == Err::<
                    (),
                    Seq<char>,
                >(already_attached_message(device_id)),
            forall|i: int|
                position_of(old(self).devices@, device_id) == Some(i)
                    && old(self).devices@[i].driver is None ==> exists|
                    probe: Result<(), &'static str>,
                    start: Option<Result<(), &'static str>>,
                |
                    (start is Some <==> probe is Ok) && result_text(r) == attach_outcome_text(
                        probe,
                        start,
                    ),
            r is Ok ==> forall|i: int|
                0 <= i < old(self).devices@.len() ==> #[trigger] final(self).devices@[i] == (if i
                    == device_id - 1 {
                    RegistryEntry { device: old(self).devices@[i].device, driver: Some(driver) }
                } else {
                    old(self).devices@[i]
                }),
    {
        if device_id == 0 || device_id > self.devices.len() {
            let mut e = String::from_str("no device with id ");
            push_decimal(&mut e, device_id as u64);
            return Err(e);
        }
        let idx = device_id - 1;
        if self.devices[idx].driver.is_some() {
            let mut e = String::from_str("device ");
            push_decimal(&mut e, device_id as u64);
            e.append(" already has a driver");
            return Err(e);
        }
        let probe = driver.probe(&self.devices[idx].device);
        let start = match probe {
            Ok(()) => Some(driver.start(&self.devices[idx].device)),
            Err(_) => None,
        };
        let r = attach_outcome(probe, start);
        if r.is_ok() {
            self.devices[idx].driver = Some(driver);
        }
        r
    }

    /// Detaches the driver of the device `device_id`: the driver is asked to
    /// stop the device and then to release it, and is dropped.
    pub fn detach_driver(&mut self, device_id: usize) -> (r: Result<(), String>)
        requires
            old(self).wf(),
        ensures
            final(self).wf(),
            final(self).devices@.len() == old(self).devices@.len(),
            r is Err ==> final(self).devices@ == old(self).devices@,
            position_of(old(self).devices@, device_id) is None ==> result_text(r) == Err::<
                (),
                Seq<char>,
            >(no_device_message(device_id)),
            forall|i: int|
                position_of(old(self).devices@, device_id) == Some(i)
                    && old(self).devices@[i].driver is None ==> result_text(r) == Err::<
                    (),
                    Seq<char>,
                >(not_attached_message(device_id)),
            forall|i: int|
                position_of(old(self).devices@, device_id) == Some(i)
                    && old(self).devices@[i].driver is Some ==> r is Ok,
            r is Ok ==> forall|i: int|
                0 <= i < old(self).devices@.len() ==> #[trigger] final(self).devices@[i] == (if i
                    == device_id - 1 {
                    RegistryEntry { device: old(self).devices@[i].device, driver: None }
                } else {
                    old(self).devices@[i]
                }),
    {
        if device_id == 0 || device_id > self.devices.len() {
            let mut e = String::from_str("no device with id ");
            push_decimal(&mut e, device_id as u64);
            return Err(e);
        }
        let idx = device_id - 1;
        match self.devices[idx].driver.take() {
            Some(driver) => {
                driver.stop(&self.devices[idx].device);
                driver.release(&self.devices[idx].device);
                Ok(())
            },
            None => {
                let mut e = String::from_str("device ");
                push_decimal(&mut e, device_id as u64);
                e.append(" has no driver");
                assert(self.devices@ =~= old(self).devices@);
                Err(e)
            },
        }
    }

    /// Merges `info` into the first registered device with the same vendor
    /// and device number and returns that device's identity; returns `None`,
    /// and changes nothing, where no device has them.
    pub fn merge_or_register(&mut self, info: DeviceInfo) -> (r: Option<usize>)
        requires
            old(self).wf(),
        ensures
            final(self).wf(),
            final(self).devices@.len() == old(self).devices@.len(),
            r is None ==> final(self).devices@ == old(self).devices@ && forall|i: int|
                0 <= i < old(self).devices@.len() ==> !same_ids(
                    #[trigger] old(self).devices@[i],
                    info.vendor_id,
                    info.device_id,
                ),
            r is Some ==> {
                let at = r->Some_0 - 1;
                &&& 0 <= at < old(self).devices@.len()
                &&& same_ids(old(self).devices@[at], info.vendor_id, info.device_id)
                &&& forall|i: int|
                    0 <= i < at ==> !same_ids(
                        #[trigger] old(self).devices@[i],
                        info.vendor_id,
                        info.device_id,
                    )
                &&& final(self).devices@[at].driver == old(self).devices@[at].driver
                &&& final(self).devices@[at].device.id == r->Some_0
                &&& final(self).devices@[at].device.info@ == merged_info(
                    old(self).devices@[at].device.info@,
                    info@,
                )
                &&& forall|i: int|
                    0 <= i < old(self).devices@.len() && i != at
                        ==> #[trigger] final(self).devices@[i] == old(self).devices@[i]
            },
    {
        let mut at: usize = 0;
        while at < self.devices.len()
            invariant
                at <= self.devices@.len(),
                self.devices@ == old(self).devices@,
                old(self).wf(),
                forall|i: int|
                    0 <= i < at ==> !same_ids(
                        #[trigger] self.devices@[i],
                        info.vendor_id,
                        info.device_id,
                    ),
            decreases self.devices@.len() - at,
        {
            if self.devices[at].device.info.vendor_id == info.vendor_id
                && self.devices[at].device.info.device_id == info.device_id {
                merge_resources_into(&mut self.devices[at].device.info.resources, &info.resources);
                merge_capabilities_into(
                    &mut self.devices[at].device.info.capabilities,
                    &info.capabilities,
                );
                merge_description_into(
                    &mut self.devices[at].device.info.description,
                    info.description.as_str(),
                );
                return Some(self.devices[at].device.id);
            }
            at += 1;
        }
        None
    }

    /// The identities of the devices with this vendor and device number, in
    /// rising order.
    pub fn find_by_vid_pid(&self, vendor: u16, device: u16) -> (ids: Vec<usize>)
        ensures
            ids@ == matching_ids(self.devices@, vendor, device),
    {
        let mut ids: Vec<usize> = Vec::new();
        let mut i: usize = 0;
        while i < self.devices.len()
            invariant
                i <= self.devices@.len(),
                ids@ == matching_ids(self.devices@.take(i as int), vendor, device),
            decreases self.devices@.len() - i,
        {
            proof {
                assert(self.devices@.take(i as int + 1).drop_last() =~= self.devices@.take(
                    i as int,
                ));
            }
            if self.devices[i].device.info.vendor_id == vendor
                && self.devices[i].device.info.device_id == device {
                ids.push(self.devices[i].device.id);
            }
            i += 1;
        }
        assert(self.devices@.take(i as int) =~= self.devices@);
        ids
    }

    /// The listing of the registry, line by line: first how many devices
    /// are registered, then one line for each device in the order of
    /// registration.
    pub fn list_devices(&self) -> (lines: Vec<String>)
        ensures
            lines@.len() == self.devices@.len() + 1,
            lines@[0]@ == listing_head(self.devices@.len()),
            forall|i: int|
                0 <= i < self.devices@.len() ==> (#[trigger] lines@[i + 1])@ == listing_line(
                    self.devices@[i],
                ),
    {
        let mut lines: Vec<String> = Vec::new();
        let mut head = String::from_str("DeviceManager: ");
        push_decimal(&mut head, self.devices.len() as u64);
        head.append(" devices registered");
        lines.push(head);
        let mut i: usize = 0;
        while i < self.devices.len()
            invariant
                i <= self.devices@.len(),
                lines@.len() == i + 1,
                lines@[0]@ == listing_head(self.devices@.len()),
                forall|k: int|
                    0 <= k < i ==> (#[trigger] lines@[k + 1])@ == listing_line(self.devices@[k]),
            decreases self.devices@.len() - i,
        {
            let mut line = String::from_str(" - id=");
            crate::text::push_decimal_right(&mut line, self.devices[i].device.id as u64, 3);
            line.append(" ");
            crate::text::push_hex_word(&mut line, self.devices[i].device.info.vendor_id);
            line.append(":");
            crate::text::push_hex_word(&mut line, self.devices[i].device.info.device_id);
            line.append(" ");
            line.append(
                crate::driver_framework::device::concise_type_name(
                    self.devices[i].device.info.class,
                    self.devices[i].device.info.subclass,
                    self.devices[i].device.info.prog_if,
                ),
            );
            lines.push(line);
            i += 1;
        }
        lines
    }
}

} // verus!
