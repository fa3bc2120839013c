//! Output devices: listing them, and finding the one to open.

use vstd::prelude::*;
use vstd::relations::{sorted_by, total_ordering};
use vstd::seq_lib::lemma_sorted_unique;
use vstd::utf8::{encode_utf8, encode_utf8_decode_utf8};

verus! {

/// A selectable system audio output device.
#[derive(Clone, Debug, PartialEq, Eq)]
pub struct AudioOutputDevice {
    /// Device name (stable enough for selection within a session).
    pub name: String,
    /// Whether this is the current host default output.
    pub is_default: bool,
}

/// What an [`AudioOutputDevice`] stands for.
pub struct DeviceEntry {
    /// Device name.
    pub name: Seq<char>,
    /// Whether this is the current host default output.
    pub is_default: bool,
}

impl View for AudioOutputDevice {
    type V = DeviceEntry;

    open spec fn view(&self) -> DeviceEntry {
        DeviceEntry { name: self.name@, is_default: self.is_default }
    }
}

/// Which device to open.
#[derive(Clone, Copy, Debug, PartialEq, Eq)]
pub enum DeviceChoice {
    /// The device at this place in the host's listing.
    Listed(usize),
    /// The host's default output.
    HostDefault,
}

/// The names that a listing holds.
pub open spec fn names_view(names: Seq<String>) -> Seq<Seq<char>> {
    names.map_values(|name: String| name@)
}

/// The entries that a list of devices stands for.
pub open spec fn devices_view(devices: Seq<AudioOutputDevice>) -> Seq<DeviceEntry> {
    devices.map_values(|device: AudioOutputDevice| device@)
}

/// The entries of a host's listing, with the default marked.
pub open spec fn marked(
    names: Seq<Seq<char>>,
    default_name: Option<Seq<char>>,
) -> Seq<DeviceEntry> {
    names.map_values(
        |name: Seq<char>| DeviceEntry { name, is_default: default_name == Some(name) },
    )
}

/// `a` comes strictly before `b` in the lexicographic order of byte strings.
pub open spec fn bytes_before(a: Seq<u8>, b: Seq<u8>) -> bool
    decreases a.len(),
{
    if b.len() == 0 {
        false
    } else if a.len() == 0 {
        true
    } else if a[0] != b[0] {
        a[0] < b[0]
    } else {
        bytes_before(a.drop_first(), b.drop_first())
    }
}

/// `a` may stand before `b` in a list: defaults come first, then names in the order
/// of their UTF-8 bytes.
pub open spec fn in_order(a: DeviceEntry, b: DeviceEntry) -> bool {
    if a.is_default != b.is_default {
        a.is_default
    } else {
        !bytes_before(encode_utf8(b.name), encode_utf8(a.name))
    }
}

/// A list sorted by [`in_order`].
pub open spec fn listed_in_order(devices: Seq<DeviceEntry>) -> bool {
    sorted_by(devices, |a: DeviceEntry, b: DeviceEntry| in_order(a, b))
}

proof fn bytes_trichotomy(a: Seq<u8>, b: Seq<u8>)
    ensures
        !(bytes_before(a, b) && bytes_before(b, a)),
        bytes_before(a, b) || bytes_before(b, a) || a == b,
        !bytes_before(a, a),
    decreases a.len(),
{
    if a.len() == 0 {
        if b.len() == 0 {
            assert(a =~= b);
        }
    } else if b.len() > 0 {
        bytes_trichotomy(a.drop_first(), b.drop_first());
        if a[0] == b[0] && a.drop_first() == b.drop_first() {
            assert(a =~= seq![a[0]] + a.drop_first());
            assert(b =~= seq![b[0]] + b.drop_first());
        }
        bytes_trichotomy(a.drop_first(), a.drop_first());
    } else {
        bytes_trichotomy(a.drop_first(), a.drop_first());
    }
}

proof fn bytes_transitive(a: Seq<u8>, b: Seq<u8>, c: Seq<u8>)
    requires
        !bytes_before(b, a),
        !bytes_before(c, b),
    ensures
        !bytes_before(c, a),
    decreases a.len(),
{
    if a.len() > 0 && b.len() > 0 && c.len() > 0 {
        if a[0] == b[0] && b[0] == c[0] {
            bytes_transitive(a.drop_first(), b.drop_first(), c.drop_first());
        }
    }
}

/// Names with the same bytes are the same.
proof fn encoding_is_injective(a: Seq<char>, b: Seq<char>)
    requires
        encode_utf8(a) == encode_utf8(b),
    ensures
        a == b,
{
    encode_utf8_decode_utf8(a);
    encode_utf8_decode_utf8(b);
}

proof fn in_order_is_total()
    ensures
        total_ordering(|a: DeviceEntry, b: DeviceEntry| in_order(a, b)),
{
    let leq = |a: DeviceEntry, b: DeviceEntry| in_order(a, b);
    assert forall|x: DeviceEntry| #[trigger] leq(x, x) by {
        bytes_trichotomy(encode_utf8(x.name), encode_utf8(x.name));
    }
    assert forall|x: DeviceEntry, y: DeviceEntry| #[trigger]
        leq(x, y) && #[trigger] leq(y, x) implies x == y by {
        bytes_trichotomy(encode_utf8(x.name), encode_utf8(y.name));
        encoding_is_injective(x.name, y.name);
    }
    assert forall|x: DeviceEntry, y: DeviceEntry, z: DeviceEntry| #[trigger]
        leq(x, y) && #[trigger] leq(y, z) implies leq(x, z) by {
        if x.is_default == y.is_default && y.is_default == z.is_default {
            bytes_transitive(encode_utf8(x.name), encode_utf8(y.name), encode_utf8(z.name));
        }
    }
    assert forall|x: DeviceEntry, y: DeviceEntry| #[trigger] leq(x, y) || #[trigger] leq(y, x) by {
        bytes_trichotomy(encode_utf8(x.name), encode_utf8(y.name));
    }
}

/// A device list is determined by which devices there are: the order in which the
/// host enumerates them does not matter.
pub proof fn device_list_is_determined(a: Seq<DeviceEntry>, b: Seq<DeviceEntry>)
    requires
        listed_in_order(a),
        listed_in_order(b),
        a.to_multiset() == b.to_multiset(),
    ensures
        a == b,
{
    in_order_is_total();
    lemma_sorted_unique(a, b, |x: DeviceEntry, y: DeviceEntry| in_order(x, y));
}

/// No other device stands before the default one: where any is marked, the first is.
pub proof fn default_device_is_listed_first(devices: Seq<DeviceEntry>, i: int)
    requires
        listed_in_order(devices),
        0 <= i < devices.len(),
        devices[i].is_default,
    ensures
        devices[0].is_default,
{
    let leq = |a: DeviceEntry, b: DeviceEntry| in_order(a, b);
    if i > 0 {
        assert(leq(devices[0], devices[i]));
    }
}

/// Compare two names by their UTF-8 bytes.
fn name_before(a: &String, b: &String) -> (before: bool)
    ensures
        before == bytes_before(encode_utf8(a@), encode_utf8(b@)),
{
    let left: &[u8] = a.as_str().as_bytes();
    let right: &[u8] = b.as_str().as_bytes();
    let mut i: usize = 0;
    assert(left@.skip(0) =~= left@);
    assert(right@.skip(0) =~= right@);
    while i < left.len() && i < right.len()
        invariant
            i <= left@.len(),
            i <= right@.len(),
            left@ == encode_utf8(a@),
            right@ == encode_utf8(b@),
            bytes_before(left@, right@) == bytes_before(
                left@.skip(i as int),
                right@.skip(i as int),
            ),
        decreases left@.len() - i,
    {
        assert(left@.skip(i as int)[0] == left@[i as int]);
        assert(right@.skip(i as int)[0] == right@[i as int]);
        assert(left@.skip(i as int).drop_first() =~= left@.skip(i + 1));
        assert(right@.skip(i as int).drop_first() =~= right@.skip(i + 1));
        if left[i] != right[i] {
            return left[i] < right[i];
        }
        i = i + 1;
    }
    i < right.len()
}

/// Whether `a` may stand before `b`.
fn may_precede(a: &AudioOutputDevice, b: &AudioOutputDevice) -> (ok: bool)
    ensures
        ok == in_order(a@, b@),
{
    if a.is_default != b.is_default {
        a.is_default
    } else {
        !name_before(&b.name, &a.name)
    }
}

proof fn insert_adds_one(s: Seq<DeviceEntry>, at: int, entry: DeviceEntry)
    requires
        0 <= at <= s.len(),
    ensures
        s.insert(at, entry).to_multiset() == s.to_multiset().insert(entry),
{
    let t = s.insert(at, entry);
    t.to_multiset_ensures();
    s.to_multiset_ensures();
    assert(t[at] == entry);
    assert(t.remove(at) =~= s);
    assert(t.contains(entry));
    assert(t.to_multiset() =~= t.to_multiset().remove(entry).insert(entry));
}

/// Put a device where it belongs in a sorted list.
fn insert_in_order(devices: &mut Vec<AudioOutputDevice>, device: AudioOutputDevice)
    requires
        listed_in_order(devices_view(old(devices)@)),
    ensures
        listed_in_order(devices_view(final(devices)@)),
        devices_view(final(devices)@).to_multiset() == devices_view(
            old(devices)@,
        ).to_multiset().insert(device@),
{
    let ghost before: Seq<DeviceEntry> = devices_view(devices@);
    let mut at: usize = 0;
    while at < devices.len() && may_precede(&devices[at], &device)
        invariant
            at <= devices@.len(),
            before == devices_view(devices@),
            forall|k: int| 0 <= k < at ==> in_order(#[trigger] before[k], device@),
        decreases devices@.len() - at,
    {
        at = at + 1;
    }
    let ghost entry: DeviceEntry = device@;
    assert(at < before.len() ==> !in_order(before[at as int], entry));
    devices.insert(at, device);
    proof {
        let after = devices_view(devices@);
        let leq = |a: DeviceEntry, b: DeviceEntry| in_order(a, b);
        assert(after =~= before.insert(at as int, entry));
        insert_adds_one(before, at as int, entry);
        in_order_is_total();
        assert forall|i: int, j: int| 0 <= i < j < after.len() implies #[trigger] leq(
            after[i],
            after[j],
        ) by {
            if at < before.len() {
                assert(leq(before[at as int], entry) || leq(entry, before[at as int]));
            }
            if i < at {
                assert(after[i] == before[i]);
                if j < at {
                    assert(leq(before[i], before[j]));
                } else if j > at {
                    assert(leq(before[i], before[j - 1]));
                }
            } else if i == at {
                if j - 1 > at {
                    assert(leq(before[at as int], before[j - 1]));
                    assert(leq(entry, before[at as int]));
                }
            } else {
                assert(leq(before[i - 1], before[j - 1]));
            }
        }
    }
}

/// List output devices: the default first, then by name.
///
/// `names` is what the host enumerates, `None` when it cannot.
pub fn list_output_devices(default_name: &Option<String>, names: &Option<Vec<String>>) -> (out: Vec<
    AudioOutputDevice,
>)
    ensures
        listed_in_order(devices_view(out@)),
        devices_view(out@).to_multiset() == match names {
            Some(listed) => marked(
                names_view(listed@),
                crate::output::name_view(*default_name),
            ).to_multiset(),
            None => Seq::<DeviceEntry>::empty().to_multiset(),
        },
{
    let mut out: Vec<AudioOutputDevice> = Vec::new();
    assert(devices_view(out@) =~= Seq::<DeviceEntry>::empty());
    match names {
        None => {},
        Some(listed) => {
            let ghost entries: Seq<DeviceEntry> = marked(
                names_view(listed@),
                crate::output::name_view(*default_name),
            );
            let mut i: usize = 0;
            assert(entries.take(0) =~= Seq::<DeviceEntry>::empty());
            while i < listed.len()
                invariant
                    i <= listed@.len(),
                    entries == marked(
                        names_view(listed@),
                        crate::output::name_view(*default_name),
                    ),
                    listed_in_order(devices_view(out@)),
                    devices_view(out@).to_multiset() == entries.take(i as int).to_multiset(),
                decreases listed@.len() - i,
            {
                let is_default: bool = match default_name {
                    Some(wanted) => *wanted == listed[i],
                    None => false,
                };
                let device: AudioOutputDevice = AudioOutputDevice {
                    name: listed[i].clone(),
                    is_default,
                };
                proof {
                    assert(entries[i as int] == device@);
                    entries.take(i as int).to_multiset_ensures();
                    assert(entries.take(i + 1) =~= entries.take(i as int).push(device@));
                }
                insert_in_order(&mut out, device);
                i = i + 1;
            }
            assert(entries.take(entries.len() as int) =~= entries);
        },
    }
    out
}

/// The error for a host without a default output.
pub open spec fn no_default_error() -> Seq<char> {
    "no default output device"@
}

/// The first place of a name in a listing.
pub open spec fn first_place(names: Seq<Seq<char>>, wanted: Seq<char>, place: int) -> bool {
    &&& 0 <= place < names.len()
    &&& names[place] == wanted
    &&& forall|k: int| 0 <= k < place ==> #[trigger] names[k] != wanted
}

/// Decide which device to open: the first with the wanted name, or the host default
/// when none is wanted or the wanted one is gone.
///
/// `listing` is what the host enumerates, or its error; it is read only when a name
/// is wanted. `has_default` tells whether the host has a default output.
pub fn resolve_device(
    wanted: &Option<String>,
    listing: &Result<Vec<String>, String>,
    has_default: bool,
) -> (choice: Result<DeviceChoice, String>)
    ensures
        match choice {
            Ok(DeviceChoice::Listed(place)) => {
                &&& wanted matches Some(name)
                &&& listing matches Ok(names)
                &&& first_place(names_view(names@), name@, place as int)
            },
            Ok(DeviceChoice::HostDefault) => {
                &&& has_default
                &&& wanted matches Some(name) ==> listing matches Ok(names) && !names_view(
                    names@,
                ).contains(name@)
            },
            Err(error) => {
                ||| {
                    &&& wanted is Some
                    &&& listing matches Err(reason)
                    &&& error@ == reason@
                }
                ||| {
                    &&& !has_default
                    &&& wanted matches Some(name) ==> listing matches Ok(names) && !names_view(
                        names@,
                    ).contains(name@)
                    &&& error@ == no_default_error()
                    &&& error@ == "no default output device"@
                }
            },
        },
{
    if let Some(name) = wanted {
        match listing {
            Err(reason) => {
                return Err(reason.clone());
            },
            Ok(names) => {
                let mut place: usize = 0;
                while place < names.len()
                    invariant
                        place <= names@.len(),
                        forall|k: int| 0 <= k < place ==> #[trigger] names_view(names@)[k] != name@,
                        *wanted == Some(*name),
                        *listing == Ok::<Vec<String>, String>(*names),
                    decreases names@.len() - place,
                {
                    assert(names_view(names@)[place as int] == names@[place as int]@);
                    if names[place] == *name {
                        return Ok(DeviceChoice::Listed(place));
                    }
                    place = place + 1;
                }
            },
        }
    }
    if has_default {
        Ok(DeviceChoice::HostDefault)
    } else {
        Err("no default output device".to_owned())
    }
}

/// Byte strings are compared at the first place where they differ; where one of them ends
/// before that, the shorter one comes first.
pub proof fn bytes_are_compared_where_they_differ(a: Seq<u8>, b: Seq<u8>, at: int)
    requires
        0 <= at <= a.len(),
        at <= b.len(),
        a.take(at) == b.take(at),
    ensures
        at < a.len() && at < b.len() && a[at] < b[at] ==> bytes_before(a, b) && !bytes_before(b, a),
        at == a.len() && at < b.len() ==> bytes_before(a, b) && !bytes_before(b, a),
        at == a.len() && at == b.len() ==> !bytes_before(a, b),
    decreases at,
{
    if at > 0 {
        let x = a.drop_first();
        let y = b.drop_first();
        assert(a[0] == b[0]) by {
            assert(a.take(at)[0] == a[0]);
            assert(b.take(at)[0] == b[0]);
        }
        assert(x.take(at - 1) =~= a.take(at).drop_first());
        assert(y.take(at - 1) =~= b.take(at).drop_first());
        bytes_are_compared_where_they_differ(x, y, at - 1);
    }
}

/// The default device may stand before any other and no other before it; among the rest,
/// and among defaults, names go by their bytes.
pub proof fn defaults_then_names_in_byte_order(a: DeviceEntry, b: DeviceEntry)
    ensures
        a.is_default && !b.is_default ==> in_order(a, b) && !in_order(b, a),
        a.is_default == b.is_default ==> (in_order(a, b) <==> !bytes_before(
            encode_utf8(b.name),
            encode_utf8(a.name),
        )),
{
}

/// A device list has an entry for each name that the host gives, and no other, with the
/// default's name marked wherever it stands and no other name. Marked entries come before
/// the others, and names go by their bytes within each.
pub proof fn device_list_is_the_hosts_listing(
    names: Seq<Seq<char>>,
    default_name: Option<Seq<char>>,
    devices: Seq<DeviceEntry>,
    i: int,
    j: int,
    k: int,
)
    requires
        listed_in_order(devices),
        devices.to_multiset() == marked(names, default_name).to_multiset(),
        0 <= i < j < devices.len(),
        0 <= k < names.len(),
    ensures
        devices.len() == names.len(),
        names.contains(devices[i].name),
        names.contains(devices[j].name),
        exists|d: int| 0 <= d < devices.len() && (#[trigger] devices[d]).name == names[k],
        devices[i].is_default <==> default_name == Some(devices[i].name),
        devices[j].is_default <==> default_name == Some(devices[j].name),
        devices[j].is_default ==> devices[i].is_default,
        devices[i].is_default == devices[j].is_default ==> !bytes_before(
            encode_utf8(devices[j].name),
            encode_utf8(devices[i].name),
        ),
{
    let entries = marked(names, default_name);
    let leq = |a: DeviceEntry, b: DeviceEntry| in_order(a, b);
    devices.to_multiset_ensures();
    entries.to_multiset_ensures();
    assert(leq(devices[i], devices[j]));
    assert(devices.contains(devices[i]));
    assert(devices.contains(devices[j]));
    assert(entries.to_multiset().contains(devices[i]));
    assert(entries.to_multiset().contains(devices[j]));
    let p = choose|p: int| 0 <= p < entries.len() && entries[p] == devices[i];
    let q = choose|q: int| 0 <= q < entries.len() && entries[q] == devices[j];
    assert(names[p] == devices[i].name);
    assert(names[q] == devices[j].name);
    assert(entries.contains(entries[k]));
    assert(devices.to_multiset().contains(entries[k]));
}

/// The entries of a listing are its names, in order, and the default's name is marked.
pub proof fn listing_marks_the_default(
    names: Seq<Seq<char>>,
    default_name: Option<Seq<char>>,
    i: int,
)
    requires
        0 <= i < names.len(),
    ensures
        marked(names, default_name).len() == names.len(),
        marked(names, default_name)[i].name == names[i],
        marked(names, default_name)[i].is_default <==> default_name == Some(names[i]),
{
}

/// The place of a name in a listing holds that name, and no earlier place does; there is
/// one whenever the listing has the name.
pub proof fn first_place_is_the_earliest(names: Seq<Seq<char>>, wanted: Seq<char>, place: int)
    ensures
        first_place(names, wanted, place) ==> 0 <= place < names.len() && names[place] == wanted,
        first_place(names, wanted, place) ==> forall|k: int|
            0 <= k < names.len() && #[trigger] names[k] == wanted ==> place <= k,
        0 <= place < names.len() && names[place] == wanted ==> exists|p: int|
            p <= place && #[trigger] first_place(names, wanted, p),
    decreases place,
{
    if 0 <= place < names.len() && names[place] == wanted {
        if exists|k: int| 0 <= k < place && #[trigger] names[k] == wanted {
            let k = choose|k: int| 0 <= k < place && #[trigger] names[k] == wanted;
            first_place_is_the_earliest(names, wanted, k);
        } else {
            assert(first_place(names, wanted, place));
        }
    }
}

/// Lists of names and of devices stand for their entries, in order.
pub proof fn lists_are_viewed_in_order(
    names: Seq<String>,
    devices: Seq<AudioOutputDevice>,
    i: int,
)
    ensures
        names_view(names).len() == names.len(),
        0 <= i < names.len() ==> names_view(names)[i] == names[i]@,
        devices_view(devices).len() == devices.len(),
        0 <= i < devices.len() ==> devices_view(devices)[i].name == devices[i].name@,
        0 <= i < devices.len() ==> devices_view(devices)[i].is_default == devices[i].is_default,
{
}

} // verus!
