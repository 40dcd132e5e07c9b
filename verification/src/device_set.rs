//! The devices that one discovery round has found: base addresses, each
//! once, in the order in which they were first announced.

use crate::text::{chars_of, copy_range, has_at, holds_at, same_text, string_of};
use vstd::prelude::*;

verus! {

/// How the address of a device service starts.
pub const SERVICE_SCHEME: &'static str = "http://";

/// How the address of a device service ends.
pub const SERVICE_PATH: &'static str = "/onvif/device_service";

/// The base address of the device behind a service address: the host of
/// `http://<host>/onvif/device_service`. The host is not empty and holds no
/// `/`. An address of another form names no device.
pub open spec fn base_address_of(x: Seq<char>) -> Option<Seq<char>> {
    let from = SERVICE_SCHEME@.len() as int;
    let to = x.len() - SERVICE_PATH@.len();
    if from < to && holds_at(x, 0, SERVICE_SCHEME@) && holds_at(x, to, SERVICE_PATH@) && !x.subrange(
        from,
        to,
    ).contains('/') {
        Some(x.subrange(from, to))
    } else {
        None
    }
}

/// Whether `c` stands in `v[from..to]`.
pub(crate) fn range_contains(v: &Vec<char>, from: usize, to: usize, c: char) -> (b: bool)
    requires
        from <= to <= v.len(),
    ensures
        b == v@.subrange(from as int, to as int).contains(c),
{
    let mut i: usize = from;
    while i < to
        invariant
            from <= i <= to <= v.len(),
            forall|k: int| from <= k < i ==> v@[k] != c,
        decreases to - i,
    {
        if v[i] == c {
            assert(v@.subrange(from as int, to as int)[i - from] == c);
            return true;
        }
        i += 1;
    }
    assert forall|k: int| 0 <= k < to - from implies v@.subrange(from as int, to as int)[k] != c by {
        assert(v@.subrange(from as int, to as int)[k] == v@[from + k]);
    }
    false
}

/// The base address of the device behind a service address, if the address
/// has the form of one.
pub fn device_base_address(xaddr: &str) -> (r: Option<String>)
    ensures
        match r {
            Some(host) => base_address_of(xaddr@) == Some(host@),
            None => base_address_of(xaddr@) is None,
        },
{
    let x = chars_of(xaddr);
    let scheme = chars_of(SERVICE_SCHEME);
    let path = chars_of(SERVICE_PATH);
    if x.len() < path.len() {
        return None;
    }
    let from = scheme.len();
    let to = x.len() - path.len();
    if from < to && has_at(&x, 0, &scheme) && has_at(&x, to, &path) && !range_contains(
        &x,
        from,
        to,
        '/',
    ) {
        let host = copy_range(&x, from, to);
        Some(string_of(&host))
    } else {
        None
    }
}

/// `set` with `address`, which is added behind the others unless it is
/// there already.
pub open spec fn inserted(set: Seq<Seq<char>>, address: Seq<char>) -> Seq<Seq<char>> {
    if set.contains(address) {
        set
    } else {
        set.push(address)
    }
}

/// `set` with the devices behind the service addresses `uris` from `k` on.
/// An address that names no device is passed over.
pub open spec fn merged(set: Seq<Seq<char>>, uris: Seq<Seq<char>>, k: int) -> Seq<Seq<char>>
    decreases uris.len() - k,
{
    if k < 0 || k >= uris.len() {
        set
    } else {
        match base_address_of(uris[k]) {
            Some(host) => merged(inserted(set, host), uris, k + 1),
            None => merged(set, uris, k + 1),
        }
    }
}

/// Adding an address keeps a sequence free of duplicates.
pub proof fn lemma_inserted_no_duplicates(set: Seq<Seq<char>>, address: Seq<char>)
    requires
        set.no_duplicates(),
    ensures
        inserted(set, address).no_duplicates(),
        inserted(set, address).contains(address),
        forall|a: Seq<char>| set.contains(a) ==> inserted(set, address).contains(a),
        forall|a: Seq<char>| inserted(set, address).contains(a) ==> set.contains(a) || a == address,
{
    let r = inserted(set, address);
    if !set.contains(address) {
        assert(r[r.len() - 1] == address);
        assert forall|a: Seq<char>| set.contains(a) implies r.contains(a) by {
            let k = choose|k: int| 0 <= k < set.len() && set[k] == a;
            assert(r[k] == a);
        }
    }
}

/// Whether one of the service addresses from `k` on names the device
/// `address`.
pub open spec fn announces(uris: Seq<Seq<char>>, k: int, address: Seq<char>) -> bool {
    exists|j: int| k <= j < uris.len() && #[trigger] base_address_of(uris[j]) == Some(address)
}

/// Merging keeps a set a set: no device comes to stand in it twice,
/// however often it is announced.
pub proof fn lemma_merged_no_duplicates(set: Seq<Seq<char>>, uris: Seq<Seq<char>>, k: int)
    requires
        set.no_duplicates(),
    ensures
        merged(set, uris, k).no_duplicates(),
    decreases uris.len() - k,
{
    if 0 <= k < uris.len() {
        match base_address_of(uris[k]) {
            Some(host) => {
                lemma_inserted_no_duplicates(set, host);
                lemma_merged_no_duplicates(inserted(set, host), uris, k + 1);
            },
            None => {
                lemma_merged_no_duplicates(set, uris, k + 1);
            },
        }
    }
}

/// After merging, the set holds the devices that it held and those that
/// the service addresses name, and no others.
pub proof fn lemma_merged_contains(
    set: Seq<Seq<char>>,
    uris: Seq<Seq<char>>,
    k: int,
    address: Seq<char>,
)
    requires
        set.no_duplicates(),
        0 <= k,
    ensures
        merged(set, uris, k).contains(address) <==> set.contains(address) || announces(
            uris,
            k,
            address,
        ),
    decreases uris.len() - k,
{
    if k < uris.len() {
        match base_address_of(uris[k]) {
            Some(host) => {
                lemma_inserted_no_duplicates(set, host);
                lemma_merged_contains(inserted(set, host), uris, k + 1, address);
                if announces(uris, k + 1, address) {
                    let j = choose|j: int|
                        k + 1 <= j < uris.len() && #[trigger] base_address_of(uris[j]) == Some(
                            address,
                        );
                    assert(k <= j && base_address_of(uris[j]) == Some(address));
                }
                if host == address {
                    assert(base_address_of(uris[k]) == Some(address));
                }
                if announces(uris, k, address) && host != address {
                    let j = choose|j: int|
                        k <= j < uris.len() && #[trigger] base_address_of(uris[j]) == Some(
                            address,
                        );
                    assert(j != k);
                    assert(k + 1 <= j && base_address_of(uris[j]) == Some(address));
                }
            },
            None => {
                lemma_merged_contains(set, uris, k + 1, address);
                if announces(uris, k + 1, address) {
                    let j = choose|j: int|
                        k + 1 <= j < uris.len() && #[trigger] base_address_of(uris[j]) == Some(
                            address,
                        );
                    assert(k <= j && base_address_of(uris[j]) == Some(address));
                }
                if announces(uris, k, address) {
                    let j = choose|j: int|
                        k <= j < uris.len() && #[trigger] base_address_of(uris[j]) == Some(
                            address,
                        );
                    assert(j != k);
                    assert(k + 1 <= j && base_address_of(uris[j]) == Some(address));
                }
            },
        }
    }
}

/// A set of device base addresses.
pub struct DeviceSet {
    items: Vec<String>,
}

impl View for DeviceSet {
    type V = Seq<Seq<char>>;

    closed spec fn view(&self) -> Seq<Seq<char>> {
        self.items.deep_view()
    }
}

impl DeviceSet {
    #[verifier::type_invariant]
    spec fn unique(&self) -> bool {
        self.items.deep_view().no_duplicates()
    }

    /// The empty set.
    pub fn new() -> (r: DeviceSet)
        ensures
            r@ == Seq::<Seq<char>>::empty(),
    {
        let items: Vec<String> = Vec::new();
        assert(items.deep_view() =~= Seq::<Seq<char>>::empty());
        DeviceSet { items }
    }

    /// The number of devices.
    pub fn len(&self) -> (n: usize)
        ensures
            n == self@.len(),
    {
        self.items.len()
    }

    /// Whether the set holds no device.
    pub fn is_empty(&self) -> (b: bool)
        ensures
            b == (self@.len() == 0),
    {
        self.items.len() == 0
    }

    /// Whether `address` is in the set.
    pub fn contains(&self, address: &str) -> (b: bool)
        ensures
            b == self@.contains(address@),
    {
        let mut i: usize = 0;
        while i < self.items.len()
            invariant
                i <= self.items.len(),
                forall|k: int| 0 <= k < i ==> self@[k] != address@,
            decreases self.items.len() - i,
        {
            assert(self@[i as int] == self.items@[i as int]@);
            if same_text(self.items[i].as_str(), address) {
                return true;
            }
            i += 1;
        }
        false
    }

    /// Adds `address` unless the set holds it already.
    pub fn insert(&mut self, address: String)
        ensures
            final(self)@ == inserted(old(self)@, address@),
            final(self)@.no_duplicates(),
    {
        proof {
            use_type_invariant(&*self);
            lemma_inserted_no_duplicates(self@, address@);
        }
        if !self.contains(address.as_str()) {
            let ghost before = self.items.deep_view();
            let mut items: Vec<String> = Vec::new();
            assert(items.deep_view() =~= Seq::<Seq<char>>::empty());
            std::mem::swap(&mut items, &mut self.items);
            items.push(address);
            assert(items.deep_view() =~= before.push(address@));
            self.items = items;
        }
    }

    /// Adds the devices behind the service addresses `uris`.
    pub fn merge(&mut self, uris: &Vec<String>)
        ensures
            final(self)@ == merged(old(self)@, uris.deep_view(), 0),
    {
        let mut k: usize = 0;
        while k < uris.len()
            invariant
                k <= uris.len(),
                merged(self@, uris.deep_view(), k as int) == merged(old(self)@, uris.deep_view(), 0),
            decreases uris.len() - k,
        {
            assert(uris.deep_view()[k as int] == uris@[k as int]@);
            match device_base_address(uris[k].as_str()) {
                Some(host) => {
                    self.insert(host);
                },
                None => {},
            }
            k += 1;
        }
    }

    /// The addresses, in the order in which they were first announced. None
    /// occurs twice.
    pub fn to_vec(&self) -> (r: Vec<String>)
        ensures
            r.deep_view() == self@,
            r.deep_view().no_duplicates(),
    {
        proof {
            use_type_invariant(self);
        }
        let mut r: Vec<String> = Vec::new();
        let mut i: usize = 0;
        while i < self.items.len()
            invariant
                i <= self.items.len(),
                r.len() == i,
                forall|k: int| 0 <= k < i ==> (#[trigger] r@[k])@ == self.items@[k]@,
            decreases self.items.len() - i,
        {
            r.push(self.items[i].clone());
            i += 1;
        }
        assert(r.deep_view() =~= self.items.deep_view());
        r
    }
}

} // verus!
