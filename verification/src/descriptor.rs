//! What is known of a device: the fields that the queries fill, each with
//! the status of the query that fills it.

use vstd::prelude::*;

verus! {

/// How far the query behind a field has come.
#[derive(Clone, Copy, Debug, PartialEq, Eq, Structural)]
pub enum Status {
    /// The query was not made yet.
    Pending,
    /// The query was answered: the field holds what the device said.
    Obtained,
    /// The query was made and failed.
    Failed,
    /// The query was not made, because what it needs is not known.
    Skipped,
}

/// The status of each query of a device.
#[derive(Clone, Copy, Debug, PartialEq, Eq, Structural)]
pub struct Statuses {
    pub services: Status,
    pub information: Status,
    pub interfaces: Status,
    pub hostname: Status,
    pub scopes: Status,
    pub profiles: Status,
    pub stream_uris: Status,
}

/// A media profile of a device.
#[derive(Debug)]
pub struct Profile {
    /// The token that names the profile.
    pub token: String,
    /// The address of the stream, once it is known.
    pub stream_uri: Option<String>,
    /// The status of the stream query for this profile.
    pub status: Status,
}

/// A profile as contracts see it.
pub struct ProfileView {
    pub token: Seq<char>,
    pub stream_uri: Option<Seq<char>>,
    pub status: Status,
}

/// What is known of a device.
#[derive(Debug)]
pub struct DeviceDescriptor {
    pub base_address: String,
    pub device_service_uri: Option<String>,
    pub media_service_uri: Option<String>,
    pub serial_number: Option<String>,
    pub mac_address: Option<String>,
    pub hostname: Option<String>,
    /// The fingerprint of the device; known once the hardware address is.
    pub fingerprint: Option<String>,
    pub scopes: Vec<String>,
    /// The profiles in the order in which the device listed them.
    pub profiles: Vec<Profile>,
    pub statuses: Statuses,
}

/// A descriptor as contracts see it.
pub struct DescriptorView {
    pub base_address: Seq<char>,
    pub device_service_uri: Option<Seq<char>>,
    pub media_service_uri: Option<Seq<char>>,
    pub serial_number: Option<Seq<char>>,
    pub mac_address: Option<Seq<char>>,
    pub hostname: Option<Seq<char>>,
    pub fingerprint: Option<Seq<char>>,
    pub scopes: Seq<Seq<char>>,
    pub profiles: Seq<ProfileView>,
    pub statuses: Statuses,
}

/// A text that may be absent, as contracts see it.
pub open spec fn text_view(o: Option<String>) -> Option<Seq<char>> {
    match o {
        Some(s) => Some(s@),
        None => None,
    }
}

/// Profiles as contracts see them.
pub open spec fn profile_views(profiles: Seq<Profile>) -> Seq<ProfileView> {
    Seq::new(profiles.len(), |k: int| profiles[k]@)
}

impl View for Profile {
    type V = ProfileView;

    open spec fn view(&self) -> ProfileView {
        ProfileView {
            token: self.token@,
            stream_uri: text_view(self.stream_uri),
            status: self.status,
        }
    }
}

impl View for DeviceDescriptor {
    type V = DescriptorView;

    open spec fn view(&self) -> DescriptorView {
        DescriptorView {
            base_address: self.base_address@,
            device_service_uri: text_view(self.device_service_uri),
            media_service_uri: text_view(self.media_service_uri),
            serial_number: text_view(self.serial_number),
            mac_address: text_view(self.mac_address),
            hostname: text_view(self.hostname),
            fingerprint: text_view(self.fingerprint),
            scopes: self.scopes.deep_view(),
            profiles: profile_views(self.profiles@),
            statuses: self.statuses,
        }
    }
}

/// The statuses before any query was made.
pub open spec fn all_pending() -> Statuses {
    Statuses {
        services: Status::Pending,
        information: Status::Pending,
        interfaces: Status::Pending,
        hostname: Status::Pending,
        scopes: Status::Pending,
        profiles: Status::Pending,
        stream_uris: Status::Pending,
    }
}

/// What is known of the device at `base_address` before any query.
pub open spec fn unknown_device(base_address: Seq<char>) -> DescriptorView {
    DescriptorView {
        base_address,
        device_service_uri: None,
        media_service_uri: None,
        serial_number: None,
        mac_address: None,
        hostname: None,
        fingerprint: None,
        scopes: Seq::empty(),
        profiles: Seq::empty(),
        statuses: all_pending(),
    }
}

/// The status of a query by its result.
pub open spec fn status_of<T>(result: Option<T>) -> Status {
    if result is Some {
        Status::Obtained
    } else {
        Status::Failed
    }
}

/// Whether the stream query of every profile has been made.
pub open spec fn all_settled(profiles: Seq<ProfileView>) -> bool {
    forall|k: int| 0 <= k < profiles.len() ==> (#[trigger] profiles[k]).status != Status::Pending
}

impl DeviceDescriptor {
    /// The descriptor of the device at `base_address` before any query.
    pub fn new(base_address: String) -> (r: DeviceDescriptor)
        ensures
            r@ == unknown_device(base_address@),
    {
        let r = DeviceDescriptor {
            base_address,
            device_service_uri: None,
            media_service_uri: None,
            serial_number: None,
            mac_address: None,
            hostname: None,
            fingerprint: None,
            scopes: Vec::new(),
            profiles: Vec::new(),
            statuses: Statuses {
                services: Status::Pending,
                information: Status::Pending,
                interfaces: Status::Pending,
                hostname: Status::Pending,
                scopes: Status::Pending,
                profiles: Status::Pending,
                stream_uris: Status::Pending,
            },
        };
        assert(r@.scopes =~= Seq::<Seq<char>>::empty());
        assert(r@.profiles =~= Seq::<ProfileView>::empty());
        r
    }

    /// Whether the stream query of every profile has been made.
    pub fn profiles_settled(&self) -> (b: bool)
        ensures
            b == all_settled(self@.profiles),
    {
        let mut k: usize = 0;
        while k < self.profiles.len()
            invariant
                k <= self.profiles.len(),
                forall|j: int| 0 <= j < k ==> (#[trigger] self@.profiles[j]).status != Status::Pending,
            decreases self.profiles.len() - k,
        {
            assert(self@.profiles[k as int] == self.profiles@[k as int]@);
            match self.profiles[k].status {
                Status::Pending => {
                    return false;
                },
                _ => {},
            }
            k += 1;
        }
        true
    }
}

} // verus!
