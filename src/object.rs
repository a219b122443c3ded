use vstd::prelude::*;

verus! {

/// Identity of a protocol object, as plain values: the client that owns it and
/// an object number that is unique among that client's live objects.
///
/// Two keys name the same object iff they are equal.
#[derive(Clone, Copy, Debug, PartialEq, Eq, Structural)]
pub struct ObjectKey {
    pub client: u64,
    pub id: u64,
}

impl ObjectKey {
    pub fn new(client: u64, id: u64) -> (r: ObjectKey)
        ensures
            r.client == client,
            r.id == id,
    {
        ObjectKey { client, id }
    }

    /// Whether both objects belong to the same client.
    pub fn same_client_as(&self, other: &ObjectKey) -> (r: bool)
        ensures
            r == (self.client == other.client),
    {
        self.client == other.client
    }
}

} // verus!
