use vstd::prelude::*;

use std::any::TypeId;

verus! {

/// `std::any::TypeId`, the identity of a message type.
#[verifier::external_type_specification]
#[verifier::external_body]
pub struct ExTypeId(TypeId);

/// Relies on `TypeId::of`: a value that identifies the type `T`.
pub assume_specification<T: ?Sized + 'static>[ TypeId::of::<T> ]() -> TypeId;

/// Relies on `TypeId`'s `==`: two type ids compare equal exactly when they are the same id.
pub assume_specification[ <TypeId as PartialEq>::eq ](a: &TypeId, b: &TypeId) -> (r: bool)
    ensures
        r == (*a == *b),
;

/// The messages that a protocol can carry.
pub trait MessageProtocol: Clone {

}

/// The wire tag of an application message type, taken from the type's identity.
#[derive(Clone, Copy, Debug, Hash)]
pub struct MessageKind(pub TypeId);

impl PartialEq for MessageKind {
    fn eq(&self, other: &MessageKind) -> (r: bool) {
        self.0 == other.0
    }
}

impl vstd::std_specs::cmp::PartialEqSpecImpl for MessageKind {
    open spec fn obeys_eq_spec() -> bool {
        true
    }

    open spec fn eq_spec(&self, other: &MessageKind) -> bool {
        self.0 == other.0
    }
}

impl Eq for MessageKind {

}

impl MessageKind {
    pub fn of<M: 'static>() -> (r: MessageKind) {
        MessageKind(TypeId::of::<M>())
    }

}

impl From<TypeId> for MessageKind {
    fn from(type_id: TypeId) -> (r: MessageKind) {
        MessageKind(type_id)
    }
}

impl vstd::std_specs::convert::FromSpecImpl<TypeId> for MessageKind {
    open spec fn obeys_from_spec() -> bool {
        true
    }

    open spec fn from_spec(type_id: TypeId) -> MessageKind {
        MessageKind(type_id)
    }
}

/// Refusals of the message registry.
#[derive(Clone, Copy, Debug, PartialEq, Eq, Structural)]
pub enum RegistryError {
    /// The registry was sealed; it takes no more types.
    AlreadyBuilt,
    /// The type has a tag already.
    AlreadyRegistered,
    /// Every 16-bit tag is taken.
    Full,
}

/// Registering `kind` into the tags `o` of a registry (sealed when `built`) gives the
/// tags `n` and the answer `r`.
pub open spec fn registry_added(
    o: Seq<MessageKind>,
    built: bool,
    n: Seq<MessageKind>,
    kind: MessageKind,
    r: Result<u16, RegistryError>,
) -> bool {
    let fresh = forall|i: int| 0 <= i < o.len() ==> (#[trigger] o[i]).0 != kind.0;
    &&& built ==> r == Err::<u16, RegistryError>(RegistryError::AlreadyBuilt) && n == o
    &&& (!built && !fresh) ==> r == Err::<u16, RegistryError>(RegistryError::AlreadyRegistered) && n == o
    &&& (!built && fresh && o.len() < 65536) ==> r == Ok::<u16, RegistryError>(o.len() as u16) && n == o.push(kind)
    &&& (!built && fresh && o.len() >= 65536) ==> r == Err::<u16, RegistryError>(RegistryError::Full) && n == o
}

/// Gives each registered message type a small tag, its position of registration. Types
/// can be added until the registry is built, and never after.
#[derive(Clone)]
pub struct MessageRegistry {
    pub kinds: Vec<MessageKind>,
    pub built: bool,
}

impl MessageRegistry {
    pub open spec fn wf(&self) -> bool {
        &&& self.kinds@.len() <= 65536
        &&& forall|i: int, j: int| 0 <= i < j < self.kinds@.len() ==> (#[trigger] self.kinds@[i]).0 != (
        #[trigger] self.kinds@[j]).0
    }

    pub fn new() -> (r: MessageRegistry)
        ensures
            r.wf(),
            r.kinds@.len() == 0,
            !r.built,
    {
        MessageRegistry { kinds: Vec::new(), built: false }
    }

    /// Whether the registry is sealed.
    pub fn is_built(&self) -> (r: bool)
        ensures
            r == self.built,
    {
        self.built
    }

    /// Seals the registry.
    pub fn build(&mut self)
        ensures
            final(self).built,
            final(self).kinds@ == old(self).kinds@,
    {
        self.built = true;
    }

    /// The tag of `kind`, if it is registered.
    pub fn net_id(&self, kind: &MessageKind) -> (r: Option<u16>)
        requires
            self.wf(),
        ensures
            match r {
                Some(i) => (i as int) < self.kinds@.len() && self.kinds@[i as int].0 == kind.0,
                None => forall|i: int| 0 <= i < self.kinds@.len() ==> (#[trigger] self.kinds@[i]).0 != kind.0,
            },
    {
        let mut i: usize = 0;
        while i < self.kinds.len()
            invariant
                i <= self.kinds@.len() <= 65536,
                forall|j: int| 0 <= j < i ==> (#[trigger] self.kinds@[j]).0 != kind.0,
            decreases self.kinds@.len() - i,
        {
            if self.kinds[i].0 == kind.0 {
                return Some(i as u16);
            }
            i = i + 1;
        }
        None
    }

    /// The kind registered under tag `net_id`, if any.
    pub fn kind(&self, net_id: u16) -> (r: Option<MessageKind>)
        ensures
            (net_id as int) < self.kinds@.len() ==> r == Some(self.kinds@[net_id as int]),
            (net_id as int) >= self.kinds@.len() ==> r is None,
    {
        if (net_id as usize) < self.kinds.len() {
            Some(self.kinds[net_id as usize])
        } else {
            None
        }
    }

    /// Registers `kind` under the next tag.
    pub fn add_kind(&mut self, kind: MessageKind) -> (r: Result<u16, RegistryError>)
        requires
            old(self).wf(),
        ensures
            final(self).wf(),
            final(self).built == old(self).built,
            registry_added(old(self).kinds@, old(self).built, final(self).kinds@, kind, r),
    {
        if self.built {
            return Err(RegistryError::AlreadyBuilt);
        }
        if self.net_id(&kind).is_some() {
            return Err(RegistryError::AlreadyRegistered);
        }
        if self.kinds.len() >= 65536 {
            return Err(RegistryError::Full);
        }
        let n = self.kinds.len() as u16;
        self.kinds.push(kind);
        Ok(n)
    }

    /// Registers the message type `M`.
    pub fn add<M: 'static>(&mut self) -> (r: Result<u16, RegistryError>)
        requires
            old(self).wf(),
        ensures
            final(self).wf(),
            final(self).built == old(self).built,
            exists|kind: MessageKind| registry_added(old(self).kinds@, old(self).built, final(self).kinds@, kind, r),
    {
        let kind = MessageKind::of::<M>();
        let r = self.add_kind(kind);
        assert(registry_added(old(self).kinds@, old(self).built, self.kinds@, kind, r));
        r
    }
}

} // verus!
