//! The association registry: the table that ties wrapper identities to the
//! data handles they expose, and the sole path by which a reference finds
//! the bytes it points into.

use crate::composite::{element_offset, lemma_array_layout};
use crate::convert::{canonical, decoded, encoded, lemma_conversion_roundtrip};
use crate::descriptor::NativeType;
use crate::encoding::{overwrite, ByteOrder};
use crate::error::{AccessError, HandleError};
use crate::handle::{
    element_handle, field_handle, part_handle, DataHandle, FfiRef, HandleView, ShapeView,
};
use crate::layout::lemma_struct_layout;
use crate::memory::RawAddress;
use crate::value::{result_view, ScriptValue, ValueView};
use std::collections::HashMap;
use vstd::prelude::*;

verus! {

/// What a wrapper depends on besides its handle.
#[derive(Debug)]
pub enum Metadata {
    /// Nothing.
    Plain,
    /// The identity of the wrapper whose handle this one was derived from.
    Inner(u64),
    /// The member types of a composite wrapper, in declaration order.
    Members(Vec<NativeType>),
}

/// Metadata as a mathematical value.
pub enum MetadataView {
    /// Nothing.
    Plain,
    /// The identity of the wrapper whose handle this one was derived from.
    Inner { handle: u64 },
    /// The member types of a composite wrapper, in declaration order.
    Members { types: Seq<NativeType> },
}

impl View for Metadata {
    type V = MetadataView;

    open spec fn view(&self) -> MetadataView {
        match self {
            Metadata::Plain => MetadataView::Plain,
            Metadata::Inner(id) => MetadataView::Inner { handle: *id },
            Metadata::Members(types) => MetadataView::Members { types: types@ },
        }
    }
}

/// What the registry keeps for one wrapper.
#[derive(Debug)]
pub struct Entry {
    /// The data handle that the wrapper exposes.
    pub handle: DataHandle,
    /// What else the wrapper depends on.
    pub metadata: Metadata,
}

/// An entry as a mathematical value.
pub struct EntryView {
    /// The data handle that the wrapper exposes.
    pub handle: HandleView,
    /// What else the wrapper depends on.
    pub metadata: MetadataView,
}

impl View for Entry {
    type V = EntryView;

    open spec fn view(&self) -> EntryView {
        EntryView { handle: self.handle@, metadata: self.metadata@ }
    }
}

/// Where `len` bytes at `offset` of the region behind `through` lie.
///
/// The access must stay within the reference's own bound, where it has
/// one. Its target must be registered and must own bytes: a reference
/// whose target is gone, or is itself a reference, dangles. The access
/// must stay within the owner's bytes.
pub open spec fn locate_reference(
    entries: Map<u64, EntryView>,
    through: FfiRef,
    offset: nat,
    len: nat,
) -> Result<RawAddress, HandleError> {
    if through.length matches Some(bound) && offset + len > bound {
        Err(HandleError::OffsetOutOfBounds)
    } else if !entries.contains_key(through.target) {
        Err(HandleError::DanglingReference)
    } else {
        match entries[through.target].handle.bytes() {
            Some(bytes) => if through.offset + offset + len <= bytes.len() {
                Ok(
                    RawAddress {
                        region: through.target,
                        offset: (through.offset + offset) as usize,
                    },
                )
            } else {
                Err(HandleError::OffsetOutOfBounds)
            },
            None => Err(HandleError::DanglingReference),
        }
    }
}

/// Where `len` bytes at `offset` of the handle registered as `id` lie.
pub open spec fn locate(entries: Map<u64, EntryView>, id: u64, offset: nat, len: nat) -> Result<
    RawAddress,
    HandleError,
> {
    if !entries.contains_key(id) {
        Err(HandleError::DanglingReference)
    } else {
        match entries[id].handle.reference() {
            Some(through) => locate_reference(entries, through, offset, len),
            None => if offset + len <= entries[id].handle.bytes()->Some_0.len() {
                Ok(RawAddress { region: id, offset: offset as usize })
            } else {
                Err(HandleError::OffsetOutOfBounds)
            },
        }
    }
}

/// Whether `len` bytes at `address` lie within bytes that a registered
/// wrapper owns.
pub open spec fn valid_address(entries: Map<u64, EntryView>, address: RawAddress, len: nat) -> bool {
    &&& entries.contains_key(address.region)
    &&& entries[address.region].handle.bytes() matches Some(bytes)
    &&& address.offset + len <= bytes.len()
}

/// The registered bytes at `address`, `len` of them.
pub open spec fn bytes_at(entries: Map<u64, EntryView>, address: RawAddress, len: nat) -> Seq<u8> {
    entries[address.region].handle.bytes()->Some_0.subrange(
        address.offset as int,
        address.offset + len,
    )
}

/// The registry after `bytes` have been stored at `address`: the owner's
/// bytes are overwritten there, and nothing else changes.
pub open spec fn store_at(entries: Map<u64, EntryView>, address: RawAddress, bytes: Seq<u8>) -> Map<
    u64,
    EntryView,
> {
    let owner = entries[address.region];
    entries.insert(
        address.region,
        EntryView {
            handle: owner.handle.with_bytes(
                overwrite(owner.handle.bytes()->Some_0, address.offset as int, bytes),
            ),
            metadata: owner.metadata,
        },
    )
}

/// What loading a value of type `ty` from `address` yields.
pub open spec fn load_spec(
    entries: Map<u64, EntryView>,
    address: RawAddress,
    ty: NativeType,
    order: ByteOrder,
) -> Result<ValueView, AccessError> {
    if !entries.contains_key(address.region) {
        Err(AccessError::Handle(HandleError::DanglingReference))
    } else {
        match entries[address.region].handle.bytes() {
            Some(bytes) => if address.offset + ty.spec_size() <= bytes.len() {
                match decoded(ty, bytes_at(entries, address, ty.spec_size()), order) {
                    Ok(value) => Ok(value),
                    Err(e) => Err(AccessError::Conversion(e)),
                }
            } else {
                Err(AccessError::Handle(HandleError::OffsetOutOfBounds))
            },
            None => Err(AccessError::Handle(HandleError::DanglingReference)),
        }
    }
}

/// What storing `value` as a value of type `ty` at `address` yields, and
/// what the registry holds afterwards.
pub open spec fn store_spec(
    entries: Map<u64, EntryView>,
    address: RawAddress,
    ty: NativeType,
    value: ValueView,
    order: ByteOrder,
) -> (Result<(), AccessError>, Map<u64, EntryView>) {
    if !entries.contains_key(address.region) {
        (Err(AccessError::Handle(HandleError::DanglingReference)), entries)
    } else {
        match entries[address.region].handle.bytes() {
            Some(bytes) => if address.offset + ty.spec_size() <= bytes.len() {
                match encoded(ty, value, order) {
                    Ok(stored) => (Ok(()), store_at(entries, address, stored)),
                    Err(e) => (Err(AccessError::Conversion(e)), entries),
                }
            } else {
                (Err(AccessError::Handle(HandleError::OffsetOutOfBounds)), entries)
            },
            None => (Err(AccessError::Handle(HandleError::DanglingReference)), entries),
        }
    }
}

/// The reference to the region of the given length at `offset` of the
/// handle registered as `id`.
///
/// A region of owned bytes is referenced through `id`. A region of
/// borrowed bytes is referenced through the owner that the handle's own
/// reference names, and must lie within that reference's bound.
pub open spec fn derive_reference(
    entries: Map<u64, EntryView>,
    id: u64,
    offset: nat,
    length: Option<usize>,
) -> Result<FfiRef, HandleError> {
    if !entries.contains_key(id) {
        Err(HandleError::DanglingReference)
    } else {
        match entries[id].handle.reference() {
            None => if offset <= usize::MAX {
                Ok(FfiRef { target: id, offset: offset as usize, length })
            } else {
                Err(HandleError::OffsetOutOfBounds)
            },
            Some(through) => {
                let start = through.offset + offset;
                if start > usize::MAX {
                    Err(HandleError::OffsetOutOfBounds)
                } else {
                    match (through.length, length) {
                        (None, _) => Ok(
                            FfiRef { target: through.target, offset: start as usize, length },
                        ),
                        (Some(bound), None) => if offset <= bound {
                            Ok(
                                FfiRef {
                                    target: through.target,
                                    offset: start as usize,
                                    length: Some((bound - offset) as usize),
                                },
                            )
                        } else {
                            Err(HandleError::OffsetOutOfBounds)
                        },
                        (Some(bound), Some(n)) => if offset + n <= bound {
                            Ok(
                                FfiRef {
                                    target: through.target,
                                    offset: start as usize,
                                    length,
                                },
                            )
                        } else {
                            Err(HandleError::OffsetOutOfBounds)
                        },
                    }
                }
            },
        }
    }
}

/// Whether every registered reference whose target is registered points
/// at a wrapper that owns bytes, never at another reference.
pub open spec fn rooted(entries: Map<u64, EntryView>) -> bool {
    forall|id: u64| #[trigger]
        entries.contains_key(id) ==> (entries[id].handle.reference() matches Some(through)
            ==> entries.contains_key(through.target) ==> entries[through.target].handle.bytes()
            is Some)
}

/// Registering is idempotent: registering the same entry for the same
/// wrapper a second time changes nothing.
pub proof fn lemma_register_idempotent(entries: Map<u64, EntryView>, id: u64, entry: EntryView)
    ensures
        entries.insert(id, entry).insert(id, entry) == entries.insert(id, entry),
{
    assert(entries.insert(id, entry).insert(id, entry) =~= entries.insert(id, entry));
}

/// Dangling-reference law: once the wrapper that a reference points into
/// is unregistered, the reference no longer resolves. Within its own bound
/// the failure is reported as a dangling reference.
pub proof fn lemma_unregistered_target_dangles(
    entries: Map<u64, EntryView>,
    through: FfiRef,
    offset: nat,
    len: nat,
)
    ensures
        locate_reference(entries.remove(through.target), through, offset, len) is Err,
        (through.length matches Some(bound) ==> offset + len <= bound) ==> locate_reference(
            entries.remove(through.target),
            through,
            offset,
            len,
        ) == Err::<RawAddress, HandleError>(HandleError::DanglingReference),
{
}

/// A derived reference resolves to the place to which the handle it was
/// derived from resolves at the same distance.
pub proof fn lemma_derived_reference_resolves_alike(
    entries: Map<u64, EntryView>,
    id: u64,
    at: nat,
    length: Option<usize>,
    offset: nat,
    len: nat,
)
    requires
        derive_reference(entries, id, at, length) is Ok,
        length matches Some(n) ==> offset + len <= n,
        entries[id].handle.bytes() matches Some(bytes) ==> bytes.len() <= usize::MAX,
    ensures
        locate_reference(
            entries,
            derive_reference(entries, id, at, length)->Ok_0,
            offset,
            len,
        ) == locate(entries, id, at + offset, len),
{
}

/// Registering a derived reference under a fresh identity, one that no
/// entry has and no registered reference names, keeps the registry
/// rooted: references are collapsed when they are made, so that none ever
/// leads to another.
pub proof fn lemma_derived_reference_keeps_rooted(
    entries: Map<u64, EntryView>,
    id: u64,
    at: nat,
    length: Option<usize>,
    fresh: u64,
    metadata: MetadataView,
)
    requires
        rooted(entries),
        !entries.contains_key(fresh),
        forall|k: u64| #[trigger]
            entries.contains_key(k) ==> (entries[k].handle.reference() matches Some(through)
                ==> through.target != fresh),
        derive_reference(entries, id, at, length) is Ok,
    ensures
        rooted(
            entries.insert(
                fresh,
                EntryView {
                    handle: HandleView::Ref {
                        reference: derive_reference(entries, id, at, length)->Ok_0,
                    },
                    metadata,
                },
            ),
        ),
{
    let made = derive_reference(entries, id, at, length)->Ok_0;
    let after = entries.insert(
        fresh,
        EntryView { handle: HandleView::Ref { reference: made }, metadata },
    );
    assert(entries.contains_key(id));
    assert forall|k: u64| #[trigger] after.contains_key(k) implies (
    after[k].handle.reference() matches Some(through) ==> after.contains_key(through.target)
        ==> after[through.target].handle.bytes() is Some) by {
        if k != fresh {
            assert(entries.contains_key(k));
        }
    }
}

/// Parts of composite storage resolve. Where the storage registered as
/// `id` resolves as a whole, the handle of each part within the declared
/// count resolves to the part's place within it; an index beyond the
/// declared count has no handle.
pub proof fn lemma_part_handle_resolves(entries: Map<u64, EntryView>, id: u64, index: nat)
    requires
        entries.contains_key(id),
        entries[id].handle.well_formed(),
        entries[id].handle.shape() is Some,
        locate(entries, id, 0, entries[id].handle.shape()->Some_0.size()) is Ok,
        forall|k: u64| #[trigger]
            entries.contains_key(k) ==> entries[k].handle.well_formed(),
    ensures
        ({
            let handle = entries[id].handle;
            let shape = handle.shape()->Some_0;
            let base = locate(entries, id, 0, shape.size())->Ok_0;
            let size = shape.part_type(index as int).spec_size();
            &&& index >= shape.count() ==> part_handle(handle, id, index) == Err::<
                FfiRef,
                HandleError,
            >(HandleError::IndexOutOfRange)
            &&& index < shape.count() ==> part_handle(handle, id, index) is Ok
                && locate_reference(entries, part_handle(handle, id, index)->Ok_0, 0, size)
                == Ok::<RawAddress, HandleError>(
                RawAddress {
                    region: base.region,
                    offset: (base.offset + shape.part_offset(index as int)) as usize,
                },
            )
        }),
{
    let handle = entries[id].handle;
    let shape = handle.shape()->Some_0;
    if index < shape.count() {
        match shape {
            ShapeView::Struct { members } => {
                lemma_struct_layout(members, index as int);
            },
            ShapeView::Array { element, count } => {
                lemma_array_layout(element, count, index);
            },
        }
        let base = locate(entries, id, 0, shape.size())->Ok_0;
        assert(entries.contains_key(base.region));
    }
}

/// Elements of an array resolve: for storage of its own registered as
/// `id`, the handle of every element below the declared count resolves,
/// to the element's offset within the storage, and every other index is
/// out of range.
pub proof fn lemma_element_handle_resolves(entries: Map<u64, EntryView>, id: u64, index: nat)
    requires
        entries.contains_key(id),
        entries[id].handle.well_formed(),
        entries[id].handle matches HandleView::OwnedComposite {
            shape: ShapeView::Array { .. },
            ..
        },
    ensures
        ({
            let handle = entries[id].handle;
            let element = handle.shape()->Some_0->element;
            let count = handle.shape()->Some_0->count;
            &&& index >= count ==> element_handle(handle, id, index) == Err::<
                FfiRef,
                HandleError,
            >(HandleError::IndexOutOfRange)
            &&& index < count ==> element_handle(handle, id, index) is Ok && locate_reference(
                entries,
                element_handle(handle, id, index)->Ok_0,
                0,
                element.spec_size(),
            ) == Ok::<RawAddress, HandleError>(
                RawAddress {
                    region: id,
                    offset: element_offset(element, index) as usize,
                },
            )
        }),
{
    let handle = entries[id].handle;
    let element = handle.shape()->Some_0->element;
    let count = handle.shape()->Some_0->count;
    if index < count {
        lemma_array_layout(element, count, index);
    }
}

/// Round-trip law at a handle: a value that has been stored at an
/// address loads from that address again, in its canonical form.
pub proof fn lemma_store_then_load(
    entries: Map<u64, EntryView>,
    address: RawAddress,
    ty: NativeType,
    value: ValueView,
    order: ByteOrder,
)
    requires
        ty.well_formed(),
        store_spec(entries, address, ty, value, order).0 is Ok,
    ensures
        load_spec(store_spec(entries, address, ty, value, order).1, address, ty, order) == Ok::<
            ValueView,
            AccessError,
        >(canonical(ty, value)),
{
    let stored = encoded(ty, value, order)->Ok_0;
    let after = store_spec(entries, address, ty, value, order).1;
    let before = entries[address.region].handle.bytes()->Some_0;
    lemma_conversion_roundtrip(ty, value, order);
    assert(bytes_at(after, address, ty.spec_size()) =~= stored);
}

/// The table from wrapper identities to what each wrapper depends on.
pub struct Registry {
    entries: HashMap<u64, Entry>,
}

impl View for Registry {
    type V = Map<u64, EntryView>;

    /// The entries, each as a mathematical value.
    closed spec fn view(&self) -> Map<u64, EntryView> {
        Map::new(|id: u64| self.entries@.contains_key(id), |id: u64| self.entries@[id]@)
    }
}

impl Registry {
    /// A registry without entries.
    pub fn new() -> (r: Registry)
        ensures
            r@ == Map::<u64, EntryView>::empty(),
    {
        let r = Registry { entries: HashMap::new() };
        assert(r@ =~= Map::<u64, EntryView>::empty());
        r
    }

    /// Inserts the entry of the wrapper `id`, or replaces the one it has.
    pub fn register(&mut self, id: u64, handle: DataHandle, metadata: Metadata)
        ensures
            final(self)@ == old(self)@.insert(
                id,
                EntryView { handle: handle@, metadata: metadata@ },
            ),
    {
        broadcast use vstd::std_specs::hash::group_hash_axioms;

        let entry = Entry { handle, metadata };
        self.entries.insert(id, entry);
        assert(self@ =~= old(self)@.insert(id, entry@));
    }

    /// Removes the entry of the wrapper `id`. Every reference that points
    /// into its bytes dangles from then on.
    pub fn unregister(&mut self, id: u64)
        ensures
            final(self)@ == old(self)@.remove(id),
    {
        broadcast use vstd::std_specs::hash::group_hash_axioms;

        self.entries.remove(&id);
        assert(self@ =~= old(self)@.remove(id));
    }

    /// Number of entries.
    pub fn len(&self) -> (r: usize)
        ensures
            r == self@.len(),
    {
        broadcast use vstd::std_specs::hash::group_hash_axioms;

        assert(self@.dom() =~= self.entries@.dom());
        self.entries.len()
    }

    /// Whether the wrapper `id` has an entry.
    pub fn contains(&self, id: u64) -> (r: bool)
        ensures
            r == self@.contains_key(id),
    {
        broadcast use vstd::std_specs::hash::group_hash_axioms;

        self.entries.contains_key(&id)
    }

    /// The entry of the wrapper `id`, if it has one.
    pub fn resolve(&self, id: u64) -> (r: Option<&Entry>)
        ensures
            match r {
                Some(entry) => self@.contains_key(id) && entry@ == self@[id],
                None => !self@.contains_key(id),
            },
    {
        broadcast use vstd::std_specs::hash::group_hash_axioms;

        self.entries.get(&id)
    }

    /// Where `len` bytes at `offset` of the region behind `through` lie.
    pub fn locate_reference(&self, through: &FfiRef, offset: usize, len: usize) -> (r: Result<
        RawAddress,
        HandleError,
    >)
        ensures
            r == locate_reference(self@, *through, offset as nat, len as nat),
            r matches Ok(address) ==> valid_address(self@, address, len as nat),
    {
        match through.length {
            Some(bound) => {
                if offset > bound || len > bound - offset {
                    return Err(HandleError::OffsetOutOfBounds);
                }
            },
            None => {},
        }
        let target: &Entry = match self.resolve(through.target) {
            Some(entry) => entry,
            None => {
                return Err(HandleError::DanglingReference);
            },
        };
        let owned = match target.handle.storage() {
            Some(owned) => owned,
            None => {
                return Err(HandleError::DanglingReference);
            },
        };
        let size: usize = owned.size();
        if through.offset > size || offset > size - through.offset || len > size
            - through.offset - offset {
            Err(HandleError::OffsetOutOfBounds)
        } else {
            Ok(RawAddress { region: through.target, offset: through.offset + offset })
        }
    }

    /// Where `len` bytes at `offset` of the handle registered as `id`
    /// lie.
    pub fn locate(&self, id: u64, offset: usize, len: usize) -> (r: Result<
        RawAddress,
        HandleError,
    >)
        ensures
            r == locate(self@, id, offset as nat, len as nat),
            r matches Ok(address) ==> valid_address(self@, address, len as nat),
    {
        let entry: &Entry = match self.resolve(id) {
            Some(entry) => entry,
            None => {
                return Err(HandleError::DanglingReference);
            },
        };
        match entry.handle.reference() {
            Some(through) => self.locate_reference(&through, offset, len),
            None => match entry.handle.storage() {
                Some(owned) => if owned.check_boundary(offset, len) {
                    Ok(RawAddress { region: id, offset })
                } else {
                    Err(HandleError::OffsetOutOfBounds)
                },
                None => Err(HandleError::DanglingReference),
            },
        }
    }

    /// The address of byte `offset` of the handle registered as `id`.
    pub fn get_pointer(&self, id: u64, offset: usize) -> (r: Result<RawAddress, HandleError>)
        ensures
            r == locate(self@, id, offset as nat, 1),
    {
        self.locate(id, offset, 1)
    }

    /// Loads a value of type `ty` from `address`, which is checked anew.
    pub fn load(&self, address: RawAddress, ty: &NativeType, order: ByteOrder) -> (r: Result<
        ScriptValue,
        AccessError,
    >)
        ensures
            result_view(r) == load_spec(self@, address, *ty, order),
    {
        let owner: &Entry = match self.resolve(address.region) {
            Some(entry) => entry,
            None => {
                return Err(AccessError::Handle(HandleError::DanglingReference));
            },
        };
        let owned = match owner.handle.storage() {
            Some(owned) => owned,
            None => {
                return Err(AccessError::Handle(HandleError::DanglingReference));
            },
        };
        if !owned.check_boundary(address.offset, ty.size()) {
            return Err(AccessError::Handle(HandleError::OffsetOutOfBounds));
        }
        match ty.decode(owned, address.offset, order) {
            Ok(value) => Ok(value),
            Err(e) => Err(AccessError::Conversion(e)),
        }
    }

    /// Stores `value` as a value of type `ty` at `address`, which is
    /// checked anew. A refused value changes nothing.
    pub fn store(
        &mut self,
        address: RawAddress,
        ty: &NativeType,
        value: &ScriptValue,
        order: ByteOrder,
    ) -> (r: Result<(), AccessError>)
        ensures
            (r, final(self)@) == store_spec(old(self)@, address, *ty, value@, order),
    {
        broadcast use vstd::std_specs::hash::group_hash_axioms;

        let fits: bool = match self.resolve(address.region) {
            Some(owner) => match owner.handle.storage() {
                Some(owned) => owned.check_boundary(address.offset, ty.size()),
                None => {
                    return Err(AccessError::Handle(HandleError::DanglingReference));
                },
            },
            None => {
                return Err(AccessError::Handle(HandleError::DanglingReference));
            },
        };
        if !fits {
            return Err(AccessError::Handle(HandleError::OffsetOutOfBounds));
        }
        let Entry { handle, metadata } = match self.entries.remove(&address.region) {
            Some(entry) => entry,
            None => {
                return Err(AccessError::Handle(HandleError::DanglingReference));
            },
        };
        let (handle, r) = handle.encode_at(ty, address.offset, value, order);
        let entry = Entry { handle, metadata };
        self.entries.insert(address.region, entry);
        assert(self@ =~= old(self)@.insert(address.region, entry@));
        assert(old(self)@.insert(address.region, old(self)@[address.region]) =~= old(self)@);
        match r {
            Ok(()) => Ok(()),
            Err(e) => Err(AccessError::Conversion(e)),
        }
    }

    /// Reads a value of type `ty` at `offset` of the handle registered as
    /// `id`.
    pub fn read(&self, id: u64, offset: usize, ty: &NativeType, order: ByteOrder) -> (r: Result<
        ScriptValue,
        AccessError,
    >)
        ensures
            match locate(self@, id, offset as nat, ty.spec_size()) {
                Ok(address) => result_view(r) == load_spec(self@, address, *ty, order),
                Err(e) => r == Err::<ScriptValue, AccessError>(AccessError::Handle(e)),
            },
    {
        match self.locate(id, offset, ty.size()) {
            Ok(address) => self.load(address, ty, order),
            Err(e) => Err(AccessError::Handle(e)),
        }
    }

    /// Writes `value` as a value of type `ty` at `offset` of the handle
    /// registered as `id`.
    pub fn write(
        &mut self,
        id: u64,
        offset: usize,
        ty: &NativeType,
        value: &ScriptValue,
        order: ByteOrder,
    ) -> (r: Result<(), AccessError>)
        ensures
            match locate(old(self)@, id, offset as nat, ty.spec_size()) {
                Ok(address) => (r, final(self)@) == store_spec(
                    old(self)@,
                    address,
                    *ty,
                    value@,
                    order,
                ),
                Err(e) => r == Err::<(), AccessError>(AccessError::Handle(e)) && final(self)@
                    == old(self)@,
            },
    {
        match self.locate(id, offset, ty.size()) {
            Ok(address) => self.store(address, ty, value, order),
            Err(e) => Err(AccessError::Handle(e)),
        }
    }

    /// Makes the reference to the region of the given length at `offset`
    /// of the handle registered as `id`.
    pub fn reference(&self, id: u64, offset: usize, length: Option<usize>) -> (r: Result<
        FfiRef,
        HandleError,
    >)
        ensures
            r == derive_reference(self@, id, offset as nat, length),
    {
        let entry: &Entry = match self.resolve(id) {
            Some(entry) => entry,
            None => {
                return Err(HandleError::DanglingReference);
            },
        };
        let through: FfiRef = match entry.handle.reference() {
            Some(through) => through,
            None => {
                return Ok(FfiRef { target: id, offset, length });
            },
        };
        let start: usize = match through.offset.checked_add(offset) {
            Some(start) => start,
            None => {
                return Err(HandleError::OffsetOutOfBounds);
            },
        };
        let length: Option<usize> = match (through.length, length) {
            (None, _) => length,
            (Some(bound), None) => {
                if offset > bound {
                    return Err(HandleError::OffsetOutOfBounds);
                }
                Some(bound - offset)
            },
            (Some(bound), Some(n)) => {
                if offset > bound || n > bound - offset {
                    return Err(HandleError::OffsetOutOfBounds);
                }
                length
            },
        };
        Ok(FfiRef { target: through.target, offset: start, length })
    }

    /// The handle of field `index` of the struct registered as `id`.
    pub fn field_handle(&self, id: u64, index: usize) -> (r: Result<FfiRef, HandleError>)
        ensures
            self@.contains_key(id) ==> r == field_handle(self@[id].handle, id, index as nat),
            !self@.contains_key(id) ==> r == Err::<FfiRef, HandleError>(
                HandleError::DanglingReference,
            ),
    {
        match self.resolve(id) {
            Some(entry) => entry.handle.field_handle(id, index),
            None => Err(HandleError::DanglingReference),
        }
    }

    /// The handle of element `index` of the array registered as `id`.
    pub fn element_handle(&self, id: u64, index: usize) -> (r: Result<FfiRef, HandleError>)
        ensures
            self@.contains_key(id) ==> r == element_handle(self@[id].handle, id, index as nat),
            !self@.contains_key(id) ==> r == Err::<FfiRef, HandleError>(
                HandleError::DanglingReference,
            ),
    {
        match self.resolve(id) {
            Some(entry) => entry.handle.element_handle(id, index),
            None => Err(HandleError::DanglingReference),
        }
    }
}

} // verus!
