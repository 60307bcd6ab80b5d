//! Host components, the handles that name them, and the per-instance store of
//! their data.
//!
//! A host component is an interface that the host implements for its guests.
//! The registry keeps the components in the order of their registration; a
//! handle is the position of one of them. The data of the components of one
//! guest instance lies in a store with one slot per component, filled on first
//! use.

use std::any::Any;
use std::any::TypeId;
use std::marker::PhantomData;
use std::sync::Arc;
use vstd::prelude::*;

verus! {

/// The runtime identity of a kind of host component.
#[verifier::external_type_specification]
#[verifier::external_body]
pub struct ExTypeId(TypeId);

/// `TypeId::of`: the identity of the type `T`. Nothing is claimed of it.
pub assume_specification<T: ?Sized + 'static>[ TypeId::of::<T> ]() -> (identity: TypeId);

/// `==` of `TypeId`: whether two identities are the same.
#[verifier::external_body]
fn same_identity(a: &TypeId, b: &TypeId) -> (same: bool)
    ensures
        same == (*a == *b),
{
    a == b
}

/// The data of one host component, with its type erased.
#[verifier::external_body]
pub struct AnyData {
    inner: Box<dyn Any + Send>,
}

/// `Box::new`, with the box's content then seen as `dyn Any`: `value` with its
/// type erased. Nothing is claimed of the result.
#[verifier::external_body]
fn erase<T: Send + 'static>(value: T) -> (data: AnyData) {
    AnyData { inner: Box::new(value) }
}

/// `downcast_mut` of `dyn Any`: the content of `data` as a `T`, or `None` where
/// it is of another type. Claimed: where the result is `None`, `data` is as it
/// was. Nothing is claimed of which it is, nor of the content.
#[verifier::external_body]
fn downcast_mut<T: 'static>(data: &mut AnyData) -> (typed: Option<&mut T>)
    ensures
        typed.is_none() ==> *final(data) == *old(data),
{
    data.inner.downcast_mut()
}

/// The dispatch layer through which guests reach the host's interfaces.
pub trait Linker: Sized {
    /// Whether a binding of `interface` under `handle` may turn the dispatch
    /// layer `before` into `after` and return `bound`. A dispatch layer that
    /// says nothing of itself may do anything.
    open spec fn binds(
        before: Self,
        interface: Seq<char>,
        handle: AnyHostComponentDataHandle,
        after: Self,
        bound: Result<(), String>,
    ) -> bool {
        true
    }

    /// Makes the interface called `interface` available to guests, served by
    /// the host component that `handle` names.
    fn bind(&mut self, interface: &str, handle: AnyHostComponentDataHandle) -> (bound: Result<
        (),
        String,
    >)
        ensures
            Self::binds(*old(self), interface@, handle, *final(self), bound),
    ;
}

/// An interface that the host implements for its guests.
pub trait HostComponent: Send + Sync + Sized + 'static {
    /// The data that the component keeps for one guest instance.
    type Data: Send + Sized + 'static;

    /// The interface that a component of this kind binds, where its binding
    /// is one binding of one interface; `None` where it is anything else.
    open spec fn interface() -> Option<Seq<char>> {
        None
    }

    /// Binds the component into the dispatch layer. Calls from guests will
    /// reach the component's data through `handle`. Where the kind names its
    /// interface, the binding is that of this interface under `handle`.
    fn add_to_linker<L: Linker>(linker: &mut L, handle: HostComponentDataHandle<Self>) -> (bound:
        Result<(), String>)
        ensures
            Self::interface() matches Some(interface) ==> L::binds(
                *old(linker),
                interface,
                handle.erased(),
                *final(linker),
                bound,
            ),
    ;

    /// Whether `data` is data that the component builds for a new guest
    /// instance. A component that says nothing of its data may build any.
    open spec fn builds(&self, data: Self::Data) -> bool {
        true
    }

    /// Builds the component's data for a new guest instance.
    fn build_data(&self) -> (data: Self::Data)
        ensures
            self.builds(data),
    ;
}

impl<HC: HostComponent> HostComponent for Arc<HC> {
    type Data = HC::Data;

    /// A shared component binds what the component itself binds.
    open spec fn interface() -> Option<Seq<char>> {
        HC::interface()
    }

    fn add_to_linker<L: Linker>(linker: &mut L, handle: HostComponentDataHandle<Self>) -> (bound:
        Result<(), String>) {
        HC::add_to_linker(linker, HostComponentDataHandle::from_any(handle.inner))
    }

    /// A shared component builds what the component itself builds.
    open spec fn builds(&self, data: Self::Data) -> bool {
        (**self).builds(data)
    }

    fn build_data(&self) -> (data: Self::Data) {
        (**self).build_data()
    }
}

/// An opaque handle which can be passed to [`HostComponentsData`] to reach
/// the data of one host component.
#[derive(Clone, Copy, Debug, PartialEq, Eq, Structural)]
pub struct AnyHostComponentDataHandle(usize);

impl View for AnyHostComponentDataHandle {
    type V = int;

    /// The position of the component that the handle names.
    closed spec fn view(&self) -> int {
        self.0 as int
    }
}

/// A handle which remembers the kind of the component that it names.
pub struct HostComponentDataHandle<HC> {
    inner: AnyHostComponentDataHandle,
    _phantom: PhantomData<HC>,
}

impl<HC> Clone for HostComponentDataHandle<HC> {
    fn clone(&self) -> (copy: Self)
        ensures
            copy == *self,
    {
        *self
    }
}

impl<HC> Copy for HostComponentDataHandle<HC> {

}

impl<HC> View for HostComponentDataHandle<HC> {
    type V = int;

    /// The position of the component that the handle names.
    open spec fn view(&self) -> int {
        self.erased()@
    }
}

impl<HC> HostComponentDataHandle<HC> {
    /// The handle without the component's kind.
    pub closed spec fn erased(self) -> AnyHostComponentDataHandle {
        self.inner
    }

    /// The handle `handle`, taken to name a component of kind `HC`.
    pub closed spec fn typed(handle: AnyHostComponentDataHandle) -> Self {
        HostComponentDataHandle { inner: handle, _phantom: PhantomData }
    }

    /// A typed handle names the component that the handle within it names.
    pub proof fn lemma_typed_handle(handle: AnyHostComponentDataHandle)
        ensures
            Self::typed(handle).erased() == handle,
            Self::typed(handle)@ == handle@,
    {
    }

    /// The handle `handle`, taken to name a component of kind `HC`.
    pub(crate) fn from_any(handle: AnyHostComponentDataHandle) -> (typed: Self)
        ensures
            typed == Self::typed(handle),
            typed@ == handle@,
    {
        Self { inner: handle, _phantom: PhantomData }
    }

    /// The handle without the component's kind.
    pub fn into_any(self) -> (handle: AnyHostComponentDataHandle)
        ensures
            handle == self.erased(),
    {
        self.inner
    }
}

impl<HC> From<HostComponentDataHandle<HC>> for AnyHostComponentDataHandle {
    fn from(value: HostComponentDataHandle<HC>) -> (handle: Self) {
        value.inner
    }
}

impl<HC> vstd::std_specs::convert::FromSpecImpl<HostComponentDataHandle<HC>> for AnyHostComponentDataHandle {
    open spec fn obeys_from_spec() -> bool {
        true
    }

    open spec fn from_spec(value: HostComponentDataHandle<HC>) -> Self {
        value.erased()
    }
}

impl<HC> From<HostComponentDataHandle<Arc<HC>>> for HostComponentDataHandle<HC> {
    fn from(value: HostComponentDataHandle<Arc<HC>>) -> (handle: Self) {
        Self::from_any(value.inner)
    }
}

impl<HC> vstd::std_specs::convert::FromSpecImpl<HostComponentDataHandle<Arc<HC>>> for HostComponentDataHandle<HC> {
    open spec fn obeys_from_spec() -> bool {
        true
    }

    open spec fn from_spec(value: HostComponentDataHandle<Arc<HC>>) -> Self {
        Self::typed(value.erased())
    }
}

/// The object-safe face of a host component: all that a store needs of it.
pub trait DynSafeHostComponent: Send + Sync {
    /// Whether `data` is data that the component builds for a new guest
    /// instance, with its type erased. A component that says nothing of its
    /// data may build any.
    open spec fn builds_box(&self, data: AnyData) -> bool {
        true
    }

    /// Builds the component's data for a new guest instance, with its type
    /// erased.
    fn build_data_box(&self) -> (data: AnyData)
        ensures
            self.builds_box(data),
    ;
}

impl<T: HostComponent> DynSafeHostComponent for T {
    fn build_data_box(&self) -> (data: AnyData) {
        erase(self.build_data())
    }
}

/// Why a host component was not registered.
#[derive(Debug)]
pub enum HostComponentError {
    /// A host component of the same kind is registered already; the field
    /// is the kind's name.
    Duplicate(String),
    /// The component could not bind itself into the dispatch layer; the field
    /// is what the dispatch layer reported.
    Link(String),
}

impl HostComponentError {
    /// The error in words.
    pub fn message(&self) -> (text: String)
        ensures
            text@ == match *self {
                HostComponentError::Duplicate(name) => "already have a host component of type "@
                    + name@,
                HostComponentError::Link(report) => report@,
            },
    {
        match self {
            HostComponentError::Duplicate(name) => {
                let mut text = "already have a host component of type ".to_owned();
                text.append(name.as_str());
                text
            },
            HostComponentError::Link(report) => report.clone(),
        }
    }
}

/// The handle that a registration of `identity` yields when `identities` are
/// registered already: the next position, or none where `identity` is among
/// them.
pub open spec fn registration(identities: Seq<TypeId>, identity: TypeId) -> Option<int> {
    if identities.contains(identity) {
        None
    } else {
        Some(identities.len() as int)
    }
}

/// The identities that are registered after a registration of `identity`.
pub open spec fn registered(identities: Seq<TypeId>, identity: TypeId) -> Seq<TypeId> {
    if identities.contains(identity) {
        identities
    } else {
        identities.push(identity)
    }
}

/// The handle under which `identity` is registered among `identities`, if it
/// is.
pub open spec fn handle_of(identities: Seq<TypeId>, identity: TypeId) -> Option<int> {
    if identities.contains(identity) {
        Some(identities.index_of(identity))
    } else {
        None
    }
}

/// The slots of a store after an access to slot `index`, where `built` is the
/// data that the component builds when asked: an empty slot takes it, a filled
/// one stays as it is.
pub open spec fn filled(slots: Seq<Option<AnyData>>, index: int, built: AnyData) -> Seq<
    Option<AnyData>,
> {
    if slots[index].is_none() {
        slots.update(index, Some(built))
    } else {
        slots
    }
}

/// In a list without repetition an identity stands at one position only.
pub proof fn lemma_handle_of_position(identities: Seq<TypeId>, position: int)
    requires
        identities.no_duplicates(),
        0 <= position < identities.len(),
    ensures
        handle_of(identities, identities[position]) == Some(position),
{
    let identity = identities[position];
    assert(identities.contains(identity));
    let found = identities.index_of(identity);
    assert(0 <= found < identities.len() && identities[found] == identity);
}

/// Registration keeps the list of identities free of repetition.
pub proof fn lemma_registered_no_duplicates(identities: Seq<TypeId>, identity: TypeId)
    requires
        identities.no_duplicates(),
    ensures
        registered(identities, identity).no_duplicates(),
{
    let after = registered(identities, identity);
    if !identities.contains(identity) {
        assert forall|i: int, j: int|
            0 <= i < after.len() && 0 <= j < after.len() && i != j implies after[i] != after[j] by {
            if i == identities.len() {
                assert(identities.contains(identities[j]));
            } else if j == identities.len() {
                assert(identities.contains(identities[i]));
            }
        }
    }
}

fn find_identity(identities: &Vec<TypeId>, identity: &TypeId) -> (found: Option<usize>)
    requires
        identities@.no_duplicates(),
    ensures
        found.is_some() == identities@.contains(*identity),
        found matches Some(position) ==> handle_of(identities@, *identity) == Some(position as int)
            && position < identities.len(),
{
    let mut i: usize = 0;
    while i < identities.len()
        invariant
            i <= identities.len(),
            identities@.no_duplicates(),
            forall|j: int| 0 <= j < i ==> identities[j] != *identity,
        decreases identities.len() - i,
    {
        if same_identity(&identities[i], identity) {
            proof {
                lemma_handle_of_position(identities@, i as int);
            }
            return Some(i);
        }
        i += 1;
    }
    None
}

/// A host component as the registry keeps it.
pub type BoxHostComponent = Box<dyn DynSafeHostComponent>;

/// The component `host_component` as the registry keeps it.
pub open spec fn boxed<HC: HostComponent>(host_component: HC) -> BoxHostComponent {
    Box::new(host_component)
}

/// Collects host components before the host starts.
pub struct HostComponentsBuilder {
    identities: Vec<TypeId>,
    host_components: Vec<BoxHostComponent>,
}

impl Default for HostComponentsBuilder {
    fn default() -> (builder: Self)
        ensures
            builder.wf(),
            builder.identities() == Seq::<TypeId>::empty(),
            builder.components() == Seq::<BoxHostComponent>::empty(),
    {
        HostComponentsBuilder { identities: Vec::new(), host_components: Vec::new() }
    }
}

impl HostComponentsBuilder {
    /// The identities of the registered components, in the order of their
    /// registration: a component's position is its handle.
    pub closed spec fn identities(&self) -> Seq<TypeId> {
        self.identities@
    }

    /// The registered components, in the order of their registration.
    pub closed spec fn components(&self) -> Seq<BoxHostComponent> {
        self.host_components@
    }

    /// Each component has one identity, and no identity occurs twice.
    pub closed spec fn wf(&self) -> bool {
        &&& self.identities.len() == self.host_components.len()
        &&& self.identities@.no_duplicates()
    }

    /// What a well-formed builder gives: as many identities as components,
    /// and no identity twice.
    pub proof fn lemma_wf(&self)
        requires
            self.wf(),
        ensures
            self.identities().len() == self.components().len(),
            self.identities().no_duplicates(),
    {
    }

    /// What a registration returns once the component has its handle and
    /// the binding has returned `bound`: the handle where the binding
    /// succeeded, and else the binding's report.
    pub fn registration_outcome<HC: HostComponent>(
        handle: HostComponentDataHandle<HC>,
        bound: Result<(), String>,
    ) -> (added: Result<HostComponentDataHandle<HC>, HostComponentError>)
        ensures
            added == match bound {
                Ok(_) => Ok::<HostComponentDataHandle<HC>, HostComponentError>(handle),
                Err(report) => Err(HostComponentError::Link(report)),
            },
    {
        match bound {
            Ok(()) => Ok(handle),
            Err(report) => Err(HostComponentError::Link(report)),
        }
    }

    /// Registers `host_component` under `identity`. Fails, and changes
    /// nothing, where a component is registered under `identity` already:
    /// the error then names the kind as `kind_name` does. Else the
    /// component takes the next position, which is its handle.
    pub fn add_boxed_host_component(
        &mut self,
        identity: TypeId,
        kind_name: &str,
        host_component: BoxHostComponent,
    ) -> (added: Result<AnyHostComponentDataHandle, HostComponentError>)
        requires
            old(self).wf(),
        ensures
            final(self).wf(),
            final(self).identities() == registered(old(self).identities(), identity),
            match added {
                Ok(handle) => registration(old(self).identities(), identity) == Some(handle@),
                Err(error) => error is Duplicate && registration(old(self).identities(), identity)
                    is None,
            },
            added matches Err(HostComponentError::Duplicate(name)) ==> name@ == kind_name@,
            added is Ok ==> final(self).components() == old(self).components().push(host_component),
            added is Err ==> final(self).components() == old(self).components(),
    {
        if find_identity(&self.identities, &identity).is_some() {
            return Err(HostComponentError::Duplicate(kind_name.to_owned()));
        }
        let handle = AnyHostComponentDataHandle(self.host_components.len());
        let ghost components = self.host_components@;
        let ghost component = host_component;
        self.identities.push(identity);
        self.host_components.push(host_component);
        proof {
            vstd::seq::axiom_seq_push_len(components, component);
            lemma_registered_no_duplicates(old(self).identities@, identity);
        }
        Ok(handle)
    }

    /// Registers `host_component` under the identity of its type and binds it
    /// into `linker`; `kind_name` is the name of the type, for the error.
    /// Fails, and changes nothing, where a component of the same identity is
    /// registered already: the dispatch layer is then as it was, and the
    /// error names the kind. Else the component takes the next position, also where the
    /// binding then fails; the binding's failure is the only other error.
    /// Where it succeeds, the binding was that of the component's kind under
    /// the new handle.
    pub fn add_host_component<L: Linker, HC: HostComponent>(
        &mut self,
        linker: &mut L,
        host_component: HC,
        kind_name: &str,
    ) -> (added: Result<HostComponentDataHandle<HC>, HostComponentError>)
        requires
            old(self).wf(),
        ensures
            final(self).wf(),
            added matches Err(HostComponentError::Duplicate(name)) ==> name@ == kind_name@
                && *final(linker) == *old(linker) && final(self).components() == old(
                self,
            ).components(),
            !(added is Err && added->Err_0 is Duplicate) ==> final(self).components() == old(
                self,
            ).components().push(boxed(host_component)),
            added matches Ok(handle) ==> (HC::interface() matches Some(interface) ==> L::binds(
                *old(linker),
                interface,
                handle.erased(),
                *final(linker),
                Ok(()),
            )),
            added matches Err(HostComponentError::Link(report)) ==> (HC::interface() matches Some(
                interface,
            ) ==> exists|handle: HostComponentDataHandle<HC>|
                handle@ == old(self).identities().len() && L::binds(
                    *old(linker),
                    interface,
                    #[trigger] handle.erased(),
                    *final(linker),
                    Err(report),
                )),
            exists|identity: TypeId|
                {
                    &&& final(self).identities() == #[trigger] registered(
                        old(self).identities(),
                        identity,
                    )
                    &&& match added {
                        Ok(handle) => registration(old(self).identities(), identity) == Some(
                            handle@,
                        ),
                        Err(HostComponentError::Duplicate(_)) => registration(
                            old(self).identities(),
                            identity,
                        ) is None,
                        Err(HostComponentError::Link(_)) => registration(
                            old(self).identities(),
                            identity,
                        ) is Some,
                    }
                },
    {
        let identity = TypeId::of::<HC>();
        let boxed: BoxHostComponent = Box::new(host_component);
        match self.add_boxed_host_component(identity, kind_name, boxed) {
            Err(error) => Err(error),
            Ok(handle) => {
                let typed = HostComponentDataHandle::<HC>::from_any(handle);
                let bound = HC::add_to_linker(linker, typed);
                proof {
                    if bound is Ok {
                        assert(bound->Ok_0 == ());
                    }
                }
                Self::registration_outcome(typed, bound)
            },
        }
    }

    /// Ends the registration: the registry of what was registered.
    pub fn build(self) -> (registry: HostComponents)
        requires
            self.wf(),
        ensures
            registry.wf(),
            registry.identities() == self.identities(),
            registry.components() == self.components(),
    {
        HostComponents { identities: self.identities, host_components: Arc::new(self.host_components) }
    }
}

/// The registered host components: built once, then shared by all guest
/// instances.
pub struct HostComponents {
    identities: Vec<TypeId>,
    host_components: Arc<Vec<BoxHostComponent>>,
}

impl HostComponents {
    /// The identities of the registered components; a component's position
    /// is its handle.
    pub closed spec fn identities(&self) -> Seq<TypeId> {
        self.identities@
    }

    /// The registered components.
    pub closed spec fn components(&self) -> Seq<BoxHostComponent> {
        self.host_components@
    }

    /// Each component has one identity, and no identity occurs twice.
    pub closed spec fn wf(&self) -> bool {
        &&& self.identities.len() == self.host_components.len()
        &&& self.identities@.no_duplicates()
    }

    /// What a well-formed registry gives: as many identities as components,
    /// and no identity twice.
    pub proof fn lemma_wf(&self)
        requires
            self.wf(),
        ensures
            self.identities().len() == self.components().len(),
            self.identities().no_duplicates(),
    {
    }

    /// A builder with nothing registered.
    pub fn builder() -> (builder: HostComponentsBuilder)
        ensures
            builder.wf(),
            builder.identities() == Seq::<TypeId>::empty(),
            builder.components() == Seq::<BoxHostComponent>::empty(),
    {
        HostComponentsBuilder::default()
    }

    /// A store for a new guest instance: one empty slot for each registered
    /// component.
    pub fn new_data(&self) -> (store: HostComponentsData)
        requires
            self.wf(),
        ensures
            store.wf(),
            store.components() == self.components(),
            store@ == Seq::new(self.identities().len(), |i: int| None::<AnyData>),
    {
        let mut data: Vec<Option<AnyData>> = Vec::new();
        let mut i: usize = 0;
        while i < self.host_components.len()
            invariant
                i <= self.host_components.len(),
                data@ == Seq::new(i as nat, |i: int| None::<AnyData>),
            decreases self.host_components.len() - i,
        {
            data.push(None);
            i += 1;
        }
        HostComponentsData { data, host_components: self.host_components.clone() }
    }

    /// The handle of the component registered under `identity`, if there is
    /// one.
    pub fn find_any_handle(&self, identity: &TypeId) -> (found: Option<AnyHostComponentDataHandle>)
        requires
            self.wf(),
        ensures
            match found {
                Some(handle) => handle_of(self.identities(), *identity) == Some(handle@),
                None => handle_of(self.identities(), *identity) is None,
            },
    {
        match find_identity(&self.identities, identity) {
            Some(position) => Some(AnyHostComponentDataHandle(position)),
            None => None,
        }
    }

    /// The handle of the component registered under the identity of the type
    /// `HC`, if there is one.
    pub fn find_handle<HC: HostComponent>(&self) -> (found: Option<HostComponentDataHandle<HC>>)
        requires
            self.wf(),
        ensures
            exists|identity: TypeId|
                match found {
                    Some(handle) => #[trigger] handle_of(self.identities(), identity) == Some(
                        handle@,
                    ),
                    None => handle_of(self.identities(), identity) is None,
                },
    {
        match self.find_any_handle(&TypeId::of::<HC>()) {
            Some(handle) => Some(HostComponentDataHandle::from_any(handle)),
            None => None,
        }
    }
}

/// The data of the host components of one guest instance: one slot for each
/// registered component, empty until its first use.
pub struct HostComponentsData {
    data: Vec<Option<AnyData>>,
    host_components: Arc<Vec<BoxHostComponent>>,
}

impl View for HostComponentsData {
    type V = Seq<Option<AnyData>>;

    /// The slots, in the order of the components.
    closed spec fn view(&self) -> Seq<Option<AnyData>> {
        self.data@
    }
}

impl HostComponentsData {
    /// The components whose data the store holds.
    pub closed spec fn components(&self) -> Seq<BoxHostComponent> {
        self.host_components@
    }

    /// The store has one slot for each component.
    pub closed spec fn wf(&self) -> bool {
        self.data.len() == self.host_components.len()
    }

    /// What a well-formed store gives: one slot for each component.
    pub proof fn lemma_wf(&self)
        requires
            self.wf(),
        ensures
            self@.len() == self.components().len(),
    {
    }

    /// The number of slots.
    pub fn len(&self) -> (len: usize)
        ensures
            len == self@.len(),
    {
        self.data.len()
    }

    /// Whether the slot of `handle` holds data.
    pub fn is_filled(&self, handle: AnyHostComponentDataHandle) -> (filled: bool)
        requires
            0 <= handle@ < self@.len(),
        ensures
            filled == self@[handle@].is_some(),
    {
        self.data[handle.0].is_some()
    }

    /// Puts `data` into the slot of `handle`, whatever the slot held.
    pub fn set_any(&mut self, handle: AnyHostComponentDataHandle, data: AnyData)
        requires
            old(self).wf(),
            0 <= handle@ < old(self)@.len(),
        ensures
            final(self).wf(),
            final(self).components() == old(self).components(),
            final(self)@ == old(self)@.update(handle@, Some(data)),
    {
        self.data[handle.0] = Some(data);
    }

    /// Puts `data` into the slot of `handle`, whatever the slot held. The
    /// other slots stay as they are.
    pub fn set<HC: HostComponent>(&mut self, handle: HostComponentDataHandle<HC>, data: HC::Data)
        requires
            old(self).wf(),
            0 <= handle@ < old(self)@.len(),
        ensures
            final(self).wf(),
            final(self).components() == old(self).components(),
            final(self)@[handle@] is Some,
            final(self)@ == old(self)@.update(handle@, final(self)@[handle@]),
    {
        self.set_any(handle.inner, erase(data));
    }

    /// The data in the slot of `handle`. An empty slot is first filled with
    /// the data that the component builds; a filled one is handed out as it
    /// is. What the caller then writes through the reference is what the slot
    /// holds.
    pub fn get_or_insert_any(&mut self, handle: AnyHostComponentDataHandle) -> (data: &mut AnyData)
        requires
            old(self).wf(),
            0 <= handle@ < old(self)@.len(),
        ensures
            final(self).wf(),
            final(self).components() == old(self).components(),
            filled(old(self)@, handle@, *data)[handle@] == Some(*data),
            old(self)@[handle@] is None ==> old(self).components()[handle@].builds_box(*data),
            final(self)@ == filled(old(self)@, handle@, *data).update(handle@, Some(*final(data))),
    {
        let idx = handle.0;
        if self.data[idx].is_none() {
            let built = self.host_components[idx].build_data_box();
            self.data[idx] = Some(built);
        }
        self.data[idx].as_mut().unwrap()
    }

    /// The data in the slot of `handle`, as the component's own type; an
    /// empty slot is first filled with what the component builds. `None`
    /// where the slot holds data of another type. The other slots stay as
    /// they are.
    pub fn get_or_insert<HC: HostComponent>(&mut self, handle: HostComponentDataHandle<HC>) -> (data:
        Option<&mut HC::Data>)
        requires
            old(self).wf(),
            0 <= handle@ < old(self)@.len(),
        ensures
            final(self).wf(),
            final(self).components() == old(self).components(),
            final(self)@[handle@] is Some,
            final(self)@ == old(self)@.update(handle@, final(self)@[handle@]),
            data is None ==> final(self)@ == filled(old(self)@, handle@, final(self)@[handle@]->0),
            data is None && old(self)@[handle@] is None ==> old(self).components()[handle@].builds_box(
                final(self)@[handle@]->0,
            ),
    {
        let erased = self.get_or_insert_any(handle.inner);
        downcast_mut(erased)
    }
}

/// Two components of different kinds, registered one after the other, get
/// different handles.
pub proof fn lemma_distinct_identities_distinct_handles(
    identities: Seq<TypeId>,
    first: TypeId,
    second: TypeId,
)
    requires
        first != second,
        registration(identities, first) is Some,
        registration(registered(identities, first), second) is Some,
    ensures
        registration(identities, first) != registration(registered(identities, first), second),
{
}

/// A kind that is registered cannot be registered again, however many other
/// kinds were registered since; and the failed registration changes nothing.
pub proof fn lemma_second_registration_fails(identities: Seq<TypeId>, identity: TypeId, later: TypeId)
    ensures
        registration(registered(identities, identity), identity) is None,
        registration(registered(registered(identities, identity), later), identity) is None,
        registered(registered(identities, identity), identity) == registered(identities, identity),
{
    let once = registered(identities, identity);
    assert(once.contains(identity)) by {
        if !identities.contains(identity) {
            assert(once[identities.len() as int] == identity);
        }
    }
    let twice = registered(once, later);
    assert(twice.contains(identity)) by {
        let position = once.index_of(identity);
        assert(twice[position] == identity);
    }
}

/// The handle that a registration yields is the one under which the kind is
/// found afterwards, and later registrations do not change it. A kind that was
/// never registered is not found.
pub proof fn lemma_find_handle_of_registered(identities: Seq<TypeId>, identity: TypeId, later: TypeId)
    requires
        identities.no_duplicates(),
    ensures
        registration(identities, identity) is Some ==> handle_of(
            registered(identities, identity),
            identity,
        ) == registration(identities, identity),
        identities.contains(identity) ==> handle_of(registered(identities, later), identity)
            == handle_of(identities, identity),
        !identities.contains(identity) ==> handle_of(identities, identity) is None,
        handle_of(Seq::<TypeId>::empty(), identity) is None,
{
    if !identities.contains(identity) {
        let after = registered(identities, identity);
        lemma_registered_no_duplicates(identities, identity);
        assert(after[identities.len() as int] == identity);
        lemma_handle_of_position(after, identities.len() as int);
    } else {
        let after = registered(identities, later);
        lemma_registered_no_duplicates(identities, later);
        let position = identities.index_of(identity);
        assert(after[position] == identity);
        lemma_handle_of_position(after, position);
        lemma_handle_of_position(identities, position);
    }
}

/// A slot is filled at most once: an access to an empty slot leaves in it what
/// the component built, and a later access finds what the slot then holds,
/// whatever the component would build anew.
pub proof fn lemma_slot_filled_once(
    slots: Seq<Option<AnyData>>,
    index: int,
    first: AnyData,
    second: AnyData,
)
    requires
        0 <= index < slots.len(),
    ensures
        slots[index] is None ==> filled(slots, index, first)[index] == Some(first),
        slots[index] is Some ==> filled(slots, index, first) == slots,
        filled(filled(slots, index, first), index, second) == filled(slots, index, first),
        forall|other: int|
            0 <= other < slots.len() && other != index ==> filled(slots, index, first)[other]
                == slots[other],
{
}

/// Data that was set is the data that the next access finds: nothing is built
/// in its place.
pub proof fn lemma_set_then_get(
    slots: Seq<Option<AnyData>>,
    index: int,
    data: AnyData,
    built: AnyData,
)
    requires
        0 <= index < slots.len(),
    ensures
        filled(slots.update(index, Some(data)), index, built) == slots.update(index, Some(data)),
        filled(slots.update(index, Some(data)), index, built)[index] == Some(data),
{
}

} // verus!
