use host_components::host_component::AnyHostComponentDataHandle;
use host_components::host_component::BoxHostComponent;
use host_components::host_component::HostComponent;
use host_components::host_component::HostComponentDataHandle;
use host_components::host_component::HostComponentError;
use host_components::host_component::HostComponents;
use host_components::host_component::HostComponentsBuilder;
use host_components::host_component::Linker;
use std::any::TypeId;
use std::sync::atomic::AtomicUsize;
use std::sync::atomic::Ordering;
use std::sync::Arc;

#[derive(Default)]
struct TestLinker {
    bound: Vec<(String, AnyHostComponentDataHandle)>,
}

impl Linker for TestLinker {
    fn bind(&mut self, interface: &str, handle: AnyHostComponentDataHandle) -> Result<(), String> {
        if interface == "broken" {
            return Err(format!("cannot bind {interface}"));
        }
        self.bound.push((interface.to_owned(), handle));
        Ok(())
    }
}

struct TestHC;

impl HostComponent for TestHC {
    type Data = u8;

    fn add_to_linker<L: Linker>(
        _linker: &mut L,
        _handle: HostComponentDataHandle<Self>,
    ) -> Result<(), String> {
        Ok(())
    }

    fn build_data(&self) -> Self::Data {
        0
    }
}

struct Named;

impl HostComponent for Named {
    type Data = String;

    fn add_to_linker<L: Linker>(
        linker: &mut L,
        handle: HostComponentDataHandle<Self>,
    ) -> Result<(), String> {
        linker.bind("named", handle.into_any())
    }

    fn build_data(&self) -> Self::Data {
        "fresh".to_owned()
    }
}

struct Broken;

impl HostComponent for Broken {
    type Data = ();

    fn add_to_linker<L: Linker>(
        linker: &mut L,
        handle: HostComponentDataHandle<Self>,
    ) -> Result<(), String> {
        linker.bind("broken", handle.into_any())
    }

    fn build_data(&self) -> Self::Data {}
}

struct Counting {
    built: Arc<AtomicUsize>,
}

impl HostComponent for Counting {
    type Data = usize;

    fn add_to_linker<L: Linker>(
        _linker: &mut L,
        _handle: HostComponentDataHandle<Self>,
    ) -> Result<(), String> {
        Ok(())
    }

    fn build_data(&self) -> Self::Data {
        self.built.fetch_add(1, Ordering::SeqCst) + 100
    }
}

#[test]
fn host_components_data() {
    let mut linker = TestLinker::default();

    let mut builder = HostComponents::builder();
    let handle1 = builder
        .add_host_component(&mut linker, Arc::new(TestHC), "Arc<TestHC>")
        .unwrap();
    let handle2 = builder.add_host_component(&mut linker, TestHC, "TestHC").unwrap();
    let host_components = builder.build();
    let mut hc_data = host_components.new_data();

    assert_eq!(hc_data.get_or_insert(handle1).unwrap(), &0);

    hc_data.set(handle2, 1);
    assert_eq!(hc_data.get_or_insert(handle2).unwrap(), &1);
}

#[test]
fn find_handle() {
    let mut linker = TestLinker::default();

    let mut builder = HostComponents::builder();
    builder.add_host_component(&mut linker, TestHC, "TestHC").unwrap();
    let host_components = builder.build();
    let handle = host_components.find_handle::<TestHC>().unwrap();
    let mut hc_data = host_components.new_data();
    assert_eq!(hc_data.get_or_insert(handle).unwrap(), &0);
}

#[test]
fn distinct_kinds_get_distinct_handles() {
    let mut linker = TestLinker::default();
    let mut builder = HostComponents::builder();
    let first = builder.add_host_component(&mut linker, TestHC, "TestHC").unwrap();
    let second = builder.add_host_component(&mut linker, Named, "Named").unwrap();
    let third = builder
        .add_host_component(&mut linker, Arc::new(TestHC), "Arc<TestHC>")
        .unwrap();
    assert_ne!(first.into_any(), second.into_any());
    assert_ne!(first.into_any(), third.into_any());
    assert_ne!(second.into_any(), third.into_any());
    assert_eq!(linker.bound, vec![("named".to_owned(), second.into_any())]);
}

#[test]
fn second_registration_of_a_kind_fails() {
    let mut linker = TestLinker::default();
    let mut builder = HostComponents::builder();
    builder.add_host_component(&mut linker, Named, "Named").unwrap();
    builder.add_host_component(&mut linker, TestHC, "TestHC").unwrap();
    let again = builder.add_host_component(&mut linker, Named, "Named");
    assert!(matches!(again, Err(HostComponentError::Duplicate(_))));
    let message = again.err().unwrap().message();
    assert_eq!(message, "already have a host component of type Named");
    assert_eq!(
        HostComponentError::Duplicate("my::Kind".to_owned()).message(),
        "already have a host component of type my::Kind"
    );
    assert_eq!(
        HostComponentError::Duplicate(String::new()).message(),
        "already have a host component of type "
    );
    // The failed registration has bound nothing and taken no position.
    assert_eq!(linker.bound.len(), 1);
    let next = builder.add_host_component(&mut linker, Broken, "Broken");
    assert!(next.is_err());
    let registry = builder.build();
    assert_eq!(registry.new_data().len(), 3);
}

#[test]
fn failed_binding_is_reported_and_keeps_the_position() {
    let mut linker = TestLinker::default();
    let mut builder = HostComponents::builder();
    let failed = builder.add_host_component(&mut linker, Broken, "Broken");
    match failed {
        Err(HostComponentError::Link(report)) => assert_eq!(report, "cannot bind broken"),
        _ => panic!("the binding should have failed"),
    }
    let message = HostComponentError::Link("cannot bind broken".to_owned()).message();
    assert_eq!(message, "cannot bind broken");
    let next = builder.add_host_component(&mut linker, TestHC, "TestHC").unwrap();
    let registry = builder.build();
    assert_eq!(registry.find_handle::<TestHC>().unwrap().into_any(), next.into_any());
    assert_ne!(
        registry.find_handle::<Broken>().unwrap().into_any(),
        next.into_any()
    );
    assert_eq!(registry.new_data().len(), 2);
}

#[test]
fn data_is_built_once_for_each_store() {
    let built = Arc::new(AtomicUsize::new(0));
    let mut linker = TestLinker::default();
    let mut builder = HostComponents::builder();
    let handle = builder
        .add_host_component(&mut linker, Counting { built: built.clone() }, "Counting")
        .unwrap();
    let registry = builder.build();

    let mut store = registry.new_data();
    assert_eq!(built.load(Ordering::SeqCst), 0);
    assert_eq!(store.get_or_insert(handle).unwrap(), &100);
    assert_eq!(store.get_or_insert(handle).unwrap(), &100);
    assert_eq!(built.load(Ordering::SeqCst), 1);

    *store.get_or_insert(handle).unwrap() = 7;
    assert_eq!(store.get_or_insert(handle).unwrap(), &7);
    assert_eq!(built.load(Ordering::SeqCst), 1);

    let mut other = registry.new_data();
    assert_eq!(other.get_or_insert(handle).unwrap(), &101);
    assert_eq!(store.get_or_insert(handle).unwrap(), &7);
    assert_eq!(built.load(Ordering::SeqCst), 2);
}

#[test]
fn set_bypasses_the_build() {
    let built = Arc::new(AtomicUsize::new(0));
    let mut linker = TestLinker::default();
    let mut builder = HostComponents::builder();
    let counting = builder
        .add_host_component(&mut linker, Counting { built: built.clone() }, "Counting")
        .unwrap();
    let named = builder.add_host_component(&mut linker, Named, "Named").unwrap();
    let registry = builder.build();
    let mut store = registry.new_data();

    store.set(counting, 5);
    assert_eq!(store.get_or_insert(counting).unwrap(), &5);
    assert_eq!(built.load(Ordering::SeqCst), 0);

    assert_eq!(store.get_or_insert(named).unwrap(), "fresh");
    store.set(named, "seeded".to_owned());
    assert_eq!(store.get_or_insert(named).unwrap(), "seeded");
    assert_eq!(store.get_or_insert(counting).unwrap(), &5);
}

#[test]
fn find_handle_of_a_kind_never_registered_is_none() {
    let mut linker = TestLinker::default();
    let empty = HostComponents::builder().build();
    assert!(empty.find_handle::<TestHC>().is_none());
    assert_eq!(empty.new_data().len(), 0);

    let mut builder = HostComponentsBuilder::default();
    let named = builder.add_host_component(&mut linker, Named, "Named").unwrap();
    let test = builder.add_host_component(&mut linker, TestHC, "TestHC").unwrap();
    let registry = builder.build();
    assert!(registry.find_handle::<Broken>().is_none());
    assert!(registry.find_handle::<Arc<TestHC>>().is_none());
    assert_eq!(registry.find_handle::<Named>().unwrap().into_any(), named.into_any());
    assert_eq!(registry.find_handle::<TestHC>().unwrap().into_any(), test.into_any());
}

#[test]
fn components_are_registered_and_found_by_identity() {
    let mut builder = HostComponents::builder();
    let boxed: BoxHostComponent = Box::new(TestHC);
    let first = builder
        .add_boxed_host_component(TypeId::of::<TestHC>(), "TestHC", boxed)
        .unwrap();
    let boxed: BoxHostComponent = Box::new(Named);
    let second = builder
        .add_boxed_host_component(TypeId::of::<Named>(), "Named", boxed)
        .unwrap();
    let boxed: BoxHostComponent = Box::new(Named);
    let again = builder.add_boxed_host_component(TypeId::of::<Named>(), "the same again", boxed);
    match again {
        Err(HostComponentError::Duplicate(name)) => assert_eq!(name, "the same again"),
        _ => panic!("the second registration should have failed"),
    }
    assert_ne!(first, second);

    let registry = builder.build();
    assert_eq!(registry.find_any_handle(&TypeId::of::<TestHC>()), Some(first));
    assert_eq!(registry.find_any_handle(&TypeId::of::<Named>()), Some(second));
    assert_eq!(registry.find_any_handle(&TypeId::of::<Broken>()), None);

    let mut store = registry.new_data();
    assert_eq!(store.len(), 2);
    assert!(!store.is_filled(second));
    let typed = registry.find_handle::<Named>().unwrap();
    assert_eq!(typed.into_any(), second);
    assert_eq!(store.get_or_insert(typed).unwrap(), "fresh");
    assert!(store.is_filled(second));
    assert!(!store.is_filled(first));
}

#[test]
fn erased_data_is_set_as_it_is() {
    let mut linker = TestLinker::default();
    let mut builder = HostComponents::builder();
    let named = builder.add_host_component(&mut linker, Named, "Named").unwrap();
    let registry = builder.build();

    let mut source = registry.new_data();
    source.set(named, "moved".to_owned());
    let mut other = registry.new_data();
    // Take the erased data out of one store, leaving fresh data in its place.
    std::mem::swap(
        source.get_or_insert_any(named.into_any()),
        other.get_or_insert_any(named.into_any()),
    );
    let mut target = registry.new_data();
    std::mem::swap(
        target.get_or_insert_any(named.into_any()),
        other.get_or_insert_any(named.into_any()),
    );
    assert_eq!(target.get_or_insert(named).unwrap(), "moved");
    assert_eq!(source.get_or_insert(named).unwrap(), "fresh");
}

#[test]
fn outcome_of_a_registration_follows_the_binding() {
    let mut linker = TestLinker::default();
    let mut builder = HostComponents::builder();
    let handle = builder.add_host_component(&mut linker, TestHC, "TestHC").unwrap();
    let added = HostComponentsBuilder::registration_outcome(handle, Ok(()));
    assert_eq!(added.unwrap().into_any(), handle.into_any());
    let added = HostComponentsBuilder::registration_outcome(handle, Err("no".to_owned()));
    match added {
        Err(HostComponentError::Link(report)) => assert_eq!(report, "no"),
        _ => panic!("the binding's report should come back"),
    }
}

#[test]
fn erased_access_fills_the_slot_that_typed_access_reads() {
    let mut linker = TestLinker::default();
    let mut builder = HostComponents::builder();
    let test = builder.add_host_component(&mut linker, TestHC, "TestHC").unwrap();
    let named = builder.add_host_component(&mut linker, Named, "Named").unwrap();
    let registry = builder.build();
    let mut store = registry.new_data();

    assert!(!store.is_filled(named.into_any()));
    store.get_or_insert_any(named.into_any());
    assert!(store.is_filled(named.into_any()));
    assert!(!store.is_filled(test.into_any()));
    assert_eq!(store.get_or_insert(named).unwrap(), "fresh");

    store.set(test, 9);
    assert!(store.is_filled(test.into_any()));
    store.get_or_insert_any(test.into_any());
    assert_eq!(store.get_or_insert(test).unwrap(), &9);
}

#[test]
fn data_of_another_type_is_not_handed_out() {
    let mut linker = TestLinker::default();
    let mut builder = HostComponents::builder();
    let test = builder.add_host_component(&mut linker, TestHC, "TestHC").unwrap();
    let registry = builder.build();
    let mut store = registry.new_data();
    store.set(test, 3);

    // A handle of another registry, whose first component is of another kind.
    let mut other = HostComponents::builder();
    let wrong = other.add_host_component(&mut linker, Named, "Named").unwrap();
    assert_eq!(wrong.into_any(), test.into_any());
    assert!(store.get_or_insert(wrong).is_none());
    assert_eq!(store.get_or_insert(test).unwrap(), &3);
}

#[test]
fn handle_of_a_shared_component_serves_the_component_itself() {
    let mut linker = TestLinker::default();
    let mut builder = HostComponents::builder();
    let shared = builder
        .add_host_component(&mut linker, Arc::new(Named), "Arc<Named>")
        .unwrap();
    let registry = builder.build();
    let mut store = registry.new_data();
    let plain: HostComponentDataHandle<Named> = HostComponentDataHandle::from(shared);
    assert_eq!(AnyHostComponentDataHandle::from(plain), shared.into_any());
    assert_eq!(store.get_or_insert(plain).unwrap(), "fresh");
    store.get_or_insert(plain).unwrap().push_str("er");
    assert_eq!(store.get_or_insert(shared).unwrap(), "fresher");
    assert_eq!(linker.bound, vec![("named".to_owned(), shared.into_any())]);
}

fn shared_between_threads<T: Send + Sync>() {}

fn moved_between_threads<T: Send>() {}

#[test]
fn registry_is_shared_and_stores_move_between_threads() {
    shared_between_threads::<HostComponents>();
    moved_between_threads::<HostComponentsBuilder>();
    moved_between_threads::<host_components::host_component::HostComponentsData>();
    shared_between_threads::<HostComponentDataHandle<TestHC>>();
    shared_between_threads::<AnyHostComponentDataHandle>();
}
