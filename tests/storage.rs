use component_storage::ComponentStorage;

#[derive(Debug)]
struct Foo;

#[derive(Debug)]
struct Bar {
    x: u32,
}

#[test]
fn add_type() {
    let mut cs = ComponentStorage::default();
    assert_eq!(cs.type_count(), 0);
    cs.add_type::<Foo>();
    cs.add_type::<Bar>();
    assert_eq!(cs.type_count(), 2);
}

#[test]
fn add_same_type() {
    let mut cs = ComponentStorage::default();
    assert_eq!(cs.type_count(), 0);
    cs.add_type::<Foo>();
    cs.add_type::<Foo>();
    assert_eq!(cs.type_count(), 1);
}

#[test]
fn get_vec() {
    let mut cs = ComponentStorage::default();
    cs.add_type::<Foo>();
    let foo_vec = cs.get_vec::<Foo>();
    let bar_vec = cs.get_vec::<Bar>();
    assert!(foo_vec.is_some());
    assert!(bar_vec.is_none());
}

#[test]
fn get_mut_vec() {
    let mut cs = ComponentStorage::default();
    cs.add_type::<Foo>();
    let foo_vec = cs.get_mut_vec::<Foo>();
    assert!(foo_vec.is_some());
    let bar_vec = cs.get_mut_vec::<Bar>();
    assert!(bar_vec.is_none());
}

#[test]
fn add_component() {
    let mut cs = ComponentStorage::default();
    cs.add_component(0, Foo {});
    match cs.get_vec::<Foo>() {
        Some(vec_t) => assert_eq!(vec_t.len(), 1),
        None => panic!("Vec should exist'"),
    }
}

#[test]
fn add_component_resize_check() {
    let mut cs = ComponentStorage::default();
    cs.add_component(0, Foo {});
    match cs.get_vec::<Foo>() {
        Some(vec_t) => assert_eq!(vec_t.len(), 1),
        None => panic!("Vec should exist'"),
    }

    cs.add_component(10, Foo {});
    match cs.get_vec::<Foo>() {
        Some(vec_t) => assert_eq!(vec_t.len(), 11),
        None => panic!("Vec should exist'"),
    }
}

#[test]
fn get_component() {
    let mut cs = ComponentStorage::default();
    cs.add_component(0, Foo {});
    match cs.get_component::<Foo>(0) {
        Some(_) => {}
        None => panic!("Component should exist"),
    }
}

#[test]
#[should_panic]
fn get_component_2() {
    let mut cs = ComponentStorage::default();
    cs.add_component(0, Foo {});
    match cs.get_component::<Bar>(0) {
        Some(_) => {}
        None => panic!("Component should exist"),
    }
}

#[test]
fn get_mut_component() {
    let mut cs = ComponentStorage::default();
    cs.add_component(0, Foo {});
    match cs.get_mut_component::<Foo>(0) {
        Some(_) => {}
        None => panic!("Component should exist"),
    }
}

#[test]
#[should_panic]
fn get_mut_component_2() {
    let mut cs = ComponentStorage::default();
    cs.add_component(0, Foo {});
    match cs.get_mut_component::<Bar>(0) {
        Some(_) => {}
        None => panic!("Component should exist"),
    }
}

#[test]
fn has_mut_component_changed() {
    let mut cs = ComponentStorage::default();
    cs.add_component(0, Bar { x: 100 });
    match cs.get_mut_component::<Bar>(0) {
        Some(bar) => {
            assert_eq!(bar.x, 100);
            bar.x = 200;
        }
        None => panic!("Component should exist"),
    }

    match cs.get_mut_component::<Bar>(0) {
        Some(bar) => {
            assert_eq!(bar.x, 200);
        }
        None => panic!("Component should exist"),
    }
}

#[test]
fn get_components_iter() {
    let mut cs = ComponentStorage::default();
    cs.add_component(0, Bar { x: 100 });
    match cs.get_components_iter::<Bar>() {
        Some(_) => {}
        None => panic!("Failed to get iter for components"),
    };
}

#[test]
fn remove_component() {
    let mut cs = ComponentStorage::default();
    cs.add_component(0, Foo {});
    match cs.get_component::<Foo>(0) {
        Some(_) => {}
        None => panic!("Added the wrong component to entity"),
    };
    cs.remove_component::<Foo>(0);
    match cs.get_component::<Foo>(0) {
        Some(_) => panic!("Failed to remove component"),
        None => {}
    };
}
