use panic_context::ContextStore;
use panic_context::PanicContext;
use panic_context::panic_context;
use panic_context::render_dump;

#[test]
fn single_context() {
    let mut store = ContextStore::new();
    let _ctx = PanicContext::new(&mut store, format!("i={}", 2));
    let out = render_dump(&store);
    assert!(out.starts_with("Panic context:\ni=2\n"));
    assert_eq!(out, "Panic context:\ni=2\n");
}

#[test]
fn several_contexts() {
    let mut store = ContextStore::new();
    let _i = PanicContext::new(&mut store, format!("i={}", 2));
    let _j = PanicContext::new(&mut store, format!("j={}", 4));
    let out = render_dump(&store);
    assert!(out.starts_with("Panic context:\ni=2\nj=4\n"));
    assert_eq!(out, "Panic context:\ni=2\nj=4\n");
}

#[test]
fn update_value() {
    let mut store = ContextStore::new();
    let step = panic_context(&mut store, "step: ");
    step.update(&mut store, "initialization");
    step.update(&mut store, "compilation");
    let out = render_dump(&store);
    assert!(out.starts_with("Panic context:\nstep: compilation\n"));
    assert_eq!(out, "Panic context:\nstep: compilation\n");
}

#[test]
fn empty_dump_is_header_only() {
    let store = ContextStore::new();
    assert_eq!(render_dump(&store), "Panic context:\n");
}

#[test]
fn scope_release_leaves_no_trace() {
    let mut store = ContextStore::new();
    let outer = PanicContext::new(&mut store, String::from("outer"));
    let inner = PanicContext::new(&mut store, String::from("inner"));
    inner.release(&mut store);
    let out = render_dump(&store);
    assert_eq!(out, "Panic context:\nouter\n");
    assert!(!out.contains("inner"));
    outer.release(&mut store);
    assert_eq!(render_dump(&store), "Panic context:\n");
}

#[test]
fn update_keeps_creation_position() {
    let mut store = ContextStore::new();
    let step = panic_context(&mut store, "step: ");
    let _item = PanicContext::new(&mut store, String::from("item: yo"));
    step.update(&mut store, "calculate signatures");
    let out = render_dump(&store);
    assert_eq!(out, "Panic context:\nstep: calculate signatures\nitem: yo\n");
}

#[test]
fn updatable_slot_is_empty_until_first_update() {
    let mut store = ContextStore::new();
    let step = panic_context(&mut store, "step: ");
    assert_eq!(render_dump(&store), "Panic context:\n");
    step.update(&mut store, "start");
    assert_eq!(render_dump(&store), "Panic context:\nstep: start\n");
}

#[test]
fn updatable_leaves_last_value_behind() {
    let mut store = ContextStore::new();
    {
        let step = panic_context(&mut store, "step: ");
        step.update(&mut store, "cleanup");
        drop(step);
    }
    // The updatable flavor removes nothing on release: the last text stays.
    assert_eq!(render_dump(&store), "Panic context:\nstep: cleanup\n");
}
