use shader_store::resources::resources::next_hop;
use shader_store::resources::{
    replace_with, AnyResourceId, LoadError, Resource, ResourceId, Resources,
};
use std::collections::HashMap;

/// A resource for the tests: a text file whose lines of the form `use <path>`
/// name further files to load.
#[derive(Debug, PartialEq)]
struct Node {
    path: String,
    text: String,
    deps: Vec<AnyResourceId>,
    seen: Vec<AnyResourceId>,
}

#[derive(Default)]
struct World {
    files: HashMap<String, String>,
    loads: Vec<String>,
    reloads: Vec<String>,
    hooks: Vec<(String, AnyResourceId)>,
    answers: HashMap<String, Result<bool, String>>,
    held: Vec<ResourceId>,
    notes: Vec<String>,
}

impl World {
    fn with(files: &[(&str, &str)]) -> World {
        let mut world = World::default();
        for (path, text) in files {
            world.files.insert(path.to_string(), text.to_string());
        }
        world
    }

    fn write(&mut self, path: &str, text: &str) {
        self.files.insert(path.to_string(), text.to_string());
    }

    fn canonical(&self, path: &str) -> Option<String> {
        let plain = path.trim_start_matches("./").to_string();
        if self.files.contains_key(&plain) {
            Some(plain)
        } else {
            None
        }
    }
}

impl Resource for Node {
    type Context = World;
    type Error = String;

    fn load(path: &str, ctx: &mut World, res: &mut Resources<Node>) -> Result<Node, String> {
        ctx.loads.push(path.to_string());
        let text = match ctx.files.get(path) {
            Some(text) => text.clone(),
            None => return Err(format!("cannot read {}", path)),
        };
        let mut deps = Vec::new();
        for line in text.lines() {
            if line == "broken" {
                return Err(format!("{} is broken", path));
            }
            if line == "reload me" {
                let nested = res.reload(path, ctx);
                ctx.notes.push(format!("nested reload of {}: {:?}", path, nested));
            }
            if line == "let go" {
                for id in ctx.held.drain(..) {
                    res.release(id);
                }
                res.clean();
                ctx.notes.push(format!("let go in {}", path));
            }
            if let Some(dep) = line.strip_prefix("use ") {
                let canonical = ctx.canonical(dep);
                match res.insert(canonical, ctx) {
                    Ok(id) => {
                        deps.push(id.into_any());
                        ctx.held.push(id);
                    }
                    Err(LoadError::PathError) => return Err(format!("no such file {}", dep)),
                    Err(LoadError::Construct(e)) => return Err(e),
                }
            }
        }
        Ok(Node { path: path.to_string(), text, deps, seen: Vec::new() })
    }

    fn reload(&mut self, path: &str, ctx: &mut World, res: &mut Resources<Node>) -> Result<(), String> {
        ctx.reloads.push(path.to_string());
        let fresh = Node::load(path, ctx, res)?;
        *self = fresh;
        Ok(())
    }

    fn reload_dependency(
        &mut self,
        dependency: AnyResourceId,
        ctx: &mut World,
        _res: &Resources<Node>,
    ) -> Result<bool, String> {
        ctx.hooks.push((self.path.clone(), dependency));
        match ctx.answers.get(&self.path) {
            Some(Ok(answer)) => {
                if *answer {
                    self.seen.push(dependency);
                }
                Ok(*answer)
            }
            Some(Err(e)) => Err(e.clone()),
            None => Ok(false),
        }
    }
}

fn load(store: &mut Resources<Node>, world: &mut World, path: &str) -> Result<ResourceId, LoadError<String>> {
    let canonical = world.canonical(path);
    store.insert(canonical, world)
}

fn chain() -> (Resources<Node>, World, ResourceId, AnyResourceId, AnyResourceId) {
    let mut world = World::with(&[("a", "leaf"), ("b", "use a"), ("c", "use b")]);
    let mut store = Resources::new();
    let c = load(&mut store, &mut world, "c").unwrap();
    let b = store.get(&c).unwrap().deps[0];
    let a = store.get_any(b).unwrap().deps[0];
    (store, world, c, b, a)
}

#[test]
fn a_new_store_is_empty() {
    let store: Resources<Node> = Resources::new();
    assert_eq!(store.entries(), 0);
    assert!(!store.is_full());
    assert_eq!(store.lookup("a"), None);
}

#[test]
fn load_fills_the_first_slot() {
    let mut world = World::with(&[("a", "hello")]);
    let mut store = Resources::new();
    let a = load(&mut store, &mut world, "a").unwrap();
    assert_eq!(a.id(), 0);
    assert_eq!(a.generation(), 0);
    assert_eq!(a.into_any(), AnyResourceId { idx: 0, generation: 0 });
    assert_eq!(store.get(&a).unwrap().text, "hello");
    assert_eq!(store.entries(), 1);
    assert_eq!(store.lookup("a"), Some(a.into_any()));
    assert_eq!(store.parent_of(a.into_any()), None);
    assert_eq!(world.loads, vec!["a".to_string()]);
}

#[test]
fn a_path_without_canonical_form_is_a_path_error() {
    let mut world = World::with(&[]);
    let mut store: Resources<Node> = Resources::new();
    let r = load(&mut store, &mut world, "missing");
    assert!(matches!(r, Err(LoadError::PathError)));
    assert_eq!(store.entries(), 0);
    assert!(world.loads.is_empty());
}

#[test]
fn a_failing_constructor_is_a_construct_error() {
    let mut world = World::with(&[("a", "broken")]);
    let mut store: Resources<Node> = Resources::new();
    match load(&mut store, &mut world, "a") {
        Err(LoadError::Construct(e)) => assert_eq!(e, "a is broken"),
        other => panic!("unexpected: {:?}", other),
    }
}

#[test]
fn two_paths_of_one_canonical_form_give_one_resource() {
    let mut world = World::with(&[("a", "hello")]);
    let mut store = Resources::new();
    let first = load(&mut store, &mut world, "a").unwrap();
    let second = load(&mut store, &mut world, "./a").unwrap();
    assert_eq!(first, second);
    assert_eq!(store.entries(), 1);
    assert_eq!(world.loads.len(), 1);
}

#[test]
fn a_failed_load_leaves_nothing_behind() {
    let mut world = World::with(&[("a", "broken")]);
    let mut store: Resources<Node> = Resources::new();
    assert!(load(&mut store, &mut world, "a").is_err());
    assert_eq!(store.lookup("a"), None);
    assert_eq!(store.entries(), 1);
    world.write("a", "mended");
    let a = load(&mut store, &mut world, "a").unwrap();
    assert_eq!(world.loads.len(), 2);
    assert_eq!(store.entries(), 1);
    assert_eq!(a.id(), 0);
    assert_eq!(a.generation(), 1);
    assert_eq!(store.get(&a).unwrap().text, "mended");
}

#[test]
fn a_failed_nested_load_fails_the_outer_load_and_frees_both_slots() {
    let mut world = World::with(&[("a", "broken"), ("b", "use a")]);
    let mut store: Resources<Node> = Resources::new();
    match load(&mut store, &mut world, "b") {
        Err(LoadError::Construct(e)) => assert_eq!(e, "a is broken"),
        other => panic!("unexpected: {:?}", other),
    }
    assert_eq!(store.entries(), 2);
    assert_eq!(store.lookup("a"), None);
    assert_eq!(store.lookup("b"), None);
    world.write("a", "leaf");
    let b = load(&mut store, &mut world, "b").unwrap();
    assert_eq!(store.entries(), 2);
    assert_eq!(b.id(), 0);
    assert_eq!(store.get(&b).unwrap().deps[0].idx, 1);
}

#[test]
fn an_old_handle_finds_nothing_once_its_slot_is_in_use_again() {
    let mut world = World::with(&[("a", "first"), ("b", "second")]);
    let mut store = Resources::new();
    let a = load(&mut store, &mut world, "a").unwrap();
    let old = a.into_any();
    store.release(a);
    store.clean();
    assert!(store.get_any(old).is_none());
    let b = load(&mut store, &mut world, "b").unwrap();
    assert_eq!(b.id(), old.idx);
    assert_eq!(b.generation(), old.generation + 1);
    assert!(store.get_any(old).is_none());
    assert_eq!(store.get(&b).unwrap().text, "second");
}

#[test]
fn the_load_in_progress_becomes_the_parent() {
    let (store, world, c, b, a) = chain();
    assert_eq!(world.loads, vec!["c".to_string(), "b".to_string(), "a".to_string()]);
    assert_eq!(store.parent_of(a), Some(b));
    assert_eq!(store.parent_of(b), Some(c.into_any()));
    assert_eq!(store.parent_of(c.into_any()), None);
    assert_eq!(c.id(), 0);
    assert_eq!(b.idx, 1);
    assert_eq!(a.idx, 2);
}

#[test]
fn a_second_loader_does_not_become_the_parent() {
    let mut world = World::with(&[("a", "leaf"), ("b", "use a"), ("d", "use a")]);
    let mut store = Resources::new();
    let b = load(&mut store, &mut world, "b").unwrap();
    let d = load(&mut store, &mut world, "d").unwrap();
    let a = store.get(&b).unwrap().deps[0];
    assert_eq!(store.get(&d).unwrap().deps[0], a);
    assert_eq!(store.parent_of(a), Some(b.into_any()));
    assert_eq!(world.loads, vec!["b".to_string(), "a".to_string(), "d".to_string()]);
}

#[test]
fn a_failed_reload_keeps_the_value() {
    let mut world = World::with(&[("a", "good")]);
    let mut store = Resources::new();
    let a = load(&mut store, &mut world, "a").unwrap();
    world.write("a", "broken");
    assert_eq!(store.reload("a", &mut world), Err("a is broken".to_string()));
    let node = store.get(&a).unwrap();
    assert_eq!(node.text, "good");
    assert_eq!(world.reloads, vec!["a".to_string()]);
    world.write("a", "better");
    assert_eq!(store.reload("a", &mut world), Ok(true));
    assert_eq!(store.get(&a).unwrap().text, "better");
    assert_eq!(a.generation(), 0);
}

#[test]
fn reconstruct_keeps_the_value_on_failure_and_tells_nobody() {
    let (mut store, mut world, _c, b, a) = chain();
    world.answers.insert("b".to_string(), Ok(true));
    world.write("a", "broken");
    assert_eq!(store.reconstruct(a, "a", &mut world), Err("a is broken".to_string()));
    assert_eq!(store.get_any(a).unwrap().text, "leaf");
    world.write("a", "new leaf");
    assert_eq!(store.reconstruct(a, "a", &mut world), Ok(true));
    assert_eq!(store.get_any(a).unwrap().text, "new leaf");
    assert!(world.hooks.is_empty());
    assert_eq!(store.reconstruct(AnyResourceId { idx: 7, generation: 0 }, "a", &mut world), Ok(false));
    assert_eq!(store.parent_of(a), Some(b));
}

#[test]
fn an_unaffected_parent_ends_the_walk() {
    let (mut store, mut world, c, b, a) = chain();
    world.answers.insert("b".to_string(), Ok(false));
    world.answers.insert("c".to_string(), Ok(true));
    world.write("a", "changed");
    assert_eq!(store.reload("a", &mut world), Ok(true));
    assert_eq!(world.hooks, vec![("b".to_string(), a)]);
    assert!(store.get(&c).unwrap().seen.is_empty());
    assert!(store.get_any(b).unwrap().seen.is_empty());
    assert_eq!(store.get_any(a).unwrap().text, "changed");
}

#[test]
fn an_affected_parent_passes_the_word_on() {
    let (mut store, mut world, c, b, a) = chain();
    world.answers.insert("b".to_string(), Ok(true));
    world.answers.insert("c".to_string(), Ok(true));
    world.write("a", "changed");
    assert_eq!(store.reload("a", &mut world), Ok(true));
    assert_eq!(world.hooks, vec![("b".to_string(), a), ("c".to_string(), b)]);
    assert_eq!(store.get(&c).unwrap().seen, vec![b]);
    assert_eq!(store.get_any(b).unwrap().seen, vec![a]);
}

#[test]
fn a_failing_parent_ends_the_walk_with_its_error() {
    let (mut store, mut world, c, b, a) = chain();
    world.answers.insert("b".to_string(), Err("b cannot follow".to_string()));
    world.answers.insert("c".to_string(), Ok(true));
    world.write("a", "changed");
    assert_eq!(store.reload("a", &mut world), Err("b cannot follow".to_string()));
    assert_eq!(world.hooks, vec![("b".to_string(), a)]);
    assert_eq!(store.get_any(a).unwrap().text, "changed");
    assert!(store.get_any(b).unwrap().seen.is_empty());
    assert!(store.get(&c).unwrap().seen.is_empty());
}

#[test]
fn the_walk_can_start_anywhere() {
    let (mut store, mut world, c, b, a) = chain();
    world.answers.insert("c".to_string(), Ok(true));
    assert_eq!(store.reload_dependency(c.into_any(), b, &mut world), Ok(()));
    assert_eq!(world.hooks, vec![("c".to_string(), b)]);
    world.hooks.clear();
    let nobody = AnyResourceId { idx: 9, generation: 0 };
    assert_eq!(store.reload_dependency(nobody, a, &mut world), Ok(()));
    assert!(world.hooks.is_empty());
}

#[test]
fn the_slot_is_freed_when_the_last_owner_lets_go() {
    let mut world = World::with(&[("a", "hello")]);
    let mut store = Resources::new();
    let first = load(&mut store, &mut world, "a").unwrap();
    let second = store.share(&first);
    let name = first.into_any();
    assert_eq!(first, second);
    store.release(first);
    store.clean();
    assert_eq!(store.get(&second).unwrap().text, "hello");
    assert_eq!(store.lookup("a"), Some(name));
    store.release(second);
    assert_eq!(store.get_any(name).unwrap().text, "hello");
    store.clean();
    assert!(store.get_any(name).is_none());
    assert_eq!(store.lookup("a"), None);
    store.clean();
    assert_eq!(store.entries(), 1);
    let again = load(&mut store, &mut world, "a").unwrap();
    assert_eq!(again.id(), 0);
    assert_eq!(again.generation(), 1);
    assert_eq!(world.loads.len(), 2);
}

#[test]
fn a_load_of_a_shared_path_counts_as_an_owner() {
    let mut world = World::with(&[("a", "hello")]);
    let mut store = Resources::new();
    let first = load(&mut store, &mut world, "a").unwrap();
    let second = load(&mut store, &mut world, "a").unwrap();
    store.release(first);
    assert_eq!(store.reload("a", &mut world), Ok(true));
    assert_eq!(store.get(&second).unwrap().text, "hello");
    store.release(second);
    assert_eq!(store.reload("a", &mut world), Ok(false));
}

#[test]
fn a_reload_of_an_unknown_path_changes_nothing() {
    let (mut store, mut world, c, b, a) = chain();
    let loads = world.loads.len();
    assert_eq!(store.reload("zzz", &mut world), Ok(false));
    assert_eq!(world.loads.len(), loads);
    assert!(world.reloads.is_empty());
    assert!(world.hooks.is_empty());
    assert_eq!(store.get(&c).unwrap().text, "use b");
    assert_eq!(store.get_any(b).unwrap().text, "use a");
    assert_eq!(store.get_any(a).unwrap().text, "leaf");
    assert_eq!(store.entries(), 3);
}

#[test]
fn get_mut_writes_through() {
    let mut world = World::with(&[("a", "hello")]);
    let mut store = Resources::new();
    let a = load(&mut store, &mut world, "a").unwrap();
    store.get_mut(&a).unwrap().text.push_str(" world");
    assert_eq!(store.get(&a).unwrap().text, "hello world");
    store.release(a);
}

#[test]
fn a_reload_may_load_further_files() {
    let mut world = World::with(&[("a", "leaf"), ("b", "plain"), ("x", "other")]);
    let mut store = Resources::new();
    let b = load(&mut store, &mut world, "b").unwrap();
    world.write("b", "use a\nuse x");
    assert_eq!(store.reload("b", &mut world), Ok(true));
    let deps = store.get(&b).unwrap().deps.clone();
    assert_eq!(deps.len(), 2);
    assert_eq!(store.parent_of(deps[0]), None);
    assert_eq!(store.get_any(deps[0]).unwrap().text, "leaf");
    assert_eq!(store.get_any(deps[1]).unwrap().text, "other");
    assert_eq!(store.entries(), 3);
}

#[test]
fn next_hop_goes_up_only_from_an_affected_resource() {
    let parent = AnyResourceId { idx: 3, generation: 1 };
    assert_eq!(next_hop(true, Some(parent)), Some(parent));
    assert_eq!(next_hop(false, Some(parent)), None);
    assert_eq!(next_hop(true, None), None);
}

#[test]
fn a_resource_that_reloads_cannot_be_reloaded_again() {
    let mut world = World::with(&[("a", "plain")]);
    let mut store = Resources::new();
    let a = load(&mut store, &mut world, "a").unwrap();
    world.write("a", "reload me");
    assert_eq!(store.reload("a", &mut world), Ok(true));
    assert_eq!(world.notes, vec!["nested reload of a: Ok(false)".to_string()]);
    assert_eq!(world.reloads, vec!["a".to_string()]);
    assert_eq!(store.get(&a).unwrap().text, "reload me");
}

#[test]
fn a_resource_that_reloads_is_not_freed_under_its_feet() {
    let mut world = World::with(&[("a", "plain")]);
    let mut store = Resources::new();
    let a = load(&mut store, &mut world, "a").unwrap();
    let name = a.into_any();
    world.held.push(a);
    world.write("a", "let go");
    assert_eq!(store.reload("a", &mut world), Ok(true));
    assert_eq!(world.notes, vec!["let go in a".to_string()]);
    assert_eq!(store.get_any(name).unwrap().text, "let go");
    assert_eq!(store.lookup("a"), Some(name));
    store.clean();
    assert!(store.get_any(name).is_none());
    assert_eq!(store.lookup("a"), None);
    assert_eq!(store.entries(), 1);
}

#[test]
fn remove_frees_at_once() {
    let mut world = World::with(&[("a", "first"), ("b", "second")]);
    let mut store = Resources::new();
    let a = load(&mut store, &mut world, "a").unwrap();
    let b = load(&mut store, &mut world, "b").unwrap();
    let name = a.into_any();
    let twin = store.share(&a);
    store.remove(a);
    assert!(store.get(&twin).is_none());
    assert!(store.get_any(name).is_none());
    assert_eq!(store.lookup("a"), None);
    assert_eq!(store.get(&b).unwrap().text, "second");
    store.remove_any(name);
    store.remove_any(AnyResourceId { idx: 1, generation: 5 });
    assert_eq!(store.get(&b).unwrap().text, "second");
    store.release(twin);
    store.clean();
    let again = load(&mut store, &mut world, "a").unwrap();
    assert_eq!(again.into_any(), AnyResourceId { idx: 0, generation: 1 });
    assert!(store.get_any(name).is_none());
}

#[test]
fn a_stale_release_frees_nothing() {
    let mut world = World::with(&[("a", "first"), ("b", "second")]);
    let mut store = Resources::new();
    let a = load(&mut store, &mut world, "a").unwrap();
    let twin = store.share(&a);
    store.remove(a);
    let b = load(&mut store, &mut world, "b").unwrap();
    assert_eq!(b.id(), 0);
    assert_eq!(b.generation(), 1);
    store.release(twin);
    store.clean();
    assert_eq!(store.get(&b).unwrap().text, "second");
}

#[test]
fn the_slots_freed_last_are_reused_first() {
    let mut world = World::with(&[("a", "1"), ("b", "2"), ("c", "3"), ("d", "4"), ("e", "5")]);
    let mut store = Resources::new();
    let a = load(&mut store, &mut world, "a").unwrap();
    let b = load(&mut store, &mut world, "b").unwrap();
    let c = load(&mut store, &mut world, "c").unwrap();
    store.release(a);
    store.release(c);
    store.clean();
    let d = load(&mut store, &mut world, "d").unwrap();
    let e = load(&mut store, &mut world, "e").unwrap();
    assert_eq!(d.into_any(), AnyResourceId { idx: 2, generation: 1 });
    assert_eq!(e.into_any(), AnyResourceId { idx: 0, generation: 1 });
    assert_eq!(store.entries(), 3);
    assert_eq!(store.get(&b).unwrap().text, "2");
}

/// A resource that keeps to what the contract gives every resource: it only
/// says how it is built.
#[derive(Debug, PartialEq)]
struct Plain {
    text: String,
}

struct Shelf {
    texts: HashMap<String, String>,
    loads: u32,
}

impl Resource for Plain {
    type Context = Shelf;
    type Error = String;

    fn load(path: &str, ctx: &mut Shelf, _res: &mut Resources<Plain>) -> Result<Plain, String> {
        ctx.loads += 1;
        match ctx.texts.get(path) {
            Some(text) => Ok(Plain { text: text.clone() }),
            None => Err(format!("no text for {}", path)),
        }
    }
}

fn shelf(texts: &[(&str, &str)]) -> Shelf {
    Shelf {
        texts: texts.iter().map(|(k, v)| (k.to_string(), v.to_string())).collect(),
        loads: 0,
    }
}

#[test]
fn replace_with_takes_the_new_value() {
    let mut current = 1u32;
    let built: Result<u32, String> = Ok(2);
    assert_eq!(replace_with(&mut current, built), Ok(()));
    assert_eq!(current, 2);
}

#[test]
fn replace_with_keeps_the_value_on_failure() {
    let mut current = 1u32;
    let built: Result<u32, String> = Err("broken".to_string());
    assert_eq!(replace_with(&mut current, built), Err("broken".to_string()));
    assert_eq!(current, 1);
}

#[test]
fn a_resource_is_rebuilt_by_its_constructor_unless_it_says_otherwise() {
    let mut shelf = shelf(&[("a", "first")]);
    let mut store: Resources<Plain> = Resources::new();
    let a = store.insert(Some("a".to_string()), &mut shelf).unwrap();
    shelf.texts.insert("a".to_string(), "second".to_string());
    assert_eq!(store.reload("a", &mut shelf), Ok(true));
    assert_eq!(store.get(&a), Some(&Plain { text: "second".to_string() }));
    assert_eq!(shelf.loads, 2);
    shelf.texts.remove("a");
    assert_eq!(store.reload("a", &mut shelf), Err("no text for a".to_string()));
    assert_eq!(store.get(&a), Some(&Plain { text: "second".to_string() }));
    assert_eq!(shelf.loads, 3);
}

#[test]
fn a_resource_is_not_affected_unless_it_says_otherwise() {
    let mut shelf = shelf(&[("a", "first"), ("b", "other")]);
    let mut store: Resources<Plain> = Resources::new();
    let a = store.insert(Some("a".to_string()), &mut shelf).unwrap();
    let b = store.insert(Some("b".to_string()), &mut shelf).unwrap();
    let mut value = Plain { text: "held".to_string() };
    assert_eq!(value.reload_dependency(b.into_any(), &mut shelf, &store), Ok(false));
    assert_eq!(value, Plain { text: "held".to_string() });
    assert_eq!(store.reload_dependency(a.into_any(), b.into_any(), &mut shelf), Ok(()));
    assert_eq!(store.get(&a), Some(&Plain { text: "first".to_string() }));
    assert_eq!(store.get(&b), Some(&Plain { text: "other".to_string() }));
    assert_eq!(shelf.loads, 2);
}

#[test]
fn an_unaffected_resource_keeps_its_value() {
    let (mut store, mut world, _c, b, a) = chain();
    let before = format!("{:?}", store.get_any(b).unwrap());
    world.answers.insert("b".to_string(), Ok(false));
    assert_eq!(store.reload_dependency(b, a, &mut world), Ok(()));
    assert_eq!(format!("{:?}", store.get_any(b).unwrap()), before);
}
