//! The loop context of the 2D programs: event handlers registered under
//! names, each of which sees every event.
use std::collections::HashMap;
use vstd::prelude::*;
use crate::input::{Key, KeyInput, spec_key_code};
use crate::keyboard::KeyboardInteract;
use crate::text::str_eq;
use crate::search::{first_index, lemma_first_index_bounds, lemma_first_index_append, lemma_first_index_at};

verus! {

broadcast use vstd::std_specs::hash::group_hash_axioms;

/// Something that reacts to the events of the loop.
pub trait EventHandler<E> {
    /// Whether handling `event` may take this handler to the state `after`;
    /// each implementation says what its handling does.
    spec fn handled(&self, event: &E, after: &Self) -> bool;

    /// Reacts to `event`.
    fn handle_event(&mut self, event: &E)
        ensures
            old(self).handled(event, &*final(self)),
    ;
}

/// The value registered under `key`, if any.
pub open spec fn spec_lookup<T>(names: Seq<Seq<char>>, values: Seq<T>, key: Seq<char>) -> Option<T> {
    if names.contains(key) {
        Some(values[first_index(names, key)])
    } else {
        None
    }
}

/// Event handlers, each registered under a name.
#[verifier::reject_recursive_types(T)]
pub struct LoopContext2D<T> {
    names: Vec<String>,
    handlers: Vec<T>,
}

/// Whether `names` holds a string equal to `key`, and where the first one is.
fn find_name(names: &Vec<String>, key: &str) -> (r: usize)
    ensures
        r == first_index(names@.map_values(|s: String| s@), key@),
{
    let ghost views = names@.map_values(|s: String| s@);
    proof {
        lemma_first_index_bounds(views, key@);
    }
    let n = names.len();
    let mut i: usize = 0;
    while i < n
        invariant
            n == names.len(),
            i <= n,
            views == names@.map_values(|s: String| s@),
            forall|j: int| 0 <= j < i ==> views[j] != key@,
        decreases n - i,
    {
        if str_eq(names[i].as_str(), key) {
            proof {
                lemma_first_index_at(views, key@, i as int);
            }
            return i;
        }
        i = i + 1;
    }
    proof {
        if views.contains(key@) {
            let j = choose|j: int| 0 <= j < views.len() && views[j] == key@;
            assert(views[j] != key@);
        }
    }
    i
}

impl<T> LoopContext2D<T> {
    /// The names under which handlers are registered, in registration order.
    pub closed spec fn names(&self) -> Seq<Seq<char>> {
        self.names@.map_values(|s: String| s@)
    }

    /// The handler registered under `key`, if any.
    pub closed spec fn lookup(&self, key: Seq<char>) -> Option<T> {
        spec_lookup(self.names(), self.handlers@, key)
    }

    /// Each name is registered once and has its handler.
    pub closed spec fn wf(&self) -> bool {
        &&& self.names@.len() == self.handlers@.len()
        &&& self.names().no_duplicates()
    }

    /// A context with no handler.
    pub fn new() -> (c: Self)
        ensures
            c.wf(),
            c.names() == Seq::<Seq<char>>::empty(),
            forall|k: Seq<char>| #[trigger] c.lookup(k) is None,
    {
        let c = LoopContext2D { names: Vec::new(), handlers: Vec::new() };
        assert(c.names() =~= Seq::<Seq<char>>::empty());
        c
    }

    /// Registers `handler` under `key`, in place of any handler registered
    /// under it before; the handlers under other names stay.
    pub fn register(&mut self, key: &str, handler: T)
        requires
            old(self).wf(),
        ensures
            final(self).wf(),
            final(self).lookup(key@) == Some(handler),
            forall|k: Seq<char>| k != key@ ==> #[trigger] final(self).lookup(k) == old(self).lookup(k),
    {
        let ghost old_names = self.names();
        let i = find_name(&self.names, key);
        proof {
            lemma_first_index_bounds(old_names, key@);
        }
        if i < self.names.len() {
            self.handlers.set(i, handler);
            proof {
                assert(self.names() == old_names);
                assert forall|k: Seq<char>| k != key@ implies #[trigger] self.lookup(k) == old(
                    self,
                ).lookup(k) by {
                    if old_names.contains(k) {
                        lemma_first_index_bounds(old_names, k);
                    }
                }
            }
        } else {
            let name = String::from_str(key);
            self.names.push(name);
            self.handlers.push(handler);
            proof {
                assert(self.names() =~= old_names.push(key@));
                lemma_first_index_at(self.names(), key@, old_names.len() as int);
                assert(self.names()[old_names.len() as int] == key@);
                assert forall|k: Seq<char>| k != key@ implies #[trigger] self.lookup(k) == old(
                    self,
                ).lookup(k) by {
                    if old_names.contains(k) {
                        lemma_first_index_bounds(old_names, k);
                        lemma_first_index_append(old_names, seq![key@], k);
                        assert(old_names + seq![key@] =~= self.names());
                        let j = choose|j: int| 0 <= j < old_names.len() && old_names[j] == k;
                        assert(self.names()[j] == k);
                    }
                    if self.names().contains(k) {
                        let j = choose|j: int| 0 <= j < self.names().len() && self.names()[j] == k;
                        if j < old_names.len() {
                            assert(old_names[j] == k);
                        }
                    }
                }
                assert forall|a: int, b: int|
                    0 <= a < self.names().len() && 0 <= b < self.names().len() && a != b implies self.names()[a]
                    != self.names()[b] by {
                    if a == old_names.len() {
                        assert(!old_names.contains(key@));
                        assert(old_names[b] == self.names()[b]);
                    } else if b == old_names.len() {
                        assert(old_names[a] == self.names()[a]);
                    }
                }
            }
        }
    }

    /// Whether a handler is registered under `key`.
    pub fn contains_key(&self, key: &str) -> (b: bool)
        requires
            self.wf(),
        ensures
            b == (self.lookup(key@) is Some),
    {
        let i = find_name(&self.names, key);
        proof {
            lemma_first_index_bounds(self.names(), key@);
        }
        i < self.names.len()
    }

    /// The handler registered under `key`, which must be there.
    pub fn get(&self, key: &str) -> (r: &T)
        requires
            self.wf(),
            self.lookup(key@) is Some,
        ensures
            Some(*r) == self.lookup(key@),
    {
        let i = find_name(&self.names, key);
        proof {
            lemma_first_index_bounds(self.names(), key@);
        }
        &self.handlers[i]
    }

    /// The handler registered under `key`, which must be there, to change.
    pub fn get_mut(&mut self, key: &str) -> (r: &mut T)
        requires
            old(self).wf(),
            old(self).lookup(key@) is Some,
        ensures
            Some(*r) == old(self).lookup(key@),
            final(self).names() == old(self).names(),
            final(self).wf(),
            final(self).lookup(key@) == Some(*final(r)),
            forall|k: Seq<char>| k != key@ ==> #[trigger] final(self).lookup(k) == old(self).lookup(k),
    {
        let i = find_name(&self.names, key);
        proof {
            lemma_first_index_bounds(self.names(), key@);
        }
        let ghost old_names = self.names();
        assert forall|k: Seq<char>| k != key@ && old_names.contains(k) implies first_index(old_names, k) != i
            && 0 <= first_index(old_names, k) < old_names.len() by {
            lemma_first_index_bounds(old_names, k);
        }
        &mut self.handlers[i]
    }

    /// Hands an event to every handler, in registration order: each handler
    /// under a name is left in a state that its own handling of the event
    /// leads to; the names stay.
    pub fn handle_event<E>(&mut self, event: &E)
        where T: EventHandler<E>,
        requires
            old(self).wf(),
        ensures
            final(self).wf(),
            final(self).names() == old(self).names(),
            forall|k: Seq<char>| #[trigger] final(self).lookup(k) is Some <==> old(self).lookup(k) is Some,
            forall|k: Seq<char>|
                #[trigger] old(self).lookup(k) is Some ==> old(self).lookup(k)->0.handled(
                    event,
                    &final(self).lookup(k)->0,
                ),
    {
        let ghost before = self.handlers@;
        let n = self.handlers.len();
        let mut i: usize = 0;
        while i < n
            invariant
                n == self.handlers.len(),
                n == before.len(),
                i <= n,
                self.names@ == old(self).names@,
                self.wf(),
                forall|j: int| 0 <= j < i ==> #[trigger] before[j].handled(event, &self.handlers@[j]),
                forall|j: int| i <= j < n ==> #[trigger] self.handlers@[j] == before[j],
            decreases n - i,
        {
            self.handlers[i].handle_event(event);
            i = i + 1;
        }
        proof {
            assert forall|k: Seq<char>| #[trigger] old(self).lookup(k) is Some implies old(self).lookup(
                k,
            )->0.handled(event, &self.lookup(k)->0) by {
                lemma_first_index_bounds(self.names(), k);
                let j = first_index(self.names(), k);
                assert(before[j].handled(event, &self.handlers@[j]));
            }
        }
    }
}

/// Parts that react to keys, each registered under a name, and for each key
/// the name of the part its events go to.
#[verifier::reject_recursive_types(T)]
pub struct KeyboardRegister<T: KeyboardInteract> {
    interactors: LoopContext2D<T>,
    interact_map: HashMap<u64, String>,
}

/// The bindings after each of `keys` is bound to the name `key`.
pub open spec fn bind_names(m: Map<u64, Seq<char>>, keys: Seq<Key>, key: Seq<char>) -> Map<u64, Seq<char>>
    decreases keys.len(),
{
    if keys.len() == 0 {
        m
    } else {
        bind_names(m, keys.drop_last(), key).insert(spec_key_code(keys.last()), key)
    }
}

impl<T: KeyboardInteract> KeyboardRegister<T> {
    /// The part registered under each name.
    pub closed spec fn lookup(&self, key: Seq<char>) -> Option<T> {
        self.interactors.lookup(key)
    }

    /// For each key number, the name of the part that its events go to.
    pub closed spec fn bindings(&self) -> Map<u64, Seq<char>> {
        self.interact_map@.map_values(|s: String| s@)
    }

    /// Every binding names a registered part.
    pub closed spec fn wf(&self) -> bool {
        &&& self.interactors.wf()
        &&& forall|c: u64| #[trigger]
            self.interact_map@.contains_key(c) ==> self.interactors.lookup(self.interact_map@[c]@) is Some
    }

    /// A register with no part.
    pub fn new() -> (r: Self)
        ensures
            r.wf(),
            forall|k: Seq<char>| #[trigger] r.lookup(k) is None,
            r.bindings() == Map::<u64, Seq<char>>::empty(),
    {
        let r = KeyboardRegister { interactors: LoopContext2D::new(), interact_map: HashMap::new() };
        assert(r.bindings() =~= Map::<u64, Seq<char>>::empty());
        r
    }

    /// Registers a part under `key`: it is prepared, each of its keys is bound
    /// to the name, and the part replaces any part registered under it.
    pub fn register(&mut self, key: String, keyboard_interact: T)
        requires
            old(self).wf(),
        ensures
            final(self).wf(),
            final(self).lookup(key@) == Some(keyboard_interact),
            forall|k: Seq<char>| k != key@ ==> #[trigger] final(self).lookup(k) == old(self).lookup(k),
            final(self).bindings() == bind_names(old(self).bindings(), keyboard_interact.spec_keycodes(), key@),
    {
        keyboard_interact.init();
        let keys = keyboard_interact.interact_keycodes();
        let ghost old_bindings = self.bindings();
        let n = keys.len();
        let mut i: usize = 0;
        assert(keys@.take(0) =~= seq![]);
        while i < n
            invariant
                n == keys.len(),
                i <= n,
                keys@ == keyboard_interact.spec_keycodes(),
                self.interactors == old(self).interactors,
                self.interactors.wf(),
                self.bindings() == bind_names(old_bindings, keys@.take(i as int), key@),
                forall|c: u64| #[trigger]
                    self.interact_map@.contains_key(c) ==> self.interactors.lookup(self.interact_map@[c]@) is Some
                        || self.interact_map@[c]@ == key@,
            decreases n - i,
        {
            let code = keys[i].code();
            let ghost before = self.bindings();
            self.interact_map.insert(code, key.clone());
            assert(keys@.take(i + 1).drop_last() =~= keys@.take(i as int));
            assert(self.bindings() =~= before.insert(code, key@));
            i = i + 1;
        }
        assert(keys@.take(n as int) =~= keys@);
        self.interactors.register(key.as_str(), keyboard_interact);
    }

    /// The part registered under `key`, which must be there.
    pub fn get(&self, key: &str) -> (r: &T)
        requires
            self.wf(),
            self.lookup(key@) is Some,
        ensures
            Some(*r) == self.lookup(key@),
    {
        self.interactors.get(key)
    }

    /// Sends an event to the part whose name its key is bound to, if any,
    /// which reacts to it, and tells the name; every part registered under
    /// another name stays.
    pub fn handle_keyboard(&mut self, input: KeyInput) -> (dispatched: Option<String>)
        requires
            old(self).wf(),
        ensures
            final(self).wf(),
            final(self).bindings() == old(self).bindings(),
            dispatched is None <==> (input.keycode is None || !old(self).bindings().contains_key(
                spec_key_code(input.keycode->0),
            )),
            dispatched matches Some(name) ==> name@ == old(self).bindings()[spec_key_code(input.keycode->0)],
            dispatched matches Some(name) ==> old(self).lookup(name@)->0.interacted(
                input,
                &final(self).lookup(name@)->0,
            ),
            forall|k: Seq<char>| #[trigger] final(self).lookup(k) is Some <==> old(self).lookup(k) is Some,
            forall|k: Seq<char>|
                (dispatched matches Some(name) ==> k != name@) ==> #[trigger] final(self).lookup(k) == old(
                    self,
                ).lookup(k),
    {
        match input.keycode {
            Some(code_key) => {
                let code = code_key.code();
                match self.interact_map.get(&code) {
                    Some(name) => {
                        let name = name.clone();
                        assert(self.interact_map@.contains_key(code));
                        let interact = self.interactors.get_mut(name.as_str());
                        interact.interact(input);
                        Some(name)
                    },
                    None => None,
                }
            },
            None => None,
        }
    }
}

} // verus!
