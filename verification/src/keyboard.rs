//! Dispatch of keyboard events to the parts of a program that registered
//! for their keys.
use std::collections::HashMap;
use vstd::prelude::*;
use crate::input::{Key, KeyInput, spec_key_code};

verus! {

broadcast use vstd::std_specs::hash::group_hash_axioms;

/// A part of a program that reacts to some keys.
pub trait KeyboardInteract {
    /// The keys this part reacts to.
    spec fn spec_keycodes(&self) -> Seq<Key>;

    /// Prepares the part when it is registered.
    fn init(&self);

    /// The keys this part reacts to.
    fn interact_keycodes(&self) -> (v: Vec<Key>)
        ensures
            v@ == self.spec_keycodes(),
    ;

    /// Whether reacting to `input` may take this part to the state `after`;
    /// each implementation says what its reaction does.
    spec fn interacted(&self, input: KeyInput, after: &Self) -> bool;

    /// Reacts to an event of one of its keys.
    fn interact(&mut self, input: KeyInput)
        ensures
            old(self).interacted(input, &*final(self)),
    ;
}

/// The bindings after each of `keys` is bound to `index`.
pub open spec fn bind_keys(m: Map<u64, usize>, keys: Seq<Key>, index: usize) -> Map<u64, usize>
    decreases keys.len(),
{
    if keys.len() == 0 {
        m
    } else {
        bind_keys(m, keys.drop_last(), index).insert(spec_key_code(keys.last()), index)
    }
}

/// The part that an event goes to: the one bound to its key, if any.
pub open spec fn spec_dispatch(bindings: Map<u64, usize>, input: KeyInput) -> Option<usize> {
    match input.keycode {
        Some(k) => if bindings.contains_key(spec_key_code(k)) {
            Some(bindings[spec_key_code(k)])
        } else {
            None
        },
        None => None,
    }
}

/// Holds the registered parts and, for each key, the part it goes to.
#[verifier::reject_recursive_types(T)]
pub struct KeyboardHandler<T: KeyboardInteract> {
    interacts: Vec<T>,
    interact_map: HashMap<u64, usize>,
}

impl<T: KeyboardInteract> KeyboardHandler<T> {
    /// The registered parts, in the order of registration.
    pub closed spec fn interacts(&self) -> Seq<T> {
        self.interacts@
    }

    /// For each key number, the index of the part that its events go to.
    pub closed spec fn bindings(&self) -> Map<u64, usize> {
        self.interact_map@
    }

    /// Every binding names a registered part.
    pub closed spec fn wf(&self) -> bool {
        forall|c: u64| #[trigger]
            self.interact_map@.contains_key(c) ==> self.interact_map@[c] < self.interacts@.len()
    }

    /// A handler with no part registered.
    pub fn new() -> (h: Self)
        ensures
            h.wf(),
            h.interacts() == Seq::<T>::empty(),
            h.bindings() == Map::<u64, usize>::empty(),
    {
        KeyboardHandler { interacts: Vec::new(), interact_map: HashMap::new() }
    }

    /// Registers a part: it is prepared, then each of its keys is bound to
    /// it, in place of any part registered before for that key.
    pub fn register(&mut self, interact: T) -> (index: usize)
        requires
            old(self).wf(),
        ensures
            final(self).wf(),
            index == old(self).interacts().len(),
            final(self).interacts() == old(self).interacts().push(interact),
            final(self).bindings() == bind_keys(old(self).bindings(), interact.spec_keycodes(), index),
    {
        interact.init();
        let index = self.interacts.len();
        let keys = interact.interact_keycodes();
        let n = keys.len();
        let mut i: usize = 0;
        assert(keys@.take(0) =~= seq![]);
        while i < n
            invariant
                n == keys.len(),
                i <= n,
                index == self.interacts.len(),
                self.interacts@ == old(self).interacts@,
                keys@ == interact.spec_keycodes(),
                self.interact_map@ == bind_keys(old(self).interact_map@, keys@.take(i as int), index),
                forall|c: u64| #[trigger]
                    self.interact_map@.contains_key(c) ==> self.interact_map@[c] <= index,
            decreases n - i,
        {
            let code = keys[i].code();
            self.interact_map.insert(code, index);
            assert(keys@.take(i + 1).drop_last() =~= keys@.take(i as int));
            i = i + 1;
        }
        assert(keys@.take(n as int) =~= keys@);
        self.interacts.push(interact);
        index
    }

    /// Sends an event to the part bound to its key, if there is one, which
    /// reacts to it, and tells which part that was; the other parts are left
    /// as they are.
    pub fn process_keyboard(&mut self, input: KeyInput) -> (dispatched: Option<usize>)
        requires
            old(self).wf(),
        ensures
            final(self).wf(),
            dispatched == spec_dispatch(old(self).bindings(), input),
            dispatched matches Some(j) ==> old(self).interacts()[j as int].interacted(
                input,
                &final(self).interacts()[j as int],
            ),
            final(self).bindings() == old(self).bindings(),
            final(self).interacts().len() == old(self).interacts().len(),
            forall|j: int|
                0 <= j < old(self).interacts().len() && dispatched != Some(j as usize)
                    ==> #[trigger] final(self).interacts()[j] == old(self).interacts()[j],
    {
        match input.keycode {
            Some(k) => {
                let code = k.code();
                match self.interact_map.get(&code) {
                    Some(index) => {
                        let index = *index;
                        assert(self.interact_map@.contains_key(code));
                        self.interacts[index].interact(input);
                        Some(index)
                    },
                    None => None,
                }
            },
            None => None,
        }
    }
}

/// After a part is registered, an event of any of its keys goes to it, and an
/// event of any other key goes where it went before.
pub proof fn lemma_register_then_dispatch(
    bindings: Map<u64, usize>,
    keys: Seq<Key>,
    index: usize,
    input: KeyInput,
)
    ensures
        input.keycode matches Some(k) && keys.contains(k) ==> spec_dispatch(
            bind_keys(bindings, keys, index),
            input,
        ) == Some(index),
        input.keycode matches Some(k) && !keys.contains(k) ==> spec_dispatch(
            bind_keys(bindings, keys, index),
            input,
        ) == spec_dispatch(bindings, input),
        input.keycode is None ==> spec_dispatch(bind_keys(bindings, keys, index), input) is None,
    decreases keys.len(),
{
    if keys.len() > 0 {
        lemma_register_then_dispatch(bindings, keys.drop_last(), index, input);
        if let Some(k) = input.keycode {
            crate::input::lemma_key_code_injective(k, keys.last());
            if keys.contains(k) && k != keys.last() {
                let j = choose|j: int| 0 <= j < keys.len() && keys[j] == k;
                assert(keys.drop_last()[j] == k);
            }
            if keys.drop_last().contains(k) {
                let j = choose|j: int| 0 <= j < keys.drop_last().len() && keys.drop_last()[j] == k;
                assert(keys[j] == k);
            }
            if k == keys.last() {
                assert(keys[keys.len() - 1] == k);
            }
        }
    }
}


/// The bindings of a handler with no part after parts with the key lists
/// `keysets` are registered in turn, the part at place `j` under index `j`.
pub open spec fn bindings_after(keysets: Seq<Seq<Key>>) -> Map<u64, usize>
    decreases keysets.len(),
{
    if keysets.len() == 0 {
        Map::empty()
    } else {
        bind_keys(bindings_after(keysets.drop_last()), keysets.last(), (keysets.len() - 1) as usize)
    }
}

/// After parts are registered in turn into a handler with no part, an event
/// of a key goes to the last registered part that has that key, and nowhere
/// when no part has it: later registrations win.
pub proof fn lemma_later_registration_wins(keysets: Seq<Seq<Key>>, input: KeyInput)
    requires
        keysets.len() <= usize::MAX,
    ensures
        match spec_dispatch(bindings_after(keysets), input) {
            Some(j) => input.keycode matches Some(k) && j < keysets.len() && keysets[j as int].contains(k)
                && forall|m: int| j < m < keysets.len() ==> !(#[trigger] keysets[m]).contains(k),
            None => input.keycode is None || forall|m: int|
                0 <= m < keysets.len() ==> !(#[trigger] keysets[m]).contains(input.keycode->0),
        },
    decreases keysets.len(),
{
    if keysets.len() > 0 {
        let prev = keysets.drop_last();
        let last = (keysets.len() - 1) as usize;
        lemma_later_registration_wins(prev, input);
        lemma_register_then_dispatch(bindings_after(prev), keysets.last(), last, input);
        assert forall|m: int| 0 <= m < prev.len() implies #[trigger] prev[m] == keysets[m] by {}
        if let Some(k) = input.keycode {
            if keysets.last().contains(k) {
                assert(keysets[keysets.len() - 1] == keysets.last());
            } else {
                match spec_dispatch(bindings_after(prev), input) {
                    Some(j) => {
                        assert(prev[j as int] == keysets[j as int]);
                        assert forall|m: int| j < m < keysets.len() implies !(#[trigger] keysets[m]).contains(k) by {
                            if m < prev.len() {
                                assert(prev[m] == keysets[m]);
                            } else {
                                assert(keysets[m] == keysets.last());
                            }
                        }
                    },
                    None => {
                        assert forall|m: int| 0 <= m < keysets.len() implies !(#[trigger] keysets[m]).contains(k) by {
                            if m < prev.len() {
                                assert(prev[m] == keysets[m]);
                            } else {
                                assert(keysets[m] == keysets.last());
                            }
                        }
                    },
                }
            }
        }
    }
}

} // verus!
