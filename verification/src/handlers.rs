//! The handlers that take interactive output while they are registered,
//! each under the identifier that it was registered with.

use vstd::prelude::*;

use crate::order::{lemma_position, position};

verus! {

/// The identifiers after `id` was registered: as before where it was
/// registered already, else with `id` at the end.
pub open spec fn ids_with(ids: Seq<u128>, id: u128) -> Seq<u128> {
    if ids.contains(id) {
        ids
    } else {
        ids.push(id)
    }
}

/// The identifiers after `id` was deregistered: as before where it was not
/// registered, else without it.
pub open spec fn ids_without(ids: Seq<u128>, id: u128) -> Seq<u128> {
    if ids.contains(id) {
        ids.remove(position(ids, id))
    } else {
        ids
    }
}

/// One call on the registry: a registration under an identifier, or the
/// deregistration of one.
pub enum RegistryCall {
    Register(u128),
    Deregister(u128),
}

/// The identifiers in use after a list of calls on a registry that began
/// empty.
pub open spec fn ids_after(calls: Seq<RegistryCall>) -> Seq<u128>
    decreases calls.len(),
{
    if calls.len() == 0 {
        Seq::empty()
    } else {
        match calls.last() {
            RegistryCall::Register(id) => ids_with(ids_after(calls.drop_last()), id),
            RegistryCall::Deregister(id) => ids_without(ids_after(calls.drop_last()), id),
        }
    }
}

/// How many of the calls are registrations.
pub open spec fn registrations(calls: Seq<RegistryCall>) -> nat
    decreases calls.len(),
{
    if calls.len() == 0 {
        0
    } else {
        registrations(calls.drop_last()) + (if calls.last() is Register {
            1nat
        } else {
            0nat
        })
    }
}

/// How many of the calls are deregistrations of an identifier that was in
/// use when they came.
pub open spec fn deregistrations(calls: Seq<RegistryCall>) -> nat
    decreases calls.len(),
{
    if calls.len() == 0 {
        0
    } else {
        deregistrations(calls.drop_last()) + (match calls.last() {
            RegistryCall::Deregister(id) if ids_after(calls.drop_last()).contains(id) => 1nat,
            _ => 0nat,
        })
    }
}

/// Whether every registration among the calls came with an identifier
/// that was not in use then.
pub open spec fn registers_unused(calls: Seq<RegistryCall>) -> bool
    decreases calls.len(),
{
    if calls.len() == 0 {
        true
    } else {
        registers_unused(calls.drop_last()) && (match calls.last() {
            RegistryCall::Register(id) => !ids_after(calls.drop_last()).contains(id),
            RegistryCall::Deregister(_) => true,
        })
    }
}

/// Registering and deregistering keep the identifiers distinct.
pub proof fn lemma_ids_distinct(ids: Seq<u128>, id: u128)
    requires
        ids.no_duplicates(),
    ensures
        ids_with(ids, id).no_duplicates(),
        ids_without(ids, id).no_duplicates(),
        ids_with(ids, id).contains(id),
        !ids_without(ids, id).contains(id),
        ids_without(ids, id).len() == ids.len() - (if ids.contains(id) {
            1int
        } else {
            0int
        }),
{
    lemma_position(ids, id);
    if !ids.contains(id) {
        assert(ids.push(id)[ids.len() as int] == id);
    }
}

/// At any point the handlers installed are as many as were registered
/// less those deregistered since, given that every registration came with
/// an identifier that was not in use.
pub proof fn lemma_installed_count(calls: Seq<RegistryCall>)
    requires
        registers_unused(calls),
    ensures
        ids_after(calls).no_duplicates(),
        ids_after(calls).len() == registrations(calls) - deregistrations(calls),
    decreases calls.len(),
{
    if calls.len() > 0 {
        lemma_installed_count(calls.drop_last());
        match calls.last() {
            RegistryCall::Register(id) | RegistryCall::Deregister(id) => {
                lemma_ids_distinct(ids_after(calls.drop_last()), id);
            },
        }
    }
}

/// Whether a line has to go to the raw sink after it was offered to the
/// handlers: it has where there was none or where one of them failed.
pub open spec fn needs_fallback(outcomes: Seq<Result<(), ()>>) -> bool {
    outcomes.len() == 0 || exists|i: int| 0 <= i < outcomes.len() && outcomes[i] is Err
}

/// Handlers by identifier, in the order in which they were registered.
pub struct StderrHandlers<H: Fn(&str) -> Result<(), ()>> {
    entries: Vec<(u128, H)>,
}

impl<H: Fn(&str) -> Result<(), ()>> StderrHandlers<H> {
    /// The identifiers in use, in the order of registration.
    pub closed spec fn ids(&self) -> Seq<u128> {
        self.entries@.map_values(|e: (u128, H)| e.0)
    }

    /// The handler of each identifier, in the same order.
    pub closed spec fn handlers(&self) -> Seq<H> {
        self.entries@.map_values(|e: (u128, H)| e.1)
    }

    /// Whether `after` is this registry once `callback` is registered
    /// under `id`: where `id` was in use, `callback` stands in the place of
    /// the handler that had it; else it stands at the end, and there is one
    /// handler more.
    pub open spec fn with_handler(&self, after: &Self, id: u128, callback: H) -> bool {
        &&& after.ids() == ids_with(self.ids(), id)
        &&& after.handlers() == (if self.ids().contains(id) {
            self.handlers().update(position(self.ids(), id), callback)
        } else {
            self.handlers().push(callback)
        })
        &&& after.ids().contains(id)
        &&& after.ids().len() == self.ids().len() + (if self.ids().contains(id) {
            0int
        } else {
            1int
        })
    }

    /// Whether `after` is this registry once `id` is deregistered: where
    /// `id` was in use, its handler is gone and there is one handler less;
    /// else nothing has changed.
    pub open spec fn without_handler(&self, after: &Self, id: u128) -> bool {
        &&& after.ids() == ids_without(self.ids(), id)
        &&& after.handlers() == (if self.ids().contains(id) {
            self.handlers().remove(position(self.ids(), id))
        } else {
            self.handlers()
        })
        &&& !after.ids().contains(id)
        &&& after.ids().len() == self.ids().len() - (if self.ids().contains(id) {
            1int
        } else {
            0int
        })
    }

    /// No identifier is in use twice, and every handler takes every line.
    pub closed spec fn wf(&self) -> bool {
        &&& self.ids().no_duplicates()
        &&& forall|i: int, line: &str|
            0 <= i < self.entries@.len() ==> #[trigger] call_requires(self.entries@[i].1, (line,))
    }

    /// What `wf` holds, for those who cannot look into the registry.
    pub proof fn lemma_wf(&self)
        requires
            self.wf(),
        ensures
            self.ids().len() == self.handlers().len(),
            self.ids().no_duplicates(),
            forall|i: int, line: &str|
                0 <= i < self.handlers().len() ==> #[trigger] call_requires(
                    self.handlers()[i],
                    (line,),
                ),
    {
    }

    /// A registry without handlers.
    pub fn new() -> (registry: Self)
        ensures
            registry.wf(),
            registry.ids() == Seq::<u128>::empty(),
            registry.handlers() == Seq::<H>::empty(),
    {
        let registry = StderrHandlers { entries: Vec::new() };
        registry
    }

    /// How many handlers are registered.
    pub fn len(&self) -> (n: usize)
        ensures
            n == self.ids().len(),
            n == self.handlers().len(),
    {
        self.entries.len()
    }

    /// A copy of the identifiers in use, in the order of registration.
    pub fn identifiers(&self) -> (ids: Vec<u128>)
        ensures
            ids@ == self.ids(),
    {
        let mut ids: Vec<u128> = Vec::new();
        let mut i: usize = 0;
        while i < self.entries.len()
            invariant
                i <= self.entries.len(),
                ids@ == self.ids().take(i as int),
            decreases self.entries.len() - i,
        {
            ids.push(self.entries[i].0);
            i += 1;
        }
        ids
    }

    fn find(&self, id: u128) -> (at: usize)
        ensures
            at == position(self.ids(), id),
            at <= self.ids().len(),
    {
        let mut i: usize = 0;
        while i < self.entries.len()
            invariant
                i <= self.entries.len(),
                forall|j: int| 0 <= j < i ==> self.ids()[j] != id,
            decreases self.entries.len() - i,
        {
            if self.entries[i].0 == id {
                proof {
                    lemma_position(self.ids(), id);
                    assert(self.ids()[i as int] == id);
                }
                return i;
            }
            i += 1;
        }
        proof {
            lemma_position(self.ids(), id);
        }
        i
    }

    /// Whether a handler is registered under `id`.
    pub fn contains(&self, id: u128) -> (b: bool)
        ensures
            b == self.ids().contains(id),
    {
        proof {
            lemma_position(self.ids(), id);
        }
        let at = self.find(id);
        at < self.entries.len()
    }

    /// Registers `callback` under `id`. Where a handler was registered
    /// under `id` already, `callback` takes its place.
    pub fn insert(&mut self, id: u128, callback: H)
        requires
            old(self).wf(),
            forall|line: &str| call_requires(callback, (line,)),
        ensures
            final(self).wf(),
            old(self).with_handler(final(self), id, callback),
    {
        proof {
            lemma_position(self.ids(), id);
            lemma_ids_distinct(self.ids(), id);
        }
        let at = self.find(id);
        if at < self.entries.len() {
            self.entries.set(at, (id, callback));
            assert(self.ids() =~= old(self).ids());
            assert(self.handlers() =~= old(self).handlers().update(at as int, callback));
        } else {
            self.entries.push((id, callback));
            assert(self.ids() =~= old(self).ids().push(id));
            assert(self.handlers() =~= old(self).handlers().push(callback));
        }
    }

    /// Removes the handler registered under `id`, if there is one.
    pub fn remove(&mut self, id: u128)
        requires
            old(self).wf(),
        ensures
            final(self).wf(),
            old(self).without_handler(final(self), id),
    {
        proof {
            lemma_position(self.ids(), id);
            lemma_ids_distinct(self.ids(), id);
        }
        let at = self.find(id);
        if at < self.entries.len() {
            self.entries.remove(at);
            assert(self.ids() =~= old(self).ids().remove(at as int));
            assert(self.handlers() =~= old(self).handlers().remove(at as int));
        }
    }

    /// Offers `line` to every handler, in the order of registration, and
    /// tells what each made of it.
    pub fn offer(&self, line: &str) -> (outcomes: Vec<Result<(), ()>>)
        requires
            self.wf(),
        ensures
            outcomes@.len() == self.handlers().len(),
            forall|i: int|
                0 <= i < outcomes@.len() ==> call_ensures(
                    self.handlers()[i],
                    (line,),
                    #[trigger] outcomes@[i],
                ),
    {
        let mut outcomes: Vec<Result<(), ()>> = Vec::new();
        let mut i: usize = 0;
        while i < self.entries.len()
            invariant
                i <= self.entries.len(),
                outcomes@.len() == i,
                forall|k: int, line: &str|
                    0 <= k < self.entries@.len() ==> #[trigger] call_requires(
                        self.entries@[k].1,
                        (line,),
                    ),
                forall|k: int|
                    0 <= k < i ==> call_ensures(
                        self.handlers()[k],
                        (line,),
                        #[trigger] outcomes@[k],
                    ),
            decreases self.entries.len() - i,
        {
            let outcome = (self.entries[i].1)(line);
            outcomes.push(outcome);
            i += 1;
        }
        outcomes
    }
}

/// Whether any of the handlers failed, or none was there to take the line.
pub fn fallback_needed(outcomes: &Vec<Result<(), ()>>) -> (needed: bool)
    ensures
        needed == needs_fallback(outcomes@),
{
    let mut any_handler_failed = false;
    let mut i: usize = 0;
    while i < outcomes.len()
        invariant
            i <= outcomes.len(),
            any_handler_failed == exists|k: int| 0 <= k < i && outcomes@[k] is Err,
        decreases outcomes.len() - i,
    {
        if outcomes[i].is_err() {
            any_handler_failed = true;
        }
        i += 1;
    }
    outcomes.len() == 0 || any_handler_failed
}

} // verus!
