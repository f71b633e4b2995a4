//! The slot that holds the router which serves work routed without a handle.
//!
//! The slot is a value like any other: whoever owns it decides how it is
//! shared. It starts empty, and it is read and changed through the functions
//! below and nowhere else.

use vstd::prelude::*;

verus! {

/// A slot for one router.
pub struct Global<R> {
    slot: Option<R>,
}

impl<R> View for Global<R> {
    type V = Option<R>;

    closed spec fn view(&self) -> Option<R> {
        self.slot
    }
}

impl<R> Global<R> {
    /// The installed router as a reader is shown it.
    pub open spec fn shared(&self) -> Option<&R> {
        match self@ {
            Some(router) => Some(&router),
            None => None,
        }
    }

    /// An empty slot.
    pub fn new() -> (global: Global<R>)
        ensures
            global@ is None,
    {
        Global { slot: None }
    }

    /// Whether a router is installed.
    pub fn is_installed(&self) -> (installed: bool)
        ensures
            installed == (self@ is Some),
    {
        self.slot.is_some()
    }

    /// Installs `router`, in place of the one that was installed, if any.
    pub fn install(&mut self, router: R)
        ensures
            final(self)@ == Some(router),
    {
        self.slot = Some(router);
    }

    /// Installs the router that `make` returns, unless one is installed
    /// already: then the slot stays as it is and `make` is not called. Says
    /// whether a router was installed.
    pub fn install_default<F>(&mut self, make: F) -> (installed: bool) where F: FnOnce() -> R
        requires
            old(self)@ is None ==> make.requires(()),
        ensures
            installed == (old(self)@ is None),
            !installed ==> final(self)@ == old(self)@,
            installed ==> final(self)@ is Some && make.ensures((), final(self)@->0),
    {
        if self.slot.is_some() {
            false
        } else {
            self.slot = Some(make());
            true
        }
    }

    /// The installed router, if any.
    pub fn get(&self) -> (router: Option<&R>)
        ensures
            router == self.shared(),
    {
        self.slot.as_ref()
    }

    /// Takes the installed router out of the slot, which is left empty.
    pub(crate) fn take(&mut self) -> (router: Option<R>)
        ensures
            router == old(self)@,
            final(self)@ is None,
    {
        self.slot.take()
    }

    /// Calls `f` on the installed router, or on `None` if there is none, and
    /// returns what `f` returns.
    pub fn with<F, O>(&self, f: F) -> (out: O) where F: FnOnce(Option<&R>) -> O
        requires
            f.requires((self.shared(),)),
        ensures
            f.ensures((self.shared(),), out),
    {
        f(self.slot.as_ref())
    }

    /// Calls `f` on the slot itself, which `f` may change, and returns what
    /// `f` returns. What the slot holds afterwards is what `f` left in it.
    pub fn with_mut<F, O>(&mut self, f: F) -> (out: O) where F: FnOnce(&mut Option<R>) -> O
        requires
            forall|slot: &mut Option<R>| *slot == old(self)@ ==> f.requires((slot,)),
        ensures
            exists|slot: &mut Option<R>|
                *slot == old(self)@ && *final(slot) == final(self)@ && f.ensures((slot,), out),
    {
        f(&mut self.slot)
    }
}

} // verus!
