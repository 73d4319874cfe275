use vstd::prelude::*;

verus! {

/// What a `Lifetime` stands for, in spec terms.
pub enum LifetimeView {
    Process(u32),
    Session(Seq<char>),
    Persistent(Seq<char>),
}

/// The scope that decides when a registered resource goes away.
#[derive(Debug)]
pub enum Lifetime {
    /// Until the process with this id exits.
    Process(u32),
    /// Until the daemon restarts, or the owner revokes it.
    Session(String),
    /// Until the owner revokes it.
    Persistent(String),
}

impl View for Lifetime {
    type V = LifetimeView;

    open spec fn view(&self) -> LifetimeView {
        match self {
            Lifetime::Process(pid) => LifetimeView::Process(*pid),
            Lifetime::Session(owner) => LifetimeView::Session(owner@),
            Lifetime::Persistent(owner) => LifetimeView::Persistent(owner@),
        }
    }
}

impl LifetimeView {
    pub open spec fn is_persistent(self) -> bool {
        self is Persistent
    }

    pub open spec fn is_session(self) -> bool {
        self is Session
    }
}

impl Clone for Lifetime {
    fn clone(&self) -> (r: Self)
        ensures
            r@ == self@,
    {
        match self {
            Lifetime::Process(pid) => Lifetime::Process(*pid),
            Lifetime::Session(owner) => Lifetime::Session(owner.clone()),
            Lifetime::Persistent(owner) => Lifetime::Persistent(owner.clone()),
        }
    }
}

impl PartialEq for Lifetime {
    fn eq(&self, other: &Lifetime) -> (r: bool) {
        match (self, other) {
            (Lifetime::Process(a), Lifetime::Process(b)) => *a == *b,
            (Lifetime::Session(a), Lifetime::Session(b)) => a.eq(b),
            (Lifetime::Persistent(a), Lifetime::Persistent(b)) => a.eq(b),
            _ => false,
        }
    }
}

impl vstd::std_specs::cmp::PartialEqSpecImpl for Lifetime {
    open spec fn obeys_eq_spec() -> bool {
        true
    }

    open spec fn eq_spec(&self, other: &Lifetime) -> bool {
        self@ == other@
    }
}

impl Eq for Lifetime {
}

impl Lifetime {
    /// The lifetime of the process with id `pid`.
    pub fn from_pid(pid: u32) -> (r: Result<Self, ()>)
        ensures
            r matches Ok(l) && l@ == LifetimeView::Process(pid),
    {
        Ok(Lifetime::Process(pid))
    }

    pub fn is_persistent(&self) -> (r: bool)
        ensures
            r == self@.is_persistent(),
    {
        matches!(self, Lifetime::Persistent(_))
    }

    pub fn is_session(&self) -> (r: bool)
        ensures
            r == self@.is_session(),
    {
        matches!(self, Lifetime::Session(_))
    }
}

} // verus!
