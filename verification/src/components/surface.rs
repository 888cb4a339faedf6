//! A surface's keymap together with the keys that are buffered for it.
use vstd::prelude::*;

use crate::keymap::{compile_keymap, compiled, resolve, resolved, CommandSpec, KeyMap, Verb};
use crate::keys::KeyEvent;

verus! {

/// The typed bindings of a surface, and the keys of a half-typed sequence.
pub struct Surface<V> {
    pub keymap: KeyMap<V>,
    pub pending: Vec<KeyEvent>,
}

/// What a surface holds.
#[verifier::reject_recursive_types(V)]
#[verifier::ext_equal]
pub ghost struct SurfaceView<V> {
    pub map: Seq<(Seq<KeyEvent>, V)>,
    pub pending: Seq<KeyEvent>,
}

impl<V> View for Surface<V> {
    type V = SurfaceView<V>;

    open spec fn view(&self) -> SurfaceView<V> {
        SurfaceView { map: self.keymap@, pending: self.pending@ }
    }
}

/// A surface without bindings.
pub open spec fn unbound<V>() -> SurfaceView<V> {
    SurfaceView { map: Seq::empty(), pending: Seq::empty() }
}

impl<V> SurfaceView<V> {
    /// The command that a key completes, if any.
    pub open spec fn command(self, key: KeyEvent) -> Option<V> {
        resolved(self.map, self.pending, key).0
    }

    /// The surface after a key.
    pub open spec fn after(self, key: KeyEvent) -> SurfaceView<V> {
        SurfaceView { pending: resolved(self.map, self.pending, key).1, ..self }
    }
}

/// The bindings that a surface compiles.
pub open spec fn compiled_from<V: Verb>(raw: Option<Seq<(Seq<KeyEvent>, CommandSpec)>>) -> Seq<
    (Seq<KeyEvent>, V),
> {
    match raw {
        Some(m) => compiled::<V>(m),
        None => Seq::empty(),
    }
}

impl<V> Surface<V> {
    /// The keymap is valid.
    pub open spec fn wf(&self) -> bool {
        self.keymap.wf()
    }

    /// A surface without bindings.
    pub fn new() -> (r: Surface<V>)
        ensures
            r.wf(),
            r@ == unbound::<V>(),
    {
        let r = Surface { keymap: KeyMap::new(), pending: Vec::new() };
        proof {
            assert(r@ =~= unbound::<V>());
        }
        r
    }

    /// Drops a half-typed sequence.
    pub fn forget(&mut self)
        requires
            old(self).wf(),
        ensures
            final(self).wf(),
            final(self)@ == (SurfaceView { pending: Seq::empty(), ..old(self)@ }),
    {
        self.pending.clear();
        proof {
            assert(self.pending@ =~= Seq::<KeyEvent>::empty());
        }
    }
}

impl<V: Verb> Surface<V> {
    /// Compiles the bindings anew; buffered keys stay.
    pub fn configure(&mut self, raw: Option<&KeyMap<CommandSpec>>)
        requires
            raw matches Some(m) ==> m.wf(),
        ensures
            final(self).wf(),
            final(self)@ == (SurfaceView {
                map: compiled_from::<V>(
                    match raw {
                        Some(m) => Some(m@),
                        None => None,
                    },
                ),
                ..old(self)@
            }),
    {
        self.keymap = compile_keymap::<V>(raw);
    }
}

impl<V: Copy> Surface<V> {
    /// Resolves a key to the command that it completes.
    pub fn press(&mut self, key: KeyEvent) -> (r: Option<V>)
        requires
            old(self).wf(),
        ensures
            final(self).wf(),
            r == old(self)@.command(key),
            final(self)@ == old(self)@.after(key),
    {
        match resolve(&self.keymap, &mut self.pending, key) {
            Some(v) => Some(*v),
            None => None,
        }
    }
}

} // verus!
