//! The registry of task kinds: which discriminators are known, and under
//! which number.

use vstd::prelude::*;

verus! {

/// The discriminators of the registered kinds of task, each under the number
/// it was registered with. No discriminator is registered twice.
pub struct Registry {
    discriminators: Vec<String>,
}

/// No name occurs twice in `names`.
pub open spec fn distinct(names: Seq<Seq<char>>) -> bool {
    forall|i: int, j: int|
        0 <= i < j < names.len() ==> #[trigger] names[i] != #[trigger] names[j]
}

impl View for Registry {
    type V = Seq<Seq<char>>;

    closed spec fn view(&self) -> Seq<Seq<char>> {
        self.discriminators@.map_values(|name: String| name@)
    }
}

impl Registry {
    /// No discriminator is registered twice.
    pub open spec fn wf(&self) -> bool {
        distinct(self@)
    }

    /// A registry without any kind.
    pub fn new() -> (registry: Registry)
        ensures
            registry.wf(),
            registry@ == Seq::<Seq<char>>::empty(),
    {
        let registry = Registry { discriminators: Vec::new() };
        assert(registry@ =~= Seq::<Seq<char>>::empty());
        registry
    }

    /// The number of registered kinds.
    pub fn len(&self) -> (count: usize)
        ensures
            count == self@.len(),
    {
        self.discriminators.len()
    }

    /// Looks up the number under which `discriminator` is registered; `None`
    /// where it is not registered.
    pub fn lookup(&self, discriminator: &str) -> (found: Option<usize>)
        ensures
            (match found {
                Some(number) => number < self@.len() && self@[number as int] == discriminator@,
                None => !self@.contains(discriminator@),
            }),
    {
        let wanted: String = discriminator.to_owned();
        let mut k: usize = 0;
        while k < self.discriminators.len()
            invariant
                k <= self.discriminators.len(),
                wanted@ == discriminator@,
                forall|j: int| 0 <= j < k ==> #[trigger] self@[j] != discriminator@,
            decreases self.discriminators.len() - k,
        {
            if self.discriminators[k] == wanted {
                return Some(k);
            }
            k += 1;
        }
        None
    }

    /// Registers `discriminator` under the next free number and tells it;
    /// `None`, and no change, where the discriminator is registered already.
    pub fn register(&mut self, discriminator: &str) -> (number: Option<usize>)
        requires
            old(self).wf(),
        ensures
            final(self).wf(),
            (match number {
                Some(n) => {
                    &&& !old(self)@.contains(discriminator@)
                    &&& n == old(self)@.len()
                    &&& final(self)@ == old(self)@.push(discriminator@)
                },
                None => old(self)@.contains(discriminator@) && final(self)@ == old(self)@,
            }),
    {
        match self.lookup(discriminator) {
            Some(taken) => {
                assert(self@[taken as int] == discriminator@);
                None
            },
            None => {
                let number = self.discriminators.len();
                self.discriminators.push(discriminator.to_owned());
                assert(self@ =~= old(self)@.push(discriminator@));
                assert forall|i: int, j: int| 0 <= i < j < self@.len() implies #[trigger] self@[i]
                    != #[trigger] self@[j] by {
                    assert(self@[i] == old(self)@[i]);
                    if j < number {
                        assert(self@[j] == old(self)@[j]);
                    } else {
                        assert(old(self)@.contains(old(self)@[i]));
                    }
                }
                Some(number)
            },
        }
    }
}

} // verus!
