//! Font family names that live as long as the process.

use vstd::prelude::*;

verus! {

/// The names handed out so far, each under itself. There are few of them, one
/// per style of a script, so a list serves.
pub struct FontCache {
    /// Name, and its copy that lives as long as the process.
    families: Vec<(String, &'static str)>,
}

/// `String::leak`: the text stays what it was, and is never freed.
#[verifier::external_body]
fn leak(name: String) -> (text: &'static str)
    ensures
        text@ == name@,
{
    name.leak()
}

impl View for FontCache {
    type V = Seq<&'static str>;

    /// The copies handed out so far, in the order in which they were made.
    closed spec fn view(&self) -> Seq<&'static str> {
        Seq::new(self.families@.len(), |i: int| self.families@[i].1)
    }
}

/// Whether no name is empty and none occurs twice.
pub open spec fn distinct_names(copies: Seq<&'static str>) -> bool {
    &&& forall|i: int| #![trigger copies[i]] 0 <= i < copies.len() ==> copies[i]@.len() > 0
    &&& forall|i: int, j: int| #![trigger copies[i], copies[j]]
        0 <= i < j < copies.len() ==> copies[i]@ != copies[j]@
}

/// Whether `name` has been handed out.
pub open spec fn knows(copies: Seq<&'static str>, name: Seq<char>) -> bool {
    exists|i: int| 0 <= i < copies.len() && #[trigger] copies[i]@ == name
}

impl FontCache {
    /// Every copy reads as its name, no name is empty, and none occurs twice.
    #[verifier::type_invariant]
    spec fn wf(self) -> bool {
        &&& forall|i: int| #![trigger self.families@[i]]
            0 <= i < self.families@.len() ==> self.families@[i].0@ == self.families@[i].1@
        &&& distinct_names(self@)
    }

    /// An empty cache.
    pub fn new() -> (cache: FontCache)
        ensures
            cache@.len() == 0,
    {
        FontCache { families: Vec::new() }
    }

    /// How many names have been handed out.
    pub fn len(&self) -> (n: usize)
        ensures
            n == self@.len(),
    {
        self.families.len()
    }

    fn find(&self, name: &String) -> (copy: Option<&'static str>)
        ensures
            match copy {
                Some(copy) => copy@ == name@ && self@.contains(copy),
                None => !knows(self@, name@),
            },
    {
        proof {
            use_type_invariant(self);
        }
        let mut i: usize = 0;
        while i < self.families.len()
            invariant
                i <= self.families@.len(),
                self.wf(),
                forall|j: int| 0 <= j < i ==> #[trigger] self@[j]@ != name@,
            decreases self.families.len() - i,
        {
            let copy = self.families[i].1;
            assert(self@[i as int] == copy && self.families@[i as int].0@ == copy@);
            if self.families[i].0 == *name {
                return Some(copy);
            }
            i = i + 1;
        }
        None
    }

    fn extend(&mut self, name: String) -> (copy: &'static str)
        requires
            name@.len() > 0,
            !knows(old(self)@, name@),
        ensures
            copy@ == name@,
            final(self)@ == old(self)@.push(copy),
    {
        proof {
            use_type_invariant(&*self);
        }
        let mut families: Vec<(String, &'static str)> = Vec::new();
        std::mem::swap(&mut families, &mut self.families);
        let copy = leak(name.clone());
        families.push((name, copy));
        let ghost grown = FontCache { families };
        assert(grown@ =~= old(self)@.push(copy));
        self.families = families;
        copy
    }
}

/// The copy of a font family name that lives as long as the process; none for
/// the empty name, which stands for the default family.
///
/// A name is copied the first time it is asked for, and the same copy is
/// returned ever after.
pub fn intern_font_family(cache: &mut FontCache, name: &str) -> (family: Option<&'static str>)
    ensures
        distinct_names(final(cache)@),
        family is None <==> name@.len() == 0,
        family matches Some(copy) ==> copy@ == name@ && final(cache)@.contains(copy),
        final(cache)@ == if name@.len() == 0 || knows(old(cache)@, name@) {
            old(cache)@
        } else {
            old(cache)@.push(family->0)
        },
{
    proof {
        use_type_invariant(&*cache);
    }
    if name.is_empty() {
        return None;
    }
    let wanted: String = name.to_owned();
    match cache.find(&wanted) {
        Some(copy) => {
            let ghost i = choose|i: int| 0 <= i < cache@.len() && cache@[i] == copy;
            assert(cache@[i]@ == name@);
            Some(copy)
        },
        None => {
            let copy = cache.extend(wanted);
            proof {
                use_type_invariant(&*cache);
            }
            assert(cache@.last() == copy);
            Some(copy)
        },
    }
}

/// A name has one copy: the one it got first.
pub proof fn law_one_copy_per_name(copies: Seq<&'static str>, i: int, j: int)
    requires
        distinct_names(copies),
        0 <= i < copies.len(),
        0 <= j < copies.len(),
        copies[i]@ == copies[j]@,
    ensures
        i == j,
{
    if i < j {
        assert(copies[i]@ != copies[j]@);
    }
    if j < i {
        assert(copies[j]@ != copies[i]@);
    }
}

/// Copies stay: a list of copies that only grew still has every copy it had.
pub proof fn law_copies_stay(
    before: Seq<&'static str>,
    after: Seq<&'static str>,
    copy: &'static str,
)
    requires
        before.contains(copy),
        before.is_prefix_of(after),
    ensures
        after.contains(copy),
{
    let i = choose|i: int| 0 <= i < before.len() && before[i] == copy;
    assert(after[i] == copy);
}

} // verus!
