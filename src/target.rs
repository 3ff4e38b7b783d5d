use vstd::prelude::*;

verus! {

/// What the resolver reads of a target description: its platform triple and
/// its architecture. Its name is the key under which a catalog holds it.
pub trait TargetTrait: Sized {
    /// The platform triple, as a sequence of characters.
    spec fn triple_view(&self) -> Seq<char>;

    /// The architecture, as a sequence of characters.
    spec fn arch_view(&self) -> Seq<char>;

    fn triple(&self) -> (r: &str)
        ensures
            r@ == self.triple_view(),
    ;

    fn arch(&self) -> (r: &str)
        ensures
            r@ == self.arch_view(),
    ;
}

/// A plain target description that owns its triple and architecture.
#[derive(Clone, Debug, PartialEq, Eq)]
pub struct Target {
    triple: String,
    arch: String,
}

impl Target {
    pub fn new(triple: String, arch: String) -> (r: Target)
        ensures
            r.triple_view() == triple@,
            r.arch_view() == arch@,
    {
        Target { triple, arch }
    }
}

impl TargetTrait for Target {
    closed spec fn triple_view(&self) -> Seq<char> {
        self.triple@
    }

    closed spec fn arch_view(&self) -> Seq<char> {
        self.arch@
    }

    fn triple(&self) -> (r: &str) {
        self.triple.as_str()
    }

    fn arch(&self) -> (r: &str) {
        self.arch.as_str()
    }
}

/// The registry of known targets: an ordered mapping from name to target
/// description, with each name present at most once.
pub struct Catalog<T> {
    entries: Vec<(String, T)>,
}

impl<T> View for Catalog<T> {
    type V = Seq<(Seq<char>, T)>;

    closed spec fn view(&self) -> Seq<(Seq<char>, T)> {
        self.entries@.map_values(|e: (String, T)| (e.0@, e.1))
    }
}

/// No name occurs twice in `s`.
pub open spec fn unique_names<T>(s: Seq<(Seq<char>, T)>) -> bool {
    forall|i: int, j: int| 0 <= i < j < s.len() ==> #[trigger] s[i].0 != #[trigger] s[j].0
}

/// Some entry of `s` is named `name`.
pub open spec fn has_name<T>(s: Seq<(Seq<char>, T)>, name: Seq<char>) -> bool {
    exists|i: int| 0 <= i < s.len() && #[trigger] s[i].0 == name
}

/// The position of the entry named `name`; meaningful where `has_name` holds.
pub open spec fn index_of<T>(s: Seq<(Seq<char>, T)>, name: Seq<char>) -> int {
    choose|i: int| 0 <= i < s.len() && #[trigger] s[i].0 == name
}

/// The target described under `name`; meaningful where `has_name` holds.
pub open spec fn target_of<T>(s: Seq<(Seq<char>, T)>, name: Seq<char>) -> T {
    s[index_of(s, name)].1
}

/// The target descriptions of `s`, in order.
pub open spec fn values_of<T>(s: Seq<(Seq<char>, T)>) -> Seq<T> {
    s.map_values(|e: (Seq<char>, T)| e.1)
}

/// The entry at `i` is the first in `s` whose architecture is `arch`.
pub open spec fn first_with_arch<T: TargetTrait>(s: Seq<(Seq<char>, T)>, arch: Seq<char>, i: int) -> bool {
    &&& 0 <= i < s.len()
    &&& s[i].1.arch_view() == arch
    &&& forall|j: int| 0 <= j < i ==> #[trigger] s[j].1.arch_view() != arch
}

/// The entry at `i` of a well-formed catalog is the one named `name`.
pub proof fn lemma_index_of_unique<T>(s: Seq<(Seq<char>, T)>, name: Seq<char>, i: int)
    requires
        unique_names(s),
        0 <= i < s.len(),
        s[i].0 == name,
    ensures
        has_name(s, name),
        index_of(s, name) == i,
        target_of(s, name) == s[i].1,
{
    let k = index_of(s, name);
    assert(s[k].0 == name);
    if k < i {
        assert(s[k].0 != s[i].0);
    } else if i < k {
        assert(s[i].0 != s[k].0);
    }
}

impl<T> Catalog<T> {
    /// Names are unique.
    pub open spec fn wf(&self) -> bool {
        unique_names(self@)
    }

    pub fn new() -> (r: Catalog<T>)
        ensures
            r.wf(),
            r@ == Seq::<(Seq<char>, T)>::empty(),
    {
        let r = Catalog { entries: Vec::new() };
        assert(r@ =~= Seq::<(Seq<char>, T)>::empty());
        r
    }

    pub fn len(&self) -> (r: usize)
        ensures
            r == self@.len(),
    {
        self.entries.len()
    }

    /// Describes `target` under `name`. An entry of that name keeps its place
    /// and takes the new description, which the old one is returned from;
    /// otherwise the entry goes last.
    pub fn insert(&mut self, name: String, target: T) -> (r: Option<T>)
        requires
            old(self).wf(),
        ensures
            final(self).wf(),
            has_name(old(self)@, name@) ==> {
                let i = index_of(old(self)@, name@);
                &&& r == Some(old(self)@[i].1)
                &&& final(self)@ == old(self)@.update(i, (name@, target))
            },
            !has_name(old(self)@, name@) ==> {
                &&& r is None
                &&& final(self)@ == old(self)@.push((name@, target))
            },
    {
        let n = self.entries.len();
        let mut i: usize = 0;
        while i < n
            invariant
                n == self.entries.len(),
                self == old(self),
                self.wf(),
                0 <= i <= n,
                forall|j: int| 0 <= j < i ==> #[trigger] self@[j].0 != name@,
            decreases n - i,
        {
            if self.entries[i].0 == name {
                proof {
                    lemma_index_of_unique(self@, name@, i as int);
                }
                let ghost before = self@;
                let (_, previous) = self.entries.remove(i);
                self.entries.insert(i, (name, target));
                assert(self@ =~= before.update(i as int, (name@, target)));
                assert forall|k: int| 0 <= k < self@.len() implies #[trigger] self@[k].0
                    == before[k].0 by {}
                assert forall|a: int, b: int| 0 <= a < b < self@.len() implies
                    #[trigger] self@[a].0 != #[trigger] self@[b].0 by {
                    assert(before[a].0 != before[b].0);
                }
                return Some(previous);
            }
            i = i + 1;
        }
        let ghost before = self@;
        self.entries.push((name, target));
        assert(self@ =~= before.push((name@, target)));
        assert(!has_name(before, name@));
        Option::None
    }

    /// The target described under `name`: names are matched exactly.
    pub fn for_name(&self, name: &str) -> (r: Option<&T>)
        requires
            self.wf(),
        ensures
            r is Some <==> has_name(self@, name@),
            r is Some ==> *r.unwrap() == target_of(self@, name@),
    {
        let key = name.to_owned();
        let mut i: usize = 0;
        while i < self.entries.len()
            invariant
                self.wf(),
                key@ == name@,
                0 <= i <= self@.len(),
                forall|j: int| 0 <= j < i ==> #[trigger] self@[j].0 != name@,
            decreases self@.len() - i,
        {
            if self.entries[i].0 == key {
                proof {
                    lemma_index_of_unique(self@, name@, i as int);
                }
                return Some(&self.entries[i].1);
            }
            i = i + 1;
        }
        Option::None
    }

    /// The target descriptions, in catalog order.
    pub fn all(&self) -> (r: Vec<&T>)
        ensures
            r@.len() == self@.len(),
            forall|i: int| 0 <= i < self@.len() ==> *#[trigger] r@[i] == self@[i].1,
    {
        let mut r: Vec<&T> = Vec::new();
        let mut i: usize = 0;
        while i < self.entries.len()
            invariant
                0 <= i <= self@.len(),
                r@.len() == i,
                forall|j: int| 0 <= j < i ==> *#[trigger] r@[j] == self@[j].1,
            decreases self@.len() - i,
        {
            r.push(&self.entries[i].1);
            i = i + 1;
        }
        r
    }
}

impl<T: TargetTrait> Catalog<T> {
    /// The first target, in catalog order, whose architecture is `arch`.
    pub fn for_arch(&self, arch: &str) -> (r: Option<&T>)
        ensures
            r is None <==> forall|i: int| 0 <= i < self@.len() ==> #[trigger] self@[i].1.arch_view() != arch@,
            r is Some ==> exists|i: int| first_with_arch(self@, arch@, i) && *r.unwrap() == self@[i].1,
    {
        let wanted = arch.to_owned();
        let mut i: usize = 0;
        while i < self.entries.len()
            invariant
                wanted@ == arch@,
                0 <= i <= self@.len(),
                forall|j: int| 0 <= j < i ==> #[trigger] self@[j].1.arch_view() != arch@,
            decreases self@.len() - i,
        {
            let found = self.entries[i].1.arch().to_owned();
            if found == wanted {
                assert(first_with_arch(self@, arch@, i as int));
                return Some(&self.entries[i].1);
            }
            i = i + 1;
        }
        Option::None
    }
}

} // verus!
