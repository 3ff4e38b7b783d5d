use vstd::prelude::*;

use crate::target::{has_name, index_of, target_of, unique_names, values_of, Catalog};

verus! {

/// What to do when no target is named and no default target comes forth.
#[derive(Clone, Copy, Debug, PartialEq, Eq, Structural)]
pub enum OrElse {
    GiveUp,
    TryAll,
}

impl Default for OrElse {
    fn default() -> (r: OrElse)
        ensures
            r == OrElse::GiveUp,
    {
        OrElse::GiveUp
    }
}

/// The policy applied when the caller names no target: an optional
/// capability that may produce a default target, and what to do without one.
pub struct FallbackBehavior<F> {
    pub get_target: Option<F>,
    pub or_else: OrElse,
}

impl<F> FallbackBehavior<F> {
    pub fn get_target(f: F, or_else: OrElse) -> (r: FallbackBehavior<F>)
        ensures
            r.get_target == Some(f),
            r.or_else == or_else,
    {
        FallbackBehavior { get_target: Some(f), or_else }
    }

    pub fn all_targets() -> (r: FallbackBehavior<F>)
        ensures
            r.get_target is None,
            r.or_else == OrElse::TryAll,
    {
        FallbackBehavior { get_target: None, or_else: OrElse::TryAll }
    }
}

impl<F> Default for FallbackBehavior<F> {
    fn default() -> (r: FallbackBehavior<F>)
        ensures
            r.get_target is None,
            r.or_else == OrElse::GiveUp,
    {
        FallbackBehavior { get_target: None, or_else: OrElse::GiveUp }
    }
}

/// Why a set of targets could not be resolved.
#[derive(Clone, Debug, PartialEq, Eq)]
pub enum TargetError {
    /// A requested name is not in the catalog.
    InvalidTarget(String),
    /// No target was named and the fallback policy gave none.
    NoValidTargets,
}

/// The names of `targets`; an absent list names nothing.
pub open spec fn requested_names(targets: Option<&Vec<String>>) -> Seq<Seq<char>> {
    match targets {
        Some(v) => v@.map_values(|s: String| s@),
        None => Seq::empty(),
    }
}

/// Every name of `names` is in the catalog `cat`.
pub open spec fn all_known<T>(cat: Seq<(Seq<char>, T)>, names: Seq<Seq<char>>) -> bool {
    forall|i: int| 0 <= i < names.len() ==> has_name(cat, #[trigger] names[i])
}

/// `names[k]` is the first name of `names` that is not in `cat`.
pub open spec fn first_unknown<T>(cat: Seq<(Seq<char>, T)>, names: Seq<Seq<char>>, k: int) -> bool {
    &&& 0 <= k < names.len()
    &&& !has_name(cat, names[k])
    &&& forall|j: int| 0 <= j < k ==> has_name(cat, #[trigger] names[j])
}

/// The targets that `requested` selects from `cat`, where `default` is what
/// the fallback capability produced, if anything.
pub open spec fn resolved<T>(
    cat: Seq<(Seq<char>, T)>,
    requested: Seq<Seq<char>>,
    default: Option<T>,
    or_else: OrElse,
) -> Option<Seq<T>> {
    if requested.len() > 0 {
        Some(requested.map_values(|n: Seq<char>| target_of(cat, n)))
    } else {
        match default {
            Some(t) => Some(seq![t]),
            None => match or_else {
                OrElse::GiveUp => None,
                OrElse::TryAll => Some(values_of(cat)),
            },
        }
    }
}

/// The targets that a list of references points to.
pub open spec fn seen<T>(r: Option<Vec<&T>>) -> Option<Seq<T>> {
    match r {
        Some(v) => Some(v@.map_values(|t: &T| *t)),
        None => None,
    }
}

/// The target that an optional reference points to.
pub open spec fn deref_opt<T>(d: Option<&T>) -> Option<T> {
    match d {
        Some(t) => Some(*t),
        None => None,
    }
}

/// The fallback capability may be invoked.
pub open spec fn callable<'a, T: 'a, F: Fn() -> Option<&'a T>>(fallback: FallbackBehavior<F>) -> bool {
    match fallback.get_target {
        Some(f) => f.requires(()),
        None => true,
    }
}

/// `d` is an outcome of invoking the fallback capability: one that it may
/// return, or nothing where there is no capability.
pub open spec fn default_outcome<'a, T: 'a, F: Fn() -> Option<&'a T>>(
    fallback: FallbackBehavior<F>,
    d: Option<&'a T>,
) -> bool {
    match fallback.get_target {
        Some(f) => f.ensures((), d),
        None => d is None,
    }
}

/// `r` is a resolution of `requested` against `cat` under `fallback`: the
/// named targets where some are named, and otherwise what the fallback gives
/// for some outcome of its capability.
pub open spec fn resolution_of<'a, T: 'a, F: Fn() -> Option<&'a T>>(
    cat: Seq<(Seq<char>, T)>,
    requested: Seq<Seq<char>>,
    fallback: FallbackBehavior<F>,
    r: Option<Vec<&'a T>>,
) -> bool {
    if requested.len() > 0 {
        seen(r) == resolved(cat, requested, None, fallback.or_else)
    } else {
        exists|d: Option<&'a T>|
            default_outcome(fallback, d) && seen(r) == resolved(
                cat,
                requested,
                deref_opt(d),
                fallback.or_else,
            )
    }
}

/// The targets to fall back on when none is named, given what the fallback
/// capability produced.
pub fn fallback_targets<'a, T>(catalog: &'a Catalog<T>, default: Option<&'a T>, or_else: OrElse) -> (r:
    Option<Vec<&'a T>>)
    ensures
        seen(r) == resolved(catalog@, Seq::empty(), deref_opt(default), or_else),
{
    match default {
        Some(t) => {
            let r = vec![t];
            assert(r@.map_values(|t: &T| *t) =~= seq![*t]);
            Some(r)
        },
        None => match or_else {
            OrElse::GiveUp => None,
            OrElse::TryAll => {
                let r = catalog.all();
                assert(r@.map_values(|t: &T| *t) =~= values_of(catalog@));
                Some(r)
            },
        },
    }
}

/// The targets named by `names`, in order.
fn lookup_all<'a, T>(catalog: &'a Catalog<T>, names: &Vec<String>) -> (r: Vec<&'a T>)
    requires
        catalog.wf(),
        all_known(catalog@, names@.map_values(|s: String| s@)),
    ensures
        r@.map_values(|t: &T| *t) == names@.map_values(|s: String| s@).map_values(
            |n: Seq<char>| target_of(catalog@, n),
        ),
{
    let ghost wanted = names@.map_values(|s: String| s@);
    let mut r: Vec<&'a T> = Vec::new();
    let mut i: usize = 0;
    while i < names.len()
        invariant
            catalog.wf(),
            wanted == names@.map_values(|s: String| s@),
            all_known(catalog@, wanted),
            0 <= i <= names@.len(),
            r@.len() == i,
            forall|j: int| 0 <= j < i ==> *#[trigger] r@[j] == target_of(catalog@, wanted[j]),
        decreases names@.len() - i,
    {
        assert(has_name(catalog@, wanted[i as int]));
        match catalog.for_name(names[i].as_str()) {
            Some(t) => {
                r.push(t);
            },
            None => {
                assert(false);
            },
        }
        i = i + 1;
    }
    assert(r@.map_values(|t: &T| *t) =~= wanted.map_values(|n: Seq<char>| target_of(catalog@, n)));
    r
}

/// The targets that an invocation runs against: those named by `targets`,
/// in order, where it names any; otherwise what `fallback` provides.
pub fn get_targets<'a, T, F>(
    catalog: &'a Catalog<T>,
    targets: Option<&Vec<String>>,
    fallback: FallbackBehavior<F>,
) -> (r: Option<Vec<&'a T>>) where F: Fn() -> Option<&'a T>
    requires
        catalog.wf(),
        all_known(catalog@, requested_names(targets)),
        callable(fallback),
    ensures
        resolution_of(catalog@, requested_names(targets), fallback, r),
{
    let named = match targets {
        Some(v) => v.len() > 0,
        None => false,
    };
    if named {
        let names = targets.unwrap();
        Some(lookup_all(catalog, names))
    } else {
        assert(requested_names(targets) =~= Seq::<Seq<char>>::empty());
        let default = match &fallback.get_target {
            Some(f) => f(),
            None => None,
        };
        assert(default_outcome(fallback, default));
        let r = fallback_targets(catalog, default, fallback.or_else);
        assert(seen(r) == resolved(catalog@, requested_names(targets), deref_opt(default), fallback.or_else));
        r
    }
}

/// The position of the first of `names` that `catalog` lacks, if any.
fn find_unknown<T>(catalog: &Catalog<T>, names: &Vec<String>) -> (r: Option<usize>)
    requires
        catalog.wf(),
    ensures
        match r {
            Some(k) => first_unknown(catalog@, names@.map_values(|s: String| s@), k as int),
            None => all_known(catalog@, names@.map_values(|s: String| s@)),
        },
{
    let ghost wanted = names@.map_values(|s: String| s@);
    let mut i: usize = 0;
    while i < names.len()
        invariant
            catalog.wf(),
            wanted == names@.map_values(|s: String| s@),
            0 <= i <= names@.len(),
            forall|j: int| 0 <= j < i ==> has_name(catalog@, #[trigger] wanted[j]),
        decreases names@.len() - i,
    {
        if catalog.for_name(names[i].as_str()).is_none() {
            return Some(i);
        }
        i = i + 1;
    }
    Option::None
}

/// Like `get_targets`, but a name that the catalog lacks is reported as an
/// error instead of being ruled out by the caller: then nothing is resolved.
pub fn try_get_targets<'a, T, F>(
    catalog: &'a Catalog<T>,
    targets: Option<&Vec<String>>,
    fallback: FallbackBehavior<F>,
) -> (r: Result<Option<Vec<&'a T>>, TargetError>) where F: Fn() -> Option<&'a T>
    requires
        catalog.wf(),
        callable(fallback),
    ensures
        r is Ok <==> all_known(catalog@, requested_names(targets)),
        match r {
            Ok(o) => resolution_of(catalog@, requested_names(targets), fallback, o),
            Err(e) => exists|k: int|
                first_unknown(catalog@, requested_names(targets), k) && match e {
                    TargetError::InvalidTarget(n) => n@ == requested_names(targets)[k],
                    TargetError::NoValidTargets => false,
                },
        },
{
    if let Some(names) = targets {
        if let Some(k) = find_unknown(catalog, names) {
            let name = names[k].clone();
            assert(first_unknown(catalog@, requested_names(targets), k as int));
            return Err(TargetError::InvalidTarget(name));
        }
    } else {
        assert(requested_names(targets) =~= Seq::<Seq<char>>::empty());
    }
    Ok(get_targets(catalog, targets, fallback))
}

/// The result of running an action on each target of a resolution `s`: the
/// action's outputs, one per target and in order, or `NoValidTargets` where
/// nothing was resolved.
pub open spec fn applied<'a, T: 'a, F: Fn(&'a T) -> R, R>(
    s: Option<Vec<&'a T>>,
    f: F,
    r: Result<Vec<R>, TargetError>,
) -> bool {
    match s {
        None => r == Err::<Vec<R>, TargetError>(TargetError::NoValidTargets),
        Some(v) => match r {
            Ok(outs) => outs@.len() == v@.len() && forall|i: int|
                0 <= i < v@.len() ==> f.ensures((v@[i],), #[trigger] outs@[i]),
            Err(_) => false,
        },
    }
}

/// Resolves the targets as `try_get_targets` does, then runs `f` on each of
/// them in order and gives back its outputs. Fails where a name is unknown or
/// nothing is resolved; `f` is then not run.
pub fn call_for_targets<'a, T, G, F, R>(
    catalog: &'a Catalog<T>,
    targets: Option<&Vec<String>>,
    fallback: FallbackBehavior<G>,
    f: F,
) -> (r: Result<Vec<R>, TargetError>) where G: Fn() -> Option<&'a T>, F: Fn(&'a T) -> R
    requires
        catalog.wf(),
        callable(fallback),
        forall|t: &'a T| #[trigger] f.requires((t,)),
    ensures
        !all_known(catalog@, requested_names(targets)) ==> exists|k: int|
            first_unknown(catalog@, requested_names(targets), k) && match r {
                Err(TargetError::InvalidTarget(n)) => n@ == requested_names(targets)[k],
                _ => false,
            },
        all_known(catalog@, requested_names(targets)) ==> exists|s: Option<Vec<&'a T>>|
            resolution_of(catalog@, requested_names(targets), fallback, s) && applied(s, f, r),
{
    let resolution = try_get_targets(catalog, targets, fallback);
    match resolution {
        Err(e) => Err(e),
        Ok(None) => {
            assert(applied(None::<Vec<&'a T>>, f, Err::<Vec<R>, TargetError>(TargetError::NoValidTargets)));
            Err(TargetError::NoValidTargets)
        },
        Ok(Some(v)) => {
            let mut outs: Vec<R> = Vec::new();
            let mut i: usize = 0;
            while i < v.len()
                invariant
                    forall|t: &'a T| #[trigger] f.requires((t,)),
                    0 <= i <= v@.len(),
                    outs@.len() == i,
                    forall|j: int| 0 <= j < i ==> f.ensures((v@[j],), #[trigger] outs@[j]),
                decreases v@.len() - i,
            {
                let t = v[i];
                outs.push(f(t));
                i = i + 1;
            }
            let ghost s = Some(v);
            let r = Ok(outs);
            assert(applied(s, f, r));
            r
        },
    }
}

/// The catalog `cat` holds `t` under `name`.
pub open spec fn listed_as<T>(cat: Seq<(Seq<char>, T)>, name: Seq<char>, t: T) -> bool {
    exists|j: int| 0 <= j < cat.len() && cat[j].0 == name && #[trigger] cat[j].1 == t
}

/// Where every requested name is in the catalog and at least one is named,
/// the resolution holds one target per name, in the order of the names, each
/// the one that the catalog holds under that name.
pub proof fn lemma_named_targets_in_order<T>(
    cat: Seq<(Seq<char>, T)>,
    requested: Seq<Seq<char>>,
    default: Option<T>,
    or_else: OrElse,
)
    requires
        unique_names(cat),
        requested.len() > 0,
        all_known(cat, requested),
    ensures
        resolved(cat, requested, default, or_else) is Some,
        resolved(cat, requested, default, or_else).unwrap().len() == requested.len(),
        forall|i: int|
            0 <= i < requested.len() ==> #[trigger] listed_as(
                cat,
                requested[i],
                resolved(cat, requested, default, or_else).unwrap()[i],
            ),
{
    let s = resolved(cat, requested, default, or_else).unwrap();
    assert forall|i: int| 0 <= i < requested.len() implies #[trigger] listed_as(
        cat,
        requested[i],
        s[i],
    ) by {
        assert(has_name(cat, requested[i]));
        let j = index_of(cat, requested[i]);
        assert(cat[j].0 == requested[i] && cat[j].1 == s[i]);
    }
}

/// With no name requested, no capability and the `GiveUp` strategy, nothing
/// is resolved.
pub proof fn lemma_give_up_resolves_nothing<'a, T: 'a, F: Fn() -> Option<&'a T>>(
    cat: Seq<(Seq<char>, T)>,
    requested: Seq<Seq<char>>,
    fallback: FallbackBehavior<F>,
    r: Option<Vec<&'a T>>,
)
    requires
        requested.len() == 0,
        fallback.get_target is None,
        fallback.or_else == OrElse::GiveUp,
        resolution_of(cat, requested, fallback, r),
    ensures
        r is None,
{
}

/// With no name requested and a capability that produces the target `t`,
/// the resolution is `t` alone, whatever the catalog holds.
pub proof fn lemma_default_target_alone<'a, T: 'a, F: Fn() -> Option<&'a T>>(
    cat: Seq<(Seq<char>, T)>,
    requested: Seq<Seq<char>>,
    fallback: FallbackBehavior<F>,
    t: &'a T,
    r: Option<Vec<&'a T>>,
)
    requires
        requested.len() == 0,
        fallback.get_target is Some,
        forall|d: Option<&'a T>| #[trigger] fallback.get_target.unwrap().ensures((), d) ==> d == Some(t),
        resolution_of(cat, requested, fallback, r),
    ensures
        r is Some,
        r.unwrap()@.len() == 1,
        *r.unwrap()@[0] == *t,
{
    let d = choose|d: Option<&'a T>|
        default_outcome(fallback, d) && seen(r) == resolved(cat, requested, deref_opt(d), fallback.or_else);
    assert(fallback.get_target.unwrap().ensures((), d));
    assert(seen(r) == Some(seq![*t]));
    let v = r.unwrap();
    assert(seen(r) == Some(v@.map_values(|x: &T| *x)));
    assert(v@.map_values(|x: &T| *x).len() == v@.len());
    assert(v@.map_values(|x: &T| *x)[0] == *v@[0]);
}

/// With no name requested, no capability and the `TryAll` strategy, the
/// resolution is the whole catalog in catalog order.
pub proof fn lemma_try_all_resolves_catalog<'a, T: 'a, F: Fn() -> Option<&'a T>>(
    cat: Seq<(Seq<char>, T)>,
    requested: Seq<Seq<char>>,
    fallback: FallbackBehavior<F>,
    r: Option<Vec<&'a T>>,
)
    requires
        requested.len() == 0,
        fallback.get_target is None,
        fallback.or_else == OrElse::TryAll,
        resolution_of(cat, requested, fallback, r),
    ensures
        r is Some,
        r.unwrap()@.len() == cat.len(),
        forall|i: int| 0 <= i < cat.len() ==> *#[trigger] r.unwrap()@[i] == cat[i].1,
{
    let d = choose|d: Option<&'a T>|
        default_outcome(fallback, d) && seen(r) == resolved(cat, requested, deref_opt(d), fallback.or_else);
    assert(d is None);
    assert(seen(r) == Some(values_of(cat)));
    let v = r.unwrap();
    assert(seen(r) == Some(v@.map_values(|x: &T| *x)));
    assert(v@.map_values(|x: &T| *x).len() == v@.len());
    assert forall|i: int| 0 <= i < cat.len() implies *#[trigger] r.unwrap()@[i] == cat[i].1 by {
        assert(v@.map_values(|x: &T| *x)[i] == values_of(cat)[i]);
    }
}

} // verus!
