//! The scope validator: which of the scopes that a request requires a
//! credential has not been granted.
use crate::text::views;
use vstd::prelude::*;
use vstd::string::*;

verus! {

/// A named authorization grant, such as `user:read:email`.
#[derive(Clone, Debug, PartialEq, Eq)]
pub struct Scope {
    name: String,
}

impl View for Scope {
    type V = Seq<char>;

    closed spec fn view(&self) -> Seq<char> {
        self.name@
    }
}

impl Scope {
    /// The scope with the given name.
    pub fn new(name: &str) -> (scope: Scope)
        ensures
            scope@ == name@,
    {
        Scope { name: name.to_owned() }
    }

    /// The scope's name.
    pub fn as_str(&self) -> (name: &str)
        ensures
            name@ == self@,
    {
        self.name.as_str()
    }

    /// A copy of the scope.
    pub fn duplicate(&self) -> (copy: Scope)
        ensures
            copy@ == self@,
    {
        Scope { name: self.name.clone() }
    }
}

/// The scopes that a credential lacks for a request.
#[derive(Clone, Debug, PartialEq, Eq)]
pub struct ScopeError {
    /// Each required scope that was not granted, once, in the order in which
    /// the request requires them. Never empty.
    pub missing: Vec<Scope>,
}

/// The required names that are not among the granted ones: each once, in the
/// order of its first occurrence in `required`.
pub open spec fn missing_scopes(required: Seq<Seq<char>>, granted: Seq<Seq<char>>) -> Seq<
    Seq<char>,
>
    decreases required.len(),
{
    if required.len() == 0 {
        Seq::empty()
    } else {
        let rest = missing_scopes(required.drop_last(), granted);
        let last = required.last();
        if granted.contains(last) || rest.contains(last) {
            rest
        } else {
            rest.push(last)
        }
    }
}

/// The missing scopes are, as a set, exactly the required ones without the
/// granted ones; none is listed twice; and there is none if and only if every
/// required scope was granted.
pub proof fn lemma_missing_is_difference(required: Seq<Seq<char>>, granted: Seq<Seq<char>>)
    ensures
        missing_scopes(required, granted).to_set() == required.to_set().difference(
            granted.to_set(),
        ),
        missing_scopes(required, granted).no_duplicates(),
        missing_scopes(required, granted).len() == 0 <==> required.to_set().subset_of(
            granted.to_set(),
        ),
    decreases required.len(),
{
    let missing = missing_scopes(required, granted);
    let wanted = required.to_set().difference(granted.to_set());
    if required.len() == 0 {
        assert(missing.to_set() =~= wanted);
    } else {
        let head = required.drop_last();
        let last = required.last();
        let rest = missing_scopes(head, granted);
        lemma_missing_is_difference(head, granted);
        assert forall|name: Seq<char>| required.contains(name) <==> head.contains(name) || name
            == last by {
            if required.contains(name) {
                let i = choose|i: int| 0 <= i < required.len() && required[i] == name;
                if i < head.len() {
                    assert(head[i] == name);
                }
            }
            if head.contains(name) {
                let i = choose|i: int| 0 <= i < head.len() && head[i] == name;
                assert(required[i] == name);
            }
            assert(required[required.len() - 1] == last);
        }
        assert forall|name: Seq<char>| rest.contains(name) <==> head.contains(name)
            && !granted.contains(name) by {
            assert(rest.to_set().contains(name) == rest.contains(name));
            assert(head.to_set().contains(name) == head.contains(name));
            assert(granted.to_set().contains(name) == granted.contains(name));
        }
        assert forall|name: Seq<char>| missing.contains(name) <==> required.contains(name)
            && !granted.contains(name) by {
            if !(granted.contains(last) || rest.contains(last)) {
                assert(missing == rest.push(last));
                if missing.contains(name) {
                    let i = choose|i: int| 0 <= i < missing.len() && missing[i] == name;
                    if i < rest.len() {
                        assert(rest[i] == name);
                    }
                }
                if rest.contains(name) {
                    let i = choose|i: int| 0 <= i < rest.len() && rest[i] == name;
                    assert(missing[i] == name);
                }
                assert(missing[missing.len() - 1] == last);
            }
        }
        assert(missing.to_set() =~= wanted);
        if missing.len() == 0 {
            assert forall|name: Seq<char>| required.to_set().contains(name) implies granted.to_set().contains(
                name,
            ) by {
                if !granted.contains(name) {
                    assert(missing.contains(name));
                }
            }
        } else {
            assert(missing.contains(missing[0]));
            assert(required.to_set().contains(missing[0]));
            assert(!granted.to_set().contains(missing[0]));
        }
    }
}

/// `true` when `list` holds a scope named like `scope`.
fn holds(list: &Vec<Scope>, scope: &Scope) -> (found: bool)
    ensures
        found == views(list@).contains(scope@),
{
    let mut i: usize = 0;
    while i < list.len()
        invariant
            i <= list.len(),
            forall|k: int| 0 <= k < i ==> views(list@)[k] != scope@,
        decreases list.len() - i,
    {
        if list[i].name == scope.name {
            assert(views(list@)[i as int] == scope@);
            return true;
        }
        i += 1;
    }
    false
}

/// Checks the scopes that a request requires against those that a credential
/// was granted.
///
/// The check passes if and only if every required scope was granted; an empty
/// `required` always passes. Otherwise the error names exactly the required
/// scopes that were not granted, each once, in the order in which they are
/// required.
pub fn check(required: &Vec<Scope>, granted: &Vec<Scope>) -> (r: Result<(), ScopeError>)
    ensures
        r is Ok <==> views(required@).to_set().subset_of(views(granted@).to_set()),
        r is Ok <==> missing_scopes(views(required@), views(granted@)).len() == 0,
        required@.len() == 0 ==> r is Ok,
        r matches Err(e) ==> {
            &&& views(e.missing@) == missing_scopes(views(required@), views(granted@))
            &&& views(e.missing@).to_set() == views(required@).to_set().difference(
                views(granted@).to_set(),
            )
            &&& views(e.missing@).no_duplicates()
            &&& e.missing@.len() > 0
        },
{
    let ghost wanted = views(required@);
    let ghost given = views(granted@);
    let mut missing: Vec<Scope> = Vec::new();
    let mut i: usize = 0;
    while i < required.len()
        invariant
            i <= required.len(),
            wanted == views(required@),
            given == views(granted@),
            views(missing@) == missing_scopes(wanted.take(i as int), given),
        decreases required.len() - i,
    {
        let scope = &required[i];
        let ghost before = views(missing@);
        proof {
            assert(wanted.take(i + 1).drop_last() == wanted.take(i as int));
            assert(wanted.take(i + 1).last() == scope@);
        }
        if !holds(granted, scope) && !holds(&missing, scope) {
            missing.push(scope.duplicate());
            assert(views(missing@) == before.push(scope@));
        }
        i += 1;
    }
    proof {
        assert(wanted.take(required.len() as int) == wanted);
        lemma_missing_is_difference(wanted, given);
    }
    if missing.len() == 0 {
        Ok(())
    } else {
        Err(ScopeError { missing })
    }
}

} // verus!
