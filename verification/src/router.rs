//! Where a request goes: a module by name, or the daemon's own `system`
//! methods.
use vstd::prelude::*;
use crate::protocol::ResponseError;
use crate::text::{chars_of, push_str, same_text};

verus! {

/// The destination of a request.
#[derive(Debug, PartialEq, Eq)]
pub enum RouteTarget {
    /// The daemon's own methods.
    System,
    /// The registered module at this position.
    Module(usize),
    /// No module has the name.
    NotFound(ResponseError),
}

pub open spec fn names_view(names: Seq<&str>) -> Seq<Seq<char>> {
    names.map_values(|name: &str| name@)
}

/// Routes a request for `module`: `system` is the daemon's, otherwise the
/// first registered module of that name.
pub fn route_target(module_names: &Vec<&str>, module: &str) -> (target: RouteTarget)
    ensures
        module@ == "system"@ ==> target == RouteTarget::System,
        module@ != "system"@ ==> match target {
            RouteTarget::Module(index) => index < module_names@.len() && module_names@[index as int]@
                == module@ && forall|j: int| 0 <= j < index ==> (#[trigger] module_names@[j])@ != module@,
            RouteTarget::NotFound(error) => (forall|j: int|
                0 <= j < module_names@.len() ==> (#[trigger] module_names@[j])@ != module@)
                && error.code@ == "MODULE_NOT_FOUND"@ && error.message@ == "Module '"@ + module@
                + "' not found"@,
            RouteTarget::System => false,
        },
{
    if same_text(module, "system") {
        return RouteTarget::System;
    }
    let mut index: usize = 0;
    while index < module_names.len()
        invariant
            module@ != "system"@,
            index <= module_names@.len(),
            forall|j: int| 0 <= j < index ==> (#[trigger] module_names@[j])@ != module@,
        decreases module_names@.len() - index,
    {
        if same_text(module_names[index], module) {
            return RouteTarget::Module(index);
        }
        index = index + 1;
    }
    let mut message = String::new();
    push_str(&mut message, "Module '");
    push_str(&mut message, module);
    push_str(&mut message, "' not found");
    RouteTarget::NotFound(ResponseError { code: "MODULE_NOT_FOUND".to_owned(), message })
}

/// What a `system` method asks for.
#[derive(Debug, PartialEq, Eq)]
pub enum SystemAction {
    Ping,
    ListModules,
    Quit,
    Unknown(ResponseError),
}

pub fn system_action(method: &str) -> (action: SystemAction)
    ensures
        method@ == "ping"@ ==> action == SystemAction::Ping,
        method@ == "list-modules"@ ==> action == SystemAction::ListModules,
        method@ == "quit"@ ==> action == SystemAction::Quit,
        method@ != "ping"@ && method@ != "list-modules"@ && method@ != "quit"@ ==> (action matches SystemAction::Unknown(error) && error.code@
            == "METHOD_NOT_FOUND"@ && error.message@ == "System method '"@ + method@ + "' not found"@),
{
    proof {
        reveal_strlit("ping");
        reveal_strlit("list-modules");
        reveal_strlit("quit");
        assert("ping"@.len() == 4 && "quit"@.len() == 4 && "list-modules"@.len() == 12);
        assert("ping"@[0] != "quit"@[0]);
    }
    if same_text(method, "ping") {
        return SystemAction::Ping;
    }
    if same_text(method, "list-modules") {
        return SystemAction::ListModules;
    }
    if same_text(method, "quit") {
        return SystemAction::Quit;
    }
    let mut message = String::new();
    push_str(&mut message, "System method '");
    push_str(&mut message, method);
    push_str(&mut message, "' not found");
    SystemAction::Unknown(ResponseError { code: "METHOD_NOT_FOUND".to_owned(), message })
}

/// Whether `a` comes before `b` in the order of `str`: by code point, a
/// prefix first.
pub open spec fn text_less(a: Seq<char>, b: Seq<char>) -> bool
    decreases a.len(),
{
    if b.len() == 0 {
        false
    } else if a.len() == 0 {
        true
    } else if a[0] != b[0] {
        (a[0] as u32) < (b[0] as u32)
    } else {
        text_less(a.drop_first(), b.drop_first())
    }
}

fn less_from(a: &Vec<char>, b: &Vec<char>, start: usize) -> (less: bool)
    requires
        start <= a@.len(),
        start <= b@.len(),
        a@.take(start as int) == b@.take(start as int),
    ensures
        less == text_less(a@.skip(start as int), b@.skip(start as int)),
    decreases a@.len() - start,
{
    if start == b.len() {
        return false;
    }
    if start == a.len() {
        return true;
    }
    let ghost rest_a = a@.skip(start as int);
    let ghost rest_b = b@.skip(start as int);
    assert(rest_a[0] == a@[start as int]);
    assert(rest_b[0] == b@[start as int]);
    if a[start] != b[start] {
        return (a[start] as u32) < (b[start] as u32);
    }
    assert(rest_a.drop_first() =~= a@.skip(start + 1));
    assert(rest_b.drop_first() =~= b@.skip(start + 1));
    assert(a@.take(start + 1) =~= a@.take(start as int).push(a@[start as int]));
    assert(b@.take(start + 1) =~= b@.take(start as int).push(b@[start as int]));
    less_from(a, b, start + 1)
}

/// Whether `a` sorts before `b`.
pub fn text_before(a: &str, b: &str) -> (less: bool)
    ensures
        less == text_less(a@, b@),
{
    let left = chars_of(a);
    let right = chars_of(b);
    assert(left@.take(0) =~= right@.take(0));
    assert(left@.skip(0) =~= left@);
    assert(right@.skip(0) =~= right@);
    less_from(&left, &right, 0)
}

/// The order of `text_before` is a strict total order: never both ways,
/// transitive, and two texts that neither precedes are the same.
pub proof fn lemma_text_order(a: Seq<char>, b: Seq<char>, c: Seq<char>)
    ensures
        !text_less(a, a),
        text_less(a, b) ==> !text_less(b, a),
        !text_less(a, b) && !text_less(b, a) ==> a == b,
        text_less(a, b) && text_less(b, c) ==> text_less(a, c),
{
    lemma_text_less_antisymmetric(a, a);
    lemma_text_less_antisymmetric(a, b);
    if text_less(a, b) && text_less(b, c) {
        lemma_text_less_transitive(a, b, c);
    }
}

proof fn lemma_text_less_antisymmetric(a: Seq<char>, b: Seq<char>)
    ensures
        text_less(a, b) ==> !text_less(b, a),
        !text_less(a, b) && !text_less(b, a) ==> a =~= b,
    decreases a.len(),
{
    if a.len() > 0 && b.len() > 0 && a[0] != b[0] {
        vstd::utf8::char_u32_cast(a[0], a[0] as u32);
        vstd::utf8::char_u32_cast(b[0], b[0] as u32);
    }
    if a.len() > 0 && b.len() > 0 && a[0] == b[0] {
        lemma_text_less_antisymmetric(a.drop_first(), b.drop_first());
        if a.drop_first() =~= b.drop_first() {
            assert(a.len() == b.len());
            assert forall|i: int| 0 <= i < a.len() implies a[i] == b[i] by {
                if i > 0 {
                    assert(a[i] == a.drop_first()[i - 1]);
                    assert(b[i] == b.drop_first()[i - 1]);
                }
            }
        }
    }
}

proof fn lemma_text_less_transitive(a: Seq<char>, b: Seq<char>, c: Seq<char>)
    requires
        text_less(a, b),
        text_less(b, c),
    ensures
        text_less(a, c),
    decreases a.len(),
{
    if a.len() > 0 && a[0] == b[0] && b[0] == c[0] {
        lemma_text_less_transitive(a.drop_first(), b.drop_first(), c.drop_first());
    }
}

/// "At most": `b` does not come before `a`.
proof fn lemma_at_most_transitive(a: Seq<char>, b: Seq<char>, c: Seq<char>)
    requires
        !text_less(b, a),
        !text_less(c, b),
    ensures
        !text_less(c, a),
{
    lemma_text_order(a, b, c);
    lemma_text_order(b, c, a);
    lemma_text_order(a, c, b);
    lemma_text_order(c, a, b);
}

/// Every name comes no later than each name after it.
pub open spec fn names_in_order(names: Seq<Seq<char>>) -> bool {
    forall|i: int, j: int| 0 <= i < j < names.len() ==> !text_less(names[j], names[i])
}

/// `sorted` with `name` put after every name that does not sort after it.
closed spec fn insert_name(sorted: Seq<Seq<char>>, name: Seq<char>) -> Seq<Seq<char>>
    decreases sorted.len(),
{
    if sorted.len() == 0 {
        seq![name]
    } else if text_less(name, sorted.last()) {
        insert_name(sorted.drop_last(), name).push(sorted.last())
    } else {
        sorted.push(name)
    }
}

/// The names sorted by insertion, one after another.
closed spec fn sort_names(names: Seq<Seq<char>>) -> Seq<Seq<char>>
    decreases names.len(),
{
    if names.len() == 0 {
        names
    } else {
        insert_name(sort_names(names.drop_last()), names.last())
    }
}

proof fn lemma_insert_name(sorted: Seq<Seq<char>>, name: Seq<char>)
    requires
        names_in_order(sorted),
    ensures
        names_in_order(insert_name(sorted, name)),
        insert_name(sorted, name).to_multiset() =~= sorted.to_multiset().insert(name),
        forall|k: int|
            0 <= k < insert_name(sorted, name).len() ==> #[trigger] insert_name(sorted, name)[k]
                == name || sorted.contains(insert_name(sorted, name)[k]),
    decreases sorted.len(),
{
    broadcast use vstd::seq_lib::group_to_multiset_ensures;

    if sorted.len() == 0 {
        assert(seq![name] =~= Seq::<Seq<char>>::empty().push(name));
    } else {
        let last = sorted.last();
        let rest = sorted.drop_last();
        assert(sorted =~= rest.push(last));
        if text_less(name, last) {
            assert(names_in_order(rest));
            lemma_insert_name(rest, name);
            let inner = insert_name(rest, name);
            let result = inner.push(last);
            assert forall|k: int| 0 <= k < inner.len() implies !text_less(last, #[trigger] inner[k]) by {
                if inner[k] == name {
                    lemma_text_order(name, last, last);
                } else {
                    let i = choose|i: int| 0 <= i < rest.len() && rest[i] == inner[k];
                    assert(sorted[i] == rest[i]);
                    assert(sorted[sorted.len() - 1] == last);
                }
            }
            assert forall|i: int, j: int| 0 <= i < j < result.len() implies !text_less(
                result[j],
                result[i],
            ) by {
                if j == result.len() - 1 {
                    assert(result[j] == last);
                    assert(result[i] == inner[i]);
                } else {
                    assert(result[i] == inner[i] && result[j] == inner[j]);
                }
            }
            assert forall|k: int| 0 <= k < result.len() implies #[trigger] result[k] == name
                || sorted.contains(result[k]) by {
                if k == result.len() - 1 {
                    assert(sorted[sorted.len() - 1] == result[k]);
                } else {
                    assert(result[k] == inner[k]);
                    if inner[k] != name {
                        let i = choose|i: int| 0 <= i < rest.len() && rest[i] == inner[k];
                        assert(sorted[i] == rest[i]);
                    }
                }
            }
        } else {
            let result = sorted.push(name);
            assert forall|i: int, j: int| 0 <= i < j < result.len() implies !text_less(
                result[j],
                result[i],
            ) by {
                if j == result.len() - 1 {
                    assert(result[j] == name);
                    assert(result[i] == sorted[i]);
                    if i < sorted.len() - 1 {
                        lemma_at_most_transitive(sorted[i], last, name);
                    }
                } else {
                    assert(result[i] == sorted[i] && result[j] == sorted[j]);
                }
            }
            assert forall|k: int| 0 <= k < result.len() implies #[trigger] result[k] == name
                || sorted.contains(result[k]) by {
                if k < sorted.len() {
                    assert(result[k] == sorted[k]);
                }
            }
        }
    }
}

proof fn lemma_sort_names(names: Seq<Seq<char>>)
    ensures
        names_in_order(sort_names(names)),
        sort_names(names).to_multiset() =~= names.to_multiset(),
    decreases names.len(),
{
    broadcast use vstd::seq_lib::group_to_multiset_ensures;

    if names.len() > 0 {
        lemma_sort_names(names.drop_last());
        lemma_insert_name(sort_names(names.drop_last()), names.last());
        assert(names =~= names.drop_last().push(names.last()));
    }
}

fn insert_sorted<'a>(sorted: &mut Vec<&'a str>, name: &'a str)
    ensures
        names_view(final(sorted)@) == insert_name(names_view(old(sorted)@), name@),
    decreases old(sorted)@.len(),
{
    let count = sorted.len();
    if count == 0 {
        sorted.push(name);
        assert(names_view(sorted@) =~= seq![name@]);
        return;
    }
    let last = sorted[count - 1];
    assert(names_view(old(sorted)@).last() == last@);
    if text_before(name, last) {
        let popped = sorted.pop().unwrap();
        assert(names_view(sorted@) =~= names_view(old(sorted)@).drop_last());
        insert_sorted(sorted, name);
        let ghost middle = names_view(sorted@);
        sorted.push(popped);
        assert(names_view(sorted@) =~= middle.push(last@));
    } else {
        sorted.push(name);
        assert(names_view(sorted@) =~= names_view(old(sorted)@).push(name@));
    }
}

/// The module names for `list-modules`, in `str` order: the same names, each
/// as often as given, none after one that sorts before it.
pub fn sorted_names<'a>(names: &Vec<&'a str>) -> (sorted: Vec<&'a str>)
    ensures
        names_in_order(names_view(sorted@)),
        names_view(sorted@).to_multiset() == names_view(names@).to_multiset(),
{
    let mut sorted: Vec<&'a str> = Vec::new();
    let mut index: usize = 0;
    assert(names_view(names@).take(0) =~= Seq::<Seq<char>>::empty());
    assert(names_view(sorted@) =~= Seq::<Seq<char>>::empty());
    while index < names.len()
        invariant
            index <= names@.len(),
            names_view(sorted@) == sort_names(names_view(names@).take(index as int)),
        decreases names@.len() - index,
    {
        assert(names_view(names@).take(index + 1).drop_last() =~= names_view(names@).take(index as int));
        assert(names_view(names@).take(index + 1).last() == names@[index as int]@);
        insert_sorted(&mut sorted, names[index]);
        index = index + 1;
    }
    assert(names_view(names@).take(names@.len() as int) =~= names_view(names@));
    proof {
        lemma_sort_names(names_view(names@));
    }
    sorted
}

} // verus!
