//! Global-usage analysis: which functions read the distinguished global, by
//! themselves or through the functions they call.
use vstd::prelude::*;
use crate::ast::{FnItem, Item};
use crate::scan::{called_names, push_name, reads_global_stmts, stmts_calls, stmts_read, strs};

verus! {

/// Names that drive the analysis: the entry point, the global read by field
/// access, and the type of the parameter that carries it.
pub struct EnhanceConfig {
    pub entry_point_fn_name: String,
    pub constant_name: String,
    pub param_type: String,
}

/// The functions that a vector of references points to.
pub open spec fn fv(fns: &Vec<&FnItem>) -> Seq<FnItem> {
    Seq::new(fns@.len(), |i: int| *fns@[i])
}

/// The function items of `items`, in order.
pub open spec fn fn_items(items: Seq<Item>) -> Seq<FnItem>
    decreases items.len(),
{
    if items.len() == 0 {
        Seq::empty()
    } else {
        let rest = fn_items(items.drop_last());
        match items.last() {
            Item::Fn(f) => rest.push(f),
            _ => rest,
        }
    }
}

/// The index of the last function named `name`, if any: a later definition
/// hides an earlier one of the same name.
pub open spec fn resolve(names: Seq<Seq<char>>, name: Seq<char>) -> Option<int>
    decreases names.len(),
{
    if names.len() == 0 {
        None
    } else if names.last() == name {
        Some(names.len() - 1)
    } else {
        resolve(names.drop_last(), name)
    }
}

/// The names of the functions, in order.
pub open spec fn names_of(fns: Seq<FnItem>) -> Seq<Seq<char>> {
    Seq::new(fns.len(), |i: int| fns[i].name@)
}

/// The names called in the body of `f`, in source order.
pub open spec fn calls_of(f: FnItem) -> Seq<Seq<char>> {
    stmts_calls(f.body, 0)
}

/// Whether the body of `f` reads a field of the global `g`.
pub open spec fn reads_directly(f: FnItem, g: Seq<char>) -> bool {
    stmts_read(f.body, 0, g)
}

/// The function that the `j`-th call in function `a` resolves to.
pub open spec fn callee(fns: Seq<FnItem>, a: int, j: int) -> Option<int> {
    resolve(names_of(fns), calls_of(fns[a])[j])
}

/// Function `a` calls function `b`.
pub open spec fn edge(fns: Seq<FnItem>, a: int, b: int) -> bool {
    exists|j: int| 0 <= j < calls_of(fns[a]).len() && #[trigger] callee(fns, a, j) == Some(b)
}

/// `p` is a walk along calls.
pub open spec fn is_call_path(fns: Seq<FnItem>, p: Seq<int>) -> bool {
    &&& forall|i: int| 0 <= i < p.len() ==> 0 <= #[trigger] p[i] < fns.len()
    &&& forall|i: int| 0 <= i < p.len() - 1 ==> edge(fns, #[trigger] p[i], p[i + 1])
}

/// No function reaches itself through calls.
pub open spec fn acyclic(fns: Seq<FnItem>) -> bool {
    forall|p: Seq<int>|
        #![trigger is_call_path(fns, p)]
        is_call_path(fns, p) && p.len() >= 2 ==> p[0] != p[p.len() - 1]
}

/// Some call of function `a` resolves to a function marked in `u`.
pub open spec fn some_callee_uses(fns: Seq<FnItem>, u: Seq<bool>, a: int) -> bool {
    exists|j: int|
        0 <= j < calls_of(fns[a]).len() && match #[trigger] callee(fns, a, j) {
            Some(c) => u[c],
            None => false,
        }
}

/// What the analysis guarantees of its marks `u`, one per function: a
/// function that reads the global is marked; a mark is explained by a
/// direct read or a marked callee; and without call cycles a function is
/// marked exactly when it reads the global or calls a marked function.
pub open spec fn usage_sound(fns: Seq<FnItem>, g: Seq<char>, u: Seq<bool>) -> bool {
    &&& u.len() == fns.len()
    &&& forall|a: int|
        0 <= a < fns.len() ==> (reads_directly(#[trigger] fns[a], g) ==> u[a])
    &&& forall|a: int|
        0 <= a < fns.len() ==> (#[trigger] u[a] ==> reads_directly(fns[a], g)
            || some_callee_uses(fns, u, a))
    &&& acyclic(fns) ==> forall|a: int|
        0 <= a < fns.len() ==> #[trigger] u[a] == (reads_directly(fns[a], g)
            || some_callee_uses(fns, u, a))
}

/// Whether a call of `name` gets the carrier argument: the entry point
/// always does, any other name when it resolves to a marked function.
pub open spec fn needs_carrier(
    names: Seq<Seq<char>>,
    u: Seq<bool>,
    entry: Seq<char>,
    name: Seq<char>,
) -> bool {
    name == entry || match resolve(names, name) {
        Some(k) => u[k],
        None => false,
    }
}

pub proof fn lemma_resolve(names: Seq<Seq<char>>, name: Seq<char>)
    ensures
        match resolve(names, name) {
            Some(k) => 0 <= k < names.len() && names[k] == name && forall|j: int|
                k < j < names.len() ==> names[j] != name,
            None => forall|j: int| 0 <= j < names.len() ==> names[j] != name,
        },
    decreases names.len(),
{
    if names.len() > 0 {
        let d = names.drop_last();
        lemma_resolve(d, name);
        assert(forall|j: int| 0 <= j < d.len() ==> d[j] == names[j]);
    }
}

/// The function items of the tree, in order.
pub fn collect_fns(items: &Vec<Item>) -> (r: Vec<&FnItem>)
    ensures
        fv(&r) == fn_items(items@),
{
    let mut r: Vec<&FnItem> = Vec::new();
    let mut i: usize = 0;
    while i < items.len()
        invariant
            i <= items.len(),
            fv(&r) == fn_items(items@.take(i as int)),
        decreases items.len() - i,
    {
        assert(items@.take(i + 1).drop_last() =~= items@.take(i as int));
        match &items[i] {
            Item::Fn(f) => {
                let ghost before = fv(&r);
                r.push(f);
                assert(fv(&r) =~= before.push(*f));
            },
            _ => {},
        }
        i = i + 1;
    }
    assert(items@.take(i as int) =~= items@);
    assert(fv(&r) =~= fn_items(items@));
    r
}

/// The names of the functions, in order.
pub fn fn_names(fns: &Vec<&FnItem>) -> (r: Vec<String>)
    ensures
        strs(r@) == names_of(fv(fns)),
{
    let mut r: Vec<String> = Vec::new();
    let mut i: usize = 0;
    while i < fns.len()
        invariant
            i <= fns.len(),
            strs(r@) == names_of(fv(fns)).take(i as int),
        decreases fns.len() - i,
    {
        assert(fv(fns)[i as int] == *fns@[i as int]);
        push_name(&mut r, &fns[i].name);
        assert(strs(r@) =~= names_of(fv(fns)).take(i + 1));
        i = i + 1;
    }
    assert(names_of(fv(fns)).take(i as int) =~= names_of(fv(fns)));
    r
}

/// The index of the last of `names` equal to `name`.
pub fn find_name(names: &Vec<String>, name: &String) -> (r: Option<usize>)
    ensures
        match r {
            Some(k) => k < names.len() && resolve(strs(names@), name@) == Some(k as int),
            None => resolve(strs(names@), name@) is None,
        },
{
    proof {
        lemma_resolve(strs(names@), name@);
    }
    let mut i: usize = names.len();
    while i > 0
        invariant
            i <= names.len(),
            forall|j: int| i <= j < names.len() ==> strs(names@)[j] != name@,
            match resolve(strs(names@), name@) {
                Some(k) => 0 <= k < names.len() && strs(names@)[k] == name@ && forall|j: int|
                    k < j < names.len() ==> strs(names@)[j] != name@,
                None => forall|j: int| 0 <= j < names.len() ==> strs(names@)[j] != name@,
            },
        decreases i,
    {
        i = i - 1;
        assert(strs(names@)[i as int] == names@[i as int]@);
        if names[i] == *name {
            return Some(i);
        }
    }
    None
}

pub open spec fn count_unmarked(s: Seq<bool>) -> nat
    decreases s.len(),
{
    if s.len() == 0 {
        0
    } else {
        count_unmarked(s.drop_last()) + if s.last() {
            0nat
        } else {
            1nat
        }
    }
}

proof fn lemma_count_unmarked(a: Seq<bool>, b: Seq<bool>)
    requires
        a.len() == b.len(),
        forall|i: int| 0 <= i < a.len() ==> a[i] ==> b[i],
    ensures
        count_unmarked(b) <= count_unmarked(a),
        (exists|i: int| 0 <= i < a.len() && !a[i] && b[i]) ==> count_unmarked(b) < count_unmarked(
            a,
        ),
    decreases a.len(),
{
    if a.len() > 0 {
        lemma_count_unmarked(a.drop_last(), b.drop_last());
        if exists|i: int| 0 <= i < a.len() && !a[i] && b[i] {
            let i = choose|i: int| 0 <= i < a.len() && !a[i] && b[i];
            if i < a.len() - 1 {
                assert(!a.drop_last()[i] && b.drop_last()[i]);
            }
        }
    }
}

/// A function whose analysis has started and not finished.
pub open spec fn pending(memo: Seq<Option<bool>>, marked: Seq<bool>, i: int) -> bool {
    marked[i] && memo[i] is None
}

pub open spec fn memo_true(memo: Seq<Option<bool>>, c: int) -> bool {
    memo[c] == Some(true)
}

pub open spec fn some_callee_done_true(fns: Seq<FnItem>, memo: Seq<Option<bool>>, a: int) -> bool {
    exists|j: int|
        0 <= j < calls_of(fns[a]).len() && match #[trigger] callee(fns, a, j) {
            Some(c) => memo_true(memo, c),
            None => false,
        }
}

pub open spec fn callees_done(fns: Seq<FnItem>, memo: Seq<Option<bool>>, a: int) -> bool {
    forall|j: int|
        0 <= j < calls_of(fns[a]).len() ==> match #[trigger] callee(fns, a, j) {
            Some(c) => memo[c] is Some,
            None => true,
        }
}

/// What holds of the memo table between steps of the search.
pub open spec fn memo_inv(
    fns: Seq<FnItem>,
    g: Seq<char>,
    memo: Seq<Option<bool>>,
    marked: Seq<bool>,
    stack: Seq<int>,
) -> bool {
    &&& memo.len() == fns.len()
    &&& marked.len() == fns.len()
    &&& forall|i: int| 0 <= i < fns.len() && #[trigger] memo[i] is Some ==> marked[i]
    &&& forall|i: int| 0 <= i < fns.len() ==> (pending(memo, marked, i) <==> stack.contains(i))
    &&& forall|i: int|
        0 <= i < fns.len() && #[trigger] memo[i] == Some(true) ==> reads_directly(fns[i], g)
            || some_callee_done_true(fns, memo, i)
    &&& forall|i: int|
        0 <= i < fns.len() && #[trigger] memo[i] == Some(false) ==> !reads_directly(fns[i], g)
    &&& acyclic(fns) ==> forall|i: int|
        0 <= i < fns.len() && (#[trigger] memo[i] is Some) ==> callees_done(fns, memo, i) && memo[i]
            == Some(reads_directly(fns[i], g) || some_callee_done_true(fns, memo, i))
}

/// `stack` is the chain of pending calls that leads to `f`.
pub open spec fn stack_leads_to(fns: Seq<FnItem>, stack: Seq<int>, f: int) -> bool {
    &&& is_call_path(fns, stack)
    &&& stack.len() > 0 ==> edge(fns, stack.last(), f)
}

proof fn lemma_cycle(fns: Seq<FnItem>, stack: Seq<int>, f: int, c: int)
    requires
        is_call_path(fns, stack.push(f)),
        0 <= f < fns.len(),
        0 <= c < fns.len(),
        edge(fns, f, c),
        stack.push(f).contains(c),
    ensures
        !acyclic(fns),
{
    let s = stack.push(f);
    let k = choose|k: int| 0 <= k < s.len() && s[k] == c;
    let p = s.subrange(k, s.len() as int).push(c);
    assert(p[0] == c);
    assert(p[p.len() - 1] == c);
    assert forall|i: int| 0 <= i < p.len() - 1 implies edge(fns, #[trigger] p[i], p[i + 1]) by {
        if i < p.len() - 2 {
            assert(p[i] == s[k + i] && p[i + 1] == s[k + i + 1]);
        } else {
            assert(p[i] == f);
        }
    }
    assert(is_call_path(fns, p));
}

fn visit(
    fns: &Vec<&FnItem>,
    all_names: &Vec<String>,
    g: &String,
    f: usize,
    memo: &mut Vec<Option<bool>>,
    marked: &mut Vec<bool>,
    Ghost(stack): Ghost<Seq<int>>,
)
    requires
        f < fns.len(),
        strs(all_names@) == names_of(fv(fns)),
        memo_inv(fv(fns), g@, old(memo)@, old(marked)@, stack),
        stack_leads_to(fv(fns), stack, f as int),
    ensures
        memo_inv(fv(fns), g@, final(memo)@, final(marked)@, stack),
        forall|i: int|
            0 <= i < fns.len() && (#[trigger] old(memo)@[i]) is Some ==> final(memo)@[i] == old(
                memo,
            )@[i],
        forall|i: int| 0 <= i < fns.len() && #[trigger] old(marked)@[i] ==> final(marked)@[i],
        !pending(old(memo)@, old(marked)@, f as int) ==> final(memo)@[f as int] is Some,
    decreases count_unmarked(old(marked)@),
{
    if memo[f].is_some() {
        return;
    }
    if marked[f] {
        return;
    }
    let ghost memo0 = memo@;
    let ghost marked0 = marked@;
    marked.set(f, true);
    proof {
        lemma_count_unmarked(marked0, marked@);
        assert(stack.push(f as int).last() == f as int);
    }
    let ghost inner = stack.push(f as int);
    assert(is_call_path(fv(fns), inner)) by {
        assert forall|i: int| 0 <= i < inner.len() - 1 implies edge(
            fv(fns),
            #[trigger] inner[i],
            inner[i + 1],
        ) by {
            if i < inner.len() - 2 {
                assert(inner[i] == stack[i] && inner[i + 1] == stack[i + 1]);
            }
        }
    }
    assert(memo_inv(fv(fns), g@, memo@, marked@, inner)) by {
        assert forall|i: int| 0 <= i < fns.len() implies (pending(memo@, marked@, i)
            <==> inner.contains(i)) by {
            if i == f as int {
                assert(inner[inner.len() - 1] == i);
            } else {
                if stack.contains(i) {
                    let k = choose|k: int| 0 <= k < stack.len() && stack[k] == i;
                    assert(inner[k] == i);
                }
                if inner.contains(i) {
                    let k = choose|k: int| 0 <= k < inner.len() && inner[k] == i;
                    assert(stack[k] == i);
                }
            }
        }
    }
    let names = called_names(&fns[f].body);
    let mut any = false;
    let mut j: usize = 0;
    while j < names.len()
        invariant
            f < fns.len(),
            strs(all_names@) == names_of(fv(fns)),
            j <= names.len(),
            strs(names@) == calls_of(fv(fns)[f as int]),
            memo_inv(fv(fns), g@, memo@, marked@, inner),
            inner == stack.push(f as int),
            is_call_path(fv(fns), inner),
            memo@[f as int] is None,
            marked@[f as int],
            forall|i: int|
                0 <= i < fns.len() && (#[trigger] memo0[i]) is Some ==> memo@[i] == memo0[i],
            forall|i: int| 0 <= i < fns.len() && #[trigger] marked0[i] ==> marked@[i],
            count_unmarked(marked@) < count_unmarked(marked0),
            marked0 == old(marked)@,
            any ==> some_callee_done_true(fv(fns), memo@, f as int),
            acyclic(fv(fns)) ==> forall|jj: int|
                0 <= jj < j ==> match #[trigger] callee(fv(fns), f as int, jj) {
                    Some(c) => memo@[c] is Some,
                    None => true,
                },
            acyclic(fv(fns)) ==> (any == exists|jj: int|
                0 <= jj < j && match #[trigger] callee(fv(fns), f as int, jj) {
                    Some(c) => memo_true(memo@, c),
                    None => false,
                }),
        decreases names.len() - j,
    {
        assert(strs(names@)[j as int] == names@[j as int]@);
        let found = find_name(all_names, &names[j]);
        match found {
            Some(c) => {
                let ghost memo1 = memo@;
                let ghost marked1 = marked@;
                assert(callee(fv(fns), f as int, j as int) == Some(c as int));
                assert(edge(fv(fns), f as int, c as int));
                proof {
                    lemma_resolve(names_of(fv(fns)), names@[j as int]@);
                }
                visit(fns, all_names, g, c, memo, marked, Ghost(inner));
                proof {
                    assert(inner[inner.len() - 1] == f as int);
                    assert(inner.contains(f as int));
                    lemma_count_unmarked(marked1, marked@);
                    if acyclic(fv(fns)) && pending(memo1, marked1, c as int) {
                        lemma_cycle(fv(fns), stack, f as int, c as int);
                    }
                }
                if memo[c] == Some(true) {
                    any = true;
                }
                proof {
                    if some_callee_done_true(fv(fns), memo1, f as int) {
                        lemma_done_true_grows(fv(fns), memo1, memo@, f as int);
                    }
                    if memo@[c as int] == Some(true) {
                        assert(memo_true(memo@, c as int));
                    }
                    if acyclic(fv(fns)) {
                        assert forall|jj: int| 0 <= jj < j implies match #[trigger] callee(
                            fv(fns),
                            f as int,
                            jj,
                        ) {
                            Some(c2) => memo@[c2] is Some && memo@[c2] == memo1[c2],
                            None => true,
                        } by {
                            lemma_callee_in_range(fv(fns), f as int, jj);
                        }
                    }
                }
            },
            None => {
                assert(callee(fv(fns), f as int, j as int) is None);
            },
        }
        j = j + 1;
    }
    let direct = reads_global_stmts(&fns[f].body, 0, g);
    let v = any || direct;
    let ghost memo2 = memo@;
    memo.set(f, Some(v));
    proof {
        let m = memo@;
        assert(m == memo2.update(f as int, Some(v)));
        assert forall|i: int| 0 <= i < fns.len() && (#[trigger] memo2[i]) is Some implies m[i]
            == memo2[i] by {}
        if acyclic(fv(fns)) {
            assert(callees_done(fv(fns), memo2, f as int));
        }
        assert forall|i: int|
            0 <= i < fns.len() && (#[trigger] m[i]) == Some(true) implies reads_directly(
            fv(fns)[i],
            g@,
        ) || some_callee_done_true(fv(fns), m, i) by {
            if some_callee_done_true(fv(fns), memo2, i) {
                lemma_done_true_grows(fv(fns), memo2, m, i);
            }
        }
        if acyclic(fv(fns)) {
            assert forall|i: int| 0 <= i < fns.len() && (#[trigger] m[i] is Some) implies callees_done(
                fv(fns),
                m,
                i,
            ) && m[i] == Some(reads_directly(fv(fns)[i], g@) || some_callee_done_true(fv(fns), m, i)) by {
                lemma_done_same(fv(fns), memo2, m, i);
                if i == f as int {
                    assert(any == some_callee_done_true(fv(fns), memo2, f as int));
                }
            }
        }
        assert forall|i: int| 0 <= i < fns.len() implies (pending(m, marked@, i) <==> stack.contains(
            i,
        )) by {
            if i == f as int {
                assert(!pending(memo0, marked0, i));
            } else {
                assert(pending(m, marked@, i) == pending(memo2, marked@, i));
                if stack.contains(i) {
                    let k = choose|k: int| 0 <= k < stack.len() && stack[k] == i;
                    assert(inner[k] == i);
                }
                if inner.contains(i) {
                    let k = choose|k: int| 0 <= k < inner.len() && inner[k] == i;
                    assert(k < stack.len());
                    assert(stack[k] == i);
                }
            }
        }
    }
}

proof fn lemma_callee_in_range(fns: Seq<FnItem>, a: int, j: int)
    requires
        0 <= a < fns.len(),
        0 <= j < calls_of(fns[a]).len(),
    ensures
        match callee(fns, a, j) {
            Some(c) => 0 <= c < fns.len(),
            None => true,
        },
{
    lemma_resolve(names_of(fns), calls_of(fns[a])[j]);
}

proof fn lemma_done_true_grows(
    fns: Seq<FnItem>,
    m1: Seq<Option<bool>>,
    m2: Seq<Option<bool>>,
    a: int,
)
    requires
        0 <= a < fns.len(),
        m1.len() == fns.len(),
        m2.len() == fns.len(),
        forall|i: int| 0 <= i < fns.len() && (#[trigger] m1[i]) is Some ==> m2[i] == m1[i],
        some_callee_done_true(fns, m1, a),
    ensures
        some_callee_done_true(fns, m2, a),
{
    let j = choose|j: int|
        0 <= j < calls_of(fns[a]).len() && match #[trigger] callee(fns, a, j) {
            Some(c) => memo_true(m1, c),
            None => false,
        };
    lemma_callee_in_range(fns, a, j);
    let c = callee(fns, a, j)->Some_0;
    assert(m1[c] is Some);
    assert(memo_true(m2, c));
}

proof fn lemma_done_same(fns: Seq<FnItem>, m1: Seq<Option<bool>>, m2: Seq<Option<bool>>, a: int)
    requires
        0 <= a < fns.len(),
        m1.len() == fns.len(),
        m2.len() == fns.len(),
        forall|i: int| 0 <= i < fns.len() && (#[trigger] m1[i]) is Some ==> m2[i] == m1[i],
        callees_done(fns, m1, a),
    ensures
        callees_done(fns, m2, a),
        some_callee_done_true(fns, m2, a) == some_callee_done_true(fns, m1, a),
{
    assert forall|j: int| 0 <= j < calls_of(fns[a]).len() implies match #[trigger] callee(
        fns,
        a,
        j,
    ) {
        Some(c) => m2[c] is Some && m2[c] == m1[c],
        None => true,
    } by {
        lemma_callee_in_range(fns, a, j);
    }
    if some_callee_done_true(fns, m1, a) {
        lemma_done_true_grows(fns, m1, m2, a);
    }
    if some_callee_done_true(fns, m2, a) {
        let j = choose|j: int|
            0 <= j < calls_of(fns[a]).len() && match #[trigger] callee(fns, a, j) {
                Some(c) => memo_true(m2, c),
                None => false,
            };
        let c = callee(fns, a, j)->Some_0;
        assert(memo_true(m1, c));
    }
}

/// Marks each function that reads the global `g`, directly or through the
/// functions it calls; see `usage_sound` for what the marks satisfy.
pub fn usage_map(fns: &Vec<&FnItem>, g: &String) -> (u: Vec<bool>)
    ensures
        usage_sound(fv(fns), g@, u@),
{
    let n = fns.len();
    let all_names = fn_names(fns);
    let mut memo: Vec<Option<bool>> = Vec::new();
    let mut marked: Vec<bool> = Vec::new();
    let mut i: usize = 0;
    while i < n
        invariant
            i <= n,
            n == fns.len(),
            memo@.len() == i,
            marked@.len() == i,
            forall|k: int| 0 <= k < i ==> #[trigger] memo@[k] == None::<bool>,
            forall|k: int| 0 <= k < i ==> !#[trigger] marked@[k],
        decreases n - i,
    {
        memo.push(None);
        marked.push(false);
        i = i + 1;
    }
    assert forall|i: int| 0 <= i < n implies !pending(memo@, marked@, i) && !Seq::<int>::empty().contains(i) by {}
    assert(memo_inv(fv(fns), g@, memo@, marked@, Seq::empty()));
    let mut k: usize = 0;
    while k < n
        invariant
            k <= n,
            n == fns.len(),
            strs(all_names@) == names_of(fv(fns)),
            memo_inv(fv(fns), g@, memo@, marked@, Seq::empty()),
            forall|i: int| 0 <= i < k ==> (#[trigger] memo@[i]) is Some,
        decreases n - k,
    {
        assert(is_call_path(fv(fns), Seq::<int>::empty()));
        let ghost before = memo@;
        visit(fns, &all_names, g, k, &mut memo, &mut marked, Ghost(Seq::empty()));
        proof {
            assert(!Seq::<int>::empty().contains(k as int));
            assert forall|i: int| 0 <= i < k + 1 implies (#[trigger] memo@[i]) is Some by {
                if i < k {
                    assert(before[i] is Some);
                }
            }
        }
        k = k + 1;
    }
    let mut u: Vec<bool> = Vec::new();
    let mut i: usize = 0;
    while i < n
        invariant
            i <= n,
            n == fns.len(),
            memo@.len() == n,
            memo_inv(fv(fns), g@, memo@, marked@, Seq::empty()),
            forall|k: int| 0 <= k < n ==> (#[trigger] memo@[k]) is Some,
            u@.len() == i,
            forall|k: int| 0 <= k < i ==> u@[k] == memo_true(memo@, k),
        decreases n - i,
    {
        u.push(memo[i] == Some(true));
        i = i + 1;
    }
    proof {
        let fs = fv(fns);
        assert forall|a: int| 0 <= a < n implies some_callee_uses(fs, u@, a)
            == some_callee_done_true(fs, memo@, a) by {
            if some_callee_uses(fs, u@, a) {
                let j = choose|j: int|
                    0 <= j < calls_of(fs[a]).len() && match #[trigger] callee(fs, a, j) {
                        Some(c) => u@[c],
                        None => false,
                    };
                lemma_callee_in_range(fs, a, j);
                let c = callee(fs, a, j)->Some_0;
                assert(memo_true(memo@, c));
            }
            if some_callee_done_true(fs, memo@, a) {
                let j = choose|j: int|
                    0 <= j < calls_of(fs[a]).len() && match #[trigger] callee(fs, a, j) {
                        Some(c) => memo_true(memo@, c),
                        None => false,
                    };
                lemma_callee_in_range(fs, a, j);
                let c = callee(fs, a, j)->Some_0;
                assert(u@[c]);
            }
        }
        assert forall|a: int| 0 <= a < n && reads_directly(#[trigger] fs[a], g@) implies u@[a] by {
            assert(memo@[a] is Some);
            assert(u@[a] == memo_true(memo@, a));
            assert(memo@[a] == Some(true) || memo@[a] == Some(false));
            if memo@[a] == Some(false) {
                assert(!reads_directly(fs[a], g@));
            }
        }
        assert forall|a: int| 0 <= a < n && #[trigger] u@[a] implies reads_directly(fs[a], g@)
            || some_callee_uses(fs, u@, a) by {
            assert(memo@[a] is Some);
        }
        if acyclic(fs) {
            assert forall|a: int| 0 <= a < n implies #[trigger] u@[a] == (reads_directly(fs[a], g@)
                || some_callee_uses(fs, u@, a)) by {
                assert(memo@[a] is Some);
            }
        }
    }
    u
}

} // verus!
