//! From a request to a response, by the registry's keys. A key is the full
//! name of a function, `namespace/name`; what is registered under a key is
//! the caller's business, so the dispatcher decides which handler to call
//! and leaves the call to its caller.

use vstd::prelude::*;
use vstd::string::*;
use crate::error::{NetpodError, NetpodErrorView};
use crate::model::{
    err_response, text_of, DescribeResponse, DescribeResponseView, ErrorResponseView, Namespace,
    NamespaceView, Op, Request, RequestView, Response, ResponseView, Status, Var,
};

verus! {

/// The index of the first `/` in a key, or the key's length where it has
/// none.
pub open spec fn first_slash(key: Seq<char>) -> int
    decreases key.len(),
{
    if key.len() == 0 {
        0
    } else if key[0] == '/' {
        0
    } else {
        1 + first_slash(key.drop_first())
    }
}

/// A key split at its first `/` into namespace and name; none for a key
/// without a `/`.
pub open spec fn split_key(key: Seq<char>) -> Option<(Seq<char>, Seq<char>)> {
    let at = first_slash(key);
    if at < key.len() {
        Some((key.take(at), key.skip(at + 1)))
    } else {
        None
    }
}

/// The index of the first namespace of that name, or the number of
/// namespaces where none has it.
pub open spec fn place(groups: Seq<NamespaceView>, name: Seq<char>) -> int
    decreases groups.len(),
{
    if groups.len() == 0 {
        0
    } else if groups[0].name == name {
        0
    } else {
        1 + place(groups.drop_first(), name)
    }
}

/// The place of a name is the first namespace that has it: within the
/// namespaces or just past them, with the name where it is within, and
/// past every namespace of another name.
pub proof fn lemma_place(groups: Seq<NamespaceView>, name: Seq<char>)
    ensures
        0 <= place(groups, name) <= groups.len(),
        place(groups, name) < groups.len() ==> groups[place(groups, name)].name == name,
        forall|j: int| 0 <= j < place(groups, name) ==> (#[trigger] groups[j]).name != name,
    decreases groups.len(),
{
    if groups.len() > 0 && groups[0].name != name {
        let rest = groups.drop_first();
        lemma_place(rest, name);
        assert forall|j: int| 0 <= j < place(groups, name) implies (#[trigger] groups[j]).name
            != name by {
            if j > 0 {
                assert(groups[j] == rest[j - 1]);
            }
        }
    }
}

/// The namespaces with one more function: at the end of its namespace
/// where that is there, in a new last namespace where it is not.
pub open spec fn with_var(groups: Seq<NamespaceView>, namespace: Seq<char>, name: Seq<char>) -> Seq<
    NamespaceView,
> {
    let at = place(groups, namespace);
    if at < groups.len() {
        groups.update(at, NamespaceView { name: namespace, vars: groups[at].vars.push(name) })
    } else {
        groups.push(NamespaceView { name: namespace, vars: seq![name] })
    }
}

/// The namespaces of a registry: its keys taken in order, each split at
/// its first `/` and put under its namespace; keys without a `/` are left
/// out.
pub open spec fn grouped(keys: Seq<Seq<char>>) -> Seq<NamespaceView>
    decreases keys.len(),
{
    if keys.len() == 0 {
        Seq::empty()
    } else {
        let prior = grouped(keys.drop_last());
        match split_key(keys.last()) {
            Some((namespace, name)) => with_var(prior, namespace, name),
            None => prior,
        }
    }
}

/// The keys of a registry as plain values.
pub open spec fn keys_of(keys: Seq<String>) -> Seq<Seq<char>> {
    keys.map_values(|k: String| k@)
}

/// The namespaces as plain values.
pub open spec fn namespaces_of(namespaces: Seq<Namespace>) -> Seq<NamespaceView> {
    namespaces.map_values(|n: Namespace| n@)
}

/// Splits a key at its first `/`.
pub fn split_once(key: &str) -> (r: Option<(String, String)>)
    ensures
        match split_key(key@) {
            Some((namespace, name)) => r is Some && r->Some_0.0@ == namespace && r->Some_0.1@
                == name,
            None => r is None,
        },
{
    let n = key.unicode_len();
    let mut i: usize = 0;
    assert(key@.skip(0) =~= key@);
    while i < n
        invariant
            n == key@.len(),
            i <= n,
            first_slash(key@) == i + first_slash(key@.skip(i as int)),
        decreases n - i,
    {
        let ghost rest = key@.skip(i as int);
        assert(rest[0] == key@[i as int]);
        assert(rest.drop_first() =~= key@.skip(i + 1));
        if key.get_char(i) == '/' {
            let namespace = String::from_str(key.substring_char(0, i));
            let name = String::from_str(key.substring_char(i + 1, n));
            assert(key@.subrange(0, i as int) =~= key@.take(i as int));
            assert(key@.subrange(i + 1, n as int) =~= key@.skip(i + 1));
            return Some((namespace, name));
        }
        i += 1;
    }
    None
}

/// Finds the first namespace of that name.
fn find_namespace(namespaces: &Vec<Namespace>, name: &String) -> (at: usize)
    ensures
        at == place(namespaces_of(namespaces@), name@),
        at <= namespaces@.len(),
{
    let ghost groups = namespaces_of(namespaces@);
    let mut i: usize = 0;
    assert(groups.skip(0) =~= groups);
    while i < namespaces.len()
        invariant
            groups == namespaces_of(namespaces@),
            i <= namespaces@.len(),
            place(groups, name@) == i + place(groups.skip(i as int), name@),
        decreases namespaces@.len() - i,
    {
        let ghost rest = groups.skip(i as int);
        assert(rest[0] == namespaces@[i as int]@);
        assert(rest.drop_first() =~= groups.skip(i + 1));
        if namespaces[i].name == *name {
            return i;
        }
        i += 1;
    }
    i
}

/// Puts one function under its namespace.
fn add_var(namespaces: &mut Vec<Namespace>, namespace: String, name: String)
    ensures
        namespaces_of(final(namespaces)@) == with_var(
            namespaces_of(old(namespaces)@),
            namespace@,
            name@,
        ),
{
    let ghost before = namespaces_of(namespaces@);
    let at = find_namespace(namespaces, &namespace);
    if at < namespaces.len() {
        proof {
            lemma_place(before, namespace@);
        }
        let mut found = namespaces.remove(at);
        assert(found@ == before[at as int]);
        let ghost vars = found@.vars;
        found.vars.push(Var { name });
        assert(found@.vars =~= vars.push(name@));
        assert(found.name@ == namespace@);
        namespaces.insert(at, found);
        assert(namespaces_of(namespaces@) =~= with_var(before, namespace@, name@));
    } else {
        let mut vars: Vec<Var> = Vec::new();
        vars.push(Var { name });
        let added = Namespace { name: namespace, vars };
        assert(added@.vars =~= seq![name@]);
        namespaces.push(added);
        assert(namespaces_of(namespaces@) =~= with_var(before, namespace@, name@));
    }
}

/// The answer to `describe`: format `json`, and the keys of the registry
/// grouped by namespace.
pub open spec fn description(keys: Seq<Seq<char>>) -> ResponseView {
    ResponseView::Describe(
        DescribeResponseView { format: "json"@, namespaces: grouped(keys) },
    )
}

/// Answers `describe` from the registry's keys. It never fails.
pub fn handle_describe(keys: &Vec<String>) -> (r: Result<Response, NetpodError>)
    ensures
        r is Ok,
        r->Ok_0@ == description(keys_of(keys@)),
{
    let mut namespaces: Vec<Namespace> = Vec::new();
    let ghost all = keys_of(keys@);
    let mut i: usize = 0;
    assert(namespaces_of(namespaces@) =~= grouped(all.take(0)));
    while i < keys.len()
        invariant
            all == keys_of(keys@),
            i <= keys@.len(),
            namespaces_of(namespaces@) == grouped(all.take(i as int)),
        decreases keys@.len() - i,
    {
        let ghost seen = all.take(i + 1);
        assert(seen.drop_last() =~= all.take(i as int));
        assert(seen.last() == keys@[i as int]@);
        match split_once(keys[i].as_str()) {
            Some((namespace, name)) => {
                add_var(&mut namespaces, namespace, name);
            },
            None => {},
        }
        i += 1;
    }
    assert(all.take(i as int) =~= all);
    let r = DescribeResponse { format: String::from_str("json"), namespaces };
    Ok(Response::Describe(r))
}

/// What the dispatcher decided.
#[derive(Debug, PartialEq, Eq)]
pub enum Dispatch {
    /// The response is settled.
    Reply(Response),
    /// The handler registered under the key at this index is to be called
    /// with the request.
    Call { handler: usize, request: Request },
}

/// The mathematical content of a [`Dispatch`].
pub enum DispatchView {
    Reply(ResponseView),
    Call { handler: int, request: RequestView },
}

impl View for Dispatch {
    type V = DispatchView;

    open spec fn view(&self) -> DispatchView {
        match self {
            Dispatch::Reply(response) => DispatchView::Reply(response@),
            Dispatch::Call { handler, request } => DispatchView::Call {
                handler: *handler as int,
                request: request@,
            },
        }
    }
}

/// The index of the first key equal to `var`, or the number of keys where
/// none is.
pub open spec fn position(keys: Seq<Seq<char>>, var: Seq<char>) -> int
    decreases keys.len(),
{
    if keys.len() == 0 {
        0
    } else if keys[0] == var {
        0
    } else {
        1 + position(keys.drop_first(), var)
    }
}

/// The error response for a request, with the request's id.
pub open spec fn refusal(request: RequestView, message: Seq<char>) -> ResponseView {
    ResponseView::Error(
        ErrorResponseView { id: request.id, status: Status::Error, ex_message: message },
    )
}

/// What `invoke` comes to: a call of the handler whose key is the
/// request's `var`, in full; an error response that names the `var` where
/// no key is equal to it, or that says so where the request has none.
pub open spec fn invocation(keys: Seq<Seq<char>>, request: RequestView) -> DispatchView {
    match request.var {
        Some(var) => {
            let at = position(keys, var);
            if at < keys.len() {
                DispatchView::Call { handler: at, request }
            } else {
                DispatchView::Reply(refusal(request, "error no handler for "@ + var))
            }
        },
        None => DispatchView::Reply(refusal(request, "request lacks var name"@)),
    }
}

/// Finds the first key equal to `var`.
fn find_key(keys: &Vec<String>, var: &String) -> (at: usize)
    ensures
        at == position(keys_of(keys@), var@),
        at <= keys@.len(),
{
    let ghost all = keys_of(keys@);
    let mut i: usize = 0;
    assert(all.skip(0) =~= all);
    while i < keys.len()
        invariant
            all == keys_of(keys@),
            i <= keys@.len(),
            position(all, var@) == i + position(all.skip(i as int), var@),
        decreases keys@.len() - i,
    {
        let ghost rest = all.skip(i as int);
        assert(rest[0] == keys@[i as int]@);
        assert(rest.drop_first() =~= all.skip(i + 1));
        if keys[i] == *var {
            return i;
        }
        i += 1;
    }
    i
}

/// Decides an `invoke` request.
pub fn handle_invoke(keys: &Vec<String>, req: Request) -> (d: Dispatch)
    ensures
        d@ == invocation(keys_of(keys@), req@),
{
    match &req.var {
        Some(var_name) => {
            let at = find_key(keys, var_name);
            if at < keys.len() {
                Dispatch::Call { handler: at, request: req }
            } else {
                let message = String::from_str("error no handler for ").concat(var_name.as_str());
                Dispatch::Reply(err_response(req.id, NetpodError::Message(message)))
            }
        },
        None => {
            let message = String::from_str("request lacks var name");
            Dispatch::Reply(err_response(req.id, NetpodError::Message(message)))
        },
    }
}

/// What a request comes to, by its operation.
pub open spec fn dispatched(keys: Seq<Seq<char>>, request: RequestView) -> DispatchView {
    match request.op {
        Op::Describe => DispatchView::Reply(description(keys)),
        Op::Invoke => invocation(keys, request),
    }
}

/// Decides a request.
pub fn handle_request(keys: &Vec<String>, req: Request) -> (d: Dispatch)
    ensures
        d@ == dispatched(keys_of(keys@), req@),
{
    match req.op {
        Op::Describe => match handle_describe(keys) {
            Ok(response) => Dispatch::Reply(response),
            Err(e) => Dispatch::Reply(err_response(req.id, e)),
        },
        Op::Invoke => handle_invoke(keys, req),
    }
}

/// The response to a call, from what the handler returned: its response,
/// or its failure as an error response with the id of the request.
pub open spec fn settled(
    id: Option<Seq<char>>,
    outcome: Result<ResponseView, NetpodErrorView>,
) -> ResponseView {
    match outcome {
        Ok(response) => response,
        Err(e) => ResponseView::Error(
            ErrorResponseView { id, status: Status::Error, ex_message: e.message() },
        ),
    }
}

/// The content of what a handler returned.
pub open spec fn returned(outcome: Result<Response, NetpodError>) -> Result<
    ResponseView,
    NetpodErrorView,
> {
    match outcome {
        Ok(response) => Ok(response@),
        Err(e) => Err(e@),
    }
}

/// Turns what a handler returned into the response to its request.
pub fn settle(id: Option<String>, outcome: Result<Response, NetpodError>) -> (r: Response)
    ensures
        r@ == settled(text_of(id), returned(outcome)),
{
    match outcome {
        Ok(response) => response,
        Err(e) => err_response(id, e),
    }
}

/// No two namespaces have the same name.
pub open spec fn distinct_names(groups: Seq<NamespaceView>) -> bool {
    forall|i: int, j: int|
        0 <= i < j < groups.len() ==> (#[trigger] groups[i]).name != (#[trigger] groups[j]).name
}

/// A function is listed under a namespace.
pub open spec fn lists(groups: Seq<NamespaceView>, namespace: Seq<char>, name: Seq<char>) -> bool {
    exists|i: int|
        0 <= i < groups.len() && (#[trigger] groups[i]).name == namespace
            && groups[i].vars.contains(name)
}

/// The number of functions listed, over all namespaces.
pub open spec fn var_count(groups: Seq<NamespaceView>) -> nat
    decreases groups.len(),
{
    if groups.len() == 0 {
        0
    } else {
        var_count(groups.drop_last()) + groups.last().vars.len()
    }
}

/// The number of keys that hold a `/`.
pub open spec fn split_count(keys: Seq<Seq<char>>) -> nat
    decreases keys.len(),
{
    if keys.len() == 0 {
        0
    } else {
        split_count(keys.drop_last()) + if split_key(keys.last()) is Some {
            1nat
        } else {
            0nat
        }
    }
}

proof fn lemma_with_var_distinct(groups: Seq<NamespaceView>, namespace: Seq<char>, name: Seq<char>)
    requires
        distinct_names(groups),
    ensures
        distinct_names(with_var(groups, namespace, name)),
{
    lemma_place(groups, namespace);
    let after = with_var(groups, namespace, name);
    assert forall|i: int, j: int| 0 <= i < j < after.len() implies (#[trigger] after[i]).name != (
    #[trigger] after[j]).name by {
        if j < groups.len() {
            assert(after[i].name == groups[i].name);
            assert(after[j].name == groups[j].name);
        } else {
            assert(after[i] == groups[i]);
        }
    }
}

proof fn lemma_with_var_lists(groups: Seq<NamespaceView>, namespace: Seq<char>, name: Seq<char>)
    ensures
        lists(with_var(groups, namespace, name), namespace, name),
{
    lemma_place(groups, namespace);
    let at = place(groups, namespace);
    let after = with_var(groups, namespace, name);
    assert(after[at].name == namespace);
    assert(after[at].vars[after[at].vars.len() - 1] == name);
}

proof fn lemma_with_var_keeps(
    groups: Seq<NamespaceView>,
    namespace: Seq<char>,
    name: Seq<char>,
    other: Seq<char>,
    listed: Seq<char>,
)
    requires
        lists(groups, other, listed),
    ensures
        lists(with_var(groups, namespace, name), other, listed),
{
    lemma_place(groups, namespace);
    let after = with_var(groups, namespace, name);
    let i = choose|i: int|
        0 <= i < groups.len() && (#[trigger] groups[i]).name == other && groups[i].vars.contains(
            listed,
        );
    let j = choose|j: int| 0 <= j < groups[i].vars.len() && groups[i].vars[j] == listed;
    assert(after[i].name == other);
    assert(after[i].vars[j] == listed);
}

proof fn lemma_with_var_only(
    groups: Seq<NamespaceView>,
    namespace: Seq<char>,
    name: Seq<char>,
    other: Seq<char>,
    listed: Seq<char>,
)
    requires
        lists(with_var(groups, namespace, name), other, listed),
        !(namespace == other && name == listed),
    ensures
        lists(groups, other, listed),
{
    lemma_place(groups, namespace);
    let at = place(groups, namespace);
    let after = with_var(groups, namespace, name);
    let i = choose|i: int|
        0 <= i < after.len() && (#[trigger] after[i]).name == other && after[i].vars.contains(
            listed,
        );
    let j = choose|j: int| 0 <= j < after[i].vars.len() && after[i].vars[j] == listed;
    if i == at {
        if at < groups.len() {
            assert(groups[i].name == other);
            assert(groups[i].vars[j] == listed);
        }
    } else {
        assert(groups[i] == after[i]);
    }
}

proof fn lemma_count_update(groups: Seq<NamespaceView>, at: int, group: NamespaceView)
    requires
        0 <= at < groups.len(),
    ensures
        var_count(groups.update(at, group)) == var_count(groups) - groups[at].vars.len()
            + group.vars.len(),
    decreases groups.len(),
{
    let after = groups.update(at, group);
    if at == groups.len() - 1 {
        assert(after.drop_last() =~= groups.drop_last());
    } else {
        assert(after.drop_last() =~= groups.drop_last().update(at, group));
        lemma_count_update(groups.drop_last(), at, group);
    }
}

proof fn lemma_with_var_count(groups: Seq<NamespaceView>, namespace: Seq<char>, name: Seq<char>)
    ensures
        var_count(with_var(groups, namespace, name)) == var_count(groups) + 1,
{
    lemma_place(groups, namespace);
    let at = place(groups, namespace);
    let after = with_var(groups, namespace, name);
    if at < groups.len() {
        lemma_count_update(
            groups,
            at,
            NamespaceView { name: namespace, vars: groups[at].vars.push(name) },
        );
    } else {
        assert(after.drop_last() =~= groups);
    }
}

/// Namespaces are not repeated: in the description of any registry no two
/// namespaces have the same name.
pub proof fn lemma_namespaces_distinct(keys: Seq<Seq<char>>)
    ensures
        distinct_names(grouped(keys)),
    decreases keys.len(),
{
    if keys.len() > 0 {
        lemma_namespaces_distinct(keys.drop_last());
        match split_key(keys.last()) {
            Some((namespace, name)) => {
                lemma_with_var_distinct(grouped(keys.drop_last()), namespace, name);
            },
            None => {},
        }
    }
}

/// Every key with a `/` is described: its name is listed under its
/// namespace.
pub proof fn lemma_key_listed(keys: Seq<Seq<char>>, k: int)
    requires
        0 <= k < keys.len(),
        split_key(keys[k]) is Some,
    ensures
        lists(grouped(keys), split_key(keys[k])->Some_0.0, split_key(keys[k])->Some_0.1),
    decreases keys.len(),
{
    let prior = grouped(keys.drop_last());
    if k == keys.len() - 1 {
        let (namespace, name) = split_key(keys[k])->Some_0;
        lemma_with_var_lists(prior, namespace, name);
    } else {
        assert(keys.drop_last()[k] == keys[k]);
        lemma_key_listed(keys.drop_last(), k);
        match split_key(keys.last()) {
            Some((namespace, name)) => {
                lemma_with_var_keeps(
                    prior,
                    namespace,
                    name,
                    split_key(keys[k])->Some_0.0,
                    split_key(keys[k])->Some_0.1,
                );
            },
            None => {},
        }
    }
}

/// Nothing else is described: what is listed under a namespace is the
/// name of a key of that namespace.
pub proof fn lemma_listed_from_key(keys: Seq<Seq<char>>, namespace: Seq<char>, name: Seq<char>)
    requires
        lists(grouped(keys), namespace, name),
    ensures
        exists|k: int|
            0 <= k < keys.len() && split_key(#[trigger] keys[k]) == Some((namespace, name)),
    decreases keys.len(),
{
    if keys.len() > 0 {
        let front = keys.drop_last();
        let prior = grouped(front);
        let found = match split_key(keys.last()) {
            Some((ns, v)) => ns == namespace && v == name,
            None => false,
        };
        if found {
            assert(split_key(keys[keys.len() - 1]) == Some((namespace, name)));
        } else {
            match split_key(keys.last()) {
                Some((ns, v)) => {
                    lemma_with_var_only(prior, ns, v, namespace, name);
                },
                None => {},
            }
            lemma_listed_from_key(front, namespace, name);
            let k = choose|k: int|
                0 <= k < front.len() && split_key(#[trigger] front[k]) == Some((namespace, name));
            assert(keys[k] == front[k]);
        }
    }
}

/// Names are not merged: the description lists as many functions as the
/// registry has keys with a `/`, two keys of one namespace both counted.
pub proof fn lemma_every_key_counted(keys: Seq<Seq<char>>)
    ensures
        var_count(grouped(keys)) == split_count(keys),
    decreases keys.len(),
{
    if keys.len() > 0 {
        lemma_every_key_counted(keys.drop_last());
        match split_key(keys.last()) {
            Some((namespace, name)) => {
                lemma_with_var_count(grouped(keys.drop_last()), namespace, name);
            },
            None => {},
        }
    }
}

/// The position of a name is the first key equal to it: within the keys
/// or just past them, equal to the name where it is within, and past every
/// other key.
pub proof fn lemma_position(keys: Seq<Seq<char>>, var: Seq<char>)
    ensures
        0 <= position(keys, var) <= keys.len(),
        position(keys, var) < keys.len() ==> keys[position(keys, var)] == var,
        forall|j: int| 0 <= j < position(keys, var) ==> #[trigger] keys[j] != var,
    decreases keys.len(),
{
    if keys.len() > 0 && keys[0] != var {
        let rest = keys.drop_first();
        lemma_position(rest, var);
        assert forall|j: int| 0 <= j < position(keys, var) implies #[trigger] keys[j] != var by {
            if j > 0 {
                assert(keys[j] == rest[j - 1]);
            }
        }
    }
}

/// A miss is answered, not raised: an `invoke` of a name that is no key of
/// the registry gets an error response with the request's id and a message
/// that ends with the name.
pub proof fn lemma_invoke_miss(keys: Seq<Seq<char>>, request: RequestView, var: Seq<char>)
    requires
        request.var == Some(var),
        !keys.contains(var),
    ensures
        invocation(keys, request) == DispatchView::Reply(
            ResponseView::Error(
                ErrorResponseView {
                    id: request.id,
                    status: Status::Error,
                    ex_message: "error no handler for "@ + var,
                },
            ),
        ),
{
    lemma_position(keys, var);
}

/// A hit is a call: an `invoke` of a key of the registry asks for the
/// handler under that very key, with the request in full, and what the
/// handler returns on success is the response.
pub proof fn lemma_invoke_hit(
    keys: Seq<Seq<char>>,
    request: RequestView,
    at: int,
    response: ResponseView,
)
    requires
        keys.no_duplicates(),
        0 <= at < keys.len(),
        request.var == Some(keys[at]),
    ensures
        invocation(keys, request) == (DispatchView::Call { handler: at, request }),
        settled(request.id, Ok(response)) == response,
{
    lemma_position(keys, keys[at]);
}

} // verus!
