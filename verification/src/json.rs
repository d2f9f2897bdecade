//! Conversion of Nix values to JSON: which values convert and how, the
//! traversal of the value tree as a machine that asks the evaluator one
//! question at a time, and the law that it translates a value's structure.

use vstd::prelude::*;

verus! {

/// The type of a Nix value in weak head normal form.
#[derive(Debug, Clone, Copy, PartialEq, Eq, Structural)]
pub enum ValueType {
    Null,
    Bool,
    Int,
    Float,
    String,
    Path,
    List,
    AttrSet,
    Function,
    External,
    Unknown,
}

/// How a value of a supported type is converted to JSON.
#[derive(Debug, Clone, Copy, PartialEq, Eq, Structural)]
pub enum Conversion {
    /// JSON null.
    Null,
    /// A JSON boolean.
    Bool,
    /// A JSON integer.
    Int,
    /// A JSON floating-point number.
    Float,
    /// A JSON string holding the string's contents.
    String,
    /// A JSON string holding the path's string representation.
    PathString,
    /// A JSON array of the converted elements, in order.
    Array,
    /// A JSON object of the converted attributes.
    Object,
}

/// Why a value could not be converted to JSON.
#[derive(Debug, Clone, PartialEq, Eq)]
pub enum JsonError {
    /// Forcing the value failed, with this message.
    Force(String),
    /// The type of the value could not be determined, with this message.
    ValueType(String),
    /// Reading the value's contents as this conversion needs failed, with
    /// this message.
    Read(Conversion, String),
    /// Functions have no JSON form.
    Function,
    /// External values have no JSON form.
    External,
    /// Values of an unknown type have no JSON form; an evaluator answer
    /// that does not fit the question asked ends the traversal the same way.
    Unknown,
    /// The list element at this index is unavailable.
    ListElementUnavailable(usize),
    /// Reading the list element at this index failed, with this message.
    ListElementFailed(usize, String),
    /// Reading the attribute of this name failed, with this message.
    AttributeFailed(String, String),
}

/// The conversion of each type; functions, external values and unknown
/// values have none.
pub open spec fn conversion_spec(t: ValueType) -> Result<Conversion, JsonError> {
    match t {
        ValueType::Null => Ok(Conversion::Null),
        ValueType::Bool => Ok(Conversion::Bool),
        ValueType::Int => Ok(Conversion::Int),
        ValueType::Float => Ok(Conversion::Float),
        ValueType::String => Ok(Conversion::String),
        ValueType::Path => Ok(Conversion::PathString),
        ValueType::List => Ok(Conversion::Array),
        ValueType::AttrSet => Ok(Conversion::Object),
        ValueType::Function => Err(JsonError::Function),
        ValueType::External => Err(JsonError::External),
        ValueType::Unknown => Err(JsonError::Unknown),
    }
}

/// How a value of type `t` is converted, or why it cannot be.
pub fn conversion_for(t: ValueType) -> (r: Result<Conversion, JsonError>)
    ensures
        r == conversion_spec(t),
{
    match t {
        ValueType::Null => Ok(Conversion::Null),
        ValueType::Bool => Ok(Conversion::Bool),
        ValueType::Int => Ok(Conversion::Int),
        ValueType::Float => Ok(Conversion::Float),
        ValueType::String => Ok(Conversion::String),
        ValueType::Path => Ok(Conversion::PathString),
        ValueType::List => Ok(Conversion::Array),
        ValueType::AttrSet => Ok(Conversion::Object),
        ValueType::Function => Err(JsonError::Function),
        ValueType::External => Err(JsonError::External),
        ValueType::Unknown => Err(JsonError::Unknown),
    }
}

/// A JSON document. A number with a fraction is held by the caller; the
/// tree holds its index among the caller's numbers.
#[derive(Debug, PartialEq)]
pub enum JsonTree {
    Null,
    Bool(bool),
    Int(i64),
    Float(usize),
    String(String),
    Array(Vec<JsonTree>),
    Object(Vec<(String, JsonTree)>),
}

/// The mathematical form of a JSON document.
pub enum Json {
    Null,
    Bool(bool),
    Int(i64),
    Float(usize),
    String(String),
    Array(Seq<Json>),
    Object(Seq<(String, Json)>),
}

impl JsonTree {
    /// The document this tree holds.
    pub open spec fn model(&self) -> Json
        decreases self,
    {
        match self {
            JsonTree::Null => Json::Null,
            JsonTree::Bool(b) => Json::Bool(*b),
            JsonTree::Int(i) => Json::Int(*i),
            JsonTree::Float(x) => Json::Float(*x),
            JsonTree::String(s) => Json::String(*s),
            JsonTree::Array(v) => Json::Array(Seq::new(v@.len(), |i: int| if 0 <= i < v@.len() { v@[i].model() } else { Json::Null })),
            JsonTree::Object(v) => Json::Object(Seq::new(v@.len(), |i: int| if 0 <= i < v@.len() { (v@[i].0, v@[i].1.model()) } else { (v@[i].0, Json::Null) })),
        }
    }
}

/// A question the traversal asks of the evaluator about the value with a
/// handle, or the end of the traversal.
#[derive(Debug, PartialEq)]
pub enum EvalRequest {
    /// Force the value and give its type.
    Inspect(usize),
    /// Read the value's contents as the conversion needs: the boolean, the
    /// integer, the floating-point number (held by the evaluator's side,
    /// given by index), the string or path text, the list size, or the
    /// attribute names.
    Read(usize, Conversion),
    /// Give the list element at this index.
    Element { handle: usize, index: usize },
    /// Give the attribute at this index, of this name.
    Attribute { handle: usize, index: usize, name: String },
    /// The traversal is over, with this result.
    Done(Result<JsonTree, JsonError>),
}

/// The evaluator's answer to a question.
#[derive(Debug, PartialEq)]
pub enum EvalReply {
    /// The value was forced and has this type.
    Forced(ValueType),
    /// Forcing the value failed.
    ForceFailed(String),
    /// The type of the value could not be determined.
    TypeFailed(String),
    Bool(bool),
    Int(i64),
    /// The index of the floating-point number, held by the evaluator's side.
    Float(usize),
    /// The text of a string or a path.
    Text(String),
    /// The number of list elements.
    Size(usize),
    /// The attribute names, in the order they are visited.
    Names(Vec<String>),
    /// Reading the contents failed.
    ReadFailed(String),
    /// The child value asked for, by handle and address; `None` when the
    /// list element is unavailable.
    Child(Option<(usize, usize)>),
    /// Reading the child failed.
    ChildFailed(String),
}

/// The mathematical form of an answer.
pub enum Reply {
    Forced(ValueType),
    ForceFailed(String),
    TypeFailed(String),
    Bool(bool),
    Int(i64),
    Float(usize),
    Text(String),
    Size(usize),
    Names(Seq<String>),
    ReadFailed(String),
    Child(Option<(usize, usize)>),
    ChildFailed(String),
}

/// The mathematical form of a question.
pub enum Request {
    Inspect(usize),
    Read(usize, Conversion),
    Element { handle: usize, index: usize },
    Attribute { handle: usize, index: usize, name: String },
    Done(Result<Json, JsonError>),
}

impl EvalReply {
    pub open spec fn view(&self) -> Reply {
        match self {
            EvalReply::Forced(t) => Reply::Forced(*t),
            EvalReply::ForceFailed(m) => Reply::ForceFailed(*m),
            EvalReply::TypeFailed(m) => Reply::TypeFailed(*m),
            EvalReply::Bool(b) => Reply::Bool(*b),
            EvalReply::Int(i) => Reply::Int(*i),
            EvalReply::Float(x) => Reply::Float(*x),
            EvalReply::Text(t) => Reply::Text(*t),
            EvalReply::Size(n) => Reply::Size(*n),
            EvalReply::Names(ns) => Reply::Names(ns@),
            EvalReply::ReadFailed(m) => Reply::ReadFailed(*m),
            EvalReply::Child(c) => Reply::Child(*c),
            EvalReply::ChildFailed(m) => Reply::ChildFailed(*m),
        }
    }
}

impl EvalRequest {
    pub open spec fn view(&self) -> Request {
        match self {
            EvalRequest::Inspect(h) => Request::Inspect(*h),
            EvalRequest::Read(h, c) => Request::Read(*h, *c),
            EvalRequest::Element { handle, index } => Request::Element { handle: *handle, index: *index },
            EvalRequest::Attribute { handle, index, name } => Request::Attribute {
                handle: *handle,
                index: *index,
                name: *name,
            },
            EvalRequest::Done(Ok(t)) => Request::Done(Ok(t.model())),
            EvalRequest::Done(Err(e)) => Request::Done(Err(*e)),
        }
    }
}

/// Where the conversion of one value stands.
pub enum Stage {
    /// Its type is asked for.
    Inspecting,
    /// Its contents are read for this conversion.
    Reading(Conversion),
    /// Its children are converted one after the other; `items` holds the
    /// documents of those converted so far. An object's children are its
    /// attributes, named by `names`.
    Container { object: bool, names: Seq<String>, size: nat, items: Seq<Json> },
}

/// One value under conversion: its handle, its address, its stage.
pub struct Frame {
    pub handle: usize,
    pub address: usize,
    pub stage: Stage,
}

/// The document a container makes of its children's documents.
pub open spec fn built(object: bool, names: Seq<String>, items: Seq<Json>) -> Json {
    if object {
        Json::Object(Seq::new(items.len(), |i: int| (names[i], items[i])))
    } else {
        Json::Array(items)
    }
}

/// The question for the next child of a container.
pub open spec fn child_request(f: Frame) -> Request {
    match f.stage {
        Stage::Container { object, names, size, items } => if object {
            Request::Attribute { handle: f.handle, index: items.len() as usize, name: names[items.len() as int] }
        } else {
            Request::Element { handle: f.handle, index: items.len() as usize }
        },
        _ => Request::Inspect(f.handle),
    }
}

/// The frames are values under conversion, the last one the innermost;
/// every frame but the last waits for a child, and a container always has
/// a child left to convert.
pub open spec fn stack_wf(stack: Seq<Frame>) -> bool {
    &&& forall|i: int| 0 <= i < stack.len() - 1 ==> (#[trigger] stack[i]).stage is Container
    &&& forall|i: int| 0 <= i < stack.len() ==> match (#[trigger] stack[i]).stage {
        Stage::Container { object, names, size, items } => {
            &&& items.len() < size
            &&& size <= usize::MAX
            &&& object ==> names.len() == size
        },
        Stage::Reading(c) => c != Conversion::Null,
        Stage::Inspecting => true,
    }
}

/// The addresses of the values on the current path.
pub open spec fn path_of(stack: Seq<Frame>) -> Set<usize> {
    Set::new(|a: usize| exists|i: int| 0 <= i < stack.len() && (#[trigger] stack[i]).address == a)
}

/// The traversal ends with this result.
pub open spec fn finished(r: Result<Json, JsonError>) -> (Seq<Frame>, Request) {
    (Seq::empty(), Request::Done(r))
}

/// A document is handed to the innermost waiting container, which then
/// asks for its next child, or, when it has all its children, is itself
/// handed to its parent; with no container left, the traversal ends with
/// the document.
pub open spec fn deliver(stack: Seq<Frame>, doc: Json) -> (Seq<Frame>, Request)
    decreases stack.len(),
{
    if stack.len() == 0 {
        finished(Ok(doc))
    } else {
        let top = stack.last();
        match top.stage {
            Stage::Container { object, names, size, items } => {
                let items2 = items.push(doc);
                if items2.len() >= size {
                    deliver(stack.drop_last(), built(object, names, items2))
                } else {
                    let f = Frame { stage: Stage::Container { object, names, size, items: items2 }, ..top };
                    (stack.drop_last().push(f), child_request(f))
                }
            },
            _ => finished(Ok(doc)),
        }
    }
}

/// Whether the answer fits the question the traversal asked last.
pub open spec fn accepts(stack: Seq<Frame>, reply: Reply) -> bool {
    stack.len() > 0 && match stack.last().stage {
        Stage::Inspecting => reply is Forced || reply is ForceFailed || reply is TypeFailed,
        Stage::Reading(c) => reply is ReadFailed || match c {
            Conversion::Bool => reply is Bool,
            Conversion::Int => reply is Int,
            Conversion::Float => reply is Float,
            Conversion::String => reply is Text,
            Conversion::PathString => reply is Text,
            Conversion::Array => reply is Size,
            Conversion::Object => reply is Names,
            Conversion::Null => false,
        },
        Stage::Container { object, .. } => reply is ChildFailed || match reply {
            Reply::Child(c) => !object || c is Some,
            _ => false,
        },
    }
}

/// One step of the traversal: from the frames and the answer to the last
/// question, the new frames and the next question. An answer that does not
/// fit the question ends the traversal with an unknown error.
pub open spec fn json_step_spec(stack: Seq<Frame>, reply: Reply) -> (Seq<Frame>, Request) {
    if !accepts(stack, reply) {
        finished(Err(JsonError::Unknown))
    } else {
        step_on_fit(stack, reply)
    }
}

/// One step of the traversal on an answer that fits the question.
pub open spec fn step_on_fit(stack: Seq<Frame>, reply: Reply) -> (Seq<Frame>, Request) {
    let top = stack.last();
    let below = stack.drop_last();
    match top.stage {
        Stage::Inspecting => match reply {
            Reply::Forced(t) => match conversion_spec(t) {
                Ok(Conversion::Null) => deliver(below, Json::Null),
                Ok(c) => (below.push(Frame { stage: Stage::Reading(c), ..top }), Request::Read(top.handle, c)),
                Err(e) => finished(Err(e)),
            },
            Reply::ForceFailed(m) => finished(Err(JsonError::Force(m))),
            Reply::TypeFailed(m) => finished(Err(JsonError::ValueType(m))),
            _ => finished(Err(JsonError::Unknown)),
        },
        Stage::Reading(c) => match reply {
            Reply::Bool(b) => deliver(below, Json::Bool(b)),
            Reply::Int(i) => deliver(below, Json::Int(i)),
            Reply::Float(x) => deliver(below, Json::Float(x)),
            Reply::Text(t) => deliver(below, Json::String(t)),
            Reply::Size(n) => if n == 0 {
                deliver(below, Json::Array(Seq::empty()))
            } else {
                let f = Frame {
                    stage: Stage::Container { object: false, names: Seq::empty(), size: n as nat, items: Seq::empty() },
                    ..top
                };
                (below.push(f), child_request(f))
            },
            Reply::Names(ns) => if ns.len() == 0 {
                deliver(below, Json::Object(Seq::empty()))
            } else {
                let f = Frame {
                    stage: Stage::Container { object: true, names: ns, size: ns.len(), items: Seq::empty() },
                    ..top
                };
                (below.push(f), child_request(f))
            },
            Reply::ReadFailed(m) => finished(Err(JsonError::Read(c, m))),
            _ => finished(Err(JsonError::Unknown)),
        },
        Stage::Container { object, names, size, items } => match reply {
            Reply::Child(Some((h, a))) => if path_of(stack).contains(a) {
                deliver(stack, Json::Null)
            } else {
                (stack.push(Frame { handle: h, address: a, stage: Stage::Inspecting }), Request::Inspect(h))
            },
            Reply::Child(None) => finished(Err(JsonError::ListElementUnavailable(items.len() as usize))),
            Reply::ChildFailed(m) => if object {
                finished(Err(JsonError::AttributeFailed(names[items.len() as int], m)))
            } else {
                finished(Err(JsonError::ListElementFailed(items.len() as usize, m)))
            },
            _ => finished(Err(JsonError::Unknown)),
        },
    }
}

/// The contents of a Nix value, as far as its JSON form goes: its children
/// are given by handle.
pub enum NodeKind {
    Null,
    Bool(bool),
    Int(i64),
    Float(usize),
    Str(String),
    Path(String),
    List(Seq<usize>),
    Attrs(Seq<(String, usize)>),
}

/// A Nix value: its address, its contents, and a rank that is larger than
/// the ranks of its children.
pub struct Node {
    pub address: usize,
    pub kind: NodeKind,
    pub rank: nat,
}

/// The handles of a value's children, in order.
pub open spec fn children(kind: NodeKind) -> Seq<usize> {
    match kind {
        NodeKind::List(cs) => cs,
        NodeKind::Attrs(es) => Seq::new(es.len(), |i: int| es[i].1),
        _ => Seq::empty(),
    }
}

/// The type of a value.
pub open spec fn type_of(kind: NodeKind) -> ValueType {
    match kind {
        NodeKind::Null => ValueType::Null,
        NodeKind::Bool(_) => ValueType::Bool,
        NodeKind::Int(_) => ValueType::Int,
        NodeKind::Float(_) => ValueType::Float,
        NodeKind::Str(_) => ValueType::String,
        NodeKind::Path(_) => ValueType::Path,
        NodeKind::List(_) => ValueType::List,
        NodeKind::Attrs(_) => ValueType::AttrSet,
    }
}

/// The evaluator's values: every child is a value with a smaller rank, and
/// a value has at most `usize::MAX` children.
pub open spec fn env_wf(env: Map<usize, Node>) -> bool {
    forall|h: usize| #[trigger] env.dom().contains(h) ==> {
        let cs = children(env[h].kind);
        &&& cs.len() <= usize::MAX
        &&& forall|i: int| 0 <= i < cs.len() ==> env.dom().contains(#[trigger] cs[i]) && env[cs[i]].rank < env[h].rank
    }
}

/// The evaluator's answer to a question, when every read succeeds.
pub open spec fn answer(env: Map<usize, Node>, req: Request) -> Reply {
    match req {
        Request::Inspect(h) => Reply::Forced(type_of(env[h].kind)),
        Request::Read(h, _) => match env[h].kind {
            NodeKind::Bool(b) => Reply::Bool(b),
            NodeKind::Int(i) => Reply::Int(i),
            NodeKind::Float(x) => Reply::Float(x),
            NodeKind::Str(t) => Reply::Text(t),
            NodeKind::Path(t) => Reply::Text(t),
            NodeKind::List(cs) => Reply::Size(cs.len() as usize),
            NodeKind::Attrs(es) => Reply::Names(Seq::new(es.len(), |i: int| es[i].0)),
            NodeKind::Null => Reply::Size(0),
        },
        Request::Element { handle, index } => {
            let c = children(env[handle].kind)[index as int];
            Reply::Child(Some((c, env[c].address)))
        },
        Request::Attribute { handle, index, .. } => {
            let c = children(env[handle].kind)[index as int];
            Reply::Child(Some((c, env[c].address)))
        },
        Request::Done(_) => Reply::Size(0),
    }
}

/// The JSON form of the value with handle `h`: its structure, translated.
pub open spec fn translate(env: Map<usize, Node>, h: usize) -> Json
    decreases env[h].rank,
{
    let node = env[h];
    let cs = children(node.kind);
    let items = Seq::new(cs.len(), |i: int|
        if 0 <= i < cs.len() && env[cs[i]].rank < node.rank { translate(env, cs[i]) } else { Json::Null });
    match node.kind {
        NodeKind::Null => Json::Null,
        NodeKind::Bool(b) => Json::Bool(b),
        NodeKind::Int(i) => Json::Int(i),
        NodeKind::Float(x) => Json::Float(x),
        NodeKind::Str(t) => Json::String(t),
        NodeKind::Path(t) => Json::String(t),
        NodeKind::List(_) => built(false, Seq::empty(), items),
        NodeKind::Attrs(es) => built(true, Seq::new(es.len(), |i: int| es[i].0), items),
    }
}

/// No value below `h` (nor `h` itself) has the address of a value above
/// it: the value holds no circular reference.
pub open spec fn acyclic(env: Map<usize, Node>, h: usize, path: Set<usize>) -> bool
    decreases env[h].rank,
{
    let node = env[h];
    let cs = children(node.kind);
    &&& !path.contains(node.address)
    &&& forall|i: int| 0 <= i < cs.len() ==> (env[#[trigger] cs[i]].rank < node.rank ==> acyclic(env, cs[i], path.insert(node.address)))
}

/// The traversal run for at most `fuel` steps against the evaluator's
/// answers.
pub open spec fn run(env: Map<usize, Node>, stack: Seq<Frame>, req: Request, fuel: nat) -> (Seq<Frame>, Request)
    decreases fuel,
{
    if fuel == 0 || req is Done {
        (stack, req)
    } else {
        let next = json_step_spec(stack, answer(env, req));
        run(env, next.0, next.1, (fuel - 1) as nat)
    }
}

proof fn lemma_run_add(env: Map<usize, Node>, stack: Seq<Frame>, req: Request, a: nat, b: nat)
    ensures
        run(env, stack, req, a + b) == run(env, run(env, stack, req, a).0, run(env, stack, req, a).1, b),
    decreases a,
{
    if a == 0 || req is Done {
        if req is Done {
            assert(run(env, stack, req, b) == (stack, req));
        }
    } else {
        let next = json_step_spec(stack, answer(env, req));
        lemma_run_add(env, next.0, next.1, (a - 1) as nat, b);
        assert((a + b - 1) as nat == (a - 1) as nat + b);
    }
}

/// Every frame waits for a child.
pub open spec fn waiting(stack: Seq<Frame>) -> bool {
    &&& stack_wf(stack)
    &&& forall|i: int| 0 <= i < stack.len() ==> (#[trigger] stack[i]).stage is Container
}

proof fn lemma_path_push(stack: Seq<Frame>, f: Frame)
    ensures
        path_of(stack.push(f)) == path_of(stack).insert(f.address),
{
    let s2 = stack.push(f);
    assert forall|a: usize| path_of(s2).contains(a) <==> path_of(stack).insert(f.address).contains(a) by {
        if path_of(stack).contains(a) {
            let i = choose|i: int| 0 <= i < stack.len() && (#[trigger] stack[i]).address == a;
            assert(s2[i] == stack[i]);
        }
        if path_of(s2).contains(a) && a != f.address {
            let i = choose|i: int| 0 <= i < s2.len() && (#[trigger] s2[i]).address == a;
            assert(stack[i] == s2[i]);
        }
        if a == f.address {
            assert(s2[stack.len() as int] == f);
        }
    }
    assert(path_of(s2) =~= path_of(stack).insert(f.address));
}

/// The names of a value's attributes, in order.
pub open spec fn attr_names(kind: NodeKind) -> Seq<String> {
    match kind {
        NodeKind::Attrs(es) => Seq::new(es.len(), |i: int| es[i].0),
        _ => Seq::empty(),
    }
}

/// The documents of a value's children.
pub open spec fn child_docs(env: Map<usize, Node>, h: usize) -> Seq<Json> {
    let cs = children(env[h].kind);
    Seq::new(cs.len(), |i: int| translate(env, cs[i]))
}

proof fn lemma_translate_container(env: Map<usize, Node>, h: usize)
    requires
        env_wf(env),
        env.dom().contains(h),
    ensures
        env[h].kind is List ==> translate(env, h) == built(false, Seq::empty(), child_docs(env, h)),
        env[h].kind is Attrs ==> translate(env, h) == built(true, attr_names(env[h].kind), child_docs(env, h)),
{
    let node = env[h];
    let cs = children(node.kind);
    let docs = child_docs(env, h);
    assert(env.dom().contains(h));
    if node.kind is List {
        let xs = translate(env, h)->Array_0;
        assert(xs.len() == cs.len());
        assert forall|i: int| 0 <= i < cs.len() implies xs[i] == docs[i] by {
            assert(env.dom().contains(cs[i]) && env[cs[i]].rank < node.rank);
        }
        assert(xs =~= docs);
    }
    if node.kind is Attrs {
        let names = attr_names(node.kind);
        let xs = translate(env, h)->Object_0;
        let ys = built(true, names, docs)->Object_0;
        assert(xs.len() == ys.len());
        assert forall|i: int| 0 <= i < cs.len() implies xs[i] == ys[i] by {
            assert(env.dom().contains(cs[i]) && env[cs[i]].rank < node.rank);
        }
        assert(xs =~= ys);
    }
}

/// A container frame part way through the children of value `h`.
pub open spec fn container_frame(env: Map<usize, Node>, h: usize, f: Frame) -> bool {
    let kind = env[h].kind;
    let cs = children(kind);
    &&& f.handle == h
    &&& f.address == env[h].address
    &&& match f.stage {
        Stage::Container { object, names, size, items } => {
            &&& size == cs.len()
            &&& items.len() < size
            &&& (kind is List || kind is Attrs)
            &&& object == kind is Attrs
            &&& names == attr_names(kind)
            &&& forall|j: int| 0 <= j < items.len() ==> items[j] == #[trigger] translate(env, cs[j])
        },
        _ => false,
    }
}

proof fn lemma_children(env: Map<usize, Node>, h: usize, s: Seq<Frame>, f: Frame) -> (n: nat)
    requires
        env_wf(env),
        env.dom().contains(h),
        waiting(s),
        acyclic(env, h, path_of(s)),
        container_frame(env, h, f),
    ensures
        run(env, s.push(f), child_request(f), n) == deliver(s, translate(env, h)),
    decreases env[h].rank, 0nat, children(env[h].kind).len() - f.stage->items.len(),
{
    let kind = env[h].kind;
    let cs = children(kind);
    let object = f.stage->object;
    let names = f.stage->names;
    let size = f.stage->size;
    let items = f.stage->items;
    let k = items.len();
    let st = s.push(f);
    let req = child_request(f);
    let c = cs[k as int];
    assert(env.dom().contains(h));
    assert(env.dom().contains(c) && env[c].rank < env[h].rank);
    let reply = answer(env, req);
    assert(reply == Reply::Child(Some((c, env[c].address))));
    lemma_path_push(s, f);
    assert(acyclic(env, c, path_of(s).insert(env[h].address)));
    assert(!path_of(st).contains(env[c].address));
    let child = Frame { handle: c, address: env[c].address, stage: Stage::Inspecting };
    assert(st.last() == f);
    assert(json_step_spec(st, reply) == (st.push(child), Request::Inspect(c)));
    assert(run(env, st, req, 1) == run(env, st.push(child), Request::Inspect(c), 0));
    assert(waiting(st));
    let m = lemma_node(env, c, st);
    lemma_run_add(env, st, req, 1, m);
    let t = translate(env, c);
    let items2 = items.push(t);
    assert(st.drop_last() =~= s);
    if items2.len() >= size {
        assert(items2 =~= child_docs(env, h));
        lemma_translate_container(env, h);
        assert(deliver(st, t) == deliver(s, built(object, names, items2)));
        1 + m
    } else {
        let f2 = Frame { stage: Stage::Container { object, names, size, items: items2 }, ..f };
        assert(deliver(st, t) == (s.push(f2), child_request(f2)));
        assert(container_frame(env, h, f2));
        let n2 = lemma_children(env, h, s, f2);
        lemma_run_add(env, st, req, 1 + m, n2);
        1 + m + n2
    }
}

proof fn lemma_node(env: Map<usize, Node>, h: usize, s: Seq<Frame>) -> (n: nat)
    requires
        env_wf(env),
        env.dom().contains(h),
        waiting(s),
        acyclic(env, h, path_of(s)),
    ensures
        run(env, s.push(Frame { handle: h, address: env[h].address, stage: Stage::Inspecting }), Request::Inspect(h), n)
            == deliver(s, translate(env, h)),
    decreases env[h].rank, 1nat, 0nat,
{
    let node = env[h];
    let fr = Frame { handle: h, address: node.address, stage: Stage::Inspecting };
    let st = s.push(fr);
    assert(st.drop_last() =~= s);
    assert(st.last() == fr);
    let r0 = Request::Inspect(h);
    let a0 = answer(env, r0);
    let next = json_step_spec(st, a0);
    match node.kind {
        NodeKind::Null => {
            assert(next == deliver(s, Json::Null));
            assert(run(env, st, r0, 1) == run(env, next.0, next.1, 0));
            1
        },
        NodeKind::List(cs) => {
            let fr1 = Frame { stage: Stage::Reading(Conversion::Array), ..fr };
            assert(next == (s.push(fr1), Request::Read(h, Conversion::Array)));
            let st1 = s.push(fr1);
            assert(st1.drop_last() =~= s);
            let a1 = answer(env, next.1);
            let next2 = json_step_spec(st1, a1);
            assert(run(env, st, r0, 2) == run(env, next.0, next.1, 1));
            assert(run(env, next.0, next.1, 1) == run(env, next2.0, next2.1, 0));
            if cs.len() == 0 {
                lemma_translate_container(env, h);
                assert(child_docs(env, h) =~= Seq::<Json>::empty());
                2
            } else {
                let f = Frame {
                    stage: Stage::Container { object: false, names: Seq::empty(), size: cs.len(), items: Seq::empty() },
                    ..fr1
                };
                assert(next2 == (s.push(f), child_request(f)));
                assert(container_frame(env, h, f));
                let m = lemma_children(env, h, s, f);
                lemma_run_add(env, st, r0, 2, m);
                2 + m
            }
        },
        NodeKind::Attrs(es) => {
            let fr1 = Frame { stage: Stage::Reading(Conversion::Object), ..fr };
            assert(next == (s.push(fr1), Request::Read(h, Conversion::Object)));
            let st1 = s.push(fr1);
            assert(st1.drop_last() =~= s);
            let a1 = answer(env, next.1);
            let next2 = json_step_spec(st1, a1);
            assert(run(env, st, r0, 2) == run(env, next.0, next.1, 1));
            assert(run(env, next.0, next.1, 1) == run(env, next2.0, next2.1, 0));
            if es.len() == 0 {
                lemma_translate_container(env, h);
                assert(child_docs(env, h) =~= Seq::<Json>::empty());
                assert(built(true, attr_names(node.kind), Seq::<Json>::empty()) == Json::Object(Seq::empty())) by {
                    assert(Seq::new(0, |i: int| (attr_names(node.kind)[i], Seq::<Json>::empty()[i])) =~= Seq::<(String, Json)>::empty());
                }
                2
            } else {
                let f = Frame {
                    stage: Stage::Container { object: true, names: attr_names(node.kind), size: es.len(), items: Seq::empty() },
                    ..fr1
                };
                assert(next2 == (s.push(f), child_request(f)));
                assert(container_frame(env, h, f));
                let m = lemma_children(env, h, s, f);
                lemma_run_add(env, st, r0, 2, m);
                2 + m
            }
        },
        _ => {
            let c = match conversion_spec(type_of(node.kind)) { Ok(c) => c, Err(_) => Conversion::Null };
            let fr1 = Frame { stage: Stage::Reading(c), ..fr };
            assert(next == (s.push(fr1), Request::Read(h, c)));
            let st1 = s.push(fr1);
            assert(st1.drop_last() =~= s);
            let a1 = answer(env, next.1);
            let next2 = json_step_spec(st1, a1);
            assert(next2 == deliver(s, translate(env, h)));
            assert(run(env, st, r0, 2) == run(env, next.0, next.1, 1));
            assert(run(env, next.0, next.1, 1) == run(env, next2.0, next2.1, 0));
            2
        },
    }
}

/// The structural law: the traversal of a value that holds no circular
/// reference, against an evaluator that answers every question, ends with
/// the JSON form of the value: null, booleans, integers, numbers and
/// strings as they are, paths as strings, lists as arrays of their
/// elements' forms in order, and attribute sets as objects of their
/// attributes' forms.
pub proof fn lemma_traversal_translates(env: Map<usize, Node>, root: usize) -> (n: nat)
    requires
        env_wf(env),
        env.dom().contains(root),
        acyclic(env, root, Set::empty()),
    ensures
        run(env, seq![Frame { handle: root, address: env[root].address, stage: Stage::Inspecting }], Request::Inspect(root), n)
            == finished(Ok(translate(env, root))),
{
    let s = Seq::<Frame>::empty();
    assert(path_of(s) =~= Set::<usize>::empty());
    let n = lemma_node(env, root, s);
    assert(s.push(Frame { handle: root, address: env[root].address, stage: Stage::Inspecting })
        =~= seq![Frame { handle: root, address: env[root].address, stage: Stage::Inspecting }]);
    n
}

/// The question asks about the innermost value under conversion: its type
/// while it is inspected, its contents under the conversion being read,
/// and, for a container, the child at the position after those converted
/// so far; an attribute is asked for by the name read at that position.
/// The traversal is over exactly when no value is under conversion.
pub open spec fn asks_about(stack: Seq<Frame>, req: Request) -> bool {
    match req {
        Request::Done(_) => stack.len() == 0,
        Request::Inspect(h) => stack.len() > 0 && stack.last().handle == h && stack.last().stage is Inspecting,
        Request::Read(h, c) => stack.len() > 0 && stack.last().handle == h && stack.last().stage == Stage::Reading(c),
        Request::Element { handle, index } => stack.len() > 0 && stack.last().handle == handle && match stack.last().stage {
            Stage::Container { object, items, .. } => !object && index as nat == items.len(),
            _ => false,
        },
        Request::Attribute { handle, index, name } => stack.len() > 0 && stack.last().handle == handle
            && match stack.last().stage {
            Stage::Container { object, names, items, .. } => {
                &&& object
                &&& index as nat == items.len()
                &&& index < names.len()
                &&& name == names[index as int]
            },
            _ => false,
        },
    }
}

/// No two values on the path have the same address.
pub open spec fn distinct_path(stack: Seq<Frame>) -> bool {
    forall|i: int, j: int| 0 <= i < j < stack.len() ==> (#[trigger] stack[i]).address != (#[trigger] stack[j]).address
}

/// A failed answer of the evaluator.
pub open spec fn is_failure(reply: Reply) -> bool {
    ||| reply is ForceFailed
    ||| reply is TypeFailed
    ||| reply is ReadFailed
    ||| reply is ChildFailed
    ||| reply == Reply::Child(None)
}

/// The error that a failed answer makes for the frame that asked.
pub open spec fn failure_error(top: Frame, reply: Reply) -> JsonError {
    match reply {
        Reply::ForceFailed(m) => JsonError::Force(m),
        Reply::TypeFailed(m) => JsonError::ValueType(m),
        Reply::ReadFailed(m) => JsonError::Read(top.stage->Reading_0, m),
        Reply::ChildFailed(m) => match top.stage {
            Stage::Container { object, names, items, .. } => if object {
                JsonError::AttributeFailed(names[items.len() as int], m)
            } else {
                JsonError::ListElementFailed(items.len() as usize, m)
            },
            _ => JsonError::Unknown,
        },
        _ => match top.stage {
            Stage::Container { items, .. } => JsonError::ListElementUnavailable(items.len() as usize),
            _ => JsonError::Unknown,
        },
    }
}

proof fn lemma_waiting_below(stack: Seq<Frame>)
    requires
        stack_wf(stack),
        stack.len() > 0,
    ensures
        waiting(stack.drop_last()),
{
    let b = stack.drop_last();
    assert forall|i: int| 0 <= i < b.len() implies (#[trigger] b[i]) == stack[i] by {}
    assert forall|i: int| 0 <= i < b.len() implies (#[trigger] b[i]).stage is Container by {
        assert(b[i] == stack[i]);
    }
}

proof fn lemma_deliver_shape(s: Seq<Frame>, doc: Json)
    requires
        waiting(s),
    ensures
        asks_about(deliver(s, doc).0, deliver(s, doc).1),
        deliver(s, doc).0.len() <= s.len(),
        forall|i: int| 0 <= i < deliver(s, doc).0.len() ==> (#[trigger] deliver(s, doc).0[i]).address == s[i].address,
    decreases s.len(),
{
    if s.len() > 0 {
        let top = s.last();
        assert(s[s.len() - 1] == top);
        let below = s.drop_last();
        lemma_waiting_below(s);
        match top.stage {
            Stage::Container { object, names, size, items } => {
                let items2 = items.push(doc);
                if items2.len() >= size {
                    lemma_deliver_shape(below, built(object, names, items2));
                    let r = deliver(below, built(object, names, items2));
                    assert forall|i: int| 0 <= i < r.0.len() implies (#[trigger] r.0[i]).address == s[i].address by {
                        assert(below[i] == s[i]);
                    }
                } else {
                    let f = Frame { stage: Stage::Container { object, names, size, items: items2 }, ..top };
                    let r = below.push(f);
                    assert(r.last() == f);
                    assert forall|i: int| 0 <= i < r.len() implies (#[trigger] r[i]).address == s[i].address by {
                        if i < below.len() {
                            assert(r[i] == below[i]);
                        }
                    }
                }
            },
            _ => {},
        }
    }
}

/// Every question that the traversal asks is about the innermost value
/// under conversion; in particular an attribute question names the
/// attribute, as read, at the position it asks for, and a list question
/// asks for the element after those converted so far.
pub proof fn lemma_step_asks_about_innermost(stack: Seq<Frame>, reply: Reply)
    requires
        stack_wf(stack),
    ensures
        asks_about(json_step_spec(stack, reply).0, json_step_spec(stack, reply).1),
{
    if accepts(stack, reply) {
        let top = stack.last();
        let below = stack.drop_last();
        lemma_waiting_below(stack);
        assert(stack[stack.len() - 1] == top);
        match top.stage {
            Stage::Inspecting => match reply {
                Reply::Forced(t) => match conversion_spec(t) {
                    Ok(Conversion::Null) => lemma_deliver_shape(below, Json::Null),
                    _ => {},
                },
                _ => {},
            },
            Stage::Reading(c) => match reply {
                Reply::Bool(b) => lemma_deliver_shape(below, Json::Bool(b)),
                Reply::Int(i) => lemma_deliver_shape(below, Json::Int(i)),
                Reply::Float(x) => lemma_deliver_shape(below, Json::Float(x)),
                Reply::Text(t) => lemma_deliver_shape(below, Json::String(t)),
                Reply::Size(n) => if n == 0 {
                    lemma_deliver_shape(below, Json::Array(Seq::empty()));
                },
                Reply::Names(ns) => if ns.len() == 0 {
                    lemma_deliver_shape(below, Json::Object(Seq::empty()));
                },
                _ => {},
            },
            Stage::Container { .. } => match reply {
                Reply::Child(Some((h, a))) => if path_of(stack).contains(a) {
                    assert forall|i: int| 0 <= i < stack.len() implies (#[trigger] stack[i]).stage is Container by {
                        if i < stack.len() - 1 {
                            assert(stack[i] == below[i]);
                        }
                    }
                    lemma_deliver_shape(stack, Json::Null);
                },
                _ => {},
            },
        }
    }
}

/// The path from the root to the innermost value under conversion never
/// holds a value twice: a child that has the address of any value on the
/// path, however far up, is not converted again (it becomes null), so the
/// path is never longer than the number of distinct addresses and the
/// traversal of a circular value comes to an end.
pub proof fn lemma_step_keeps_path_distinct(stack: Seq<Frame>, reply: Reply)
    requires
        stack_wf(stack),
        distinct_path(stack),
    ensures
        distinct_path(json_step_spec(stack, reply).0),
{
    if accepts(stack, reply) {
        let top = stack.last();
        let below = stack.drop_last();
        lemma_waiting_below(stack);
        assert(stack[stack.len() - 1] == top);
        assert forall|i: int| 0 <= i < below.len() implies (#[trigger] below[i]) == stack[i] by {}
        let r = json_step_spec(stack, reply).0;
        match top.stage {
            Stage::Container { .. } => match reply {
                Reply::Child(Some((h, a))) => if path_of(stack).contains(a) {
                    assert forall|i: int| 0 <= i < stack.len() implies (#[trigger] stack[i]).stage is Container by {
                        if i < stack.len() - 1 {
                            assert(stack[i] == below[i]);
                        }
                    }
                    lemma_deliver_shape(stack, Json::Null);
                } else {
                    assert(r == stack.push(Frame { handle: h, address: a, stage: Stage::Inspecting }));
                    assert forall|i: int, j: int| 0 <= i < j < r.len() implies (#[trigger] r[i]).address != (#[trigger] r[j]).address by {
                        assert(r[i] == stack[i]);
                        if j < stack.len() {
                            assert(r[j] == stack[j]);
                        } else {
                            assert(r[j].address == a);
                            assert(!(stack[i].address == a));
                        }
                    }
                },
                _ => {},
            },
            Stage::Inspecting => match reply {
                Reply::Forced(t) => match conversion_spec(t) {
                    Ok(Conversion::Null) => lemma_deliver_shape(below, Json::Null),
                    Ok(c) => lemma_replace_top_distinct(stack, Frame { stage: Stage::Reading(c), ..top }),
                    _ => {},
                },
                _ => {},
            },
            Stage::Reading(c) => match reply {
                Reply::Bool(b) => lemma_deliver_shape(below, Json::Bool(b)),
                Reply::Int(i) => lemma_deliver_shape(below, Json::Int(i)),
                Reply::Float(x) => lemma_deliver_shape(below, Json::Float(x)),
                Reply::Text(t) => lemma_deliver_shape(below, Json::String(t)),
                Reply::Size(n) => if n == 0 {
                    lemma_deliver_shape(below, Json::Array(Seq::empty()));
                } else {
                    lemma_replace_top_distinct(stack, Frame {
                        stage: Stage::Container { object: false, names: Seq::empty(), size: n as nat, items: Seq::empty() },
                        ..top
                    });
                },
                Reply::Names(ns) => if ns.len() == 0 {
                    lemma_deliver_shape(below, Json::Object(Seq::empty()));
                } else {
                    lemma_replace_top_distinct(stack, Frame {
                        stage: Stage::Container { object: true, names: ns, size: ns.len(), items: Seq::empty() },
                        ..top
                    });
                },
                _ => {},
            },
        }
    }
}

proof fn lemma_replace_top_distinct(stack: Seq<Frame>, f: Frame)
    requires
        distinct_path(stack),
        stack.len() > 0,
        f.address == stack.last().address,
    ensures
        distinct_path(stack.drop_last().push(f)),
{
    let r = stack.drop_last().push(f);
    assert forall|i: int, j: int| 0 <= i < j < r.len() implies (#[trigger] r[i]).address != (#[trigger] r[j]).address by {
        assert(r[i] == stack[i]);
        if j < r.len() - 1 {
            assert(r[j] == stack[j]);
        } else {
            assert(r[j].address == stack[j].address);
        }
    }
}

/// A failed answer of the evaluator, whichever value it concerns and
/// however many children were converted before it, ends the traversal
/// with the error for that failure: nothing is converted past it, and no
/// document is made.
pub proof fn lemma_failure_ends_traversal(stack: Seq<Frame>, reply: Reply)
    requires
        stack_wf(stack),
        accepts(stack, reply),
        is_failure(reply),
    ensures
        json_step_spec(stack, reply) == finished(Err(failure_error(stack.last(), reply))),
{
}

/// The documents of converted children.
pub open spec fn docs_of(items: Seq<JsonTree>) -> Seq<Json> {
    Seq::new(items.len(), |i: int| items[i].model())
}

/// The documents of converted attributes.
pub open spec fn entry_docs(entries: Seq<(String, JsonTree)>) -> Seq<Json> {
    Seq::new(entries.len(), |i: int| entries[i].1.model())
}

proof fn lemma_array_model(v: Vec<JsonTree>)
    ensures
        JsonTree::Array(v).model() == built(false, Seq::empty(), docs_of(v@)),
{
    let xs = JsonTree::Array(v).model()->Array_0;
    assert(xs =~= docs_of(v@));
}

proof fn lemma_object_model(names: Seq<String>, v: Vec<(String, JsonTree)>)
    requires
        names.len() == v@.len(),
        forall|i: int| 0 <= i < v@.len() ==> (#[trigger] v@[i]).0 == names[i],
    ensures
        JsonTree::Object(v).model() == built(true, names, entry_docs(v@)),
{
    let xs = JsonTree::Object(v).model()->Object_0;
    let ys = built(true, names, entry_docs(v@))->Object_0;
    assert(xs =~= ys);
}

/// Where the conversion of one value stands, with the documents of the
/// children converted so far.
pub enum Pending {
    Inspecting,
    Reading(Conversion),
    Array { size: usize, items: Vec<JsonTree> },
    Object { names: Vec<String>, entries: Vec<(String, JsonTree)> },
}

/// One value under conversion.
pub struct Visit {
    pub handle: usize,
    pub address: usize,
    pub pending: Pending,
}

impl Visit {
    pub open spec fn view(&self) -> Frame {
        Frame {
            handle: self.handle,
            address: self.address,
            stage: match self.pending {
                Pending::Inspecting => Stage::Inspecting,
                Pending::Reading(c) => Stage::Reading(c),
                Pending::Array { size, items } => Stage::Container {
                    object: false,
                    names: Seq::empty(),
                    size: size as nat,
                    items: docs_of(items@),
                },
                Pending::Object { names, entries } => Stage::Container {
                    object: true,
                    names: names@,
                    size: names@.len(),
                    items: entry_docs(entries@),
                },
            },
        }
    }

    /// An object's converted attributes carry the names of its attributes.
    pub open spec fn wf(&self) -> bool {
        match self.pending {
            Pending::Object { names, entries } => forall|i: int|
                0 <= i < entries@.len() ==> (#[trigger] entries@[i]).0 == names@[i],
            _ => true,
        }
    }
}

/// The traversal of a value tree: the values under conversion, from the
/// root down to the innermost one.
pub struct JsonTraversal {
    visits: Vec<Visit>,
}

/// The frames of a sequence of visits.
pub open spec fn frames_of(visits: Seq<Visit>) -> Seq<Frame> {
    Seq::new(visits.len(), |i: int| visits[i].view())
}

/// The visits form a well-formed stack of frames.
pub open spec fn visits_wf(visits: Seq<Visit>) -> bool {
    &&& stack_wf(frames_of(visits))
    &&& forall|i: int| 0 <= i < visits.len() ==> (#[trigger] visits[i]).wf()
}

impl JsonTraversal {
    pub closed spec fn view(&self) -> Seq<Frame> {
        frames_of(self.visits@)
    }

    pub closed spec fn wf(&self) -> bool {
        visits_wf(self.visits@)
    }

    /// Starts the conversion of the value with this handle and address:
    /// its type is asked for first.
    pub fn start(handle: usize, address: usize) -> (r: (JsonTraversal, EvalRequest))
        ensures
            r.0.wf(),
            r.0@ == seq![Frame { handle, address, stage: Stage::Inspecting }],
            r.1@ == Request::Inspect(handle),
    {
        let mut visits: Vec<Visit> = Vec::new();
        visits.push(Visit { handle, address, pending: Pending::Inspecting });
        let t = JsonTraversal { visits };
        assert(t@ =~= seq![Frame { handle, address, stage: Stage::Inspecting }]);
        (t, EvalRequest::Inspect(handle))
    }

    /// Whether the answer fits the question asked last.
    pub fn accepts(&self, reply: &EvalReply) -> (b: bool)
        requires
            self.wf(),
        ensures
            b == accepts(self@, reply@),
    {
        let n = self.visits.len();
        if n == 0 {
            return false;
        }
        let top = &self.visits[n - 1];
        assert(self@.last() == top.view());
        match &top.pending {
            Pending::Inspecting => match reply {
                EvalReply::Forced(_) | EvalReply::ForceFailed(_) | EvalReply::TypeFailed(_) => true,
                _ => false,
            },
            Pending::Reading(c) => match reply {
                EvalReply::ReadFailed(_) => true,
                EvalReply::Bool(_) => *c == Conversion::Bool,
                EvalReply::Int(_) => *c == Conversion::Int,
                EvalReply::Float(_) => *c == Conversion::Float,
                EvalReply::Text(_) => *c == Conversion::String || *c == Conversion::PathString,
                EvalReply::Size(_) => *c == Conversion::Array,
                EvalReply::Names(_) => *c == Conversion::Object,
                _ => false,
            },
            Pending::Array { .. } => match reply {
                EvalReply::Child(_) | EvalReply::ChildFailed(_) => true,
                _ => false,
            },
            Pending::Object { .. } => match reply {
                EvalReply::Child(Some(_)) | EvalReply::ChildFailed(_) => true,
                _ => false,
            },
        }
    }
}

proof fn lemma_frames_push(visits: Seq<Visit>, v: Visit)
    ensures
        frames_of(visits.push(v)) == frames_of(visits).push(v.view()),
{
    assert(frames_of(visits.push(v)) =~= frames_of(visits).push(v.view()));
}

proof fn lemma_frames_drop_last(visits: Seq<Visit>)
    requires
        visits.len() > 0,
    ensures
        frames_of(visits.drop_last()) == frames_of(visits).drop_last(),
        frames_of(visits).last() == visits.last().view(),
{
    assert(frames_of(visits.drop_last()) =~= frames_of(visits).drop_last());
}

/// Hands `doc` to the innermost waiting container, as `deliver` says.
fn deliver_doc(visits_in: Vec<Visit>, doc_in: JsonTree) -> (r: (JsonTraversal, EvalRequest))
    requires
        visits_wf(visits_in@),
        waiting(frames_of(visits_in@)),
    ensures
        r.0.wf(),
        (r.0@, r.1@) == deliver(frames_of(visits_in@), doc_in.model()),
{
    let ghost goal = deliver(frames_of(visits_in@), doc_in.model());
    let mut visits = visits_in;
    let mut doc = doc_in;
    loop
        invariant
            goal == deliver(frames_of(visits_in@), doc_in.model()),
            visits_wf(visits@),
            waiting(frames_of(visits@)),
            deliver(frames_of(visits@), doc.model()) == goal,
        decreases visits.len(),
    {
        let ghost before = visits@;
        let ghost d = doc.model();
        match visits.pop() {
            None => {
                assert(frames_of(before).len() == 0);
                assert(deliver(frames_of(before), d) == finished(Ok(d)));
                let t = JsonTraversal { visits };
                assert(t@ =~= Seq::<Frame>::empty());
                return (t, EvalRequest::Done(Ok(doc)));
            },
            Some(top) => {
                proof {
                    lemma_frames_drop_last(before);
                    assert(before.drop_last() =~= visits@);
                    assert(frames_of(before)[before.len() - 1] == top.view());
                    assert(before[before.len() - 1] == top);
                    assert(visits_wf(visits@)) by {
                        assert forall|i: int| 0 <= i < visits@.len() implies (#[trigger] visits@[i]).wf() by {
                            assert(visits@[i] == before[i]);
                        }
                        assert forall|i: int| 0 <= i < frames_of(visits@).len() implies (#[trigger] frames_of(visits@)[i]) == frames_of(before)[i] by {}
                    }
                }
                let handle = top.handle;
                let address = top.address;
                match top.pending {
                    Pending::Array { size, items } => {
                        let mut items = items;
                        let ghost old_docs = docs_of(items@);
                        items.push(doc);
                        proof {
                            assert(docs_of(items@) =~= old_docs.push(doc.model()));
                        }
                        if items.len() >= size {
                            proof {
                                lemma_array_model(items);
                            }
                            doc = JsonTree::Array(items);
                        } else {
                            let index = items.len();
                            let v = Visit { handle, address, pending: Pending::Array { size, items } };
                            let ghost below = visits@;
                            visits.push(v);
                            proof {
                                lemma_frames_push(below, v);
                                assert(visits@ =~= below.push(v));
                                assert forall|i: int| 0 <= i < visits@.len() implies (#[trigger] visits@[i]).wf() by {
                                    if i < below.len() {
                                        assert(visits@[i] == below[i]);
                                    }
                                }
                            }
                            let t = JsonTraversal { visits };
                            proof {
                                let f2 = v.view();
                                assert(f2 == Frame { stage: Stage::Container { object: false, names: Seq::empty(), size: size as nat, items: old_docs.push(d) }, ..frames_of(before).last() });
                                assert(frames_of(before).drop_last() == frames_of(below));
                                assert(deliver(frames_of(before), d) == (frames_of(below).push(f2), child_request(f2)));
                                assert(t@ == frames_of(below).push(f2));
                                assert(child_request(f2) == Request::Element { handle, index });
                            }
                            let req = EvalRequest::Element { handle, index };
                            assert(req@ == Request::Element { handle, index });
                            assert((t@, req@) == goal);
                            return (t, req);
                        }
                    },
                    Pending::Object { names, entries } => {
                        let mut entries = entries;
                        let ghost old_docs = entry_docs(entries@);
                        let k = entries.len();
                        let name = names[k].clone();
                        entries.push((name, doc));
                        proof {
                            assert(entry_docs(entries@) =~= old_docs.push(doc.model()));
                        }
                        if entries.len() >= names.len() {
                            proof {
                                lemma_object_model(names@, entries);
                            }
                            doc = JsonTree::Object(entries);
                        } else {
                            let next_name = names[entries.len()].clone();
                            let index = entries.len();
                            let v = Visit { handle, address, pending: Pending::Object { names, entries } };
                            let ghost below = visits@;
                            visits.push(v);
                            proof {
                                lemma_frames_push(below, v);
                                assert(visits@ =~= below.push(v));
                                assert forall|i: int| 0 <= i < visits@.len() implies (#[trigger] visits@[i]).wf() by {
                                    if i < below.len() {
                                        assert(visits@[i] == below[i]);
                                    }
                                }
                            }
                            let t = JsonTraversal { visits };
                            proof {
                                let f2 = v.view();
                                assert(f2 == Frame { stage: Stage::Container { object: true, names: names@, size: names@.len(), items: old_docs.push(d) }, ..frames_of(before).last() });
                                assert(frames_of(before).drop_last() == frames_of(below));
                                assert(deliver(frames_of(before), d) == (frames_of(below).push(f2), child_request(f2)));
                                assert(t@ == frames_of(below).push(f2));
                            }
                            return (t, EvalRequest::Attribute { handle, index, name: next_name });
                        }
                    },
                    _ => {
                        proof {
                            assert(frames_of(before)[before.len() - 1].stage is Container);
                        }
                        let t = JsonTraversal { visits: Vec::new() };
                        return (t, EvalRequest::Done(Ok(doc)));
                    },
                }
            },
        }
    }
}

/// Whether a value with this address is on the path of the visits.
fn on_path(visits: &Vec<Visit>, address: usize) -> (b: bool)
    ensures
        b == path_of(frames_of(visits@)).contains(address),
{
    let mut i: usize = 0;
    while i < visits.len()
        invariant
            i <= visits@.len(),
            forall|j: int| 0 <= j < i ==> (#[trigger] visits@[j]).address != address,
        decreases visits.len() - i,
    {
        if visits[i].address == address {
            assert(frames_of(visits@)[i as int].address == address);
            return true;
        }
        i = i + 1;
    }
    assert forall|j: int| 0 <= j < frames_of(visits@).len() implies (#[trigger] frames_of(visits@)[j]).address != address by {
        assert(visits@[j].address != address);
    }
    false
}

/// The traversal ends with this result.
fn finish(result: Result<JsonTree, JsonError>) -> (r: (JsonTraversal, EvalRequest))
    ensures
        r.0.wf(),
        r.0@ == Seq::<Frame>::empty(),
        r.1 == EvalRequest::Done(result),
{
    let t = JsonTraversal { visits: Vec::new() };
    assert(t@ =~= Seq::<Frame>::empty());
    (t, EvalRequest::Done(result))
}

/// One step of the traversal: from the values under conversion and the
/// evaluator's answer to the last question, the values under conversion
/// and the next question, which is `Done` with the result once the
/// traversal is over.
pub fn json_step(state: JsonTraversal, reply: EvalReply) -> (r: (JsonTraversal, EvalRequest))
    requires
        state.wf(),
    ensures
        r.0.wf(),
        (r.0@, r.1@) == json_step_spec(state@, reply@),
{
    if !state.accepts(&reply) {
        return finish(Err(JsonError::Unknown));
    }
    let ghost stack = state@;
    let ghost rv = reply@;
    let mut visits = state.visits;
    let ghost all = visits@;
    let top = match visits.pop() {
        Some(top) => top,
        None => {
            return finish(Err(JsonError::Unknown));
        },
    };
    proof {
        lemma_frames_drop_last(all);
        assert(all.drop_last() =~= visits@);
        assert(all[all.len() - 1] == top);
        assert(stack.last() == top.view());
        assert(stack.drop_last() == frames_of(visits@));
        assert forall|i: int| 0 <= i < frames_of(visits@).len() implies (#[trigger] frames_of(visits@)[i]) == stack[i] by {}
        assert forall|i: int| 0 <= i < visits@.len() implies (#[trigger] visits@[i]).wf() by {
            assert(visits@[i] == all[i]);
        }
        assert(waiting(frames_of(visits@)));
    }
    let handle = top.handle;
    let address = top.address;
    match top.pending {
        Pending::Inspecting => match reply {
            EvalReply::Forced(t) => match conversion_for(t) {
                Ok(Conversion::Null) => deliver_doc(visits, JsonTree::Null),
                Ok(c) => {
                    let v = Visit { handle, address, pending: Pending::Reading(c) };
                    let ghost below = visits@;
                    visits.push(v);
                    proof {
                        lemma_frames_push(below, v);
                        assert(visits@ =~= below.push(v));
                        assert forall|i: int| 0 <= i < visits@.len() implies (#[trigger] visits@[i]).wf() by {
                            if i < below.len() {
                                assert(visits@[i] == below[i]);
                            }
                        }
                    }
                    (JsonTraversal { visits }, EvalRequest::Read(handle, c))
                },
                Err(e) => finish(Err(e)),
            },
            EvalReply::ForceFailed(m) => finish(Err(JsonError::Force(m))),
            EvalReply::TypeFailed(m) => finish(Err(JsonError::ValueType(m))),
            _ => finish(Err(JsonError::Unknown)),
        },
        Pending::Reading(c) => match reply {
            EvalReply::Bool(b) => deliver_doc(visits, JsonTree::Bool(b)),
            EvalReply::Int(i) => deliver_doc(visits, JsonTree::Int(i)),
            EvalReply::Float(x) => deliver_doc(visits, JsonTree::Float(x)),
            EvalReply::Text(t) => deliver_doc(visits, JsonTree::String(t)),
            EvalReply::Size(n) => {
                if n == 0 {
                    let doc = JsonTree::Array(Vec::new());
                    proof {
                        assert(doc.model()->Array_0 =~= Seq::<Json>::empty());
                    }
                    deliver_doc(visits, doc)
                } else {
                    let v = Visit { handle, address, pending: Pending::Array { size: n, items: Vec::new() } };
                    let ghost below = visits@;
                    visits.push(v);
                    proof {
                        lemma_frames_push(below, v);
                        assert(visits@ =~= below.push(v));
                        assert(docs_of(Seq::<JsonTree>::empty()) =~= Seq::<Json>::empty());
                        assert forall|i: int| 0 <= i < visits@.len() implies (#[trigger] visits@[i]).wf() by {
                            if i < below.len() {
                                assert(visits@[i] == below[i]);
                            }
                        }
                    }
                    (JsonTraversal { visits }, EvalRequest::Element { handle, index: 0 })
                }
            },
            EvalReply::Names(ns) => {
                if ns.len() == 0 {
                    let doc = JsonTree::Object(Vec::new());
                    proof {
                        assert(doc.model()->Object_0 =~= Seq::<(String, Json)>::empty());
                    }
                    deliver_doc(visits, doc)
                } else {
                    let name = ns[0].clone();
                    let v = Visit { handle, address, pending: Pending::Object { names: ns, entries: Vec::new() } };
                    let ghost below = visits@;
                    visits.push(v);
                    proof {
                        lemma_frames_push(below, v);
                        assert(visits@ =~= below.push(v));
                        assert(entry_docs(Seq::<(String, JsonTree)>::empty()) =~= Seq::<Json>::empty());
                        assert forall|i: int| 0 <= i < visits@.len() implies (#[trigger] visits@[i]).wf() by {
                            if i < below.len() {
                                assert(visits@[i] == below[i]);
                            }
                        }
                    }
                    (JsonTraversal { visits }, EvalRequest::Attribute { handle, index: 0, name })
                }
            },
            EvalReply::ReadFailed(m) => finish(Err(JsonError::Read(c, m))),
            _ => finish(Err(JsonError::Unknown)),
        },
        Pending::Array { size, items } => match reply {
            EvalReply::Child(Some((h, a))) => {
                let ghost below = visits@;
                let index = items.len();
                let v = Visit { handle, address, pending: Pending::Array { size, items } };
                visits.push(v);
                proof {
                    assert(visits@ =~= all);
                }
                if on_path(&visits, a) {
                    deliver_doc(visits, JsonTree::Null)
                } else {
                    let child = Visit { handle: h, address: a, pending: Pending::Inspecting };
                    let ghost full = visits@;
                    visits.push(child);
                    proof {
                        lemma_frames_push(full, child);
                        assert(visits@ =~= full.push(child));
                        assert forall|i: int| 0 <= i < visits@.len() implies (#[trigger] visits@[i]).wf() by {
                            if i < full.len() {
                                assert(visits@[i] == full[i]);
                            }
                        }
                    }
                    (JsonTraversal { visits }, EvalRequest::Inspect(h))
                }
            },
            EvalReply::Child(None) => finish(Err(JsonError::ListElementUnavailable(items.len()))),
            EvalReply::ChildFailed(m) => finish(Err(JsonError::ListElementFailed(items.len(), m))),
            _ => finish(Err(JsonError::Unknown)),
        },
        Pending::Object { names, entries } => match reply {
            EvalReply::Child(Some((h, a))) => {
                let v = Visit { handle, address, pending: Pending::Object { names, entries } };
                visits.push(v);
                proof {
                    assert(visits@ =~= all);
                }
                if on_path(&visits, a) {
                    deliver_doc(visits, JsonTree::Null)
                } else {
                    let child = Visit { handle: h, address: a, pending: Pending::Inspecting };
                    let ghost full = visits@;
                    visits.push(child);
                    proof {
                        lemma_frames_push(full, child);
                        assert(visits@ =~= full.push(child));
                        assert forall|i: int| 0 <= i < visits@.len() implies (#[trigger] visits@[i]).wf() by {
                            if i < full.len() {
                                assert(visits@[i] == full[i]);
                            }
                        }
                    }
                    (JsonTraversal { visits }, EvalRequest::Inspect(h))
                }
            },
            EvalReply::ChildFailed(m) => {
                let name = names[entries.len()].clone();
                finish(Err(JsonError::AttributeFailed(name, m)))
            },
            _ => finish(Err(JsonError::Unknown)),
        },
    }
}

} // verus!
