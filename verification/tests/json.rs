use nix_bindings::json::{
    conversion_for, json_step, Conversion, EvalReply, EvalRequest, JsonError, JsonTraversal, JsonTree,
    ValueType,
};

#[test]
fn supported_types_convert() {
    assert_eq!(conversion_for(ValueType::Null), Ok(Conversion::Null));
    assert_eq!(conversion_for(ValueType::Bool), Ok(Conversion::Bool));
    assert_eq!(conversion_for(ValueType::Int), Ok(Conversion::Int));
    assert_eq!(conversion_for(ValueType::Float), Ok(Conversion::Float));
    assert_eq!(conversion_for(ValueType::String), Ok(Conversion::String));
    assert_eq!(conversion_for(ValueType::Path), Ok(Conversion::PathString));
    assert_eq!(conversion_for(ValueType::List), Ok(Conversion::Array));
    assert_eq!(conversion_for(ValueType::AttrSet), Ok(Conversion::Object));
}

#[test]
fn unsupported_types_fail() {
    assert_eq!(conversion_for(ValueType::Function), Err(JsonError::Function));
    assert_eq!(conversion_for(ValueType::External), Err(JsonError::External));
    assert_eq!(conversion_for(ValueType::Unknown), Err(JsonError::Unknown));
}

/// A value of a small evaluator: its address and contents.
#[derive(Clone)]
enum V {
    Null,
    Bool(bool),
    Int(i64),
    Float(f64),
    Str(&'static str),
    Path(&'static str),
    List(Vec<usize>),
    Attrs(Vec<(&'static str, usize)>),
    Function,
    /// A list whose element at this index is unavailable.
    Holey(usize),
    /// An attribute set whose attributes cannot be read.
    Broken(Vec<&'static str>),
    /// A value that fails to force.
    Failing,
    /// A list of this size whose elements cannot be read.
    Locked(usize),
}

/// Runs the traversal from value `root`, answering from `values`; the
/// address of value `i` is `1000 + i`, its handle `i`.
fn convert(values: &[V], root: usize) -> (Result<JsonTree, JsonError>, Vec<f64>) {
    let mut floats = Vec::new();
    let (mut state, mut req) = JsonTraversal::start(root, 1000 + root);
    loop {
        let reply = match &req {
            EvalRequest::Done(_) => break,
            EvalRequest::Inspect(h) => match &values[*h] {
                V::Null => EvalReply::Forced(ValueType::Null),
                V::Bool(_) => EvalReply::Forced(ValueType::Bool),
                V::Int(_) => EvalReply::Forced(ValueType::Int),
                V::Float(_) => EvalReply::Forced(ValueType::Float),
                V::Str(_) => EvalReply::Forced(ValueType::String),
                V::Path(_) => EvalReply::Forced(ValueType::Path),
                V::List(_) | V::Holey(_) | V::Locked(_) => EvalReply::Forced(ValueType::List),
                V::Attrs(_) | V::Broken(_) => EvalReply::Forced(ValueType::AttrSet),
                V::Function => EvalReply::Forced(ValueType::Function),
                V::Failing => EvalReply::ForceFailed("infinite recursion".to_string()),
            },
            EvalRequest::Read(h, _) => match &values[*h] {
                V::Bool(b) => EvalReply::Bool(*b),
                V::Int(i) => EvalReply::Int(*i),
                V::Float(f) => {
                    floats.push(*f);
                    EvalReply::Float(floats.len() - 1)
                }
                V::Str(s) | V::Path(s) => EvalReply::Text(s.to_string()),
                V::List(cs) => EvalReply::Size(cs.len()),
                V::Holey(n) => EvalReply::Size(*n + 1),
                V::Locked(n) => EvalReply::Size(*n),
                V::Attrs(es) => EvalReply::Names(es.iter().map(|e| e.0.to_string()).collect()),
                V::Broken(ns) => EvalReply::Names(ns.iter().map(|n| n.to_string()).collect()),
                _ => EvalReply::ReadFailed("unexpected".to_string()),
            },
            EvalRequest::Element { handle, index } => match &values[*handle] {
                V::List(cs) => EvalReply::Child(Some((cs[*index], 1000 + cs[*index]))),
                V::Holey(n) if index == n => EvalReply::Child(None),
                V::Holey(_) => EvalReply::Child(Some((0, 1000))),
                _ => EvalReply::ChildFailed("cannot read element".to_string()),
            },
            EvalRequest::Attribute { handle, index, name } => match &values[*handle] {
                V::Attrs(es) => {
                    assert_eq!(es[*index].0, name);
                    EvalReply::Child(Some((es[*index].1, 1000 + es[*index].1)))
                }
                _ => EvalReply::ChildFailed("attribute missing".to_string()),
            },
        };
        assert!(state.accepts(&reply));
        let (s, r) = json_step(state, reply);
        state = s;
        req = r;
    }
    match req {
        EvalRequest::Done(result) => (result, floats),
        _ => unreachable!(),
    }
}

fn obj(entries: Vec<(&str, JsonTree)>) -> JsonTree {
    JsonTree::Object(entries.into_iter().map(|(k, v)| (k.to_string(), v)).collect())
}

#[test]
fn scalars_convert() {
    assert_eq!(convert(&[V::Null], 0).0, Ok(JsonTree::Null));
    assert_eq!(convert(&[V::Bool(true)], 0).0, Ok(JsonTree::Bool(true)));
    assert_eq!(convert(&[V::Int(42)], 0).0, Ok(JsonTree::Int(42)));
    assert_eq!(convert(&[V::Str("hello")], 0).0, Ok(JsonTree::String("hello".to_string())));
    assert_eq!(convert(&[V::Path("/tmp/test")], 0).0, Ok(JsonTree::String("/tmp/test".to_string())));
    let (r, floats) = convert(&[V::Float(1.5)], 0);
    assert_eq!(r, Ok(JsonTree::Float(0)));
    assert_eq!(floats, vec![1.5]);
}

#[test]
fn list_converts_in_order() {
    // [1 2 3]
    let values = [V::List(vec![1, 2, 3]), V::Int(1), V::Int(2), V::Int(3)];
    assert_eq!(
        convert(&values, 0).0,
        Ok(JsonTree::Array(vec![JsonTree::Int(1), JsonTree::Int(2), JsonTree::Int(3)]))
    );
    assert_eq!(convert(&[V::List(vec![])], 0).0, Ok(JsonTree::Array(vec![])));
}

#[test]
fn attrset_converts() {
    // { a = 1; b = "x"; }
    let values = [V::Attrs(vec![("a", 1), ("b", 2)]), V::Int(1), V::Str("x")];
    assert_eq!(
        convert(&values, 0).0,
        Ok(obj(vec![("a", JsonTree::Int(1)), ("b", JsonTree::String("x".to_string()))]))
    );
    assert_eq!(convert(&[V::Attrs(vec![])], 0).0, Ok(JsonTree::Object(vec![])));
}

#[test]
fn nested_values_convert() {
    // { items = [{ id = 1; } { id = 2; }]; count = 2; }
    let values = [
        V::Attrs(vec![("items", 1), ("count", 5)]),
        V::List(vec![2, 3]),
        V::Attrs(vec![("id", 4)]),
        V::Attrs(vec![("id", 5)]),
        V::Int(1),
        V::Int(2),
    ];
    assert_eq!(
        convert(&values, 0).0,
        Ok(obj(vec![
            (
                "items",
                JsonTree::Array(vec![obj(vec![("id", JsonTree::Int(1))]), obj(vec![("id", JsonTree::Int(2))])])
            ),
            ("count", JsonTree::Int(2)),
        ]))
    );
}

#[test]
fn a_shared_value_converts_each_time() {
    // let x = [1]; in [x x]
    let values = [V::List(vec![1, 1]), V::List(vec![2]), V::Int(1)];
    let one = JsonTree::Array(vec![JsonTree::Int(1)]);
    let again = JsonTree::Array(vec![JsonTree::Int(1)]);
    assert_eq!(convert(&values, 0).0, Ok(JsonTree::Array(vec![one, again])));
}

#[test]
fn a_circular_reference_becomes_null() {
    // let x = { self = x; n = 1; }; in x
    let values = [V::Attrs(vec![("self", 0), ("n", 1)]), V::Int(1)];
    assert_eq!(
        convert(&values, 0).0,
        Ok(obj(vec![("self", JsonTree::Null), ("n", JsonTree::Int(1))]))
    );
}

#[test]
fn traversal_errors() {
    assert_eq!(convert(&[V::Function], 0).0, Err(JsonError::Function));
    assert_eq!(
        convert(&[V::Failing], 0).0,
        Err(JsonError::Force("infinite recursion".to_string()))
    );
    // The second element of a list is unavailable.
    assert_eq!(convert(&[V::Holey(1)], 0).0, Err(JsonError::ListElementUnavailable(1)));
    assert_eq!(
        convert(&[V::Broken(vec!["a"])], 0).0,
        Err(JsonError::AttributeFailed("a".to_string(), "attribute missing".to_string()))
    );
    assert_eq!(
        convert(&[V::Locked(2)], 0).0,
        Err(JsonError::ListElementFailed(0, "cannot read element".to_string()))
    );
    // The first error met stops the traversal.
    let values = [V::List(vec![1, 2]), V::Function, V::Failing];
    assert_eq!(convert(&values, 0).0, Err(JsonError::Function));
}

#[test]
fn answer_that_does_not_fit_ends_with_unknown() {
    let (state, req) = JsonTraversal::start(0, 1000);
    assert_eq!(req, EvalRequest::Inspect(0));
    let reply = EvalReply::Int(7);
    assert!(!state.accepts(&reply));
    let (_, r) = json_step(state, reply);
    assert_eq!(r, EvalRequest::Done(Err(JsonError::Unknown)));
}

#[test]
fn read_answer_of_another_type_ends_with_unknown() {
    let (state, _) = JsonTraversal::start(0, 1000);
    let (state, req) = json_step(state, EvalReply::Forced(ValueType::Int));
    assert_eq!(req, EvalRequest::Read(0, Conversion::Int));
    let (_, r) = json_step(state, EvalReply::Bool(true));
    assert_eq!(r, EvalRequest::Done(Err(JsonError::Unknown)));
}
