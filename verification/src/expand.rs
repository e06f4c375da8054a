//! The code text that the two function attributes write. Each turns a
//! function into one that takes its arguments as one JSON text and gives
//! back its result as JSON, or the error that stopped it: `function` for a
//! synchronous function (one with parameters; one without is left as it
//! is), `async_function` for an `async` one, which it runs to completion on
//! a runtime of its own. The attributes parse and print Rust tokens; the
//! text they splice in, and the text of the new body, is computed here.

use vstd::prelude::*;
use crate::text::{chars_of, string_of, trim_chars, trimmed};

verus! {

/// A parameter of the function an attribute is put on.
#[derive(Clone, Debug)]
pub enum FnParam {
    /// A parameter `name: Type` whose type is a path; `type_head` is the
    /// first segment of the path.
    Named { name: String, type_head: String },
    /// Any other parameter (a receiver, or a pattern or type of another form).
    Unsupported,
}

/// The parameter's name (empty for an unsupported one).
pub open spec fn param_name(p: FnParam) -> Seq<char> {
    match p {
        FnParam::Named { name, .. } => name@,
        FnParam::Unsupported => seq![],
    }
}

/// The first segment of the parameter's type (empty for an unsupported one).
pub open spec fn param_type(p: FnParam) -> Seq<char> {
    match p {
        FnParam::Named { type_head, .. } => type_head@,
        FnParam::Unsupported => seq![],
    }
}

/// Every parameter has a name and a path type: the attributes reject the
/// function otherwise.
pub open spec fn all_supported(ps: Seq<FnParam>) -> bool {
    forall|i: int| 0 <= i < ps.len() ==> #[trigger] ps[i] is Named
}

/// The names, each followed by a comma and a space.
pub open spec fn names_list(ps: Seq<FnParam>) -> Seq<char>
    decreases ps.len(),
{
    if ps.len() == 0 {
        seq![]
    } else {
        names_list(ps.drop_last()) + param_name(ps.last()) + seq![',', ' ']
    }
}

/// The type names, each followed by a comma and a space.
pub open spec fn types_list(ps: Seq<FnParam>) -> Seq<char>
    decreases ps.len(),
{
    if ps.len() == 0 {
        seq![]
    } else {
        types_list(ps.drop_last()) + param_type(ps.last()) + seq![',', ' ']
    }
}

/// The statement that reads the parameters back out of the JSON text `input`.
pub open spec fn binding_text(ps: Seq<FnParam>) -> Seq<char> {
    "let ("@ + names_list(ps) + ")"@ + ": ("@ + types_list(ps)
        + ") = ::dolphine::serde_json::from_str(&input)?;"@
}

/// Some parameter is itself named `input`.
pub open spec fn mentions_input(ps: Seq<FnParam>) -> bool {
    exists|i: int| 0 <= i < ps.len() && #[trigger] param_name(ps[i]) == "input"@
}

/// The statements put before the body, in order: the binding of the
/// parameters, then, where no parameter is named `input`, a statement that
/// drops the JSON text.
pub open spec fn prelude_texts(ps: Seq<FnParam>) -> Seq<Seq<char>> {
    if mentions_input(ps) {
        seq![binding_text(ps)]
    } else {
        seq![binding_text(ps), "drop(input);"@]
    }
}

/// The body's text without its outer braces: the printed block, trimmed,
/// without its first and last character.
pub open spec fn inner_body_text(block: Seq<char>) -> Seq<char> {
    let t = trimmed(block);
    if t.len() >= 2 {
        t.subrange(1, t.len() - 1)
    } else {
        seq![]
    }
}

/// The new body of a synchronous function with parameters: a closure over
/// the JSON text runs the old body, and its value is turned into JSON.
pub open spec fn sync_block_text(return_type: Seq<char>, body: Seq<char>) -> Seq<char> {
    "{"@ + "\n            let t = (|"@ + "input: String"@ + "| "@ + return_type + "{\n        "@ + body
        + "\n        })("@ + "input"@ + ");\n        match t {\n            Ok(v) => {\n                let r = ::dolphine::serde_json::to_string(&v);\n                match r {\n                    Ok(s) => return Ok(s),\n                    Err(e) => return Err(Report::new(e)),\n                }\n            },\n            Err(e) => return Err(e),\n        };\n        "@ + "}"@
}

/// The new body of an `async` function: as for a synchronous one, with the
/// old body run to completion on a single-threaded runtime, and the closure
/// taking the JSON text only where the function had parameters.
pub open spec fn async_block_text(has_params: bool, return_type: Seq<char>, body: Seq<char>) -> Seq<
    char,
> {
    let param = if has_params {
        "input: String"@
    } else {
        seq![]
    };
    let arg = if has_params {
        "input"@
    } else {
        seq![]
    };
    "{"@ + "\n        let t = (|"@ + param + "| "@ + return_type + "{\n    "@ + "\n        ::dolphine::tokio::runtime::Builder::new_current_thread()\n            .enable_all()\n            .build()\n            .unwrap()\n            .block_on(async {\n                "@ + body
        + "\n            })"@ + "\n        })("@ + arg + ");\n        match t {\n            Ok(v) => {\n                let r = ::dolphine::serde_json::to_string(&v);\n                match r {\n                    Ok(s) => return Ok(s),\n                    Err(e) => return Err(Report::new(e)),\n                }\n            },\n            Err(e) => return Err(e),\n        };\n    "@ + "}"@
}

/// The names part of the binding: each name followed by a comma and a space.
proof fn lemma_names_list_flat(ps: Seq<FnParam>)
    ensures
        names_list(ps) == ps.map_values(|p: FnParam| param_name(p) + seq![',', ' ']).flatten(),
    decreases ps.len(),
{
    if ps.len() > 0 {
        lemma_names_list_flat(ps.drop_last());
        let f = |p: FnParam| param_name(p) + seq![',', ' '];
        assert(ps.map_values(f) =~= ps.drop_last().map_values(f).push(f(ps.last())));
        ps.drop_last().map_values(f).lemma_flatten_push(f(ps.last()));
    } else {
        assert(ps.map_values(|p: FnParam| param_name(p) + seq![',', ' ']) =~= Seq::<Seq<char>>::empty());
    }
}

/// The types part of the binding: each type followed by a comma and a space.
proof fn lemma_types_list_flat(ps: Seq<FnParam>)
    ensures
        types_list(ps) == ps.map_values(|p: FnParam| param_type(p) + seq![',', ' ']).flatten(),
    decreases ps.len(),
{
    if ps.len() > 0 {
        lemma_types_list_flat(ps.drop_last());
        let f = |p: FnParam| param_type(p) + seq![',', ' '];
        assert(ps.map_values(f) =~= ps.drop_last().map_values(f).push(f(ps.last())));
        ps.drop_last().map_values(f).lemma_flatten_push(f(ps.last()));
    } else {
        assert(ps.map_values(|p: FnParam| param_type(p) + seq![',', ' ']) =~= Seq::<Seq<char>>::empty());
    }
}

/// The binding reads a tuple, whatever the number of parameters: the
/// pattern lists every name followed by `, ` and the type lists every type
/// followed by `, `, in the order of the parameters (so one parameter `x:
/// u32` gives the one-element tuple `(x, ): (u32, )`).
pub proof fn lemma_binding_is_tuple(ps: Seq<FnParam>)
    ensures
        binding_text(ps) == "let ("@ + ps.map_values(|p: FnParam| param_name(p) + seq![',', ' ']).flatten()
            + ")"@ + ": ("@ + ps.map_values(|p: FnParam| param_type(p) + seq![',', ' ']).flatten()
            + ") = ::dolphine::serde_json::from_str(&input)?;"@,
{
    lemma_names_list_flat(ps);
    lemma_types_list_flat(ps);
}

/// The new body of a synchronous function is its closure's head, the
/// function's return type, the fixed text that opens the closure's body,
/// the old body unchanged, and a fixed trailer: the return type and the
/// old body are put in whole, and nothing else depends on them.
pub proof fn lemma_sync_block_layout(return_type: Seq<char>, body: Seq<char>)
    ensures
        ({
            let head = "{"@ + "\n            let t = (|"@ + "input: String"@ + "| "@;
            let bare = sync_block_text(seq![], seq![]);
            let k = head.len() + "{\n        "@.len();
            &&& bare.take(head.len() as int) == head
            &&& sync_block_text(return_type, body) == head + return_type + bare.subrange(
                head.len() as int,
                k as int,
            ) + body + bare.skip(k as int)
        }),
{
    let head = "{"@ + "\n            let t = (|"@ + "input: String"@ + "| "@;
    let bare = sync_block_text(seq![], seq![]);
    let k = head.len() + "{\n        "@.len();
    assert(bare.take(head.len() as int) =~= head);
    assert(sync_block_text(return_type, body) =~= head + return_type + bare.subrange(
        head.len() as int,
        k as int,
    ) + body + bare.skip(k as int));
}

/// The new body of an `async` function is its closure's head (which takes
/// the JSON text only where the function has parameters), the function's
/// return type, the fixed text that opens the runtime, the old body
/// unchanged, and a trailer that depends only on whether there are
/// parameters: the closure carries the return type in both cases.
pub proof fn lemma_async_block_layout(has_params: bool, return_type: Seq<char>, body: Seq<char>)
    ensures
        ({
            let head = "{"@ + "\n        let t = (|"@ + (if has_params {
                "input: String"@
            } else {
                seq![]
            }) + "| "@;
            let bare = async_block_text(has_params, seq![], seq![]);
            let k = head.len() + "{\n    "@.len() + "\n        ::dolphine::tokio::runtime::Builder::new_current_thread()\n            .enable_all()\n            .build()\n            .unwrap()\n            .block_on(async {\n                "@.len();
            &&& bare.take(head.len() as int) == head
            &&& async_block_text(has_params, return_type, body) == head + return_type
                + bare.subrange(head.len() as int, k as int) + body + bare.skip(k as int)
        }),
{
    let head = "{"@ + "\n        let t = (|"@ + (if has_params {
        "input: String"@
    } else {
        seq![]
    }) + "| "@;
    let bare = async_block_text(has_params, seq![], seq![]);
    let k = head.len() + "{\n    "@.len() + "\n        ::dolphine::tokio::runtime::Builder::new_current_thread()\n            .enable_all()\n            .build()\n            .unwrap()\n            .block_on(async {\n                "@.len();
    assert(bare.take(head.len() as int) =~= head);
    assert(async_block_text(has_params, return_type, body) =~= head + return_type + bare.subrange(
        head.len() as int,
        k as int,
    ) + body + bare.skip(k as int));
}

/// The single parameter the rewritten function takes.
pub fn input_parameter() -> (r: &'static str)
    ensures
        r@ == "input: String"@,
{
    "input: String"
}

/// The return type of the rewritten function.
pub fn wrapped_return_type() -> (r: &'static str)
    ensures
        r@ == "-> Result<String, ::dolphine::Report>"@,
{
    "-> Result<String, ::dolphine::Report>"
}

/// Whether every parameter has a name and a path type.
pub fn params_supported(ps: &Vec<FnParam>) -> (b: bool)
    ensures
        b == all_supported(ps@),
{
    let mut i: usize = 0;
    while i < ps.len()
        invariant
            i <= ps@.len(),
            forall|j: int| 0 <= j < i ==> #[trigger] ps@[j] is Named,
        decreases ps@.len() - i,
    {
        match &ps[i] {
            FnParam::Named { .. } => {},
            FnParam::Unsupported => {
                return false;
            },
        }
        i = i + 1;
    }
    true
}

/// The statement that reads the parameters back out of the JSON text.
pub fn binding_statement(ps: &Vec<FnParam>) -> (r: String)
    ensures
        r@ == binding_text(ps@),
{
    let mut names = String::new();
    let mut types = String::new();
    let mut i: usize = 0;
    while i < ps.len()
        invariant
            i <= ps@.len(),
            names@ == names_list(ps@.take(i as int)),
            types@ == types_list(ps@.take(i as int)),
        decreases ps@.len() - i,
    {
        assert(ps@.take(i + 1).drop_last() =~= ps@.take(i as int));
        match &ps[i] {
            FnParam::Named { name, type_head } => {
                names.append(name.as_str());
                types.append(type_head.as_str());
            },
            FnParam::Unsupported => {},
        }
        names.append(", ");
        types.append(", ");
        proof {
            reveal_strlit(", ");
        }
        i = i + 1;
    }
    assert(ps@.take(ps@.len() as int) =~= ps@);
    let mut r = String::from_str("let (");
    r.append(names.as_str());
    r.append(")");
    r.append(": (");
    r.append(types.as_str());
    r.append(") = ::dolphine::serde_json::from_str(&input)?;");
    r
}

/// Whether some parameter is named `input`.
pub fn has_input_param(ps: &Vec<FnParam>) -> (b: bool)
    ensures
        b == mentions_input(ps@),
{
    let input = String::from_str("input");
    let mut i: usize = 0;
    while i < ps.len()
        invariant
            i <= ps@.len(),
            input@ == "input"@,
            forall|j: int| 0 <= j < i ==> #[trigger] param_name(ps@[j]) != "input"@,
        decreases ps@.len() - i,
    {
        match &ps[i] {
            FnParam::Named { name, .. } => {
                if *name == input {
                    assert(param_name(ps@[i as int]) == "input"@);
                    return true;
                }
                assert(param_name(ps@[i as int]) != "input"@);
            },
            FnParam::Unsupported => {
                proof {
                    reveal_strlit("input");
                    assert("input"@.len() == 5);
                    assert(param_name(ps@[i as int]).len() == 0);
                }
            },
        }
        i = i + 1;
    }
    false
}

/// The statements to put before the body, in order.
pub fn prelude_statements(ps: &Vec<FnParam>) -> (r: Vec<String>)
    ensures
        r@.len() == prelude_texts(ps@).len(),
        forall|i: int| 0 <= i < r@.len() ==> #[trigger] r@[i]@ == prelude_texts(ps@)[i],
{
    let mut r: Vec<String> = Vec::new();
    r.push(binding_statement(ps));
    if !has_input_param(ps) {
        r.push(String::from_str("drop(input);"));
    }
    r
}

/// All but the first and last character (nothing where there are fewer than two).
fn without_ends(t: &Vec<char>) -> (r: Vec<char>)
    ensures
        r@ == (if t@.len() >= 2 {
            t@.subrange(1, t@.len() - 1)
        } else {
            seq![]
        }),
{
    let n = t.len();
    let mut inner: Vec<char> = Vec::new();
    if n < 2 {
        return inner;
    }
    let mut i: usize = 1;
    while i < n - 1
        invariant
            1 <= i <= n - 1,
            n == t@.len(),
            inner@ == t@.subrange(1, i as int),
        decreases n - 1 - i,
    {
        inner.push(t[i]);
        assert(t@.subrange(1, i + 1) =~= t@.subrange(1, i as int).push(t@[i as int]));
        i = i + 1;
    }
    inner
}

/// The body's text without its outer braces.
pub fn inner_body(block: &str) -> (r: String)
    ensures
        r@ == inner_body_text(block@),
{
    let v = chars_of(block);
    let t = trim_chars(&v);
    let inner = without_ends(&t);
    string_of(&inner)
}

/// The new body of a synchronous function with parameters.
pub fn sync_block(return_type: &str, body: &str) -> (r: String)
    ensures
        r@ == sync_block_text(return_type@, body@),
{
    let mut r = String::from_str("{");
    r.append("\n            let t = (|");
    r.append("input: String");
    r.append("| ");
    r.append(return_type);
    r.append("{\n        ");
    r.append(body);
    r.append("\n        })(");
    r.append("input");
    r.append(");\n        match t {\n            Ok(v) => {\n                let r = ::dolphine::serde_json::to_string(&v);\n                match r {\n                    Ok(s) => return Ok(s),\n                    Err(e) => return Err(Report::new(e)),\n                }\n            },\n            Err(e) => return Err(e),\n        };\n        ");
    r.append("}");
    r
}

/// The new body of an `async` function.
pub fn async_block(has_params: bool, return_type: &str, body: &str) -> (r: String)
    ensures
        r@ == async_block_text(has_params, return_type@, body@),
{
    let mut r = String::from_str("{");
    r.append("\n        let t = (|");
    if has_params {
        r.append("input: String");
    }
    r.append("| ");
    r.append(return_type);
    r.append("{\n    ");
    r.append("\n        ::dolphine::tokio::runtime::Builder::new_current_thread()\n            .enable_all()\n            .build()\n            .unwrap()\n            .block_on(async {\n                ");
    r.append(body);
    r.append("\n            })");
    r.append("\n        })(");
    if has_params {
        r.append("input");
    }
    r.append(");\n        match t {\n            Ok(v) => {\n                let r = ::dolphine::serde_json::to_string(&v);\n                match r {\n                    Ok(s) => return Ok(s),\n                    Err(e) => return Err(Report::new(e)),\n                }\n            },\n            Err(e) => return Err(e),\n        };\n    ");
    r.append("}");
    r
}

/// The two function attributes.
#[derive(Clone, Copy, Debug, PartialEq, Eq, Structural)]
pub enum AttributeKind {
    /// `#[function]`, for a synchronous function.
    Function,
    /// `#[async_function]`, for an `async` function.
    AsyncFunction,
}

/// Why an attribute rejects a function.
#[derive(Clone, Copy, Debug, PartialEq, Eq, Structural)]
pub enum Refusal {
    /// `#[function]` was put on an `async` function.
    AsyncUnderFunction,
    /// `#[async_function]` was put on a synchronous function.
    SyncUnderAsyncFunction,
    /// A parameter has no plain name or no path type.
    UnsupportedParameter,
}

/// What an attribute does with a function.
#[derive(Debug)]
pub enum Expansion {
    /// The function stays as it is.
    Unchanged,
    /// The function is rewritten: it takes the single JSON text, the
    /// statements `prelude` are put before its body in order, and the new
    /// body's closure takes the text where `has_params`.
    Rewrite { has_params: bool, prelude: Vec<String> },
    /// The function is rejected.
    Refused(Refusal),
}

/// The statements are the texts `texts`, in order.
pub open spec fn strings_are(v: Seq<String>, texts: Seq<Seq<char>>) -> bool {
    v.len() == texts.len() && forall|i: int| 0 <= i < v.len() ==> #[trigger] v[i]@ == texts[i]
}

/// The statements put before the body: none for a function without
/// parameters, else the binding and, where needed, the drop of the text.
pub open spec fn planned_prelude(ps: Seq<FnParam>) -> Seq<Seq<char>> {
    if ps.len() == 0 {
        seq![]
    } else {
        prelude_texts(ps)
    }
}

/// Whether an attribute rejects a function, and why: the attribute must
/// match the function's asyncness, and then every parameter must be
/// supported.
pub open spec fn refusal_of(kind: AttributeKind, is_async: bool, ps: Seq<FnParam>) -> Option<Refusal> {
    match kind {
        AttributeKind::Function => if is_async {
            Some(Refusal::AsyncUnderFunction)
        } else if ps.len() > 0 && !all_supported(ps) {
            Some(Refusal::UnsupportedParameter)
        } else {
            None
        },
        AttributeKind::AsyncFunction => if !is_async {
            Some(Refusal::SyncUnderAsyncFunction)
        } else if !all_supported(ps) {
            Some(Refusal::UnsupportedParameter)
        } else {
            None
        },
    }
}

/// What the attribute `kind` does with a function that is `async` where
/// `is_async` and has the parameters `ps`: it rejects it as `refusal_of`
/// says; otherwise `#[function]` leaves a function without parameters
/// unchanged, and rewrites any other function with the planned statements.
pub fn expansion_plan(kind: AttributeKind, is_async: bool, ps: &Vec<FnParam>) -> (r: Expansion)
    ensures
        match r {
            Expansion::Refused(why) => refusal_of(kind, is_async, ps@) == Some(why),
            Expansion::Unchanged => refusal_of(kind, is_async, ps@) is None && kind
                == AttributeKind::Function && ps@.len() == 0,
            Expansion::Rewrite { has_params, prelude } => {
                &&& refusal_of(kind, is_async, ps@) is None
                &&& !(kind == AttributeKind::Function && ps@.len() == 0)
                &&& has_params == (ps@.len() > 0)
                &&& strings_are(prelude@, planned_prelude(ps@))
            },
        },
{
    match kind {
        AttributeKind::Function => {
            if is_async {
                return Expansion::Refused(Refusal::AsyncUnderFunction);
            }
            if ps.len() == 0 {
                return Expansion::Unchanged;
            }
        },
        AttributeKind::AsyncFunction => {
            if !is_async {
                return Expansion::Refused(Refusal::SyncUnderAsyncFunction);
            }
        },
    }
    if !params_supported(ps) {
        return Expansion::Refused(Refusal::UnsupportedParameter);
    }
    if ps.len() == 0 {
        let prelude: Vec<String> = Vec::new();
        Expansion::Rewrite { has_params: false, prelude }
    } else {
        Expansion::Rewrite { has_params: true, prelude: prelude_statements(ps) }
    }
}

impl Refusal {
    /// The message the attribute stops compilation with (empty where it
    /// gives none).
    pub fn message(&self) -> (r: &'static str)
        ensures
            *self == Refusal::AsyncUnderFunction ==> r@
                == "Function macro cannot be used on synchronous function! Use 'async_function' instead!"@,
            *self == Refusal::SyncUnderAsyncFunction ==> r@
                == "async_function macro can only be used on synchronous functions! Use 'function' instead!"@,
            *self == Refusal::UnsupportedParameter ==> r@ == ""@,
    {
        match self {
            Refusal::AsyncUnderFunction => "Function macro cannot be used on synchronous function! Use 'async_function' instead!",
            Refusal::SyncUnderAsyncFunction => "async_function macro can only be used on synchronous functions! Use 'function' instead!",
            Refusal::UnsupportedParameter => "",
        }
    }
}

} // verus!
