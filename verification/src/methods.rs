//! The exported functions that the platform calls: updates, queries, and the
//! system methods.

use crate::model::{export_views, Export, ExportView};
use vstd::prelude::*;
use vstd::string::StrSliceExecFns;

verus! {

/// A method that the platform calls on its own account.
#[derive(Clone, Copy, Debug, PartialEq, Eq, Structural)]
pub enum SystemMethod {
    /// `canister_start`
    CanisterStart,
    /// `canister_init`
    CanisterInit,
    /// `canister_pre_upgrade`
    CanisterPreUpgrade,
    /// `canister_post_upgrade`
    CanisterPostUpgrade,
    /// `canister_inspect_message`
    CanisterInspectMessage,
    /// `canister_heartbeat`
    CanisterHeartbeat,
}

/// A method of a canister.
#[derive(Debug)]
pub enum WasmMethod {
    /// An update, exported as `canister_update <name>`.
    Update(String),
    /// A query, exported as `canister_query <name>`.
    Query(String),
    /// A system method, exported under its own name.
    System(SystemMethod),
}

pub enum WasmMethodView {
    Update(Seq<char>),
    Query(Seq<char>),
    System(SystemMethod),
}

impl View for WasmMethod {
    type V = WasmMethodView;

    open spec fn view(&self) -> WasmMethodView {
        match *self {
            WasmMethod::Update(name) => WasmMethodView::Update(name@),
            WasmMethod::Query(name) => WasmMethodView::Query(name@),
            WasmMethod::System(method) => WasmMethodView::System(method),
        }
    }
}

/// The system method with the given name.
pub open spec fn system_method_of(name: Seq<char>) -> Option<SystemMethod> {
    if name == "canister_start"@ {
        Some(SystemMethod::CanisterStart)
    } else if name == "canister_init"@ {
        Some(SystemMethod::CanisterInit)
    } else if name == "canister_pre_upgrade"@ {
        Some(SystemMethod::CanisterPreUpgrade)
    } else if name == "canister_post_upgrade"@ {
        Some(SystemMethod::CanisterPostUpgrade)
    } else if name == "canister_inspect_message"@ {
        Some(SystemMethod::CanisterInspectMessage)
    } else if name == "canister_heartbeat"@ {
        Some(SystemMethod::CanisterHeartbeat)
    } else {
        None
    }
}

/// `name` without the first `prefix.len()` characters.
pub open spec fn behind(prefix: Seq<char>, name: Seq<char>) -> Seq<char> {
    name.subrange(prefix.len() as int, name.len() as int)
}

/// The method that an export of the given name stands for.
pub open spec fn method_of(name: Seq<char>) -> Option<WasmMethodView> {
    if "canister_update "@.is_prefix_of(name) {
        Some(WasmMethodView::Update(behind("canister_update "@, name)))
    } else if "canister_query "@.is_prefix_of(name) {
        Some(WasmMethodView::Query(behind("canister_query "@, name)))
    } else {
        match system_method_of(name) {
            Some(method) => Some(WasmMethodView::System(method)),
            None => None,
        }
    }
}

/// Whether `text` starts with `prefix`.
pub fn starts_with(text: &str, prefix: &str) -> (res: bool)
    ensures
        res == prefix@.is_prefix_of(text@),
{
    let len = prefix.unicode_len();
    if text.unicode_len() < len {
        return false;
    }
    let mut i: usize = 0;
    while i < len
        invariant
            i <= len,
            len == prefix@.len(),
            len <= text@.len(),
            forall|k: int| 0 <= k < i ==> prefix@[k] == text@[k],
        decreases len - i,
    {
        if prefix.get_char(i) != text.get_char(i) {
            assert(prefix@[i as int] != text@.subrange(0, len as int)[i as int]);
            return false;
        }
        i += 1;
    }
    assert(prefix@ =~= text@.subrange(0, len as int));
    true
}

/// Whether two texts are the same.
pub fn same_text(a: &str, b: &str) -> (res: bool)
    ensures
        res == (a@ == b@),
{
    if a.unicode_len() != b.unicode_len() {
        return false;
    }
    let same = starts_with(a, b);
    proof {
        if same {
            assert(a@.subrange(0, b@.len() as int) =~= a@);
        }
    }
    same
}

fn text_behind(prefix: &str, name: &str) -> (res: String)
    requires
        prefix@.is_prefix_of(name@),
    ensures
        res@ == behind(prefix@, name@),
{
    name.substring_char(prefix.unicode_len(), name.unicode_len()).to_owned()
}

impl SystemMethod {
    /// The system method with the given name.
    pub fn parse(name: &str) -> (res: Option<SystemMethod>)
        ensures
            res == system_method_of(name@),
    {
        if same_text(name, "canister_start") {
            Some(SystemMethod::CanisterStart)
        } else if same_text(name, "canister_init") {
            Some(SystemMethod::CanisterInit)
        } else if same_text(name, "canister_pre_upgrade") {
            Some(SystemMethod::CanisterPreUpgrade)
        } else if same_text(name, "canister_post_upgrade") {
            Some(SystemMethod::CanisterPostUpgrade)
        } else if same_text(name, "canister_inspect_message") {
            Some(SystemMethod::CanisterInspectMessage)
        } else if same_text(name, "canister_heartbeat") {
            Some(SystemMethod::CanisterHeartbeat)
        } else {
            None
        }
    }
}

impl WasmMethod {
    /// The method that an export of the given name stands for, if it stands
    /// for one.
    pub fn parse(name: &str) -> (res: Option<WasmMethod>)
        ensures
            res is Some <==> method_of(name@) is Some,
            res matches Some(method) ==> Some(method@) == method_of(name@),
    {
        if starts_with(name, "canister_update ") {
            Some(WasmMethod::Update(text_behind("canister_update ", name)))
        } else if starts_with(name, "canister_query ") {
            Some(WasmMethod::Query(text_behind("canister_query ", name)))
        } else {
            match SystemMethod::parse(name) {
                Some(method) => Some(WasmMethod::System(method)),
                None => None,
            }
        }
    }

    /// Whether two methods are the same.
    pub fn same(&self, other: &WasmMethod) -> (res: bool)
        ensures
            res == (self@ == other@),
    {
        match (self, other) {
            (WasmMethod::Update(a), WasmMethod::Update(b)) => *a == *b,
            (WasmMethod::Query(a), WasmMethod::Query(b)) => *a == *b,
            (WasmMethod::System(a), WasmMethod::System(b)) => *a == *b,
            _ => false,
        }
    }
}

pub open spec fn method_views(methods: Seq<WasmMethod>) -> Seq<WasmMethodView> {
    Seq::new(methods.len(), |i: int| methods[i]@)
}

/// The methods that the first `n` exports stand for, each once, in the order
/// in which they are exported first.
pub open spec fn exported_methods(exports: Seq<ExportView>, n: int) -> Seq<WasmMethodView>
    decreases n,
{
    if n <= 0 {
        Seq::empty()
    } else {
        let before = exported_methods(exports, n - 1);
        match method_of(exports[n - 1].name) {
            Some(method) => if before.contains(method) {
                before
            } else {
                before.push(method)
            },
            None => before,
        }
    }
}

fn holds_method(methods: &Vec<WasmMethod>, method: &WasmMethod) -> (res: bool)
    ensures
        res == method_views(methods@).contains(method@),
{
    let mut i: usize = 0;
    while i < methods.len()
        invariant
            i <= methods.len(),
            forall|k: int| 0 <= k < i ==> method_views(methods@)[k] != method@,
        decreases methods.len() - i,
    {
        if methods[i].same(method) {
            assert(method_views(methods@)[i as int] == method@);
            return true;
        }
        i += 1;
    }
    false
}

/// No method is listed twice, and a method is listed exactly if one of
/// the first `n` exports stands for it.
pub proof fn lemma_exported_methods_are_a_set(exports: Seq<ExportView>, n: int)
    requires
        0 <= n <= exports.len(),
    ensures
        exported_methods(exports, n).no_duplicates(),
        forall|method: WasmMethodView|
            exported_methods(exports, n).contains(method) <==> exists|i: int|
                0 <= i < n && method_of((#[trigger] exports[i]).name) == Some(method),
    decreases n,
{
    if n > 0 {
        lemma_exported_methods_are_a_set(exports, n - 1);
        let before = exported_methods(exports, n - 1);
        let after = exported_methods(exports, n);
        assert forall|method: WasmMethodView| after.contains(method) <==> exists|i: int|
            0 <= i < n && method_of((#[trigger] exports[i]).name) == Some(method) by {
            if after.contains(method) {
                let k = choose|k: int| 0 <= k < after.len() && after[k] == method;
                if k < before.len() {
                    assert(before[k] == method);
                    assert(before.contains(method));
                    let i = choose|i: int|
                        0 <= i < n - 1 && method_of((#[trigger] exports[i]).name) == Some(method);
                    assert(0 <= i < n);
                } else {
                    assert(method_of(exports[n - 1].name) == Some(method));
                }
            }
            if exists|i: int| 0 <= i < n && method_of((#[trigger] exports[i]).name) == Some(method) {
                let i = choose|i: int|
                    0 <= i < n && method_of((#[trigger] exports[i]).name) == Some(method);
                if i < n - 1 {
                    assert(before.contains(method));
                    let k = choose|k: int| 0 <= k < before.len() && before[k] == method;
                    assert(after[k] == method);
                } else if before.contains(method) {
                    let k = choose|k: int| 0 <= k < before.len() && before[k] == method;
                    assert(after[k] == method);
                } else {
                    assert(after[after.len() - 1] == method);
                }
            }
        }
    }
}

/// Collects the methods that the exports stand for, each once. An export
/// under another name is not reported.
pub fn collect_methods(exports: &Vec<Export>) -> (res: Vec<WasmMethod>)
    ensures
        method_views(res@) == exported_methods(export_views(exports@), exports.len() as int),
        method_views(res@).no_duplicates(),
{
    proof {
        lemma_exported_methods_are_a_set(export_views(exports@), exports.len() as int);
    }
    let mut out: Vec<WasmMethod> = Vec::new();
    let mut i: usize = 0;
    while i < exports.len()
        invariant
            i <= exports.len(),
            method_views(out@) == exported_methods(export_views(exports@), i as int),
        decreases exports.len() - i,
    {
        assert(export_views(exports@)[i as int].name == exports@[i as int].name@);
        match WasmMethod::parse(exports[i].name.as_str()) {
            Some(method) => {
                if !holds_method(&out, &method) {
                    let ghost before = out@;
                    out.push(method);
                    assert(method_views(out@) =~= method_views(before).push(method@));
                }
            },
            None => {},
        }
        i += 1;
    }
    out
}

} // verus!
