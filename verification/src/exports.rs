//! What the instrumentation does to the export section, and to the indices
//! that refer to functions.

use crate::model::{export_views, Export, ExportKind, ExportView};
use vstd::prelude::*;
use vstd::string::StringExecFns;

verus! {

/// The number of functions that are imported in front of all others.
pub const INJECTED_IMPORTS: u32 = 2;

/// A function index behind the injected imports. Indices are 32-bit numbers:
/// the sum is taken modulo 2^32.
pub open spec fn shifted(index: u32) -> u32 {
    ((index + 2) % 0x1_0000_0000) as u32
}

pub open spec fn shifted_indices(indices: Seq<u32>) -> Seq<u32> {
    Seq::new(indices.len(), |i: int| shifted(indices[i]))
}

/// An export after the injection of the imports: it refers to the same
/// function as before.
pub open spec fn shifted_export(export: ExportView) -> ExportView {
    if export.kind == ExportKind::Function {
        ExportView { index: shifted(export.index), ..export }
    } else {
        export
    }
}

pub open spec fn shifted_exports(exports: Seq<ExportView>) -> Seq<ExportView> {
    Seq::new(exports.len(), |i: int| shifted_export(exports[i]))
}

/// An export under the canonical name of its kind.
pub open spec fn renamed(export: ExportView, kind: ExportKind, name: Seq<char>) -> ExportView {
    if export.kind == kind {
        ExportView { name, ..export }
    } else {
        export
    }
}

pub open spec fn exports_kind(exports: Seq<ExportView>, kind: ExportKind) -> bool {
    exists|i: int| 0 <= i < exports.len() && (#[trigger] exports[i]).kind == kind
}

/// The exports once the first memory, or the first table, is exported under
/// its canonical name: every export of that kind gets the name; where there
/// is none and the module has something of that kind, an export of the first
/// one is added.
pub open spec fn with_canonical_export(
    exports: Seq<ExportView>,
    kind: ExportKind,
    name: Seq<char>,
    present: bool,
) -> Seq<ExportView> {
    let all = Seq::new(exports.len(), |i: int| renamed(exports[i], kind, name));
    if exports_kind(exports, kind) || !present {
        all
    } else {
        all.push(ExportView { name, kind, index: 0 })
    }
}

/// The function index shifted behind the injected imports.
pub fn shift_index(index: u32) -> (res: u32)
    ensures
        res == shifted(index),
{
    index.wrapping_add(INJECTED_IMPORTS)
}

/// Shifts every function index of a list.
pub fn shift_indices(indices: &Vec<u32>) -> (res: Vec<u32>)
    ensures
        res@ == shifted_indices(indices@),
{
    let mut out: Vec<u32> = Vec::new();
    let mut i: usize = 0;
    while i < indices.len()
        invariant
            i <= indices.len(),
            out@ == shifted_indices(indices@).take(i as int),
        decreases indices.len() - i,
    {
        out.push(shift_index(indices[i]));
        assert(out@ =~= shifted_indices(indices@).take(i + 1));
        i += 1;
    }
    assert(shifted_indices(indices@).take(indices.len() as int) =~= shifted_indices(indices@));
    out
}

/// Shifts the index of every export of a function.
pub fn shift_exports(exports: &Vec<Export>) -> (res: Vec<Export>)
    ensures
        export_views(res@) == shifted_exports(export_views(exports@)),
{
    let mut out: Vec<Export> = Vec::new();
    let mut i: usize = 0;
    while i < exports.len()
        invariant
            i <= exports.len(),
            out@.len() == i,
            export_views(out@) == shifted_exports(export_views(exports@)).take(i as int),
        decreases exports.len() - i,
    {
        let index = match exports[i].kind {
            ExportKind::Function => shift_index(exports[i].index),
            _ => exports[i].index,
        };
        let ghost before = out@;
        out.push(Export { name: exports[i].name.clone(), kind: exports[i].kind, index });
        assert forall|k: int| 0 <= k <= i implies export_views(out@)[k] == shifted_exports(
            export_views(exports@),
        )[k] by {
            if k < i {
                assert(export_views(before)[k] == shifted_exports(export_views(exports@)).take(
                    i as int,
                )[k]);
                assert(out@[k] == before[k]);
            } else {
                assert(export_views(exports@)[k] == exports@[k]@);
            }
        }
        assert(export_views(out@) =~= shifted_exports(export_views(exports@)).take(i + 1));
        i += 1;
    }
    assert(shifted_exports(export_views(exports@)).take(exports.len() as int)
        =~= shifted_exports(export_views(exports@)));
    out
}

/// Gives every export of `kind` the name `name`, and says whether there is
/// one.
pub fn rename_exports(exports: &Vec<Export>, kind: ExportKind, name: &str) -> (res: (
    Vec<Export>,
    bool,
))
    ensures
        export_views(res.0@) == Seq::new(
            exports@.len(),
            |i: int| renamed(export_views(exports@)[i], kind, name@),
        ),
        res.1 == exports_kind(export_views(exports@), kind),
{
    let ghost all = Seq::new(exports@.len(), |i: int| renamed(export_views(exports@)[i], kind, name@));
    let mut out: Vec<Export> = Vec::new();
    let mut found = false;
    let mut i: usize = 0;
    while i < exports.len()
        invariant
            i <= exports.len(),
            all == Seq::new(exports@.len(), |i: int| renamed(export_views(exports@)[i], kind, name@)),
            out@.len() == i,
            export_views(out@) == all.take(i as int),
            found == exports_kind(export_views(exports@).take(i as int), kind),
        decreases exports.len() - i,
    {
        let ghost before = export_views(exports@).take(i as int);
        let ghost after = export_views(exports@).take(i + 1);
        let same = exports[i].kind == kind;
        let export_name = if same {
            name.to_owned()
        } else {
            exports[i].name.clone()
        };
        let ghost before_out = out@;
        out.push(Export { name: export_name, kind: exports[i].kind, index: exports[i].index });
        proof {
            assert forall|k: int| 0 <= k <= i implies export_views(out@)[k] == all[k] by {
                if k < i {
                    assert(export_views(before_out)[k] == all.take(i as int)[k]);
                    assert(out@[k] == before_out[k]);
                } else {
                    assert(export_views(exports@)[k] == exports@[k]@);
                }
            }
            assert(export_views(out@) =~= all.take(i + 1));
            if exports_kind(before, kind) {
                let k = choose|k: int| 0 <= k < before.len() && (#[trigger] before[k]).kind == kind;
                assert(after[k].kind == kind);
            }
            if same {
                assert(after[i as int].kind == kind);
            }
            if exports_kind(after, kind) && !same {
                let k = choose|k: int| 0 <= k < after.len() && (#[trigger] after[k]).kind == kind;
                assert(before[k].kind == kind);
            }
        }
        found = found || same;
        i += 1;
    }
    assert(all.take(exports.len() as int) =~= all);
    assert(export_views(exports@).take(exports.len() as int) =~= export_views(exports@));
    (out, found)
}

/// The character that stands for a digit.
pub open spec fn digit_text(digit: int) -> Seq<char> {
    if digit == 0 {
        "0"@
    } else if digit == 1 {
        "1"@
    } else if digit == 2 {
        "2"@
    } else if digit == 3 {
        "3"@
    } else if digit == 4 {
        "4"@
    } else if digit == 5 {
        "5"@
    } else if digit == 6 {
        "6"@
    } else if digit == 7 {
        "7"@
    } else if digit == 8 {
        "8"@
    } else {
        "9"@
    }
}

/// A number in decimal notation.
pub open spec fn decimal_text(n: nat) -> Seq<char>
    decreases n,
{
    if n < 10 {
        digit_text(n as int)
    } else {
        decimal_text(n / 10) + digit_text((n % 10) as int)
    }
}

fn digit(d: usize) -> (res: &'static str)
    requires
        d < 10,
    ensures
        res@ == digit_text(d as int),
{
    if d == 0 {
        "0"
    } else if d == 1 {
        "1"
    } else if d == 2 {
        "2"
    } else if d == 3 {
        "3"
    } else if d == 4 {
        "4"
    } else if d == 5 {
        "5"
    } else if d == 6 {
        "6"
    } else if d == 7 {
        "7"
    } else if d == 8 {
        "8"
    } else {
        "9"
    }
}

/// Writes a number in decimal notation.
pub fn decimal(n: usize) -> (res: String)
    ensures
        res@ == decimal_text(n as nat),
    decreases n,
{
    if n < 10 {
        digit(n).to_owned()
    } else {
        let mut text = decimal(n / 10);
        text.append(digit(n % 10));
        text
    }
}

/// The name under which the mutable global with the given number is
/// exported, so that it is kept from one execution to the next.
pub open spec fn persistent_name(index: nat) -> Seq<char> {
    "__persistent_mutable_global_"@ + decimal_text(index)
}

/// An export refers to the global with the given number.
pub open spec fn global_exported(exports: Seq<ExportView>, index: int) -> bool {
    exists|i: int|
        0 <= i < exports.len() && (#[trigger] exports[i]).kind == ExportKind::Global
            && exports[i].index == index
}

/// The exports to add for the first `n` globals: one for every global that
/// is mutable and that no export refers to.
pub open spec fn persistent_exports(globals: Seq<bool>, exports: Seq<ExportView>, n: int) -> Seq<
    ExportView,
>
    decreases n,
{
    if n <= 0 {
        Seq::empty()
    } else if globals[n - 1] && !global_exported(exports, n - 1) {
        persistent_exports(globals, exports, n - 1).push(
            ExportView {
                name: persistent_name((n - 1) as nat),
                kind: ExportKind::Global,
                index: (n - 1) as u32,
            },
        )
    } else {
        persistent_exports(globals, exports, n - 1)
    }
}

/// Which of `count` globals an export refers to.
fn exported_globals(exports: &Vec<Export>, count: usize) -> (res: Vec<bool>)
    ensures
        res@.len() == count,
        forall|g: int| 0 <= g < count ==> res@[g] == global_exported(export_views(exports@), g),
{
    let mut flags: Vec<bool> = Vec::new();
    let mut g: usize = 0;
    while g < count
        invariant
            g <= count,
            flags@.len() == g,
            forall|k: int| 0 <= k < g ==> !flags@[k],
        decreases count - g,
    {
        flags.push(false);
        g += 1;
    }
    let ghost views = export_views(exports@);
    let mut i: usize = 0;
    while i < exports.len()
        invariant
            i <= exports.len(),
            flags@.len() == count,
            views == export_views(exports@),
            forall|g: int| 0 <= g < count ==> flags@[g] == global_exported(views.take(i as int), g),
        decreases exports.len() - i,
    {
        let ghost before = views.take(i as int);
        let ghost after = views.take(i + 1);
        let hit = match exports[i].kind {
            ExportKind::Global => (exports[i].index as usize) < count,
            _ => false,
        };
        if hit {
            flags[exports[i].index as usize] = true;
        }
        proof {
            assert forall|g: int| 0 <= g < count implies flags@[g] == global_exported(after, g) by {
                if global_exported(before, g) {
                    let k = choose|k: int|
                        0 <= k < before.len() && (#[trigger] before[k]).kind == ExportKind::Global
                            && before[k].index == g;
                    assert(after[k].kind == ExportKind::Global && after[k].index == g);
                }
                if global_exported(after, g) && !global_exported(before, g) {
                    let k = choose|k: int|
                        0 <= k < after.len() && (#[trigger] after[k]).kind == ExportKind::Global
                            && after[k].index == g;
                    if k < i {
                        assert(before[k].kind == ExportKind::Global && before[k].index == g);
                    }
                }
                if hit && g == exports[i as int].index {
                    assert(after[i as int].kind == ExportKind::Global && after[i as int].index
                        == g);
                }
            }
        }
        i += 1;
    }
    assert(views.take(exports.len() as int) =~= views);
    flags
}

/// The exports to add so that every mutable global is exported: one for
/// every global that is mutable and that no export refers to yet, in the
/// order of the globals. `globals` says of each global whether it is
/// mutable.
pub fn mutable_global_exports(globals: &Vec<bool>, exports: &Vec<Export>) -> (res: Vec<Export>)
    ensures
        export_views(res@) == persistent_exports(
            globals@,
            export_views(exports@),
            globals.len() as int,
        ),
{
    let exported = exported_globals(exports, globals.len());
    let mut out: Vec<Export> = Vec::new();
    let mut g: usize = 0;
    while g < globals.len()
        invariant
            g <= globals.len(),
            exported@.len() == globals.len(),
            forall|k: int|
                0 <= k < globals.len() ==> exported@[k] == global_exported(
                    export_views(exports@),
                    k,
                ),
            export_views(out@) == persistent_exports(globals@, export_views(exports@), g as int),
        decreases globals.len() - g,
    {
        if globals[g] && !exported[g] {
            let mut name = "__persistent_mutable_global_".to_owned();
            name.append(decimal(g).as_str());
            out.push(Export { name, kind: ExportKind::Global, index: #[verifier::truncate] (g as u32) });
            assert(export_views(out@) =~= persistent_exports(
                globals@,
                export_views(exports@),
                g + 1,
            ));
        }
        g += 1;
    }
    out
}

} // verus!
