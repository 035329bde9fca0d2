//! The reference tables of script symbols and of z-indices of visual
//! elements: their entries, their order, and their text.
use vstd::prelude::*;
use crate::script::text::{
    compare_text, int_text, i64_to_text, lemma_text_order_antisym, lemma_text_order_trans, pad_left, pad_right,
    push_padded_left, push_padded_right, push_repeated, repeated, str_chars, text_order,
};

verus! {

broadcast use vstd::seq_lib::group_to_multiset_ensures;

/// The role of a script symbol.
#[derive(Clone, Copy, Debug, PartialEq, Eq, PartialOrd, Ord, Structural)]
pub enum ScriptSymCategory {
    /// A global table or a constructible type.
    Type,
    /// A table field or a global setting.
    Member,
    /// A callable method.
    Function,
}

/// The position of a category in the order type, member, function.
pub open spec fn category_rank(c: ScriptSymCategory) -> int {
    match c {
        ScriptSymCategory::Type => 0,
        ScriptSymCategory::Member => 1,
        ScriptSymCategory::Function => 2,
    }
}

/// The label of a category.
pub open spec fn category_label(c: ScriptSymCategory) -> Seq<char> {
    match c {
        ScriptSymCategory::Type => "type"@,
        ScriptSymCategory::Member => "member"@,
        ScriptSymCategory::Function => "function"@,
    }
}

impl ScriptSymCategory {
    /// The label of the category: `type`, `member` or `function`.
    pub fn label(self) -> (r: &'static str)
        ensures
            r@ == category_label(self),
    {
        match self {
            ScriptSymCategory::Type => "type",
            ScriptSymCategory::Member => "member",
            ScriptSymCategory::Function => "function",
        }
    }
}

/// One registered script symbol.
#[derive(Clone, Copy, Debug)]
pub struct ScriptSymEntry {
    /// The name of the constant that holds the symbol.
    pub const_name: &'static str,
    /// The key the script uses.
    pub value: &'static str,
    pub category: ScriptSymCategory,
    pub description: &'static str,
    /// The module that registered it.
    pub module: &'static str,
}

/// How two symbols are ordered: by module, then by category, then by key.
pub open spec fn sym_order(x: ScriptSymEntry, y: ScriptSymEntry) -> int {
    if text_order(x.module@, y.module@) != 0 {
        text_order(x.module@, y.module@)
    } else if category_rank(x.category) < category_rank(y.category) {
        -1
    } else if category_rank(x.category) > category_rank(y.category) {
        1
    } else {
        text_order(x.value@, y.value@)
    }
}

/// Whether every symbol of `s` comes no later than the next one.
pub open spec fn syms_sorted(s: Seq<ScriptSymEntry>) -> bool {
    forall|i: int| 0 <= i < s.len() - 1 ==> sym_order(#[trigger] s[i], s[i + 1]) <= 0
}

proof fn lemma_sym_order_antisym(x: ScriptSymEntry, y: ScriptSymEntry)
    ensures
        sym_order(y, x) == -sym_order(x, y),
{
    lemma_text_order_antisym(x.module@, y.module@);
    lemma_text_order_antisym(x.value@, y.value@);
}

proof fn lemma_sym_order_trans(x: ScriptSymEntry, y: ScriptSymEntry, z: ScriptSymEntry)
    requires
        sym_order(x, y) <= 0,
        sym_order(y, z) <= 0,
    ensures
        sym_order(x, z) <= 0,
        sym_order(x, y) < 0 ==> sym_order(x, z) < 0,
        sym_order(y, z) < 0 ==> sym_order(x, z) < 0,
{
    lemma_text_order_antisym(x.module@, y.module@);
    lemma_text_order_antisym(y.module@, z.module@);
    lemma_text_order_antisym(x.module@, z.module@);
    lemma_text_order_antisym(x.value@, y.value@);
    lemma_text_order_antisym(y.value@, z.value@);
    lemma_text_order_antisym(x.value@, z.value@);
    if text_order(x.module@, y.module@) <= 0 && text_order(y.module@, z.module@) <= 0 {
        lemma_text_order_trans(x.module@, y.module@, z.module@);
    }
    if text_order(x.value@, y.value@) <= 0 && text_order(y.value@, z.value@) <= 0 {
        lemma_text_order_trans(x.value@, y.value@, z.value@);
    }
}

/// The symbols of `s` that tie with `x` in the reference order (the same
/// module, category and key), in their order in `s`.
pub open spec fn sym_ties(s: Seq<ScriptSymEntry>, x: ScriptSymEntry) -> Seq<ScriptSymEntry> {
    s.filter(|y: ScriptSymEntry| sym_order(y, x) == 0)
}

proof fn lemma_sym_ties_push(s: Seq<ScriptSymEntry>, e: ScriptSymEntry, x: ScriptSymEntry)
    ensures
        sym_ties(s.push(e), x) == if sym_order(e, x) == 0 {
            sym_ties(s, x).push(e)
        } else {
            sym_ties(s, x)
        },
{
    reveal(Seq::filter);
    assert(s.push(e).drop_last() =~= s);
}

proof fn lemma_sym_ties_add(a: Seq<ScriptSymEntry>, b: Seq<ScriptSymEntry>, x: ScriptSymEntry)
    ensures
        sym_ties(a + b, x) == sym_ties(a, x) + sym_ties(b, x),
    decreases b.len(),
{
    if b.len() == 0 {
        assert(a + b =~= a);
        reveal(Seq::filter);
        assert(sym_ties(a, x) + sym_ties(b, x) =~= sym_ties(a, x));
    } else {
        lemma_sym_ties_add(a, b.drop_last(), x);
        assert(a + b =~= (a + b.drop_last()).push(b.last()));
        assert(b =~= b.drop_last().push(b.last()));
        lemma_sym_ties_push(a + b.drop_last(), b.last(), x);
        lemma_sym_ties_push(b.drop_last(), b.last(), x);
        if sym_order(b.last(), x) == 0 {
            assert(sym_ties(a, x) + sym_ties(b.drop_last(), x).push(b.last()) =~= (sym_ties(a, x) + sym_ties(
                b.drop_last(),
                x,
            )).push(b.last()));
        }
    }
}

proof fn lemma_sym_ties_none(s: Seq<ScriptSymEntry>, x: ScriptSymEntry)
    requires
        forall|i: int| 0 <= i < s.len() ==> sym_order(#[trigger] s[i], x) != 0,
    ensures
        sym_ties(s, x) =~= Seq::<ScriptSymEntry>::empty(),
    decreases s.len(),
{
    reveal(Seq::filter);
    if s.len() > 0 {
        lemma_sym_ties_none(s.drop_last(), x);
        assert(sym_order(s[s.len() - 1], x) != 0);
    }
}

/// Inserting `e` before every symbol it comes strictly before keeps the
/// symbols that tie with any `x` in their order, `e` last among them.
proof fn lemma_sym_ties_insert(before: Seq<ScriptSymEntry>, p: int, e: ScriptSymEntry, x: ScriptSymEntry)
    requires
        0 <= p <= before.len(),
        forall|j: int| p <= j < before.len() ==> sym_order(e, #[trigger] before[j]) < 0,
    ensures
        sym_ties(before.insert(p, e), x) == if sym_order(e, x) == 0 {
            sym_ties(before, x).push(e)
        } else {
            sym_ties(before, x)
        },
{
    let a = before.take(p);
    let b = before.skip(p);
    assert(before.insert(p, e) =~= a.push(e) + b);
    assert(before =~= a + b);
    lemma_sym_ties_add(a.push(e), b, x);
    lemma_sym_ties_add(a, b, x);
    lemma_sym_ties_push(a, e, x);
    if sym_order(e, x) == 0 {
        assert forall|i: int| 0 <= i < b.len() implies sym_order(#[trigger] b[i], x) != 0 by {
            assert(b[i] == before[p + i]);
            lemma_text_order_antisym(e.module@, b[i].module@);
            lemma_text_order_antisym(e.value@, b[i].value@);
            lemma_text_order_antisym(b[i].module@, x.module@);
            lemma_text_order_antisym(b[i].value@, x.value@);
            lemma_text_order_antisym(e.module@, x.module@);
            lemma_text_order_antisym(e.value@, x.value@);
        }
        lemma_sym_ties_none(b, x);
        assert(sym_ties(a, x).push(e) + sym_ties(b, x) =~= sym_ties(a, x).push(e));
        assert(sym_ties(a, x) + sym_ties(b, x) =~= sym_ties(a, x));
    }
}

/// Whether `e` comes strictly before `f`.
fn sym_before(e: &ScriptSymEntry, f: &ScriptSymEntry) -> (r: bool)
    ensures
        r == (sym_order(*e, *f) < 0),
{
    let m = compare_text(&str_chars(e.module), &str_chars(f.module));
    if m != 0 {
        return m < 0;
    }
    let re: u8 = match e.category {
        ScriptSymCategory::Type => 0,
        ScriptSymCategory::Member => 1,
        ScriptSymCategory::Function => 2,
    };
    let rf: u8 = match f.category {
        ScriptSymCategory::Type => 0,
        ScriptSymCategory::Member => 1,
        ScriptSymCategory::Function => 2,
    };
    if re != rf {
        return re < rf;
    }
    compare_text(&str_chars(e.value), &str_chars(f.value)) < 0
}

/// The symbols in reference order: by module, then by category, then by
/// key.
pub fn sort_script_syms(entries: &Vec<ScriptSymEntry>) -> (r: Vec<ScriptSymEntry>)
    ensures
        r@.to_multiset() == entries@.to_multiset(),
        syms_sorted(r@),
        forall|x: ScriptSymEntry| #[trigger] sym_ties(r@, x) == sym_ties(entries@, x),
{
    let mut out: Vec<ScriptSymEntry> = Vec::new();
    let mut k: usize = 0;
    while k < entries.len()
        invariant
            k <= entries.len(),
            out@.to_multiset() == entries@.take(k as int).to_multiset(),
            forall|i: int, j: int| 0 <= i < j < out@.len() ==> sym_order(#[trigger] out@[i], #[trigger] out@[j]) <= 0,
            forall|x: ScriptSymEntry| #[trigger] sym_ties(out@, x) == sym_ties(entries@.take(k as int), x),
        decreases entries.len() - k,
    {
        let e = entries[k];
        let mut p: usize = 0;
        while p < out.len() && !sym_before(&e, &out[p])
            invariant
                p <= out.len(),
                forall|j: int| 0 <= j < p ==> sym_order(e, #[trigger] out@[j]) >= 0,
            decreases out.len() - p,
        {
            p = p + 1;
        }
        let ghost before = out@;
        proof {
            assert forall|j: int| p <= j < before.len() implies sym_order(e, #[trigger] before[j]) < 0 by {
                if j > p {
                    assert(sym_order(before[p as int], before[j]) <= 0);
                    lemma_sym_order_trans(e, before[p as int], before[j]);
                }
            }
        }
        out.insert(p, e);
        proof {
            assert(out@ == before.insert(p as int, e));
            vstd::seq_lib::to_multiset_insert(before, p as int, e);
            assert(entries@.take(k + 1) =~= entries@.take(k as int).push(e));
            assert forall|x: ScriptSymEntry| #[trigger] sym_ties(out@, x) == sym_ties(entries@.take(k + 1), x) by {
                lemma_sym_ties_insert(before, p as int, e, x);
                lemma_sym_ties_push(entries@.take(k as int), e, x);
            }
            assert forall|i: int, j: int| 0 <= i < j < out@.len() implies sym_order(
                #[trigger] out@[i],
                #[trigger] out@[j],
            ) <= 0 by {
                if j < p {
                    assert(out@[i] == before[i] && out@[j] == before[j]);
                } else if j == p {
                    assert(out@[i] == before[i]);
                    lemma_sym_order_antisym(e, before[i]);
                } else if i < p {
                    assert(out@[i] == before[i] && out@[j] == before[j - 1]);
                    lemma_sym_order_antisym(e, before[i]);
                    lemma_sym_order_trans(before[i], e, before[j - 1]);
                } else if i == p {
                    assert(out@[j] == before[j - 1]);
                } else {
                    assert(out@[i] == before[i - 1] && out@[j] == before[j - 1]);
                }
            }
        }
        k = k + 1;
    }
    assert(entries@.take(entries.len() as int) =~= entries@);
    assert forall|i: int| 0 <= i < out@.len() - 1 implies sym_order(#[trigger] out@[i], out@[i + 1]) <= 0 by {
        assert(sym_order(out@[i], out@[i + 1]) <= 0);
    }
    out
}

/// The line of one symbol.
pub open spec fn sym_line(e: ScriptSymEntry) -> Seq<char> {
    "  "@ + pad_right(category_label(e.category), 8) + " "@ + pad_right(e.const_name@, 18)
        + " → "@ + pad_right(e.value@, 18) + "  # "@ + e.description@ + "\n"@
}

/// The heading of the group of symbols of `module`.
pub open spec fn sym_group_heading(module: Seq<char>) -> Seq<char> {
    "## "@ + module + "\n"@ + "  "@ + pad_right("分类"@, 8) + " "@ + pad_right("常量名"@, 18) + " → "@
        + pad_right("脚本键"@, 18) + "  # "@ + "说明"@ + "\n"@ + "  "@ + repeated('─', 72) + "\n"@
}

/// The module of the group that the symbol at `i` follows: that of the
/// symbol before it, or none at the start.
pub open spec fn sym_current_module(es: Seq<ScriptSymEntry>, i: int) -> Seq<char> {
    if i == 0 { ""@ } else { es[i - 1].module@ }
}

/// The text of the symbol at `i`: a new group opens (after a blank line,
/// unless it is the first) where the module changes.
pub open spec fn sym_block(es: Seq<ScriptSymEntry>, i: int) -> Seq<char> {
    let cur = sym_current_module(es, i);
    if es[i].module@ != cur {
        (if cur.len() > 0 { "\n"@ } else { ""@ }) + sym_group_heading(es[i].module@) + sym_line(es[i])
    } else {
        sym_line(es[i])
    }
}

/// The text of the first `n` symbols.
pub open spec fn sym_body(es: Seq<ScriptSymEntry>, n: nat) -> Seq<char>
    decreases n,
{
    if n == 0 || n > es.len() {
        Seq::empty()
    } else {
        sym_body(es, (n - 1) as nat) + sym_block(es, n - 1)
    }
}

/// The reference text of symbols listed in the order `es`.
pub open spec fn sym_reference_text(es: Seq<ScriptSymEntry>) -> Seq<char> {
    "# 脚本 API 符号参考（由 script_sym! 宏登记，启动时自动生成）\n"@ + "# 格式: [分类] 常量名 → 脚本键    # 说明\n"@
        + "\n"@ + sym_body(es, es.len()) + "\n"@
}

fn push_sym_line(out: &mut String, e: &ScriptSymEntry)
    ensures
        final(out)@ == old(out)@ + sym_line(*e),
{
    out.append("  ");
    push_padded_right(out, e.category.label(), 8);
    out.append(" ");
    push_padded_right(out, e.const_name, 18);
    out.append(" → ");
    push_padded_right(out, e.value, 18);
    out.append("  # ");
    out.append(e.description);
    out.append("\n");
    assert(out@ =~= old(out)@ + sym_line(*e));
}

fn push_sym_group_heading(out: &mut String, module: &str)
    ensures
        final(out)@ == old(out)@ + sym_group_heading(module@),
{
    out.append("## ");
    out.append(module);
    out.append("\n");
    out.append("  ");
    push_padded_right(out, "分类", 8);
    out.append(" ");
    push_padded_right(out, "常量名", 18);
    out.append(" → ");
    push_padded_right(out, "脚本键", 18);
    out.append("  # ");
    out.append("说明");
    out.append("\n");
    out.append("  ");
    push_repeated(out, '─', 72);
    out.append("\n");
    assert(out@ =~= old(out)@ + sym_group_heading(module@));
}

/// The text of the reference table of `entries`: a preamble, then the
/// symbols in reference order, grouped by module; symbols that tie in that
/// order keep the order they have in `entries`.
pub fn script_sym_reference(entries: &Vec<ScriptSymEntry>) -> (r: String)
    ensures
        exists|s: Seq<ScriptSymEntry>|
            s.to_multiset() == entries@.to_multiset() && syms_sorted(s) && (forall|x: ScriptSymEntry|
                #[trigger] sym_ties(s, x) == sym_ties(entries@, x)) && r@ == sym_reference_text(s),
{
    let es = sort_script_syms(entries);
    let mut out = String::new();
    out.append("# 脚本 API 符号参考（由 script_sym! 宏登记，启动时自动生成）\n");
    out.append("# 格式: [分类] 常量名 → 脚本键    # 说明\n");
    out.append("\n");
    let ghost pre = out@;
    let mut current: &str = "";
    let mut i: usize = 0;
    while i < es.len()
        invariant
            i <= es.len(),
            out@ == pre + sym_body(es@, i as nat),
            current@ == sym_current_module(es@, i as int),
        decreases es.len() - i,
    {
        let e = es[i];
        let ghost start = out@;
        let m = compare_text(&str_chars(e.module), &str_chars(current));
        proof {
            lemma_text_order_antisym(e.module@, current@);
            assert(e == es@[i as int]);
            reveal_strlit("");
        }
        if m != 0 {
            let n = str_chars(current).len();
            if n > 0 {
                out.append("\n");
            }
            push_sym_group_heading(&mut out, e.module);
            current = e.module;
            assert(out@ =~= start + (if sym_current_module(es@, i as int).len() > 0 {
                "\n"@
            } else {
                ""@
            }) + sym_group_heading(es@[i as int].module@));
        }
        push_sym_line(&mut out, &e);
        proof {
            assert(sym_body(es@, (i + 1) as nat) == sym_body(es@, i as nat) + sym_block(es@, i as int));
            assert(out@ =~= pre + sym_body(es@, (i + 1) as nat));
        }
        i = i + 1;
    }
    out.append("\n");
    assert(out@ =~= sym_reference_text(es@));
    out
}

// ---------------------------------------------------------------------------
// z-indices of visual elements

/// One registered z-index of a visual element.
#[derive(Clone, Copy, Debug)]
pub struct VeZIndexEntry {
    pub name: &'static str,
    pub value: i32,
    pub description: &'static str,
}

/// How two z-index entries are ordered: by value, then by name.
pub open spec fn z_order(x: VeZIndexEntry, y: VeZIndexEntry) -> int {
    if x.value < y.value {
        -1
    } else if x.value > y.value {
        1
    } else {
        text_order(x.name@, y.name@)
    }
}

/// Whether every entry of `s` comes no later than the next one.
pub open spec fn z_sorted(s: Seq<VeZIndexEntry>) -> bool {
    forall|i: int| 0 <= i < s.len() - 1 ==> z_order(#[trigger] s[i], s[i + 1]) <= 0
}

proof fn lemma_z_order_trans(x: VeZIndexEntry, y: VeZIndexEntry, z: VeZIndexEntry)
    requires
        z_order(x, y) <= 0,
        z_order(y, z) <= 0,
    ensures
        z_order(x, z) <= 0,
        z_order(x, y) < 0 ==> z_order(x, z) < 0,
        z_order(y, z) < 0 ==> z_order(x, z) < 0,
{
    lemma_text_order_antisym(x.name@, y.name@);
    lemma_text_order_antisym(y.name@, z.name@);
    lemma_text_order_antisym(x.name@, z.name@);
    if text_order(x.name@, y.name@) <= 0 && text_order(y.name@, z.name@) <= 0 {
        lemma_text_order_trans(x.name@, y.name@, z.name@);
    }
}

/// The entries of `s` that tie with `x` in the reference order (the same
/// value and name), in their order in `s`.
pub open spec fn z_ties(s: Seq<VeZIndexEntry>, x: VeZIndexEntry) -> Seq<VeZIndexEntry> {
    s.filter(|y: VeZIndexEntry| z_order(y, x) == 0)
}

proof fn lemma_z_ties_push(s: Seq<VeZIndexEntry>, e: VeZIndexEntry, x: VeZIndexEntry)
    ensures
        z_ties(s.push(e), x) == if z_order(e, x) == 0 {
            z_ties(s, x).push(e)
        } else {
            z_ties(s, x)
        },
{
    reveal(Seq::filter);
    assert(s.push(e).drop_last() =~= s);
}

proof fn lemma_z_ties_add(a: Seq<VeZIndexEntry>, b: Seq<VeZIndexEntry>, x: VeZIndexEntry)
    ensures
        z_ties(a + b, x) == z_ties(a, x) + z_ties(b, x),
    decreases b.len(),
{
    if b.len() == 0 {
        assert(a + b =~= a);
        reveal(Seq::filter);
        assert(z_ties(a, x) + z_ties(b, x) =~= z_ties(a, x));
    } else {
        lemma_z_ties_add(a, b.drop_last(), x);
        assert(a + b =~= (a + b.drop_last()).push(b.last()));
        assert(b =~= b.drop_last().push(b.last()));
        lemma_z_ties_push(a + b.drop_last(), b.last(), x);
        lemma_z_ties_push(b.drop_last(), b.last(), x);
        if z_order(b.last(), x) == 0 {
            assert(z_ties(a, x) + z_ties(b.drop_last(), x).push(b.last()) =~= (z_ties(a, x) + z_ties(
                b.drop_last(),
                x,
            )).push(b.last()));
        }
    }
}

proof fn lemma_z_ties_none(s: Seq<VeZIndexEntry>, x: VeZIndexEntry)
    requires
        forall|i: int| 0 <= i < s.len() ==> z_order(#[trigger] s[i], x) != 0,
    ensures
        z_ties(s, x) =~= Seq::<VeZIndexEntry>::empty(),
    decreases s.len(),
{
    reveal(Seq::filter);
    if s.len() > 0 {
        lemma_z_ties_none(s.drop_last(), x);
        assert(z_order(s[s.len() - 1], x) != 0);
    }
}

proof fn lemma_z_ties_insert(before: Seq<VeZIndexEntry>, p: int, e: VeZIndexEntry, x: VeZIndexEntry)
    requires
        0 <= p <= before.len(),
        forall|j: int| p <= j < before.len() ==> z_order(e, #[trigger] before[j]) < 0,
    ensures
        z_ties(before.insert(p, e), x) == if z_order(e, x) == 0 {
            z_ties(before, x).push(e)
        } else {
            z_ties(before, x)
        },
{
    let a = before.take(p);
    let b = before.skip(p);
    assert(before.insert(p, e) =~= a.push(e) + b);
    assert(before =~= a + b);
    lemma_z_ties_add(a.push(e), b, x);
    lemma_z_ties_add(a, b, x);
    lemma_z_ties_push(a, e, x);
    if z_order(e, x) == 0 {
        assert forall|i: int| 0 <= i < b.len() implies z_order(#[trigger] b[i], x) != 0 by {
            assert(b[i] == before[p + i]);
            lemma_text_order_antisym(e.name@, b[i].name@);
            lemma_text_order_antisym(b[i].name@, x.name@);
            lemma_text_order_antisym(e.name@, x.name@);
        }
        lemma_z_ties_none(b, x);
        assert(z_ties(a, x).push(e) + z_ties(b, x) =~= z_ties(a, x).push(e));
        assert(z_ties(a, x) + z_ties(b, x) =~= z_ties(a, x));
    }
}

fn z_before(e: &VeZIndexEntry, f: &VeZIndexEntry) -> (r: bool)
    ensures
        r == (z_order(*e, *f) < 0),
{
    if e.value != f.value {
        return e.value < f.value;
    }
    compare_text(&str_chars(e.name), &str_chars(f.name)) < 0
}

/// The entries in reference order: by value, then by name.
pub fn sort_ve_z_indices(entries: &Vec<VeZIndexEntry>) -> (r: Vec<VeZIndexEntry>)
    ensures
        r@.to_multiset() == entries@.to_multiset(),
        z_sorted(r@),
        forall|x: VeZIndexEntry| #[trigger] z_ties(r@, x) == z_ties(entries@, x),
{
    let mut out: Vec<VeZIndexEntry> = Vec::new();
    let mut k: usize = 0;
    while k < entries.len()
        invariant
            k <= entries.len(),
            out@.to_multiset() == entries@.take(k as int).to_multiset(),
            forall|i: int, j: int| 0 <= i < j < out@.len() ==> z_order(#[trigger] out@[i], #[trigger] out@[j]) <= 0,
            forall|x: VeZIndexEntry| #[trigger] z_ties(out@, x) == z_ties(entries@.take(k as int), x),
        decreases entries.len() - k,
    {
        let e = entries[k];
        let mut p: usize = 0;
        while p < out.len() && !z_before(&e, &out[p])
            invariant
                p <= out.len(),
                forall|j: int| 0 <= j < p ==> z_order(e, #[trigger] out@[j]) >= 0,
            decreases out.len() - p,
        {
            p = p + 1;
        }
        let ghost before = out@;
        proof {
            assert forall|j: int| p <= j < before.len() implies z_order(e, #[trigger] before[j]) < 0 by {
                if j > p {
                    assert(z_order(before[p as int], before[j]) <= 0);
                    lemma_z_order_trans(e, before[p as int], before[j]);
                }
            }
        }
        out.insert(p, e);
        proof {
            assert(out@ == before.insert(p as int, e));
            vstd::seq_lib::to_multiset_insert(before, p as int, e);
            assert(entries@.take(k + 1) =~= entries@.take(k as int).push(e));
            assert forall|x: VeZIndexEntry| #[trigger] z_ties(out@, x) == z_ties(entries@.take(k + 1), x) by {
                lemma_z_ties_insert(before, p as int, e, x);
                lemma_z_ties_push(entries@.take(k as int), e, x);
            }
            assert forall|i: int, j: int| 0 <= i < j < out@.len() implies z_order(
                #[trigger] out@[i],
                #[trigger] out@[j],
            ) <= 0 by {
                if j < p {
                    assert(out@[i] == before[i] && out@[j] == before[j]);
                } else if j == p {
                    assert(out@[i] == before[i]);
                    lemma_text_order_antisym(e.name@, before[i].name@);
                } else if i < p {
                    assert(out@[i] == before[i] && out@[j] == before[j - 1]);
                    lemma_text_order_antisym(e.name@, before[i].name@);
                    lemma_z_order_trans(before[i], e, before[j - 1]);
                } else if i == p {
                    assert(out@[j] == before[j - 1]);
                } else {
                    assert(out@[i] == before[i - 1] && out@[j] == before[j - 1]);
                }
            }
        }
        k = k + 1;
    }
    assert(entries@.take(entries.len() as int) =~= entries@);
    assert forall|i: int| 0 <= i < out@.len() - 1 implies z_order(#[trigger] out@[i], out@[i + 1]) <= 0 by {
        assert(z_order(out@[i], out@[i + 1]) <= 0);
    }
    out
}

/// The line of one z-index entry.
pub open spec fn z_line(e: VeZIndexEntry) -> Seq<char> {
    pad_right(e.name@, 24) + " = "@ + pad_left(int_text(e.value as int), 4) + "  # "@ + e.description@
        + "\n"@
}

/// The text of the entries of `es`, in that order.
pub open spec fn z_body(es: Seq<VeZIndexEntry>, n: nat) -> Seq<char>
    decreases n,
{
    if n == 0 || n > es.len() {
        Seq::empty()
    } else {
        z_body(es, (n - 1) as nat) + z_line(es[n - 1])
    }
}

/// The reference text of z-index entries listed in the order `es`.
pub open spec fn z_reference_text(es: Seq<VeZIndexEntry>) -> Seq<char> {
    "# VisualElement z_index 参考（由 ve_z_index! 宏登记，启动时自动生成）\n"@ + "# 格式: 常量名 = 值  # 说明\n"@ + "\n"@
        + z_body(es, es.len()) + "\n"@
        + "# 未在此表中的动态层：layer.* 由脚本 layer.z_deep 指定；character_* 见 Z_CHARACTER_BASE\n"@
}

/// The text of the reference table of `entries`: a preamble, the entries
/// in reference order (entries that tie keeping the order they have in
/// `entries`), and a closing note.
pub fn ve_z_index_reference(entries: &Vec<VeZIndexEntry>) -> (r: String)
    ensures
        exists|s: Seq<VeZIndexEntry>|
            s.to_multiset() == entries@.to_multiset() && z_sorted(s) && (forall|x: VeZIndexEntry|
                #[trigger] z_ties(s, x) == z_ties(entries@, x)) && r@ == z_reference_text(s),
{
    let es = sort_ve_z_indices(entries);
    let mut out = String::new();
    out.append("# VisualElement z_index 参考（由 ve_z_index! 宏登记，启动时自动生成）\n");
    out.append("# 格式: 常量名 = 值  # 说明\n");
    out.append("\n");
    let ghost pre = out@;
    let mut i: usize = 0;
    while i < es.len()
        invariant
            i <= es.len(),
            out@ == pre + z_body(es@, i as nat),
        decreases es.len() - i,
    {
        let e = es[i];
        push_padded_right(&mut out, e.name, 24);
        out.append(" = ");
        let v = i64_to_text(e.value as i64);
        push_padded_left(&mut out, v.as_str(), 4);
        out.append("  # ");
        out.append(e.description);
        out.append("\n");
        proof {
            assert(z_body(es@, (i + 1) as nat) == z_body(es@, i as nat) + z_line(es@[i as int]));
            assert(out@ =~= pre + z_body(es@, (i + 1) as nat));
        }
        i = i + 1;
    }
    out.append("\n");
    out.append("# 未在此表中的动态层：layer.* 由脚本 layer.z_deep 指定；character_* 见 Z_CHARACTER_BASE\n");
    assert(out@ =~= z_reference_text(es@));
    out
}

} // verus!
