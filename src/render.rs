use vstd::prelude::*;

use crate::classify::{kind_name, ActionKind};
use crate::diff::{DiffKind, DiffRecord, RecordView};
use crate::model::{AttrValue, Leaf, ResourceChange, TerraformPlan};
use crate::plan::{
    build_model, build_models, kinds_of, model_kinds, model_of, models_view, plan_models,
    ModelView, ResourceChangeModel,
};
use crate::session::InteractiveSession;
use crate::summary::{counts_of, summarize, summary_line, summary_of, summary_text};
use crate::text::{decimal, push_decimal};

verus! {

/// The text of a leaf value: strings quoted, everything else bare.
pub open spec fn leaf_text(v: Leaf) -> Seq<char> {
    match v {
        Leaf::Null => "null"@,
        Leaf::Bool(b) => if b {
            "true"@
        } else {
            "false"@
        },
        Leaf::Number(t) => t,
        Leaf::Str(s) => "\""@ + s + "\""@,
        Leaf::Composite(t) => t,
    }
}

/// The text of one side of a record; a missing side reads as null.
pub open spec fn side_text(v: Option<Leaf>) -> Seq<char> {
    match v {
        Some(x) => leaf_text(x),
        None => "null"@,
    }
}

/// The line of one diff record.
pub open spec fn record_text(r: RecordView) -> Seq<char> {
    "        "@ + r.key + ": "@ + if r.kind == DiffKind::Added {
        side_text(r.after)
    } else {
        side_text(r.before) + " => "@ + side_text(r.after)
    } + "\n"@
}

pub open spec fn records_text(rs: Seq<RecordView>) -> Seq<char>
    decreases rs.len(),
{
    if rs.len() == 0 {
        Seq::empty()
    } else {
        records_text(rs.drop_last()) + record_text(rs.last())
    }
}

pub open spec fn symbol(k: ActionKind) -> Seq<char> {
    match k {
        ActionKind::Create => "+"@,
        ActionKind::Update => "~"@,
        ActionKind::Delete => "-"@,
        ActionKind::Replace => "-/+"@,
        ActionKind::Unknown => "?"@,
    }
}

pub open spec fn indicator(expanded: bool) -> Seq<char> {
    if expanded {
        "▼"@
    } else {
        "▶"@
    }
}

/// The header line of a resource.
pub open spec fn header_text(m: ModelView, expanded: bool) -> Seq<char> {
    indicator(expanded) + " "@ + symbol(m.kind) + " "@ + m.address + " will be "@ + kind_name(
        m.kind,
    ) + "\n"@
}

/// The block of one resource: its header, its records when expanded, and a
/// blank line.
pub open spec fn resource_text(m: ModelView, expanded: bool) -> Seq<char> {
    header_text(m, expanded) + if expanded {
        records_text(m.records)
    } else {
        Seq::empty()
    } + "\n"@
}

pub open spec fn resources_text(ms: Seq<ModelView>, expanded: bool) -> Seq<char>
    decreases ms.len(),
{
    if ms.len() == 0 {
        Seq::empty()
    } else {
        resources_text(ms.drop_last(), expanded) + resource_text(ms.last(), expanded)
    }
}

/// The static text view of a plan's models: every resource in order, then
/// the summary.
pub open spec fn plan_text(ms: Seq<ModelView>, collapsed: bool) -> Seq<char> {
    resources_text(ms, !collapsed) + summary_text(summary_of(counts_of(kinds_of(ms))))
}

/// The marker of a kind.
pub fn kind_symbol(k: ActionKind) -> (r: &'static str)
    ensures
        r@ == symbol(k),
{
    match k {
        ActionKind::Create => "+",
        ActionKind::Update => "~",
        ActionKind::Delete => "-",
        ActionKind::Replace => "-/+",
        ActionKind::Unknown => "?",
    }
}

/// Appends the text of a leaf value.
fn push_value(out: &mut String, v: &AttrValue)
    ensures
        final(out)@ == old(out)@ + leaf_text(v@),
{
    match v {
        AttrValue::Null => out.append("null"),
        AttrValue::Bool(b) => if *b {
            out.append("true")
        } else {
            out.append("false")
        },
        AttrValue::Number(t) => out.append(t.as_str()),
        AttrValue::Str(s) => {
            out.append("\"");
            out.append(s.as_str());
            out.append("\"");
        },
        AttrValue::Composite(t) => out.append(t.as_str()),
    }
}

/// The text of a leaf value.
pub fn format_value(v: &AttrValue) -> (r: String)
    ensures
        r@ == leaf_text(v@),
{
    let mut out = String::new();
    push_value(&mut out, v);
    assert(out@ =~= leaf_text(v@));
    out
}

fn push_side(out: &mut String, v: &Option<AttrValue>)
    ensures
        final(out)@ == old(out)@ + side_text(crate::diff::opt_leaf(*v)),
{
    match v {
        Some(x) => push_value(out, x),
        None => out.append("null"),
    }
}

fn push_record(out: &mut String, r: &DiffRecord)
    ensures
        final(out)@ == old(out)@ + record_text(r@),
{
    let ghost o = out@;
    out.append("        ");
    out.append(r.key.as_str());
    out.append(": ");
    let ghost mid = out@;
    match r.kind {
        DiffKind::Added => push_side(out, &r.after),
        _ => {
            push_side(out, &r.before);
            out.append(" => ");
            push_side(out, &r.after);
        },
    }
    out.append("\n");
    assert(out@ =~= o + record_text(r@));
}

/// The text block of one resource, with its records shown when `expanded`.
pub fn render_model(m: &ResourceChangeModel, expanded: bool) -> (r: String)
    ensures
        r@ == resource_text(m@, expanded),
{
    let mut out = String::new();
    if expanded {
        out.append("▼");
    } else {
        out.append("▶");
    }
    out.append(" ");
    out.append(kind_symbol(m.kind));
    out.append(" ");
    out.append(m.address.as_str());
    out.append(" will be ");
    out.append(m.kind.name());
    out.append("\n");
    assert(out@ =~= header_text(m@, expanded));
    let ghost head = out@;
    if expanded {
        let ghost rv = m@.records;
        let mut i: usize = 0;
        while i < m.records.len()
            invariant
                i <= m.records.len(),
                rv == m@.records,
                out@ == head + records_text(rv.subrange(0, i as int)),
            decreases m.records.len() - i,
        {
            let ghost pre = rv.subrange(0, i + 1);
            assert(pre.drop_last() =~= rv.subrange(0, i as int));
            push_record(&mut out, &m.records[i]);
            assert(out@ =~= head + records_text(pre));
            i = i + 1;
        }
        assert(rv.subrange(0, i as int) =~= rv);
    }
    out.append("\n");
    assert(out@ =~= resource_text(m@, expanded));
    out
}

/// The text block of one resource change.
pub fn format_resource_change(c: &ResourceChange, collapsed: bool) -> (r: String)
    ensures
        r@ == resource_text(model_of(*c), !collapsed),
{
    render_model(&build_model(c), !collapsed)
}

/// The static text view of a sequence of models.
pub fn render_models(ms: &Vec<ResourceChangeModel>, collapsed: bool) -> (r: String)
    ensures
        r@ == plan_text(models_view(ms@), collapsed),
{
    let ghost mv = models_view(ms@);
    let mut out = String::new();
    let mut i: usize = 0;
    while i < ms.len()
        invariant
            i <= ms.len(),
            mv == models_view(ms@),
            out@ == resources_text(mv.subrange(0, i as int), !collapsed),
        decreases ms.len() - i,
    {
        let ghost pre = mv.subrange(0, i + 1);
        assert(pre.drop_last() =~= mv.subrange(0, i as int));
        let block = render_model(&ms[i], !collapsed);
        out.append(block.as_str());
        i = i + 1;
    }
    assert(mv.subrange(0, i as int) =~= mv);
    let kinds = model_kinds(ms);
    let s = summarize(kinds.as_slice());
    let line = summary_line(&s);
    out.append(line.as_str());
    out
}

/// The static text view of a plan.
pub fn format_plan(plan: &TerraformPlan, collapsed: bool) -> (r: String)
    ensures
        r@ == plan_text(plan_models(*plan), collapsed),
{
    let ms = build_models(plan);
    render_models(&ms, collapsed)
}

/// The interactive view of the models: each resource block prefixed with
/// its plan index, expanded as `expanded` says.
pub open spec fn interactive_text(ms: Seq<ModelView>, expanded: Seq<bool>) -> Seq<char>
    decreases ms.len(),
{
    if ms.len() == 0 {
        Seq::empty()
    } else {
        let i = ms.len() - 1;
        interactive_text(ms.drop_last(), expanded) + "["@ + decimal(i as nat) + "] "@
            + resource_text(ms.last(), expanded[i])
    }
}

/// The interactive view of a plan's models in the state of a session.
pub fn render_interactive(ms: &Vec<ResourceChangeModel>, session: &InteractiveSession) -> (r:
    String)
    requires
        session@.len() == ms@.len(),
    ensures
        r@ == interactive_text(models_view(ms@), session@),
{
    let ghost mv = models_view(ms@);
    let mut out = String::new();
    let mut i: usize = 0;
    while i < ms.len()
        invariant
            i <= ms.len(),
            session@.len() == ms@.len(),
            mv == models_view(ms@),
            out@ == interactive_text(mv.subrange(0, i as int), session@),
        decreases ms.len() - i,
    {
        let ghost pre = mv.subrange(0, i + 1);
        assert(pre.drop_last() =~= mv.subrange(0, i as int));
        out.append("[");
        push_decimal(&mut out, i);
        out.append("] ");
        let block = render_model(&ms[i], session.is_expanded(i));
        out.append(block.as_str());
        i = i + 1;
    }
    assert(mv.subrange(0, i as int) =~= mv);
    out
}

/// Rendering depends on the models and the display state alone: two
/// renderings of the same models in the same state are identical.
pub proof fn lemma_rendering_repeats(
    a: Seq<ModelView>,
    b: Seq<ModelView>,
    collapsed: bool,
    ea: Seq<bool>,
    eb: Seq<bool>,
)
    requires
        a == b,
        ea == eb,
    ensures
        plan_text(a, collapsed) == plan_text(b, collapsed),
        interactive_text(a, ea) == interactive_text(b, eb),
{
}

/// The HTML escape of one character.
pub open spec fn escape_char(c: char) -> Seq<char> {
    if c == '&' {
        "&amp;"@
    } else if c == '<' {
        "&lt;"@
    } else if c == '>' {
        "&gt;"@
    } else if c == '"' {
        "&quot;"@
    } else if c == '\'' {
        "&#x27;"@
    } else {
        seq![c]
    }
}

/// A text with each character escaped for HTML.
pub open spec fn escaped(s: Seq<char>) -> Seq<char>
    decreases s.len(),
{
    if s.len() == 0 {
        Seq::empty()
    } else {
        escaped(s.drop_last()) + escape_char(s.last())
    }
}

/// Escapes a text for use in HTML.
pub fn html_escape(s: &str) -> (r: String)
    ensures
        r@ == escaped(s@),
{
    let n = s.unicode_len();
    let mut out = String::new();
    let mut i: usize = 0;
    while i < n
        invariant
            i <= n,
            n == s@.len(),
            out@ == escaped(s@.subrange(0, i as int)),
        decreases n - i,
    {
        let ghost pre = s@.subrange(0, i + 1);
        assert(pre.drop_last() =~= s@.subrange(0, i as int));
        let c = s.get_char(i);
        if c == '&' {
            out.append("&amp;");
        } else if c == '<' {
            out.append("&lt;");
        } else if c == '>' {
            out.append("&gt;");
        } else if c == '"' {
            out.append("&quot;");
        } else if c == '\'' {
            out.append("&#x27;");
        } else {
            out.append(s.substring_char(i, i + 1));
            assert(s@.subrange(i as int, i + 1) =~= seq![c]);
        }
        i = i + 1;
    }
    assert(s@.subrange(0, i as int) =~= s@);
    out
}

} // verus!
