use vstd::prelude::*;

use crate::classify::{same_text, ActionKind};
use crate::model::{keys_distinct, lookup, opt_snapshot, AttrValue, Leaf, Snapshot};

verus! {

/// How one attribute differs between the two snapshots.
#[derive(Clone, Copy, Debug, PartialEq, Eq, Structural)]
pub enum DiffKind {
    Added,
    Removed,
    Changed,
}

/// One attribute that differs between the two snapshots.
#[derive(Debug)]
pub struct DiffRecord {
    pub key: String,
    pub kind: DiffKind,
    pub before: Option<AttrValue>,
    pub after: Option<AttrValue>,
}

/// The mathematical form of a diff record.
pub struct RecordView {
    pub key: Seq<char>,
    pub kind: DiffKind,
    pub before: Option<Leaf>,
    pub after: Option<Leaf>,
}

pub open spec fn opt_leaf(v: Option<AttrValue>) -> Option<Leaf> {
    match v {
        Some(x) => Some(x@),
        None => None,
    }
}

impl View for DiffRecord {
    type V = RecordView;

    open spec fn view(&self) -> RecordView {
        RecordView {
            key: self.key@,
            kind: self.kind,
            before: opt_leaf(self.before),
            after: opt_leaf(self.after),
        }
    }
}

pub open spec fn records_view(r: Seq<DiffRecord>) -> Seq<RecordView> {
    r.map_values(|d: DiffRecord| d@)
}

pub open spec fn added(k: Seq<char>, v: Leaf) -> RecordView {
    RecordView { key: k, kind: DiffKind::Added, before: None, after: Some(v) }
}

pub open spec fn removed(k: Seq<char>, v: Leaf) -> RecordView {
    RecordView { key: k, kind: DiffKind::Removed, before: Some(v), after: None }
}

pub open spec fn changed(k: Seq<char>, b: Leaf, a: Leaf) -> RecordView {
    RecordView { key: k, kind: DiffKind::Changed, before: Some(b), after: Some(a) }
}

/// One Added record per key of a new snapshot.
pub open spec fn all_added(after: Seq<(Seq<char>, Leaf)>) -> Seq<RecordView>
    decreases after.len(),
{
    if after.len() == 0 {
        Seq::empty()
    } else {
        all_added(after.drop_last()).push(added(after.last().0, after.last().1))
    }
}

/// The first pass over the keys of `after`: keys new in `after` and keys
/// whose value differs.
pub open spec fn added_or_changed(
    before: Seq<(Seq<char>, Leaf)>,
    after: Seq<(Seq<char>, Leaf)>,
) -> Seq<RecordView>
    decreases after.len(),
{
    if after.len() == 0 {
        Seq::empty()
    } else {
        let prev = added_or_changed(before, after.drop_last());
        let k = after.last().0;
        let v = after.last().1;
        match lookup(before, k) {
            None => prev.push(added(k, v)),
            Some(b) => if b == v {
                prev
            } else {
                prev.push(changed(k, b, v))
            },
        }
    }
}

/// The second pass over the keys of `before`: keys gone from `after`.
pub open spec fn removed_keys(
    before: Seq<(Seq<char>, Leaf)>,
    after: Seq<(Seq<char>, Leaf)>,
) -> Seq<RecordView>
    decreases before.len(),
{
    if before.len() == 0 {
        Seq::empty()
    } else {
        let prev = removed_keys(before.drop_last(), after);
        if lookup(after, before.last().0) is None {
            prev.push(removed(before.last().0, before.last().1))
        } else {
            prev
        }
    }
}

/// The records of a resource change of the given kind.
pub open spec fn diff_of(
    before: Option<Seq<(Seq<char>, Leaf)>>,
    after: Option<Seq<(Seq<char>, Leaf)>>,
    kind: ActionKind,
) -> Seq<RecordView> {
    match kind {
        ActionKind::Create => match after {
            Some(a) => all_added(a),
            None => Seq::empty(),
        },
        ActionKind::Update | ActionKind::Replace => match (before, after) {
            (Some(b), Some(a)) => added_or_changed(b, a) + removed_keys(b, a),
            _ => Seq::empty(),
        },
        _ => Seq::empty(),
    }
}

/// The index of the last attribute of `s` under `key`, if any.
pub fn find_key(s: &Snapshot, key: &str) -> (r: Option<usize>)
    ensures
        match r {
            Some(i) => i < s@.len() && lookup(s@, key@) == Some(s@[i as int].1),
            None => lookup(s@, key@) is None,
        },
{
    let ghost sv = s@;
    let mut i: usize = s.attributes.len();
    assert(sv.subrange(0, i as int) == sv);
    while i > 0
        invariant
            i <= s.attributes.len(),
            sv == s@,
            lookup(sv, key@) == lookup(sv.subrange(0, i as int), key@),
        decreases i,
    {
        let ghost pre = sv.subrange(0, i as int);
        assert(pre.drop_last() == sv.subrange(0, i - 1));
        assert(pre.last() == sv[i - 1]);
        if same_text(s.attributes[i - 1].key.as_str(), key) {
            return Some(i - 1);
        }
        i = i - 1;
    }
    None
}

fn push_added(out: &mut Vec<DiffRecord>, key: &String, v: &AttrValue)
    ensures
        records_view(final(out)@) == records_view(old(out)@).push(added(key@, v@)),
{
    let ghost o = old(out)@;
    out.push(DiffRecord { key: key.clone(), kind: DiffKind::Added, before: None, after: Some(v.copied()) });
    assert(records_view(out@) =~= records_view(o).push(added(key@, v@)));
}

/// Records for a snapshot that is created from nothing.
pub fn diff_created(after: &Snapshot) -> (r: Vec<DiffRecord>)
    ensures
        records_view(r@) == all_added(after@),
{
    let ghost av = after@;
    let mut out: Vec<DiffRecord> = Vec::new();
    let mut i: usize = 0;
    while i < after.attributes.len()
        invariant
            i <= after.attributes.len(),
            av == after@,
            records_view(out@) == all_added(av.subrange(0, i as int)),
        decreases after.attributes.len() - i,
    {
        let ghost pre = av.subrange(0, i + 1);
        assert(pre.drop_last() == av.subrange(0, i as int));
        let a = &after.attributes[i];
        push_added(&mut out, &a.key, &a.value);
        i = i + 1;
    }
    assert(av.subrange(0, i as int) == av);
    out
}

/// Records comparing two snapshots: the first pass over `after`, then the
/// second over `before`.
pub fn diff_snapshots(before: &Snapshot, after: &Snapshot) -> (r: Vec<DiffRecord>)
    ensures
        records_view(r@) == added_or_changed(before@, after@) + removed_keys(before@, after@),
{
    let ghost av = after@;
    let ghost bv = before@;
    let mut out: Vec<DiffRecord> = Vec::new();
    let mut i: usize = 0;
    while i < after.attributes.len()
        invariant
            i <= after.attributes.len(),
            av == after@,
            bv == before@,
            records_view(out@) == added_or_changed(bv, av.subrange(0, i as int)),
        decreases after.attributes.len() - i,
    {
        let ghost pre = av.subrange(0, i + 1);
        assert(pre.drop_last() == av.subrange(0, i as int));
        let a = &after.attributes[i];
        match find_key(before, a.key.as_str()) {
            None => {
                push_added(&mut out, &a.key, &a.value);
            },
            Some(j) => {
                let b = &before.attributes[j];
                if !b.value.same_value(&a.value) {
                    let ghost o = out@;
                    out.push(
                        DiffRecord {
                            key: a.key.clone(),
                            kind: DiffKind::Changed,
                            before: Some(b.value.copied()),
                            after: Some(a.value.copied()),
                        },
                    );
                    assert(records_view(out@) =~= records_view(o).push(
                        changed(a.key@, b.value@, a.value@),
                    ));
                }
            },
        }
        i = i + 1;
    }
    assert(av.subrange(0, i as int) == av);
    let ghost first = records_view(out@);
    let mut gone: Vec<DiffRecord> = Vec::new();
    let mut j: usize = 0;
    while j < before.attributes.len()
        invariant
            j <= before.attributes.len(),
            av == after@,
            bv == before@,
            records_view(gone@) == removed_keys(bv.subrange(0, j as int), av),
        decreases before.attributes.len() - j,
    {
        let ghost pre = bv.subrange(0, j + 1);
        assert(pre.drop_last() == bv.subrange(0, j as int));
        let b = &before.attributes[j];
        if find_key(after, b.key.as_str()).is_none() {
            let ghost o = gone@;
            gone.push(
                DiffRecord {
                    key: b.key.clone(),
                    kind: DiffKind::Removed,
                    before: Some(b.value.copied()),
                    after: None,
                },
            );
            assert(records_view(gone@) =~= records_view(o).push(removed(b.key@, b.value@)));
        }
        j = j + 1;
    }
    assert(bv.subrange(0, j as int) == bv);
    let ghost second = records_view(gone@);
    out.append(&mut gone);
    assert(records_view(out@) =~= first + second);
    out
}

/// The records of one resource change: every attribute whose value differs
/// between the snapshots that its kind compares.
pub fn diff(before: &Option<Snapshot>, after: &Option<Snapshot>, kind: ActionKind) -> (r: Vec<
    DiffRecord,
>)
    ensures
        records_view(r@) == diff_of(opt_snapshot(*before), opt_snapshot(*after), kind),
{
    match kind {
        ActionKind::Create => match after {
            Some(a) => diff_created(a),
            None => Vec::new(),
        },
        ActionKind::Update | ActionKind::Replace => match (before, after) {
            (Some(b), Some(a)) => diff_snapshots(b, a),
            _ => Vec::new(),
        },
        _ => Vec::new(),
    }
}

/// The records of `rs` that concern key `k`, in order.
pub open spec fn with_key(rs: Seq<RecordView>, k: Seq<char>) -> Seq<RecordView>
    decreases rs.len(),
{
    if rs.len() == 0 {
        Seq::empty()
    } else if rs.last().key == k {
        with_key(rs.drop_last(), k).push(rs.last())
    } else {
        with_key(rs.drop_last(), k)
    }
}

/// The records that comparing two snapshots owes for key `k`: one Added
/// record for a key only in `after`, one Removed record for a key only in
/// `before`, one Changed record for a key whose values differ, else none.
pub open spec fn owed_records(
    before: Seq<(Seq<char>, Leaf)>,
    after: Seq<(Seq<char>, Leaf)>,
    k: Seq<char>,
) -> Seq<RecordView> {
    match (lookup(before, k), lookup(after, k)) {
        (None, Some(a)) => seq![added(k, a)],
        (Some(b), None) => seq![removed(k, b)],
        (Some(b), Some(a)) => if b == a {
            Seq::empty()
        } else {
            seq![changed(k, b, a)]
        },
        (None, None) => Seq::empty(),
    }
}

proof fn lemma_with_key_concat(x: Seq<RecordView>, y: Seq<RecordView>, k: Seq<char>)
    ensures
        with_key(x + y, k) == with_key(x, k) + with_key(y, k),
    decreases y.len(),
{
    if y.len() == 0 {
        assert(x + y =~= x);
        assert(with_key(x, k) + with_key(y, k) =~= with_key(x, k));
    } else {
        assert((x + y).drop_last() =~= x + y.drop_last());
        assert((x + y).last() == y.last());
        lemma_with_key_concat(x, y.drop_last(), k);
        if y.last().key == k {
            assert(with_key(x, k) + with_key(y.drop_last(), k).push(y.last()) =~= (with_key(x, k)
                + with_key(y.drop_last(), k)).push(y.last()));
        }
    }
}

proof fn lemma_with_key_push(rs: Seq<RecordView>, r: RecordView, k: Seq<char>)
    ensures
        with_key(rs.push(r), k) == if r.key == k {
            with_key(rs, k).push(r)
        } else {
            with_key(rs, k)
        },
{
    assert(rs.push(r).drop_last() =~= rs);
}

proof fn lemma_lookup_absent(s: Seq<(Seq<char>, Leaf)>, k: Seq<char>)
    requires
        forall|i: int| 0 <= i < s.len() ==> (#[trigger] s[i]).0 != k,
    ensures
        lookup(s, k) is None,
    decreases s.len(),
{
    if s.len() > 0 {
        assert(s.last() == s[s.len() - 1]);
        assert forall|i: int| 0 <= i < s.drop_last().len() implies (
        #[trigger] s.drop_last()[i]).0 != k by {
            assert(s.drop_last()[i] == s[i]);
        }
        lemma_lookup_absent(s.drop_last(), k);
    }
}

proof fn lemma_distinct_drop_last(s: Seq<(Seq<char>, Leaf)>)
    requires
        keys_distinct(s),
        s.len() > 0,
    ensures
        keys_distinct(s.drop_last()),
        lookup(s.drop_last(), s.last().0) is None,
{
    let t = s.drop_last();
    assert forall|i: int, j: int| 0 <= i < j < t.len() implies t[i].0 != t[j].0 by {
        assert(t[i] == s[i] && t[j] == s[j]);
    }
    assert forall|i: int| 0 <= i < t.len() implies (#[trigger] t[i]).0 != s.last().0 by {
        assert(t[i] == s[i]);
        assert(s.last() == s[s.len() - 1]);
    }
    lemma_lookup_absent(t, s.last().0);
}

proof fn lemma_first_pass_for_key(
    before: Seq<(Seq<char>, Leaf)>,
    after: Seq<(Seq<char>, Leaf)>,
    k: Seq<char>,
)
    requires
        keys_distinct(after),
    ensures
        with_key(added_or_changed(before, after), k) == match lookup(after, k) {
            None => Seq::empty(),
            Some(a) => match lookup(before, k) {
                None => seq![added(k, a)],
                Some(b) => if b == a {
                    Seq::<RecordView>::empty()
                } else {
                    seq![changed(k, b, a)]
                },
            },
        },
    decreases after.len(),
{
    if after.len() > 0 {
        let rest = after.drop_last();
        let kl = after.last().0;
        let v = after.last().1;
        let prev = added_or_changed(before, rest);
        lemma_distinct_drop_last(after);
        lemma_first_pass_for_key(before, rest, k);
        match lookup(before, kl) {
            None => lemma_with_key_push(prev, added(kl, v), k),
            Some(b) => lemma_with_key_push(prev, changed(kl, b, v), k),
        }
        if kl == k {
            assert(Seq::<RecordView>::empty().push(added(k, v)) =~= seq![added(k, v)]);
            match lookup(before, k) {
                Some(b) => {
                    assert(Seq::<RecordView>::empty().push(changed(k, b, v)) =~= seq![
                        changed(k, b, v),
                    ]);
                },
                None => {},
            }
        }
    }
}

proof fn lemma_second_pass_for_key(
    before: Seq<(Seq<char>, Leaf)>,
    after: Seq<(Seq<char>, Leaf)>,
    k: Seq<char>,
)
    requires
        keys_distinct(before),
    ensures
        with_key(removed_keys(before, after), k) == match (lookup(before, k), lookup(after, k)) {
            (Some(b), None) => seq![removed(k, b)],
            _ => Seq::<RecordView>::empty(),
        },
    decreases before.len(),
{
    if before.len() > 0 {
        let rest = before.drop_last();
        let kl = before.last().0;
        let v = before.last().1;
        lemma_distinct_drop_last(before);
        lemma_second_pass_for_key(rest, after, k);
        lemma_with_key_push(removed_keys(rest, after), removed(kl, v), k);
        if kl == k {
            assert(Seq::<RecordView>::empty().push(removed(k, v)) =~= seq![removed(k, v)]);
        }
    }
}

/// Comparing two snapshots (of an update or a replacement) gives, for each
/// key, exactly the records that it owes: an Added or Removed record for a
/// key on one side only, a Changed record for a key whose values differ,
/// and nothing for any other key.
pub proof fn lemma_records_per_key(
    before: Seq<(Seq<char>, Leaf)>,
    after: Seq<(Seq<char>, Leaf)>,
    k: Seq<char>,
)
    requires
        keys_distinct(before),
        keys_distinct(after),
    ensures
        with_key(added_or_changed(before, after) + removed_keys(before, after), k)
            == owed_records(before, after, k),
{
    lemma_with_key_concat(added_or_changed(before, after), removed_keys(before, after), k);
    lemma_first_pass_for_key(before, after, k);
    lemma_second_pass_for_key(before, after, k);
    let x = with_key(added_or_changed(before, after), k);
    let y = with_key(removed_keys(before, after), k);
    assert(x + y =~= owed_records(before, after, k));
}

proof fn lemma_lookup_own_key(s: Seq<(Seq<char>, Leaf)>, i: int)
    requires
        keys_distinct(s),
        0 <= i < s.len(),
    ensures
        lookup(s, s[i].0) == Some(s[i].1),
    decreases s.len(),
{
    if i < s.len() - 1 {
        assert(s.last() == s[s.len() - 1]);
        lemma_distinct_drop_last(s);
        assert(s.drop_last()[i] == s[i]);
        lemma_lookup_own_key(s.drop_last(), i);
    }
}

proof fn lemma_same_prefix_unchanged(s: Seq<(Seq<char>, Leaf)>, n: int)
    requires
        keys_distinct(s),
        0 <= n <= s.len(),
    ensures
        added_or_changed(s, s.subrange(0, n)) == Seq::<RecordView>::empty(),
        removed_keys(s.subrange(0, n), s) == Seq::<RecordView>::empty(),
    decreases n,
{
    if n > 0 {
        let p = s.subrange(0, n);
        assert(p.drop_last() =~= s.subrange(0, n - 1));
        assert(p.last() == s[n - 1]);
        lemma_same_prefix_unchanged(s, n - 1);
        lemma_lookup_own_key(s, n - 1);
    }
}

/// An update or a replacement whose snapshots are equal has no records.
pub proof fn lemma_equal_snapshots_no_records(s: Seq<(Seq<char>, Leaf)>, kind: ActionKind)
    requires
        keys_distinct(s),
        kind == ActionKind::Update || kind == ActionKind::Replace,
    ensures
        diff_of(Some(s), Some(s), kind) == Seq::<RecordView>::empty(),
{
    lemma_same_prefix_unchanged(s, s.len() as int);
    assert(s.subrange(0, s.len() as int) =~= s);
    assert(Seq::<RecordView>::empty() + Seq::<RecordView>::empty() =~= Seq::<RecordView>::empty());
}

} // verus!
