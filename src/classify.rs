use vstd::prelude::*;

verus! {

/// The closed set of kinds a resource change can have.
#[derive(Clone, Copy, Debug, PartialEq, Eq, Structural)]
pub enum ActionKind {
    Create,
    Update,
    Delete,
    Replace,
    Unknown,
}

/// What a sequence of action tags means, judged on its exact shape.
pub open spec fn kind_of(tags: Seq<Seq<char>>) -> ActionKind {
    if tags.len() == 1 && tags[0] == "create"@ {
        ActionKind::Create
    } else if tags.len() == 1 && tags[0] == "update"@ {
        ActionKind::Update
    } else if tags.len() == 1 && tags[0] == "delete"@ {
        ActionKind::Delete
    } else if tags.len() == 2 && tags[0] == "delete"@ && tags[1] == "create"@ {
        ActionKind::Replace
    } else {
        ActionKind::Unknown
    }
}

/// The views of a list of tags.
pub open spec fn tags_view(tags: Seq<String>) -> Seq<Seq<char>> {
    tags.map_values(|t: String| t@)
}

/// Whether two strings hold the same characters.
pub fn same_text(a: &str, b: &str) -> (r: bool)
    ensures
        r == (a@ == b@),
{
    let n = a.unicode_len();
    if n != b.unicode_len() {
        return false;
    }
    let mut i: usize = 0;
    while i < n
        invariant
            n == a@.len(),
            n == b@.len(),
            i <= n,
            a@.subrange(0, i as int) == b@.subrange(0, i as int),
        decreases n - i,
    {
        if a.get_char(i) != b.get_char(i) {
            return false;
        }
        assert(a@.subrange(0, i + 1) == a@.subrange(0, i as int).push(a@[i as int]));
        assert(b@.subrange(0, i + 1) == b@.subrange(0, i as int).push(b@[i as int]));
        i = i + 1;
    }
    assert(a@ == a@.subrange(0, n as int));
    assert(b@ == b@.subrange(0, n as int));
    true
}

/// Classifies a sequence of action tags.
pub fn classify(tags: &[String]) -> (r: ActionKind)
    ensures
        r == kind_of(tags_view(tags@)),
{
    if tags.len() == 1 {
        if same_text(tags[0].as_str(), "create") {
            return ActionKind::Create;
        }
        if same_text(tags[0].as_str(), "update") {
            return ActionKind::Update;
        }
        if same_text(tags[0].as_str(), "delete") {
            return ActionKind::Delete;
        }
        ActionKind::Unknown
    } else if tags.len() == 2 {
        if same_text(tags[0].as_str(), "delete") && same_text(tags[1].as_str(), "create") {
            return ActionKind::Replace;
        }
        ActionKind::Unknown
    } else {
        ActionKind::Unknown
    }
}

/// The word that names a kind.
pub open spec fn kind_name(k: ActionKind) -> Seq<char> {
    match k {
        ActionKind::Create => "create"@,
        ActionKind::Update => "update"@,
        ActionKind::Delete => "delete"@,
        ActionKind::Replace => "replace"@,
        ActionKind::Unknown => "unknown"@,
    }
}

impl ActionKind {
    /// The word that names this kind.
    pub fn name(&self) -> (r: &'static str)
        ensures
            r@ == kind_name(*self),
    {
        match self {
            ActionKind::Create => "create",
            ActionKind::Update => "update",
            ActionKind::Delete => "delete",
            ActionKind::Replace => "replace",
            ActionKind::Unknown => "unknown",
        }
    }
}

/// The name of the kind of a sequence of action tags.
pub fn get_action(actions: &[String]) -> (r: &'static str)
    ensures
        r@ == kind_name(kind_of(tags_view(actions@))),
{
    classify(actions).name()
}

/// Every tag sequence has one kind, and each of the four known kinds comes
/// from exactly one shape of tags.
pub proof fn lemma_kind_shapes(tags: Seq<Seq<char>>)
    ensures
        (kind_of(tags) == ActionKind::Create) <==> tags == seq!["create"@],
        (kind_of(tags) == ActionKind::Update) <==> tags == seq!["update"@],
        (kind_of(tags) == ActionKind::Delete) <==> tags == seq!["delete"@],
        (kind_of(tags) == ActionKind::Replace) <==> tags == seq!["delete"@, "create"@],
{
    reveal_strlit("create");
    reveal_strlit("update");
    reveal_strlit("delete");
    if tags.len() == 1 {
        assert(tags == seq![tags[0]]);
    }
    if tags.len() == 2 {
        assert(tags == seq![tags[0], tags[1]]);
    }
    assert("create"@[0] == 'c' && "update"@[0] == 'u' && "delete"@[0] == 'd');
}

} // verus!
