use vstd::prelude::*;

use crate::ace::types::same_text;
use crate::errors::AppError;

verus! {

/// Which tags a permission to use tags covers.
#[derive(PartialEq, Eq, Clone, Debug)]
pub enum TagScope {
    /// Every tag: written `*`.
    Wildcard,
    Tag(String),
}

/// The mathematical content of a [`TagScope`].
pub enum TagScopeV {
    Wildcard,
    Tag(Seq<char>),
}

impl View for TagScope {
    type V = TagScopeV;

    open spec fn view(&self) -> TagScopeV {
        match self {
            TagScope::Wildcard => TagScopeV::Wildcard,
            TagScope::Tag(s) => TagScopeV::Tag(s@),
        }
    }
}

/// The scope written `s`: `*` is every tag, anything else the tag of that name.
pub open spec fn scope_of_text(s: Seq<char>) -> TagScopeV {
    if s == "*"@ {
        TagScopeV::Wildcard
    } else {
        TagScopeV::Tag(s)
    }
}

/// How a scope is written.
pub open spec fn scope_text(t: TagScopeV) -> Seq<char> {
    match t {
        TagScopeV::Wildcard => "*"@,
        TagScopeV::Tag(s) => s,
    }
}

impl TagScope {
    /// The scope written `s`: `*` is every tag, anything else the tag of that name.
    pub fn from_text(s: String) -> (r: TagScope)
        ensures
            r@ == scope_of_text(s@),
    {
        if s.eq(&String::from_str("*")) {
            TagScope::Wildcard
        } else {
            TagScope::Tag(s)
        }
    }

    /// How this scope is written.
    pub fn to_text(&self) -> (r: String)
        ensures
            r@ == scope_text(self@),
    {
        match self {
            TagScope::Wildcard => String::from_str("*"),
            TagScope::Tag(s) => s.clone(),
        }
    }

    /// A copy of this scope.
    pub fn duplicate(&self) -> (r: TagScope)
        ensures
            r@ == self@,
    {
        match self {
            TagScope::Wildcard => TagScope::Wildcard,
            TagScope::Tag(s) => TagScope::Tag(s.clone()),
        }
    }
}

impl From<String> for TagScope {
    fn from(s: String) -> (r: TagScope) {
        if s.eq(&String::from_str("*")) {
            TagScope::Wildcard
        } else {
            TagScope::Tag(s)
        }
    }
}

impl vstd::std_specs::convert::FromSpecImpl<String> for TagScope {
    open spec fn obeys_from_spec() -> bool {
        true
    }

    open spec fn from_spec(v: String) -> TagScope {
        if v@ == "*"@ {
            TagScope::Wildcard
        } else {
            TagScope::Tag(v)
        }
    }
}

/// A permission granted by the identity provider.
#[derive(PartialEq, Eq, Clone, Debug)]
pub enum HivePermission {
    Post,
    ManageTags,
    UseTag(TagScope),
    /// Any permission not known here; it grants nothing.
    Unknown,
}

/// The mathematical content of a [`HivePermission`].
pub enum PermissionV {
    Post,
    ManageTags,
    UseTag(TagScopeV),
    Unknown,
}

impl View for HivePermission {
    type V = PermissionV;

    open spec fn view(&self) -> PermissionV {
        match self {
            HivePermission::Post => PermissionV::Post,
            HivePermission::ManageTags => PermissionV::ManageTags,
            HivePermission::UseTag(s) => PermissionV::UseTag(s@),
            HivePermission::Unknown => PermissionV::Unknown,
        }
    }
}

/// The identifier of a permission.
pub open spec fn spec_key(p: PermissionV) -> Seq<char> {
    match p {
        PermissionV::Post => "post"@,
        PermissionV::ManageTags => "manage-tags"@,
        PermissionV::UseTag(_) => "use-tag"@,
        PermissionV::Unknown => "unknown"@,
    }
}

/// The scope of a permission, written out; only tag permissions have one.
pub open spec fn spec_scope(p: PermissionV) -> Option<Seq<char>> {
    match p {
        PermissionV::UseTag(s) => Some(scope_text(s)),
        _ => None,
    }
}

/// The permission with identifier `id` and scope `scope`: no identifier is an unknown
/// permission, an unknown identifier too; `use-tag` without a scope is no permission.
pub open spec fn spec_create(id: Option<Seq<char>>, scope: Option<Seq<char>>) -> Option<PermissionV> {
    match id {
        None => Some(PermissionV::Unknown),
        Some(id) => if id == "post"@ {
            Some(PermissionV::Post)
        } else if id == "manage-tags"@ {
            Some(PermissionV::ManageTags)
        } else if id == "use-tag"@ {
            match scope {
                Some(s) => Some(PermissionV::UseTag(scope_of_text(s))),
                None => None,
            }
        } else {
            Some(PermissionV::Unknown)
        },
    }
}

/// The mathematical content of an optional string.
pub open spec fn opt_text(o: Option<String>) -> Option<Seq<char>> {
    match o {
        Some(s) => Some(s@),
        None => None,
    }
}

/// The value of the last entry named `name`, if any.
pub open spec fn last_entry(entries: Seq<(Seq<char>, Option<Seq<char>>)>, name: Seq<char>) -> Option<Seq<char>>
    decreases entries.len(),
{
    if entries.len() == 0 {
        None
    } else if entries.last().0 == name {
        entries.last().1
    } else {
        last_entry(entries.drop_last(), name)
    }
}

/// The mathematical content of map entries as read.
pub open spec fn entries_view(e: Seq<(String, Option<String>)>) -> Seq<(Seq<char>, Option<Seq<char>>)> {
    e.map_values(|x: (String, Option<String>)| (x.0@, opt_text(x.1)))
}

impl HivePermission {
    /// The identifier of this permission.
    pub fn key(&self) -> (r: &str)
        ensures
            r@ == spec_key(self@),
    {
        match self {
            HivePermission::Post => "post",
            HivePermission::ManageTags => "manage-tags",
            HivePermission::UseTag(_) => "use-tag",
            HivePermission::Unknown => "unknown",
        }
    }

    /// The scope of this permission, written out; only tag permissions have one.
    pub fn scope(&self) -> (r: Option<String>)
        ensures
            opt_text(r) == spec_scope(self@),
    {
        match self {
            HivePermission::UseTag(scope) => Some(scope.to_text()),
            _ => None,
        }
    }

    /// The permission with identifier `id` and scope `scope`: no identifier is an unknown
    /// permission, an unknown identifier too; `use-tag` without a scope is `None`.
    pub fn create(id: Option<String>, scope: Option<String>) -> (r: Option<HivePermission>)
        ensures
            match (r, spec_create(opt_text(id), opt_text(scope))) {
                (Some(p), Some(q)) => p@ == q,
                (None, None) => true,
                _ => false,
            },
    {
        match id {
            None => Some(HivePermission::Unknown),
            Some(id) => {
                if id.eq(&String::from_str("post")) {
                    Some(HivePermission::Post)
                } else if id.eq(&String::from_str("manage-tags")) {
                    Some(HivePermission::ManageTags)
                } else if id.eq(&String::from_str("use-tag")) {
                    match scope {
                        Some(s) => Some(HivePermission::UseTag(TagScope::from_text(s))),
                        None => None,
                    }
                } else {
                    Some(HivePermission::Unknown)
                }
            },
        }
    }

    /// The permission that a map of entries describes: the last `id` and the last `scope`
    /// count, other entries are ignored.
    pub fn from_entries(entries: &Vec<(String, Option<String>)>) -> (r: Option<HivePermission>)
        ensures
            match (
                r,
                spec_create(
                    last_entry(entries_view(entries@), "id"@),
                    last_entry(entries_view(entries@), "scope"@),
                ),
            ) {
                (Some(p), Some(q)) => p@ == q,
                (None, None) => true,
                _ => false,
            },
    {
        let ghost ev = entries_view(entries@);
        proof {
            reveal_strlit("id");
            reveal_strlit("scope");
            assert("id"@.len() != "scope"@.len());
        }
        let id_key = String::from_str("id");
        let scope_key = String::from_str("scope");
        let mut id: Option<String> = None;
        let mut scope: Option<String> = None;
        let mut k: usize = 0;
        while k < entries.len()
            invariant
                k <= entries@.len(),
                ev == entries_view(entries@),
                id_key@ == "id"@,
                scope_key@ == "scope"@,
                "id"@ != "scope"@,
                opt_text(id) == last_entry(ev.take(k as int), "id"@),
                opt_text(scope) == last_entry(ev.take(k as int), "scope"@),
            decreases entries@.len() - k,
        {
            let entry = &entries[k];
            assert(ev.take(k + 1).drop_last() =~= ev.take(k as int));
            assert(ev.take(k + 1).last() == (entry.0@, opt_text(entry.1)));
            if entry.0.eq(&id_key) {
                id = clone_opt(&entry.1);
            } else if entry.0.eq(&scope_key) {
                scope = clone_opt(&entry.1);
            }
            k = k + 1;
        }
        assert(ev.take(k as int) =~= ev);
        HivePermission::create(id, scope)
    }

    /// A copy of this permission.
    pub fn duplicate(&self) -> (r: HivePermission)
        ensures
            r@ == self@,
    {
        match self {
            HivePermission::Post => HivePermission::Post,
            HivePermission::ManageTags => HivePermission::ManageTags,
            HivePermission::UseTag(s) => HivePermission::UseTag(s.duplicate()),
            HivePermission::Unknown => HivePermission::Unknown,
        }
    }

    /// Whether two permissions are the same permission.
    pub fn same(&self, other: &HivePermission) -> (r: bool)
        ensures
            r == (self@ == other@),
    {
        match (self, other) {
            (HivePermission::Post, HivePermission::Post) => true,
            (HivePermission::ManageTags, HivePermission::ManageTags) => true,
            (HivePermission::UseTag(a), HivePermission::UseTag(b)) => match (a, b) {
                (TagScope::Wildcard, TagScope::Wildcard) => true,
                (TagScope::Tag(x), TagScope::Tag(y)) => same_text(x, y),
                _ => false,
            },
            (HivePermission::Unknown, HivePermission::Unknown) => true,
            _ => false,
        }
    }
}

/// The entries that describe a permission: its identifier under `id`, its scope under `scope`.
pub open spec fn spec_entries(p: PermissionV) -> Seq<(Seq<char>, Option<Seq<char>>)> {
    seq![("id"@, Some(spec_key(p))), ("scope"@, spec_scope(p))]
}

impl HivePermission {
    /// The entries that describe this permission, in the order they are written:
    /// the identifier under `id`, then the scope under `scope`.
    pub fn to_entries(&self) -> (r: Vec<(String, Option<String>)>)
        ensures
            entries_view(r@) == spec_entries(self@),
    {
        let mut r: Vec<(String, Option<String>)> = Vec::new();
        r.push((String::from_str("id"), Some(String::from_str(self.key()))));
        r.push((String::from_str("scope"), self.scope()));
        assert(entries_view(r@) =~= spec_entries(self@));
        r
    }
}

/// Writing a scope out and reading it back gives the same text.
pub proof fn lemma_scope_text_round_trip(s: Seq<char>)
    ensures
        scope_text(scope_of_text(s)) == s,
{
}

/// Reading back how a scope is written gives the same scope, but for a tag named `*`,
/// which reads back as the wildcard.
pub proof fn lemma_scope_round_trip(t: TagScopeV)
    requires
        t != TagScopeV::Tag("*"@),
    ensures
        scope_of_text(scope_text(t)) == t,
{
}

/// A permission rebuilt from its identifier and its scope is the same permission, but for
/// the tag named `*`, which comes back as the wildcard.
pub proof fn lemma_permission_round_trip(p: PermissionV)
    requires
        p != PermissionV::UseTag(TagScopeV::Tag("*"@)),
    ensures
        spec_create(Some(spec_key(p)), spec_scope(p)) == Some(p),
{
    reveal_strlit("post");
    reveal_strlit("manage-tags");
    reveal_strlit("use-tag");
    reveal_strlit("unknown");
    assert("unknown"@[0] != "post"@[0]);
    assert("unknown"@[0] != "manage-tags"@[0]);
    assert("unknown"@[1] != "use-tag"@[1]);
    assert("post"@.len() != "use-tag"@.len());
    assert("manage-tags"@.len() != "use-tag"@.len());
    assert("post"@.len() != "manage-tags"@.len());
    if let PermissionV::UseTag(t) = p {
        lemma_scope_round_trip(t);
    }
}

/// The entries written for a permission read back as the same permission, but for the
/// tag named `*`, which reads back as the wildcard.
pub proof fn lemma_entries_round_trip(p: PermissionV)
    requires
        p != PermissionV::UseTag(TagScopeV::Tag("*"@)),
    ensures
        spec_create(
            last_entry(spec_entries(p), "id"@),
            last_entry(spec_entries(p), "scope"@),
        ) == Some(p),
{
    reveal_strlit("id");
    reveal_strlit("scope");
    assert("id"@.len() != "scope"@.len());
    let e = spec_entries(p);
    assert(e.drop_last() =~= seq![("id"@, Some(spec_key(p)))]);
    assert(e.drop_last().drop_last() =~= Seq::<(Seq<char>, Option<Seq<char>>)>::empty());
    reveal_with_fuel(last_entry, 3);
    assert(last_entry(e, "scope"@) == spec_scope(p));
    assert(last_entry(e, "id"@) == Some(spec_key(p)));
    lemma_permission_round_trip(p);
}

fn clone_opt(o: &Option<String>) -> (r: Option<String>)
    ensures
        opt_text(r) == opt_text(*o),
{
    match o {
        Some(s) => Some(s.clone()),
        None => None,
    }
}

/// The permissions that a user holds; no permission occurs twice.
#[derive(Debug, Clone)]
pub struct HivePermissionSet {
    set: Vec<HivePermission>,
}

impl HivePermissionSet {
    /// The permissions held.
    pub closed spec fn perms(&self) -> Set<PermissionV> {
        self.set@.map_values(|p: HivePermission| p@).to_set()
    }

    /// No permission occurs twice.
    pub closed spec fn wf(&self) -> bool {
        forall|i: int, j: int| 0 <= i < j < self.set@.len() ==> self.set@[i]@ != self.set@[j]@
    }

    /// The set of the given permissions.
    pub fn from_vec(perms: Vec<HivePermission>) -> (r: HivePermissionSet)
        ensures
            r.wf(),
            forall|p: PermissionV| #[trigger] r.perms().contains(p) <==> exists|i: int|
                0 <= i < perms@.len() && perms@[i]@ == p,
    {
        let mut set: Vec<HivePermission> = Vec::new();
        let mut k: usize = 0;
        while k < perms.len()
            invariant
                k <= perms@.len(),
                forall|i: int, j: int| 0 <= i < j < set@.len() ==> set@[i]@ != set@[j]@,
                forall|i: int| 0 <= i < set@.len() ==> exists|m: int| 0 <= m < k && perms@[m]@ == (#[trigger] set@[i])@,
                forall|m: int| 0 <= m < k ==> exists|i: int| 0 <= i < set@.len() && (#[trigger] perms@[m])@ == set@[i]@,
            decreases perms@.len() - k,
        {
            let p = &perms[k];
            let mut found = false;
            let mut j: usize = 0;
            while j < set.len()
                invariant
                    j <= set@.len(),
                    found == exists|i: int| 0 <= i < j && set@[i]@ == p@,
                decreases set@.len() - j,
            {
                if set[j].same(p) {
                    found = true;
                }
                j = j + 1;
            }
            let ghost old_set = set@;
            if !found {
                set.push(p.duplicate());
                assert(set@[set@.len() - 1]@ == p@);
            }
            proof {
                assert forall|m: int| 0 <= m < k + 1 implies exists|i: int|
                    0 <= i < set@.len() && (#[trigger] perms@[m])@ == set@[i]@ by {
                    if m < k {
                        let i = choose|i: int| 0 <= i < old_set.len() && perms@[m]@ == old_set[i]@;
                        assert(set@[i] == old_set[i]);
                    } else if !found {
                        assert(set@[set@.len() - 1]@ == perms@[m]@);
                    } else {
                        let i = choose|i: int| 0 <= i < old_set.len() && old_set[i]@ == p@;
                        assert(set@[i]@ == perms@[m]@);
                    }
                }
            }
            k = k + 1;
        }
        let r = HivePermissionSet { set };
        proof {
            assert forall|p: PermissionV| #[trigger] r.perms().contains(p) <==> exists|i: int|
                0 <= i < perms@.len() && perms@[i]@ == p by {
                let s = r.set@.map_values(|q: HivePermission| q@);
                if r.perms().contains(p) {
                    let i = choose|i: int| 0 <= i < s.len() && s[i] == p;
                    assert(r.set@[i]@ == p);
                } else {
                    if exists|i: int| 0 <= i < perms@.len() && perms@[i]@ == p {
                        let m = choose|m: int| 0 <= m < perms@.len() && perms@[m]@ == p;
                        let i = choose|i: int| 0 <= i < r.set@.len() && perms@[m]@ == r.set@[i]@;
                        assert(s[i] == p);
                        assert(s.contains(p));
                    }
                }
            }
        }
        r
    }

    /// Whether `perm` is held.
    pub fn has(&self, perm: &HivePermission) -> (r: bool)
        ensures
            r == self.perms().contains(perm@),
    {
        let mut j: usize = 0;
        while j < self.set.len()
            invariant
                j <= self.set@.len(),
                forall|i: int| 0 <= i < j ==> self.set@[i]@ != perm@,
            decreases self.set@.len() - j,
        {
            if self.set[j].same(perm) {
                proof {
                    let s = self.set@.map_values(|q: HivePermission| q@);
                    assert(s[j as int] == perm@);
                }
                return true;
            }
            j = j + 1;
        }
        proof {
            let s = self.set@.map_values(|q: HivePermission| q@);
            if s.to_set().contains(perm@) {
                let i = choose|i: int| 0 <= i < s.len() && s[i] == perm@;
                assert(self.set@[i]@ == perm@);
            }
        }
        false
    }

    /// Succeeds when `perm` is held; otherwise the action is not allowed, for want of `perm`.
    pub fn require(&self, perm: HivePermission) -> (r: Result<(), AppError>)
        ensures
            r is Ok <==> self.perms().contains(perm@),
            r matches Err(e) ==> (e matches AppError::NotAllowed(p) && p@ == perm@),
    {
        if self.has(&perm) {
            Ok(())
        } else {
            Err(AppError::NotAllowed(perm))
        }
    }

    /// The permissions held, each once, in no particular order.
    pub fn to_vec(&self) -> (r: Vec<HivePermission>)
        ensures
            forall|p: PermissionV| #[trigger] self.perms().contains(p) <==> exists|i: int|
                0 <= i < r@.len() && r@[i]@ == p,
            self.wf() ==> forall|i: int, j: int| 0 <= i < j < r@.len() ==> r@[i]@ != r@[j]@,
    {
        let mut out: Vec<HivePermission> = Vec::new();
        let mut k: usize = 0;
        while k < self.set.len()
            invariant
                k <= self.set@.len(),
                out@.len() == k,
                forall|i: int| 0 <= i < k ==> (#[trigger] out@[i])@ == self.set@[i]@,
            decreases self.set@.len() - k,
        {
            out.push(self.set[k].duplicate());
            k = k + 1;
        }
        proof {
            assert forall|p: PermissionV| #[trigger] self.perms().contains(p) <==> exists|i: int|
                0 <= i < out@.len() && out@[i]@ == p by {
                let s = self.set@.map_values(|q: HivePermission| q@);
                if self.perms().contains(p) {
                    let i = choose|i: int| 0 <= i < s.len() && s[i] == p;
                    assert(out@[i]@ == p);
                }
                if exists|i: int| 0 <= i < out@.len() && out@[i]@ == p {
                    let i = choose|i: int| 0 <= i < out@.len() && out@[i]@ == p;
                    assert(s[i] == p);
                }
            }
        }
        out
    }
}

impl Default for HivePermissionSet {
    fn default() -> (r: HivePermissionSet)
        ensures
            r.wf(),
            r.perms() == Set::<PermissionV>::empty(),
    {
        let r = HivePermissionSet { set: Vec::new() };
        assert(r.perms() =~= Set::<PermissionV>::empty());
        r
    }
}

} // verus!
