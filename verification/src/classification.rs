//! Data-classification labels and the policy that decides which workspaces
//! may read which collections.

use vstd::prelude::*;
use crate::keyed::{keyed_map, distinct_keys, has_key, find_key, keyed_set, lemma_keyed_map_at};
use crate::text::{str_eq, append_str, uppercase, spec_uppercase, join_path, spec_join_path, spec_is_ascii,
    spec_ascii_uppercase, spec_ascii_lowercase, ascii_upper_char, ascii_lower_char};

verus! {

/// Sensitivity of data, from least to most restricted: `Public`,
/// `Internal`, `Confidential` and `Restricted`, then the regulated
/// categories `Pii` and `Phi`.
#[derive(Debug, Clone, Copy, PartialEq, Eq, Hash, Structural)]
pub enum DataLabel {
    Public,
    Internal,
    Confidential,
    Restricted,
    Pii,
    Phi,
}

/// The rank of a label: the higher, the more restricted.
pub open spec fn spec_level(l: DataLabel) -> u8 {
    match l {
        DataLabel::Public => 0,
        DataLabel::Internal => 1,
        DataLabel::Confidential => 2,
        DataLabel::Restricted => 3,
        DataLabel::Pii => 4,
        DataLabel::Phi => 5,
    }
}

/// The upper-case name of a label.
pub open spec fn spec_label_name(l: DataLabel) -> Seq<char> {
    match l {
        DataLabel::Public => "PUBLIC"@,
        DataLabel::Internal => "INTERNAL"@,
        DataLabel::Confidential => "CONFIDENTIAL"@,
        DataLabel::Restricted => "RESTRICTED"@,
        DataLabel::Pii => "PII"@,
        DataLabel::Phi => "PHI"@,
    }
}

/// The label named by already upper-cased text, or the message refusing it.
pub open spec fn spec_label_from_upper(u: Seq<char>) -> Result<DataLabel, Seq<char>> {
    if u == "PUBLIC"@ {
        Ok(DataLabel::Public)
    } else if u == "INTERNAL"@ {
        Ok(DataLabel::Internal)
    } else if u == "CONFIDENTIAL"@ {
        Ok(DataLabel::Confidential)
    } else if u == "RESTRICTED"@ {
        Ok(DataLabel::Restricted)
    } else if u == "PII"@ {
        Ok(DataLabel::Pii)
    } else if u == "PHI"@ {
        Ok(DataLabel::Phi)
    } else {
        Err("unknown data label '"@ + u + "' (expected: PUBLIC, INTERNAL, CONFIDENTIAL, RESTRICTED, PII, PHI)"@)
    }
}

impl DataLabel {
    /// The label's upper-case name.
    pub fn as_str(&self) -> (r: &'static str)
        ensures
            r@ == spec_label_name(*self),
    {
        match self {
            DataLabel::Public => "PUBLIC",
            DataLabel::Internal => "INTERNAL",
            DataLabel::Confidential => "CONFIDENTIAL",
            DataLabel::Restricted => "RESTRICTED",
            DataLabel::Pii => "PII",
            DataLabel::Phi => "PHI",
        }
    }

    /// The label's rank, 0 for `Public` up to 5 for `Phi`.
    pub fn level(&self) -> (r: u8)
        ensures
            r == spec_level(*self),
    {
        match self {
            DataLabel::Public => 0,
            DataLabel::Internal => 1,
            DataLabel::Confidential => 2,
            DataLabel::Restricted => 3,
            DataLabel::Pii => 4,
            DataLabel::Phi => 5,
        }
    }

    /// Reads a label from text that has already been upper-cased.
    pub fn from_upper(u: &str) -> (r: Result<DataLabel, String>)
        ensures
            match r {
                Ok(l) => spec_label_from_upper(u@) == Ok::<DataLabel, Seq<char>>(l),
                Err(e) => spec_label_from_upper(u@) == Err::<DataLabel, Seq<char>>(e@),
            },
    {
        if str_eq(u, "PUBLIC") {
            Ok(DataLabel::Public)
        } else if str_eq(u, "INTERNAL") {
            Ok(DataLabel::Internal)
        } else if str_eq(u, "CONFIDENTIAL") {
            Ok(DataLabel::Confidential)
        } else if str_eq(u, "RESTRICTED") {
            Ok(DataLabel::Restricted)
        } else if str_eq(u, "PII") {
            Ok(DataLabel::Pii)
        } else if str_eq(u, "PHI") {
            Ok(DataLabel::Phi)
        } else {
            let mut e = String::new();
            append_str(&mut e, "unknown data label '");
            append_str(&mut e, u);
            append_str(&mut e, "' (expected: PUBLIC, INTERNAL, CONFIDENTIAL, RESTRICTED, PII, PHI)");
            Err(e)
        }
    }

    /// Reads a label by name, ignoring case.
    pub fn parse(s: &str) -> (r: Result<DataLabel, String>)
        ensures
            match r {
                Ok(l) => spec_label_from_upper(spec_uppercase(s@)) == Ok::<DataLabel, Seq<char>>(l),
                Err(e) => spec_label_from_upper(spec_uppercase(s@)) == Err::<DataLabel, Seq<char>>(e@),
            },
            spec_is_ascii(s@) ==> match r {
                Ok(l) => spec_label_from_upper(spec_ascii_uppercase(s@)) == Ok::<DataLabel, Seq<char>>(l),
                Err(e) => spec_label_from_upper(spec_ascii_uppercase(s@)) == Err::<DataLabel, Seq<char>>(e@),
            },
    {
        let u = uppercase(s);
        DataLabel::from_upper(u.as_str())
    }
}

impl core::str::FromStr for DataLabel {
    type Err = String;

    fn from_str(s: &str) -> (r: Result<DataLabel, String>)
        ensures
            match r {
                Ok(v) => spec_label_from_upper(spec_uppercase(s@)) == Ok::<DataLabel, Seq<char>>(v),
                Err(e) => spec_label_from_upper(spec_uppercase(s@)) == Err::<DataLabel, Seq<char>>(e@),
            },
            spec_is_ascii(s@) ==> match r {
                Ok(v) => spec_label_from_upper(spec_ascii_uppercase(s@)) == Ok::<DataLabel, Seq<char>>(v),
                Err(e) => spec_label_from_upper(spec_ascii_uppercase(s@)) == Err::<DataLabel, Seq<char>>(e@),
            },
    {
        DataLabel::parse(s)
    }
}

proof fn lemma_upper_letters_case_insensitive(s: Seq<char>)
    requires
        forall|i: int| 0 <= i < s.len() ==> 'A' <= #[trigger] s[i] && s[i] <= 'Z',
    ensures
        spec_is_ascii(s),
        spec_is_ascii(spec_ascii_lowercase(s)),
        spec_ascii_uppercase(s) == s,
        spec_ascii_uppercase(spec_ascii_lowercase(s)) == s,
{
    let lo = spec_ascii_lowercase(s);
    assert forall|i: int| 0 <= i < s.len() implies (s[i] as u32) < 128 && (#[trigger] lo[i] as u32) < 128
        && ascii_upper_char(s[i]) == s[i] && ascii_upper_char(lo[i]) == s[i] by {
        let c = s[i];
        assert(lo[i] == ascii_lower_char(c));
    }
    assert(spec_ascii_uppercase(s) =~= s);
    assert(spec_ascii_uppercase(lo) =~= s);
}

/// A label's name reads back as the label through the case-insensitive
/// parser, both as written and in lower case; names are plain ASCII, so
/// the case mapping is the ASCII one.
pub proof fn lemma_label_name_case_insensitive(l: DataLabel)
    ensures
        spec_is_ascii(spec_label_name(l)),
        spec_is_ascii(spec_ascii_lowercase(spec_label_name(l))),
        spec_label_from_upper(spec_ascii_uppercase(spec_label_name(l))) == Ok::<DataLabel, Seq<char>>(l),
        spec_label_from_upper(spec_ascii_uppercase(spec_ascii_lowercase(spec_label_name(l))))
            == Ok::<DataLabel, Seq<char>>(l),
{
    reveal_strlit("PUBLIC");
    reveal_strlit("INTERNAL");
    reveal_strlit("RESTRICTED");
    reveal_strlit("CONFIDENTIAL");
    reveal_strlit("PII");
    reveal_strlit("PHI");
    lemma_label_name_roundtrip(l);
    lemma_upper_letters_case_insensitive(spec_label_name(l));
}

/// A label's upper-case name reads back as the same label.
pub proof fn lemma_label_name_roundtrip(l: DataLabel)
    ensures
        spec_label_from_upper(spec_label_name(l)) == Ok::<DataLabel, Seq<char>>(l),
{
    reveal_strlit("PUBLIC");
    reveal_strlit("INTERNAL");
    reveal_strlit("RESTRICTED");
    reveal_strlit("CONFIDENTIAL");
    reveal_strlit("PII");
    reveal_strlit("PHI");
    assert("INTERNAL"@[0] != "PUBLIC"@[0]);
    assert("CONFIDENTIAL"@[0] != "PUBLIC"@[0]);
    assert("CONFIDENTIAL"@[0] != "INTERNAL"@[0]);
    assert("RESTRICTED"@[0] != "PUBLIC"@[0]);
    assert("RESTRICTED"@[0] != "INTERNAL"@[0]);
    assert("RESTRICTED"@[0] != "CONFIDENTIAL"@[0]);
    assert("PII"@.len() != "PUBLIC"@.len());
    assert("PII"@[0] != "INTERNAL"@[0]);
    assert("PII"@[0] != "CONFIDENTIAL"@[0]);
    assert("PII"@[0] != "RESTRICTED"@[0]);
    assert("PHI"@.len() != "PUBLIC"@.len());
    assert("PHI"@[0] != "INTERNAL"@[0]);
    assert("PHI"@[0] != "CONFIDENTIAL"@[0]);
    assert("PHI"@[0] != "RESTRICTED"@[0]);
    assert("PHI"@[1] != "PII"@[1]);
}

/// The policy attached to one collection.
#[derive(Debug, Clone, Copy, PartialEq, Eq, Structural)]
pub struct CollectionPolicy {
    pub label: DataLabel,
    pub block_on_violation: bool,
}

/// The default of `block_on_violation` when a stored policy leaves it out.
pub fn bool_true() -> (r: bool)
    ensures
        r,
{
    true
}

/// The policy attached to one workspace.
#[derive(Debug, Clone, Copy, PartialEq, Eq, Structural)]
pub struct WorkspacePolicy {
    pub max_clearance: DataLabel,
}

/// A collection whose label exceeds the clearance of the workspace asking for it.
#[derive(Debug, Clone)]
pub struct ViolationInfo {
    pub collection: String,
    pub required_label: DataLabel,
    pub workspace_clearance: DataLabel,
    pub block: bool,
}

/// Labels per collection and clearances per workspace.
#[derive(Debug)]
pub struct ClassificationPolicy {
    collections: Vec<(String, CollectionPolicy)>,
    workspaces: Vec<(String, WorkspacePolicy)>,
}

/// Whether a violation record reports `entry` against `clearance`.
pub open spec fn reports(v: ViolationInfo, key: Seq<char>, p: CollectionPolicy, clearance: DataLabel) -> bool {
    &&& v.collection@ == key
    &&& v.required_label == p.label
    &&& v.workspace_clearance == clearance
    &&& v.block == p.block_on_violation
}

/// The entries, in table order, whose label exceeds `clearance`.
pub open spec fn exceeding(entries: Seq<(String, CollectionPolicy)>, clearance: DataLabel) -> Seq<(String, CollectionPolicy)>
    decreases entries.len(),
{
    if entries.len() == 0 {
        Seq::empty()
    } else {
        let rest = exceeding(entries.drop_last(), clearance);
        let e = entries.last();
        if spec_level(e.1.label) > spec_level(clearance) {
            rest.push(e)
        } else {
            rest
        }
    }
}

impl ClassificationPolicy {
    /// No collection and no workspace is listed twice.
    pub closed spec fn wf(&self) -> bool {
        &&& distinct_keys(self.collections@)
        &&& distinct_keys(self.workspaces@)
    }

    /// The collection entries in table order.
    pub closed spec fn collection_entries(&self) -> Seq<(String, CollectionPolicy)> {
        self.collections@
    }

    /// The policy of each labelled collection.
    pub closed spec fn collections_view(&self) -> Map<Seq<char>, CollectionPolicy> {
        keyed_map(self.collections@)
    }

    /// The policy of each workspace with a recorded clearance.
    pub closed spec fn workspaces_view(&self) -> Map<Seq<char>, WorkspacePolicy> {
        keyed_map(self.workspaces@)
    }

    /// The clearance of a workspace: its recorded one, `Public` when it has none.
    pub open spec fn spec_clearance(&self, ws: Seq<char>) -> DataLabel {
        if self.workspaces_view().dom().contains(ws) {
            self.workspaces_view()[ws].max_clearance
        } else {
            DataLabel::Public
        }
    }

    /// Whether reading `col` from workspace `ws` breaches the policy.
    pub open spec fn spec_violates(&self, ws: Seq<char>, col: Seq<char>) -> bool {
        &&& self.collections_view().dom().contains(col)
        &&& spec_level(self.collections_view()[col].label) > spec_level(self.spec_clearance(ws))
    }

    /// A policy with no labels and no clearances.
    pub fn new() -> (r: ClassificationPolicy)
        ensures
            r.wf(),
            r.collections_view() == Map::<Seq<char>, CollectionPolicy>::empty(),
            r.workspaces_view() == Map::<Seq<char>, WorkspacePolicy>::empty(),
            r.collection_entries().len() == 0,
    {
        let r = ClassificationPolicy { collections: Vec::new(), workspaces: Vec::new() };
        assert(r.collections_view() =~= Map::<Seq<char>, CollectionPolicy>::empty());
        assert(r.workspaces_view() =~= Map::<Seq<char>, WorkspacePolicy>::empty());
        r
    }

    /// Where the policy is stored below the data directory.
    pub fn policy_path(data_dir: &str) -> (r: String)
        ensures
            r@ == spec_join_path(spec_join_path(data_dir@, "classification"@), "policy.json"@),
    {
        let d = join_path(data_dir, "classification");
        join_path(d.as_str(), "policy.json")
    }

    /// The policy of a collection, if it has one.
    pub fn collection_label(&self, collection: &str) -> (r: Option<&CollectionPolicy>)
        requires
            self.wf(),
        ensures
            match r {
                Some(p) => self.collections_view().dom().contains(collection@)
                    && *p == self.collections_view()[collection@],
                None => !self.collections_view().dom().contains(collection@),
            },
    {
        match find_key(&self.collections, collection) {
            Some(i) => {
                proof { lemma_keyed_map_at(self.collections@, i as int); }
                Some(&self.collections[i].1)
            },
            None => None,
        }
    }

    /// The highest label a workspace may read; `Public` for a workspace with no policy.
    pub fn workspace_clearance(&self, workspace_slug: &str) -> (r: DataLabel)
        requires
            self.wf(),
        ensures
            r == self.spec_clearance(workspace_slug@),
    {
        match find_key(&self.workspaces, workspace_slug) {
            Some(i) => {
                proof { lemma_keyed_map_at(self.workspaces@, i as int); }
                self.workspaces[i].1.max_clearance
            },
            None => DataLabel::Public,
        }
    }

    /// The violation, if reading `collection` from `workspace_slug` breaches the policy.
    pub fn check_access(&self, workspace_slug: &str, collection: &str) -> (r: Option<ViolationInfo>)
        requires
            self.wf(),
        ensures
            match r {
                Some(v) => self.spec_violates(workspace_slug@, collection@) && reports(
                    v,
                    collection@,
                    self.collections_view()[collection@],
                    self.spec_clearance(workspace_slug@),
                ),
                None => !self.spec_violates(workspace_slug@, collection@),
            },
    {
        let clearance = self.workspace_clearance(workspace_slug);
        match self.collection_label(collection) {
            Some(p) => {
                if p.label.level() > clearance.level() {
                    Some(ViolationInfo {
                        collection: collection.to_owned(),
                        required_label: p.label,
                        workspace_clearance: clearance,
                        block: p.block_on_violation,
                    })
                } else {
                    None
                }
            },
            None => None,
        }
    }

    /// Labels a collection, replacing any label it had.
    pub fn set_collection_label(&mut self, collection: &str, label: DataLabel, block_on_violation: bool)
        requires
            old(self).wf(),
        ensures
            final(self).wf(),
            final(self).collections_view() == old(self).collections_view().insert(
                collection@,
                CollectionPolicy { label, block_on_violation },
            ),
            final(self).workspaces_view() == old(self).workspaces_view(),
    {
        keyed_set(&mut self.collections, collection, CollectionPolicy { label, block_on_violation });
    }

    /// Records the clearance of a workspace, replacing any it had.
    pub fn set_workspace_policy(&mut self, workspace_slug: &str, policy: WorkspacePolicy)
        requires
            old(self).wf(),
        ensures
            final(self).wf(),
            final(self).workspaces_view() == old(self).workspaces_view().insert(workspace_slug@, policy),
            final(self).collections_view() == old(self).collections_view(),
            final(self).collection_entries() == old(self).collection_entries(),
    {
        keyed_set(&mut self.workspaces, workspace_slug, policy);
    }

    /// Every collection that workspace `workspace_slug` may not read, in table order.
    pub fn check_all_collections(&self, workspace_slug: &str) -> (r: Vec<ViolationInfo>)
        requires
            self.wf(),
        ensures
            r@.len() == exceeding(self.collection_entries(), self.spec_clearance(workspace_slug@)).len(),
            forall|i: int| 0 <= i < r@.len() ==> reports(
                #[trigger] r@[i],
                exceeding(self.collection_entries(), self.spec_clearance(workspace_slug@))[i].0@,
                exceeding(self.collection_entries(), self.spec_clearance(workspace_slug@))[i].1,
                self.spec_clearance(workspace_slug@),
            ),
    {
        let clearance = self.workspace_clearance(workspace_slug);
        let ghost entries = self.collections@;
        let mut out: Vec<ViolationInfo> = Vec::new();
        let mut i: usize = 0;
        while i < self.collections.len()
            invariant
                entries == self.collections@,
                0 <= i <= entries.len(),
                out@.len() == exceeding(entries.take(i as int), clearance).len(),
                forall|k: int| 0 <= k < out@.len() ==> reports(
                    #[trigger] out@[k],
                    exceeding(entries.take(i as int), clearance)[k].0@,
                    exceeding(entries.take(i as int), clearance)[k].1,
                    clearance,
                ),
            decreases entries.len() - i,
        {
            assert(entries.take(i + 1).drop_last() =~= entries.take(i as int));
            let p = self.collections[i].1;
            if p.label.level() > clearance.level() {
                out.push(ViolationInfo {
                    collection: self.collections[i].0.clone(),
                    required_label: p.label,
                    workspace_clearance: clearance,
                    block: p.block_on_violation,
                });
            }
            i = i + 1;
        }
        assert(entries.take(entries.len() as int) =~= entries);
        out
    }
}

/// An entry is among those exceeding a clearance exactly when its label ranks above it.
proof fn lemma_exceeding_members(entries: Seq<(String, CollectionPolicy)>, clearance: DataLabel, col: Seq<char>)
    ensures
        (exists|i: int| 0 <= i < exceeding(entries, clearance).len()
            && #[trigger] exceeding(entries, clearance)[i].0@ == col)
        <==> (exists|j: int| 0 <= j < entries.len() && #[trigger] entries[j].0@ == col
            && spec_level(entries[j].1.label) > spec_level(clearance)),
    decreases entries.len(),
{
    if entries.len() > 0 {
        let init = entries.drop_last();
        lemma_exceeding_members(init, clearance, col);
        let ex = exceeding(entries, clearance);
        let ex0 = exceeding(init, clearance);
        if exists|i: int| 0 <= i < ex.len() && #[trigger] ex[i].0@ == col {
            let i = choose|i: int| 0 <= i < ex.len() && #[trigger] ex[i].0@ == col;
            if i < ex0.len() {
                assert(ex0[i].0@ == col);
                let j = choose|j: int| 0 <= j < init.len() && #[trigger] init[j].0@ == col
                    && spec_level(init[j].1.label) > spec_level(clearance);
                assert(entries[j] == init[j]);
            } else {
                assert(entries[entries.len() - 1].0@ == col);
            }
        }
        if exists|j: int| 0 <= j < entries.len() && #[trigger] entries[j].0@ == col
            && spec_level(entries[j].1.label) > spec_level(clearance) {
            let j = choose|j: int| 0 <= j < entries.len() && #[trigger] entries[j].0@ == col
                && spec_level(entries[j].1.label) > spec_level(clearance);
            if j < init.len() {
                assert(init[j] == entries[j]);
                let i = choose|i: int| 0 <= i < ex0.len() && #[trigger] ex0[i].0@ == col;
                assert(ex[i] == ex0[i]);
            } else {
                assert(ex[ex.len() - 1].0@ == col);
            }
        }
    }
}

/// A collection is reported by `check_all_collections` exactly when
/// `check_access` refuses it to the same workspace.
pub proof fn lemma_check_all_agrees_with_check_access(p: ClassificationPolicy, ws: Seq<char>, col: Seq<char>)
    requires
        p.wf(),
    ensures
        (exists|i: int| 0 <= i < exceeding(p.collection_entries(), p.spec_clearance(ws)).len()
            && #[trigger] exceeding(p.collection_entries(), p.spec_clearance(ws))[i].0@ == col)
        <==> p.spec_violates(ws, col),
{
    let entries = p.collection_entries();
    let clr = p.spec_clearance(ws);
    assert(p.collections_view() == keyed_map(entries));
    lemma_exceeding_members(entries, clr, col);
    if exists|j: int| 0 <= j < entries.len() && #[trigger] entries[j].0@ == col
        && spec_level(entries[j].1.label) > spec_level(clr) {
        let j = choose|j: int| 0 <= j < entries.len() && #[trigger] entries[j].0@ == col
            && spec_level(entries[j].1.label) > spec_level(clr);
        lemma_keyed_map_at(entries, j);
        assert(p.collections_view()[col] == entries[j].1);
    }
    if p.spec_violates(ws, col) {
        assert(has_key(entries, col));
        let j = choose|j: int| 0 <= j < entries.len() && #[trigger] entries[j].0@ == col;
        lemma_keyed_map_at(entries, j);
        assert(entries[j].0@ == col && spec_level(entries[j].1.label) > spec_level(clr));
    }
}

/// The entries exceeding a clearance are entries of the table, each ranked
/// above the clearance, and no key occurs among them twice.
proof fn lemma_exceeding_from_entries(entries: Seq<(String, CollectionPolicy)>, clearance: DataLabel)
    requires
        distinct_keys(entries),
    ensures
        distinct_keys(exceeding(entries, clearance)),
        forall|i: int| 0 <= i < exceeding(entries, clearance).len() ==> exists|j: int| 0 <= j < entries.len()
            && entries[j] == #[trigger] exceeding(entries, clearance)[i]
            && spec_level(entries[j].1.label) > spec_level(clearance),
    decreases entries.len(),
{
    if entries.len() > 0 {
        let init = entries.drop_last();
        assert(distinct_keys(init)) by {
            assert forall|i: int, j: int| 0 <= i < init.len() && 0 <= j < init.len() && i != j
                implies #[trigger] init[i].0@ != #[trigger] init[j].0@ by {
                assert(init[i] == entries[i] && init[j] == entries[j]);
            }
        }
        lemma_exceeding_from_entries(init, clearance);
        let ex0 = exceeding(init, clearance);
        let ex = exceeding(entries, clearance);
        let last = entries.last();
        assert forall|i: int| 0 <= i < ex.len() implies exists|j: int| 0 <= j < entries.len()
            && entries[j] == #[trigger] ex[i] && spec_level(entries[j].1.label) > spec_level(clearance) by {
            if i < ex0.len() {
                assert(ex[i] == ex0[i]);
                let j = choose|j: int| 0 <= j < init.len() && init[j] == #[trigger] ex0[i]
                    && spec_level(init[j].1.label) > spec_level(clearance);
                assert(entries[j] == init[j]);
            } else {
                assert(ex[i] == entries[entries.len() - 1]);
            }
        }
        if spec_level(last.1.label) > spec_level(clearance) {
            assert forall|a: int, b: int| 0 <= a < ex.len() && 0 <= b < ex.len() && a != b
                implies #[trigger] ex[a].0@ != #[trigger] ex[b].0@ by {
                if a < ex0.len() && b < ex0.len() {
                    assert(ex[a] == ex0[a] && ex[b] == ex0[b]);
                } else if a < ex0.len() {
                    assert(ex[a] == ex0[a]);
                    let j = choose|j: int| 0 <= j < init.len() && init[j] == #[trigger] ex0[a]
                        && spec_level(init[j].1.label) > spec_level(clearance);
                    assert(entries[j] == init[j]);
                    assert(entries[j].0@ != entries[entries.len() - 1].0@);
                } else {
                    assert(ex[b] == ex0[b]);
                    let j = choose|j: int| 0 <= j < init.len() && init[j] == #[trigger] ex0[b]
                        && spec_level(init[j].1.label) > spec_level(clearance);
                    assert(entries[j] == init[j]);
                    assert(entries[j].0@ != entries[entries.len() - 1].0@);
                }
            }
        }
    }
}

/// What `check_all_collections` reports for a workspace names each refused
/// collection once, and each report is the one `check_access` gives for
/// that collection: its key violates the policy and its label, block flag
/// and clearance are the policy's.
pub proof fn lemma_check_all_reports_each_violation_once(p: ClassificationPolicy, ws: Seq<char>)
    requires
        p.wf(),
    ensures
        forall|a: int, b: int| 0 <= a < b < exceeding(p.collection_entries(), p.spec_clearance(ws)).len()
            ==> #[trigger] exceeding(p.collection_entries(), p.spec_clearance(ws))[a].0@
                != #[trigger] exceeding(p.collection_entries(), p.spec_clearance(ws))[b].0@,
        forall|i: int| 0 <= i < exceeding(p.collection_entries(), p.spec_clearance(ws)).len() ==> {
            let e = #[trigger] exceeding(p.collection_entries(), p.spec_clearance(ws))[i];
            &&& p.spec_violates(ws, e.0@)
            &&& p.collections_view()[e.0@] == e.1
        },
{
    let entries = p.collection_entries();
    let clr = p.spec_clearance(ws);
    let ex = exceeding(entries, clr);
    assert(p.collections_view() == keyed_map(entries));
    lemma_exceeding_from_entries(entries, clr);
    assert forall|a: int, b: int| 0 <= a < b < ex.len() implies #[trigger] ex[a].0@ != #[trigger] ex[b].0@ by {
        assert(a != b);
    }
    assert forall|i: int| 0 <= i < ex.len() implies {
        let e = #[trigger] ex[i];
        &&& p.spec_violates(ws, e.0@)
        &&& p.collections_view()[e.0@] == e.1
    } by {
        let j = choose|j: int| 0 <= j < entries.len() && entries[j] == #[trigger] ex[i]
            && spec_level(entries[j].1.label) > spec_level(clr);
        lemma_keyed_map_at(entries, j);
    }
}

/// A workspace's clearance only grows more permissive as it is raised: what a
/// workspace may read at one clearance it may still read at any higher one.
pub proof fn lemma_raising_clearance_keeps_access(p: ClassificationPolicy, q: ClassificationPolicy, ws: Seq<char>, col: Seq<char>)
    requires
        q.collections_view() == p.collections_view(),
        spec_level(p.spec_clearance(ws)) <= spec_level(q.spec_clearance(ws)),
    ensures
        !p.spec_violates(ws, col) ==> !q.spec_violates(ws, col),
{
}

/// A label just set on a collection is the one read back, and no other
/// collection's label changes.
pub proof fn lemma_label_read_after_write(p: ClassificationPolicy, q: ClassificationPolicy, col: Seq<char>, other: Seq<char>, pol: CollectionPolicy)
    requires
        q.collections_view() == p.collections_view().insert(col, pol),
    ensures
        q.collections_view().dom().contains(col),
        q.collections_view()[col] == pol,
        other != col ==> (q.collections_view().dom().contains(other) == p.collections_view().dom().contains(other)),
        other != col && p.collections_view().dom().contains(other) ==> q.collections_view()[other] == p.collections_view()[other],
{
}

/// A copy of a table whose keys are copied one by one.
fn copy_entries<V: Copy>(v: &Vec<(String, V)>) -> (r: Vec<(String, V)>)
    ensures
        r@.len() == v@.len(),
        forall|i: int| 0 <= i < v@.len() ==> (#[trigger] r@[i]).0@ == v@[i].0@ && r@[i].1 == v@[i].1,
{
    let mut r: Vec<(String, V)> = Vec::new();
    let mut i: usize = 0;
    while i < v.len()
        invariant
            0 <= i <= v@.len(),
            r@.len() == i,
            forall|k: int| 0 <= k < i ==> (#[trigger] r@[k]).0@ == v@[k].0@ && r@[k].1 == v@[k].1,
        decreases v@.len() - i,
    {
        r.push((v[i].0.clone(), v[i].1));
        i = i + 1;
    }
    r
}

/// Copies with the same keys and values keep the same map.
proof fn lemma_copy_same_map<V>(a: Seq<(String, V)>, b: Seq<(String, V)>)
    requires
        a.len() == b.len(),
        forall|i: int| 0 <= i < a.len() ==> (#[trigger] b[i]).0@ == a[i].0@ && b[i].1 == a[i].1,
        distinct_keys(a),
    ensures
        distinct_keys(b),
        keyed_map(b) == keyed_map(a),
{
    assert forall|i: int, j: int| 0 <= i < b.len() && 0 <= j < b.len() && i != j
        implies #[trigger] b[i].0@ != #[trigger] b[j].0@ by {
        assert(a[i].0@ != a[j].0@);
    }
    assert forall|k: Seq<char>| #[trigger] keyed_map(b).dom().contains(k) <==> keyed_map(a).dom().contains(k) by {
        if has_key(a, k) {
            let i = choose|i: int| 0 <= i < a.len() && #[trigger] a[i].0@ == k;
            assert(b[i].0@ == k);
        }
        if has_key(b, k) {
            let i = choose|i: int| 0 <= i < b.len() && #[trigger] b[i].0@ == k;
            assert(a[i].0@ == k);
        }
    }
    assert forall|k: Seq<char>| #[trigger] keyed_map(b).dom().contains(k) implies keyed_map(b)[k] == keyed_map(a)[k] by {
        let i = choose|i: int| 0 <= i < b.len() && #[trigger] b[i].0@ == k;
        lemma_keyed_map_at(a, i);
        lemma_keyed_map_at(b, i);
    }
    assert(keyed_map(b) =~= keyed_map(a));
}

impl Clone for ClassificationPolicy {
    fn clone(&self) -> (r: ClassificationPolicy)
        ensures
            self.wf() ==> r.wf(),
            self.wf() ==> r.collections_view() == self.collections_view(),
            self.wf() ==> r.workspaces_view() == self.workspaces_view(),
    {
        let collections = copy_entries(&self.collections);
        let workspaces = copy_entries(&self.workspaces);
        proof {
            if self.wf() {
                lemma_copy_same_map(self.collections@, collections@);
                lemma_copy_same_map(self.workspaces@, workspaces@);
            }
        }
        ClassificationPolicy { collections, workspaces }
    }
}

impl Default for ClassificationPolicy {
    fn default() -> (r: ClassificationPolicy)
        ensures
            r.wf(),
            r.collections_view() == Map::<Seq<char>, CollectionPolicy>::empty(),
            r.workspaces_view() == Map::<Seq<char>, WorkspacePolicy>::empty(),
    {
        ClassificationPolicy::new()
    }
}

/// Labels rank strictly in their documented order, Public, Internal,
/// Confidential, Restricted, PII, PHI, so no two labels share a rank.
pub proof fn lemma_label_levels_ordered(a: DataLabel, b: DataLabel)
    ensures
        spec_level(DataLabel::Public) < spec_level(DataLabel::Internal),
        spec_level(DataLabel::Internal) < spec_level(DataLabel::Confidential),
        spec_level(DataLabel::Confidential) < spec_level(DataLabel::Restricted),
        spec_level(DataLabel::Restricted) < spec_level(DataLabel::Pii),
        spec_level(DataLabel::Pii) < spec_level(DataLabel::Phi),
        a != b ==> spec_level(a) != spec_level(b),
{
}

/// The labels from least to most sensitive, as documented.
pub open spec fn label_order() -> Seq<DataLabel> {
    seq![DataLabel::Public, DataLabel::Internal, DataLabel::Confidential, DataLabel::Restricted, DataLabel::Pii,
        DataLabel::Phi]
}

/// Reading a collection is a violation exactly when the collection is
/// labelled and its label comes later in the documented order than the
/// workspace's clearance.
pub proof fn lemma_violation_follows_label_order(p: ClassificationPolicy, ws: Seq<char>, col: Seq<char>)
    ensures
        p.spec_violates(ws, col) <==> p.collections_view().dom().contains(col) && exists|i: int, j: int|
            0 <= j < i < 6 && #[trigger] label_order()[i] == p.collections_view()[col].label
                && #[trigger] label_order()[j] == p.spec_clearance(ws),
{
    let o = label_order();
    assert forall|l: DataLabel| #[trigger] o[spec_level(l) as int] == l by {}
    assert forall|i: int| 0 <= i < 6 implies spec_level(#[trigger] o[i]) == i by {}
    if p.collections_view().dom().contains(col) {
        let l = p.collections_view()[col].label;
        let c = p.spec_clearance(ws);
        if spec_level(l) > spec_level(c) {
            assert(o[spec_level(l) as int] == l && o[spec_level(c) as int] == c);
        }
    }
}

} // verus!
